use migrate_wicked::cli::{
    parse_wicked_command, CliResult, FileError, WickedAction, WickedAdapter, WickedCommands,
};
use migrate_wicked::dict::{key_less, latest_entries, Dict};
use migrate_wicked::interface::{Bond, BondMode, Interface, Link, ParentKind};
use migrate_wicked::ip::{IpAddr, IpInet};
use migrate_wicked::migrate::{
    gather_connections, InterfaceMigration, update_bridge_ports, update_parent_connection, Connection, MigrateError, MigrationSettings,
    PortConfig,
};
use migrate_wicked::netconfig::{global_dns_conf_path, netconfig_from_variables, nmconf_netconfig_entries, Netconfig};
use migrate_wicked::network::BridgePortConfig;
use migrate_wicked::reader::{post_process_interface, replace_colons};
use migrate_wicked::text::{join_strings, remove_all_str, split_on_char, u32_to_decimal};
use uuid::Uuid;

fn bond_of(mode: BondMode) -> Bond {
    Bond {
        mode,
        miimon: None,
        arpmon: None,
        slaves: vec![],
        xmit_hash_policy: None,
        packets_per_slave: None,
        tlb_dynamic_lb: None,
        lacp_rate: None,
        ad_select: None,
        ad_user_port_key: None,
        ad_actor_sys_prio: None,
        ad_actor_system: None,
        min_links: None,
        primary_reselect: None,
        fail_over_mac: None,
        num_grat_arp: None,
        num_usol_na: None,
        lp_interval: None,
        resend_igmp: None,
        all_slaves_active: None,
    }
}

#[test]
fn decimal_rendering() {
    assert_eq!(u32_to_decimal(0), "0");
    assert_eq!(u32_to_decimal(7), "7");
    assert_eq!(u32_to_decimal(1234), "1234");
    assert_eq!(u32_to_decimal(u32::MAX), u32::MAX.to_string());
}

#[test]
fn split_and_join() {
    assert_eq!(split_on_char("a b  c", ' '), vec!["a", "b", "", "c"]);
    assert_eq!(split_on_char("", ' '), vec![""]);
    assert_eq!(split_on_char(" x", ' '), vec!["", "x"]);
    let parts = vec!["1.2.3.4".to_string(), "4.3.2.1".to_string()];
    assert_eq!(join_strings(&parts, ","), "1.2.3.4,4.3.2.1");
    assert_eq!(join_strings(&vec![], ","), "");
    assert_eq!(remove_all_str("a--b-", "-"), "ab");
}

#[test]
fn replace_colons_in_tags() {
    let r = replace_colons("<ipv4:static><address>1</address></ipv4:static>");
    assert_eq!(r, "<ipv4-static><address>1</address></ipv4-static>");
    let r = replace_colons("<a>b:c</a>");
    assert_eq!(r, "<a>b:c</a>");
}

#[test]
fn post_process_marks_bond_slaves() {
    let mut ifcs = vec![
        Interface { name: "bond0".to_string(), bond: Some(bond_of(BondMode::ActiveBackup)), ..Default::default() },
        Interface {
            name: "en0".to_string(),
            link: Link { parent: Some("bond0".to_string()), kind: None },
            ..Default::default()
        },
        Interface {
            name: "en1".to_string(),
            link: Link { parent: Some("br0".to_string()), kind: None },
            ..Default::default()
        },
        Interface { name: "br0".to_string(), ..Default::default() },
    ];
    post_process_interface(&mut ifcs);
    assert_eq!(ifcs[0].link.kind, None);
    assert_eq!(ifcs[1].link.kind, Some(ParentKind::Bond));
    assert_eq!(ifcs[2].link.kind, None);
    assert_eq!(ifcs[3].link.kind, None);
    // idempotent
    post_process_interface(&mut ifcs);
    assert_eq!(ifcs[1].link.kind, Some(ParentKind::Bond));
    assert_eq!(ifcs[2].link.kind, None);
}

#[test]
fn ip_texts() {
    let i = IpInet::parse("192.168.1.5/24").unwrap();
    assert_eq!(i.network_length(), 24);
    assert_eq!(i.address, IpAddr::V4(0xc0a80105));
    assert_eq!(i.to_string(), "192.168.1.5/24");
    assert_eq!(IpInet::parse("10.0.0.1").unwrap().network_length(), 32);
    assert!(IpInet::parse("10.0.0.1/33").is_none());
    assert_eq!(IpAddr::parse("::1"), Some(IpAddr::V6(1)));
    assert_eq!(IpAddr::parse("::1/128"), None);
    assert_eq!(IpAddr::V4(0x7f000001).to_string(), "127.0.0.1");
}

#[test]
fn netconfig_variables() {
    let s = |v: &str| Some(v.to_string());
    let n = netconfig_from_variables(&s("auto STATIC"), &s("1.1.1.1 8.8.8.8"), &s(""));
    assert_eq!(n.static_dns_servers, Some(vec!["1.1.1.1".to_string(), "8.8.8.8".to_string()]));
    assert_eq!(n.static_dns_searchlist, None);
    let n = netconfig_from_variables(&s("auto"), &s("1.1.1.1"), &s("example.com"));
    assert_eq!(n, Netconfig::default());
    let n = netconfig_from_variables(&None, &None, &s("a.com b.com"));
    assert_eq!(n.static_dns_searchlist, Some(vec!["a.com".to_string(), "b.com".to_string()]));
}

#[test]
fn nmconf_entries() {
    assert_eq!(nmconf_netconfig_entries(&Netconfig::default()), None);
    let n = Netconfig {
        static_dns_servers: Some(vec!["1.1.1.1".to_string(), "8.8.8.8".to_string()]),
        static_dns_searchlist: Some(vec!["example.com".to_string()]),
    };
    let e = nmconf_netconfig_entries(&n).unwrap();
    assert_eq!(
        e,
        vec![
            ("global-dns".to_string(), "servers".to_string(), "example.com".to_string()),
            ("global-dns-domain-*".to_string(), "servers".to_string(), "1.1.1.1,8.8.8.8".to_string()),
        ]
    );
    assert_eq!(global_dns_conf_path("/etc/NetworkManager/conf.d"), "/etc/NetworkManager/conf.d/global_dns.conf");
}

#[test]
fn non_static_policy_writes_nothing() {
    let n = netconfig_from_variables(&Some("auto".to_string()), &Some("1.1.1.1".to_string()), &None);
    assert_eq!(nmconf_netconfig_entries(&n), None);
}

fn conn(id: &str, interface: Option<&str>, n: u128) -> Connection {
    Connection {
        id: id.to_string(),
        interface: interface.map(|s| s.to_string()),
        uuid: Uuid::from_u128(n),
        controller: None,
        port_config: PortConfig::Unset,
    }
}

fn settings(continue_migration: bool) -> MigrationSettings {
    MigrationSettings { continue_migration, dry_run: false, activate_connections: true }
}

#[test]
fn parents_are_linked() {
    let mut conns = vec![conn("bond0", Some("bond0"), 1), conn("en0", Some("en0"), 2), conn("en1", Some("en1"), 3)];
    let parents = vec![("en0".to_string(), "bond0".to_string()), ("en1".to_string(), "bond0".to_string())];
    assert_eq!(update_parent_connection(&mut conns, &parents, &settings(false)), Ok(()));
    assert_eq!(conns[0].controller, None);
    assert_eq!(conns[1].controller, Some(Uuid::from_u128(1)));
    assert_eq!(conns[2].controller, Some(Uuid::from_u128(1)));
}

#[test]
fn missing_parent() {
    let mut conns = vec![conn("en0", Some("en0"), 2)];
    let parents = vec![("en0".to_string(), "bond0".to_string())];
    assert_eq!(
        update_parent_connection(&mut conns, &parents, &settings(false)),
        Err(MigrateError::MissingParent("en0".to_string()))
    );
    assert_eq!(conns[0].controller, None);
    assert_eq!(update_parent_connection(&mut conns, &parents, &settings(true)), Ok(()));
    assert_eq!(conns[0].controller, None);

    let mut conns = vec![conn("bond0", Some("bond0"), 1), conn("x", Some("en9"), 2)];
    let parents = vec![("en0".to_string(), "bond0".to_string())];
    assert_eq!(
        update_parent_connection(&mut conns, &parents, &settings(false)),
        Err(MigrateError::MissingConnection("en0".to_string()))
    );
}

#[test]
fn bridge_ports_are_configured() {
    let mut conns = vec![conn("br0", Some("br0"), 1), conn("port", Some("en0"), 2)];
    let cfg = BridgePortConfig { priority: Some(5), path_cost: None };
    let ports = vec![("en0".to_string(), cfg), ("en7".to_string(), cfg)];
    assert_eq!(
        update_bridge_ports(&mut conns, &ports, &settings(false)),
        Err(MigrateError::MissingBridgePort("en7".to_string()))
    );
    assert_eq!(conns[1].port_config, PortConfig::Bridge(cfg));
    assert_eq!(conns[0].port_config, PortConfig::Unset);

    let mut conns = vec![conn("br0", Some("br0"), 1), conn("port", Some("en0"), 2)];
    assert_eq!(update_bridge_ports(&mut conns, &ports, &settings(true)), Ok(()));
    assert_eq!(conns[1].port_config, PortConfig::Bridge(cfg));
}

#[test]
fn cli_commands() {
    assert_eq!(
        parse_wicked_command(WickedCommands::Show { path: "/etc".to_string() }),
        WickedAction::Show("/etc".to_string())
    );
    assert_eq!(
        parse_wicked_command(WickedCommands::Migrate { path: "/x".to_string() }),
        WickedAction::Migrate("/x".to_string())
    );
    assert_eq!(CliResult::Success.code(), 0);
    assert_eq!(CliResult::Error.code(), 1);
    assert_eq!(WickedAdapter::new("/etc/sysconfig/network").path, "/etc/sysconfig/network");
    assert_eq!(
        FileError::OwnerChangeError("chown".to_string(), "denied".to_string()).message(),
        "Failed to change owner: command 'chown' stderr 'denied'"
    );
    assert_eq!(FileError::Unreachable("404".to_string()).message(), "Could not fetch the file: '404'");
    assert_eq!(FileError::FileSourceError("bad".to_string()).message(), "bad");
}

fn migration(connections: Vec<Connection>, warnings: Vec<&str>, master: Option<&str>, ports: Vec<(&str, BridgePortConfig)>) -> InterfaceMigration {
    InterfaceMigration {
        connections,
        warnings: warnings.into_iter().map(|w| w.to_string()).collect(),
        master: master.map(|m| m.to_string()),
        bridge_ports: ports.into_iter().map(|(i, c)| (i.to_string(), c)).collect(),
    }
}

#[test]
fn gather_links_bonds_and_bridges() {
    let cfg = BridgePortConfig { priority: Some(1), path_cost: Some(4) };
    let ifcs = vec![
        migration(vec![conn("bond0", Some("bond0"), 1)], vec![], None, vec![]),
        migration(vec![conn("en0", Some("en0"), 2)], vec![], Some("bond0"), vec![]),
        migration(vec![conn("br0", Some("br0"), 3)], vec![], None, vec![("en1", cfg)]),
        migration(vec![conn("en1", Some("en1"), 4)], vec![], None, vec![]),
    ];
    let conns = gather_connections(&None, &ifcs, &settings(false)).unwrap();
    assert_eq!(conns.len(), 4);
    assert_eq!(conns[1].controller, Some(Uuid::from_u128(1)));
    assert_eq!(conns[3].port_config, PortConfig::Bridge(cfg));
    assert_eq!(conns[0].controller, None);
    assert_eq!(conns[2].port_config, PortConfig::Unset);
    assert_eq!(conns[0].duplicate(), conns[0]);
}

#[test]
fn gather_stops_on_warnings() {
    let ifcs = vec![
        migration(vec![conn("a", Some("a"), 1)], vec![], None, vec![]),
        migration(vec![conn("b", Some("b"), 2)], vec!["odd setting"], None, vec![]),
    ];
    assert_eq!(
        gather_connections(&None, &ifcs, &settings(false)),
        Err(MigrateError::MigrationFailed("b".to_string()))
    );
    assert_eq!(gather_connections(&None, &ifcs, &settings(true)).unwrap().len(), 2);
    assert_eq!(
        gather_connections(&Some("unreadable".to_string()), &ifcs, &settings(false)),
        Err(MigrateError::ReadWarning("unreadable".to_string()))
    );
    let ifcs = vec![migration(vec![conn("en0", Some("en0"), 2)], vec![], Some("bond9"), vec![])];
    assert_eq!(
        gather_connections(&None, &ifcs, &settings(false)),
        Err(MigrateError::MissingParent("en0".to_string()))
    );
}

#[test]
fn gather_keeps_the_last_parent_of_an_id() {
    let ifcs = vec![
        migration(vec![conn("bond0", Some("bond0"), 1)], vec![], None, vec![]),
        migration(vec![conn("x", Some("x"), 2)], vec![], Some("ghost"), vec![]),
        migration(vec![conn("x", Some("y"), 3)], vec![], Some("bond0"), vec![]),
    ];
    let conns = gather_connections(&None, &ifcs, &settings(false)).unwrap();
    assert_eq!(conns.len(), 3);
    assert_eq!(conns[1].controller, Some(Uuid::from_u128(1)));
    assert_eq!(conns[2].controller, None);
    let ifcs = vec![
        migration(vec![conn("bond0", Some("bond0"), 1)], vec![], None, vec![]),
        migration(vec![conn("x", Some("x"), 2)], vec![], Some("bond0"), vec![]),
        migration(vec![conn("x", Some("y"), 3)], vec![], Some("ghost"), vec![]),
    ];
    assert_eq!(
        gather_connections(&None, &ifcs, &settings(false)),
        Err(MigrateError::MissingParent("x".to_string()))
    );
}

#[test]
fn gather_keeps_the_last_settings_of_a_port() {
    let first = BridgePortConfig { priority: Some(1), path_cost: None };
    let last = BridgePortConfig { priority: Some(9), path_cost: Some(2) };
    let ifcs = vec![
        migration(vec![conn("br0", Some("br0"), 1)], vec![], None, vec![("en1", first)]),
        migration(vec![conn("br1", Some("br1"), 2)], vec![], None, vec![("en1", last)]),
        migration(vec![conn("en1", Some("en1"), 3)], vec![], None, vec![]),
    ];
    let conns = gather_connections(&None, &ifcs, &settings(false)).unwrap();
    assert_eq!(conns[2].port_config, PortConfig::Bridge(last));
}

#[test]
fn latest_entries_keep_one_entry_per_key() {
    let entries = vec![
        ("a".to_string(), 1u32),
        ("b".to_string(), 2),
        ("a".to_string(), 3),
        ("c".to_string(), 4),
        ("b".to_string(), 5),
    ];
    assert_eq!(
        latest_entries(entries),
        vec![("a".to_string(), 3), ("c".to_string(), 4), ("b".to_string(), 5)]
    );
    assert_eq!(latest_entries(Vec::<(String, u32)>::new()), vec![]);
}

#[test]
fn migrate_error_messages() {
    assert_eq!(MigrateError::MissingParent("en0".to_string()).message(), "Migration of en0 failed");
    assert_eq!(MigrateError::MigrationFailed("eth1".to_string()).message(), "Migration of eth1 failed");
    assert_eq!(
        MigrateError::MissingConnection("en0".to_string()).message(),
        "Unexpected failure - missing connection en0"
    );
    assert_eq!(
        MigrateError::MissingBridgePort("en7".to_string()).message(),
        "Migration failed, because bridge is missing port en7"
    );
    assert_eq!(MigrateError::ReadWarning("unreadable".to_string()).message(), "unreadable");
}

#[test]
fn inet_text_forms() {
    let i = IpInet::parse("192.168.1.5/24").unwrap();
    assert_eq!(i, IpInet { address: IpAddr::V4(0xc0a80105), network_length: 24 });
    assert_eq!(i.to_string(), "192.168.1.5/24");
    assert_eq!(IpInet::parse("10.0.0.1/+8").unwrap().network_length(), 8);
    assert_eq!(IpInet::parse("10.0.0.1/33"), None);
    assert_eq!(IpInet::parse("10.0.0.1/-1"), None);
    assert_eq!(IpInet::parse("010.0.0.1"), None);
    assert_eq!(IpInet::parse("10.0.0.1").unwrap().network_length(), 32);
    assert_eq!(IpInet::parse("::1/128").unwrap().to_string(), "::1");
    assert_eq!(IpInet::parse("fe80::1/64").unwrap().to_string(), "fe80::1/64");
    assert_eq!(IpAddr::parse("1.2.3.4"), Some(IpAddr::V4(0x01020304)));
    assert_eq!(IpAddr::parse("1.2.3.4/32"), None);
    assert_eq!(IpAddr::V4(0x01020304).to_string(), "1.2.3.4");
}

#[test]
fn dict_equality_ignores_insertion_order() {
    let mut a: Dict<String> = Dict::new();
    a.insert("mode".to_string(), "active-backup".to_string());
    a.insert("primary".to_string(), "en0".to_string());
    a.insert("miimon".to_string(), "100".to_string());
    let mut b: Dict<String> = Dict::new();
    b.insert("miimon".to_string(), "100".to_string());
    b.insert("primary".to_string(), "en1".to_string());
    b.insert("mode".to_string(), "active-backup".to_string());
    b.insert("primary".to_string(), "en0".to_string());
    assert_eq!(a, b);
    assert_eq!(b.entries.len(), 3);
    assert_eq!(b.get("primary"), Some(&"en0".to_string()));
    let keys: Vec<&str> = a.entries.iter().map(|(k, _)| k.as_str()).collect();
    assert_eq!(keys, vec!["miimon", "mode", "primary"]);
    assert!(key_less("ab", "b"));
    assert!(key_less("a", "ab"));
    assert!(!key_less("ab", "ab"));
    assert!(!key_less("b", "ab"));
}
