use migrate_wicked::connection::{Connection, IpMethod};
use migrate_wicked::interface::{
    Address, AdSelect, ArpMon, ArpValidate, ArpValidateTargets, Bond, BondMode, CarrierDetect,
    FailOverMac, Interface, Ipv4, Ipv4Static, Ipv6, Ipv6Static, LacpRate, Link, Miimon, Nexthop,
    ParentKind, PrimaryReselect, Route, Slave, XmitHashPolicy,
};

#[test]
fn test_static_interface_to_connection() {
    let static_interface = Interface {
        ipv4: Ipv4 {
            enabled: true,
            ..Default::default()
        },
        ipv4_static: Some(Ipv4Static {
            addresses: Some(vec![Address {
                local: "127.0.0.1/8".to_string(),
            }]),
            routes: Some(vec![Route {
                nexthops: Some(vec![Nexthop {
                    gateway: "127.0.0.1".to_string(),
                }]),
                ..Default::default()
            }]),
        }),
        ipv6: Ipv6 {
            enabled: true,
            ..Default::default()
        },
        ipv6_static: Some(Ipv6Static {
            addresses: Some(vec![Address {
                local: "::1/128".to_string(),
            }]),
            routes: Some(vec![Route {
                nexthops: Some(vec![Nexthop {
                    gateway: "::1".to_string(),
                }]),
                ..Default::default()
            }]),
        }),
        ..Default::default()
    };

    let static_connection = Connection::from_interface(static_interface);
    assert_eq!(static_connection.base().ip_config.method4, IpMethod::Manual);
    assert_eq!(
        static_connection.base().ip_config.addresses[0].to_string(),
        "127.0.0.1/8"
    );
    assert_eq!(static_connection.base().ip_config.method6, IpMethod::Manual);
    assert_eq!(
        static_connection.base().ip_config.addresses[1].to_string(),
        "::1"
    );
    assert_eq!(
        static_connection.base().ip_config.addresses[1]
            .network_length()
            .to_string(),
        "128"
    );
    assert!(static_connection.base().ip_config.gateway4.is_some());
    assert_eq!(
        static_connection
            .base()
            .ip_config
            .gateway4
            .unwrap()
            .to_string(),
        "127.0.0.1"
    );
    assert!(static_connection.base().ip_config.gateway6.is_some());
    assert_eq!(
        static_connection
            .base()
            .ip_config
            .gateway6
            .unwrap()
            .to_string(),
        "::1"
    );
}

#[test]
fn test_dhcp_interface_to_connection() {
    let static_interface = Interface {
        ipv4: Ipv4 {
            enabled: true,
            ..Default::default()
        },
        ipv6: Ipv6 {
            enabled: true,
            ..Default::default()
        },
        ..Default::default()
    };

    let static_connection = Connection::from_interface(static_interface);
    assert_eq!(static_connection.base().ip_config.method4, IpMethod::Auto);
    assert_eq!(static_connection.base().ip_config.method6, IpMethod::Auto);
    assert_eq!(static_connection.base().ip_config.addresses.len(), 0);
}

fn full_bond() -> Bond {
    Bond {
        mode: BondMode::IEEE8023ad,
        xmit_hash_policy: Some(XmitHashPolicy::Encap34),
        fail_over_mac: Some(FailOverMac::Active),
        packets_per_slave: Some(23),
        tlb_dynamic_lb: Some(true),
        lacp_rate: Some(LacpRate::Slow),
        ad_select: Some(AdSelect::Bandwidth),
        ad_user_port_key: Some(42),
        ad_actor_sys_prio: Some(5),
        ad_actor_system: Some(String::from("00:de:ad:be:ef:00")),
        min_links: Some(3),
        primary_reselect: Some(PrimaryReselect::Better),
        num_grat_arp: Some(7),
        num_usol_na: Some(13),
        lp_interval: Some(17),
        resend_igmp: Some(19),
        all_slaves_active: Some(true),
        miimon: Some(Miimon {
            frequency: 42,
            carrier_detect: CarrierDetect::Netif,
            downdelay: Some(23),
            updelay: Some(5),
        }),
        arpmon: Some(ArpMon {
            interval: 23,
            validate: ArpValidate::FilterBackup,
            validate_targets: Some(ArpValidateTargets::Any),
            targets: vec![String::from("1.2.3.4"), String::from("4.3.2.1")],
        }),
        slaves: vec![],
    }
}

#[test]
fn test_bond_options() {
    let bond = full_bond().options();
    let s = vec![
        ("xmit_hash_policy", String::from("encap34")),
        ("packets_per_slave", 23.to_string()),
        ("tlb_dynamic_lb", 1.to_string()),
        ("lacp_rate", String::from("slow")),
        ("ad_select", String::from("bandwidth")),
        ("ad_user_port_key", 42.to_string()),
        ("ad_actor_sys_prio", 5.to_string()),
        ("ad_actor_system", String::from("00:de:ad:be:ef:00")),
        ("min_links", 3.to_string()),
        ("primary_reselect", String::from("better")),
        ("fail_over_mac", String::from("active")),
        ("num_grat_arp", 7.to_string()),
        ("num_usol_na", 13.to_string()),
        ("lp_interval", 17.to_string()),
        ("resend_igmp", 19.to_string()),
        ("all_slaves_active", 1.to_string()),
        // miimon
        ("miimon", 42.to_string()),
        ("carrier_detect", 1.to_string()),
        ("downdelay", 23.to_string()),
        ("updelay", 5.to_string()),
        // arpmon
        ("arp_validate", String::from("filter_backup")),
        ("arp_all_targets", String::from("any")),
        ("arp_ip_target", String::from("1.2.3.4,4.3.2.1")),
        ("arp_interval", 23.to_string()),
    ];

    for (k, v) in s.iter() {
        assert!(
            bond.contains_key(k),
            "Missing key '{}' in bond hash {:?}",
            *k,
            bond
        );
        assert_eq!(
            bond.get(k).unwrap(),
            v,
            "Unexpected value '{}' in key '{}'",
            *k,
            v
        );
    }
}

#[test]
fn bond_options_mode_and_primary() {
    let mut bond = full_bond();
    bond.mode = BondMode::ActiveBackup;
    bond.miimon = None;
    bond.arpmon = None;
    bond.slaves = vec![
        Slave { device: "en0".to_string(), primary: Some(false) },
        Slave { device: "en1".to_string(), primary: Some(true) },
        Slave { device: "en2".to_string(), primary: Some(true) },
    ];
    let options = bond.options();
    assert_eq!(options.get("mode").unwrap(), "active-backup");
    assert_eq!(options.get("primary").unwrap(), "en1");
    assert!(!options.contains_key("miimon"));
    assert!(!options.contains_key("arp_interval"));
}

#[test]
fn bond_options_minimal() {
    let bond = Bond {
        mode: BondMode::BalanceRr,
        miimon: Some(Miimon {
            frequency: 100,
            carrier_detect: CarrierDetect::Ioctl,
            downdelay: None,
            updelay: None,
        }),
        arpmon: Some(ArpMon {
            interval: 0,
            validate: ArpValidate::Off,
            validate_targets: None,
            targets: vec![],
        }),
        slaves: vec![Slave { device: "en0".to_string(), primary: None }],
        xmit_hash_policy: None,
        packets_per_slave: None,
        tlb_dynamic_lb: Some(false),
        lacp_rate: None,
        ad_select: None,
        ad_user_port_key: None,
        ad_actor_sys_prio: None,
        ad_actor_system: None,
        min_links: None,
        primary_reselect: None,
        fail_over_mac: Some(FailOverMac::Off),
        num_grat_arp: None,
        num_usol_na: None,
        lp_interval: None,
        resend_igmp: None,
        all_slaves_active: None,
    };
    assert_eq!(bond.primary(), None);
    let options = bond.options();
    assert_eq!(options.get("mode").unwrap(), "balance-rr");
    assert_eq!(options.get("miimon").unwrap(), "100");
    assert_eq!(options.get("carrier_detect").unwrap(), "0");
    assert_eq!(options.get("arp_interval").unwrap(), "0");
    assert_eq!(options.get("arp_validate").unwrap(), "none");
    assert_eq!(options.get("tlb_dynamic_lb").unwrap(), "0");
    assert_eq!(options.get("fail_over_mac").unwrap(), "none");
    assert!(!options.contains_key("primary"));
    assert!(!options.contains_key("downdelay"));
    assert!(!options.contains_key("arp_ip_target"));
    assert!(!options.contains_key("arp_all_targets"));
    assert!(!options.contains_key("xmit_hash_policy"));
}

#[test]
fn bond_primary_is_first_primary_slave() {
    let mut bond = full_bond();
    bond.slaves = vec![
        Slave { device: "a".to_string(), primary: None },
        Slave { device: "b".to_string(), primary: Some(true) },
        Slave { device: "c".to_string(), primary: Some(true) },
    ];
    assert_eq!(bond.primary(), Some(&"b".to_string()));
}

#[test]
fn bond_interface_to_bond_connection_with_parent() {
    let mut bond = full_bond();
    bond.slaves = vec![Slave { device: "en0".to_string(), primary: Some(true) }];
    let ifc = Interface {
        name: "bond0".to_string(),
        bond: Some(bond),
        ..Default::default()
    };
    let conn = Connection::from_interface(ifc);
    assert_eq!(conn.base().id, "bond0");
    assert_eq!(conn.base().interface, "bond0");
    assert_eq!(conn.base().ip_config.method4, IpMethod::Disabled);
    assert_eq!(conn.base().ip_config.method6, IpMethod::Disabled);
    assert!(conn.base().parent.is_none());
    match conn {
        Connection::Bond(b) => {
            assert_eq!(b.bond.options.get("mode").unwrap(), "802.3ad");
            assert_eq!(b.bond.options.get("primary").unwrap(), "en0");
        }
        _ => panic!("not a bond"),
    }

    let slave = Interface {
        name: "en0".to_string(),
        link: Link { parent: Some("bond0".to_string()), kind: Some(ParentKind::Bond) },
        ..Default::default()
    };
    let conn = Connection::from_interface(slave);
    let parent = conn.base().parent.as_ref().unwrap();
    assert_eq!(parent.interface, "bond0");
    assert!(matches!(conn, Connection::Ethernet(_)));
}

#[test]
fn gateway_from_first_single_hop_route() {
    let ifc = Interface {
        ipv4: Ipv4 { enabled: true, ..Default::default() },
        ipv4_static: Some(Ipv4Static {
            addresses: None,
            routes: Some(vec![
                Route { nexthops: None, ..Default::default() },
                Route {
                    nexthops: Some(vec![
                        Nexthop { gateway: "10.0.0.1".to_string() },
                        Nexthop { gateway: "10.0.0.2".to_string() },
                    ]),
                    ..Default::default()
                },
                Route {
                    nexthops: Some(vec![Nexthop { gateway: "10.0.0.3".to_string() }]),
                    ..Default::default()
                },
                Route {
                    nexthops: Some(vec![Nexthop { gateway: "10.0.0.4".to_string() }]),
                    ..Default::default()
                },
            ]),
        }),
        ..Default::default()
    };
    let conn = Connection::try_from_interface(ifc).unwrap();
    assert_eq!(conn.base().ip_config.method4, IpMethod::Manual);
    assert_eq!(conn.base().ip_config.gateway4.unwrap().to_string(), "10.0.0.3");
    assert_eq!(conn.base().ip_config.gateway6, None);
}

#[test]
fn invalid_address_is_refused() {
    let ifc = Interface {
        ipv4: Ipv4 { enabled: true, ..Default::default() },
        ipv4_static: Some(Ipv4Static {
            addresses: Some(vec![Address { local: "not-an-address".to_string() }]),
            routes: None,
        }),
        ..Default::default()
    };
    assert!(Connection::try_from_interface(ifc).is_none());

    let ifc = Interface {
        ipv4: Ipv4 { enabled: true, ..Default::default() },
        ipv4_static: Some(Ipv4Static {
            addresses: None,
            routes: Some(vec![Route { nexthops: Some(vec![]), ..Default::default() }]),
        }),
        ..Default::default()
    };
    assert!(Connection::try_from_interface(ifc).is_none());

    let ifc = Interface {
        ipv4: Ipv4 { enabled: true, ..Default::default() },
        ipv4_static: Some(Ipv4Static {
            addresses: None,
            routes: Some(vec![Route {
                nexthops: Some(vec![Nexthop { gateway: "10.0.0.1/24".to_string() }]),
                ..Default::default()
            }]),
        }),
        ..Default::default()
    };
    assert!(Connection::try_from_interface(ifc).is_none());
}

#[test]
fn disabled_ipv6_with_static_settings() {
    let ifc = Interface {
        ipv4: Ipv4 { enabled: false, ..Default::default() },
        ipv6: Ipv6 { enabled: false, ..Default::default() },
        ipv6_static: Some(Ipv6Static {
            addresses: Some(vec![Address { local: "fe80::1/64".to_string() }]),
            routes: None,
        }),
        ..Default::default()
    };
    let conn = Connection::from_interface(ifc);
    assert_eq!(conn.base().ip_config.method4, IpMethod::Disabled);
    assert_eq!(conn.base().ip_config.method6, IpMethod::Disabled);
    assert_eq!(conn.base().ip_config.addresses.len(), 1);
    assert_eq!(conn.base().ip_config.addresses[0].to_string(), "fe80::1/64");
    assert_eq!(conn.base().ip_config.addresses[0].network_length(), 64);
}
