use migrate_wicked::dbus::{
    bridge_config_from_dbus, bridge_config_to_dbus, bridge_port_config_from_dbus,
    bridge_port_config_to_dbus, infiniband_config_from_dbus, infiniband_config_to_dbus,
    tun_config_from_dbus, tun_config_to_dbus, vlan_config_from_dbus, vlan_config_to_dbus,
    NestedProperties, NmError, PropValue, Properties, BRIDGE_KEY, BRIDGE_PORT_KEY,
    INFINIBAND_KEY, TUN_KEY,
};
use migrate_wicked::dict::Dict;
use migrate_wicked::network::{
    BridgeConfig, BridgePortConfig, InfinibandConfig, InfinibandTransportMode, TunConfig,
    TunMode, VlanConfig, VlanProtocol,
};
use uuid::Uuid;

fn props(entries: Vec<(&str, PropValue)>) -> Properties {
    let mut d = Dict::new();
    for (k, v) in entries {
        d.insert(k.to_string(), v);
    }
    d
}

fn nested(entries: Vec<(&str, Properties)>) -> NestedProperties {
    let mut d = Dict::new();
    for (k, v) in entries {
        d.insert(k.to_string(), v);
    }
    d
}

#[test]
fn test_connection_from_dbus_infiniband() {
    let uuid = Uuid::new_v4().to_string();
    let connection_section = props(vec![
        ("id", PropValue::Str("ib0".to_string())),
        ("uuid", PropValue::Str(uuid)),
    ]);

    let infiniband_section = props(vec![
        ("p-key", PropValue::I32(0x8001_i32)),
        ("parent", PropValue::Str("ib0".to_string())),
        ("transport-mode", PropValue::Str("datagram".to_string())),
    ]);

    let dbus_conn = nested(vec![
        ("connection", connection_section),
        (INFINIBAND_KEY, infiniband_section),
    ]);

    let infiniband = infiniband_config_from_dbus(&dbus_conn).unwrap().unwrap();
    assert_eq!(infiniband.p_key, Some(0x8001));
    assert_eq!(infiniband.parent, Some("ib0".to_string()));
    assert_eq!(infiniband.transport_mode, InfinibandTransportMode::Datagram);
}

#[test]
fn test_dbus_from_infiniband_connection() {
    let config = InfinibandConfig {
        p_key: Some(0x8002),
        parent: Some("ib1".to_string()),
        transport_mode: InfinibandTransportMode::Connected,
    };
    let infiniband = infiniband_config_to_dbus(&config);

    let p_key = infiniband.get("p-key").unwrap();
    assert_eq!(*p_key, PropValue::I32(0x8002));
    let parent = infiniband.get("parent").unwrap();
    assert_eq!(*parent, PropValue::Str("ib1".to_string()));
    let transport_mode = infiniband.get("transport-mode").unwrap();
    assert_eq!(
        *transport_mode,
        PropValue::Str(InfinibandTransportMode::Connected.name().to_string())
    );
}

#[test]
fn infiniband_without_key_or_parent() {
    let config = InfinibandConfig::default();
    let d = infiniband_config_to_dbus(&config);
    assert_eq!(*d.get("p-key").unwrap(), PropValue::I32(-1));
    assert!(!d.contains_key("parent"));
    assert_eq!(*d.get("transport-mode").unwrap(), PropValue::Str("datagram".to_string()));

    let back = infiniband_config_from_dbus(&nested(vec![(INFINIBAND_KEY, d)])).unwrap().unwrap();
    assert_eq!(back.p_key, Some(-1));
    assert_eq!(back.parent, None);
}

#[test]
fn infiniband_errors() {
    let bad_mode = nested(vec![(
        INFINIBAND_KEY,
        props(vec![("transport-mode", PropValue::Str("foo".to_string()))]),
    )]);
    assert_eq!(
        infiniband_config_from_dbus(&bad_mode),
        Err(NmError::InvalidTransportMode("foo".to_string()))
    );
    let bad_type = nested(vec![(INFINIBAND_KEY, props(vec![("p-key", PropValue::U32(1))]))]);
    assert_eq!(
        infiniband_config_from_dbus(&bad_type),
        Err(NmError::UnexpectedPropertyType("p-key".to_string()))
    );
    assert_eq!(infiniband_config_from_dbus(&nested(vec![])), Ok(None));
}

#[test]
fn infiniband_roundtrip_with_key() {
    let config = InfinibandConfig {
        p_key: Some(7),
        parent: None,
        transport_mode: InfinibandTransportMode::Connected,
    };
    let d = nested(vec![(INFINIBAND_KEY, infiniband_config_to_dbus(&config))]);
    assert_eq!(infiniband_config_from_dbus(&d), Ok(Some(config)));
}

#[test]
fn bridge_roundtrip_and_errors() {
    let config = BridgeConfig {
        stp: true,
        priority: Some(32768),
        forward_delay: None,
        hello_time: Some(2),
        max_age: Some(20),
        ageing_time: None,
    };
    let d = bridge_config_to_dbus(&config);
    assert_eq!(*d.get("stp").unwrap(), PropValue::Bool(true));
    assert_eq!(*d.get("priority").unwrap(), PropValue::U32(32768));
    assert!(!d.contains_key("forward-delay"));
    assert_eq!(*d.get("hello-time").unwrap(), PropValue::U32(2));
    assert_eq!(*d.get("max-age").unwrap(), PropValue::U32(20));
    let conn = nested(vec![(BRIDGE_KEY, d)]);
    assert_eq!(bridge_config_from_dbus(&conn), Ok(Some(config)));

    let missing_stp = nested(vec![(BRIDGE_KEY, props(vec![("priority", PropValue::U32(1))]))]);
    assert_eq!(
        bridge_config_from_dbus(&missing_stp),
        Err(NmError::MissingProperty("stp".to_string()))
    );
    assert_eq!(bridge_config_from_dbus(&nested(vec![])), Ok(None));
}

#[test]
fn bridge_port_path_cost_key() {
    let config = BridgePortConfig { priority: Some(3), path_cost: Some(100) };
    let d = bridge_port_config_to_dbus(&config);
    assert_eq!(*d.get("path-cost").unwrap(), PropValue::U32(100));
    let back = bridge_port_config_from_dbus(&nested(vec![(BRIDGE_PORT_KEY, d)])).unwrap().unwrap();
    assert_eq!(back.priority, Some(3));
    assert_eq!(back.path_cost, None);

    let d = nested(vec![(BRIDGE_PORT_KEY, props(vec![("path_cost", PropValue::U32(9))]))]);
    let back = bridge_port_config_from_dbus(&d).unwrap().unwrap();
    assert_eq!(back.path_cost, Some(9));
}

#[test]
fn tun_modes() {
    let config = TunConfig { mode: TunMode::Tap, group: Some("users".to_string()), owner: None };
    let d = tun_config_to_dbus(&config);
    assert_eq!(*d.get("mode").unwrap(), PropValue::U32(2));
    assert_eq!(*d.get("group").unwrap(), PropValue::Str("users".to_string()));
    assert!(!d.contains_key("owner"));
    let conn = nested(vec![(TUN_KEY, d)]);
    assert_eq!(tun_config_from_dbus(&conn), Ok(Some(config)));

    let odd = nested(vec![(TUN_KEY, props(vec![("mode", PropValue::Str("x".to_string()))]))]);
    assert_eq!(tun_config_from_dbus(&odd).unwrap().unwrap().mode, TunMode::Tun);
    let tun = TunConfig::default();
    assert_eq!(*tun_config_to_dbus(&tun).get("mode").unwrap(), PropValue::U32(1));
}

#[test]
fn vlan_roundtrip_and_default_protocol() {
    let config = VlanConfig { id: 10, parent: "eth0".to_string(), protocol: VlanProtocol::IEEE802_1ad };
    let d = vlan_config_to_dbus(&config);
    let v = d.get("vlan").unwrap();
    assert_eq!(*v.get("protocol").unwrap(), PropValue::Str("802.1ad".to_string()));
    assert_eq!(vlan_config_from_dbus(&d), Ok(Some(config)));

    let no_protocol = nested(vec![(
        "vlan",
        props(vec![("id", PropValue::U32(5)), ("parent", PropValue::Str("eth1".to_string()))]),
    )]);
    let c = vlan_config_from_dbus(&no_protocol).unwrap().unwrap();
    assert_eq!(c.protocol, VlanProtocol::IEEE802_1Q);
    assert_eq!(c.id, 5);

    let no_id = nested(vec![("vlan", props(vec![("parent", PropValue::Str("eth1".to_string()))]))]);
    assert_eq!(vlan_config_from_dbus(&no_id), Err(NmError::MissingProperty("id".to_string())));
}
