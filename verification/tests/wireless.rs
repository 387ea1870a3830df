use migrate_wicked::migrate::MigrationSettings;
use migrate_wicked::wireless::{
    clean_wep_key, wireless_security_protocol, ConnectionConfig, EAPMethod, EapAuthProto, Network,
    SecurityProtocol, Wep, WEPAuthAlg, WEPKeyType, WEPSecurity, WickedWirelessMode, WirelessBand,
    WirelessError, WirelessMode, WpaPsk, SSID,
};
use std::str::FromStr;

fn settings(continue_migration: bool) -> MigrationSettings {
    MigrationSettings { continue_migration, dry_run: false, activate_connections: true }
}

fn network(channel: Option<u32>, key_management: Vec<&str>) -> Network {
    Network {
        channel,
        essid: "testssid".to_string(),
        scan_ssid: false,
        mode: WickedWirelessMode::AP,
        wpa_psk: None,
        key_management: key_management.into_iter().map(|s| s.to_string()).collect(),
        access_point: None,
        wep: None,
        wpa_eap: None,
    }
}

#[test]
fn test_wireless_bands() {
    let settings = settings(false);
    let mut net = network(Some(0), vec!["wpa-psk"]);
    let connection = ConnectionConfig::try_from_network(&net, &settings);
    assert!(connection.is_ok());
    let ConnectionConfig::Wireless(wireless) = connection.unwrap();
    assert_eq!(wireless.band, Some(WirelessBand::BG));

    net.channel = Some(32);
    let connection = ConnectionConfig::try_from_network(&net, &settings);
    assert!(connection.is_ok());
    let ConnectionConfig::Wireless(wireless) = connection.unwrap();
    assert_eq!(wireless.band, Some(WirelessBand::A));
}

#[test]
fn test_wireless_migration() {
    let settings = settings(false);
    let net = Network {
        essid: "testssid".to_string(),
        scan_ssid: true,
        mode: WickedWirelessMode::Infrastructure,
        wpa_psk: Some(WpaPsk { passphrase: "testpassword".to_string() }),
        key_management: vec!["wpa-psk".to_string()],
        channel: Some(14),
        access_point: Some("12:34:56:78:9A:BC".to_string()),
        wep: Some(Wep {
            auth_algo: "open".to_string(),
            default_key: 1,
            key: vec!["01020304ff".to_string(), "s:hello".to_string()],
        }),
        wpa_eap: None,
    };
    let connection = ConnectionConfig::try_from_network(&net, &settings);
    assert!(connection.is_ok());
    let ConnectionConfig::Wireless(wireless) = connection.unwrap();
    assert_eq!(wireless.ssid, SSID("testssid".as_bytes().to_vec()));
    assert!(wireless.hidden);
    assert_eq!(wireless.mode, WirelessMode::Infra);
    assert_eq!(wireless.password, Some("testpassword".to_string()));
    assert_eq!(wireless.security, SecurityProtocol::WPA2);
    assert_eq!(
        wireless.bssid,
        Some(macaddr::MacAddr6::from_str("12:34:56:78:9A:BC").unwrap().into_array())
    );
    assert_eq!(
        wireless.wep_security,
        Some(WEPSecurity {
            auth_alg: WEPAuthAlg::Open,
            wep_key_type: WEPKeyType::Key,
            keys: vec!["01020304ff".to_string(), "hello".to_string()],
            wep_key_index: 1,
        })
    );
    assert_eq!(wireless.band, Some(WirelessBand::BG));
}

#[test]
fn multiple_key_management() {
    let net = network(None, vec!["sae", "wpa-psk"]);
    assert_eq!(
        ConnectionConfig::try_from_network(&net, &settings(false)),
        Err(WirelessError::MultipleKeyManagement)
    );
    let ConnectionConfig::Wireless(w) =
        ConnectionConfig::try_from_network(&net, &settings(true)).unwrap();
    assert_eq!(w.security, SecurityProtocol::WPA2);
    assert_eq!(w.band, None);
    assert_eq!(w.mode, WirelessMode::AP);
}

#[test]
fn unrecognized_key_management_and_bad_access_point() {
    let net = network(None, vec!["psk"]);
    assert_eq!(
        ConnectionConfig::try_from_network(&net, &settings(false)),
        Err(WirelessError::UnrecognizedKeyManagement)
    );
    let mut net = network(None, vec!["owe"]);
    net.access_point = Some("zz:zz".to_string());
    assert_eq!(
        ConnectionConfig::try_from_network(&net, &settings(false)),
        Err(WirelessError::InvalidAccessPoint("Unexpected character 'z' at position 1".to_string()))
    );
    let mut net = network(None, vec!["none"]);
    net.wep = Some(Wep { auth_algo: "weird".to_string(), default_key: 0, key: vec![] });
    assert_eq!(
        ConnectionConfig::try_from_network(&net, &settings(false)),
        Err(WirelessError::InvalidWepAuthAlg("weird".to_string()))
    );
}

#[test]
fn security_protocols() {
    let p = |v: &[&str]| {
        let v: Vec<String> = v.iter().map(|s| s.to_string()).collect();
        wireless_security_protocol(&v)
    };
    assert_eq!(p(&["wpa-psk-sha256"]), Ok(SecurityProtocol::WPA2));
    assert_eq!(p(&["sae"]), Ok(SecurityProtocol::WPA3Personal));
    assert_eq!(p(&["wpa-eap"]), Ok(SecurityProtocol::WPA2Enterprise));
    assert_eq!(p(&["wpa-eap-sha256"]), Ok(SecurityProtocol::WPA2Enterprise));
    assert_eq!(p(&["owe"]), Ok(SecurityProtocol::OWE));
    assert_eq!(p(&["wpa-eap-suite-b-192"]), Ok(SecurityProtocol::WPA3Only));
    assert_eq!(p(&["none"]), Ok(SecurityProtocol::WEP));
    assert_eq!(p(&["none", "sae"]), Ok(SecurityProtocol::WPA3Personal));
    assert_eq!(p(&[]), Err(WirelessError::UnrecognizedKeyManagement));
}

#[test]
fn eap_methods_and_modes() {
    assert_eq!(EAPMethod::try_from_auth_proto(EapAuthProto::PEAP), Ok(EAPMethod::PEAP));
    assert_eq!(EAPMethod::try_from_auth_proto(EapAuthProto::FAST), Ok(EAPMethod::FAST));
    assert_eq!(
        EAPMethod::try_from_auth_proto(EapAuthProto::WPA),
        Err(WirelessError::UnsupportedEapAuthProto)
    );
    assert_eq!(WirelessMode::from_wicked(&WickedWirelessMode::AdHoc), WirelessMode::AdHoc);
    assert_eq!(WEPAuthAlg::try_from_name(""), Ok(WEPAuthAlg::Unset));
    assert_eq!(WEPAuthAlg::try_from_name("shared"), Ok(WEPAuthAlg::Shared));
}

#[test]
fn wep_keys_are_cleaned() {
    assert_eq!(clean_wep_key("h:01-02:03"), "010203");
    assert_eq!(clean_wep_key("s:hello"), "hello");
    assert_eq!(clean_wep_key("ss::a"), "sa");
}

#[test]
fn access_point_errors_and_messages() {
    let mut net = network(None, vec!["owe"]);
    net.access_point = Some("12:34:56:78:9A".to_string());
    assert_eq!(
        ConnectionConfig::try_from_network(&net, &settings(false)),
        Err(WirelessError::InvalidAccessPoint("Invalid length of 14 characters".to_string()))
    );
    net.access_point = Some("12-34-56-78-9a-bc".to_string());
    assert!(ConnectionConfig::try_from_network(&net, &settings(false)).is_ok());
    assert_eq!(
        WirelessError::MultipleKeyManagement.message(),
        "Migration of multiple key-management algorithms isn't supported"
    );
    assert_eq!(WirelessError::UnrecognizedKeyManagement.message(), "Unrecognized key-management protocol");
    assert_eq!(
        WirelessError::UnsupportedEapAuthProto.message(),
        "EAP auth-proto isn't supported by NetworkManager"
    );
    assert_eq!(
        WirelessError::InvalidWepAuthAlg("weird".to_string()).message(),
        "Invalid WEP authentication algorithm: 'weird'"
    );
    assert_eq!(WirelessError::InvalidAccessPoint("bad".to_string()).message(), "bad");
}
