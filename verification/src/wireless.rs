//! Wicked wireless networks and their migration to wireless connection
//! settings.
use crate::migrate::MigrationSettings;
use crate::text::{
    contains_str, lemma_remove_all_keeps_out, lemma_remove_char, remove_all, remove_all_str, views,
};
use vstd::prelude::*;
use vstd::utf8::encode_utf8;

verus! {

// ---------------------------------------------------------------------------
// The wicked description.

/// The wireless part of a wicked interface.
#[derive(Debug, PartialEq)]
pub struct Wireless {
    pub ap_scan: u32,
    pub networks: Option<Vec<Network>>,
}

/// A wireless network that wicked connects to.
#[derive(Debug, PartialEq)]
pub struct Network {
    pub essid: String,
    pub scan_ssid: bool,
    pub mode: WickedWirelessMode,
    pub wpa_psk: Option<WpaPsk>,
    pub key_management: Vec<String>,
    pub channel: Option<u32>,
    pub access_point: Option<String>,
    pub wep: Option<Wep>,
    pub wpa_eap: Option<WpaEap>,
}

#[derive(Default, Debug, PartialEq, Clone, Copy)]
pub enum WickedWirelessMode {
    AdHoc,
    #[default]
    Infrastructure,
    AP,
}

#[derive(Debug, PartialEq)]
pub struct WpaPsk {
    pub passphrase: String,
}

#[derive(Debug, PartialEq)]
pub struct Wep {
    pub auth_algo: String,
    pub default_key: u32,
    pub key: Vec<String>,
}

#[derive(Debug, PartialEq)]
pub struct WpaEap {
    pub method: EapMethod,
    pub auth_proto: EapAuthProto,
    pub pairwise_cipher: EapPairwiseCipher,
    pub group_cipher: EapGroupCipher,
    pub identity: String,
    pub tls: Option<WickedTLS>,
}

#[derive(Default, Debug, PartialEq, Clone, Copy)]
pub enum EapMethod {
    #[default]
    TLS,
    PEAP,
    TTLS,
}

#[derive(Default, Debug, PartialEq, Clone, Copy)]
pub enum EapAuthProto {
    #[default]
    WPA,
    NONE,
    MD5,
    TLS,
    PAP,
    CHAP,
    MSCHAP,
    MSCHAPV2,
    PEAP,
    TTLS,
    GTC,
    OTP,
    LEAP,
    PSK,
    PAX,
    SAKE,
    GPSK,
    WSC,
    IKEV2,
    TNC,
    FAST,
    AKA,
    AkaPrime,
    SIM,
}

#[derive(Default, Debug, PartialEq, Clone, Copy)]
pub enum EapPairwiseCipher {
    #[default]
    TKIP,
    CCMP,
}

#[derive(Default, Debug, PartialEq, Clone, Copy)]
pub enum EapGroupCipher {
    #[default]
    TKIP,
    CCMP,
    WEP104,
    WEP40,
}

#[derive(Debug, PartialEq)]
pub struct WickedTLS {
    pub ca_cert: String,
    pub client_cert: String,
    pub client_key: String,
    pub client_key_passwd: String,
}

// ---------------------------------------------------------------------------
// The wireless connection settings.

/// The operating mode of a wireless connection.
#[derive(Default, Debug, PartialEq, Eq, Clone, Copy)]
pub enum WirelessMode {
    Unknown,
    AdHoc,
    #[default]
    Infra,
    AP,
    Mesh,
}

/// The security protocol of a wireless network.
#[derive(Default, Debug, PartialEq, Eq, Clone, Copy)]
pub enum SecurityProtocol {
    #[default]
    WEP,
    OWE,
    DynamicWEP,
    WPA2,
    WPA3Personal,
    WPA2Enterprise,
    WPA3Only,
}

/// An EAP method.
#[derive(Debug, PartialEq, Eq, Clone, Copy)]
pub enum EAPMethod {
    LEAP,
    MD5,
    TLS,
    PEAP,
    TTLS,
    PWD,
    FAST,
}

/// A frequency band.
#[derive(Debug, PartialEq, Eq, Clone, Copy)]
pub enum WirelessBand {
    /// 5 GHz
    A,
    /// 2.4 GHz
    BG,
}

/// The authentication algorithm of WEP.
#[derive(Default, Debug, PartialEq, Eq, Clone, Copy)]
pub enum WEPAuthAlg {
    #[default]
    Unset,
    Open,
    Shared,
    Leap,
}

/// What the WEP keys are.
#[derive(Default, Debug, PartialEq, Eq, Clone, Copy)]
pub enum WEPKeyType {
    Unknown,
    #[default]
    Key,
    Passphrase,
}

/// The WEP settings of a wireless connection.
#[derive(Debug, PartialEq)]
pub struct WEPSecurity {
    pub auth_alg: WEPAuthAlg,
    pub wep_key_type: WEPKeyType,
    pub keys: Vec<String>,
    pub wep_key_index: u32,
}

/// The name of a network, as bytes.
#[derive(Debug, PartialEq)]
pub struct SSID(pub Vec<u8>);

/// The settings of a wireless connection.
#[derive(Debug, PartialEq)]
pub struct WirelessConfig {
    pub mode: WirelessMode,
    pub ssid: SSID,
    pub password: Option<String>,
    pub security: SecurityProtocol,
    pub band: Option<WirelessBand>,
    pub channel: Option<u32>,
    pub bssid: Option<[u8; 6]>,
    pub wep_security: Option<WEPSecurity>,
    pub hidden: bool,
}

/// The settings specific to a kind of connection.
#[derive(Debug, PartialEq)]
pub enum ConnectionConfig {
    Wireless(WirelessConfig),
}

/// Why a wireless network could not be migrated.
#[derive(Debug, PartialEq)]
pub enum WirelessError {
    /// The network has more than one key-management algorithm.
    MultipleKeyManagement,
    /// No key-management algorithm of the network is known.
    UnrecognizedKeyManagement,
    /// The access point is not a MAC address; the reading error's message.
    InvalidAccessPoint(String),
    /// The WEP authentication algorithm is not known.
    InvalidWepAuthAlg(String),
    /// NetworkManager does not support the EAP authentication protocol.
    UnsupportedEapAuthProto,
}

pub enum WirelessErrorView {
    MultipleKeyManagement,
    UnrecognizedKeyManagement,
    InvalidAccessPoint(Seq<char>),
    InvalidWepAuthAlg(Seq<char>),
    UnsupportedEapAuthProto,
}

impl View for WirelessError {
    type V = WirelessErrorView;

    open spec fn view(&self) -> WirelessErrorView {
        match self {
            WirelessError::MultipleKeyManagement => WirelessErrorView::MultipleKeyManagement,
            WirelessError::UnrecognizedKeyManagement => WirelessErrorView::UnrecognizedKeyManagement,
            WirelessError::InvalidAccessPoint(s) => WirelessErrorView::InvalidAccessPoint(s@),
            WirelessError::InvalidWepAuthAlg(s) => WirelessErrorView::InvalidWepAuthAlg(s@),
            WirelessError::UnsupportedEapAuthProto => WirelessErrorView::UnsupportedEapAuthProto,
        }
    }
}

/// The message that reports why a wireless network could not be migrated.
pub open spec fn wireless_error_message(e: WirelessErrorView) -> Seq<char> {
    match e {
        WirelessErrorView::MultipleKeyManagement => "Migration of multiple key-management algorithms isn't supported"@,
        WirelessErrorView::UnrecognizedKeyManagement => "Unrecognized key-management protocol"@,
        WirelessErrorView::InvalidAccessPoint(t) => t,
        WirelessErrorView::InvalidWepAuthAlg(a) => "Invalid WEP authentication algorithm: '"@ + a
            + "'"@,
        WirelessErrorView::UnsupportedEapAuthProto => "EAP auth-proto isn't supported by NetworkManager"@,
    }
}

impl WirelessError {
    /// The message that reports the error.
    pub fn message(&self) -> (r: String)
        ensures
            r@ == wireless_error_message(self@),
    {
        match self {
            WirelessError::MultipleKeyManagement => String::from_str(
                "Migration of multiple key-management algorithms isn't supported",
            ),
            WirelessError::UnrecognizedKeyManagement => String::from_str(
                "Unrecognized key-management protocol",
            ),
            WirelessError::InvalidAccessPoint(t) => t.clone(),
            WirelessError::InvalidWepAuthAlg(a) => String::from_str(
                "Invalid WEP authentication algorithm: '",
            ).concat(a.as_str()).concat("'"),
            WirelessError::UnsupportedEapAuthProto => String::from_str(
                "EAP auth-proto isn't supported by NetworkManager",
            ),
        }
    }
}

// ---------------------------------------------------------------------------
// Conversions.

/// The connection mode of a wicked wireless mode.
pub open spec fn wireless_mode(m: WickedWirelessMode) -> WirelessMode {
    match m {
        WickedWirelessMode::AdHoc => WirelessMode::AdHoc,
        WickedWirelessMode::Infrastructure => WirelessMode::Infra,
        WickedWirelessMode::AP => WirelessMode::AP,
    }
}

impl WirelessMode {
    /// The connection mode of a wicked wireless mode.
    pub fn from_wicked(value: &WickedWirelessMode) -> (r: WirelessMode)
        ensures
            r == wireless_mode(*value),
    {
        match value {
            WickedWirelessMode::AdHoc => WirelessMode::AdHoc,
            WickedWirelessMode::Infrastructure => WirelessMode::Infra,
            WickedWirelessMode::AP => WirelessMode::AP,
        }
    }
}

/// The EAP method of a wicked authentication protocol, when NetworkManager
/// supports it.
pub open spec fn eap_method(p: EapAuthProto) -> Option<EAPMethod> {
    match p {
        EapAuthProto::LEAP => Some(EAPMethod::LEAP),
        EapAuthProto::MD5 => Some(EAPMethod::MD5),
        EapAuthProto::TLS => Some(EAPMethod::TLS),
        EapAuthProto::PEAP => Some(EAPMethod::PEAP),
        EapAuthProto::TTLS => Some(EAPMethod::TTLS),
        EapAuthProto::FAST => Some(EAPMethod::FAST),
        _ => None,
    }
}

impl EAPMethod {
    /// The EAP method of a wicked authentication protocol; an error for the
    /// protocols that NetworkManager does not support.
    pub fn try_from_auth_proto(value: EapAuthProto) -> (r: Result<EAPMethod, WirelessError>)
        ensures
            match r {
                Ok(m) => eap_method(value) == Some(m),
                Err(e) => eap_method(value) is None && e == WirelessError::UnsupportedEapAuthProto,
            },
    {
        match value {
            EapAuthProto::LEAP => Ok(EAPMethod::LEAP),
            EapAuthProto::MD5 => Ok(EAPMethod::MD5),
            EapAuthProto::TLS => Ok(EAPMethod::TLS),
            EapAuthProto::PEAP => Ok(EAPMethod::PEAP),
            EapAuthProto::TTLS => Ok(EAPMethod::TTLS),
            EapAuthProto::FAST => Ok(EAPMethod::FAST),
            _ => Err(WirelessError::UnsupportedEapAuthProto),
        }
    }
}

/// The security protocol of a list of key-management algorithms, by the
/// first of these that the list holds: `wpa-psk` or `wpa-psk-sha256` (WPA2),
/// `sae` (WPA3 personal), `wpa-eap` or `wpa-eap-sha256` (WPA2 enterprise),
/// `owe`, `wpa-eap-suite-b-192` (WPA3 only), `none` (WEP).
pub open spec fn security_protocol(km: Seq<Seq<char>>) -> Option<SecurityProtocol> {
    if km.contains("wpa-psk"@) || km.contains("wpa-psk-sha256"@) {
        Some(SecurityProtocol::WPA2)
    } else if km.contains("sae"@) {
        Some(SecurityProtocol::WPA3Personal)
    } else if km.contains("wpa-eap"@) || km.contains("wpa-eap-sha256"@) {
        Some(SecurityProtocol::WPA2Enterprise)
    } else if km.contains("owe"@) {
        Some(SecurityProtocol::OWE)
    } else if km.contains("wpa-eap-suite-b-192"@) {
        Some(SecurityProtocol::WPA3Only)
    } else if km.contains("none"@) {
        Some(SecurityProtocol::WEP)
    } else {
        None
    }
}

/// The security protocol of wicked key-management algorithms; an error when
/// none of them is known.
pub fn wireless_security_protocol(wicked_value: &[String]) -> (r: Result<
    SecurityProtocol,
    WirelessError,
>)
    ensures
        match r {
            Ok(p) => security_protocol(views(wicked_value@)) == Some(p),
            Err(e) => security_protocol(views(wicked_value@)) is None && e
                == WirelessError::UnrecognizedKeyManagement,
        },
{
    if contains_str(wicked_value, "wpa-psk") || contains_str(wicked_value, "wpa-psk-sha256") {
        Ok(SecurityProtocol::WPA2)
    } else if contains_str(wicked_value, "sae") {
        Ok(SecurityProtocol::WPA3Personal)
    } else if contains_str(wicked_value, "wpa-eap") || contains_str(wicked_value, "wpa-eap-sha256") {
        Ok(SecurityProtocol::WPA2Enterprise)
    } else if contains_str(wicked_value, "owe") {
        Ok(SecurityProtocol::OWE)
    } else if contains_str(wicked_value, "wpa-eap-suite-b-192") {
        Ok(SecurityProtocol::WPA3Only)
    } else if contains_str(wicked_value, "none") {
        Ok(SecurityProtocol::WEP)
    } else {
        Err(WirelessError::UnrecognizedKeyManagement)
    }
}

/// The WEP authentication algorithm that a name denotes.
pub open spec fn wep_auth_alg(s: Seq<char>) -> Option<WEPAuthAlg> {
    if s == "open"@ {
        Some(WEPAuthAlg::Open)
    } else if s == "shared"@ {
        Some(WEPAuthAlg::Shared)
    } else if s == "leap"@ {
        Some(WEPAuthAlg::Leap)
    } else if s == ""@ {
        Some(WEPAuthAlg::Unset)
    } else {
        None
    }
}

impl WEPAuthAlg {
    /// Reads a WEP authentication algorithm from its name; the empty name is
    /// the unset algorithm.
    pub fn try_from_name(value: &str) -> (r: Result<WEPAuthAlg, WirelessError>)
        ensures
            match r {
                Ok(a) => wep_auth_alg(value@) == Some(a),
                Err(e) => wep_auth_alg(value@) is None && e@ == WirelessErrorView::InvalidWepAuthAlg(
                    value@,
                ),
            },
    {
        if crate::text::str_eq(value, "open") {
            Ok(WEPAuthAlg::Open)
        } else if crate::text::str_eq(value, "shared") {
            Ok(WEPAuthAlg::Shared)
        } else if crate::text::str_eq(value, "leap") {
            Ok(WEPAuthAlg::Leap)
        } else if crate::text::str_eq(value, "") {
            Ok(WEPAuthAlg::Unset)
        } else {
            Err(WirelessError::InvalidWepAuthAlg(String::from_str(value)))
        }
    }
}

/// A WEP key with its `s:` and `h:` prefixes and its `:` and `-` separators
/// taken out.
pub open spec fn wep_key(k: Seq<char>) -> Seq<char> {
    remove_all(remove_all(remove_all(remove_all(k, "s:"@), "h:"@), ":"@), "-"@)
}

/// Takes the `s:` and `h:` prefixes and the `:` and `-` separators out of a
/// WEP key.
pub fn clean_wep_key(k: &str) -> (r: String)
    ensures
        r@ == wep_key(k@),
{
    broadcast use vstd::string::group_string_axioms;

    proof {
        reveal_strlit("s:");
        reveal_strlit("h:");
        reveal_strlit(":");
        reveal_strlit("-");
        assert("s:"@.len() == 2);
        assert("h:"@.len() == 2);
        assert(":"@.len() == 1);
        assert("-"@.len() == 1);
    }
    let a = remove_all_str(k, "s:");
    let b = remove_all_str(a.as_str(), "h:");
    let c = remove_all_str(b.as_str(), ":");
    remove_all_str(c.as_str(), "-")
}

/// The value of a hexadecimal digit.
pub open spec fn hex_digit_value(c: char) -> Option<int> {
    if '0' <= c && c <= '9' {
        Some(c as int - '0' as int)
    } else if 'a' <= c && c <= 'f' {
        Some(c as int - 'a' as int + 10)
    } else if 'A' <= c && c <= 'F' {
        Some(c as int - 'A' as int + 10)
    } else {
        None
    }
}

/// Whether `c` may separate the groups of a MAC address.
pub open spec fn is_mac_separator(c: char) -> bool {
    c == '-' || c == ':' || c == '.'
}

/// The bytes of the last `n` groups of a MAC address written in `s` from
/// position `pos` on: each group is two hexadecimal digits after at most one
/// separator, every separator is `sep` once one has been seen, and the text
/// ends after the last group.
pub open spec fn mac_groups(s: Seq<char>, pos: int, n: nat, sep: Option<char>) -> Option<Seq<u8>>
    decreases n,
{
    if n == 0 {
        if pos == s.len() {
            Some(Seq::empty())
        } else {
            None
        }
    } else {
        let skip = 0 <= pos < s.len() && is_mac_separator(s[pos]) && (sep is None || sep == Some(
            s[pos],
        ));
        let p = if skip {
            pos + 1
        } else {
            pos
        };
        let sep2 = if skip {
            Some(s[pos])
        } else {
            sep
        };
        if 0 <= p && p + 2 <= s.len() && hex_digit_value(s[p]) is Some && hex_digit_value(
            s[p + 1],
        ) is Some {
            match mac_groups(s, p + 2, (n - 1) as nat, sep2) {
                Some(rest) => Some(
                    seq![(hex_digit_value(s[p]).unwrap() * 16 + hex_digit_value(s[p + 1]).unwrap()) as u8]
                        + rest,
                ),
                None => None,
            }
        } else {
            None
        }
    }
}

/// The six bytes of the MAC address that a text writes, as
/// `macaddr::MacAddr6::from_str` reads it: six groups of two hexadecimal
/// digits, each after at most one separator (`-`, `:` or `.`, the same one
/// throughout), and nothing else.
pub open spec fn mac6_parse(s: Seq<char>) -> Option<Seq<u8>> {
    mac_groups(s, 0, 6, None)
}

/// The message of the error that `macaddr::MacAddr6::from_str` gives for a
/// text that is not a MAC address.
pub uninterp spec fn mac6_parse_error(s: Seq<char>) -> Seq<char>;

/// Reads a MAC address with `macaddr::MacAddr6::from_str` and takes its
/// bytes, or the message of its error. The contract states the grammar that
/// the crate's parser accepts (`mac6_parse`); the wording of the error
/// message is named, not stated.
#[verifier::external_body]
fn parse_mac6(s: &str) -> (r: Result<[u8; 6], String>)
    ensures
        match r {
            Ok(a) => mac6_parse(s@) == Some(a@),
            Err(t) => mac6_parse(s@) is None && t@ == mac6_parse_error(s@),
        },
{
    match s.parse::<macaddr::MacAddr6>() {
        Ok(m) => Ok(m.into_array()),
        Err(e) => Err(e.to_string()),
    }
}

/// How the access point of a network reads: nothing without an access
/// point, else its bytes or the message of the reading error.
pub open spec fn access_point_reading(n: &Network) -> Option<Result<Seq<u8>, Seq<char>>> {
    match n.access_point {
        Some(ap) => Some(
            match mac6_parse(ap@) {
                Some(b) => Ok(b),
                None => Err(mac6_parse_error(ap@)),
            },
        ),
        None => None,
    }
}

/// Why a network cannot be migrated, given how its access point reads: the
/// first of: several key-management algorithms when the migration does not
/// go on past problems, no known key-management algorithm, an access point
/// that is not a MAC address, an unknown WEP authentication algorithm.
pub open spec fn network_error(
    n: &Network,
    continue_migration: bool,
    bssid: Option<Result<Seq<u8>, Seq<char>>>,
) -> Option<WirelessErrorView> {
    if n.key_management@.len() > 1 && !continue_migration {
        Some(WirelessErrorView::MultipleKeyManagement)
    } else if security_protocol(views(n.key_management@)) is None {
        Some(WirelessErrorView::UnrecognizedKeyManagement)
    } else if n.access_point is Some && bssid matches Some(Err(_)) {
        Some(WirelessErrorView::InvalidAccessPoint(bssid.unwrap()->Err_0))
    } else if n.wep is Some && wep_auth_alg(n.wep.unwrap().auth_algo@) is None {
        Some(WirelessErrorView::InvalidWepAuthAlg(n.wep.unwrap().auth_algo@))
    } else {
        None
    }
}

/// The band of a channel: channels up to 14 are in the 2.4 GHz band, the
/// others in the 5 GHz band.
pub open spec fn band_of(channel: u32) -> WirelessBand {
    if channel <= 14 {
        WirelessBand::BG
    } else {
        WirelessBand::A
    }
}

/// `c` holds the settings of the network `n`, whose access point reads as
/// `bssid`.
pub open spec fn wireless_config_of(
    n: &Network,
    bssid: Option<Result<Seq<u8>, Seq<char>>>,
    c: &WirelessConfig,
) -> bool {
    &&& c.ssid.0@ == encode_utf8(n.essid@)
    &&& c.hidden == n.scan_ssid
    &&& security_protocol(views(n.key_management@)) == Some(c.security)
    &&& c.password.deep_view() == match n.wpa_psk {
        Some(p) => Some(p.passphrase@),
        None => None,
    }
    &&& c.channel == n.channel
    &&& c.band == match n.channel {
        Some(ch) => Some(band_of(ch)),
        None => None,
    }
    &&& match c.bssid {
        Some(m) => bssid == Some(Ok::<Seq<u8>, Seq<char>>(m@)),
        None => n.access_point is None,
    }
    &&& match n.wep {
        Some(w) => c.wep_security matches Some(ws) && {
            &&& wep_auth_alg(w.auth_algo@) == Some(ws.auth_alg)
            &&& ws.wep_key_type == WEPKeyType::Key
            &&& views(ws.keys@) == views(w.key@).map_values(|k: Seq<char>| wep_key(k))
            &&& ws.wep_key_index == w.default_key
        },
        None => c.wep_security is None,
    }
    &&& c.mode == wireless_mode(n.mode)
}

fn clean_wep_keys(keys: &Vec<String>) -> (r: Vec<String>)
    ensures
        views(r@) == views(keys@).map_values(|k: Seq<char>| wep_key(k)),
{
    let mut out: Vec<String> = Vec::new();
    let mut i: usize = 0;
    while i < keys.len()
        invariant
            0 <= i <= keys.len(),
            out@.len() == i,
            forall|j: int| 0 <= j < i ==> #[trigger] out@[j]@ == wep_key(keys@[j]@),
        decreases keys.len() - i,
    {
        out.push(clean_wep_key(keys[i].as_str()));
        i = i + 1;
    }
    assert(views(out@) =~= views(keys@).map_values(|k: Seq<char>| wep_key(k)));
    out
}

/// The wireless connection settings of a network whose access point, if it
/// has one, read as `bssid`; an error as `network_error` says.
pub fn wireless_config_from_network(
    network: &Network,
    continue_migration: bool,
    bssid: Option<Result<[u8; 6], String>>,
) -> (r: Result<WirelessConfig, WirelessError>)
    requires
        bssid is Some <==> network.access_point is Some,
    ensures
        ({
            let b = match bssid {
                Some(Ok(a)) => Some(Ok(a@)),
                Some(Err(t)) => Some(Err(t@)),
                None => None,
            };
            match r {
                Ok(c) => network_error(network, continue_migration, b) is None
                    && wireless_config_of(network, b, &c),
                Err(e) => network_error(network, continue_migration, b) == Some(e@),
            }
        }),
{
    if network.key_management.len() > 1 && !continue_migration {
        return Err(WirelessError::MultipleKeyManagement);
    }
    let security = match wireless_security_protocol(network.key_management.as_slice()) {
        Ok(s) => s,
        Err(e) => return Err(e),
    };
    let password = match &network.wpa_psk {
        Some(wpa_psk) => Some(wpa_psk.passphrase.clone()),
        None => None,
    };
    let band = match network.channel {
        Some(channel) => if channel <= 14 {
            Some(WirelessBand::BG)
        } else {
            Some(WirelessBand::A)
        },
        None => None,
    };
    let mac = match bssid {
        Some(Ok(a)) => Some(a),
        Some(Err(t)) => {
            return Err(WirelessError::InvalidAccessPoint(t));
        },
        None => None,
    };
    let wep_security = match &network.wep {
        Some(wep) => {
            let auth_alg = match WEPAuthAlg::try_from_name(wep.auth_algo.as_str()) {
                Ok(a) => a,
                Err(e) => return Err(e),
            };
            Some(
                WEPSecurity {
                    auth_alg,
                    wep_key_type: WEPKeyType::Key,
                    keys: clean_wep_keys(&wep.key),
                    wep_key_index: wep.default_key,
                },
            )
        },
        None => None,
    };
    Ok(
        WirelessConfig {
            mode: WirelessMode::from_wicked(&network.mode),
            ssid: SSID(network.essid.as_str().as_bytes_vec()),
            password,
            security,
            band,
            channel: network.channel,
            bssid: mac,
            wep_security,
            hidden: network.scan_ssid,
        },
    )
}

impl ConnectionConfig {
    /// The wireless connection settings of a wicked network. Several
    /// key-management algorithms are an error unless the migration goes on
    /// past problems; the security protocol comes from the algorithms; a
    /// channel sets the band (2.4 GHz up to channel 14, else 5 GHz); the
    /// access point must be a MAC address; the WEP keys lose their `s:` and
    /// `h:` prefixes and their `:` and `-` separators.
    pub fn try_from_network(network: &Network, settings: &MigrationSettings) -> (r: Result<
        ConnectionConfig,
        WirelessError,
    >)
        ensures
            match r {
                Ok(ConnectionConfig::Wireless(c)) => network_error(
                    network,
                    settings.continue_migration,
                    access_point_reading(network),
                ) is None && wireless_config_of(network, access_point_reading(network), &c),
                Err(e) => network_error(
                    network,
                    settings.continue_migration,
                    access_point_reading(network),
                ) == Some(e@),
            },
    {
        let bssid = match &network.access_point {
            Some(ap) => Some(parse_mac6(ap.as_str())),
            None => None,
        };
        match wireless_config_from_network(network, settings.continue_migration, bssid) {
            Ok(c) => Ok(ConnectionConfig::Wireless(c)),
            Err(e) => Err(e),
        }
    }
}


// ---------------------------------------------------------------------------
// What the conversions keep.

/// Converting a network keeps what it says of its radio: its channel
/// unchanged, a band exactly when there is a channel (2.4 GHz up to channel
/// 14, 5 GHz above), its hidden flag, its pre-shared key as the password,
/// its access point (read as `bssid`) as the BSSID exactly when it has one,
/// and WEP settings exactly when it has them.
pub proof fn lemma_wireless_config_keeps_network(
    n: &Network,
    bssid: Option<Result<Seq<u8>, Seq<char>>>,
    c: &WirelessConfig,
)
    requires
        bssid is Some <==> n.access_point is Some,
        wireless_config_of(n, bssid, c),
    ensures
        c.channel == n.channel,
        c.band is Some <==> n.channel is Some,
        n.channel matches Some(ch) ==> (c.band == Some(WirelessBand::BG) <==> ch <= 14),
        n.channel matches Some(ch) ==> (c.band == Some(WirelessBand::A) <==> ch > 14),
        c.hidden == n.scan_ssid,
        c.password is Some <==> n.wpa_psk is Some,
        n.wpa_psk matches Some(p) ==> c.password.unwrap()@ == p.passphrase@,
        c.bssid is Some <==> n.access_point is Some,
        c.wep_security is Some <==> n.wep is Some,
{
}

/// Distinct wicked wireless modes become distinct connection modes, none
/// of them unknown or mesh.
pub proof fn lemma_wireless_mode_injective(a: WickedWirelessMode, b: WickedWirelessMode)
    ensures
        a != b ==> wireless_mode(a) != wireless_mode(b),
        wireless_mode(a) != WirelessMode::Unknown && wireless_mode(a) != WirelessMode::Mesh,
{
}

impl EapAuthProto {
    /// The name of the variant in the source.
    pub open spec fn identifier(self) -> Seq<char> {
        match self {
            EapAuthProto::WPA => "WPA"@,
            EapAuthProto::NONE => "NONE"@,
            EapAuthProto::MD5 => "MD5"@,
            EapAuthProto::TLS => "TLS"@,
            EapAuthProto::PAP => "PAP"@,
            EapAuthProto::CHAP => "CHAP"@,
            EapAuthProto::MSCHAP => "MSCHAP"@,
            EapAuthProto::MSCHAPV2 => "MSCHAPV2"@,
            EapAuthProto::PEAP => "PEAP"@,
            EapAuthProto::TTLS => "TTLS"@,
            EapAuthProto::GTC => "GTC"@,
            EapAuthProto::OTP => "OTP"@,
            EapAuthProto::LEAP => "LEAP"@,
            EapAuthProto::PSK => "PSK"@,
            EapAuthProto::PAX => "PAX"@,
            EapAuthProto::SAKE => "SAKE"@,
            EapAuthProto::GPSK => "GPSK"@,
            EapAuthProto::WSC => "WSC"@,
            EapAuthProto::IKEV2 => "IKEV2"@,
            EapAuthProto::TNC => "TNC"@,
            EapAuthProto::FAST => "FAST"@,
            EapAuthProto::AKA => "AKA"@,
            EapAuthProto::AkaPrime => "AkaPrime"@,
            EapAuthProto::SIM => "SIM"@,
        }
    }
}

impl EAPMethod {
    /// The name of the variant in the source.
    pub open spec fn identifier(self) -> Seq<char> {
        match self {
            EAPMethod::LEAP => "LEAP"@,
            EAPMethod::MD5 => "MD5"@,
            EAPMethod::TLS => "TLS"@,
            EAPMethod::PEAP => "PEAP"@,
            EAPMethod::TTLS => "TTLS"@,
            EAPMethod::PWD => "PWD"@,
            EAPMethod::FAST => "FAST"@,
        }
    }
}

/// An EAP authentication protocol that NetworkManager supports becomes the
/// EAP method of the same name; these are LEAP, MD5, TLS, PEAP, TTLS and
/// FAST, and distinct protocols become distinct methods.
pub proof fn lemma_eap_method_same_name(p: EapAuthProto, q: EapAuthProto)
    ensures
        eap_method(p) matches Some(m) ==> m.identifier() == p.identifier(),
        eap_method(p) is Some <==> (p == EapAuthProto::LEAP || p == EapAuthProto::MD5 || p
            == EapAuthProto::TLS || p == EapAuthProto::PEAP || p == EapAuthProto::TTLS || p
            == EapAuthProto::FAST),
        eap_method(p) is Some && eap_method(p) == eap_method(q) ==> p == q,
{
}


/// The security protocol follows the strongest claim among the algorithms,
/// in this order: a pre-shared key (`wpa-psk`, `wpa-psk-sha256`) is WPA2;
/// else SAE is WPA3 personal; else EAP (`wpa-eap`, `wpa-eap-sha256`) is
/// WPA2 enterprise; else OWE is OWE; else `wpa-eap-suite-b-192` is WPA3
/// only; else `none` is WEP; and without any of these there is none.
pub proof fn lemma_security_protocol_order(km: Seq<Seq<char>>)
    ensures
        km.contains("wpa-psk"@) || km.contains("wpa-psk-sha256"@) ==> security_protocol(km) == Some(
            SecurityProtocol::WPA2,
        ),
        !(km.contains("wpa-psk"@) || km.contains("wpa-psk-sha256"@)) && km.contains("sae"@)
            ==> security_protocol(km) == Some(SecurityProtocol::WPA3Personal),
        !(km.contains("wpa-psk"@) || km.contains("wpa-psk-sha256"@) || km.contains("sae"@)) && (
        km.contains("wpa-eap"@) || km.contains("wpa-eap-sha256"@)) ==> security_protocol(km) == Some(
            SecurityProtocol::WPA2Enterprise,
        ),
        !(km.contains("wpa-psk"@) || km.contains("wpa-psk-sha256"@) || km.contains("sae"@)
            || km.contains("wpa-eap"@) || km.contains("wpa-eap-sha256"@)) && km.contains("owe"@)
            ==> security_protocol(km) == Some(SecurityProtocol::OWE),
        !(km.contains("wpa-psk"@) || km.contains("wpa-psk-sha256"@) || km.contains("sae"@)
            || km.contains("wpa-eap"@) || km.contains("wpa-eap-sha256"@) || km.contains("owe"@))
            && km.contains("wpa-eap-suite-b-192"@) ==> security_protocol(km) == Some(
            SecurityProtocol::WPA3Only,
        ),
        !(km.contains("wpa-psk"@) || km.contains("wpa-psk-sha256"@) || km.contains("sae"@)
            || km.contains("wpa-eap"@) || km.contains("wpa-eap-sha256"@) || km.contains("owe"@)
            || km.contains("wpa-eap-suite-b-192"@)) && km.contains("none"@) ==> security_protocol(km)
            == Some(SecurityProtocol::WEP),
        security_protocol(km) is None <==> !(km.contains("wpa-psk"@) || km.contains(
            "wpa-psk-sha256"@,
        ) || km.contains("sae"@) || km.contains("wpa-eap"@) || km.contains("wpa-eap-sha256"@)
            || km.contains("owe"@) || km.contains("wpa-eap-suite-b-192"@) || km.contains("none"@)),
{
}

/// The WEP authentication algorithms are read from their names, `open`,
/// `shared` and `leap`, the empty name being the unset algorithm; distinct
/// names give distinct algorithms and no other name gives one.
pub proof fn lemma_wep_auth_alg_names(s: Seq<char>, t: Seq<char>)
    ensures
        wep_auth_alg(s) is Some <==> (s == "open"@ || s == "shared"@ || s == "leap"@ || s == ""@),
        wep_auth_alg(s) is Some && wep_auth_alg(s) == wep_auth_alg(t) ==> s == t,
        wep_auth_alg(""@) == Some(WEPAuthAlg::Unset),
{
    reveal_strlit("open");
    reveal_strlit("shared");
    reveal_strlit("leap");
    reveal_strlit("");
    assert("open"@.len() == 4 && "shared"@.len() == 6 && "leap"@.len() == 4 && ""@.len() == 0);
    assert("open"@[0] != "leap"@[0]);
}


/// A cleaned WEP key holds no `:` and no `-`, and a key without them is
/// left as it is (its `s:` and `h:` prefixes need a `:` too).
pub proof fn lemma_wep_key_clean(k: Seq<char>)
    ensures
        !wep_key(k).contains(':'),
        !wep_key(k).contains('-'),
        !k.contains(':') && !k.contains('-') ==> wep_key(k) == k,
{
    reveal_strlit("s:");
    reveal_strlit("h:");
    reveal_strlit(":");
    reveal_strlit("-");
    assert(":"@ =~= seq![':']);
    assert("-"@ =~= seq!['-']);
    assert("s:"@.len() == 2 && "s:"@[1] == ':');
    assert("h:"@.len() == 2 && "h:"@[1] == ':');
    let a = remove_all(k, "s:"@);
    let b = remove_all(a, "h:"@);
    let c = remove_all(b, ":"@);
    lemma_remove_char(b, ':');
    lemma_remove_char(c, '-');
    lemma_remove_all_keeps_out(c, "-"@, ':', 0);
    lemma_remove_all_keeps_out(k, "s:"@, '-', 1);
    lemma_remove_all_keeps_out(a, "h:"@, '-', 1);
    lemma_remove_all_keeps_out(b, ":"@, '-', 0);
    lemma_remove_all_keeps_out(c, "-"@, '-', 0);
}


/// Going on past problems only excuses several key-management algorithms:
/// for a network with at most one, the outcome is the same either way, and
/// where it differs the stopping migration reports the several algorithms.
pub proof fn lemma_continue_only_excuses_multiple_algorithms(
    n: &Network,
    bssid: Option<Result<Seq<u8>, Seq<char>>>,
)
    ensures
        n.key_management@.len() <= 1 ==> network_error(n, true, bssid) == network_error(
            n,
            false,
            bssid,
        ),
        network_error(n, true, bssid) != network_error(n, false, bssid) ==> network_error(
            n,
            false,
            bssid,
        ) == Some(WirelessErrorView::MultipleKeyManagement),
{
}

proof fn lemma_mac_groups_len(s: Seq<char>, pos: int, n: nat, sep: Option<char>)
    ensures
        mac_groups(s, pos, n, sep) matches Some(b) ==> b.len() == n,
    decreases n,
{
    if n > 0 {
        let skip = 0 <= pos < s.len() && is_mac_separator(s[pos]) && (sep is None || sep == Some(
            s[pos],
        ));
        let p = if skip {
            pos + 1
        } else {
            pos
        };
        let sep2 = if skip {
            Some(s[pos])
        } else {
            sep
        };
        lemma_mac_groups_len(s, p + 2, (n - 1) as nat, sep2);
    }
}

/// A MAC address reads as exactly six bytes.
pub proof fn lemma_mac6_six_bytes(s: Seq<char>)
    ensures
        mac6_parse(s) matches Some(b) ==> b.len() == 6,
{
    lemma_mac_groups_len(s, 0, 6, None);
}

} // verus!
