//! Settings of bridges, bridge ports, InfiniBand, TUN/TAP and VLAN
//! interfaces as NetworkManager's D-Bus dictionaries hold them, and back.
use crate::dict::{entries_map, Dict};
use crate::network::{
    BridgeConfig, BridgePortConfig, InfinibandConfig, InfinibandConfigView, InfinibandTransportMode,
    TunConfig, TunConfigView, TunMode, VlanConfig, VlanConfigView, VlanProtocol,
};
use vstd::prelude::*;

verus! {

/// A value of a D-Bus dictionary, by its D-Bus type.
#[derive(Debug, PartialEq)]
pub enum PropValue {
    Bool(bool),
    I32(i32),
    U32(u32),
    Str(String),
    /// A value of any other D-Bus type.
    Other,
}

pub enum PropValueView {
    Bool(bool),
    I32(i32),
    U32(u32),
    Str(Seq<char>),
    Other,
}

impl View for PropValue {
    type V = PropValueView;

    open spec fn view(&self) -> PropValueView {
        match self {
            PropValue::Bool(b) => PropValueView::Bool(*b),
            PropValue::I32(v) => PropValueView::I32(*v),
            PropValue::U32(v) => PropValueView::U32(*v),
            PropValue::Str(s) => PropValueView::Str(s@),
            PropValue::Other => PropValueView::Other,
        }
    }
}

/// The properties of one setting.
pub type Properties = Dict<PropValue>;

/// The settings of a connection, by setting name.
pub type NestedProperties = Dict<Dict<PropValue>>;

pub type PropMap = Map<Seq<char>, PropValueView>;

pub type NestedMap = Map<Seq<char>, Map<Seq<char>, PropValueView>>;

/// Why a setting could not be read.
#[derive(Debug, PartialEq)]
pub enum NmError {
    /// A property that the setting needs is absent.
    MissingProperty(String),
    /// A property holds a value of another type.
    UnexpectedPropertyType(String),
    /// The transport mode of an InfiniBand setting is unknown.
    InvalidTransportMode(String),
}

pub enum NmErrorView {
    MissingProperty(Seq<char>),
    UnexpectedPropertyType(Seq<char>),
    InvalidTransportMode(Seq<char>),
}

impl View for NmError {
    type V = NmErrorView;

    open spec fn view(&self) -> NmErrorView {
        match self {
            NmError::MissingProperty(s) => NmErrorView::MissingProperty(s@),
            NmError::UnexpectedPropertyType(s) => NmErrorView::UnexpectedPropertyType(s@),
            NmError::InvalidTransportMode(s) => NmErrorView::InvalidTransportMode(s@),
        }
    }
}

/// The view of the outcome of reading a setting.
pub open spec fn outcome<T: View>(r: Result<Option<T>, NmError>) -> Result<
    Option<T::V>,
    NmErrorView,
> {
    match r {
        Ok(Some(c)) => Ok(Some(c@)),
        Ok(None) => Ok(None),
        Err(e) => Err(e@),
    }
}

pub const BRIDGE_KEY: &'static str = "bridge";

pub const BRIDGE_PORT_KEY: &'static str = "bridge-port";

pub const INFINIBAND_KEY: &'static str = "infiniband";

pub const TUN_KEY: &'static str = "tun";

pub const VLAN_KEY: &'static str = "vlan";

// ---------------------------------------------------------------------------
// Reading single properties.

/// A property that must be present and hold a boolean.
pub open spec fn prop_bool(m: PropMap, k: Seq<char>) -> Result<bool, NmErrorView> {
    if !m.contains_key(k) {
        Err(NmErrorView::MissingProperty(k))
    } else {
        match m[k] {
            PropValueView::Bool(b) => Ok(b),
            _ => Err(NmErrorView::UnexpectedPropertyType(k)),
        }
    }
}

/// A property that must be present and hold an unsigned 32-bit number.
pub open spec fn prop_u32(m: PropMap, k: Seq<char>) -> Result<u32, NmErrorView> {
    if !m.contains_key(k) {
        Err(NmErrorView::MissingProperty(k))
    } else {
        match m[k] {
            PropValueView::U32(v) => Ok(v),
            _ => Err(NmErrorView::UnexpectedPropertyType(k)),
        }
    }
}

/// A property that must be present and hold a string.
pub open spec fn prop_str(m: PropMap, k: Seq<char>) -> Result<Seq<char>, NmErrorView> {
    if !m.contains_key(k) {
        Err(NmErrorView::MissingProperty(k))
    } else {
        match m[k] {
            PropValueView::Str(v) => Ok(v),
            _ => Err(NmErrorView::UnexpectedPropertyType(k)),
        }
    }
}

/// An optional property holding an unsigned 32-bit number.
pub open spec fn opt_u32(m: PropMap, k: Seq<char>) -> Result<Option<u32>, NmErrorView> {
    if !m.contains_key(k) {
        Ok(None)
    } else {
        match m[k] {
            PropValueView::U32(v) => Ok(Some(v)),
            _ => Err(NmErrorView::UnexpectedPropertyType(k)),
        }
    }
}

/// An optional property holding a signed 32-bit number.
pub open spec fn opt_i32(m: PropMap, k: Seq<char>) -> Result<Option<i32>, NmErrorView> {
    if !m.contains_key(k) {
        Ok(None)
    } else {
        match m[k] {
            PropValueView::I32(v) => Ok(Some(v)),
            _ => Err(NmErrorView::UnexpectedPropertyType(k)),
        }
    }
}

/// An optional property holding a string.
pub open spec fn opt_str(m: PropMap, k: Seq<char>) -> Result<Option<Seq<char>>, NmErrorView> {
    if !m.contains_key(k) {
        Ok(None)
    } else {
        match m[k] {
            PropValueView::Str(v) => Ok(Some(v)),
            _ => Err(NmErrorView::UnexpectedPropertyType(k)),
        }
    }
}

fn get_bool(p: &Properties, key: &str) -> (r: Result<bool, NmError>)
    ensures
        match r {
            Ok(v) => prop_bool(p@, key@) == Ok::<bool, NmErrorView>(v),
            Err(e) => prop_bool(p@, key@) == Err::<bool, NmErrorView>(e@),
        },
{
    match p.get(key) {
        Some(PropValue::Bool(b)) => Ok(*b),
        Some(_) => Err(NmError::UnexpectedPropertyType(String::from_str(key))),
        None => Err(NmError::MissingProperty(String::from_str(key))),
    }
}

fn get_u32(p: &Properties, key: &str) -> (r: Result<u32, NmError>)
    ensures
        match r {
            Ok(v) => prop_u32(p@, key@) == Ok::<u32, NmErrorView>(v),
            Err(e) => prop_u32(p@, key@) == Err::<u32, NmErrorView>(e@),
        },
{
    match p.get(key) {
        Some(PropValue::U32(v)) => Ok(*v),
        Some(_) => Err(NmError::UnexpectedPropertyType(String::from_str(key))),
        None => Err(NmError::MissingProperty(String::from_str(key))),
    }
}

fn get_str(p: &Properties, key: &str) -> (r: Result<String, NmError>)
    ensures
        match r {
            Ok(v) => prop_str(p@, key@) == Ok::<Seq<char>, NmErrorView>(v@),
            Err(e) => prop_str(p@, key@) == Err::<Seq<char>, NmErrorView>(e@),
        },
{
    match p.get(key) {
        Some(PropValue::Str(s)) => Ok(s.clone()),
        Some(_) => Err(NmError::UnexpectedPropertyType(String::from_str(key))),
        None => Err(NmError::MissingProperty(String::from_str(key))),
    }
}

fn get_opt_u32(p: &Properties, key: &str) -> (r: Result<Option<u32>, NmError>)
    ensures
        match r {
            Ok(v) => opt_u32(p@, key@) == Ok::<Option<u32>, NmErrorView>(v),
            Err(e) => opt_u32(p@, key@) == Err::<Option<u32>, NmErrorView>(e@),
        },
{
    match p.get(key) {
        Some(PropValue::U32(v)) => Ok(Some(*v)),
        Some(_) => Err(NmError::UnexpectedPropertyType(String::from_str(key))),
        None => Ok(None),
    }
}

fn get_opt_i32(p: &Properties, key: &str) -> (r: Result<Option<i32>, NmError>)
    ensures
        match r {
            Ok(v) => opt_i32(p@, key@) == Ok::<Option<i32>, NmErrorView>(v),
            Err(e) => opt_i32(p@, key@) == Err::<Option<i32>, NmErrorView>(e@),
        },
{
    match p.get(key) {
        Some(PropValue::I32(v)) => Ok(Some(*v)),
        Some(_) => Err(NmError::UnexpectedPropertyType(String::from_str(key))),
        None => Ok(None),
    }
}

fn get_opt_str(p: &Properties, key: &str) -> (r: Result<Option<String>, NmError>)
    ensures
        match r {
            Ok(v) => opt_str(p@, key@) == Ok::<Option<Seq<char>>, NmErrorView>(v.deep_view()),
            Err(e) => opt_str(p@, key@) == Err::<Option<Seq<char>>, NmErrorView>(e@),
        },
{
    match p.get(key) {
        Some(PropValue::Str(s)) => Ok(Some(s.clone())),
        Some(_) => Err(NmError::UnexpectedPropertyType(String::from_str(key))),
        None => Ok(None),
    }
}

/// `m` with `k` set to the number when there is one.
pub open spec fn insert_u32(m: PropMap, k: Seq<char>, v: Option<u32>) -> PropMap {
    match v {
        Some(x) => m.insert(k, PropValueView::U32(x)),
        None => m,
    }
}

/// `m` with `k` set to the string when there is one.
pub open spec fn insert_str(m: PropMap, k: Seq<char>, v: Option<Seq<char>>) -> PropMap {
    match v {
        Some(x) => m.insert(k, PropValueView::Str(x)),
        None => m,
    }
}

fn put(p: &mut Properties, key: &str, v: PropValue)
    ensures
        old(p).wf() ==> final(p).wf(),
        final(p)@ == old(p)@.insert(key@, v@),
{
    p.insert(String::from_str(key), v);
}

fn put_u32(p: &mut Properties, key: &str, v: Option<u32>)
    ensures
        old(p).wf() ==> final(p).wf(),
        final(p)@ == insert_u32(old(p)@, key@, v),
{
    if let Some(x) = v {
        put(p, key, PropValue::U32(x));
    }
}

fn put_str(p: &mut Properties, key: &str, v: &Option<String>)
    ensures
        old(p).wf() ==> final(p).wf(),
        final(p)@ == insert_str(old(p)@, key@, v.deep_view()),
{
    if let Some(x) = v {
        put(p, key, PropValue::Str(x.clone()));
    }
}

// ---------------------------------------------------------------------------
// Bridges.

/// The dictionary of a bridge: `stp` always, and each other setting that is
/// set.
pub open spec fn bridge_dbus(b: BridgeConfig) -> PropMap {
    insert_u32(
        insert_u32(
            insert_u32(
                insert_u32(
                    insert_u32(
                        Map::empty().insert("stp"@, PropValueView::Bool(b.stp)),
                        "priority"@,
                        b.priority,
                    ),
                    "forward-delay"@,
                    b.forward_delay,
                ),
                "hello-time"@,
                b.hello_time,
            ),
            "max-age"@,
            b.max_age,
        ),
        "ageing-time"@,
        b.ageing_time,
    )
}

/// The bridge settings of a connection: none without a `bridge` setting;
/// else `stp` must be a boolean and the optional numbers numbers, the first
/// property in that order that is not is the error.
pub open spec fn bridge_from(conn: NestedMap) -> Result<Option<BridgeConfig>, NmErrorView> {
    if !conn.contains_key("bridge"@) {
        Ok(None)
    } else {
        let m = conn["bridge"@];
        match prop_bool(m, "stp"@) {
            Err(e) => Err(e),
            Ok(stp) => match opt_u32(m, "priority"@) {
                Err(e) => Err(e),
                Ok(priority) => match opt_u32(m, "forward-delay"@) {
                    Err(e) => Err(e),
                    Ok(forward_delay) => match opt_u32(m, "hello-time"@) {
                        Err(e) => Err(e),
                        Ok(hello_time) => match opt_u32(m, "max-age"@) {
                            Err(e) => Err(e),
                            Ok(max_age) => match opt_u32(m, "ageing-time"@) {
                                Err(e) => Err(e),
                                Ok(ageing_time) => Ok(
                                    Some(
                                        BridgeConfig {
                                            stp,
                                            priority,
                                            forward_delay,
                                            hello_time,
                                            max_age,
                                            ageing_time,
                                        },
                                    ),
                                ),
                            },
                        },
                    },
                },
            },
        }
    }
}

/// The D-Bus dictionary of a bridge's settings.
pub fn bridge_config_to_dbus(bridge: &BridgeConfig) -> (r: Properties)
    ensures
        r.wf(),
        r@ == bridge_dbus(*bridge),
{
    let mut hash = Dict::new();
    put(&mut hash, "stp", PropValue::Bool(bridge.stp));
    put_u32(&mut hash, "priority", bridge.priority);
    put_u32(&mut hash, "forward-delay", bridge.forward_delay);
    put_u32(&mut hash, "hello-time", bridge.hello_time);
    put_u32(&mut hash, "max-age", bridge.max_age);
    put_u32(&mut hash, "ageing-time", bridge.ageing_time);
    hash
}

/// The bridge settings held by a connection's D-Bus dictionaries.
pub fn bridge_config_from_dbus(conn: &NestedProperties) -> (r: Result<Option<BridgeConfig>, NmError>)
    ensures
        match r {
            Ok(c) => bridge_from(conn@) == Ok::<Option<BridgeConfig>, NmErrorView>(c),
            Err(e) => bridge_from(conn@) == Err::<Option<BridgeConfig>, NmErrorView>(e@),
        },
{
    let bridge = match conn.get(BRIDGE_KEY) {
        Some(b) => b,
        None => return Ok(None),
    };
    let stp = match get_bool(bridge, "stp") {
        Ok(v) => v,
        Err(e) => return Err(e),
    };
    let priority = match get_opt_u32(bridge, "priority") {
        Ok(v) => v,
        Err(e) => return Err(e),
    };
    let forward_delay = match get_opt_u32(bridge, "forward-delay") {
        Ok(v) => v,
        Err(e) => return Err(e),
    };
    let hello_time = match get_opt_u32(bridge, "hello-time") {
        Ok(v) => v,
        Err(e) => return Err(e),
    };
    let max_age = match get_opt_u32(bridge, "max-age") {
        Ok(v) => v,
        Err(e) => return Err(e),
    };
    let ageing_time = match get_opt_u32(bridge, "ageing-time") {
        Ok(v) => v,
        Err(e) => return Err(e),
    };
    Ok(Some(BridgeConfig { stp, priority, forward_delay, hello_time, max_age, ageing_time }))
}

// ---------------------------------------------------------------------------
// Bridge ports.

/// The dictionary of a bridge port: each setting that is set.
pub open spec fn bridge_port_dbus(p: BridgePortConfig) -> PropMap {
    insert_u32(insert_u32(Map::empty(), "priority"@, p.priority), "path-cost"@, p.path_cost)
}

/// The bridge port settings of a connection; the path cost is read from the
/// `path_cost` property.
pub open spec fn bridge_port_from(conn: NestedMap) -> Result<
    Option<BridgePortConfig>,
    NmErrorView,
> {
    if !conn.contains_key("bridge-port"@) {
        Ok(None)
    } else {
        let m = conn["bridge-port"@];
        match opt_u32(m, "priority"@) {
            Err(e) => Err(e),
            Ok(priority) => match opt_u32(m, "path_cost"@) {
                Err(e) => Err(e),
                Ok(path_cost) => Ok(Some(BridgePortConfig { priority, path_cost })),
            },
        }
    }
}

/// The D-Bus dictionary of a bridge port's settings.
pub fn bridge_port_config_to_dbus(bridge_port: &BridgePortConfig) -> (r: Properties)
    ensures
        r.wf(),
        r@ == bridge_port_dbus(*bridge_port),
{
    let mut hash = Dict::new();
    put_u32(&mut hash, "priority", bridge_port.priority);
    put_u32(&mut hash, "path-cost", bridge_port.path_cost);
    hash
}

/// The bridge port settings held by a connection's D-Bus dictionaries.
pub fn bridge_port_config_from_dbus(conn: &NestedProperties) -> (r: Result<
    Option<BridgePortConfig>,
    NmError,
>)
    ensures
        match r {
            Ok(c) => bridge_port_from(conn@) == Ok::<Option<BridgePortConfig>, NmErrorView>(c),
            Err(e) => bridge_port_from(conn@) == Err::<Option<BridgePortConfig>, NmErrorView>(e@),
        },
{
    let bridge_port = match conn.get(BRIDGE_PORT_KEY) {
        Some(b) => b,
        None => return Ok(None),
    };
    let priority = match get_opt_u32(bridge_port, "priority") {
        Ok(v) => v,
        Err(e) => return Err(e),
    };
    let path_cost = match get_opt_u32(bridge_port, "path_cost") {
        Ok(v) => v,
        Err(e) => return Err(e),
    };
    Ok(Some(BridgePortConfig { priority, path_cost }))
}

// ---------------------------------------------------------------------------
// InfiniBand.

/// The dictionary of an InfiniBand interface: its transport mode, its
/// partition key (-1 when there is none) and its parent when it has one.
pub open spec fn infiniband_dbus(c: InfinibandConfigView) -> PropMap {
    insert_str(
        Map::empty().insert(
            "transport-mode"@,
            PropValueView::Str(c.transport_mode.spec_name()),
        ).insert(
            "p-key"@,
            PropValueView::I32(
                match c.p_key {
                    Some(k) => k,
                    None => -1i32,
                },
            ),
        ),
        "parent"@,
        c.parent,
    )
}

/// The InfiniBand settings of a connection; an absent transport mode is the
/// datagram mode.
pub open spec fn infiniband_from(conn: NestedMap) -> Result<
    Option<InfinibandConfigView>,
    NmErrorView,
> {
    if !conn.contains_key("infiniband"@) {
        Ok(None)
    } else {
        let m = conn["infiniband"@];
        match opt_i32(m, "p-key"@) {
            Err(e) => Err(e),
            Ok(p_key) => match opt_str(m, "parent"@) {
                Err(e) => Err(e),
                Ok(parent) => match opt_str(m, "transport-mode"@) {
                    Err(e) => Err(e),
                    Ok(None) => Ok(
                        Some(
                            InfinibandConfigView {
                                p_key,
                                parent,
                                transport_mode: InfinibandTransportMode::Datagram,
                            },
                        ),
                    ),
                    Ok(Some(t)) => match InfinibandTransportMode::spec_from_name(t) {
                        Some(mode) => Ok(
                            Some(InfinibandConfigView { p_key, parent, transport_mode: mode }),
                        ),
                        None => Err(NmErrorView::InvalidTransportMode(t)),
                    },
                },
            },
        }
    }
}

/// The D-Bus dictionary of an InfiniBand interface's settings.
pub fn infiniband_config_to_dbus(config: &InfinibandConfig) -> (r: Properties)
    ensures
        r.wf(),
        r@ == infiniband_dbus(config@),
{
    let mut infiniband_config = Dict::new();
    put(
        &mut infiniband_config,
        "transport-mode",
        PropValue::Str(String::from_str(config.transport_mode.name())),
    );
    let p_key = match config.p_key {
        Some(k) => k,
        None => -1,
    };
    put(&mut infiniband_config, "p-key", PropValue::I32(p_key));
    put_str(&mut infiniband_config, "parent", &config.parent);
    infiniband_config
}

/// The InfiniBand settings held by a connection's D-Bus dictionaries.
pub fn infiniband_config_from_dbus(conn: &NestedProperties) -> (r: Result<
    Option<InfinibandConfig>,
    NmError,
>)
    ensures
        outcome(r) == infiniband_from(conn@),
{
    let infiniband = match conn.get(INFINIBAND_KEY) {
        Some(b) => b,
        None => return Ok(None),
    };
    let p_key = match get_opt_i32(infiniband, "p-key") {
        Ok(v) => v,
        Err(e) => return Err(e),
    };
    let parent = match get_opt_str(infiniband, "parent") {
        Ok(v) => v,
        Err(e) => return Err(e),
    };
    let mut config = InfinibandConfig {
        p_key,
        parent,
        transport_mode: InfinibandTransportMode::Datagram,
    };
    match get_opt_str(infiniband, "transport-mode") {
        Ok(Some(t)) => match InfinibandTransportMode::from_name(t.as_str()) {
            Some(mode) => {
                config.transport_mode = mode;
            },
            None => {
                return Err(NmError::InvalidTransportMode(t));
            },
        },
        Ok(None) => {},
        Err(e) => {
            return Err(e);
        },
    }
    Ok(Some(config))
}

// ---------------------------------------------------------------------------
// TUN and TAP.

/// The dictionary of a tunnel: its mode number, and its group and owner
/// when they are set.
pub open spec fn tun_dbus(c: TunConfigView) -> PropMap {
    insert_str(
        insert_str(
            Map::empty().insert("mode"@, PropValueView::U32(c.mode.spec_number())),
            "group"@,
            c.group,
        ),
        "owner"@,
        c.owner,
    )
}

/// The tunnel settings of a connection: the TAP mode when `mode` is the
/// number 2, the TUN mode otherwise.
pub open spec fn tun_from(conn: NestedMap) -> Result<Option<TunConfigView>, NmErrorView> {
    if !conn.contains_key("tun"@) {
        Ok(None)
    } else {
        let m = conn["tun"@];
        let mode = if prop_u32(m, "mode"@) == Ok::<u32, NmErrorView>(2) {
            TunMode::Tap
        } else {
            TunMode::Tun
        };
        match opt_str(m, "group"@) {
            Err(e) => Err(e),
            Ok(group) => match opt_str(m, "owner"@) {
                Err(e) => Err(e),
                Ok(owner) => Ok(Some(TunConfigView { mode, group, owner })),
            },
        }
    }
}

/// The D-Bus dictionary of a tunnel's settings.
pub fn tun_config_to_dbus(config: &TunConfig) -> (r: Properties)
    ensures
        r.wf(),
        r@ == tun_dbus(config@),
{
    let mut tun_config = Dict::new();
    put(&mut tun_config, "mode", PropValue::U32(config.mode.number()));
    put_str(&mut tun_config, "group", &config.group);
    put_str(&mut tun_config, "owner", &config.owner);
    tun_config
}

/// The tunnel settings held by a connection's D-Bus dictionaries.
pub fn tun_config_from_dbus(conn: &NestedProperties) -> (r: Result<Option<TunConfig>, NmError>)
    ensures
        outcome(r) == tun_from(conn@),
{
    let tun = match conn.get(TUN_KEY) {
        Some(b) => b,
        None => return Ok(None),
    };
    let mode = match get_u32(tun, "mode") {
        Ok(2) => TunMode::Tap,
        _ => TunMode::Tun,
    };
    let group = match get_opt_str(tun, "group") {
        Ok(v) => v,
        Err(e) => return Err(e),
    };
    let owner = match get_opt_str(tun, "owner") {
        Ok(v) => v,
        Err(e) => return Err(e),
    };
    Ok(Some(TunConfig { mode, group, owner }))
}

// ---------------------------------------------------------------------------
// VLAN.

/// The dictionaries of a VLAN: a `vlan` setting with its id, parent and
/// protocol.
pub open spec fn vlan_dbus(c: VlanConfigView) -> NestedMap {
    Map::empty().insert(
        "vlan"@,
        Map::empty().insert("id"@, PropValueView::U32(c.id)).insert(
            "parent"@,
            PropValueView::Str(c.parent),
        ).insert("protocol"@, PropValueView::Str(c.protocol.spec_name())),
    )
}

/// The VLAN settings of a connection: the protocol is 802.1Q unless the
/// `protocol` property names another one; the id and the parent must be
/// present.
pub open spec fn vlan_from(conn: NestedMap) -> Result<Option<VlanConfigView>, NmErrorView> {
    if !conn.contains_key("vlan"@) {
        Ok(None)
    } else {
        let m = conn["vlan"@];
        let protocol = match prop_str(m, "protocol"@) {
            Ok(p) => match VlanProtocol::spec_from_name(p) {
                Some(v) => v,
                None => VlanProtocol::IEEE802_1Q,
            },
            Err(_) => VlanProtocol::IEEE802_1Q,
        };
        match prop_u32(m, "id"@) {
            Err(e) => Err(e),
            Ok(id) => match prop_str(m, "parent"@) {
                Err(e) => Err(e),
                Ok(parent) => Ok(Some(VlanConfigView { id, parent, protocol })),
            },
        }
    }
}

/// The D-Bus dictionaries of a VLAN's settings.
pub fn vlan_config_to_dbus(cfg: &VlanConfig) -> (r: NestedProperties)
    ensures
        r.wf(),
        forall|i: int| 0 <= i < r.entries@.len() ==> (#[trigger] r.entries@[i]).1.wf(),
        r@ == vlan_dbus(cfg@),
{
    let mut vlan = Dict::new();
    put(&mut vlan, "id", PropValue::U32(cfg.id));
    put(&mut vlan, "parent", PropValue::Str(cfg.parent.clone()));
    put(&mut vlan, "protocol", PropValue::Str(String::from_str(cfg.protocol.name())));
    let entry = (String::from_str(VLAN_KEY), vlan);
    let ghost e = entry;
    let nested = Dict { entries: vec![entry] };
    assert(nested.entries@.drop_last() =~= Seq::<(String, Properties)>::empty());
    assert(nested.entries@[0] == e);
    assert(entries_map(Seq::<(String, Properties)>::empty()) == Map::<Seq<char>, Map<Seq<char>, PropValueView>>::empty());
    assert(nested@ == Map::<Seq<char>, Map<Seq<char>, PropValueView>>::empty().insert(e.0@, e.1@));
    nested
}

/// The VLAN settings held by a connection's D-Bus dictionaries.
pub fn vlan_config_from_dbus(conn: &NestedProperties) -> (r: Result<Option<VlanConfig>, NmError>)
    ensures
        outcome(r) == vlan_from(conn@),
{
    let vlan = match conn.get(VLAN_KEY) {
        Some(b) => b,
        None => return Ok(None),
    };
    let protocol = match get_str(vlan, "protocol") {
        Ok(p) => match VlanProtocol::from_name(p.as_str()) {
            Some(v) => v,
            None => VlanProtocol::IEEE802_1Q,
        },
        Err(_) => VlanProtocol::IEEE802_1Q,
    };
    let id = match get_u32(vlan, "id") {
        Ok(v) => v,
        Err(e) => return Err(e),
    };
    let parent = match get_str(vlan, "parent") {
        Ok(v) => v,
        Err(e) => return Err(e),
    };
    Ok(Some(VlanConfig { id, parent, protocol }))
}

// ---------------------------------------------------------------------------
// Reading back what was written.

/// Reading the dictionary of a bridge's settings gives back the settings.
pub proof fn lemma_bridge_roundtrip(b: BridgeConfig)
    ensures
        bridge_from(Map::empty().insert("bridge"@, bridge_dbus(b))) == Ok::<
            Option<BridgeConfig>,
            NmErrorView,
        >(Some(b)),
{
    broadcast use vstd::string::group_string_axioms;

    reveal_strlit("bridge");
    assert("bridge"@.len() == 6);
    reveal_strlit("stp");
    assert("stp"@.len() == 3);
    reveal_strlit("priority");
    assert("priority"@.len() == 8);
    reveal_strlit("forward-delay");
    assert("forward-delay"@.len() == 13);
    reveal_strlit("hello-time");
    assert("hello-time"@.len() == 10);
    reveal_strlit("max-age");
    assert("max-age"@.len() == 7);
    reveal_strlit("ageing-time");
    assert("ageing-time"@.len() == 11);
}

/// Reading the dictionary of a bridge port's settings gives back the
/// settings when no path cost is set (a path cost is written as `path-cost`
/// and read from `path_cost`).
pub proof fn lemma_bridge_port_roundtrip(p: BridgePortConfig)
    requires
        p.path_cost is None,
    ensures
        bridge_port_from(Map::empty().insert("bridge-port"@, bridge_port_dbus(p))) == Ok::<
            Option<BridgePortConfig>,
            NmErrorView,
        >(Some(p)),
{
    broadcast use vstd::string::group_string_axioms;

    reveal_strlit("bridge-port");
    assert("bridge-port"@.len() == 11);
    reveal_strlit("priority");
    assert("priority"@.len() == 8);
    reveal_strlit("path-cost");
    assert("path-cost"@.len() == 9);
    reveal_strlit("path_cost");
    assert("path_cost"@.len() == 9);
    assert("path-cost"@[4] != "path_cost"@[4]);
}

/// Reading the dictionary of an InfiniBand interface's settings gives back
/// the settings when a partition key is set (none is written as -1).
pub proof fn lemma_infiniband_roundtrip(c: InfinibandConfigView)
    requires
        c.p_key is Some,
    ensures
        infiniband_from(Map::empty().insert("infiniband"@, infiniband_dbus(c))) == Ok::<
            Option<InfinibandConfigView>,
            NmErrorView,
        >(Some(c)),
{
    broadcast use vstd::string::group_string_axioms;

    reveal_strlit("infiniband");
    assert("infiniband"@.len() == 10);
    reveal_strlit("transport-mode");
    assert("transport-mode"@.len() == 14);
    reveal_strlit("p-key");
    assert("p-key"@.len() == 5);
    reveal_strlit("parent");
    assert("parent"@.len() == 6);
    reveal_strlit("datagram");
    assert("datagram"@.len() == 8);
    reveal_strlit("connected");
    assert("connected"@.len() == 9);
}

/// Reading the dictionary of a tunnel's settings gives back the settings.
pub proof fn lemma_tun_roundtrip(c: TunConfigView)
    ensures
        tun_from(Map::empty().insert("tun"@, tun_dbus(c))) == Ok::<
            Option<TunConfigView>,
            NmErrorView,
        >(Some(c)),
{
    broadcast use vstd::string::group_string_axioms;

    reveal_strlit("tun");
    assert("tun"@.len() == 3);
    reveal_strlit("mode");
    assert("mode"@.len() == 4);
    reveal_strlit("group");
    assert("group"@.len() == 5);
    reveal_strlit("owner");
    assert("owner"@.len() == 5);
    assert("group"@[0] != "owner"@[0]);
}

/// Reading the dictionaries of a VLAN's settings gives back the settings.
pub proof fn lemma_vlan_roundtrip(c: VlanConfigView)
    ensures
        vlan_from(vlan_dbus(c)) == Ok::<Option<VlanConfigView>, NmErrorView>(Some(c)),
{
    broadcast use vstd::string::group_string_axioms;

    reveal_strlit("vlan");
    assert("vlan"@.len() == 4);
    reveal_strlit("id");
    assert("id"@.len() == 2);
    reveal_strlit("parent");
    assert("parent"@.len() == 6);
    reveal_strlit("protocol");
    assert("protocol"@.len() == 8);
    reveal_strlit("802.1Q");
    assert("802.1Q"@.len() == 6);
    reveal_strlit("802.1ad");
    assert("802.1ad"@.len() == 7);
}


// ---------------------------------------------------------------------------
// Which property holds which setting.

/// A number as a property value, when there is one.
pub open spec fn u32_value(o: Option<u32>) -> Option<PropValueView> {
    match o {
        Some(x) => Some(PropValueView::U32(x)),
        None => None,
    }
}

/// A signed number as a property value, when there is one.
pub open spec fn i32_value(o: Option<i32>) -> Option<PropValueView> {
    match o {
        Some(x) => Some(PropValueView::I32(x)),
        None => None,
    }
}

/// A text as a property value, when there is one.
pub open spec fn str_value(o: Option<Seq<char>>) -> Option<PropValueView> {
    match o {
        Some(x) => Some(PropValueView::Str(x)),
        None => None,
    }
}

/// A bridge's dictionary holds `stp` as a boolean and each other setting
/// under its own NetworkManager name (`priority`, `forward-delay`,
/// `hello-time`, `max-age`, `ageing-time`) exactly when it is set, and no
/// other property.
pub proof fn lemma_bridge_dbus_properties(b: BridgeConfig)
    ensures
        bridge_dbus(b).get("stp"@) == Some(PropValueView::Bool(b.stp)),
        bridge_dbus(b).get("priority"@) == u32_value(b.priority),
        bridge_dbus(b).get("forward-delay"@) == u32_value(b.forward_delay),
        bridge_dbus(b).get("hello-time"@) == u32_value(b.hello_time),
        bridge_dbus(b).get("max-age"@) == u32_value(b.max_age),
        bridge_dbus(b).get("ageing-time"@) == u32_value(b.ageing_time),
        forall|k: Seq<char>|
            #[trigger] bridge_dbus(b).contains_key(k) ==> k == "stp"@ || k == "priority"@ || k
                == "forward-delay"@ || k == "hello-time"@ || k == "max-age"@ || k == "ageing-time"@,
{
    broadcast use vstd::string::group_string_axioms;

    reveal_strlit("stp");
    assert("stp"@.len() == 3);
    reveal_strlit("priority");
    assert("priority"@.len() == 8);
    reveal_strlit("forward-delay");
    assert("forward-delay"@.len() == 13);
    reveal_strlit("hello-time");
    assert("hello-time"@.len() == 10);
    reveal_strlit("max-age");
    assert("max-age"@.len() == 7);
    reveal_strlit("ageing-time");
    assert("ageing-time"@.len() == 11);
}

/// Reading a bridge takes `stp` from the property of that name and each
/// other setting from the property of its NetworkManager name; without a
/// `bridge` setting there is no bridge.
pub proof fn lemma_bridge_from_properties(conn: NestedMap)
    ensures
        !conn.contains_key("bridge"@) ==> bridge_from(conn) == Ok::<
            Option<BridgeConfig>,
            NmErrorView,
        >(None),
        bridge_from(conn) matches Ok(Some(c)) ==> conn.contains_key("bridge"@) && conn["bridge"@].get(
            "stp"@,
        ) == Some(PropValueView::Bool(c.stp)) && conn["bridge"@].get("priority"@) == u32_value(
            c.priority,
        ) && conn["bridge"@].get("forward-delay"@) == u32_value(c.forward_delay)
            && conn["bridge"@].get("hello-time"@) == u32_value(c.hello_time)
            && conn["bridge"@].get("max-age"@) == u32_value(c.max_age)
            && conn["bridge"@].get("ageing-time"@) == u32_value(c.ageing_time),
{
}

/// A bridge port's dictionary holds each setting that is set, the priority
/// under `priority` and the path cost under `path-cost`, and nothing else.
pub proof fn lemma_bridge_port_dbus_properties(p: BridgePortConfig)
    ensures
        bridge_port_dbus(p).get("priority"@) == u32_value(p.priority),
        bridge_port_dbus(p).get("path-cost"@) == u32_value(p.path_cost),
        forall|k: Seq<char>|
            #[trigger] bridge_port_dbus(p).contains_key(k) ==> k == "priority"@ || k == "path-cost"@,
{
    broadcast use vstd::string::group_string_axioms;

    reveal_strlit("priority");
    assert("priority"@.len() == 8);
    reveal_strlit("path-cost");
    assert("path-cost"@.len() == 9);
}

/// Reading a bridge port takes the priority from `priority` and the path
/// cost from `path_cost`.
pub proof fn lemma_bridge_port_from_properties(conn: NestedMap)
    ensures
        !conn.contains_key("bridge-port"@) ==> bridge_port_from(conn) == Ok::<
            Option<BridgePortConfig>,
            NmErrorView,
        >(None),
        bridge_port_from(conn) matches Ok(Some(c)) ==> conn.contains_key("bridge-port"@)
            && conn["bridge-port"@].get("priority"@) == u32_value(c.priority)
            && conn["bridge-port"@].get("path_cost"@) == u32_value(c.path_cost),
{
}

/// An InfiniBand dictionary holds the transport mode's name under
/// `transport-mode`, the partition key under `p-key` (-1 without one) and
/// the parent under `parent` when there is one, and nothing else.
pub proof fn lemma_infiniband_dbus_properties(c: InfinibandConfigView)
    ensures
        infiniband_dbus(c).get("transport-mode"@) == Some(
            PropValueView::Str(c.transport_mode.spec_name()),
        ),
        infiniband_dbus(c).get("p-key"@) == Some(
            PropValueView::I32(
                match c.p_key {
                    Some(k) => k,
                    None => -1i32,
                },
            ),
        ),
        infiniband_dbus(c).get("parent"@) == str_value(c.parent),
        forall|k: Seq<char>|
            #[trigger] infiniband_dbus(c).contains_key(k) ==> k == "transport-mode"@ || k == "p-key"@
                || k == "parent"@,
{
    broadcast use vstd::string::group_string_axioms;

    reveal_strlit("transport-mode");
    assert("transport-mode"@.len() == 14);
    reveal_strlit("p-key");
    assert("p-key"@.len() == 5);
    reveal_strlit("parent");
    assert("parent"@.len() == 6);
}

/// Reading InfiniBand settings takes the partition key from `p-key`, the
/// parent from `parent` and the transport mode from the name under
/// `transport-mode` (datagram without one).
pub proof fn lemma_infiniband_from_properties(conn: NestedMap)
    ensures
        !conn.contains_key("infiniband"@) ==> infiniband_from(conn) == Ok::<
            Option<InfinibandConfigView>,
            NmErrorView,
        >(None),
        infiniband_from(conn) matches Ok(Some(c)) ==> conn.contains_key("infiniband"@)
            && conn["infiniband"@].get("p-key"@) == i32_value(c.p_key)
            && conn["infiniband"@].get("parent"@) == str_value(c.parent) && match conn["infiniband"@].get(
            "transport-mode"@,
        ) {
            Some(PropValueView::Str(t)) => InfinibandTransportMode::spec_from_name(t) == Some(
                c.transport_mode,
            ),
            _ => c.transport_mode == InfinibandTransportMode::Datagram,
        },
{
}

/// A tunnel's dictionary holds the mode's number under `mode`, and the
/// group and owner under `group` and `owner` when they are set, and nothing
/// else.
pub proof fn lemma_tun_dbus_properties(c: TunConfigView)
    ensures
        tun_dbus(c).get("mode"@) == Some(PropValueView::U32(c.mode.spec_number())),
        tun_dbus(c).get("group"@) == str_value(c.group),
        tun_dbus(c).get("owner"@) == str_value(c.owner),
        forall|k: Seq<char>|
            #[trigger] tun_dbus(c).contains_key(k) ==> k == "mode"@ || k == "group"@ || k == "owner"@,
{
    broadcast use vstd::string::group_string_axioms;

    reveal_strlit("mode");
    assert("mode"@.len() == 4);
    reveal_strlit("group");
    assert("group"@.len() == 5);
    reveal_strlit("owner");
    assert("owner"@.len() == 5);
    assert("group"@[0] != "owner"@[0]);
}

/// Reading tunnel settings takes the group and owner from `group` and
/// `owner`, and the TAP mode exactly when `mode` is the number 2.
pub proof fn lemma_tun_from_properties(conn: NestedMap)
    ensures
        !conn.contains_key("tun"@) ==> tun_from(conn) == Ok::<Option<TunConfigView>, NmErrorView>(
            None,
        ),
        tun_from(conn) matches Ok(Some(c)) ==> conn.contains_key("tun"@) && conn["tun"@].get(
            "group"@,
        ) == str_value(c.group) && conn["tun"@].get("owner"@) == str_value(c.owner) && (c.mode
            == TunMode::Tap <==> conn["tun"@].get("mode"@) == Some(PropValueView::U32(2))),
{
}

/// A VLAN's dictionaries are one `vlan` setting holding the id under `id`,
/// the parent under `parent` and the protocol's name under `protocol`, and
/// nothing else.
pub proof fn lemma_vlan_dbus_properties(c: VlanConfigView)
    ensures
        vlan_dbus(c).dom() == set!["vlan"@],
        vlan_dbus(c)["vlan"@].get("id"@) == Some(PropValueView::U32(c.id)),
        vlan_dbus(c)["vlan"@].get("parent"@) == Some(PropValueView::Str(c.parent)),
        vlan_dbus(c)["vlan"@].get("protocol"@) == Some(PropValueView::Str(c.protocol.spec_name())),
        forall|k: Seq<char>|
            #[trigger] vlan_dbus(c)["vlan"@].contains_key(k) ==> k == "id"@ || k == "parent"@ || k
                == "protocol"@,
{
    broadcast use vstd::string::group_string_axioms;

    reveal_strlit("id");
    assert("id"@.len() == 2);
    reveal_strlit("parent");
    assert("parent"@.len() == 6);
    reveal_strlit("protocol");
    assert("protocol"@.len() == 8);
    assert(vlan_dbus(c).dom() =~= set!["vlan"@]);
}

/// Reading VLAN settings takes the id from `id`, the parent from `parent`,
/// and the protocol named under `protocol` (802.1Q when none is named).
pub proof fn lemma_vlan_from_properties(conn: NestedMap)
    ensures
        !conn.contains_key("vlan"@) ==> vlan_from(conn) == Ok::<Option<VlanConfigView>, NmErrorView>(
            None,
        ),
        vlan_from(conn) matches Ok(Some(c)) ==> conn.contains_key("vlan"@) && conn["vlan"@].get(
            "id"@,
        ) == Some(PropValueView::U32(c.id)) && conn["vlan"@].get("parent"@) == Some(
            PropValueView::Str(c.parent),
        ) && match conn["vlan"@].get("protocol"@) {
            Some(PropValueView::Str(t)) => match VlanProtocol::spec_from_name(t) {
                Some(p) => c.protocol == p,
                None => c.protocol == VlanProtocol::IEEE802_1Q,
            },
            _ => c.protocol == VlanProtocol::IEEE802_1Q,
        },
{
}

} // verus!
