//! The settings of the kinds of connection that NetworkManager knows.
use vstd::prelude::*;

verus! {

/// The settings of a bridge.
#[derive(Debug, PartialEq, Eq, Clone, Copy, Default)]
pub struct BridgeConfig {
    pub stp: bool,
    pub priority: Option<u32>,
    pub forward_delay: Option<u32>,
    pub hello_time: Option<u32>,
    pub max_age: Option<u32>,
    pub ageing_time: Option<u32>,
}

/// The settings of a port of a bridge.
#[derive(Debug, PartialEq, Eq, Clone, Copy, Default)]
pub struct BridgePortConfig {
    pub priority: Option<u32>,
    pub path_cost: Option<u32>,
}

/// How an InfiniBand interface transports data.
#[derive(Debug, PartialEq, Eq, Clone, Copy, Default)]
pub enum InfinibandTransportMode {
    #[default]
    Datagram,
    Connected,
}

impl InfinibandTransportMode {
    pub open spec fn spec_name(self) -> Seq<char> {
        match self {
            InfinibandTransportMode::Datagram => "datagram"@,
            InfinibandTransportMode::Connected => "connected"@,
        }
    }

    /// The name NetworkManager gives the mode.
    pub fn name(&self) -> (r: &'static str)
        ensures
            r@ == self.spec_name(),
    {
        match self {
            InfinibandTransportMode::Datagram => "datagram",
            InfinibandTransportMode::Connected => "connected",
        }
    }

    /// The mode that a name denotes.
    pub open spec fn spec_from_name(s: Seq<char>) -> Option<InfinibandTransportMode> {
        if s == "datagram"@ {
            Some(InfinibandTransportMode::Datagram)
        } else if s == "connected"@ {
            Some(InfinibandTransportMode::Connected)
        } else {
            None
        }
    }

    /// Reads a mode from its name.
    pub fn from_name(s: &str) -> (r: Option<InfinibandTransportMode>)
        ensures
            r == Self::spec_from_name(s@),
    {
        if crate::text::str_eq(s, "datagram") {
            Some(InfinibandTransportMode::Datagram)
        } else if crate::text::str_eq(s, "connected") {
            Some(InfinibandTransportMode::Connected)
        } else {
            None
        }
    }
}

/// The settings of an InfiniBand interface.
#[derive(Debug, PartialEq, Default)]
pub struct InfinibandConfig {
    pub p_key: Option<i32>,
    pub parent: Option<String>,
    pub transport_mode: InfinibandTransportMode,
}

pub struct InfinibandConfigView {
    pub p_key: Option<i32>,
    pub parent: Option<Seq<char>>,
    pub transport_mode: InfinibandTransportMode,
}

impl View for InfinibandConfig {
    type V = InfinibandConfigView;

    open spec fn view(&self) -> InfinibandConfigView {
        InfinibandConfigView {
            p_key: self.p_key,
            parent: self.parent.deep_view(),
            transport_mode: self.transport_mode,
        }
    }
}

/// Whether a tunnel carries IP packets or Ethernet frames.
#[derive(Debug, PartialEq, Eq, Clone, Copy, Default)]
pub enum TunMode {
    #[default]
    Tun,
    Tap,
}

impl TunMode {
    pub open spec fn spec_number(self) -> u32 {
        match self {
            TunMode::Tun => 1,
            TunMode::Tap => 2,
        }
    }

    /// The number NetworkManager gives the mode.
    pub fn number(&self) -> (r: u32)
        ensures
            r == self.spec_number(),
    {
        match self {
            TunMode::Tun => 1,
            TunMode::Tap => 2,
        }
    }
}

/// The settings of a TUN or TAP interface.
#[derive(Debug, PartialEq, Default)]
pub struct TunConfig {
    pub mode: TunMode,
    pub group: Option<String>,
    pub owner: Option<String>,
}

pub struct TunConfigView {
    pub mode: TunMode,
    pub group: Option<Seq<char>>,
    pub owner: Option<Seq<char>>,
}

impl View for TunConfig {
    type V = TunConfigView;

    open spec fn view(&self) -> TunConfigView {
        TunConfigView { mode: self.mode, group: self.group.deep_view(), owner: self.owner.deep_view() }
    }
}

/// The tagging protocol of a VLAN.
#[derive(Debug, PartialEq, Eq, Clone, Copy, Default)]
pub enum VlanProtocol {
    #[default]
    IEEE802_1Q,
    IEEE802_1ad,
}

impl VlanProtocol {
    pub open spec fn spec_name(self) -> Seq<char> {
        match self {
            VlanProtocol::IEEE802_1Q => "802.1Q"@,
            VlanProtocol::IEEE802_1ad => "802.1ad"@,
        }
    }

    /// The name NetworkManager gives the protocol.
    pub fn name(&self) -> (r: &'static str)
        ensures
            r@ == self.spec_name(),
    {
        match self {
            VlanProtocol::IEEE802_1Q => "802.1Q",
            VlanProtocol::IEEE802_1ad => "802.1ad",
        }
    }

    pub open spec fn spec_from_name(s: Seq<char>) -> Option<VlanProtocol> {
        if s == "802.1Q"@ {
            Some(VlanProtocol::IEEE802_1Q)
        } else if s == "802.1ad"@ {
            Some(VlanProtocol::IEEE802_1ad)
        } else {
            None
        }
    }

    /// Reads a protocol from its name.
    pub fn from_name(s: &str) -> (r: Option<VlanProtocol>)
        ensures
            r == Self::spec_from_name(s@),
    {
        if crate::text::str_eq(s, "802.1Q") {
            Some(VlanProtocol::IEEE802_1Q)
        } else if crate::text::str_eq(s, "802.1ad") {
            Some(VlanProtocol::IEEE802_1ad)
        } else {
            None
        }
    }
}

/// The settings of a VLAN.
#[derive(Debug, PartialEq)]
pub struct VlanConfig {
    pub id: u32,
    pub parent: String,
    pub protocol: VlanProtocol,
}

pub struct VlanConfigView {
    pub id: u32,
    pub parent: Seq<char>,
    pub protocol: VlanProtocol,
}

impl View for VlanConfig {
    type V = VlanConfigView;

    open spec fn view(&self) -> VlanConfigView {
        VlanConfigView { id: self.id, parent: self.parent@, protocol: self.protocol }
    }
}


/// The InfiniBand transport modes are named `datagram` and `connected`:
/// reading a mode's name gives the mode back, distinct modes have distinct
/// names, and no other name is read as a mode.
pub proof fn lemma_transport_mode_names(m: InfinibandTransportMode, s: Seq<char>)
    ensures
        InfinibandTransportMode::spec_from_name(m.spec_name()) == Some(m),
        InfinibandTransportMode::spec_from_name(s) is Some <==> (s == "datagram"@ || s
            == "connected"@),
        InfinibandTransportMode::spec_from_name(s) matches Some(n) ==> n.spec_name() == s,
        m == InfinibandTransportMode::Datagram <==> m.spec_name() == "datagram"@,
{
    reveal_strlit("datagram");
    reveal_strlit("connected");
    assert("datagram"@.len() == 8 && "connected"@.len() == 9);
}

/// The TAP mode is the number 2 and the TUN mode another number, so reading
/// the number back gives the mode.
pub proof fn lemma_tun_mode_numbers(m: TunMode)
    ensures
        m.spec_number() == 2 <==> m == TunMode::Tap,
{
}

/// The VLAN protocols are named `802.1Q` and `802.1ad`: reading a
/// protocol's name gives it back, distinct protocols have distinct names,
/// and no other name is read as a protocol.
pub proof fn lemma_vlan_protocol_names(p: VlanProtocol, s: Seq<char>)
    ensures
        VlanProtocol::spec_from_name(p.spec_name()) == Some(p),
        VlanProtocol::spec_from_name(s) is Some <==> (s == "802.1Q"@ || s == "802.1ad"@),
        VlanProtocol::spec_from_name(s) matches Some(q) ==> q.spec_name() == s,
        p == VlanProtocol::IEEE802_1Q <==> p.spec_name() == "802.1Q"@,
{
    reveal_strlit("802.1Q");
    reveal_strlit("802.1ad");
    assert("802.1Q"@.len() == 6 && "802.1ad"@.len() == 7);
}

} // verus!
