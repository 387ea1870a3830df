//! The connection model that a wicked interface is migrated to, and the
//! conversion of an interface into a connection.
use crate::dict::Dict;
use crate::interface::{bond_options, Address, Interface, Ipv4Static, Ipv6Static, Nexthop, Route};
use crate::ip::{addr_parse, inet_parse, IpAddr, IpInet};
use crate::reader::{has_bond_parent, post_processed};
use vstd::prelude::*;

verus! {

/// How an IP version is configured.
#[derive(Debug, PartialEq, Eq, Clone, Copy, Default)]
pub enum IpMethod {
    #[default]
    Disabled,
    Auto,
    Manual,
    LinkLocal,
}

/// The IP settings of a connection.
#[derive(Debug, PartialEq)]
pub struct IpConfig {
    pub method4: IpMethod,
    pub method6: IpMethod,
    pub addresses: Vec<IpInet>,
    pub gateway4: Option<IpAddr>,
    pub gateway6: Option<IpAddr>,
}

/// The kind of the connection that a connection is enslaved to.
#[derive(Debug, PartialEq, Eq, Clone, Copy)]
pub enum ParentKind {
    Bond,
}

/// The connection that a connection is enslaved to.
#[derive(Debug, PartialEq)]
pub struct Parent {
    pub interface: String,
    pub kind: ParentKind,
}

/// What every connection has.
#[derive(Debug, PartialEq)]
pub struct BaseConnection {
    pub id: String,
    pub interface: String,
    pub ip_config: IpConfig,
    pub parent: Option<Parent>,
}

/// The options of a bond, by their NetworkManager names.
#[derive(Debug, PartialEq)]
pub struct BondConfig {
    pub options: Dict<String>,
}

#[derive(Debug, PartialEq)]
pub struct BondConnection {
    pub base: BaseConnection,
    pub bond: BondConfig,
}

#[derive(Debug, PartialEq)]
pub struct EthernetConnection {
    pub base: BaseConnection,
}

/// A network connection.
#[derive(Debug, PartialEq)]
pub enum Connection {
    Ethernet(EthernetConnection),
    Bond(BondConnection),
}

impl Connection {
    pub open spec fn spec_base(&self) -> &BaseConnection {
        match self {
            Connection::Ethernet(c) => &c.base,
            Connection::Bond(c) => &c.base,
        }
    }

    /// The settings common to every kind of connection.
    pub fn base(&self) -> (r: &BaseConnection)
        ensures
            r == self.spec_base(),
    {
        match self {
            Connection::Ethernet(c) => &c.base,
            Connection::Bond(c) => &c.base,
        }
    }
}

// ---------------------------------------------------------------------------
// IP settings of an interface.

/// The method of an IP version: manual when it is enabled with static
/// settings, disabled when it is disabled, automatic otherwise.
pub open spec fn ip_method(enabled: bool, has_static: bool) -> IpMethod {
    if enabled && has_static {
        IpMethod::Manual
    } else if !enabled {
        IpMethod::Disabled
    } else {
        IpMethod::Auto
    }
}

/// The texts of a list of addresses.
pub open spec fn address_texts(addrs: Option<Vec<Address>>) -> Seq<Seq<char>> {
    match addrs {
        Some(v) => v@.map_values(|a: Address| a.local@),
        None => Seq::empty(),
    }
}

/// The static IPv4 address texts of an interface.
pub open spec fn ipv4_texts(s: Option<Ipv4Static>) -> Seq<Seq<char>> {
    match s {
        Some(st) => address_texts(st.addresses),
        None => Seq::empty(),
    }
}

/// The static IPv6 address texts of an interface.
pub open spec fn ipv6_texts(s: Option<Ipv6Static>) -> Seq<Seq<char>> {
    match s {
        Some(st) => address_texts(st.addresses),
        None => Seq::empty(),
    }
}

/// Whether every text reads as an address with a network length.
pub open spec fn all_parse(texts: Seq<Seq<char>>) -> bool {
    forall|i: int| 0 <= i < texts.len() ==> #[trigger] inet_parse(texts[i]) is Some
}

/// The addresses that the texts read as.
pub open spec fn parsed_all(texts: Seq<Seq<char>>) -> Seq<IpInet> {
    Seq::new(texts.len(), |i: int| inet_parse(texts[i]).unwrap())
}

/// The next hops of the route that gives the gateway: the first route with
/// next hops that has at most one of them. Routes with several next hops
/// are passed over, as multiple gateways are not supported.
pub open spec fn gateway_hops(routes: Seq<Route>) -> Option<Seq<Nexthop>>
    decreases routes.len(),
{
    if routes.len() == 0 {
        None
    } else {
        match routes[0].nexthops {
            Some(nh) => if nh@.len() <= 1 {
                Some(nh@)
            } else {
                gateway_hops(routes.drop_first())
            },
            None => gateway_hops(routes.drop_first()),
        }
    }
}

pub open spec fn route_list(routes: Option<Vec<Route>>) -> Seq<Route> {
    match routes {
        Some(v) => v@,
        None => Seq::empty(),
    }
}

/// Whether the gateway of the routes can be read: the route that gives it
/// has exactly one next hop, whose text is an address.
pub open spec fn gateway_defined(routes: Seq<Route>) -> bool {
    match gateway_hops(routes) {
        Some(nh) => nh.len() == 1 && addr_parse(nh[0].gateway@) is Some,
        None => true,
    }
}

/// The gateway of the routes.
pub open spec fn gateway(routes: Seq<Route>) -> Option<IpAddr> {
    match gateway_hops(routes) {
        Some(nh) => addr_parse(nh[0].gateway@),
        None => None,
    }
}

pub open spec fn ipv4_routes(s: Option<Ipv4Static>) -> Seq<Route> {
    match s {
        Some(st) => route_list(st.routes),
        None => Seq::empty(),
    }
}

pub open spec fn ipv6_routes(s: Option<Ipv6Static>) -> Seq<Route> {
    match s {
        Some(st) => route_list(st.routes),
        None => Seq::empty(),
    }
}

/// Whether the IP settings of `ifc` can be built: every static address and
/// every gateway that is used reads as an address.
pub open spec fn ip_config_defined(ifc: &Interface) -> bool {
    &&& all_parse(ipv4_texts(ifc.ipv4_static))
    &&& all_parse(ipv6_texts(ifc.ipv6_static))
    &&& gateway_defined(ipv4_routes(ifc.ipv4_static))
    &&& gateway_defined(ipv6_routes(ifc.ipv6_static))
}

/// The IP settings that describe `ifc`.
pub open spec fn ip_config_of(ifc: &Interface, c: &IpConfig) -> bool {
    &&& c.method4 == ip_method(ifc.ipv4.enabled, ifc.ipv4_static is Some)
    &&& c.method6 == ip_method(ifc.ipv6.enabled, ifc.ipv6_static is Some)
    &&& c.addresses@ == parsed_all(ipv4_texts(ifc.ipv4_static)) + parsed_all(
        ipv6_texts(ifc.ipv6_static),
    )
    &&& c.gateway4 == gateway(ipv4_routes(ifc.ipv4_static))
    &&& c.gateway6 == gateway(ipv6_routes(ifc.ipv6_static))
}

fn method(enabled: bool, has_static: bool) -> (r: IpMethod)
    ensures
        r == ip_method(enabled, has_static),
{
    if enabled && has_static {
        IpMethod::Manual
    } else if !enabled {
        IpMethod::Disabled
    } else {
        IpMethod::Auto
    }
}

/// Appends the addresses that the texts read as.
fn push_addresses(out: &mut Vec<IpInet>, addrs: &Option<Vec<Address>>)
    requires
        all_parse(address_texts(*addrs)),
    ensures
        final(out)@ == old(out)@ + parsed_all(address_texts(*addrs)),
{
    if let Some(v) = addrs {
        let ghost texts = address_texts(*addrs);
        let ghost start = out@;
        let mut i: usize = 0;
        while i < v.len()
            invariant
                0 <= i <= v.len(),
                texts == address_texts(*addrs),
                *addrs == Some(*v),
                texts.len() == v@.len(),
                all_parse(texts),
                out@ == start + parsed_all(texts).take(i as int),
            decreases v.len() - i,
        {
            assert(texts[i as int] == v@[i as int].local@);
            assert(inet_parse(texts[i as int]) is Some);
            let a = IpInet::parse(v[i].local.as_str());
            out.push(a.unwrap());
            assert(parsed_all(texts).take(i + 1) =~= parsed_all(texts).take(i as int).push(
                a.unwrap(),
            ));
            i = i + 1;
        }
        assert(parsed_all(texts).take(v.len() as int) =~= parsed_all(texts));
    } else {
        assert(parsed_all(address_texts(*addrs)) =~= Seq::<IpInet>::empty());
        assert(out@ + Seq::<IpInet>::empty() =~= out@);
    }
}

/// Whether the texts all read as addresses.
fn check_addresses(addrs: &Option<Vec<Address>>) -> (r: bool)
    ensures
        r == all_parse(address_texts(*addrs)),
{
    if let Some(v) = addrs {
        let ghost texts = address_texts(*addrs);
        let mut i: usize = 0;
        while i < v.len()
            invariant
                0 <= i <= v.len(),
                texts == address_texts(*addrs),
                *addrs == Some(*v),
                texts.len() == v@.len(),
                forall|j: int| 0 <= j < i ==> #[trigger] inet_parse(texts[j]) is Some,
            decreases v.len() - i,
        {
            assert(texts[i as int] == v@[i as int].local@);
            if IpInet::parse(v[i].local.as_str()).is_none() {
                return false;
            }
            i = i + 1;
        }
        true
    } else {
        true
    }
}

/// The gateway of the routes; reading the next hops of the route that gives
/// it requires it to have one, whose text is an address.
fn routes_gateway(routes: &Option<Vec<Route>>) -> (r: Option<IpAddr>)
    requires
        gateway_defined(route_list(*routes)),
    ensures
        r == gateway(route_list(*routes)),
{
    if let Some(v) = routes {
        let ghost rs = v@;
        let mut i: usize = 0;
        assert(rs.skip(0) =~= rs);
        while i < v.len()
            invariant
                0 <= i <= v.len(),
                rs == v@,
                route_list(*routes) == rs,
                gateway_hops(rs) == gateway_hops(rs.skip(i as int)),
                gateway_defined(rs),
            decreases v.len() - i,
        {
            assert(rs.skip(i as int).drop_first() =~= rs.skip(i + 1));
            assert(rs.skip(i as int)[0] == v@[i as int]);
            if let Some(nexthops) = &v[i].nexthops {
                if nexthops.len() <= 1 {
                    assert(gateway_hops(rs) == Some(nexthops@));
                    return IpAddr::parse(nexthops[0].gateway.as_str());
                }
            }
            i = i + 1;
        }
        None
    } else {
        None
    }
}

/// Whether the gateway of the routes can be read.
fn check_gateway(routes: &Option<Vec<Route>>) -> (r: bool)
    ensures
        r == gateway_defined(route_list(*routes)),
{
    if let Some(v) = routes {
        let ghost rs = v@;
        let mut i: usize = 0;
        assert(rs.skip(0) =~= rs);
        while i < v.len()
            invariant
                0 <= i <= v.len(),
                rs == v@,
                route_list(*routes) == rs,
                gateway_hops(rs) == gateway_hops(rs.skip(i as int)),
            decreases v.len() - i,
        {
            assert(rs.skip(i as int).drop_first() =~= rs.skip(i + 1));
            assert(rs.skip(i as int)[0] == v@[i as int]);
            if let Some(nexthops) = &v[i].nexthops {
                if nexthops.len() == 0 {
                    return false;
                }
                if nexthops.len() == 1 {
                    return IpAddr::parse(nexthops[0].gateway.as_str()).is_some();
                }
            }
            i = i + 1;
        }
        true
    } else {
        true
    }
}

impl IpConfig {
    /// The IP settings of a wicked interface. An IP version is configured
    /// manually when it is enabled with static settings, is disabled when it
    /// is disabled, and is automatic otherwise; the addresses are the static
    /// IPv4 addresses followed by the static IPv6 ones; the gateway of each
    /// version comes from the first route with a single next hop.
    pub fn from_interface(val: &Interface) -> (r: IpConfig)
        requires
            ip_config_defined(val),
        ensures
            ip_config_of(val, &r),
    {
        let method4 = method(val.ipv4.enabled, val.ipv4_static.is_some());
        let method6 = method(val.ipv6.enabled, val.ipv6_static.is_some());
        let mut addresses: Vec<IpInet> = Vec::new();
        let mut gateway4 = None;
        let mut gateway6 = None;
        if let Some(ipv4_static) = &val.ipv4_static {
            push_addresses(&mut addresses, &ipv4_static.addresses);
            gateway4 = routes_gateway(&ipv4_static.routes);
        }
        let ghost a4 = addresses@;
        if let Some(ipv6_static) = &val.ipv6_static {
            push_addresses(&mut addresses, &ipv6_static.addresses);
            gateway6 = routes_gateway(&ipv6_static.routes);
        }
        proof {
            if val.ipv4_static is None {
                assert(parsed_all(ipv4_texts(val.ipv4_static)) =~= Seq::<IpInet>::empty());
            }
            if val.ipv6_static is None {
                assert(parsed_all(ipv6_texts(val.ipv6_static)) =~= Seq::<IpInet>::empty());
                assert(addresses@ =~= a4 + Seq::<IpInet>::empty());
            }
            assert(Seq::<IpInet>::empty() + a4 =~= a4);
            assert(gateway_hops(Seq::<Route>::empty()) is None);
        }
        IpConfig { addresses, method4, method6, gateway4, gateway6 }
    }

    /// Whether the IP settings of `val` can be built.
    pub fn is_defined_for(val: &Interface) -> (r: bool)
        ensures
            r == ip_config_defined(val),
    {
        proof {
            assert(gateway_hops(Seq::<Route>::empty()) is None);
        }
        let (a4, g4) = match &val.ipv4_static {
            Some(s) => (check_addresses(&s.addresses), check_gateway(&s.routes)),
            None => (true, true),
        };
        let (a6, g6) = match &val.ipv6_static {
            Some(s) => (check_addresses(&s.addresses), check_gateway(&s.routes)),
            None => (true, true),
        };
        a4 && a6 && g4 && g6
    }

    /// The IP settings of `val`, or nothing when an address or a gateway
    /// that they need does not read as an address.
    pub fn try_from_interface(val: &Interface) -> (r: Option<IpConfig>)
        ensures
            r is Some <==> ip_config_defined(val),
            r matches Some(c) ==> ip_config_of(val, &c),
    {
        if IpConfig::is_defined_for(val) {
            Some(IpConfig::from_interface(val))
        } else {
            None
        }
    }
}


/// The connection that describes `ifc`: named after the interface, with its
/// IP settings, enslaved to its parent when the kind of the parent is known,
/// and a bond connection with the bond's options when it is a bond.
pub open spec fn connection_of(ifc: &Interface, c: &Connection) -> bool {
    let b = c.spec_base();
    &&& b.id@ == ifc.name@
    &&& b.interface@ == ifc.name@
    &&& ip_config_of(ifc, &b.ip_config)
    &&& match b.parent {
        Some(p) => {
            &&& ifc.link.kind is Some
            &&& ifc.link.parent is Some
            &&& p.interface@ == ifc.link.parent.unwrap()@
            &&& p.kind == ParentKind::Bond
        },
        None => !(ifc.link.kind is Some && ifc.link.parent is Some),
    }
    &&& match c {
        Connection::Bond(bc) => ifc.bond is Some && bc.bond.options@ == bond_options(
            ifc.bond.unwrap(),
        ),
        Connection::Ethernet(_) => ifc.bond is None,
    }
}

impl Connection {
    /// The connection that a wicked interface migrates to.
    pub fn from_interface(ifc: Interface) -> (r: Connection)
        requires
            ip_config_defined(&ifc),
        ensures
            connection_of(&ifc, &r),
    {
        let ip_config = IpConfig::from_interface(&ifc);
        let parent = if ifc.link.kind.is_some() && ifc.link.parent.is_some() {
            let interface = ifc.link.parent.clone().unwrap();
            let kind = match ifc.link.kind {
                Some(crate::interface::ParentKind::Bond) => ParentKind::Bond,
                None => ParentKind::Bond,
            };
            Some(Parent { interface, kind })
        } else {
            None
        };
        let base = BaseConnection {
            id: ifc.name.clone(),
            interface: ifc.name.clone(),
            ip_config,
            parent,
        };
        if let Some(b) = ifc.bond {
            Connection::Bond(BondConnection { base, bond: BondConfig { options: b.options() } })
        } else {
            Connection::Ethernet(EthernetConnection { base })
        }
    }

    /// The connection of a wicked interface, or nothing when an address or a
    /// gateway that its IP settings need does not read as an address.
    pub fn try_from_interface(ifc: Interface) -> (r: Option<Connection>)
        ensures
            r is Some <==> ip_config_defined(&ifc),
            r matches Some(c) ==> connection_of(&ifc, &c),
    {
        if IpConfig::is_defined_for(&ifc) {
            Some(Connection::from_interface(ifc))
        } else {
            None
        }
    }
}

/// A bond slave that completion marked keeps its master as parent: the
/// connection of an interface whose parent is a bond of the interfaces,
/// once completed, is enslaved to that bond.
pub proof fn lemma_bond_slave_has_bond_parent(ifcs: Seq<Interface>, i: int, c: Connection)
    requires
        0 <= i < ifcs.len(),
        has_bond_parent(ifcs, i),
        connection_of(&post_processed(ifcs)[i], &c),
    ensures
        c.spec_base().parent matches Some(p) && p.interface@ == ifcs[i].link.parent.unwrap()@
            && p.kind == ParentKind::Bond,
{
}


/// An IP version is configured manually exactly when it is enabled with
/// static settings, disabled exactly when it is disabled, and automatically
/// exactly when it is enabled without static settings.
pub proof fn lemma_ip_method_cases(enabled: bool, has_static: bool)
    ensures
        ip_method(enabled, has_static) == IpMethod::Manual <==> enabled && has_static,
        ip_method(enabled, has_static) == IpMethod::Disabled <==> !enabled,
        ip_method(enabled, has_static) == IpMethod::Auto <==> enabled && !has_static,
{
}

/// Whether a route is passed over when looking for the gateway: it has no
/// next hops, or several.
pub open spec fn passed_over(r: Route) -> bool {
    match r.nexthops {
        Some(w) => w@.len() > 1,
        None => true,
    }
}

/// Whether the route has the next hops `nh`, at most one.
pub open spec fn has_hops(r: Route, nh: Seq<Nexthop>) -> bool {
    match r.nexthops {
        Some(v) => v@ == nh && nh.len() <= 1,
        None => false,
    }
}

/// The gateway comes from the first route that has next hops, unless it has
/// several: that route has at most one next hop, and every route before it
/// has none or several; without such a route there is no gateway.
pub proof fn lemma_gateway_route(routes: Seq<Route>)
    ensures
        gateway_hops(routes) matches Some(nh) ==> exists|i: int|
            0 <= i < routes.len() && #[trigger] has_hops(routes[i], nh) && forall|j: int|
                0 <= j < i ==> #[trigger] passed_over(routes[j]),
        gateway_hops(routes) is None ==> forall|j: int|
            0 <= j < routes.len() ==> #[trigger] passed_over(routes[j]),
    decreases routes.len(),
{
    if routes.len() > 0 {
        let rest = routes.drop_first();
        lemma_gateway_route(rest);
        if passed_over(routes[0]) {
            if let Some(nh) = gateway_hops(rest) {
                let i = choose|i: int|
                    0 <= i < rest.len() && #[trigger] has_hops(rest[i], nh) && forall|j: int|
                        0 <= j < i ==> #[trigger] passed_over(rest[j]);
                assert(routes[i + 1] == rest[i]);
                assert forall|j: int| 0 <= j < i + 1 implies #[trigger] passed_over(routes[j]) by {
                    if j > 0 {
                        assert(routes[j] == rest[j - 1]);
                    }
                }
                assert(has_hops(routes[i + 1], nh));
            } else {
                assert forall|j: int| 0 <= j < routes.len() implies #[trigger] passed_over(routes[j]) by {
                    if j > 0 {
                        assert(routes[j] == rest[j - 1]);
                    }
                }
            }
        } else {
            assert(has_hops(routes[0], gateway_hops(routes).unwrap()));
        }
    }
}

/// The IP settings of an interface hold its static IPv4 addresses, then its
/// static IPv6 addresses, each as its text reads, in order.
pub proof fn lemma_ip_config_addresses(ifc: &Interface, c: &IpConfig)
    requires
        ip_config_defined(ifc),
        ip_config_of(ifc, c),
    ensures
        c.addresses@.len() == ipv4_texts(ifc.ipv4_static).len() + ipv6_texts(ifc.ipv6_static).len(),
        forall|i: int|
            0 <= i < ipv4_texts(ifc.ipv4_static).len() ==> Some(#[trigger] c.addresses@[i])
                == inet_parse(ipv4_texts(ifc.ipv4_static)[i]),
        forall|i: int|
            0 <= i < ipv6_texts(ifc.ipv6_static).len() ==> Some(
                #[trigger] c.addresses@[ipv4_texts(ifc.ipv4_static).len() + i],
            ) == inet_parse(ipv6_texts(ifc.ipv6_static)[i]),
{
    let t4 = ipv4_texts(ifc.ipv4_static);
    let t6 = ipv6_texts(ifc.ipv6_static);
    assert forall|i: int| 0 <= i < t6.len() implies Some(
        #[trigger] c.addresses@[t4.len() + i],
    ) == inet_parse(t6[i]) by {
        assert(inet_parse(t6[i]) is Some);
        assert(c.addresses@[t4.len() + i] == parsed_all(t6)[i]);
    }
    assert forall|i: int| 0 <= i < t4.len() implies Some(#[trigger] c.addresses@[i]) == inet_parse(t4[i]) by {
        assert(inet_parse(t4[i]) is Some);
        assert(c.addresses@[i] == parsed_all(t4)[i]);
    }
}

} // verus!
