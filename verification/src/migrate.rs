//! Linking migrated connections to their parents and bridge ports.
use crate::dict::{latest_by_key, latest_entries};
use crate::network::BridgePortConfig;
use vstd::prelude::*;

verus! {

/// How a migration treats problems and what it does at the end.
#[derive(Debug, PartialEq, Clone, Copy)]
pub struct MigrationSettings {
    /// Go on past problems, with a warning, instead of failing.
    pub continue_migration: bool,
    /// Only show what would be written.
    pub dry_run: bool,
    /// Activate the connections once written.
    pub activate_connections: bool,
}

#[verifier::external_type_specification]
#[verifier::external_body]
pub struct ExUuid(uuid::Uuid);

/// The port settings of a connection.
#[derive(Debug, PartialEq, Clone, Copy, Default)]
pub enum PortConfig {
    /// Not a port.
    #[default]
    Unset,
    Bridge(BridgePortConfig),
}

/// A connection being migrated.
#[derive(Debug, PartialEq)]
pub struct Connection {
    pub id: String,
    pub interface: Option<String>,
    pub uuid: uuid::Uuid,
    pub controller: Option<uuid::Uuid>,
    pub port_config: PortConfig,
}

/// Why linking connections failed.
#[derive(Debug, PartialEq)]
pub enum MigrateError {
    /// The parent of the connection with this id has no connection.
    MissingParent(String),
    /// No connection has this interface.
    MissingConnection(String),
    /// The bridge port with this interface has no connection.
    MissingBridgePort(String),
    /// Reading the configuration gave this warning.
    ReadWarning(String),
    /// Converting the interface of the connection with this id gave warnings.
    MigrationFailed(String),
}

pub enum MigrateErrorView {
    MissingParent(Seq<char>),
    MissingConnection(Seq<char>),
    MissingBridgePort(Seq<char>),
    ReadWarning(Seq<char>),
    MigrationFailed(Seq<char>),
}

impl View for MigrateError {
    type V = MigrateErrorView;

    open spec fn view(&self) -> MigrateErrorView {
        match self {
            MigrateError::MissingParent(s) => MigrateErrorView::MissingParent(s@),
            MigrateError::MissingConnection(s) => MigrateErrorView::MissingConnection(s@),
            MigrateError::MissingBridgePort(s) => MigrateErrorView::MissingBridgePort(s@),
            MigrateError::ReadWarning(s) => MigrateErrorView::ReadWarning(s@),
            MigrateError::MigrationFailed(s) => MigrateErrorView::MigrationFailed(s@),
        }
    }
}

/// The message that reports a failed migration.
pub open spec fn migrate_error_message(e: MigrateErrorView) -> Seq<char> {
    match e {
        MigrateErrorView::MissingParent(id) => "Migration of "@ + id + " failed"@,
        MigrateErrorView::MissingConnection(id) => "Unexpected failure - missing connection "@ + id,
        MigrateErrorView::MissingBridgePort(ifc) => "Migration failed, because bridge is missing port "@
            + ifc,
        MigrateErrorView::ReadWarning(w) => w,
        MigrateErrorView::MigrationFailed(id) => "Migration of "@ + id + " failed"@,
    }
}

impl MigrateError {
    /// The message that reports the error.
    pub fn message(&self) -> (r: String)
        ensures
            r@ == migrate_error_message(self@),
    {
        match self {
            MigrateError::MissingParent(id) => String::from_str("Migration of ").concat(
                id.as_str(),
            ).concat(" failed"),
            MigrateError::MissingConnection(id) => String::from_str(
                "Unexpected failure - missing connection ",
            ).concat(id.as_str()),
            MigrateError::MissingBridgePort(ifc) => String::from_str(
                "Migration failed, because bridge is missing port ",
            ).concat(ifc.as_str()),
            MigrateError::ReadWarning(w) => w.clone(),
            MigrateError::MigrationFailed(id) => String::from_str("Migration of ").concat(
                id.as_str(),
            ).concat(" failed"),
        }
    }
}

/// The first connection from position `i` on whose interface is `name`.
pub open spec fn find_interface_from(conns: Seq<Connection>, name: Seq<char>, i: int) -> Option<
    int,
>
    decreases conns.len() - i,
{
    if i < 0 || i >= conns.len() {
        None
    } else if conns[i].interface matches Some(s) && s@ == name {
        Some(i)
    } else {
        find_interface_from(conns, name, i + 1)
    }
}

/// The first connection whose interface is `name`.
pub open spec fn find_interface(conns: Seq<Connection>, name: Seq<char>) -> Option<int> {
    find_interface_from(conns, name, 0)
}

/// The first connection from position `i` on whose id is `id`.
pub open spec fn find_id_from(conns: Seq<Connection>, id: Seq<char>, i: int) -> Option<int>
    decreases conns.len() - i,
{
    if i < 0 || i >= conns.len() {
        None
    } else if conns[i].id@ == id {
        Some(i)
    } else {
        find_id_from(conns, id, i + 1)
    }
}

/// The first connection whose id is `id`.
pub open spec fn find_id(conns: Seq<Connection>, id: Seq<char>) -> Option<int> {
    find_id_from(conns, id, 0)
}

proof fn lemma_find_interface_bounds(conns: Seq<Connection>, name: Seq<char>, i: int)
    requires
        0 <= i,
    ensures
        find_interface_from(conns, name, i) matches Some(k) ==> (i <= k && k < conns.len()),
    decreases conns.len() - i,
{
    if i < conns.len() {
        lemma_find_interface_bounds(conns, name, i + 1);
    }
}

proof fn lemma_find_id_found(conns: Seq<Connection>, id: Seq<char>, i: int, j: int)
    requires
        0 <= i <= j < conns.len(),
        conns[j].id@ == id,
    ensures
        find_id_from(conns, id, i) matches Some(k) && i <= k <= j && conns[k].id@ == id,
    decreases j - i,
{
    if conns[i].id@ != id {
        lemma_find_id_found(conns, id, i + 1, j);
    }
}

fn find_interface_exec(conns: &[Connection], name: &String) -> (r: Option<usize>)
    ensures
        match r {
            Some(k) => find_interface(conns@, name@) == Some(k as int) && k < conns@.len(),
            None => find_interface(conns@, name@) is None,
        },
{
    let mut i: usize = 0;
    while i < conns.len()
        invariant
            0 <= i <= conns@.len(),
            find_interface(conns@, name@) == find_interface_from(conns@, name@, i as int),
        decreases conns@.len() - i,
    {
        let found = match &conns[i].interface {
            Some(s) => *s == *name,
            None => false,
        };
        if found {
            return Some(i);
        }
        i = i + 1;
    }
    None
}

fn find_id_exec(conns: &[Connection], id: &String) -> (r: Option<usize>)
    ensures
        match r {
            Some(k) => find_id(conns@, id@) == Some(k as int) && k < conns@.len(),
            None => find_id(conns@, id@) is None,
        },
{
    let mut i: usize = 0;
    while i < conns.len()
        invariant
            0 <= i <= conns@.len(),
            find_id(conns@, id@) == find_id_from(conns@, id@, i as int),
        decreases conns@.len() - i,
    {
        if conns[i].id == *id {
            return Some(i);
        }
        i = i + 1;
    }
    None
}

// ---------------------------------------------------------------------------
// Parents.

/// The links that the parents give: for each connection id whose parent
/// interface has a connection, the id and the uuid of that connection, in
/// the order of `parents`.
pub open spec fn parent_links(conns: Seq<Connection>, parents: Seq<(String, String)>) -> Seq<
    (Seq<char>, uuid::Uuid),
>
    decreases parents.len(),
{
    if parents.len() == 0 {
        Seq::empty()
    } else {
        let rest = parent_links(conns, parents.drop_last());
        match find_interface(conns, parents.last().1@) {
            Some(j) => rest.push((parents.last().0@, conns[j].uuid)),
            None => rest,
        }
    }
}

/// The first parent (by position in `parents`) that has no connection.
pub open spec fn first_missing_parent(conns: Seq<Connection>, parents: Seq<(String, String)>) -> Option<int>
    decreases parents.len(),
{
    if parents.len() == 0 {
        None
    } else {
        match first_missing_parent(conns, parents.drop_last()) {
            Some(k) => Some(k),
            None => if find_interface(conns, parents.last().1@) is None {
                Some(parents.len() - 1)
            } else {
                None
            },
        }
    }
}

/// `c` controlled by `u`.
pub open spec fn with_controller(c: Connection, u: uuid::Uuid) -> Connection {
    Connection { controller: Some(u), ..c }
}

/// Sets the controller of the connection of each link's interface, in
/// order; stops at the first link whose interface has no connection.
pub open spec fn apply_links(conns: Seq<Connection>, links: Seq<(Seq<char>, uuid::Uuid)>) -> (
    Seq<Connection>,
    Option<Seq<char>>,
)
    decreases links.len(),
{
    if links.len() == 0 {
        (conns, None)
    } else {
        match find_interface(conns, links[0].0) {
            Some(j) => apply_links(
                conns.update(j, with_controller(conns[j], links[0].1)),
                links.drop_first(),
            ),
            None => (conns, Some(links[0].0)),
        }
    }
}

fn set_controller(conns: &mut [Connection], j: usize, u: uuid::Uuid)
    requires
        j < old(conns)@.len(),
    ensures
        final(conns)@ == old(conns)@.update(j as int, with_controller(old(conns)@[j as int], u)),
{
    conns[j].controller = Some(u);
}

/// Links each connection to the connection of its parent. `parents` pairs
/// a connection id with the interface of its parent, each id once, as the
/// entries of a map. A parent without a
/// connection is an error unless the migration goes on past problems, and
/// then nothing is changed; else, in order, the connection whose interface
/// is the id gets the uuid of its parent's connection as controller, and a
/// missing one is an error.
pub fn update_parent_connection(
    connections: &mut [Connection],
    parents: &Vec<(String, String)>,
    settings: &MigrationSettings,
) -> (r: Result<(), MigrateError>)
    ensures
        ({
            let missing = first_missing_parent(old(connections)@, parents@);
            if missing is Some && !settings.continue_migration {
                &&& final(connections)@ == old(connections)@
                &&& r matches Err(e) && e@ == MigrateErrorView::MissingParent(
                    parents@[missing.unwrap()].0@,
                )
            } else {
                let (after, failed) = apply_links(
                    old(connections)@,
                    parent_links(old(connections)@, parents@),
                );
                &&& final(connections)@ == after
                &&& match failed {
                    None => r is Ok,
                    Some(id) => r matches Err(e) && e@ == MigrateErrorView::MissingConnection(id),
                }
            }
        }),
{
    let ghost orig = connections@;
    assert(parents@.take(0) =~= Seq::<(String, String)>::empty());
    let mut links: Vec<(String, uuid::Uuid)> = Vec::new();
    let mut i: usize = 0;
    while i < parents.len()
        invariant
            0 <= i <= parents@.len(),
            connections@ == orig,
            orig == old(connections)@,
            links@.map_values(|l: (String, uuid::Uuid)| (l.0@, l.1)) == parent_links(
                orig,
                parents@.take(i as int),
            ),
            !settings.continue_migration ==> first_missing_parent(orig, parents@.take(i as int))
                is None,
        decreases parents@.len() - i,
    {
        let ghost taken = parents@.take(i + 1);
        assert(taken.drop_last() =~= parents@.take(i as int));
        let (id, parent) = (&parents[i].0, &parents[i].1);
        match find_interface_exec(connections, parent) {
            Some(j) => {
                let ghost before = links@;
                links.push((id.clone(), connections[j].uuid));
                assert(links@.map_values(|l: (String, uuid::Uuid)| (l.0@, l.1)) =~= before.map_values(
                    |l: (String, uuid::Uuid)| (l.0@, l.1),
                ).push((id@, orig[j as int].uuid)));
            },
            None => {
                if !settings.continue_migration {
                    proof {
                        lemma_missing_prefix(orig, parents@, i as int);
                    }
                    return Err(MigrateError::MissingParent(id.clone()));
                }
            },
        }
        i = i + 1;
    }
    assert(parents@.take(parents@.len() as int) =~= parents@);
    proof {
        if !settings.continue_migration {
            assert(first_missing_parent(orig, parents@) is None);
        }
    }
    let ghost all_links = links@.map_values(|l: (String, uuid::Uuid)| (l.0@, l.1));
    assert(all_links.skip(0) =~= all_links);
    let mut k: usize = 0;
    while k < links.len()
        invariant
            0 <= k <= links@.len(),
            orig == old(connections)@,
            all_links == parent_links(orig, parents@),
            !settings.continue_migration ==> first_missing_parent(orig, parents@) is None,
            all_links == links@.map_values(|l: (String, uuid::Uuid)| (l.0@, l.1)),
            apply_links(orig, all_links) == apply_links(connections@, all_links.skip(k as int)),
        decreases links@.len() - k,
    {
        let ghost rest = all_links.skip(k as int);
        assert(rest[0] == (links@[k as int].0@, links@[k as int].1));
        assert(rest.drop_first() =~= all_links.skip(k + 1));
        match find_interface_exec(connections, &links[k].0) {
            Some(j) => {
                set_controller(connections, j, links[k].1);
            },
            None => {
                return Err(MigrateError::MissingConnection(links[k].0.clone()));
            },
        }
        k = k + 1;
    }
    Ok(())
}

proof fn lemma_missing_prefix(conns: Seq<Connection>, parents: Seq<(String, String)>, i: int)
    requires
        0 <= i < parents.len(),
        first_missing_parent(conns, parents.take(i)) is None,
        find_interface(conns, parents[i].1@) is None,
    ensures
        first_missing_parent(conns, parents) == Some(i),
{
    assert(parents.take(i + 1).drop_last() =~= parents.take(i));
    lemma_missing_prefix_extends(conns, parents, i + 1, i);
}

proof fn lemma_missing_prefix_extends(
    conns: Seq<Connection>,
    parents: Seq<(String, String)>,
    n: int,
    i: int,
)
    requires
        0 <= i < n <= parents.len(),
        first_missing_parent(conns, parents.take(n)) == Some(i),
    ensures
        first_missing_parent(conns, parents) == Some(i),
    decreases parents.len() - n,
{
    if n < parents.len() {
        assert(parents.take(n + 1).drop_last() =~= parents.take(n));
        lemma_missing_prefix_extends(conns, parents, n + 1, i);
    } else {
        assert(parents.take(n) =~= parents);
    }
}

// ---------------------------------------------------------------------------
// Bridge ports.

/// `c` as a port of a bridge with the settings `cfg`.
pub open spec fn with_port(c: Connection, cfg: BridgePortConfig) -> Connection {
    Connection { port_config: PortConfig::Bridge(cfg), ..c }
}

/// Gives, in order, each port interface's connection its bridge port
/// settings: the first connection with the id of the first connection of
/// that interface gets them. A port without a connection is passed over when
/// the migration goes on past problems, and stops it otherwise.
pub open spec fn apply_ports(
    conns: Seq<Connection>,
    ports: Seq<(String, BridgePortConfig)>,
    continue_migration: bool,
) -> (Seq<Connection>, Option<Seq<char>>)
    decreases ports.len(),
{
    if ports.len() == 0 {
        (conns, None)
    } else {
        match find_interface(conns, ports[0].0@) {
            Some(i) => {
                let j = find_id(conns, conns[i].id@).unwrap();
                apply_ports(
                    conns.update(j, with_port(conns[j], ports[0].1)),
                    ports.drop_first(),
                    continue_migration,
                )
            },
            None => if continue_migration {
                apply_ports(conns, ports.drop_first(), continue_migration)
            } else {
                (conns, Some(ports[0].0@))
            },
        }
    }
}

fn set_port(conns: &mut [Connection], j: usize, cfg: BridgePortConfig)
    requires
        j < old(conns)@.len(),
    ensures
        final(conns)@ == old(conns)@.update(j as int, with_port(old(conns)@[j as int], cfg)),
{
    conns[j].port_config = PortConfig::Bridge(cfg);
}

/// Gives the connections of bridge ports their port settings. `portconfigs`
/// pairs the interface of a port with its settings, each interface once, as
/// the entries of a map; see `apply_ports`. A
/// port without a connection is an error unless the migration goes on past
/// problems.
pub fn update_bridge_ports(
    connections: &mut [Connection],
    portconfigs: &Vec<(String, BridgePortConfig)>,
    settings: &MigrationSettings,
) -> (r: Result<(), MigrateError>)
    ensures
        ({
            let (after, failed) = apply_ports(
                old(connections)@,
                portconfigs@,
                settings.continue_migration,
            );
            &&& final(connections)@ == after
            &&& match failed {
                None => r is Ok,
                Some(ifc) => r matches Err(e) && e@ == MigrateErrorView::MissingBridgePort(ifc),
            }
        }),
{
    let ghost all = portconfigs@;
    assert(all.skip(0) =~= all);
    let mut k: usize = 0;
    while k < portconfigs.len()
        invariant
            0 <= k <= portconfigs@.len(),
            all == portconfigs@,
            apply_ports(old(connections)@, all, settings.continue_migration) == apply_ports(
                connections@,
                all.skip(k as int),
                settings.continue_migration,
            ),
        decreases portconfigs@.len() - k,
    {
        let ghost rest = all.skip(k as int);
        assert(rest[0] == portconfigs@[k as int]);
        assert(rest.drop_first() =~= all.skip(k + 1));
        let ifc = &portconfigs[k].0;
        match find_interface_exec(connections, ifc) {
            Some(i) => {
                let id = connections[i].id.clone();
                proof {
                    lemma_find_id_found(connections@, id@, 0, i as int);
                }
                let j = find_id_exec(connections, &id).unwrap();
                set_port(connections, j, portconfigs[k].1);
            },
            None => {
                if !settings.continue_migration {
                    return Err(MigrateError::MissingBridgePort(ifc.clone()));
                }
            },
        }
        k = k + 1;
    }
    Ok(())
}

// ---------------------------------------------------------------------------
// What linking keeps.

/// `a` and `b` agree on all but the controller.
pub open spec fn same_but_controller(a: Connection, b: Connection) -> bool {
    &&& a.id == b.id
    &&& a.interface == b.interface
    &&& a.uuid == b.uuid
    &&& a.port_config == b.port_config
}

/// `a` and `b` agree on all but the port settings.
pub open spec fn same_but_port(a: Connection, b: Connection) -> bool {
    &&& a.id == b.id
    &&& a.interface == b.interface
    &&& a.uuid == b.uuid
    &&& a.controller == b.controller
}

/// Linking connections to their parents keeps the number of connections
/// and changes nothing of them but controllers.
pub proof fn lemma_parent_links_change_only_controllers(
    conns: Seq<Connection>,
    links: Seq<(Seq<char>, uuid::Uuid)>,
)
    ensures
        apply_links(conns, links).0.len() == conns.len(),
        forall|i: int|
            0 <= i < conns.len() ==> same_but_controller(
                #[trigger] apply_links(conns, links).0[i],
                conns[i],
            ),
    decreases links.len(),
{
    if links.len() > 0 {
        match find_interface(conns, links[0].0) {
            Some(j) => {
                lemma_find_interface_bounds(conns, links[0].0, 0);
                let next = conns.update(j, with_controller(conns[j], links[0].1));
                lemma_parent_links_change_only_controllers(next, links.drop_first());
                assert forall|i: int| 0 <= i < conns.len() implies same_but_controller(
                    #[trigger] apply_links(conns, links).0[i],
                    conns[i],
                ) by {
                    assert(same_but_controller(apply_links(next, links.drop_first()).0[i], next[i]));
                }
            },
            None => {},
        }
    }
}

/// Configuring bridge ports keeps the number of connections and changes
/// nothing of them but port settings.
pub proof fn lemma_bridge_ports_change_only_ports(
    conns: Seq<Connection>,
    ports: Seq<(String, BridgePortConfig)>,
    continue_migration: bool,
)
    ensures
        apply_ports(conns, ports, continue_migration).0.len() == conns.len(),
        forall|i: int|
            0 <= i < conns.len() ==> same_but_port(
                #[trigger] apply_ports(conns, ports, continue_migration).0[i],
                conns[i],
            ),
    decreases ports.len(),
{
    if ports.len() > 0 {
        match find_interface(conns, ports[0].0@) {
            Some(k) => {
                lemma_find_interface_bounds(conns, ports[0].0@, 0);
                lemma_find_id_found(conns, conns[k].id@, 0, k);
                let j = find_id(conns, conns[k].id@).unwrap();
                let next = conns.update(j, with_port(conns[j], ports[0].1));
                lemma_bridge_ports_change_only_ports(next, ports.drop_first(), continue_migration);
                assert forall|i: int| 0 <= i < conns.len() implies same_but_port(
                    #[trigger] apply_ports(conns, ports, continue_migration).0[i],
                    conns[i],
                ) by {
                    assert(same_but_port(
                        apply_ports(next, ports.drop_first(), continue_migration).0[i],
                        next[i],
                    ));
                }
            },
            None => {
                if continue_migration {
                    lemma_bridge_ports_change_only_ports(conns, ports.drop_first(), continue_migration);
                }
            },
        }
    }
}

/// Two lists of connections with the same interfaces, in order.
pub open spec fn same_interfaces(a: Seq<Connection>, b: Seq<Connection>) -> bool {
    a.len() == b.len() && forall|i: int| 0 <= i < a.len() ==> #[trigger] a[i].interface == b[i].interface
}

proof fn lemma_find_interface_same(a: Seq<Connection>, b: Seq<Connection>, name: Seq<char>, i: int)
    requires
        same_interfaces(a, b),
    ensures
        find_interface_from(a, name, i) == find_interface_from(b, name, i),
    decreases a.len() - i,
{
    if 0 <= i < a.len() {
        assert(a[i].interface == b[i].interface);
        lemma_find_interface_same(a, b, name, i + 1);
    }
}

proof fn lemma_find_interface_names(conns: Seq<Connection>, name: Seq<char>, i: int)
    requires
        0 <= i,
    ensures
        find_interface_from(conns, name, i) matches Some(k) ==> (conns[k].interface matches Some(
            s,
        ) && s@ == name),
    decreases conns.len() - i,
{
    if i < conns.len() {
        lemma_find_interface_names(conns, name, i + 1);
    }
}

/// Linking changes nothing of a connection that no link's interface finds.
proof fn lemma_apply_links_untouched(conns: Seq<Connection>, links: Seq<(Seq<char>, uuid::Uuid)>, m: int)
    requires
        forall|i: int| 0 <= i < links.len() ==> find_interface(conns, #[trigger] links[i].0) != Some(m),
    ensures
        apply_links(conns, links).0.len() == conns.len(),
        0 <= m < conns.len() ==> apply_links(conns, links).0[m] == conns[m],
    decreases links.len(),
{
    lemma_parent_links_change_only_controllers(conns, links);
    if links.len() > 0 {
        match find_interface(conns, links[0].0) {
            Some(j) => {
                lemma_find_interface_bounds(conns, links[0].0, 0);
                let next = conns.update(j, with_controller(conns[j], links[0].1));
                assert(same_interfaces(conns, next));
                assert forall|i: int| 0 <= i < links.drop_first().len() implies find_interface(
                    next,
                    #[trigger] links.drop_first()[i].0,
                ) != Some(m) by {
                    lemma_find_interface_same(conns, next, links.drop_first()[i].0, 0);
                    assert(links.drop_first()[i] == links[i + 1]);
                }
                lemma_apply_links_untouched(next, links.drop_first(), m);
            },
            None => {},
        }
    }
}

/// Linking, when no link fails and no interface has two links, gives the
/// connection of each link's interface that link's uuid as controller.
pub proof fn lemma_apply_links_sets_controllers(
    conns: Seq<Connection>,
    links: Seq<(Seq<char>, uuid::Uuid)>,
)
    requires
        forall|i: int, j: int| 0 <= i < j < links.len() ==> #[trigger] links[i].0 != #[trigger] links[j].0,
        apply_links(conns, links).1 is None,
    ensures
        forall|i: int|
            0 <= i < links.len() ==> (find_interface(conns, #[trigger] links[i].0) matches Some(k)
                && apply_links(conns, links).0[k].controller == Some(links[i].1)),
    decreases links.len(),
{
    if links.len() > 0 {
        let j = find_interface(conns, links[0].0).unwrap();
        lemma_find_interface_bounds(conns, links[0].0, 0);
        lemma_find_interface_names(conns, links[0].0, 0);
        let next = conns.update(j, with_controller(conns[j], links[0].1));
        let rest = links.drop_first();
        assert(same_interfaces(conns, next));
        assert forall|i: int, k: int| 0 <= i < k < rest.len() implies #[trigger] rest[i].0
            != #[trigger] rest[k].0 by {
            assert(rest[i] == links[i + 1] && rest[k] == links[k + 1]);
        }
        lemma_apply_links_sets_controllers(next, rest);
        assert forall|i: int| 0 <= i < rest.len() implies find_interface(next, #[trigger] rest[i].0)
            != Some(j) by {
            assert(rest[i] == links[i + 1]);
            lemma_find_interface_same(conns, next, rest[i].0, 0);
            lemma_find_interface_names(conns, rest[i].0, 0);
        }
        lemma_apply_links_untouched(next, rest, j);
        assert forall|i: int| 0 <= i < links.len() implies (find_interface(
            conns,
            #[trigger] links[i].0,
        ) matches Some(k) && apply_links(conns, links).0[k].controller == Some(links[i].1)) by {
            if i > 0 {
                assert(links[i] == rest[i - 1]);
                lemma_find_interface_same(conns, next, rest[i - 1].0, 0);
            }
        }
    }
}

proof fn lemma_parent_links_props(conns: Seq<Connection>, parents: Seq<(String, String)>)
    ensures
        forall|i: int|
            0 <= i < parents.len() && find_interface(conns, #[trigger] parents[i].1@) is Some
                ==> parent_links(conns, parents).contains(
                (parents[i].0@, conns[find_interface(conns, parents[i].1@).unwrap()].uuid),
            ),
        forall|m: int|
            0 <= m < parent_links(conns, parents).len() ==> exists|i: int|
                0 <= i < parents.len() && #[trigger] parent_links(conns, parents)[m].0
                    == parents[i].0@,
        (forall|i: int, j: int|
            0 <= i < j < parents.len() ==> #[trigger] parents[i].0@ != #[trigger] parents[j].0@)
            ==> forall|a: int, b: int|
            0 <= a < b < parent_links(conns, parents).len() ==> #[trigger] parent_links(
                conns,
                parents,
            )[a].0 != #[trigger] parent_links(conns, parents)[b].0,
    decreases parents.len(),
{
    if parents.len() > 0 {
        let p = parents.drop_last();
        lemma_parent_links_props(conns, p);
        let rest = parent_links(conns, p);
        let links = parent_links(conns, parents);
        let x = parents.last();
        assert forall|i: int|
            0 <= i < parents.len() && find_interface(conns, #[trigger] parents[i].1@) is Some
                implies links.contains(
                (parents[i].0@, conns[find_interface(conns, parents[i].1@).unwrap()].uuid),
            ) by {
            let e = (parents[i].0@, conns[find_interface(conns, parents[i].1@).unwrap()].uuid);
            if i < p.len() {
                assert(p[i] == parents[i]);
                let m = choose|m: int| 0 <= m < rest.len() && rest[m] == e;
                assert(links[m] == rest[m]);
            } else {
                assert(links[links.len() - 1] == e);
            }
        }
        assert forall|m: int| 0 <= m < links.len() implies exists|i: int|
            0 <= i < parents.len() && #[trigger] links[m].0 == parents[i].0@ by {
            if m < rest.len() {
                assert(links[m] == rest[m]);
                let i = choose|i: int| 0 <= i < p.len() && #[trigger] rest[m].0 == p[i].0@;
                assert(p[i] == parents[i]);
            } else {
                assert(links[m].0 == parents[parents.len() - 1].0@);
            }
        }
        if forall|i: int, j: int|
            0 <= i < j < parents.len() ==> #[trigger] parents[i].0@ != #[trigger] parents[j].0@ {
            assert forall|i: int, j: int| 0 <= i < j < p.len() implies #[trigger] p[i].0@
                != #[trigger] p[j].0@ by {
                assert(p[i] == parents[i] && p[j] == parents[j]);
            }
            assert forall|a: int, b: int| 0 <= a < b < links.len() implies #[trigger] links[a].0
                != #[trigger] links[b].0 by {
                if b < rest.len() {
                    assert(links[a] == rest[a] && links[b] == rest[b]);
                } else {
                    assert(links[a] == rest[a]);
                    let i = choose|i: int| 0 <= i < p.len() && #[trigger] rest[a].0 == p[i].0@;
                    assert(p[i] == parents[i]);
                    assert(links[b].0 == parents[parents.len() - 1].0@);
                }
            }
        }
    }
}

/// Linking connections to their parents, when each connection id is given
/// one parent (as a map holds them) and nothing fails: the connection whose
/// interface is an id gets, as controller, the uuid of the connection of
/// that id's parent interface.
pub proof fn lemma_parents_become_controllers(
    conns: Seq<Connection>,
    parents: Seq<(String, String)>,
)
    requires
        forall|i: int, j: int|
            0 <= i < j < parents.len() ==> #[trigger] parents[i].0@ != #[trigger] parents[j].0@,
        apply_links(conns, parent_links(conns, parents)).1 is None,
    ensures
        forall|i: int|
            0 <= i < parents.len() ==> (find_interface(conns, #[trigger] parents[i].1@) matches Some(
                j,
            ) ==> (find_interface(conns, parents[i].0@) matches Some(k) && apply_links(
                conns,
                parent_links(conns, parents),
            ).0[k].controller == Some(conns[j].uuid))),
{
    let links = parent_links(conns, parents);
    lemma_parent_links_props(conns, parents);
    lemma_apply_links_sets_controllers(conns, links);
    assert forall|i: int| 0 <= i < parents.len() implies (find_interface(
        conns,
        #[trigger] parents[i].1@,
    ) matches Some(j) ==> (find_interface(conns, parents[i].0@) matches Some(k) && apply_links(
        conns,
        links,
    ).0[k].controller == Some(conns[j].uuid))) by {
        if let Some(j) = find_interface(conns, parents[i].1@) {
            let m = choose|m: int| 0 <= m < links.len() && links[m] == (parents[i].0@, conns[j].uuid);
            assert(links[m].0 == parents[i].0@);
        }
    }
}

/// No two connections share an id.
pub open spec fn distinct_ids(conns: Seq<Connection>) -> bool {
    forall|i: int, j: int| 0 <= i < j < conns.len() ==> #[trigger] conns[i].id@ != #[trigger] conns[j].id@
}

proof fn lemma_find_id_own(conns: Seq<Connection>, k: int, i: int)
    requires
        distinct_ids(conns),
        0 <= i <= k < conns.len(),
    ensures
        find_id_from(conns, conns[k].id@, i) == Some(k),
    decreases k - i,
{
    if i < k {
        assert(conns[i].id@ != conns[k].id@);
        lemma_find_id_own(conns, k, i + 1);
    }
}

/// Giving ports their settings changes nothing of a connection that no
/// port's interface finds, when no two connections share an id.
proof fn lemma_apply_ports_untouched(
    conns: Seq<Connection>,
    ports: Seq<(String, BridgePortConfig)>,
    cont: bool,
    m: int,
)
    requires
        distinct_ids(conns),
        forall|i: int| 0 <= i < ports.len() ==> find_interface(conns, (#[trigger] ports[i]).0@) != Some(m),
    ensures
        0 <= m < conns.len() ==> apply_ports(conns, ports, cont).0[m] == conns[m],
    decreases ports.len(),
{
    lemma_bridge_ports_change_only_ports(conns, ports, cont);
    if ports.len() > 0 {
        let rest = ports.drop_first();
        match find_interface(conns, ports[0].0@) {
            Some(k) => {
                lemma_find_interface_bounds(conns, ports[0].0@, 0);
                lemma_find_id_own(conns, k, 0);
                let next = conns.update(k, with_port(conns[k], ports[0].1));
                assert(same_interfaces(conns, next));
                assert(distinct_ids(next)) by {
                    assert forall|i: int, j: int| 0 <= i < j < next.len() implies #[trigger] next[i].id@
                        != #[trigger] next[j].id@ by {
                        assert(next[i].id == conns[i].id && next[j].id == conns[j].id);
                    }
                }
                assert forall|i: int| 0 <= i < rest.len() implies find_interface(
                    next,
                    (#[trigger] rest[i]).0@,
                ) != Some(m) by {
                    assert(rest[i] == ports[i + 1]);
                    lemma_find_interface_same(conns, next, rest[i].0@, 0);
                }
                lemma_apply_ports_untouched(next, rest, cont, m);
            },
            None => {
                if cont {
                    assert forall|i: int| 0 <= i < rest.len() implies find_interface(
                        conns,
                        (#[trigger] rest[i]).0@,
                    ) != Some(m) by {
                        assert(rest[i] == ports[i + 1]);
                    }
                    lemma_apply_ports_untouched(conns, rest, cont, m);
                }
            },
        }
    }
}

/// Configuring bridge ports, when no two connections share an id, each
/// port interface is given once (as a map holds them) and nothing fails:
/// the connection of each port's interface gets that port's settings.
pub proof fn lemma_ports_get_their_settings(
    conns: Seq<Connection>,
    ports: Seq<(String, BridgePortConfig)>,
    cont: bool,
)
    requires
        distinct_ids(conns),
        forall|i: int, j: int| 0 <= i < j < ports.len() ==> #[trigger] ports[i].0@ != #[trigger] ports[j].0@,
        apply_ports(conns, ports, cont).1 is None,
    ensures
        forall|i: int|
            0 <= i < ports.len() ==> (find_interface(conns, (#[trigger] ports[i]).0@) matches Some(k)
                ==> apply_ports(conns, ports, cont).0[k].port_config == PortConfig::Bridge(ports[i].1)),
    decreases ports.len(),
{
    if ports.len() > 0 {
        let rest = ports.drop_first();
        assert forall|i: int, j: int| 0 <= i < j < rest.len() implies #[trigger] rest[i].0@
            != #[trigger] rest[j].0@ by {
            assert(rest[i] == ports[i + 1] && rest[j] == ports[j + 1]);
        }
        match find_interface(conns, ports[0].0@) {
            Some(k) => {
                lemma_find_interface_bounds(conns, ports[0].0@, 0);
                lemma_find_interface_names(conns, ports[0].0@, 0);
                lemma_find_id_own(conns, k, 0);
                let next = conns.update(k, with_port(conns[k], ports[0].1));
                assert(same_interfaces(conns, next));
                assert(distinct_ids(next)) by {
                    assert forall|i: int, j: int| 0 <= i < j < next.len() implies #[trigger] next[i].id@
                        != #[trigger] next[j].id@ by {
                        assert(next[i].id == conns[i].id && next[j].id == conns[j].id);
                    }
                }
                lemma_ports_get_their_settings(next, rest, cont);
                assert forall|i: int| 0 <= i < rest.len() implies find_interface(
                    next,
                    (#[trigger] rest[i]).0@,
                ) != Some(k) by {
                    assert(rest[i] == ports[i + 1]);
                    lemma_find_interface_same(conns, next, rest[i].0@, 0);
                    lemma_find_interface_names(conns, rest[i].0@, 0);
                }
                lemma_apply_ports_untouched(next, rest, cont, k);
                assert forall|i: int| 0 <= i < ports.len() implies (find_interface(
                    conns,
                    (#[trigger] ports[i]).0@,
                ) matches Some(k2) ==> apply_ports(conns, ports, cont).0[k2].port_config
                    == PortConfig::Bridge(ports[i].1)) by {
                    if i > 0 {
                        assert(ports[i] == rest[i - 1]);
                        lemma_find_interface_same(conns, next, rest[i - 1].0@, 0);
                    }
                }
            },
            None => {
                lemma_ports_get_their_settings(conns, rest, cont);
                assert forall|i: int| 0 <= i < ports.len() implies (find_interface(
                    conns,
                    (#[trigger] ports[i]).0@,
                ) matches Some(k2) ==> apply_ports(conns, ports, cont).0[k2].port_config
                    == PortConfig::Bridge(ports[i].1)) by {
                    if i > 0 {
                        assert(ports[i] == rest[i - 1]);
                    }
                }
            },
        }
    }
}

// ---------------------------------------------------------------------------
// Gathering the connections of all interfaces.

/// What the migration takes from one wicked interface.
pub struct InterfaceMigration {
    /// The connections that the interface converts to.
    pub connections: Vec<Connection>,
    /// The problems met while converting it.
    pub warnings: Vec<String>,
    /// The interface it is enslaved to.
    pub master: Option<String>,
    /// The ports of the bridge it is, by port interface.
    pub bridge_ports: Vec<(String, BridgePortConfig)>,
}

/// The connections of the interfaces, in order.
pub open spec fn gathered(ifcs: Seq<InterfaceMigration>) -> Seq<Connection>
    decreases ifcs.len(),
{
    if ifcs.len() == 0 {
        Seq::empty()
    } else {
        gathered(ifcs.drop_last()) + ifcs.last().connections@
    }
}

/// Each connection's id paired with the master, when there is one.
pub open spec fn parents_of(conns: Seq<Connection>, master: Option<String>) -> Seq<(String, String)> {
    match master {
        Some(m) => conns.map_values(|c: Connection| (c.id, m)),
        None => Seq::empty(),
    }
}

/// The parents that the interfaces give their connections, in order, as
/// given: a connection id may occur more than once.
pub open spec fn gathered_parents(ifcs: Seq<InterfaceMigration>) -> Seq<(String, String)>
    decreases ifcs.len(),
{
    if ifcs.len() == 0 {
        Seq::empty()
    } else {
        gathered_parents(ifcs.drop_last()) + parents_of(ifcs.last().connections@, ifcs.last().master)
    }
}

/// The ports `n` times over.
pub open spec fn repeated(n: nat, ports: Seq<(String, BridgePortConfig)>) -> Seq<
    (String, BridgePortConfig),
>
    decreases n,
{
    if n == 0 {
        Seq::empty()
    } else {
        repeated((n - 1) as nat, ports) + ports
    }
}

/// The bridge ports of the interfaces, once for each of their connections,
/// as given: a port interface may occur more than once.
pub open spec fn gathered_ports(ifcs: Seq<InterfaceMigration>) -> Seq<(String, BridgePortConfig)>
    decreases ifcs.len(),
{
    if ifcs.len() == 0 {
        Seq::empty()
    } else {
        gathered_ports(ifcs.drop_last()) + repeated(
            ifcs.last().connections@.len(),
            ifcs.last().bridge_ports@,
        )
    }
}

/// The first interface whose conversion gave warnings.
pub open spec fn first_warned(ifcs: Seq<InterfaceMigration>) -> Option<int>
    decreases ifcs.len(),
{
    if ifcs.len() == 0 {
        None
    } else {
        match first_warned(ifcs.drop_last()) {
            Some(k) => Some(k),
            None => if ifcs.last().warnings@.len() > 0 {
                Some(ifcs.len() - 1)
            } else {
                None
            },
        }
    }
}

/// The outcome of gathering and linking the connections of the interfaces:
/// a warning while reading, or warnings while converting an interface, stop
/// the migration unless it goes on past problems; then the connections are
/// linked to their parents and bridge ports. Parents are kept by connection
/// id and bridge ports by port interface, as in a map: the last one given
/// for an id or an interface is the one used.
pub open spec fn migration_outcome(
    read_warning: Option<Seq<char>>,
    ifcs: Seq<InterfaceMigration>,
    continue_migration: bool,
) -> Result<Seq<Connection>, MigrateErrorView> {
    if read_warning is Some && !continue_migration {
        Err(MigrateErrorView::ReadWarning(read_warning.unwrap()))
    } else if first_warned(ifcs) is Some && !continue_migration {
        Err(
            MigrateErrorView::MigrationFailed(
                ifcs[first_warned(ifcs).unwrap()].connections@[0].id@,
            ),
        )
    } else {
        let c0 = gathered(ifcs);
        let parents = latest_by_key(gathered_parents(ifcs));
        let missing = first_missing_parent(c0, parents);
        if missing is Some && !continue_migration {
            Err(MigrateErrorView::MissingParent(parents[missing.unwrap()].0@))
        } else {
            let (c1, failed) = apply_links(c0, parent_links(c0, parents));
            match failed {
                Some(id) => Err(MigrateErrorView::MissingConnection(id)),
                None => {
                    let (c2, failed_port) = apply_ports(
                        c1,
                        latest_by_key(gathered_ports(ifcs)),
                        continue_migration,
                    );
                    match failed_port {
                        Some(ifc) => Err(MigrateErrorView::MissingBridgePort(ifc)),
                        None => Ok(c2),
                    }
                },
            }
        }
    }
}

impl Connection {
    /// A copy of the connection.
    pub fn duplicate(&self) -> (r: Connection)
        ensures
            r == *self,
    {
        Connection {
            id: self.id.clone(),
            interface: match &self.interface {
                Some(s) => Some(s.clone()),
                None => None,
            },
            uuid: self.uuid,
            controller: self.controller,
            port_config: self.port_config,
        }
    }
}

/// Gathers the connections of the interfaces and links them to their
/// parents and bridge ports, as `migration_outcome` says. When the migration
/// does not go on past problems, the first interface with warnings (if
/// reading gave none) must have a connection, which the error names.
pub fn gather_connections(
    read_warning: &Option<String>,
    interfaces: &Vec<InterfaceMigration>,
    settings: &MigrationSettings,
) -> (r: Result<Vec<Connection>, MigrateError>)
    requires
        !settings.continue_migration && read_warning is None ==> (first_warned(interfaces@) matches Some(
            k,
        ) ==> interfaces@[k].connections@.len() > 0),
    ensures
        match r {
            Ok(v) => migration_outcome(
                read_warning.deep_view(),
                interfaces@,
                settings.continue_migration,
            ) == Ok::<Seq<Connection>, MigrateErrorView>(v@),
            Err(e) => migration_outcome(
                read_warning.deep_view(),
                interfaces@,
                settings.continue_migration,
            ) == Err::<Seq<Connection>, MigrateErrorView>(e@),
        },
{
    if !settings.continue_migration {
        if let Some(w) = read_warning {
            return Err(MigrateError::ReadWarning(w.clone()));
        }
    }
    let ghost ifcs = interfaces@;
    let mut connections: Vec<Connection> = Vec::new();
    let mut parents: Vec<(String, String)> = Vec::new();
    let mut ports: Vec<(String, BridgePortConfig)> = Vec::new();
    let mut i: usize = 0;
    assert(ifcs.take(0) =~= Seq::<InterfaceMigration>::empty());
    while i < interfaces.len()
        invariant
            0 <= i <= ifcs.len(),
            ifcs == interfaces@,
            connections@ == gathered(ifcs.take(i as int)),
            parents@ == gathered_parents(ifcs.take(i as int)),
            ports@ == gathered_ports(ifcs.take(i as int)),
            !settings.continue_migration ==> first_warned(ifcs.take(i as int)) is None,
            !settings.continue_migration && read_warning is None ==> (first_warned(ifcs) matches Some(
                k,
            ) ==> ifcs[k].connections@.len() > 0),
            !settings.continue_migration ==> read_warning is None,
        decreases ifcs.len() - i,
    {
        let ifc = &interfaces[i];
        assert(ifcs.take(i + 1).drop_last() =~= ifcs.take(i as int));
        assert(ifcs.take(i + 1).last() == *ifc);
        if ifc.warnings.len() > 0 && !settings.continue_migration {
            proof {
                lemma_first_warned_prefix(ifcs, i as int);
            }
            return Err(MigrateError::MigrationFailed(ifc.connections[0].id.clone()));
        }
        let ghost c_before = connections@;
        let ghost p_before = parents@;
        let ghost q_before = ports@;
        let mut j: usize = 0;
        assert(ifc.connections@.take(0) =~= Seq::<Connection>::empty());
        while j < ifc.connections.len()
            invariant
                0 <= j <= ifc.connections@.len(),
                connections@ == c_before + ifc.connections@.take(j as int),
                parents@ == p_before + parents_of(ifc.connections@.take(j as int), ifc.master),
                ports@ == q_before + repeated(j as nat, ifc.bridge_ports@),
            decreases ifc.connections@.len() - j,
        {
            let c = &ifc.connections[j];
            assert(ifc.connections@.take(j + 1) =~= ifc.connections@.take(j as int).push(*c));
            connections.push(c.duplicate());
            if let Some(parent) = &ifc.master {
                parents.push((c.id.clone(), parent.clone()));
                assert(parents_of(ifc.connections@.take(j + 1), ifc.master) =~= parents_of(
                    ifc.connections@.take(j as int),
                    ifc.master,
                ).push((c.id, *parent)));
            } else {
                assert(parents_of(ifc.connections@.take(j + 1), ifc.master) =~= Seq::<
                    (String, String),
                >::empty());
                assert(parents_of(ifc.connections@.take(j as int), ifc.master) =~= Seq::<
                    (String, String),
                >::empty());
            }
            let ghost ports_before = ports@;
            let mut k: usize = 0;
            while k < ifc.bridge_ports.len()
                invariant
                    0 <= k <= ifc.bridge_ports@.len(),
                    ports@ == ports_before + ifc.bridge_ports@.take(k as int),
                decreases ifc.bridge_ports@.len() - k,
            {
                let port = &ifc.bridge_ports[k];
                ports.push((port.0.clone(), port.1));
                assert(ifc.bridge_ports@.take(k + 1) =~= ifc.bridge_ports@.take(k as int).push(
                    *port,
                ));
                k = k + 1;
            }
            assert(ifc.bridge_ports@.take(k as int) =~= ifc.bridge_ports@);
            j = j + 1;
        }
        assert(ifc.connections@.take(j as int) =~= ifc.connections@);
        i = i + 1;
    }
    assert(ifcs.take(i as int) =~= ifcs);
    let parents = latest_entries(parents);
    let ports = latest_entries(ports);
    match update_parent_connection(connections.as_mut_slice(), &parents, settings) {
        Ok(()) => {},
        Err(e) => return Err(e),
    }
    match update_bridge_ports(connections.as_mut_slice(), &ports, settings) {
        Ok(()) => {},
        Err(e) => return Err(e),
    }
    Ok(connections)
}

proof fn lemma_first_warned_prefix(ifcs: Seq<InterfaceMigration>, i: int)
    requires
        0 <= i < ifcs.len(),
        first_warned(ifcs.take(i)) is None,
        ifcs[i].warnings@.len() > 0,
    ensures
        first_warned(ifcs) == Some(i),
{
    assert(ifcs.take(i + 1).drop_last() =~= ifcs.take(i));
    lemma_first_warned_extends(ifcs, i + 1, i);
}

proof fn lemma_first_warned_extends(ifcs: Seq<InterfaceMigration>, n: int, i: int)
    requires
        0 <= i < n <= ifcs.len(),
        first_warned(ifcs.take(n)) == Some(i),
    ensures
        first_warned(ifcs) == Some(i),
    decreases ifcs.len() - n,
{
    if n < ifcs.len() {
        assert(ifcs.take(n + 1).drop_last() =~= ifcs.take(n));
        lemma_first_warned_extends(ifcs, n + 1, i);
    } else {
        assert(ifcs.take(n) =~= ifcs);
    }
}

} // verus!
