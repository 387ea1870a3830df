//! The static DNS settings of netconfig, and the NetworkManager
//! configuration that carries them over.
use crate::text::{
    contains_str, join, join_strings, lemma_split_join, split, split_on_char, views,
};
use vstd::prelude::*;

verus! {

/// The static DNS settings that netconfig applies.
#[derive(Debug, Default, PartialEq)]
pub struct Netconfig {
    pub static_dns_servers: Option<Vec<String>>,
    pub static_dns_searchlist: Option<Vec<String>>,
}

/// The words of a space-separated variable, when it is set and not empty.
pub open spec fn words_of(v: Option<Seq<char>>) -> Option<Seq<Seq<char>>> {
    match v {
        Some(s) => if s.len() > 0 {
            Some(split(s, ' '))
        } else {
            None
        },
        None => None,
    }
}

fn words(v: &Option<String>) -> (r: Option<Vec<String>>)
    ensures
        match r {
            Some(w) => words_of(v.deep_view()) == Some(views(w@)),
            None => words_of(v.deep_view()) is None,
        },
{
    match v {
        Some(s) => if s.as_str().unicode_len() > 0 {
            Some(split_on_char(s.as_str(), ' '))
        } else {
            None
        },
        None => None,
    }
}

/// Whether the DNS policy lets netconfig apply static settings: it does
/// when it is not set, or when one of its space-separated words is `STATIC`.
pub open spec fn policy_is_static(policy: Option<Seq<char>>) -> bool {
    match policy {
        Some(p) => split(p, ' ').contains("STATIC"@),
        None => true,
    }
}

/// The static DNS settings that the netconfig variables
/// `NETCONFIG_DNS_POLICY`, `NETCONFIG_DNS_STATIC_SERVERS` and
/// `NETCONFIG_DNS_STATIC_SEARCHLIST` give (each is nothing when unset): none
/// unless the policy is static; else the servers and the search list, as
/// space-separated words, each when set and not empty.
pub fn netconfig_from_variables(
    dns_policy: &Option<String>,
    static_dns_servers: &Option<String>,
    static_dns_searchlist: &Option<String>,
) -> (r: Netconfig)
    ensures
        policy_is_static(dns_policy.deep_view()) ==> {
            &&& r.static_dns_servers.deep_view() == words_of(static_dns_servers.deep_view())
            &&& r.static_dns_searchlist.deep_view() == words_of(static_dns_searchlist.deep_view())
        },
        !policy_is_static(dns_policy.deep_view()) ==> r.static_dns_servers is None
            && r.static_dns_searchlist is None,
{
    let mut netconfig = Netconfig { static_dns_servers: None, static_dns_searchlist: None };
    if let Some(p) = dns_policy {
        let parts = split_on_char(p.as_str(), ' ');
        if !contains_str(parts.as_slice(), "STATIC") {
            return netconfig;
        }
    }
    let servers = words(static_dns_servers);
    let searchlist = words(static_dns_searchlist);
    proof {
        assert(servers.deep_view() == words_of(static_dns_servers.deep_view()));
        assert(searchlist.deep_view() == words_of(static_dns_searchlist.deep_view()));
    }
    netconfig.static_dns_servers = servers;
    netconfig.static_dns_searchlist = searchlist;
    netconfig
}

/// A setting of a NetworkManager configuration file: section, key, value.
pub type ConfEntry = (String, String, String);

pub open spec fn entry_view(e: ConfEntry) -> (Seq<char>, Seq<char>, Seq<char>) {
    (e.0@, e.1@, e.2@)
}

/// The NetworkManager global DNS settings of `n`: nothing when it has no
/// static settings; else the search list, comma-joined, as the `servers` of
/// the `global-dns` section, then the servers, comma-joined, as the
/// `servers` of the `global-dns-domain-*` section, each when it is set.
pub open spec fn global_dns_entries(
    servers: Option<Seq<Seq<char>>>,
    searchlist: Option<Seq<Seq<char>>>,
) -> Option<Seq<(Seq<char>, Seq<char>, Seq<char>)>> {
    if servers is None && searchlist is None {
        None
    } else {
        let s1 = match searchlist {
            Some(l) => seq![("global-dns"@, "servers"@, join(l, ","@))],
            None => Seq::empty(),
        };
        let s2 = match servers {
            Some(l) => seq![("global-dns-domain-*"@, "servers"@, join(l, ","@))],
            None => Seq::empty(),
        };
        Some(s1 + s2)
    }
}

pub open spec fn opt_views(v: Option<Vec<String>>) -> Option<Seq<Seq<char>>> {
    match v {
        Some(l) => Some(views(l@)),
        None => None,
    }
}

/// The settings of the NetworkManager configuration file that carries the
/// static DNS settings over; nothing when there are none, and then no file
/// is written.
pub fn nmconf_netconfig_entries(netconfig: &Netconfig) -> (r: Option<Vec<ConfEntry>>)
    ensures
        match r {
            Some(v) => global_dns_entries(
                opt_views(netconfig.static_dns_servers),
                opt_views(netconfig.static_dns_searchlist),
            ) == Some(v@.map_values(|e: ConfEntry| entry_view(e))),
            None => global_dns_entries(
                opt_views(netconfig.static_dns_servers),
                opt_views(netconfig.static_dns_searchlist),
            ) is None,
        },
{
    if netconfig.static_dns_servers.is_none() && netconfig.static_dns_searchlist.is_none() {
        return None;
    }
    let mut conf: Vec<ConfEntry> = Vec::new();
    if let Some(static_dns_searchlist) = &netconfig.static_dns_searchlist {
        conf.push(
            (
                String::from_str("global-dns"),
                String::from_str("servers"),
                join_strings(static_dns_searchlist, ","),
            ),
        );
    }
    if let Some(static_dns_servers) = &netconfig.static_dns_servers {
        conf.push(
            (
                String::from_str("global-dns-domain-*"),
                String::from_str("servers"),
                join_strings(static_dns_servers, ","),
            ),
        );
    }
    proof {
        let want = global_dns_entries(
            opt_views(netconfig.static_dns_servers),
            opt_views(netconfig.static_dns_searchlist),
        ).unwrap();
        assert(conf@.map_values(|e: ConfEntry| entry_view(e)) =~= want);
    }
    Some(conf)
}

/// The path of the NetworkManager configuration file for global DNS
/// settings in the drop-in directory `nm_dropin_dir`.
pub fn global_dns_conf_path(nm_dropin_dir: &str) -> (r: String)
    ensures
        r@ == nm_dropin_dir@ + "/global_dns.conf"@,
{
    let mut p = String::from_str(nm_dropin_dir);
    p.append("/global_dns.conf");
    p
}

/// Without a static DNS policy nothing is written: the settings that the
/// variables give are empty, and empty settings give no configuration.
pub proof fn lemma_non_static_policy_writes_nothing(
    policy: Option<Seq<char>>,
    servers: Option<Vec<String>>,
    searchlist: Option<Vec<String>>,
)
    requires
        !policy_is_static(policy),
        !policy_is_static(policy) ==> servers is None && searchlist is None,
    ensures
        global_dns_entries(opt_views(servers), opt_views(searchlist)) is None,
{
}


/// Static DNS settings are carried over exactly when one of them is set:
/// a set search list always gives the entry (`global-dns`, `servers`, the
/// list joined with `,`), set servers always give the entry
/// (`global-dns-domain-*`, `servers`, the servers joined with `,`), and
/// there is no other entry.
pub proof fn lemma_global_dns_entries_carry_settings(
    servers: Option<Seq<Seq<char>>>,
    searchlist: Option<Seq<Seq<char>>>,
)
    ensures
        global_dns_entries(servers, searchlist) is None <==> servers is None && searchlist is None,
        searchlist matches Some(l) ==> global_dns_entries(servers, searchlist).unwrap().contains(
            ("global-dns"@, "servers"@, join(l, ","@)),
        ),
        servers matches Some(l) ==> global_dns_entries(servers, searchlist).unwrap().contains(
            ("global-dns-domain-*"@, "servers"@, join(l, ","@)),
        ),
        global_dns_entries(servers, searchlist) matches Some(e) ==> e.len() == (if searchlist is Some {
            1int
        } else {
            0int
        }) + (if servers is Some {
            1int
        } else {
            0int
        }),
{
    if let Some(e) = global_dns_entries(servers, searchlist) {
        if let Some(l) = searchlist {
            assert(e[0] == ("global-dns"@, "servers"@, join(l, ","@)));
        }
        if let Some(l) = servers {
            assert(e[e.len() - 1] == ("global-dns-domain-*"@, "servers"@, join(l, ","@)));
        }
    }
}


/// A variable's words, when it is set and not empty, joined with spaces
/// give the variable back, and none of them holds a space; an unset or
/// empty variable has no words.
pub proof fn lemma_words_of_variable(v: Option<Seq<char>>)
    ensures
        words_of(v) is None <==> (v is None || v.unwrap().len() == 0),
        words_of(v) matches Some(w) ==> join(w, seq![' ']) == v.unwrap() && forall|i: int|
            0 <= i < w.len() ==> !(#[trigger] w[i]).contains(' '),
{
    if let Some(s) = v {
        lemma_split_join(s, ' ');
    }
}

} // verus!
