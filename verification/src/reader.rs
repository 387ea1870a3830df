//! Preparing wicked XML for reading, and completing what was read.
use crate::interface::{Interface, Link, ParentKind};
use vstd::prelude::*;

verus! {

/// What compiling `pattern` with the `regex` crate and replacing every match
/// in `haystack` by `replacement` (with `$n` standing for group `n`) yields;
/// nothing when the pattern does not compile.
pub uninterp spec fn regex_replaced(
    pattern: Seq<char>,
    haystack: Seq<char>,
    replacement: Seq<char>,
) -> Option<Seq<char>>;

/// Compiles `pattern` with `regex::Regex::new` and applies
/// `Regex::replace_all`; the contract names the outcome and says nothing of
/// the regular expression language, but that the tag pattern `COLON_TAG`
/// (a bracket class holding an escaped `/`, word classes and a word
/// boundary, all of the crate's documented syntax) compiles.
#[verifier::external_body]
fn regex_replace_all(pattern: &str, haystack: &str, replacement: &str) -> (r: Option<String>)
    ensures
        match r {
            Some(s) => regex_replaced(pattern@, haystack@, replacement@) == Some(s@),
            None => regex_replaced(pattern@, haystack@, replacement@) is None,
        },
        pattern@ == COLON_TAG@ ==> r is Some,
{
    match regex::Regex::new(pattern) {
        Ok(re) => Some(re.replace_all(haystack, replacement).to_string()),
        Err(_) => None,
    }
}

/// Tags with a namespace prefix, `<ns:name` or `</ns:name`.
pub const COLON_TAG: &'static str = "<([\\/]?)(\\w+):(\\w+)\\b";

/// The same tags written `<ns-name`, which the XML reader takes as names.
pub const DASH_TAG: &'static str = "<$1$2-$3";

/// Rewrites every tag `<ns:name` (or `</ns:name`) of `colon_string` as
/// `<ns-name`.
pub fn replace_colons(colon_string: &str) -> (r: String)
    ensures
        regex_replaced(COLON_TAG@, colon_string@, DASH_TAG@) == Some(r@),
{
    regex_replace_all(COLON_TAG, colon_string, DASH_TAG).unwrap()
}

/// Whether the interface at `i` is enslaved to an interface of `ifcs` that
/// is a bond.
pub open spec fn has_bond_parent(ifcs: Seq<Interface>, i: int) -> bool {
    &&& ifcs[i].link.parent is Some
    &&& exists|j: int|
        0 <= j < ifcs.len() && #[trigger] ifcs[j].name@ == ifcs[i].link.parent.unwrap()@
            && ifcs[j].bond is Some
}

/// The interface at `i` after completion: marked as enslaved to a bond when
/// its parent is a bond, else unchanged.
pub open spec fn completed(ifcs: Seq<Interface>, i: int) -> Interface {
    if has_bond_parent(ifcs, i) {
        Interface {
            link: Link { kind: Some(ParentKind::Bond), ..ifcs[i].link },
            ..ifcs[i]
        }
    } else {
        ifcs[i]
    }
}

/// All interfaces after completion.
pub open spec fn post_processed(ifcs: Seq<Interface>) -> Seq<Interface> {
    Seq::new(ifcs.len(), |i: int| completed(ifcs, i))
}

fn parent_is_bond(interfaces: &[Interface], i: usize) -> (r: bool)
    requires
        i < interfaces@.len(),
    ensures
        r == has_bond_parent(interfaces@, i as int),
{
    if let Some(parent) = &interfaces[i].link.parent {
        let mut j: usize = 0;
        while j < interfaces.len()
            invariant
                0 <= j <= interfaces@.len(),
                i < interfaces@.len(),
                interfaces@[i as int].link.parent == Some(*parent),
                forall|k: int|
                    0 <= k < j ==> !(#[trigger] interfaces@[k].name@ == parent@
                        && interfaces@[k].bond is Some),
            decreases interfaces@.len() - j,
        {
            if interfaces[j].name == *parent && interfaces[j].bond.is_some() {
                return true;
            }
            j = j + 1;
        }
        false
    } else {
        false
    }
}

/// Marks each interface whose parent is a bond of `interfaces` as enslaved
/// to a bond; the other interfaces are left as they are.
pub fn post_process_interface(interfaces: &mut [Interface])
    ensures
        final(interfaces)@ == post_processed(old(interfaces)@),
{
    let ghost orig = interfaces@;
    let mut flags: Vec<bool> = Vec::new();
    let mut i: usize = 0;
    while i < interfaces.len()
        invariant
            0 <= i <= interfaces@.len(),
            interfaces@ == orig,
            flags@.len() == i,
            forall|k: int| 0 <= k < i ==> flags@[k] == has_bond_parent(orig, k),
        decreases interfaces@.len() - i,
    {
        flags.push(parent_is_bond(interfaces, i));
        i = i + 1;
    }
    let mut i: usize = 0;
    while i < interfaces.len()
        invariant
            0 <= i <= interfaces@.len(),
            interfaces@.len() == orig.len(),
            flags@.len() == orig.len(),
            forall|k: int| 0 <= k < orig.len() ==> flags@[k] == has_bond_parent(orig, k),
            forall|k: int| 0 <= k < i ==> interfaces@[k] == completed(orig, k),
            forall|k: int| i <= k < orig.len() ==> interfaces@[k] == orig[k],
        decreases interfaces@.len() - i,
    {
        if flags[i] {
            interfaces[i].link.kind = Some(ParentKind::Bond);
        }
        i = i + 1;
    }
    assert(interfaces@ =~= post_processed(orig));
}

/// Completing is idempotent: completing completed interfaces changes nothing,
/// as completion reads only names, parents and bonds, which it keeps.
pub proof fn lemma_post_process_idempotent(ifcs: Seq<Interface>)
    ensures
        post_processed(post_processed(ifcs)) == post_processed(ifcs),
{
    let p = post_processed(ifcs);
    assert forall|i: int| 0 <= i < p.len() implies has_bond_parent(p, i) == has_bond_parent(
        ifcs,
        i,
    ) by {
        if has_bond_parent(ifcs, i) {
            let j = choose|j: int|
                0 <= j < ifcs.len() && #[trigger] ifcs[j].name@ == ifcs[i].link.parent.unwrap()@
                    && ifcs[j].bond is Some;
            assert(p[j].name@ == p[i].link.parent.unwrap()@);
        }
        if has_bond_parent(p, i) {
            let j = choose|j: int|
                0 <= j < p.len() && #[trigger] p[j].name@ == p[i].link.parent.unwrap()@
                    && p[j].bond is Some;
            assert(ifcs[j].name@ == ifcs[i].link.parent.unwrap()@);
        }
    }
    assert(post_processed(p) =~= p);
}

} // verus!
