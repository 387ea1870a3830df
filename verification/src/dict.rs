//! A small string-keyed dictionary: a list of entries whose meaning is the
//! map built by inserting them in order, so a later entry for a key wins.
use vstd::prelude::*;

verus! {

/// The map that inserting `entries` in order into an empty map yields.
pub open spec fn entries_map<V: View>(entries: Seq<(String, V)>) -> Map<Seq<char>, V::V>
    decreases entries.len(),
{
    if entries.len() == 0 {
        Map::empty()
    } else {
        entries_map(entries.drop_last()).insert(entries.last().0@, entries.last().1@)
    }
}

/// Whether key `a` comes before key `b`: lexicographic order by the code
/// points of the characters, a proper prefix first.
pub open spec fn key_lt(a: Seq<char>, b: Seq<char>) -> bool
    decreases a.len(),
{
    if b.len() == 0 {
        false
    } else if a.len() == 0 {
        true
    } else if a[0] != b[0] {
        (a[0] as int) < (b[0] as int)
    } else {
        key_lt(a.drop_first(), b.drop_first())
    }
}

/// The keys of the entries are in strictly increasing order.
pub open spec fn keys_sorted<V>(entries: Seq<(String, V)>) -> bool {
    forall|i: int, j: int|
        0 <= i < j < entries.len() ==> key_lt(#[trigger] entries[i].0@, #[trigger] entries[j].0@)
}

/// No key comes before itself.
pub proof fn lemma_key_lt_irreflexive(a: Seq<char>)
    ensures
        !key_lt(a, a),
    decreases a.len(),
{
    if a.len() > 0 {
        lemma_key_lt_irreflexive(a.drop_first());
    }
}

/// Of two distinct keys, one comes before the other.
pub proof fn lemma_key_lt_total(a: Seq<char>, b: Seq<char>)
    ensures
        a != b ==> key_lt(a, b) || key_lt(b, a),
    decreases a.len(),
{
    if a.len() > 0 && b.len() > 0 && a[0] == b[0] {
        lemma_key_lt_total(a.drop_first(), b.drop_first());
        if a.drop_first() == b.drop_first() {
            assert(a =~= seq![a[0]] + a.drop_first());
            assert(b =~= seq![b[0]] + b.drop_first());
        }
    } else if a.len() == 0 && b.len() == 0 {
        assert(a =~= b);
    } else if a.len() > 0 && b.len() > 0 {
        assert(a[0] as int != b[0] as int);
    }
}

/// The order of keys is transitive.
pub proof fn lemma_key_lt_transitive(a: Seq<char>, b: Seq<char>, c: Seq<char>)
    requires
        key_lt(a, b),
        key_lt(b, c),
    ensures
        key_lt(a, c),
    decreases a.len(),
{
    if a.len() > 0 && a[0] == b[0] && b[0] == c[0] {
        lemma_key_lt_transitive(a.drop_first(), b.drop_first(), c.drop_first());
    }
}

/// Whether key `a` comes before key `b`, as `key_lt` says.
pub fn key_less(a: &str, b: &str) -> (r: bool)
    ensures
        r == key_lt(a@, b@),
{
    let na = a.unicode_len();
    let nb = b.unicode_len();
    let mut i: usize = 0;
    assert(a@.skip(0) =~= a@);
    assert(b@.skip(0) =~= b@);
    while i < na && i < nb
        invariant
            na == a@.len(),
            nb == b@.len(),
            i <= na,
            i <= nb,
            key_lt(a@, b@) == key_lt(a@.skip(i as int), b@.skip(i as int)),
        decreases na - i,
    {
        let ca = a.get_char(i);
        let cb = b.get_char(i);
        assert(a@.skip(i as int)[0] == ca);
        assert(b@.skip(i as int)[0] == cb);
        if ca != cb {
            return (ca as u32) < (cb as u32);
        }
        assert(a@.skip(i as int).drop_first() =~= a@.skip(i + 1));
        assert(b@.skip(i as int).drop_first() =~= b@.skip(i + 1));
        i = i + 1;
    }
    i < nb
}

/// A dictionary keyed by strings. `new` and `insert` keep its entries in
/// canonical form (`wf`): sorted by key, each key once. In that form the
/// entries are determined by the map they stand for
/// (`lemma_canonical_entries`), so two dictionaries with the same content
/// compare equal with the derived `==`, whatever order the keys were
/// inserted in, as with a map. Entries written directly into the public
/// field need not be in that form, and then `==` compares the lists.
#[derive(Debug, PartialEq)]
pub struct Dict<V> {
    pub entries: Vec<(String, V)>,
}

impl<V: View> View for Dict<V> {
    type V = Map<Seq<char>, V::V>;

    open spec fn view(&self) -> Map<Seq<char>, V::V> {
        entries_map(self.entries@)
    }
}

proof fn lemma_entries_map_push<V: View>(entries: Seq<(String, V)>, e: (String, V))
    ensures
        entries_map(entries.push(e)) == entries_map(entries).insert(e.0@, e.1@),
{
    assert(entries.push(e).drop_last() =~= entries);
}

impl<V: View> Dict<V> {
    /// Whether the entries are in their canonical form: by key in
    /// increasing order (`key_lt`), each key once. Two dictionaries in this
    /// form with the same content have the same entries.
    pub open spec fn wf(&self) -> bool {
        keys_sorted(self.entries@)
    }

    /// An empty dictionary.
    pub fn new() -> (r: Self)
        ensures
            r@ == Map::<Seq<char>, V::V>::empty(),
            r.wf(),
    {
        Dict { entries: Vec::new() }
    }

    /// Sets `key` to `value`, keeping the entries in canonical form.
    pub fn insert(&mut self, key: String, value: V)
        ensures
            final(self)@ == old(self)@.insert(key@, value@),
            old(self).wf() ==> final(self).wf(),
    {
        let mut taken: Vec<(String, V)> = Vec::new();
        std::mem::swap(&mut taken, &mut self.entries);
        let ghost orig = taken@;
        let mut kept = remove_key(taken, &key);
        proof {
            lemma_without_key_map(orig, key@);
            lemma_without_key_keys(orig, key@);
        }
        let mut j: usize = 0;
        while j < kept.len() && key_less(kept[j].0.as_str(), key.as_str())
            invariant
                j <= kept@.len(),
                forall|m: int| 0 <= m < j ==> key_lt(#[trigger] kept@[m].0@, key@),
            decreases kept@.len() - j,
        {
            j = j + 1;
        }
        proof {
            assert forall|m: int| 0 <= m < kept@.len() implies #[trigger] kept@[m].0@ != key@ by {
                assert(kept@[m].0@ == without_key(orig, key@)[m].0@);
            }
            lemma_entries_map_insert_at(kept@, j as int, (key, value));
            assert(entries_map(orig).remove(key@).insert(key@, value@) =~= entries_map(orig).insert(
                key@,
                value@,
            ));
            if keys_sorted(orig) {
                if j < kept@.len() {
                    lemma_key_lt_total(key@, kept@[j as int].0@);
                }
                lemma_sorted_insert_at(kept@, j as int, (key, value));
            }
        }
        kept.insert(j, (key, value));
        self.entries = kept;
    }

    /// The value stored for `key`, if any.
    pub fn get(&self, key: &str) -> (r: Option<&V>)
        ensures
            match r {
                Some(v) => self@.contains_key(key@) && v@ == self@[key@],
                None => !self@.contains_key(key@),
            },
    {
        let k = String::from_str(key);
        let mut i: usize = self.entries.len();
        while i > 0
            invariant
                0 <= i <= self.entries.len(),
                k@ == key@,
                forall|j: int| i <= j < self.entries@.len() ==> #[trigger] self.entries@[j].0@ != key@,
            decreases i,
        {
            if self.entries[i - 1].0 == k {
                proof {
                    lemma_last_occurrence(self.entries@, i - 1, key@);
                }
                return Some(&self.entries[i - 1].1);
            }
            i = i - 1;
        }
        proof {
            lemma_no_occurrence(self.entries@, key@);
        }
        None
    }

    /// Whether `key` has a value.
    pub fn contains_key(&self, key: &str) -> (r: bool)
        ensures
            r == self@.contains_key(key@),
    {
        self.get(key).is_some()
    }
}

proof fn lemma_last_occurrence<V: View>(entries: Seq<(String, V)>, idx: int, k: Seq<char>)
    requires
        0 <= idx < entries.len(),
        entries[idx].0@ == k,
        forall|j: int| idx < j < entries.len() ==> #[trigger] entries[j].0@ != k,
    ensures
        entries_map(entries).contains_key(k),
        entries_map(entries)[k] == entries[idx].1@,
    decreases entries.len(),
{
    if idx < entries.len() - 1 {
        let p = entries.drop_last();
        assert forall|j: int| idx < j < p.len() implies #[trigger] p[j].0@ != k by {
            assert(p[j] == entries[j]);
        }
        lemma_last_occurrence(p, idx, k);
    }
}

proof fn lemma_no_occurrence<V: View>(entries: Seq<(String, V)>, k: Seq<char>)
    requires
        forall|j: int| 0 <= j < entries.len() ==> #[trigger] entries[j].0@ != k,
    ensures
        !entries_map(entries).contains_key(k),
    decreases entries.len(),
{
    if entries.len() > 0 {
        let p = entries.drop_last();
        assert forall|j: int| 0 <= j < p.len() implies #[trigger] p[j].0@ != k by {
            assert(p[j] == entries[j]);
        }
        lemma_no_occurrence(p, k);
    }
}


/// The entries without those for key `k`, the others in order.
pub open spec fn without_key<V>(entries: Seq<(String, V)>, k: Seq<char>) -> Seq<(String, V)>
    decreases entries.len(),
{
    if entries.len() == 0 {
        entries
    } else {
        let rest = without_key(entries.drop_last(), k);
        if entries.last().0@ == k {
            rest
        } else {
            rest.push(entries.last())
        }
    }
}

/// The entries that a map keeps when they are inserted in order: one entry
/// for each key, the last one given for it, in the order in which those
/// last entries come.
pub open spec fn latest_by_key<V>(entries: Seq<(String, V)>) -> Seq<(String, V)>
    decreases entries.len(),
{
    if entries.len() == 0 {
        entries
    } else {
        without_key(latest_by_key(entries.drop_last()), entries.last().0@).push(entries.last())
    }
}

fn remove_key<V>(entries: Vec<(String, V)>, k: &String) -> (r: Vec<(String, V)>)
    ensures
        r@ == without_key(entries@, k@),
{
    let ghost orig = entries@;
    let ghost mut i: int = 0;
    let mut rest = entries;
    let mut kept: Vec<(String, V)> = Vec::new();
    assert(orig.skip(0) =~= orig);
    assert(orig.take(0) =~= Seq::<(String, V)>::empty());
    while rest.len() > 0
        invariant
            0 <= i <= orig.len(),
            rest@ == orig.skip(i),
            kept@ == without_key(orig.take(i), k@),
        decreases rest@.len(),
    {
        let e = rest.remove(0);
        proof {
            assert(e == orig[i]);
            assert(orig.take(i + 1).drop_last() =~= orig.take(i));
            assert(orig.take(i + 1).last() == orig[i]);
            assert(orig.skip(i).remove(0) =~= orig.skip(i + 1));
            i = i + 1;
        }
        if e.0 != *k {
            kept.push(e);
        }
    }
    assert(orig.take(i) =~= orig);
    kept
}

/// The entries that a map built by inserting `entries` in order keeps, as
/// `latest_by_key` says.
pub fn latest_entries<V>(entries: Vec<(String, V)>) -> (r: Vec<(String, V)>)
    ensures
        r@ == latest_by_key(entries@),
{
    let ghost orig = entries@;
    let ghost mut i: int = 0;
    let mut rest = entries;
    let mut acc: Vec<(String, V)> = Vec::new();
    assert(orig.skip(0) =~= orig);
    assert(orig.take(0) =~= Seq::<(String, V)>::empty());
    while rest.len() > 0
        invariant
            0 <= i <= orig.len(),
            rest@ == orig.skip(i),
            acc@ == latest_by_key(orig.take(i)),
        decreases rest@.len(),
    {
        let e = rest.remove(0);
        proof {
            assert(e == orig[i]);
            assert(orig.take(i + 1).drop_last() =~= orig.take(i));
            assert(orig.take(i + 1).last() == orig[i]);
            assert(orig.skip(i).remove(0) =~= orig.skip(i + 1));
            i = i + 1;
        }
        acc = remove_key(acc, &e.0);
        acc.push(e);
    }
    assert(orig.take(i) =~= orig);
    acc
}

proof fn lemma_without_key_map<V: View>(entries: Seq<(String, V)>, k: Seq<char>)
    ensures
        entries_map(without_key(entries, k)) == entries_map(entries).remove(k),
    decreases entries.len(),
{
    if entries.len() == 0 {
        assert(entries_map(entries).remove(k) =~= Map::<Seq<char>, V::V>::empty());
    } else {
        let p = entries.drop_last();
        let x = entries.last();
        lemma_without_key_map(p, k);
        if x.0@ == k {
            assert(entries_map(entries).remove(k) =~= entries_map(p).remove(k));
        } else {
            lemma_entries_map_push(without_key(p, k), x);
            assert(entries_map(entries).remove(k) =~= entries_map(p).remove(k).insert(x.0@, x.1@));
        }
    }
}

/// No key occurs twice among the entries.
pub open spec fn distinct_keys<V>(entries: Seq<(String, V)>) -> bool {
    forall|i: int, j: int|
        0 <= i < j < entries.len() ==> #[trigger] entries[i].0@ != #[trigger] entries[j].0@
}

proof fn lemma_without_key_keys<V>(entries: Seq<(String, V)>, k: Seq<char>)
    ensures
        forall|i: int|
            0 <= i < without_key(entries, k).len() ==> #[trigger] without_key(entries, k)[i].0@ != k
                && exists|a: int| 0 <= a < entries.len() && entries[a].0@ == without_key(entries, k)[i].0@,
        distinct_keys(entries) ==> distinct_keys(without_key(entries, k)),
        keys_sorted(entries) ==> keys_sorted(without_key(entries, k)),
    decreases entries.len(),
{
    if entries.len() > 0 {
        let p = entries.drop_last();
        let x = entries.last();
        lemma_without_key_keys(p, k);
        let w = without_key(p, k);
        let s = without_key(entries, k);
        assert forall|i: int| 0 <= i < s.len() implies #[trigger] s[i].0@ != k
            && exists|a: int| 0 <= a < entries.len() && entries[a].0@ == s[i].0@ by {
            if i < w.len() {
                assert(s[i] == w[i]);
                let a = choose|a: int| 0 <= a < p.len() && p[a].0@ == w[i].0@;
                assert(entries[a] == p[a]);
            } else {
                assert(s[i] == x);
                assert(entries[entries.len() - 1] == x);
            }
        }
        if distinct_keys(entries) {
            assert forall|i: int, j: int| 0 <= i < j < p.len() implies #[trigger] p[i].0@ != #[trigger] p[j].0@ by {
                assert(p[i] == entries[i] && p[j] == entries[j]);
            }
            assert forall|i: int, j: int| 0 <= i < j < s.len() implies #[trigger] s[i].0@ != #[trigger] s[j].0@ by {
                if j < w.len() {
                    assert(s[i] == w[i] && s[j] == w[j]);
                } else {
                    assert(s[i] == w[i] && s[j] == x);
                    let a = choose|a: int| 0 <= a < p.len() && p[a].0@ == w[i].0@;
                    assert(entries[a] == p[a]);
                    assert(entries[entries.len() - 1] == x);
                }
            }
        }
        if keys_sorted(entries) {
            assert forall|i: int, j: int| 0 <= i < j < p.len() implies key_lt(#[trigger] p[i].0@, #[trigger] p[j].0@) by {
                assert(p[i] == entries[i] && p[j] == entries[j]);
            }
            assert forall|i: int, j: int| 0 <= i < j < s.len() implies key_lt(#[trigger] s[i].0@, #[trigger] s[j].0@) by {
                if j < w.len() {
                    assert(s[i] == w[i] && s[j] == w[j]);
                } else {
                    assert(s[i] == w[i] && s[j] == x);
                    let a = choose|a: int| 0 <= a < p.len() && p[a].0@ == w[i].0@;
                    assert(entries[a] == p[a]);
                    assert(entries[entries.len() - 1] == x);
                }
            }
        }
    }
}

proof fn lemma_entries_map_insert_at<V: View>(s: Seq<(String, V)>, j: int, e: (String, V))
    requires
        0 <= j <= s.len(),
        forall|m: int| 0 <= m < s.len() ==> #[trigger] s[m].0@ != e.0@,
    ensures
        entries_map(s.insert(j, e)) == entries_map(s).insert(e.0@, e.1@),
    decreases s.len(),
{
    if j == s.len() {
        assert(s.insert(j, e) =~= s.push(e));
        lemma_entries_map_push(s, e);
    } else {
        let p = s.drop_last();
        let x = s.last();
        assert forall|m: int| 0 <= m < p.len() implies #[trigger] p[m].0@ != e.0@ by {
            assert(p[m] == s[m]);
        }
        lemma_entries_map_insert_at(p, j, e);
        assert(s.insert(j, e) =~= p.insert(j, e).push(x));
        lemma_entries_map_push(p.insert(j, e), x);
        assert(p.push(x) =~= s);
        lemma_entries_map_push(p, x);
        assert(s[s.len() - 1] == x);
        assert(entries_map(p).insert(e.0@, e.1@).insert(x.0@, x.1@) =~= entries_map(p).insert(
            x.0@,
            x.1@,
        ).insert(e.0@, e.1@));
    }
}

proof fn lemma_sorted_insert_at<V>(s: Seq<(String, V)>, j: int, e: (String, V))
    requires
        keys_sorted(s),
        0 <= j <= s.len(),
        forall|m: int| 0 <= m < j ==> key_lt(#[trigger] s[m].0@, e.0@),
        j < s.len() ==> key_lt(e.0@, s[j].0@),
    ensures
        keys_sorted(s.insert(j, e)),
{
    let t = s.insert(j, e);
    assert forall|a: int, b: int| 0 <= a < b < t.len() implies key_lt(#[trigger] t[a].0@, #[trigger] t[b].0@) by {
        if b < j {
            assert(t[a] == s[a] && t[b] == s[b]);
        } else if b == j {
            assert(t[a] == s[a] && t[b] == e);
        } else if a == j {
            assert(t[a] == e && t[b] == s[b - 1]);
            if b - 1 > j {
                lemma_key_lt_transitive(e.0@, s[j].0@, s[b - 1].0@);
            }
        } else if a < j {
            assert(t[a] == s[a] && t[b] == s[b - 1]);
        } else {
            assert(t[a] == s[a - 1] && t[b] == s[b - 1]);
        }
    }
}

/// Keeping the latest entry for each key changes nothing of the map the
/// entries stand for, and leaves no key twice.
pub proof fn lemma_latest_by_key<V: View>(entries: Seq<(String, V)>)
    ensures
        entries_map(latest_by_key(entries)) == entries_map(entries),
        distinct_keys(latest_by_key(entries)),
    decreases entries.len(),
{
    if entries.len() > 0 {
        let p = entries.drop_last();
        let x = entries.last();
        lemma_latest_by_key(p);
        let w = without_key(latest_by_key(p), x.0@);
        lemma_without_key_map(latest_by_key(p), x.0@);
        lemma_entries_map_push(w, x);
        assert(entries_map(p).remove(x.0@).insert(x.0@, x.1@) =~= entries_map(p).insert(x.0@, x.1@));
        lemma_without_key_keys(latest_by_key(p), x.0@);
        let l = latest_by_key(entries);
        assert(l == w.push(x));
        assert forall|i: int, j: int| 0 <= i < j < l.len() implies #[trigger] l[i].0@ != #[trigger] l[j].0@ by {
            assert(l[i] == w[i]);
            if j < l.len() - 1 {
                assert(l[j] == w[j]);
            } else {
                assert(l[j] == x);
            }
        }
    }
}


proof fn lemma_entries_map_dom<V: View>(s: Seq<(String, V)>, k: Seq<char>)
    ensures
        entries_map(s).contains_key(k) <==> exists|i: int| 0 <= i < s.len() && #[trigger] s[i].0@ == k,
    decreases s.len(),
{
    if s.len() > 0 {
        let p = s.drop_last();
        lemma_entries_map_dom(p, k);
        if exists|i: int| 0 <= i < p.len() && #[trigger] p[i].0@ == k {
            let i = choose|i: int| 0 <= i < p.len() && #[trigger] p[i].0@ == k;
            assert(s[i] == p[i]);
        }
        if exists|i: int| 0 <= i < s.len() && #[trigger] s[i].0@ == k {
            let i = choose|i: int| 0 <= i < s.len() && #[trigger] s[i].0@ == k;
            if i < p.len() {
                assert(p[i] == s[i]);
            }
        }
    }
}

/// Dictionaries in canonical form with the same content have the same
/// entries, key for key and value for value (by view): in that form the
/// entry list is determined by the map it stands for.
pub proof fn lemma_canonical_entries<V: View>(a: Seq<(String, V)>, b: Seq<(String, V)>)
    requires
        keys_sorted(a),
        keys_sorted(b),
        entries_map(a) == entries_map(b),
    ensures
        a.len() == b.len(),
        forall|i: int| 0 <= i < a.len() ==> #[trigger] a[i].0@ == b[i].0@ && a[i].1@ == b[i].1@,
    decreases a.len() + b.len(),
{
    if a.len() == 0 || b.len() == 0 {
        if a.len() > 0 {
            lemma_entries_map_dom(a, a[0].0@);
            lemma_entries_map_dom(b, a[0].0@);
        }
        if b.len() > 0 {
            lemma_entries_map_dom(a, b[0].0@);
            lemma_entries_map_dom(b, b[0].0@);
        }
    } else {
        let ka = a.last().0@;
        let kb = b.last().0@;
        lemma_entries_map_dom(a, ka);
        lemma_entries_map_dom(b, ka);
        lemma_entries_map_dom(a, kb);
        lemma_entries_map_dom(b, kb);
        assert(a[a.len() - 1].0@ == ka);
        assert(b[b.len() - 1].0@ == kb);
        if ka != kb {
            let m = choose|i: int| 0 <= i < b.len() && #[trigger] b[i].0@ == ka;
            let n = choose|i: int| 0 <= i < a.len() && #[trigger] a[i].0@ == kb;
            lemma_key_lt_irreflexive(ka);
            if m < b.len() - 1 && n < a.len() - 1 {
                assert(key_lt(b[m].0@, b[b.len() - 1].0@));
                assert(key_lt(a[n].0@, a[a.len() - 1].0@));
                lemma_key_lt_transitive(ka, kb, ka);
            }
        }
        let pa = a.drop_last();
        let pb = b.drop_last();
        assert(a =~= pa.push(a.last()));
        assert(b =~= pb.push(b.last()));
        assert forall|i: int, j: int| 0 <= i < j < pa.len() implies key_lt(#[trigger] pa[i].0@, #[trigger] pa[j].0@) by {
            assert(pa[i] == a[i] && pa[j] == a[j]);
        }
        assert forall|i: int, j: int| 0 <= i < j < pb.len() implies key_lt(#[trigger] pb[i].0@, #[trigger] pb[j].0@) by {
            assert(pb[i] == b[i] && pb[j] == b[j]);
        }
        lemma_key_lt_irreflexive(ka);
        assert forall|i: int| 0 <= i < pa.len() implies #[trigger] pa[i].0@ != ka by {
            assert(pa[i] == a[i]);
            assert(key_lt(a[i].0@, a[a.len() - 1].0@));
        }
        assert forall|i: int| 0 <= i < pb.len() implies #[trigger] pb[i].0@ != ka by {
            assert(pb[i] == b[i]);
            assert(key_lt(b[i].0@, b[b.len() - 1].0@));
        }
        lemma_entries_map_dom(pa, ka);
        lemma_entries_map_dom(pb, ka);
        assert(entries_map(pa) =~= entries_map(a).remove(ka));
        assert(entries_map(pb) =~= entries_map(b).remove(ka));
        lemma_canonical_entries(pa, pb);
        assert forall|i: int| 0 <= i < a.len() implies #[trigger] a[i].0@ == b[i].0@ && a[i].1@ == b[i].1@ by {
            if i < pa.len() {
                assert(a[i] == pa[i] && b[i] == pb[i]);
            } else {
                assert(ka == kb);
                assert(entries_map(a)[ka] == a.last().1@);
                assert(entries_map(b)[kb] == b.last().1@);
            }
        }
    }
}

} // verus!
