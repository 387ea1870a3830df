//! Text helpers: decimal rendering, joining, splitting and removing
//! substrings, each specified over `Seq<char>`.
use vstd::prelude::*;

verus! {

/// The character of a decimal digit.
pub open spec fn digit_char(d: nat) -> char {
    (48 + d) as char
}

/// Decimal rendering of a natural number, without leading zeros.
pub open spec fn decimal(n: nat) -> Seq<char>
    decreases n,
{
    if n < 10 {
        seq![digit_char(n)]
    } else {
        decimal(n / 10).push(digit_char(n % 10))
    }
}

fn digit_str(d: u32) -> (r: &'static str)
    requires
        d < 10,
    ensures
        r@ == seq![digit_char(d as nat)],
{
    proof {
        reveal_strlit("0");
        reveal_strlit("1");
        reveal_strlit("2");
        reveal_strlit("3");
        reveal_strlit("4");
        reveal_strlit("5");
        reveal_strlit("6");
        reveal_strlit("7");
        reveal_strlit("8");
        reveal_strlit("9");
    }
    match d {
        0 => "0",
        1 => "1",
        2 => "2",
        3 => "3",
        4 => "4",
        5 => "5",
        6 => "6",
        7 => "7",
        8 => "8",
        _ => "9",
    }
}

/// Renders `n` in decimal, as `to_string` does for integers.
pub fn u32_to_decimal(n: u32) -> (r: String)
    ensures
        r@ == decimal(n as nat),
    decreases n,
{
    if n < 10 {
        String::from_str(digit_str(n))
    } else {
        let mut s = u32_to_decimal(n / 10);
        s.append(digit_str(n % 10));
        s
    }
}

/// The views of a sequence of strings.
pub open spec fn views(s: Seq<String>) -> Seq<Seq<char>> {
    s.map_values(|x: String| x@)
}

/// `parts` joined with `sep` between consecutive parts.
pub open spec fn join(parts: Seq<Seq<char>>, sep: Seq<char>) -> Seq<char>
    decreases parts.len(),
{
    if parts.len() == 0 {
        Seq::empty()
    } else if parts.len() == 1 {
        parts[0]
    } else {
        join(parts.drop_last(), sep) + sep + parts.last()
    }
}

/// Joins the strings with `sep`, as `[String]::join` does.
pub fn join_strings(parts: &Vec<String>, sep: &str) -> (r: String)
    ensures
        r@ == join(views(parts@), sep@),
{
    let mut res = String::new();
    let ghost pv = views(parts@);
    let mut i: usize = 0;
    while i < parts.len()
        invariant
            0 <= i <= parts.len(),
            pv == views(parts@),
            res@ == join(pv.take(i as int), sep@),
        decreases parts.len() - i,
    {
        assert(pv.take(i + 1).drop_last() =~= pv.take(i as int));
        if i != 0 {
            res.append(sep);
        }
        res.append(parts[i].as_str());
        i = i + 1;
    }
    assert(pv.take(parts.len() as int) =~= pv);
    res
}

/// The pieces of `s` between occurrences of `c`, as `str::split` with a
/// `char` pattern yields them.
pub open spec fn split(s: Seq<char>, c: char) -> Seq<Seq<char>>
    decreases s.len(),
{
    if s.len() == 0 {
        seq![Seq::<char>::empty()]
    } else {
        let r = split(s.drop_last(), c);
        if s.last() == c {
            r.push(Seq::<char>::empty())
        } else {
            r.update(r.len() - 1, r.last().push(s.last()))
        }
    }
}

pub proof fn lemma_split_nonempty(s: Seq<char>, c: char)
    ensures
        split(s, c).len() >= 1,
    decreases s.len(),
{
    if s.len() > 0 {
        lemma_split_nonempty(s.drop_last(), c);
    }
}

/// Splits `s` at each occurrence of `c`.
pub fn split_on_char(s: &str, c: char) -> (r: Vec<String>)
    ensures
        views(r@) == split(s@, c),
{
    let n = s.unicode_len();
    let mut res: Vec<String> = Vec::new();
    let mut start: usize = 0;
    let mut i: usize = 0;
    proof {
        assert(s@.take(0) =~= Seq::<char>::empty());
        assert(views(res@) =~= Seq::<Seq<char>>::empty());
        assert(s@.subrange(0, 0) =~= Seq::<char>::empty());
        assert(views(res@).push(s@.subrange(0, 0)) =~= seq![Seq::<char>::empty()]);
    }
    while i < n
        invariant
            n == s@.len(),
            0 <= start <= i <= n,
            views(res@).push(s@.subrange(start as int, i as int)) == split(s@.take(i as int), c),
        decreases n - i,
    {
        let ch = s.get_char(i);
        proof {
            lemma_split_nonempty(s@.take(i as int), c);
            assert(s@.take(i + 1).drop_last() =~= s@.take(i as int));
            assert(s@.take(i + 1).last() == ch);
        }
        if ch == c {
            let piece = String::from_str(s.substring_char(start, i));
            let ghost old_res = res@;
            res.push(piece);
            proof {
                assert(views(res@) =~= views(old_res).push(piece@));
                assert(s@.subrange((i + 1) as int, (i + 1) as int) =~= Seq::<char>::empty());
            }
            start = i + 1;
        } else {
            proof {
                assert(s@.subrange(start as int, i + 1) =~= s@.subrange(start as int, i as int).push(ch));
                let v = views(res@).push(s@.subrange(start as int, i as int));
                assert(views(res@).push(s@.subrange(start as int, i + 1)) =~= v.update(
                    v.len() - 1,
                    v.last().push(ch),
                ));
            }
        }
        i = i + 1;
    }
    let last = String::from_str(s.substring_char(start, n));
    let ghost old_res = res@;
    res.push(last);
    proof {
        assert(views(res@) =~= views(old_res).push(last@));
        assert(s@.take(n as int) =~= s@);
    }
    res
}

/// `s` with every occurrence of the non-empty `p` removed, scanning from the
/// left as `str::replace(p, "")` does.
pub open spec fn remove_all(s: Seq<char>, p: Seq<char>) -> Seq<char>
    recommends
        p.len() > 0,
    decreases s.len(),
{
    if s.len() == 0 || p.len() == 0 {
        s
    } else if p.len() <= s.len() && s.take(p.len() as int) == p {
        remove_all(s.skip(p.len() as int), p)
    } else {
        seq![s[0]] + remove_all(s.drop_first(), p)
    }
}

/// Whether `p` occurs in `s` at position `i`.
fn occurs_at(s: &str, n: usize, p: &str, m: usize, i: usize) -> (r: bool)
    requires
        n == s@.len(),
        m == p@.len(),
        i <= n,
    ensures
        r == (i + m <= n && s@.subrange(i as int, i + m) == p@),
{
    if m > n - i {
        return false;
    }
    let mut k: usize = 0;
    while k < m
        invariant
            n == s@.len(),
            m == p@.len(),
            i + m <= n,
            0 <= k <= m,
            forall|j: int| 0 <= j < k ==> s@[i + j] == p@[j],
        decreases m - k,
    {
        if s.get_char(i + k) != p.get_char(k) {
            assert(s@.subrange(i as int, i + m)[k as int] != p@[k as int]);
            return false;
        }
        k = k + 1;
    }
    assert(s@.subrange(i as int, i + m) =~= p@);
    true
}

/// Removes every occurrence of `p` from `s`.
pub fn remove_all_str(s: &str, p: &str) -> (r: String)
    requires
        p@.len() > 0,
    ensures
        r@ == remove_all(s@, p@),
{
    let n = s.unicode_len();
    let m = p.unicode_len();
    let mut res = String::new();
    let mut i: usize = 0;
    assert(s@.skip(0) =~= s@);
    assert(res@ + s@ =~= s@);
    while i < n
        invariant
            n == s@.len(),
            m == p@.len(),
            m > 0,
            0 <= i <= n,
            remove_all(s@, p@) == res@ + remove_all(s@.skip(i as int), p@),
        decreases n - i,
    {
        let ghost rest = s@.skip(i as int);
        if occurs_at(s, n, p, m, i) {
            proof {
                assert(rest.take(m as int) =~= s@.subrange(i as int, i + m));
                assert(rest.skip(m as int) =~= s@.skip(i + m));
            }
            i = i + m;
        } else {
            proof {
                assert(m <= rest.len() ==> rest.take(m as int) =~= s@.subrange(i as int, i + m));
                assert(rest.drop_first() =~= s@.skip(i + 1));
            }
            res.append(s.substring_char(i, i + 1));
            proof {
                assert(s@.subrange(i as int, i + 1) =~= seq![rest[0]]);
            }
            i = i + 1;
        }
    }
    proof {
        assert(s@.skip(n as int) =~= Seq::<char>::empty());
    }
    res
}

/// Whether some string of `v` equals `s`.
pub fn contains_str(v: &[String], s: &str) -> (r: bool)
    ensures
        r == views(v@).contains(s@),
{
    let target = String::from_str(s);
    let mut i: usize = 0;
    while i < v.len()
        invariant
            0 <= i <= v.len(),
            target@ == s@,
            forall|j: int| 0 <= j < i ==> v@[j]@ != s@,
        decreases v.len() - i,
    {
        if v[i] == target {
            assert(views(v@)[i as int] == s@);
            return true;
        }
        i = i + 1;
    }
    proof {
        if views(v@).contains(s@) {
            let j = choose|j: int| 0 <= j < views(v@).len() && views(v@)[j] == s@;
            assert(v@[j]@ == s@);
        }
    }
    false
}

/// Whether `a` and `b` hold the same characters.
pub fn str_eq(a: &str, b: &str) -> (r: bool)
    ensures
        r == (a@ == b@),
{
    String::from_str(a) == String::from_str(b)
}


/// Splitting at `c` and joining the pieces with `c` gives the text back,
/// and no piece holds `c`.
pub proof fn lemma_split_join(s: Seq<char>, c: char)
    ensures
        join(split(s, c), seq![c]) == s,
        forall|i: int| 0 <= i < split(s, c).len() ==> !(#[trigger] split(s, c)[i]).contains(c),
    decreases s.len(),
{
    if s.len() == 0 {
        assert(split(s, c)[0] =~= Seq::<char>::empty());
        assert(join(split(s, c), seq![c]) =~= s);
    } else {
        let p = s.drop_last();
        let r = split(p, c);
        lemma_split_join(p, c);
        lemma_split_nonempty(p, c);
        if s.last() == c {
            let t = r.push(Seq::<char>::empty());
            assert(t.drop_last() =~= r);
            assert(join(t, seq![c]) =~= s);
            assert forall|i: int| 0 <= i < t.len() implies !(#[trigger] t[i]).contains(c) by {
                if i < r.len() {
                    assert(t[i] == r[i]);
                }
            }
        } else {
            let t = r.update(r.len() - 1, r.last().push(s.last()));
            if r.len() == 1 {
                assert(join(t, seq![c]) =~= s);
            } else {
                assert(t.drop_last() =~= r.drop_last());
                assert(t.last() == r.last().push(s.last()));
                assert(join(r, seq![c]) == join(r.drop_last(), seq![c]) + seq![c] + r.last());
                assert(join(t, seq![c]) == join(r.drop_last(), seq![c]) + seq![c] + r.last().push(
                    s.last(),
                ));
                assert(s =~= p.push(s.last()));
                assert(join(t, seq![c]) =~= s);
            }
            assert forall|i: int| 0 <= i < t.len() implies !(#[trigger] t[i]).contains(c) by {
                if i < r.len() - 1 {
                    assert(t[i] == r[i]);
                } else {
                    assert(!r[i].contains(c));
                    if t[i].contains(c) {
                        let k = choose|k: int| 0 <= k < t[i].len() && t[i][k] == c;
                        if k < r[i].len() {
                            assert(r[i][k] == c);
                        }
                    }
                }
            }
        }
    }
}

/// Removing a text never brings in a character that was not there, and
/// leaves a text alone when one of the removed text's characters (the one
/// at `j`) does not occur in it.
pub proof fn lemma_remove_all_keeps_out(s: Seq<char>, p: Seq<char>, d: char, j: int)
    requires
        p.len() > 0,
    ensures
        !s.contains(d) ==> !remove_all(s, p).contains(d),
        0 <= j < p.len() && !s.contains(p[j]) ==> remove_all(s, p) == s,
    decreases s.len(),
{
    if s.len() > 0 {
        if p.len() <= s.len() && s.take(p.len() as int) == p {
            lemma_remove_all_keeps_out(s.skip(p.len() as int), p, d, j);
            if 0 <= j < p.len() {
                assert(s.take(p.len() as int)[j] == s[j]);
            }
            if !s.contains(d) {
                assert forall|k: int| 0 <= k < s.skip(p.len() as int).len() implies s.skip(
                    p.len() as int,
                )[k] != d by {
                    assert(s.skip(p.len() as int)[k] == s[k + p.len()]);
                }
            }
        } else {
            let t = s.drop_first();
            lemma_remove_all_keeps_out(t, p, d, j);
            assert forall|k: int| 0 <= k < t.len() implies t[k] != d || s.contains(d) by {
                assert(t[k] == s[k + 1]);
            }
            if 0 <= j < p.len() {
                assert forall|k: int| 0 <= k < t.len() implies t[k] != p[j] || s.contains(p[j]) by {
                    assert(t[k] == s[k + 1]);
                }
            }
            let r = seq![s[0]] + remove_all(t, p);
            if !s.contains(d) {
                assert forall|k: int| 0 <= k < r.len() implies r[k] != d by {
                    if k == 0 {
                        assert(s[0] != d);
                    } else {
                        assert(r[k] == remove_all(t, p)[k - 1]);
                    }
                }
            }
            if 0 <= j < p.len() && !s.contains(p[j]) {
                assert(r =~= s);
            }
        }
    }
}

/// Removing a one-character text removes every occurrence of the character.
pub proof fn lemma_remove_char(s: Seq<char>, c: char)
    ensures
        !remove_all(s, seq![c]).contains(c),
    decreases s.len(),
{
    if s.len() > 0 {
        let p = seq![c];
        if s.take(1) == p {
            lemma_remove_char(s.skip(1), c);
        } else {
            lemma_remove_char(s.drop_first(), c);
            assert(s[0] != c) by {
                if s[0] == c {
                    assert(s.take(1) =~= p);
                }
            }
            let r = seq![s[0]] + remove_all(s.drop_first(), p);
            assert forall|k: int| 0 <= k < r.len() implies r[k] != c by {
                if k > 0 {
                    assert(r[k] == remove_all(s.drop_first(), p)[k - 1]);
                }
            }
        }
    }
}

} // verus!
