//! Character-level helpers over `str` values, stated over their `Seq<char>` views.
use vstd::prelude::*;

verus! {

/// The characters that `char::is_whitespace` accepts (Unicode `White_Space`).
pub open spec fn is_ws(c: char) -> bool {
    ('\u{9}' <= c && c <= '\u{d}') || c == ' ' || c == '\u{85}' || c == '\u{a0}'
        || c == '\u{1680}' || ('\u{2000}' <= c && c <= '\u{200a}') || c == '\u{2028}'
        || c == '\u{2029}' || c == '\u{202f}' || c == '\u{205f}' || c == '\u{3000}'
}

pub fn is_ws_char(c: char) -> (r: bool)
    ensures
        r == is_ws(c),
{
    ('\u{9}' <= c && c <= '\u{d}') || c == ' ' || c == '\u{85}' || c == '\u{a0}'
        || c == '\u{1680}' || ('\u{2000}' <= c && c <= '\u{200a}') || c == '\u{2028}'
        || c == '\u{2029}' || c == '\u{202f}' || c == '\u{205f}' || c == '\u{3000}'
}

/// `s` with leading whitespace removed.
pub open spec fn trim_start(s: Seq<char>) -> Seq<char>
    decreases s.len(),
{
    if s.len() > 0 && is_ws(s[0]) {
        trim_start(s.drop_first())
    } else {
        s
    }
}

/// `s` with trailing whitespace removed.
pub open spec fn trim_end(s: Seq<char>) -> Seq<char>
    decreases s.len(),
{
    if s.len() > 0 && is_ws(s.last()) {
        trim_end(s.drop_last())
    } else {
        s
    }
}

/// `s` with whitespace removed at both ends, as `str::trim` does.
pub open spec fn trim(s: Seq<char>) -> Seq<char> {
    trim_end(trim_start(s))
}

/// The pieces of `s` between occurrences of `sep`, as `str::split` yields them:
/// an empty `s` gives one empty piece, and each separator starts a new piece.
pub open spec fn split(s: Seq<char>, sep: char) -> Seq<Seq<char>>
    decreases s.len(),
{
    if s.len() == 0 {
        seq![Seq::<char>::empty()]
    } else {
        let p = split(s.drop_last(), sep);
        if s.last() == sep {
            p.push(Seq::<char>::empty())
        } else {
            p.update(p.len() - 1, p.last().push(s.last()))
        }
    }
}

proof fn lemma_split_nonempty(s: Seq<char>, sep: char)
    ensures
        split(s, sep).len() >= 1,
    decreases s.len(),
{
    if s.len() > 0 {
        lemma_split_nonempty(s.drop_last(), sep);
    }
}

/// The character ranges of the pieces of `s[a..b]` between occurrences of `sep`.
pub fn split_ranges(s: &str, a: usize, b: usize, sep: char) -> (r: Vec<(usize, usize)>)
    requires
        a <= b <= s@.len(),
    ensures
        r@.len() == split(s@.subrange(a as int, b as int), sep).len(),
        forall|k: int|
            0 <= k < r@.len() ==> a <= #[trigger] r@[k].0 <= r@[k].1 <= b && s@.subrange(
                r@[k].0 as int,
                r@[k].1 as int,
            ) == split(s@.subrange(a as int, b as int), sep)[k],
{
    let mut r: Vec<(usize, usize)> = Vec::new();
    let mut start: usize = a;
    let mut i: usize = a;
    proof {
        let m0 = r@.map_values(|p: (usize, usize)| s@.subrange(p.0 as int, p.1 as int));
        assert(m0.len() == 0);
        assert(s@.subrange(a as int, a as int) =~= Seq::<char>::empty());
        assert(split(s@.subrange(a as int, a as int), sep) =~= seq![Seq::<char>::empty()]);
        assert(m0.push(s@.subrange(a as int, a as int)) =~= seq![Seq::<char>::empty()]);
    }
    while i < b
        invariant
            a <= start <= i <= b <= s@.len(),
            split(s@.subrange(a as int, i as int), sep) =~= r@.map_values(
                |p: (usize, usize)| s@.subrange(p.0 as int, p.1 as int),
            ).push(s@.subrange(start as int, i as int)),
            forall|k: int| 0 <= k < r@.len() ==> a <= #[trigger] r@[k].0 <= r@[k].1 <= start,
        decreases b - i,
    {
        let c = s.get_char(i);
        let ghost pre = s@.subrange(a as int, i as int);
        let ghost cur = s@.subrange(a as int, i as int + 1);
        assert(cur.drop_last() =~= pre);
        assert(cur.last() == c);
        if c == sep {
            r.push((start, i));
            start = i + 1;
            assert(s@.subrange(start as int, i as int + 1) =~= Seq::<char>::empty());
        } else {
            assert(s@.subrange(start as int, i as int + 1) =~= s@.subrange(
                start as int,
                i as int,
            ).push(c));
        }
        i = i + 1;
    }
    r.push((start, b));
    assert(s@.subrange(a as int, b as int) =~= s@.subrange(a as int, i as int));
    proof {
        let m = r@.map_values(|p: (usize, usize)| s@.subrange(p.0 as int, p.1 as int));
        assert forall|k: int| 0 <= k < r@.len() implies s@.subrange(
            r@[k].0 as int,
            r@[k].1 as int,
        ) == split(s@.subrange(a as int, b as int), sep)[k] by {
            assert(m[k] == s@.subrange(r@[k].0 as int, r@[k].1 as int));
        }
    }
    r
}

/// The range of `s[a..b]` that remains after trimming whitespace at both ends.
pub fn trim_range(s: &str, a: usize, b: usize) -> (r: (usize, usize))
    requires
        a <= b <= s@.len(),
    ensures
        a <= r.0 <= r.1 <= b,
        s@.subrange(r.0 as int, r.1 as int) == trim(s@.subrange(a as int, b as int)),
{
    let mut i: usize = a;
    while i < b && is_ws_char(s.get_char(i))
        invariant
            a <= i <= b <= s@.len(),
            trim_start(s@.subrange(a as int, b as int)) == trim_start(
                s@.subrange(i as int, b as int),
            ),
        decreases b - i,
    {
        assert(s@.subrange(i as int, b as int).drop_first() =~= s@.subrange(
            i as int + 1,
            b as int,
        ));
        i = i + 1;
    }
    let mut j: usize = b;
    while j > i && is_ws_char(s.get_char(j - 1))
        invariant
            a <= i <= j <= b <= s@.len(),
            trim_end(s@.subrange(i as int, b as int)) == trim_end(s@.subrange(i as int, j as int)),
        decreases j - i,
    {
        assert(s@.subrange(i as int, j as int).drop_last() =~= s@.subrange(
            i as int,
            j as int - 1,
        ));
        j = j - 1;
    }
    (i, j)
}

/// Whether the characters `s[a..b]` are exactly those of `t`.
pub fn range_equals(s: &str, a: usize, b: usize, t: &str) -> (r: bool)
    requires
        a <= b <= s@.len(),
    ensures
        r == (s@.subrange(a as int, b as int) == t@),
{
    let n = t.unicode_len();
    if b - a != n {
        return false;
    }
    let mut k: usize = 0;
    while k < n
        invariant
            n == t@.len(),
            b - a == n,
            a <= b <= s@.len(),
            forall|m: int| 0 <= m < k ==> s@[a + m] == t@[m],
        decreases n - k,
    {
        if s.get_char(a + k) != t.get_char(k) {
            assert(s@.subrange(a as int, b as int)[k as int] != t@[k as int]);
            return false;
        }
        k = k + 1;
    }
    assert(s@.subrange(a as int, b as int) =~= t@);
    true
}

} // verus!
