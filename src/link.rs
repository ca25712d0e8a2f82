//! The pagination header: a comma-separated list of `<url>; rel="name"` segments.
use vstd::prelude::*;
use crate::text::{split, split_ranges, trim, trim_range, range_equals};

verus! {

/// The neighbouring pages named by a pagination header.
pub struct Link {
    pub prev: Option<String>,
    pub next: Option<String>,
}

/// A pagination header that does not have the expected shape.
#[derive(Debug, Clone, Copy, PartialEq, Eq, Structural)]
pub struct ParseError;

/// What a `Link` holds, as character sequences.
pub struct LinkModel {
    pub prev: Option<Seq<char>>,
    pub next: Option<Seq<char>>,
}

pub open spec fn opt_view(o: Option<String>) -> Option<Seq<char>> {
    match o {
        Some(s) => Some(s@),
        None => None,
    }
}

impl View for Link {
    type V = LinkModel;

    open spec fn view(&self) -> LinkModel {
        LinkModel { prev: opt_view(self.prev), next: opt_view(self.next) }
    }
}

pub open spec fn rel_next() -> Seq<char> {
    "rel=\"next\""@
}

pub open spec fn rel_prev() -> Seq<char> {
    "rel=\"prev\""@
}

/// One segment read as (url, relation): it must split on `;` into exactly two
/// parts; the first, trimmed, loses its first and last character (the angle
/// brackets), the second is the trimmed relation.
pub open spec fn segment_entry(seg: Seq<char>) -> Option<(Seq<char>, Seq<char>)> {
    let parts = split(seg, ';');
    if parts.len() != 2 {
        None
    } else {
        let url = trim(parts[0]);
        let rel = trim(parts[1]);
        if url.len() < 2 {
            None
        } else {
            Some((url.subrange(1, url.len() - 1), rel))
        }
    }
}

/// A later segment with the same relation replaces an earlier one; relations
/// other than `next` and `prev` are ignored.
pub open spec fn apply_entry(l: LinkModel, url: Seq<char>, rel: Seq<char>) -> LinkModel {
    LinkModel {
        prev: if rel == rel_prev() { Some(url) } else { l.prev },
        next: if rel == rel_next() { Some(url) } else { l.next },
    }
}

pub open spec fn fold_segments(segs: Seq<Seq<char>>) -> Option<LinkModel>
    decreases segs.len(),
{
    if segs.len() == 0 {
        Some(LinkModel { prev: None, next: None })
    } else {
        match fold_segments(segs.drop_last()) {
            None => None,
            Some(l) => match segment_entry(segs.last()) {
                None => None,
                Some(e) => Some(apply_entry(l, e.0, e.1)),
            },
        }
    }
}

/// The link a header value denotes, or `None` where a segment is malformed.
pub open spec fn link_of(s: Seq<char>) -> Option<LinkModel> {
    fold_segments(split(s, ','))
}

proof fn lemma_fold_none_extends(segs: Seq<Seq<char>>, k: int)
    requires
        0 <= k <= segs.len(),
        fold_segments(segs.take(k)) is None,
    ensures
        fold_segments(segs) is None,
    decreases segs.len() - k,
{
    if k < segs.len() {
        assert(segs.take(k + 1).drop_last() =~= segs.take(k));
        lemma_fold_none_extends(segs, k + 1);
    } else {
        assert(segs.take(k) =~= segs);
    }
}

/// Whether a segment reads as a `prev` relation.
pub open spec fn names_prev(seg: Seq<char>) -> bool {
    match segment_entry(seg) {
        Some(e) => e.1 == rel_prev(),
        None => false,
    }
}

proof fn lemma_fold_keeps_prev_absent(segs: Seq<Seq<char>>)
    requires
        fold_segments(segs) is Some,
        forall|j: int| 0 <= j < segs.len() ==> !names_prev(#[trigger] segs[j]),
    ensures
        fold_segments(segs)->0.prev is None,
    decreases segs.len(),
{
    if segs.len() > 0 {
        let init = segs.drop_last();
        assert forall|j: int| 0 <= j < init.len() implies !names_prev(#[trigger] init[j]) by {
            assert(init[j] == segs[j]);
        }
        lemma_fold_keeps_prev_absent(init);
        assert(!names_prev(segs[segs.len() - 1]));
    }
}

/// A header none of whose segments names a `prev` relation yields no
/// previous page.
pub proof fn lemma_no_prev_segment(s: Seq<char>)
    requires
        link_of(s) is Some,
        forall|j: int| 0 <= j < split(s, ',').len() ==> !names_prev(#[trigger] split(s, ',')[j]),
    ensures
        link_of(s)->0.prev is None,
{
    lemma_fold_keeps_prev_absent(split(s, ','));
}

/// Reads the segment `s[a..b]`; on success returns the url range and the relation range.
fn parse_segment(s: &str, a: usize, b: usize) -> (r: Option<(usize, usize, usize, usize)>)
    requires
        a <= b <= s@.len(),
    ensures
        match segment_entry(s@.subrange(a as int, b as int)) {
            None => r is None,
            Some(e) => r is Some && {
                let (ua, ub, ra, rb) = r->0;
                ua <= ub <= s@.len() && ra <= rb <= s@.len() && s@.subrange(ua as int, ub as int)
                    == e.0 && s@.subrange(ra as int, rb as int) == e.1
            },
        },
{
    let parts = split_ranges(s, a, b, ';');
    if parts.len() != 2 {
        return None;
    }
    let (ua, ub) = trim_range(s, parts[0].0, parts[0].1);
    let (ra, rb) = trim_range(s, parts[1].0, parts[1].1);
    if ub - ua < 2 {
        return None;
    }
    assert(s@.subrange(ua as int + 1, ub as int - 1) =~= s@.subrange(ua as int, ub as int).subrange(
        1,
        ub - ua - 1,
    ));
    Some((ua + 1, ub - 1, ra, rb))
}

/// Parses a pagination header value.
pub fn parse_link(link: String) -> (r: Result<Link, ParseError>)
    ensures
        match link_of(link@) {
            None => r is Err,
            Some(m) => r is Ok && r->Ok_0@ == m,
        },
{
    let s = link.as_str();
    let n = s.unicode_len();
    let segs = split_ranges(s, 0, n, ',');
    let ghost all = split(s@.subrange(0, n as int), ',');
    assert(s@.subrange(0, n as int) =~= s@);
    let mut prev: Option<String> = None;
    let mut next: Option<String> = None;
    let mut k: usize = 0;
    while k < segs.len()
        invariant
            segs@.len() == all.len(),
            all == split(s@, ','),
            s@ == link@,
            k <= segs@.len(),
            forall|j: int|
                0 <= j < segs@.len() ==> #[trigger] segs@[j].0 <= segs@[j].1 <= s@.len()
                    && s@.subrange(segs@[j].0 as int, segs@[j].1 as int) == all[j],
            fold_segments(all.take(k as int)) == Some(
                LinkModel { prev: opt_view(prev), next: opt_view(next) },
            ),
        decreases segs@.len() - k,
    {
        let (a, b) = segs[k];
        assert(all.take(k as int + 1).drop_last() =~= all.take(k as int));
        assert(all.take(k as int + 1).last() == all[k as int]);
        match parse_segment(s, a, b) {
            None => {
                proof {
                    lemma_fold_none_extends(all, k as int + 1);
                }
                return Err(ParseError);
            },
            Some((ua, ub, ra, rb)) => {
                if range_equals(s, ra, rb, "rel=\"prev\"") {
                    prev = Some(String::from_str(s.substring_char(ua, ub)));
                }
                if range_equals(s, ra, rb, "rel=\"next\"") {
                    next = Some(String::from_str(s.substring_char(ua, ub)));
                }
            },
        }
        k = k + 1;
    }
    assert(all.take(k as int) =~= all);
    Ok(Link { prev, next })
}

} // verus!
