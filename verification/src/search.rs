//! The lazy cross-page content search.
//!
//! A search walks the content map's iteration order page by page and each
//! page's sections in order, yielding the pairs whose section text matches
//! the rule. The cursor is a two-level position (page slot, section slot);
//! each step scans forward from the cursor to the first match, leaves the
//! cursor just past it, and touches nothing beyond. A drained cursor parks
//! at the end and yields nothing more.

use vstd::prelude::*;

use crate::entity::Entity;
use crate::model::Model;
use crate::pattern::{regex_found, SearchRule};

verus! {

/// Cursor order: `(o1, i1)` is at or before `(o2, i2)`.
pub open spec fn pos_le(o1: int, i1: int, o2: int, i2: int) -> bool {
    o1 < o2 || (o1 == o2 && i1 <= i2)
}

/// Cursor order: `(o1, i1)` is strictly before `(o2, i2)`.
pub open spec fn pos_lt(o1: int, i1: int, o2: int, i2: int) -> bool {
    o1 < o2 || (o1 == o2 && i1 < i2)
}

/// Whether position `(o, i)` of the search walk holds a match: `o` names a
/// page with content, `i` one of its sections, and the rule written as
/// `pat` matches that section's text.
pub open spec fn match_at<D, R>(m: Model<D, R>, pat: Seq<char>, o: int, i: int) -> bool {
    &&& 0 <= o < m.content_keys().len()
    &&& 0 <= i < m.content_of(m.content_keys()[o]).len()
    &&& regex_found(pat, m.section_at(m.content_of(m.content_keys()[o])[i]).title@)
}

/// No position from `(o1, i1)` inclusive up to `(o2, i2)` exclusive holds a
/// match.
pub open spec fn no_match_between<D, R>(
    m: Model<D, R>,
    pat: Seq<char>,
    o1: int,
    i1: int,
    o2: int,
    i2: int,
) -> bool {
    forall|o: int, i: int|
        pos_le(o1, i1, o, i) && pos_lt(o, i, o2, i2) ==> !(#[trigger] match_at(m, pat, o, i))
}

/// Beyond the end of the content map there is no match, so a cursor parked
/// at the end yields nothing more, however often it is stepped.
pub proof fn lemma_search_exhausted<D, R>(m: Model<D, R>, pat: Seq<char>, o: int, i: int)
    requires
        o >= m.content_keys().len(),
    ensures
        forall|o2: int, i2: int|
            pos_le(o, i, o2, i2) ==> !(#[trigger] match_at(m, pat, o2, i2)),
{
}

/// A lazy, single-pass, non-restartable cursor over the pages with content.
pub struct SearchIter {
    outer: usize,
    inner: usize,
}

impl SearchIter {
    /// The page-level cursor position.
    pub closed spec fn cursor_outer(self) -> int {
        self.outer as int
    }

    /// The section-level cursor position within the current page.
    pub closed spec fn cursor_inner(self) -> int {
        self.inner as int
    }

    /// The cursor position, page slot first.
    pub fn position(&self) -> (r: (usize, usize))
        ensures
            r.0 == self.cursor_outer(),
            r.1 == self.cursor_inner(),
    {
        (self.outer, self.inner)
    }

    /// Steps the search: scans forward from the cursor and returns the
    /// first `(page, section)` pair at or after it whose section matches
    /// the rule, leaving the cursor just past that pair; or nothing, with
    /// the cursor parked at the end, when no match remains.
    pub fn next<D, R>(&mut self, model: &Model<D, R>, rule: &SearchRule) -> (r: Option<
        (Entity, Entity),
    >)
        requires
            model.wf(),
        ensures
            match r {
                Some(pair) => {
                    &&& final(self).cursor_inner() >= 1
                    &&& pos_le(
                        old(self).cursor_outer(),
                        old(self).cursor_inner(),
                        final(self).cursor_outer(),
                        final(self).cursor_inner() - 1,
                    )
                    &&& match_at(
                        *model,
                        rule.pat(),
                        final(self).cursor_outer(),
                        final(self).cursor_inner() - 1,
                    )
                    &&& no_match_between(
                        *model,
                        rule.pat(),
                        old(self).cursor_outer(),
                        old(self).cursor_inner(),
                        final(self).cursor_outer(),
                        final(self).cursor_inner() - 1,
                    )
                    &&& pair.0 == model.content_keys()[final(self).cursor_outer()]
                    &&& pair.1 == model.content_of(pair.0)[final(self).cursor_inner() - 1]
                },
                None => {
                    &&& forall|o: int, i: int|
                        pos_le(old(self).cursor_outer(), old(self).cursor_inner(), o, i) ==> !(
                        #[trigger] match_at(*model, rule.pat(), o, i))
                    &&& final(self).cursor_outer() == model.content_keys().len()
                    &&& final(self).cursor_inner() == 0
                },
            },
    {
        let n = model.content_len();
        let ghost o0 = self.outer as int;
        let ghost i0 = self.inner as int;
        let mut o = self.outer;
        let mut i = self.inner;
        while o < n
            invariant
                model.wf(),
                n == model.content_keys().len(),
                o0 == old(self).cursor_outer(),
                i0 == old(self).cursor_inner(),
                pos_le(o0, i0, o as int, i as int),
                no_match_between(*model, rule.pat(), o0, i0, o as int, i as int),
            decreases n - o,
        {
            let entry = model.content_entry(o);
            let p = entry.0;
            let row = entry.1;
            let m = row.len();
            while i < m
                invariant
                    model.wf(),
                    n == model.content_keys().len(),
                    o0 == old(self).cursor_outer(),
                    i0 == old(self).cursor_inner(),
                    o < n,
                    p == model.content_keys()[o as int],
                    model.has_content(p),
                    row@ == model.content_of(p),
                    m == row@.len(),
                    forall|j: int| 0 <= j < row@.len() ==> model.has_section(#[trigger] row@[j]),
                    pos_le(o0, i0, o as int, i as int),
                    no_match_between(*model, rule.pat(), o0, i0, o as int, i as int),
                decreases m - i,
            {
                let sid = row[i];
                let sec = match model.section(sid) {
                    Some(s) => s,
                    None => vstd::pervasive::unreached(),
                };
                if rule.is_match(sec.title.as_str()) {
                    self.outer = o;
                    self.inner = i + 1;
                    return Some((p, sid));
                }
                proof {
                    assert(!match_at(*model, rule.pat(), o as int, i as int));
                    assert forall|o2: int, i2: int|
                        pos_le(o0, i0, o2, i2) && pos_lt(o2, i2, o as int, i as int + 1) implies !(
                    #[trigger] match_at(*model, rule.pat(), o2, i2)) by {
                        if !pos_lt(o2, i2, o as int, i as int) {
                            assert(o2 == o as int && i2 == i as int);
                        }
                    }
                }
                i = i + 1;
            }
            proof {
                assert forall|o2: int, i2: int|
                    pos_le(o0, i0, o2, i2) && pos_lt(o2, i2, o as int + 1, 0) implies !(
                #[trigger] match_at(*model, rule.pat(), o2, i2)) by {
                    if 0 <= i2 && !pos_lt(o2, i2, o as int, i as int) {
                        assert(o2 == o as int && i2 >= i as int);
                        assert(i2 >= row@.len());
                    }
                }
            }
            o = o + 1;
            i = 0;
        }
        proof {
            assert forall|o2: int, i2: int| pos_le(o0, i0, o2, i2) implies !(#[trigger] match_at(
                *model,
                rule.pat(),
                o2,
                i2,
            )) by {
                if !pos_lt(o2, i2, o as int, i as int) {
                    assert(o2 >= n);
                }
            }
        }
        self.outer = n;
        self.inner = 0;
        None
    }
}

impl<D, R> Model<D, R> {
    /// Finds content of pages that match the search: returns a fresh cursor
    /// positioned at the start of the walk.
    pub fn search(&self) -> (it: SearchIter)
        ensures
            it.cursor_outer() == 0,
            it.cursor_inner() == 0,
    {
        SearchIter { outer: 0, inner: 0 }
    }
}

} // verus!
