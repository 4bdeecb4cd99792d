//! What one step of a frontier reaches: the vertices that share a target
//! with a vertex of the frontier.

use crate::graph::SCAN_LIMIT;
use crate::model::{entering, leaving, EdgeRow, Store};
use crate::sequences::filter_items;
use crate::traverse::{distinct, head, tail};
use vstd::prelude::*;

verus! {

/// `distinct` keeps every value, once.
pub proof fn distinct_keeps_each_once(s: Seq<u128>)
    ensures
        distinct(s).no_duplicates(),
        distinct(s).len() <= s.len(),
        forall|x: u128| #[trigger] distinct(s).contains(x) <==> s.contains(x),
    decreases s.len(),
{
    if s.len() > 0 {
        let rest = s.drop_last();
        distinct_keeps_each_once(rest);
        let kept = distinct(rest);
        let out = distinct(s);
        assert forall|x: u128| #[trigger] out.contains(x) <==> s.contains(x) by {
            assert(distinct(rest).contains(x) <==> rest.contains(x));
            if out.contains(x) {
                let i = choose|i: int| 0 <= i < out.len() && out[i] == x;
                if i < kept.len() {
                    assert(kept[i] == x);
                    assert(kept.contains(x));
                    let j = choose|j: int| 0 <= j < rest.len() && rest[j] == x;
                    assert(s[j] == x);
                } else {
                    assert(s[s.len() - 1] == x);
                }
            }
            if s.contains(x) {
                let j = choose|j: int| 0 <= j < s.len() && s[j] == x;
                if j < rest.len() {
                    assert(rest[j] == x);
                    assert(kept.contains(x));
                    let i = choose|i: int| 0 <= i < kept.len() && kept[i] == x;
                    assert(out[i] == x);
                } else if kept.contains(x) {
                    let i = choose|i: int| 0 <= i < kept.len() && kept[i] == x;
                    assert(out[i] == x);
                } else {
                    assert(out[out.len() - 1] == x);
                }
            }
        }
        if !kept.contains(s.last()) {
            assert forall|i: int, j: int| 0 <= i < out.len() && 0 <= j < out.len() && i != j implies out[i]
                != out[j] by {
                if i < kept.len() && j < kept.len() {
                } else if i < kept.len() {
                    assert(kept.contains(out[i]));
                } else {
                    assert(kept.contains(out[j]));
                }
            }
        }
    }
}

impl Store {
    /// From `v` and from a vertex of `frontier`, an edge leads to one and the
    /// same vertex.
    pub open spec fn shares_a_target(self, frontier: Seq<u128>, v: u128) -> bool {
        exists|out: EdgeRow, back: EdgeRow|
            {
                &&& #[trigger] self.edges.contains(out)
                &&& #[trigger] self.edges.contains(back)
                &&& frontier.contains(out.outbound)
                &&& back.inbound == out.inbound
                &&& back.outbound == v
            }
    }

    /// The edges at one end of the vertices `ids`, in a store of good shape:
    /// the edges of the store that leave one of them, or enter one of them.
    pub proof fn touching_lists_the_edges(self, ids: Seq<u128>, outward: bool)
        requires
            self.well_formed(),
        ensures
            forall|e: EdgeRow|
                #![trigger self.touching(ids, outward).contains(e)]
                #![trigger self.edges.contains(e)]
                self.touching(ids, outward).contains(e) <==> self.edges.contains(e)
                    && ids.contains(if outward {
                    e.outbound
                } else {
                    e.inbound
                }),
        decreases ids.len(),
    {
        if ids.len() > 0 {
            let rest = ids.drop_last();
            let id = ids.last();
            self.touching_lists_the_edges(rest, outward);
            let before = self.touching(rest, outward);
            let here = if outward { self.outgoing(id) } else { self.incoming(id) };
            filter_items(self.edges, leaving(id));
            filter_items(self.reversed, entering(id));
            assert forall|e: EdgeRow|
                self.touching(ids, outward).contains(e) <==> self.edges.contains(e) && ids.contains(
                    if outward {
                        e.outbound
                    } else {
                        e.inbound
                    },
                ) by {
                let end = if outward { e.outbound } else { e.inbound };
                let all = before + here;
                assert(before.contains(e) <==> self.edges.contains(e) && rest.contains(end));
                assert(self.touching(ids, outward) == all);
                if all.contains(e) {
                    let i = choose|i: int| 0 <= i < all.len() && all[i] == e;
                    if i < before.len() {
                        assert(before[i] == e);
                        assert(before.contains(e));
                        let j = choose|j: int| 0 <= j < rest.len() && rest[j] == end;
                        assert(ids[j] == end);
                    } else {
                        assert(here[i - before.len()] == e);
                        assert(here.contains(e));
                        if outward {
                            assert(self.edges.filter(leaving(id)).contains(e));
                        } else {
                            assert(self.reversed.filter(entering(id)).contains(e));
                        }
                        assert(ids[ids.len() - 1] == end);
                    }
                }
                if self.edges.contains(e) && ids.contains(end) {
                    let j = choose|j: int| 0 <= j < ids.len() && ids[j] == end;
                    if j < rest.len() {
                        assert(rest[j] == end);
                        assert(before.contains(e));
                        let i = choose|i: int| 0 <= i < before.len() && before[i] == e;
                        assert(all[i] == e);
                    } else {
                        let k = choose|k: int| 0 <= k < self.edges.len() && self.edges[k] == e;
                        assert(self.has_vertex(self.edges[k].outbound));
                        assert(self.has_vertex(self.edges[k].inbound));
                        assert(self.reversed.contains(e));
                        if outward {
                            assert(self.edges.filter(leaving(id)).contains(e));
                        } else {
                            assert(self.reversed.filter(entering(id)).contains(e));
                        }
                        assert(here.contains(e));
                        let i = choose|i: int| 0 <= i < here.len() && here[i] == e;
                        assert(all[before.len() + i] == e);
                    }
                }
            }
        }
    }

    /// **One step reaches the vertices that share a target.** In a store of
    /// good shape, where no listing of the step is cut, a step from
    /// `frontier` lists each vertex once, and lists exactly the vertices from
    /// which an edge leads to a vertex to which an edge leads from the
    /// frontier.
    pub proof fn step_reaches_what_shares_a_target(self, frontier: Seq<u128>, max: nat)
        requires
            self.well_formed(),
            self.touching(frontier, true).len() <= SCAN_LIMIT,
            self.touching(self.targets(frontier), false).len() <= SCAN_LIMIT,
            distinct(self.sources(self.targets(frontier))).len() <= max,
        ensures
            self.step(frontier, max).no_duplicates(),
            forall|v: u128|
                self.step(frontier, max).contains(v) <==> self.shares_a_target(frontier, v),
    {
        let out = self.touching(frontier, true);
        let targets = self.targets(frontier);
        let back = self.touching(targets, false);
        let sources = self.sources(targets);
        assert(targets == out.map_values(head()));
        assert(sources == back.map_values(tail()));
        self.touching_lists_the_edges(frontier, true);
        self.touching_lists_the_edges(targets, false);
        distinct_keeps_each_once(sources);
        assert forall|v: u128|
            self.step(frontier, max).contains(v) <==> self.shares_a_target(frontier, v) by {
            if sources.contains(v) {
                let i = choose|i: int| 0 <= i < sources.len() && sources[i] == v;
                let b = back[i];
                assert(back.contains(b));
                assert(targets.contains(b.inbound));
                let j = choose|j: int| 0 <= j < targets.len() && targets[j] == b.inbound;
                let o = out[j];
                assert(out.contains(o));
                assert(self.edges.contains(o) && self.edges.contains(b));
            }
            if self.shares_a_target(frontier, v) {
                let (o, b) = choose|o: EdgeRow, b: EdgeRow|
                    {
                        &&& #[trigger] self.edges.contains(o)
                        &&& #[trigger] self.edges.contains(b)
                        &&& frontier.contains(o.outbound)
                        &&& b.inbound == o.inbound
                        &&& b.outbound == v
                    };
                assert(out.contains(o));
                let j = choose|j: int| 0 <= j < out.len() && out[j] == o;
                assert(targets[j] == o.inbound);
                assert(targets.contains(b.inbound));
                assert(back.contains(b));
                let i = choose|i: int| 0 <= i < back.len() && back[i] == b;
                assert(sources[i] == v);
            }
        }
    }
}

} // verus!
