//! Edges between two vertices: what the count of shared edges says of the
//! edge table, and how an edge that is asked for changes the store.

use crate::graph::SCAN_LIMIT;
use crate::model::{among, entering, leaving, EdgeRow, Store};
use crate::sequences::{
    filter_insert, filter_items, filter_keeps_distinct, filter_none, same_items_same_length,
};
use crate::shape::{inserted_distinct, inserted_items};
use vstd::prelude::*;

verus! {

/// The edges from `source` to `target`.
pub open spec fn between(source: u128, target: u128) -> spec_fn(EdgeRow) -> bool {
    |e: EdgeRow| e.outbound == source && e.inbound == target
}

impl Store {
    /// How many edges lead from `source` to `target`.
    pub open spec fn links_between(self, source: u128, target: u128) -> nat {
        self.edges.filter(between(source, target)).len()
    }

    /// The edges at one vertex are those that leave or enter it.
    pub proof fn touching_one(self, id: u128, outward: bool)
        ensures
            self.touching(seq![id], outward) == (if outward {
                self.outgoing(id)
            } else {
                self.incoming(id)
            }),
    {
        let ids = seq![id];
        assert(ids.drop_last() =~= Seq::<u128>::empty());
        assert(ids.last() == id);
        assert(self.touching(ids.drop_last(), outward) =~= Seq::<EdgeRow>::empty());
        let one = if outward { self.outgoing(id) } else { self.incoming(id) };
        assert(Seq::<EdgeRow>::empty() + one =~= one);
    }

    /// **The count of shared edges is the number of edges between.** In a
    /// store of good shape whose edge tables a listing walks to their end,
    /// the edges into `target` that are among the edges out of `source` are
    /// the edges from `source` to `target`.
    pub proof fn shared_counts_links(self, target: u128, source: u128)
        requires
            self.well_formed(),
            self.has_room(0, 0),
        ensures
            self.shared(target, source, SCAN_LIMIT as nat) == self.links_between(source, target),
    {
        let limit = SCAN_LIMIT as nat;
        self.touching_one(target, false);
        self.touching_one(source, true);
        let into = self.incoming(target);
        let out = self.outgoing(source);
        self.reversed.lemma_filter_len(entering(target));
        self.edges.lemma_filter_len(leaving(source));
        assert(self.listed_edges(seq![target], false, limit) == into);
        assert(self.listed_edges(seq![source], true, limit) == out);
        let both = into.filter(among(out));
        let direct = self.edges.filter(between(source, target));
        filter_items(self.edges, between(source, target));
        filter_items(into, among(out));
        filter_items(self.reversed, entering(target));
        filter_items(self.edges, leaving(source));
        filter_keeps_distinct(self.edges, between(source, target));
        if self.has_vertex(target) && self.has_vertex(source) {
            filter_keeps_distinct(self.reversed, entering(target));
            filter_keeps_distinct(into, among(out));
            assert forall|x: EdgeRow| both.contains(x) <==> direct.contains(x) by {
                if both.contains(x) {
                    assert(into.contains(x) && among(out)(x));
                    assert(out.contains(x));
                }
                if direct.contains(x) {
                    assert(self.edges.contains(x) && between(source, target)(x));
                    assert(self.reversed.contains(x));
                    assert(into.contains(x));
                    assert(out.contains(x));
                    assert(among(out)(x));
                }
            }
            same_items_same_length(both, direct);
        } else {
            assert forall|i: int| 0 <= i < self.edges.len() implies !between(source, target)(
                #[trigger] self.edges[i],
            ) by {
                assert(self.has_vertex(self.edges[i].outbound));
                assert(self.has_vertex(self.edges[i].inbound));
            }
            filter_none(self.edges, between(source, target));
            assert forall|i: int| 0 <= i < into.len() implies !among(out)(#[trigger] into[i]) by {
                assert(into.contains(into[i]));
            }
            filter_none(into, among(out));
        }
    }

    /// A vertex that does not exist has no edge, in a store of good shape.
    pub proof fn stranger_has_no_edge(self, id: u128, p: spec_fn(EdgeRow) -> bool)
        requires
            self.well_formed(),
            !self.has_vertex(id),
            forall|e: EdgeRow| p(e) ==> e.outbound == id || e.inbound == id,
        ensures
            self.edges.filter(p).len() == 0,
    {
        assert forall|i: int| 0 <= i < self.edges.len() implies !p(#[trigger] self.edges[i]) by {
            assert(self.has_vertex(self.edges[i].outbound));
            assert(self.has_vertex(self.edges[i].inbound));
        }
        filter_none(self.edges, p);
    }

    /// What a store of good shape looks like after an edge between two of
    /// its vertices has been asked for: the edge is there, once; where it was
    /// missing, each count of edges that it falls under has grown by one.
    pub proof fn after_gain_of_edge(self, after: Store, e: EdgeRow, p: spec_fn(EdgeRow) -> bool)
        requires
            self.well_formed(),
            self.has_vertex(e.outbound),
            self.has_vertex(e.inbound),
            self.gains_edge(after, e),
        ensures
            after.well_formed(),
            after.vertices == self.vertices,
            after.properties == self.properties,
            after.edges.contains(e),
            self.edges.contains(e) ==> after == self,
            after.edges.filter(p).len() == self.edges.filter(p).len() + (if p(e)
                && !self.edges.contains(e) {
                1int
            } else {
                0int
            }),
            after.edges.len() <= self.edges.len() + 1,
            after.reversed.len() <= self.reversed.len() + 1,
    {
        if self.edges.contains(e) {
            assert(self.reversed.contains(e));
            assert(after.edges == self.edges);
            assert(after.reversed == self.reversed);
        } else {
            assert(!self.reversed.contains(e));
            inserted_items(self.edges, after.edges, e);
            inserted_items(self.reversed, after.reversed, e);
            inserted_distinct(self.edges, after.edges, e);
            inserted_distinct(self.reversed, after.reversed, e);
            let k = choose|k: int|
                0 <= k <= self.edges.len() && after.edges == #[trigger] self.edges.insert(k, e);
            filter_insert(self.edges, k, e, p);
            assert forall|i: int| 0 <= i < after.edges.len() implies {
                &&& after.has_vertex((#[trigger] after.edges[i]).outbound)
                &&& after.has_vertex(after.edges[i].inbound)
            } by {
                if i != k {
                    let bi = if i < k { i } else { i - 1 };
                    assert(self.edges[bi] == after.edges[i]);
                    assert(self.has_vertex(self.edges[bi].outbound));
                    assert(self.has_vertex(self.edges[bi].inbound));
                }
            }
            assert forall|i: int| 0 <= i < after.properties.len() implies after.has_vertex(
                (#[trigger] after.properties[i]).id,
            ) by {
                assert(self.has_vertex(self.properties[i].id));
            }
        }
    }

    /// An edge that is asked for keeps the shape of the store.
    pub proof fn gain_of_edge_keeps_shape(self, after: Store, e: EdgeRow)
        requires
            self.well_formed(),
            self.gains_edge(after, e),
        ensures
            after.well_formed(),
    {
        if self.has_vertex(e.outbound) && self.has_vertex(e.inbound) {
            self.after_gain_of_edge(after, e, leaving(e.outbound));
        } else {
            assert forall|i: int| 0 <= i < after.properties.len() implies after.has_vertex(
                (#[trigger] after.properties[i]).id,
            ) by {
                assert(self.has_vertex(self.properties[i].id));
            }
            assert forall|i: int| 0 <= i < after.edges.len() implies {
                &&& after.has_vertex((#[trigger] after.edges[i]).outbound)
                &&& after.has_vertex(after.edges[i].inbound)
            } by {
                assert(self.has_vertex(self.edges[i].outbound));
                assert(self.has_vertex(self.edges[i].inbound));
            }
        }
    }

    /// What a store of good shape looks like after tag and item have been
    /// joined: vertices and properties are as before, the listings share an
    /// edge from tag to item, and the edges from tag to item are those that
    /// were there, or the one new edge where there was none.
    pub proof fn after_joins(self, after: Store, tag_id: u128, item_id: u128)
        requires
            self.well_formed(),
            self.has_room(0, 1),
            self.has_vertex(tag_id),
            self.has_vertex(item_id),
            self.joins(after, tag_id, item_id),
        ensures
            after.well_formed(),
            after.has_room(0, 0),
            after.vertices == self.vertices,
            after.properties == self.properties,
            after.edges.len() <= self.edges.len() + 1,
            after.reversed.len() <= self.reversed.len() + 1,
            after.shared(item_id, tag_id, SCAN_LIMIT as nat) > 0,
            after.links_between(tag_id, item_id) == (if self.links_between(tag_id, item_id) == 0 {
                1
            } else {
                self.links_between(tag_id, item_id)
            }),
            self.links_between(tag_id, item_id) > 0 ==> after == self,
            forall|id: u128|
                after.edges.filter(leaving(id)).len() == self.edges.filter(leaving(id)).len() + (
                if id == tag_id && self.links_between(tag_id, item_id) == 0 {
                    1int
                } else {
                    0int
                }),
    {
        self.shared_counts_links(item_id, tag_id);
        if self.shared(item_id, tag_id, SCAN_LIMIT as nat) == 0 {
            let e = EdgeRow {
                outbound: tag_id,
                kind: crate::tagging::edge_kind(),
                inbound: item_id,
            };
            filter_items(self.edges, between(tag_id, item_id));
            if self.edges.contains(e) {
                assert(self.edges.filter(between(tag_id, item_id)).contains(e));
            }
            self.after_gain_of_edge(after, e, between(tag_id, item_id));
            assert forall|id: u128|
                after.edges.filter(leaving(id)).len() == self.edges.filter(leaving(id)).len() + (
                if id == tag_id && self.links_between(tag_id, item_id) == 0 {
                    1int
                } else {
                    0int
                }) by {
                self.after_gain_of_edge(after, e, leaving(id));
            }
            after.shared_counts_links(item_id, tag_id);
        }
    }
}

} // verus!
