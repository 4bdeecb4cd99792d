//! The law of deletion: what is gone once the vertices that hold a value
//! have been deleted.

use crate::graph::SCAN_LIMIT;
use crate::model::{capped, keyed, EdgeRow, PropertyRow, Store, Stored, VertexRow};
use crate::resolution::holder;
use crate::sequences::{
    filter_items, filter_keeps_distinct, filter_keeps_keys_distinct, filter_map_empty,
    filter_map_items, filter_twice,
};
use vstd::prelude::*;

verus! {

/// The identifier of a vertex.
pub open spec fn vertex_key() -> spec_fn(VertexRow) -> u128 {
    |v: VertexRow| v.id
}

/// The vertex and the name of a property.
pub open spec fn property_key() -> spec_fn(PropertyRow) -> (u128, Seq<char>) {
    |p: PropertyRow| (p.id, p.name)
}

impl Store {
    /// The vertices after a deletion: those that were there and were not
    /// asked for.
    pub proof fn vertices_after_deletion(self, ids: Seq<u128>)
        ensures
            forall|id: u128|
                self.without(ids).has_vertex(id) <==> self.has_vertex(id) && !ids.contains(id),
    {
        let after = self.without(ids);
        let kept = self.kept_vertex(ids);
        filter_items(self.vertices, kept);
        assert forall|id: u128| after.has_vertex(id) <==> self.has_vertex(id) && !ids.contains(
            id,
        ) by {
            if after.has_vertex(id) {
                let i = choose|i: int|
                    0 <= i < after.vertices.len() && (#[trigger] after.vertices[i]).id == id;
                assert(after.vertices.contains(after.vertices[i]));
                let j = choose|j: int|
                    0 <= j < self.vertices.len() && self.vertices[j] == after.vertices[i];
                assert(self.vertices[j].id == id);
            }
            if self.has_vertex(id) && !ids.contains(id) {
                let j = choose|j: int|
                    0 <= j < self.vertices.len() && (#[trigger] self.vertices[j]).id == id;
                assert(self.vertices.contains(self.vertices[j]));
                assert(kept(self.vertices[j]));
                assert(after.vertices.contains(self.vertices[j]));
                let i = choose|i: int|
                    0 <= i < after.vertices.len() && after.vertices[i] == self.vertices[j];
                assert(after.vertices[i].id == id);
            }
        }
    }

    /// A deletion keeps the shape of the store.
    pub proof fn deletion_keeps_shape(self, ids: Seq<u128>)
        requires
            self.well_formed(),
        ensures
            self.without(ids).well_formed(),
    {
        let after = self.without(ids);
        self.vertices_after_deletion(ids);
        filter_items(self.vertices, self.kept_vertex(ids));
        filter_items(self.properties, self.kept_property(ids));
        filter_items(self.edges, self.kept_edge(ids));
        filter_items(self.reversed, self.kept_reversed(ids));
        filter_keeps_distinct(self.edges, self.kept_edge(ids));
        filter_keeps_distinct(self.reversed, self.kept_reversed(ids));
        filter_keeps_keys_distinct(self.vertices, self.kept_vertex(ids), vertex_key());
        filter_keeps_keys_distinct(self.properties, self.kept_property(ids), property_key());
        assert forall|i: int, j: int| 0 <= i < j < after.vertices.len() implies (
        #[trigger] after.vertices[i]).id != (#[trigger] after.vertices[j]).id by {
            assert(vertex_key()(after.vertices[i]) != vertex_key()(after.vertices[j]));
        }
        assert forall|i: int, j: int| 0 <= i < j < after.properties.len() implies !({
            &&& (#[trigger] after.properties[i]).id == (#[trigger] after.properties[j]).id
            &&& after.properties[i].name == after.properties[j].name
        }) by {
            assert(property_key()(after.properties[i]) != property_key()(after.properties[j]));
        }
        assert forall|i: int| 0 <= i < after.properties.len() implies after.has_vertex(
            (#[trigger] after.properties[i]).id,
        ) by {
            let p = after.properties[i];
            assert(after.properties.contains(p));
            let j = choose|j: int| 0 <= j < self.properties.len() && self.properties[j] == p;
            assert(self.has_vertex(self.properties[j].id));
        }
        assert forall|e: EdgeRow| after.edges.contains(e) <==> after.reversed.contains(e) by {
            if after.edges.contains(e) {
                assert(self.edges.contains(e));
                assert(self.reversed.contains(e));
            }
            if after.reversed.contains(e) {
                assert(self.reversed.contains(e));
                assert(self.edges.contains(e));
            }
        }
        assert forall|i: int| 0 <= i < after.edges.len() implies {
            &&& after.has_vertex((#[trigger] after.edges[i]).outbound)
            &&& after.has_vertex(after.edges[i].inbound)
        } by {
            let e = after.edges[i];
            assert(after.edges.contains(e));
            let j = choose|j: int| 0 <= j < self.edges.len() && self.edges[j] == e;
            assert(self.has_vertex(self.edges[j].outbound));
            assert(self.has_vertex(self.edges[j].inbound));
        }
    }

    /// A vertex that a deletion keeps holds what it held.
    pub proof fn values_after_deletion(self, ids: Seq<u128>, id: u128, name: Seq<char>)
        requires
            !ids.contains(id),
        ensures
            self.without(ids).lookup(id, name) == self.lookup(id, name),
    {
        filter_twice(self.properties, self.kept_property(ids), keyed(id, name), keyed(id, name));
    }

    /// **Deletion is complete.** In a store of good shape that a scan walks
    /// to its end, once the vertices that hold a text have been deleted, no
    /// vertex holds it, a scan for it finds nothing, none of the deleted
    /// vertices is there, and no edge has one of them at an end.
    pub proof fn deleting_is_complete(self, name: Seq<char>, value: Seq<char>)
        requires
            self.well_formed(),
            self.has_room(0, 0),
        ensures
            ({
                let gone = self.matching(name, value, SCAN_LIMIT as nat);
                let after = self.without(gone);
                &&& after.well_formed()
                &&& forall|id: u128|
                    after.has_vertex(id) ==> after.lookup(id, name) != Some(Stored::Text(value))
                &&& after.matching(name, value, SCAN_LIMIT as nat).len() == 0
                &&& forall|id: u128| gone.contains(id) ==> !after.has_vertex(id)
                &&& forall|i: int|
                    0 <= i < after.edges.len() ==> !gone.contains(
                        (#[trigger] after.edges[i]).outbound,
                    ) && !gone.contains(after.edges[i].inbound)
                &&& forall|i: int|
                    0 <= i < after.reversed.len() ==> !gone.contains(
                        (#[trigger] after.reversed[i]).outbound,
                    ) && !gone.contains(after.reversed[i].inbound)
            }),
    {
        let limit = SCAN_LIMIT as nat;
        let gone = self.matching(name, value, limit);
        let after = self.without(gone);
        self.deletion_keeps_shape(gone);
        self.vertices_after_deletion(gone);
        self.matching_lists_holders(name, value, limit);
        after.matching_lists_holders(name, value, limit);
        filter_map_items(self.vertices, holder(self.properties, name, value));
        assert forall|id: u128| after.has_vertex(id) implies after.lookup(id, name) != Some(
            Stored::Text(value),
        ) by {
            self.values_after_deletion(gone, id, name);
            if self.lookup(id, name) == Some(Stored::Text(value)) {
                let j = choose|j: int|
                    0 <= j < self.vertices.len() && (#[trigger] self.vertices[j]).id == id;
                assert(holder(self.properties, name, value)(self.vertices[j]) == Some(id));
                assert(gone.contains(id));
            }
        }
        self.vertices.lemma_filter_len(self.kept_vertex(gone));
        assert(capped(after.vertices, limit) == after.vertices);
        assert forall|i: int| 0 <= i < after.vertices.len() implies holder(
            after.properties,
            name,
            value,
        )(#[trigger] after.vertices[i]) is None by {
            assert(after.has_vertex(after.vertices[i].id));
        }
        filter_map_empty(after.vertices, holder(after.properties, name, value));
        filter_items(self.reversed, self.kept_reversed(gone));
        assert forall|i: int| 0 <= i < after.edges.len() implies !gone.contains(
            (#[trigger] after.edges[i]).outbound,
        ) && !gone.contains(after.edges[i].inbound) by {
            assert(after.has_vertex(after.edges[i].outbound));
            assert(after.has_vertex(after.edges[i].inbound));
        }
        assert forall|i: int| 0 <= i < after.reversed.len() implies !gone.contains(
            (#[trigger] after.reversed[i]).outbound,
        ) && !gone.contains(after.reversed[i].inbound) by {
            let e = after.reversed[i];
            assert(after.reversed.contains(e));
            assert(after.edges.contains(e));
            let j = choose|j: int| 0 <= j < after.edges.len() && after.edges[j] == e;
            assert(after.has_vertex(after.edges[j].outbound));
            assert(after.has_vertex(after.edges[j].inbound));
        }
    }
}

} // verus!
