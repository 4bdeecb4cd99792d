//! What holds of every store that the operations of this crate have built:
//! the shape of its four tables, and that each operation keeps it.

use crate::graph::SCAN_LIMIT;
use crate::model::{inserted, keyed, EdgeRow, Store, VertexRow};
use crate::sequences::filter_items;
use vstd::prelude::*;

verus! {

impl Store {
    /// The shape of a store: no identifier and no property key is used
    /// twice, every property belongs to a vertex, the two edge tables hold
    /// the same edges, each once, and every edge runs between vertices.
    pub open spec fn well_formed(self) -> bool {
        &&& forall|i: int, j: int|
            0 <= i < j < self.vertices.len() ==> (#[trigger] self.vertices[i]).id
                != (#[trigger] self.vertices[j]).id
        &&& forall|i: int, j: int|
            0 <= i < j < self.properties.len() ==> !({
                &&& (#[trigger] self.properties[i]).id == (#[trigger] self.properties[j]).id
                &&& self.properties[i].name == self.properties[j].name
            })
        &&& forall|i: int|
            0 <= i < self.properties.len() ==> self.has_vertex((#[trigger] self.properties[i]).id)
        &&& self.edges.no_duplicates()
        &&& self.reversed.no_duplicates()
        &&& forall|e: EdgeRow| self.edges.contains(e) <==> self.reversed.contains(e)
        &&& forall|i: int|
            0 <= i < self.edges.len() ==> {
                &&& self.has_vertex((#[trigger] self.edges[i]).outbound)
                &&& self.has_vertex(self.edges[i].inbound)
            }
    }

    /// A scan walks the vertices to their end and a listing the edges, and
    /// will do so after `vertices` more vertices and `edges` more edges have
    /// come.
    pub open spec fn has_room(self, vertices: nat, edges: nat) -> bool {
        &&& self.vertices.len() + vertices <= SCAN_LIMIT
        &&& self.edges.len() + edges <= SCAN_LIMIT
        &&& self.reversed.len() + edges <= SCAN_LIMIT
    }
}

/// The store that holds nothing is of good shape and has room for anything
/// below the limit.
pub proof fn empty_store_has_good_shape()
    ensures
        Store::empty().well_formed(),
        forall|vertices: nat, edges: nat|
            vertices <= SCAN_LIMIT && edges <= SCAN_LIMIT ==> #[trigger] Store::empty().has_room(
                vertices,
                edges,
            ),
{
}

/// After an insertion the items are the old ones and the new one.
pub proof fn inserted_items<A>(before: Seq<A>, after: Seq<A>, a: A)
    requires
        inserted(before, after, a),
    ensures
        after.len() == before.len() + 1,
        forall|x: A| after.contains(x) <==> before.contains(x) || x == a,
{
    let k = choose|k: int| 0 <= k <= before.len() && after == #[trigger] before.insert(k, a);
    assert forall|x: A| after.contains(x) <==> before.contains(x) || x == a by {
        if after.contains(x) {
            let i = choose|i: int| 0 <= i < after.len() && after[i] == x;
            if i < k {
                assert(before[i] == x);
            } else if i > k {
                assert(before[i - 1] == x);
            }
        }
        if before.contains(x) {
            let i = choose|i: int| 0 <= i < before.len() && before[i] == x;
            if i < k {
                assert(after[i] == x);
            } else {
                assert(after[i + 1] == x);
            }
        }
        if x == a {
            assert(after[k] == a);
        }
    }
}

/// A sequence without duplicates has none after the insertion of an item
/// that it did not hold.
pub proof fn inserted_distinct<A>(before: Seq<A>, after: Seq<A>, a: A)
    requires
        inserted(before, after, a),
        before.no_duplicates(),
        !before.contains(a),
    ensures
        after.no_duplicates(),
{
    let k = choose|k: int| 0 <= k <= before.len() && after == #[trigger] before.insert(k, a);
    assert forall|i: int, j: int| 0 <= i < after.len() && 0 <= j < after.len() && i != j implies after[i]
        != after[j] by {
        let bi = if i < k { i } else { i - 1 };
        let bj = if j < k { j } else { j - 1 };
        if i == k {
            assert(before[bj] == after[j]);
            assert(before.contains(before[bj]));
        } else if j == k {
            assert(before[bi] == after[i]);
            assert(before.contains(before[bi]));
        } else {
            assert(before[bi] == after[i]);
            assert(before[bj] == after[j]);
        }
    }
}

impl Store {
    /// The vertices after a new one has come: the old ones and the new one.
    pub proof fn vertices_after_gain(self, after: Store, id: u128, kind: Seq<char>)
        requires
            self.gains_vertex(after, id, kind),
        ensures
            after.vertices.len() == self.vertices.len() + 1,
            forall|other: u128| after.has_vertex(other) <==> self.has_vertex(other) || other == id,
    {
        let row = VertexRow { id, kind };
        inserted_items(self.vertices, after.vertices, row);
        assert forall|other: u128| after.has_vertex(other) <==> self.has_vertex(other) || other
            == id by {
            if after.has_vertex(other) {
                let i = choose|i: int|
                    0 <= i < after.vertices.len() && (#[trigger] after.vertices[i]).id == other;
                assert(after.vertices.contains(after.vertices[i]));
                if after.vertices[i] != row {
                    let j = choose|j: int|
                        0 <= j < self.vertices.len() && self.vertices[j] == after.vertices[i];
                    assert(self.vertices[j].id == other);
                }
            }
            if self.has_vertex(other) {
                let j = choose|j: int|
                    0 <= j < self.vertices.len() && (#[trigger] self.vertices[j]).id == other;
                assert(self.vertices.contains(self.vertices[j]));
                let i = choose|i: int|
                    0 <= i < after.vertices.len() && after.vertices[i] == self.vertices[j];
                assert(after.vertices[i].id == other);
            }
            if other == id {
                assert(after.vertices.contains(row));
                let i = choose|i: int| 0 <= i < after.vertices.len() && after.vertices[i] == row;
                assert(after.vertices[i].id == id);
            }
        }
    }

    /// A new vertex keeps the shape of the store.
    pub proof fn gain_of_vertex_keeps_shape(self, after: Store, id: u128, kind: Seq<char>)
        requires
            self.well_formed(),
            self.gains_vertex(after, id, kind),
        ensures
            after.well_formed(),
    {
        let row = VertexRow { id, kind };
        self.vertices_after_gain(after, id, kind);
        let k = choose|k: int|
            0 <= k <= self.vertices.len() && after.vertices == #[trigger] self.vertices.insert(
                k,
                row,
            );
        assert forall|i: int, j: int| 0 <= i < j < after.vertices.len() implies (
        #[trigger] after.vertices[i]).id != (#[trigger] after.vertices[j]).id by {
            let bi = if i < k { i } else { i - 1 };
            let bj = if j < k { j } else { j - 1 };
            if i == k {
                assert(self.vertices[bj] == after.vertices[j]);
            } else if j == k {
                assert(self.vertices[bi] == after.vertices[i]);
            } else {
                assert(self.vertices[bi] == after.vertices[i]);
                assert(self.vertices[bj] == after.vertices[j]);
            }
        }
    }

    /// A key with a value has a row in the property table.
    pub proof fn found_has_row(self, id: u128, name: Seq<char>) -> (i: int)
        requires
            self.lookup(id, name) is Some,
        ensures
            0 <= i < self.properties.len(),
            self.properties[i].id == id,
            self.properties[i].name == name,
    {
        let rows = self.properties.filter(keyed(id, name));
        filter_items(self.properties, keyed(id, name));
        assert(rows.contains(rows[0]));
        let i = choose|i: int| 0 <= i < self.properties.len() && self.properties[i] == rows[0];
        i
    }
}

} // verus!
