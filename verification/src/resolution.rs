//! How the creation of a vertex changes what a scan finds, and the law that
//! follows: a value that has been resolved resolves to the same vertex again.

use crate::graph::SCAN_LIMIT;
use crate::model::{
    capped, hit, inserted, keyed, text_hit, value_of, PropertyRow, Store, Stored, VertexRow,
};
use crate::sequences::{
    filter_insert, filter_map_agree, filter_map_insert, filter_map_items, filter_map_twice,
    filter_none,
};
use crate::shape::inserted_items;
use vstd::prelude::*;

verus! {

/// The id of a vertex whose property `name` is the text `value`, and nothing
/// for any other vertex.
pub open spec fn holder(properties: Seq<PropertyRow>, name: Seq<char>, value: Seq<char>) -> spec_fn(
    VertexRow,
) -> Option<u128> {
    |v: VertexRow|
        if value_of(properties, v.id, name) == Some(Stored::Text(value)) {
            Some(v.id)
        } else {
            None
        }
}

impl Store {
    /// A scan for a text lists the vertices that hold it.
    pub proof fn matching_lists_holders(self, name: Seq<char>, value: Seq<char>, limit: nat)
        ensures
            self.matching(name, value, limit) == capped(self.vertices, limit).filter_map(
                holder(self.properties, name, value),
            ),
    {
        filter_map_twice(
            capped(self.vertices, limit),
            hit(self.properties, name),
            text_hit(value),
            holder(self.properties, name, value),
        );
    }

    /// What a store looks like after a vertex with a property has been added
    /// to a store of good shape: one more vertex, one more property row, and
    /// the shape is kept.
    pub proof fn after_adds(
        self,
        after: Store,
        id: u128,
        kind: Seq<char>,
        name: Seq<char>,
        value: Seq<char>,
    )
        requires
            self.well_formed(),
            self.adds(after, id, kind, name, value),
        ensures
            after.well_formed(),
            !self.has_vertex(id),
            after.has_vertex(id),
            inserted(self.vertices, after.vertices, VertexRow { id, kind }),
            inserted(
                self.properties,
                after.properties,
                PropertyRow { id, name, value: Stored::Text(value) },
            ),
            after.edges == self.edges,
            after.reversed == self.reversed,
            forall|i: int| 0 <= i < self.properties.len() ==> (#[trigger] self.properties[i]).id != id,
            forall|other: u128| after.has_vertex(other) <==> self.has_vertex(other) || other == id,
    {
        let mid = choose|mid: Store| #[trigger]
            self.gains_vertex(mid, id, kind) && mid.sets_property(after, id, name, value);
        self.vertices_after_gain(mid, id, kind);
        self.gain_of_vertex_keeps_shape(mid, id, kind);
        assert forall|i: int| 0 <= i < self.properties.len() implies (
        #[trigger] self.properties[i]).id != id by {
            assert(self.has_vertex(self.properties[i].id));
        }
        if mid.lookup(id, name) is Some {
            let i = mid.found_has_row(id, name);
            assert(self.properties[i].id == id);
        }
        let row = PropertyRow { id, name, value: Stored::Text(value) };
        inserted_items(self.properties, after.properties, row);
        let k = choose|k: int|
            0 <= k <= self.properties.len() && after.properties
                == #[trigger] self.properties.insert(k, row);
        assert forall|i: int, j: int| 0 <= i < j < after.properties.len() implies !({
            &&& (#[trigger] after.properties[i]).id == (#[trigger] after.properties[j]).id
            &&& after.properties[i].name == after.properties[j].name
        }) by {
            let bi = if i < k { i } else { i - 1 };
            let bj = if j < k { j } else { j - 1 };
            if i == k {
                assert(self.properties[bj] == after.properties[j]);
            } else if j == k {
                assert(self.properties[bi] == after.properties[i]);
            } else {
                assert(self.properties[bi] == after.properties[i]);
                assert(self.properties[bj] == after.properties[j]);
            }
        }
        assert forall|i: int| 0 <= i < after.properties.len() implies after.has_vertex(
            (#[trigger] after.properties[i]).id,
        ) by {
            if i != k {
                let bi = if i < k { i } else { i - 1 };
                assert(self.properties[bi] == after.properties[i]);
                assert(self.has_vertex(self.properties[bi].id));
            }
        }
        assert forall|i: int| 0 <= i < after.edges.len() implies {
            &&& after.has_vertex((#[trigger] after.edges[i]).outbound)
            &&& after.has_vertex(after.edges[i].inbound)
        } by {
            assert(self.has_vertex(self.edges[i].outbound));
            assert(self.has_vertex(self.edges[i].inbound));
        }
    }

    /// The values after a vertex with a property has been added: the new
    /// vertex holds its property and no other, and every other vertex holds
    /// what it held.
    pub proof fn values_after_adds(
        self,
        after: Store,
        id: u128,
        kind: Seq<char>,
        name: Seq<char>,
        value: Seq<char>,
        other: u128,
        other_name: Seq<char>,
    )
        requires
            self.well_formed(),
            self.adds(after, id, kind, name, value),
        ensures
            after.lookup(other, other_name) == (if other == id {
                if other_name == name {
                    Some(Stored::Text(value))
                } else {
                    None
                }
            } else {
                self.lookup(other, other_name)
            }),
    {
        self.after_adds(after, id, kind, name, value);
        let row = PropertyRow { id, name, value: Stored::Text(value) };
        let k = choose|k: int|
            0 <= k <= self.properties.len() && after.properties
                == #[trigger] self.properties.insert(k, row);
        let key = keyed(other, other_name);
        filter_insert(self.properties, k, row, key);
        if other == id {
            filter_none(self.properties, key);
        }
    }

    /// What a scan finds after a vertex with a property has been added to a
    /// store of good shape that the scan walks to its end: for the text that
    /// the new vertex holds, the vertices that it found before and the new
    /// one; for any other text, what it found before.
    pub proof fn matching_after_adds(
        self,
        after: Store,
        id: u128,
        kind: Seq<char>,
        name: Seq<char>,
        value: Seq<char>,
        other_name: Seq<char>,
        other_value: Seq<char>,
    )
        requires
            self.well_formed(),
            self.vertices.len() < SCAN_LIMIT,
            self.adds(after, id, kind, name, value),
        ensures
            other_name == name && other_value == value ==> inserted(
                self.matching(name, value, SCAN_LIMIT as nat),
                after.matching(name, value, SCAN_LIMIT as nat),
                id,
            ),
            !(other_name == name && other_value == value) ==> after.matching(
                other_name,
                other_value,
                SCAN_LIMIT as nat,
            ) == self.matching(other_name, other_value, SCAN_LIMIT as nat),
    {
        self.after_adds(after, id, kind, name, value);
        let limit = SCAN_LIMIT as nat;
        self.matching_lists_holders(other_name, other_value, limit);
        after.matching_lists_holders(other_name, other_value, limit);
        let row = VertexRow { id, kind };
        let k = choose|k: int|
            0 <= k <= self.vertices.len() && after.vertices == #[trigger] self.vertices.insert(
                k,
                row,
            );
        let before = holder(self.properties, other_name, other_value);
        let now = holder(after.properties, other_name, other_value);
        assert forall|i: int| 0 <= i < self.vertices.len() implies before(
            #[trigger] self.vertices[i],
        ) == now(self.vertices[i]) by {
            self.values_after_adds(after, id, kind, name, value, self.vertices[i].id, other_name);
        }
        filter_map_agree(self.vertices, before, now);
        filter_map_insert(self.vertices, k, row, now);
        self.values_after_adds(after, id, kind, name, value, id, other_name);
        if other_name == name && other_value == value {
            let at = self.vertices.take(k).filter_map(now).len() as int;
            assert(after.matching(name, value, limit) == self.matching(name, value, limit).insert(
                at,
                id,
            ));
        }
    }

    /// A resolution keeps the shape of the store.
    pub proof fn resolving_keeps_shape(
        self,
        after: Store,
        id: u128,
        kind: Seq<char>,
        name: Seq<char>,
        value: Seq<char>,
    )
        requires
            self.well_formed(),
            self.resolves(after, id, kind, name, value),
        ensures
            after.well_formed(),
    {
        if self.matching(name, value, SCAN_LIMIT as nat).len() == 0 {
            self.after_adds(after, id, kind, name, value);
        }
    }

    /// A vertex that has come without a property keeps the shape of the
    /// store.
    pub proof fn bare_vertex_keeps_shape(self, after: Store, kind: Seq<char>)
        requires
            self.well_formed(),
            self.adds_bare(after, kind),
        ensures
            after.well_formed(),
    {
        let id = choose|id: u128| #[trigger] self.gains_vertex(after, id, kind);
        self.gain_of_vertex_keeps_shape(after, id, kind);
    }

    /// **Resolving is a fixed point.** In a store of good shape that a scan
    /// walks to its end, a value that has been resolved to a vertex resolves
    /// to that vertex again, and the second resolution changes nothing: the
    /// store holds as many vertices after it as before.
    pub proof fn resolving_again_changes_nothing(
        self,
        first: Store,
        second: Store,
        id: u128,
        again: u128,
        kind: Seq<char>,
        name: Seq<char>,
        value: Seq<char>,
    )
        requires
            self.well_formed(),
            self.vertices.len() < SCAN_LIMIT,
            self.resolves(first, id, kind, name, value),
            first.resolves(second, again, kind, name, value),
        ensures
            again == id,
            second == first,
            second.vertices.len() == first.vertices.len(),
    {
        self.resolved_is_found(first, id, kind, name, value);
    }

    /// After a value has been resolved, a scan for it finds the vertex first.
    pub proof fn resolved_is_found(
        self,
        after: Store,
        id: u128,
        kind: Seq<char>,
        name: Seq<char>,
        value: Seq<char>,
    )
        requires
            self.well_formed(),
            self.vertices.len() < SCAN_LIMIT,
            self.resolves(after, id, kind, name, value),
        ensures
            after.well_formed(),
            after.matching(name, value, SCAN_LIMIT as nat).len() > 0,
            after.matching(name, value, SCAN_LIMIT as nat)[0] == id,
            after.has_vertex(id),
            after.matching(name, value, SCAN_LIMIT as nat).len() == (if self.matching(
                name,
                value,
                SCAN_LIMIT as nat,
            ).len() > 0 {
                self.matching(name, value, SCAN_LIMIT as nat).len()
            } else {
                1
            }),
    {
        let limit = SCAN_LIMIT as nat;
        let found = self.matching(name, value, limit);
        if found.len() > 0 {
            self.found_is_vertex(name, value, limit, 0);
        } else {
            self.matching_after_adds(after, id, kind, name, value, name, value);
            self.after_adds(after, id, kind, name, value);
            inserted_items(found, after.matching(name, value, limit), id);
            let now = after.matching(name, value, limit);
            assert(now.contains(now[0]));
        }
    }

    /// What a scan finds is a vertex that holds the text.
    pub proof fn found_is_vertex(self, name: Seq<char>, value: Seq<char>, limit: nat, i: int)
        requires
            0 <= i < self.matching(name, value, limit).len(),
        ensures
            self.has_vertex(self.matching(name, value, limit)[i]),
            self.lookup(self.matching(name, value, limit)[i], name) == Some(Stored::Text(value)),
    {
        self.matching_lists_holders(name, value, limit);
        let walked = capped(self.vertices, limit);
        let pick = holder(self.properties, name, value);
        let id = self.matching(name, value, limit)[i];
        filter_map_items(walked, pick);
        assert(walked.filter_map(pick).contains(id));
        let j = choose|j: int| 0 <= j < walked.len() && pick(#[trigger] walked[j]) == Some(id);
        assert(self.vertices[j] == walked[j]);
    }
}

} // verus!
