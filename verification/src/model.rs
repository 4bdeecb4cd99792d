//! The mathematical model of a graph store: four tables, each a sequence of
//! rows in the order in which the store keeps them, and the functions that
//! say what a query lists and how an operation changes the tables.

use vstd::prelude::*;

verus! {

/// A vertex: its identifier and the name of its type.
pub struct VertexRow {
    pub id: u128,
    pub kind: Seq<char>,
}

/// A stored property value: a text, or any other JSON value, written out.
pub enum Stored {
    Text(Seq<char>),
    Json(Seq<char>),
}

/// A property of a vertex.
pub struct PropertyRow {
    pub id: u128,
    pub name: Seq<char>,
    pub value: Stored,
}

/// A directed, typed edge from `outbound` to `inbound`.
pub struct EdgeRow {
    pub outbound: u128,
    pub kind: Seq<char>,
    pub inbound: u128,
}

/// A vertex together with its properties, as one lookup returns it.
pub struct RecordRow {
    pub id: u128,
    pub props: Seq<PropertyRow>,
}

/// One line of a property scan: a vertex and the value it holds.
pub struct HitRow {
    pub id: u128,
    pub value: Stored,
}

/// The whole store. `edges` lists the edges in the order in which the store
/// walks them from their source, `reversed` lists the same edges in the order
/// in which it walks them from their target.
pub struct Store {
    pub vertices: Seq<VertexRow>,
    pub properties: Seq<PropertyRow>,
    pub edges: Seq<EdgeRow>,
    pub reversed: Seq<EdgeRow>,
}

/// The first `limit` items of `s`, or all of `s` where it is shorter.
pub open spec fn capped<A>(s: Seq<A>, limit: nat) -> Seq<A> {
    if s.len() <= limit {
        s
    } else {
        s.take(limit as int)
    }
}

/// `after` is `before` with `a` put in at some position.
pub open spec fn inserted<A>(before: Seq<A>, after: Seq<A>, a: A) -> bool {
    exists|k: int| 0 <= k <= before.len() && after == #[trigger] before.insert(k, a)
}

/// The edges that leave `id`.
pub open spec fn leaving(id: u128) -> spec_fn(EdgeRow) -> bool {
    |e: EdgeRow| e.outbound == id
}

/// The edges that enter `id`.
pub open spec fn entering(id: u128) -> spec_fn(EdgeRow) -> bool {
    |e: EdgeRow| e.inbound == id
}

/// The edges of the kind `kind`, or all edges where none is given.
pub open spec fn of_kind(kind: Option<Seq<char>>) -> spec_fn(EdgeRow) -> bool {
    |e: EdgeRow| kind matches Some(k) ==> e.kind == k
}

/// The view of a kind that may be given.
pub open spec fn kind_view(kind: Option<&str>) -> Option<Seq<char>> {
    match kind {
        Some(k) => Some(k@),
        None => None,
    }
}

/// The edges that occur in `s`.
pub open spec fn among(s: Seq<EdgeRow>) -> spec_fn(EdgeRow) -> bool {
    |e: EdgeRow| s.contains(e)
}

/// The properties of vertex `id`.
pub open spec fn owned_by(id: u128) -> spec_fn(PropertyRow) -> bool {
    |p: PropertyRow| p.id == id
}

/// The property `name` of vertex `id`.
pub open spec fn keyed(id: u128, name: Seq<char>) -> spec_fn(PropertyRow) -> bool {
    |p: PropertyRow| p.id == id && p.name == name
}

/// The id of a scan line whose value is the text `value`, and nothing for any
/// other line.
pub open spec fn text_hit(value: Seq<char>) -> spec_fn(HitRow) -> Option<u128> {
    |h: HitRow|
        if h.value == Stored::Text(value) {
            Some(h.id)
        } else {
            None
        }
}

/// The value that the property table holds for vertex `id` under `name`, if
/// it holds one.
pub open spec fn value_of(properties: Seq<PropertyRow>, id: u128, name: Seq<char>) -> Option<
    Stored,
> {
    let rows = properties.filter(keyed(id, name));
    if rows.len() > 0 {
        Some(rows[0].value)
    } else {
        None
    }
}

/// The scan line of a vertex for the property `name`: nothing where the
/// vertex does not hold it.
pub open spec fn hit(properties: Seq<PropertyRow>, name: Seq<char>) -> spec_fn(VertexRow) -> Option<
    HitRow,
> {
    |v: VertexRow|
        match value_of(properties, v.id, name) {
            Some(value) => Some(HitRow { id: v.id, value }),
            None => None,
        }
}

/// A scan of the vertex table for the property `name`: the first `limit`
/// vertices are walked, and each that holds `name` is listed with the value.
pub open spec fn scan(
    vertices: Seq<VertexRow>,
    properties: Seq<PropertyRow>,
    name: Seq<char>,
    limit: nat,
) -> Seq<HitRow> {
    capped(vertices, limit).filter_map(hit(properties, name))
}

impl Store {
    /// The store with nothing in it.
    pub open spec fn empty() -> Store {
        Store {
            vertices: Seq::empty(),
            properties: Seq::empty(),
            edges: Seq::empty(),
            reversed: Seq::empty(),
        }
    }

    /// Whether a vertex with this id exists.
    pub open spec fn has_vertex(self, id: u128) -> bool {
        exists|i: int| 0 <= i < self.vertices.len() && (#[trigger] self.vertices[i]).id == id
    }

    /// The value that vertex `id` holds under `name`, if it holds one.
    pub open spec fn lookup(self, id: u128, name: Seq<char>) -> Option<Stored> {
        value_of(self.properties, id, name)
    }

    /// What a scan for the property `name` lists: it walks the first `limit`
    /// vertices in store order and lists each that holds `name`, with the
    /// value.
    pub open spec fn property_scan(self, name: Seq<char>, limit: nat) -> Seq<HitRow> {
        scan(self.vertices, self.properties, name, limit)
    }

    /// The vertices among the first `limit` whose property `name` is the text
    /// `value`, in store order.
    pub open spec fn matching(self, name: Seq<char>, value: Seq<char>, limit: nat) -> Seq<u128> {
        self.property_scan(name, limit).filter_map(text_hit(value))
    }

    /// The edges that leave vertex `id`; none where `id` is no vertex.
    pub open spec fn outgoing(self, id: u128) -> Seq<EdgeRow> {
        if self.has_vertex(id) {
            self.edges.filter(leaving(id))
        } else {
            Seq::empty()
        }
    }

    /// The edges that enter vertex `id`; none where `id` is no vertex.
    pub open spec fn incoming(self, id: u128) -> Seq<EdgeRow> {
        if self.has_vertex(id) {
            self.reversed.filter(entering(id))
        } else {
            Seq::empty()
        }
    }

    /// The edges at one end of the vertices `ids`, vertex by vertex: those
    /// that leave them where `outward`, else those that enter them.
    pub open spec fn touching(self, ids: Seq<u128>, outward: bool) -> Seq<EdgeRow>
        decreases ids.len(),
    {
        if ids.len() == 0 {
            Seq::empty()
        } else {
            self.touching(ids.drop_last(), outward) + (if outward {
                self.outgoing(ids.last())
            } else {
                self.incoming(ids.last())
            })
        }
    }

    /// What an edge query lists: the first `limit` of `touching`.
    pub open spec fn listed_edges(self, ids: Seq<u128>, outward: bool, limit: nat) -> Seq<EdgeRow> {
        capped(self.touching(ids, outward), limit)
    }

    /// How many edges leave `id`, of the kind `kind` where one is given.
    pub open spec fn out_degree(self, id: u128, kind: Option<Seq<char>>) -> nat {
        self.edges.filter(leaving(id)).filter(of_kind(kind)).len()
    }

    /// How many edges enter `id`, of the kind `kind` where one is given.
    pub open spec fn in_degree(self, id: u128, kind: Option<Seq<char>>) -> nat {
        self.reversed.filter(entering(id)).filter(of_kind(kind)).len()
    }

    /// How many of the listed edges into `inbound` are among the listed edges
    /// out of `outbound`.
    pub open spec fn shared(self, inbound: u128, outbound: u128, limit: nat) -> nat {
        self.listed_edges(seq![inbound], false, limit).filter(
            among(self.listed_edges(seq![outbound], true, limit)),
        ).len()
    }

    /// The record of vertex `id`: its properties in store order.
    pub open spec fn record(self, id: u128) -> RecordRow {
        RecordRow { id, props: self.properties.filter(owned_by(id)) }
    }

    /// The records of those of `ids` that are vertices, in the order of `ids`.
    pub open spec fn records(self, ids: Seq<u128>) -> Seq<RecordRow>
        decreases ids.len(),
    {
        if ids.len() == 0 {
            Seq::empty()
        } else if self.has_vertex(ids.last()) {
            self.records(ids.drop_last()).push(self.record(ids.last()))
        } else {
            self.records(ids.drop_last())
        }
    }

    /// `after` is this store with one new vertex `id` of type `kind`, and
    /// `id` was not in use.
    pub open spec fn gains_vertex(self, after: Store, id: u128, kind: Seq<char>) -> bool {
        &&& !self.has_vertex(id)
        &&& inserted(self.vertices, after.vertices, VertexRow { id, kind })
        &&& after.properties == self.properties
        &&& after.edges == self.edges
        &&& after.reversed == self.reversed
    }

    /// `after` is this store once the property `name` of vertex `id` has been
    /// set to the text `value`: the row is replaced where the vertex holds
    /// the property, put in where it does not, and nothing changes where `id`
    /// is no vertex.
    pub open spec fn sets_property(
        self,
        after: Store,
        id: u128,
        name: Seq<char>,
        value: Seq<char>,
    ) -> bool {
        let row = PropertyRow { id, name, value: Stored::Text(value) };
        &&& after.vertices == self.vertices
        &&& after.edges == self.edges
        &&& after.reversed == self.reversed
        &&& if !self.has_vertex(id) {
            after.properties == self.properties
        } else if self.lookup(id, name) is Some {
            exists|i: int|
                0 <= i < self.properties.len() && keyed(id, name)(self.properties[i])
                    && after.properties == #[trigger] self.properties.update(i, row)
        } else {
            inserted(self.properties, after.properties, row)
        }
    }

    /// `after` is this store once the edge `e` has been asked for: nothing
    /// changes where an end of `e` is no vertex; else `e` is in both edge
    /// tables, put in where it was missing.
    pub open spec fn gains_edge(self, after: Store, e: EdgeRow) -> bool {
        &&& after.vertices == self.vertices
        &&& after.properties == self.properties
        &&& if self.has_vertex(e.outbound) && self.has_vertex(e.inbound) {
            &&& if self.edges.contains(e) {
                after.edges == self.edges
            } else {
                inserted(self.edges, after.edges, e)
            }
            &&& if self.reversed.contains(e) {
                after.reversed == self.reversed
            } else {
                inserted(self.reversed, after.reversed, e)
            }
        } else {
            after.edges == self.edges && after.reversed == self.reversed
        }
    }

    /// Whether `id` is a vertex that a deletion of `ids` removes.
    pub open spec fn doomed(self, ids: Seq<u128>, id: u128) -> bool {
        ids.contains(id) && self.has_vertex(id)
    }

    /// The vertices that a deletion of `ids` keeps.
    pub open spec fn kept_vertex(self, ids: Seq<u128>) -> spec_fn(VertexRow) -> bool {
        |v: VertexRow| !self.doomed(ids, v.id)
    }

    /// The properties that a deletion of `ids` keeps.
    pub open spec fn kept_property(self, ids: Seq<u128>) -> spec_fn(PropertyRow) -> bool {
        |p: PropertyRow| !self.doomed(ids, p.id)
    }

    /// The edges that a deletion of `ids` keeps: those with no end among the
    /// removed vertices.
    pub open spec fn kept_edge(self, ids: Seq<u128>) -> spec_fn(EdgeRow) -> bool {
        |e: EdgeRow| !self.doomed(ids, e.outbound) && !self.doomed(ids, e.inbound)
    }

    /// The rows of the reversed table that a deletion of `ids` keeps: the
    /// store removes a row there for each edge that it removes from `edges`.
    pub open spec fn kept_reversed(self, ids: Seq<u128>) -> spec_fn(EdgeRow) -> bool {
        |e: EdgeRow| self.kept_edge(ids)(e) || !self.edges.contains(e)
    }

    /// The store without those of `ids` that are vertices, without their
    /// properties and without the edges at them.
    pub open spec fn without(self, ids: Seq<u128>) -> Store {
        Store {
            vertices: self.vertices.filter(self.kept_vertex(ids)),
            properties: self.properties.filter(self.kept_property(ids)),
            edges: self.edges.filter(self.kept_edge(ids)),
            reversed: self.reversed.filter(self.kept_reversed(ids)),
        }
    }
}

} // verus!
