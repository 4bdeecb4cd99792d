//! The connection to a graph store and the operations on vertices: creating
//! one with its property, finding those that hold a value, and resolving a
//! value to the vertex that stands for it.

use crate::backend::{
    count_vertices, create_vertex, kind_accepted, new_transaction, scan_property, set_property,
    store_of, type_accepts,
};
use crate::error::TagError;
use crate::kinds::Vtype;
use crate::model::{text_hit, Store};
use crate::records::{hit_rows, Hit, PropValue};
use crate::shape::empty_store_has_good_shape;
use vstd::prelude::*;

verus! {

/// The most vertices that one scan of the store walks, and the most edges
/// that one listing returns.
pub const SCAN_LIMIT: u32 = 0xffff_ffff;

/// A connection to a graph store.
pub struct GraphConn {
    pub trans: indradb::MemoryTransaction,
}

impl View for GraphConn {
    type V = Store;

    open spec fn view(&self) -> Store {
        store_of(self.trans)
    }
}

impl Store {
    /// `after` is this store with a new vertex `id` of type `kind` whose
    /// property `name` is the text `value`.
    pub open spec fn adds(
        self,
        after: Store,
        id: u128,
        kind: Seq<char>,
        name: Seq<char>,
        value: Seq<char>,
    ) -> bool {
        exists|mid: Store| #[trigger]
            self.gains_vertex(mid, id, kind) && mid.sets_property(after, id, name, value)
    }

    /// `after` is this store with a new vertex of type `kind` that holds no
    /// property.
    pub open spec fn adds_bare(self, after: Store, kind: Seq<char>) -> bool {
        exists|id: u128| #[trigger] self.gains_vertex(after, id, kind)
    }

    /// `id` stands for the text `value` under `name` in `after`: it is the
    /// first vertex of this store that a scan finds with it, and then nothing
    /// has changed; or, where the scan finds none, it is a new vertex of type
    /// `kind` that holds it.
    pub open spec fn resolves(
        self,
        after: Store,
        id: u128,
        kind: Seq<char>,
        name: Seq<char>,
        value: Seq<char>,
    ) -> bool {
        let found = self.matching(name, value, SCAN_LIMIT as nat);
        if found.len() > 0 {
            after == self && id == found[0]
        } else {
            self.adds(after, id, kind, name, value)
        }
    }
}

/// The vertices of the scan lines `hits` whose value is the text `value`, in
/// the order of the lines.
pub fn holders_of(hits: &Vec<Hit>, value: &str) -> (ids: Vec<u128>)
    ensures
        ids@ == hit_rows(hits@).filter_map(text_hit(value@)),
{
    let wanted: String = value.to_owned();
    let ghost rows = hit_rows(hits@);
    let ghost pick = text_hit(value@);
    let mut ids: Vec<u128> = Vec::new();
    let mut i: usize = 0;
    assert(rows.take(0).filter_map(pick) =~= Seq::<u128>::empty());
    while i < hits.len()
        invariant
            i <= hits.len(),
            rows == hit_rows(hits@),
            pick == text_hit(value@),
            wanted@ == value@,
            ids@ == rows.take(i as int).filter_map(pick),
        decreases hits.len() - i,
    {
        proof {
            rows.lemma_filter_map_take_succ(pick, i as int);
        }
        let hit: &Hit = &hits[i];
        assert(rows[i as int] == hit@);
        let is_match = match &hit.value {
            PropValue::Text(s) => *s == wanted,
            PropValue::Json(_) => false,
        };
        if is_match {
            ids.push(hit.id);
        }
        i = i + 1;
    }
    assert(rows.take(hits.len() as int) =~= rows);
    ids
}

impl Store {
    /// The creation of a vertex keeps the shape of the store, with its
    /// property or without.
    pub proof fn creating_keeps_shape(self, kind: Seq<char>, name: Seq<char>, value: Seq<char>)
        ensures
            self.well_formed() ==> forall|after: Store, id: u128|
                #![trigger self.adds(after, id, kind, name, value)]
                self.adds(after, id, kind, name, value) ==> after.well_formed(),
            self.well_formed() ==> forall|after: Store| #[trigger]
                self.adds_bare(after, kind) ==> after.well_formed(),
    {
        if self.well_formed() {
            assert forall|after: Store, id: u128| #[trigger]
                self.adds(after, id, kind, name, value) implies after.well_formed() by {
                self.after_adds(after, id, kind, name, value);
            }
            assert forall|after: Store| #[trigger] self.adds_bare(after, kind) implies after.well_formed() by {
                self.bare_vertex_keeps_shape(after, kind);
            }
        }
    }
}

impl GraphConn {
    /// A connection to a new store in memory, which holds nothing. Fails
    /// only where the store does.
    pub fn in_memory() -> (r: Result<GraphConn, TagError>)
        ensures
            match r {
                Ok(conn) => conn@ == Store::empty() && conn@.well_formed(),
                Err(e) => e is Backend,
            },
    {
        proof {
            empty_store_has_good_shape();
        }
        match new_transaction() {
            Ok(trans) => Ok(GraphConn { trans }),
            Err(e) => Err(TagError::Backend(e)),
        }
    }

    /// Creates a vertex of type `v_type` whose property `property` is the text
    /// `property_value`, and returns its identifier.
    ///
    /// Fails with `InvalidType` exactly when the store does not accept
    /// `v_type`, and then changes nothing. Where the store itself fails, the
    /// vertex is missing, or is there without its property.
    pub fn create_vertex_with_property(
        &mut self,
        v_type: &str,
        property: &str,
        property_value: &str,
    ) -> (r: Result<u128, TagError>)
        ensures
            match r {
                Ok(id) => type_accepts(v_type@) && old(self)@.adds(
                    final(self)@,
                    id,
                    v_type@,
                    property@,
                    property_value@,
                ),
                Err(TagError::InvalidType(name)) => !type_accepts(v_type@) && name@ == v_type@
                    && final(self)@ == old(self)@,
                Err(TagError::Backend(_)) => type_accepts(v_type@) && (final(self)@ == old(self)@
                    || old(self)@.adds_bare(final(self)@, v_type@)),
                Err(_) => false,
            },
            old(self)@.well_formed() ==> final(self)@.well_formed(),
    {
        proof {
            old(self)@.creating_keeps_shape(v_type@, property@, property_value@);
        }
        if !kind_accepted(v_type) {
            return Err(TagError::InvalidType(v_type.to_owned()));
        }
        let id = match create_vertex(&mut self.trans, v_type) {
            Ok(id) => id,
            Err(e) => {
                return Err(TagError::Backend(e));
            },
        };
        let ghost mid = self@;
        match set_property(&mut self.trans, id, property, property_value) {
            Ok(_) => {
                assert(old(self)@.gains_vertex(mid, id, v_type@) && mid.sets_property(
                    self@,
                    id,
                    property@,
                    property_value@,
                ));
                Ok(id)
            },
            Err(e) => Err(TagError::Backend(e)),
        }
    }

    /// How many vertices the store holds. Fails only where the store does.
    pub fn vertex_count(&self) -> (r: Result<u64, TagError>)
        ensures
            match r {
                Ok(n) => n == self@.vertices.len(),
                Err(e) => e is Backend,
            },
    {
        match count_vertices(&self.trans) {
            Ok(n) => Ok(n),
            Err(e) => Err(TagError::Backend(e)),
        }
    }

    /// Creates a tag vertex of type `tag_type` for the tag `name`.
    pub fn create_tag(&mut self, tag_type: &str, name: &str) -> (r: Result<u128, TagError>)
        ensures
            match r {
                Ok(id) => type_accepts(tag_type@) && old(self)@.adds(
                    final(self)@,
                    id,
                    tag_type@,
                    Vtype::Tagname.name(),
                    name@,
                ),
                Err(TagError::InvalidType(kind)) => !type_accepts(tag_type@) && kind@ == tag_type@
                    && final(self)@ == old(self)@,
                Err(TagError::Backend(_)) => type_accepts(tag_type@) && (final(self)@ == old(
                    self,
                )@ || old(self)@.adds_bare(final(self)@, tag_type@)),
                Err(_) => false,
            },
            old(self)@.well_formed() ==> final(self)@.well_formed(),
    {
        let property = Vtype::Tagname.to_string();
        self.create_vertex_with_property(tag_type, property.as_str(), name)
    }

    /// The vertices whose property `property` is the text `property_value`,
    /// in the order of the store. The scan walks the first `SCAN_LIMIT`
    /// vertices of the store. Fails only where the store does.
    pub fn find_vertices_with_property_value(&self, property: &str, property_value: &str) -> (r:
        Result<Vec<u128>, TagError>)
        ensures
            match r {
                Ok(ids) => ids@ == self@.matching(property@, property_value@, SCAN_LIMIT as nat),
                Err(e) => e is Backend,
            },
    {
        match scan_property(&self.trans, property, SCAN_LIMIT) {
            Ok(hits) => Ok(holders_of(&hits, property_value)),
            Err(e) => Err(TagError::Backend(e)),
        }
    }

    /// The tag vertices for the tag `name`.
    pub fn find_tag(&self, name: &str) -> (r: Result<Vec<u128>, TagError>)
        ensures
            match r {
                Ok(ids) => ids@ == self@.matching(Vtype::Tagname.name(), name@, SCAN_LIMIT as nat),
                Err(e) => e is Backend,
            },
    {
        let property = Vtype::Tagname.to_string();
        self.find_vertices_with_property_value(property.as_str(), name)
    }

    /// The vertex that stands for the text `property_value` under `property`:
    /// the first that a scan finds, and a new one of type `v_type` where it
    /// finds none.
    ///
    /// Fails with `InvalidType` exactly when a vertex has to be created and
    /// the store does not accept `v_type`.
    pub fn find_vertex_or_create(&mut self, v_type: &str, property_value: &str, property: &str) -> (r:
        Result<u128, TagError>)
        ensures
            match r {
                Ok(id) => old(self)@.resolves(
                    final(self)@,
                    id,
                    v_type@,
                    property@,
                    property_value@,
                ),
                Err(TagError::InvalidType(name)) => {
                    &&& !type_accepts(v_type@)
                    &&& name@ == v_type@
                    &&& old(self)@.matching(property@, property_value@, SCAN_LIMIT as nat).len()
                        == 0
                    &&& final(self)@ == old(self)@
                },
                Err(TagError::Backend(_)) => final(self)@ == old(self)@ || (type_accepts(v_type@)
                    && old(self)@.matching(property@, property_value@, SCAN_LIMIT as nat).len()
                    == 0 && old(self)@.adds_bare(final(self)@, v_type@)),
                Err(_) => false,
            },
            old(self)@.matching(property@, property_value@, SCAN_LIMIT as nat).len() == 0
                && !type_accepts(v_type@) ==> r is Err,
            old(self)@.well_formed() ==> final(self)@.well_formed(),
            old(self)@.well_formed() && old(self)@.has_room(1, 0) ==> (r matches Ok(id)
                ==> final(self)@.matching(property@, property_value@, SCAN_LIMIT as nat).len() > 0
                && final(self)@.matching(property@, property_value@, SCAN_LIMIT as nat)[0] == id),
    {
        proof {
            old(self)@.creating_keeps_shape(v_type@, property@, property_value@);
        }
        let found = self.find_vertices_with_property_value(property, property_value)?;
        let r = if found.len() == 0 {
            self.create_vertex_with_property(v_type, property, property_value)
        } else {
            Ok(found[0])
        };
        proof {
            if old(self)@.well_formed() && old(self)@.has_room(1, 0) {
                if let Ok(id) = r {
                    old(self)@.resolved_is_found(self@, id, v_type@, property@, property_value@);
                }
            }
        }
        r
    }
}

} // verus!
