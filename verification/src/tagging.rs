//! Edges between vertices and the tagging of a target: sorting the target
//! into a path or a web address, resolving item and tag to their vertices,
//! and joining the two by one edge. Also the deletion of vertices by the
//! value they hold.

use crate::backend;
use crate::backend::{kind_accepted, plain_kind, type_accepts};
use crate::error::TagError;
use crate::graph::{GraphConn, SCAN_LIMIT};
use crate::kinds::{has_prefix, starts_with, Vtype};
use crate::model::{among, kind_view, EdgeRow, Store};
use crate::records::{edge_rows, Link};
use vstd::prelude::*;

verus! {

/// The kind of the edge from a tag to an item.
pub open spec fn edge_kind() -> Seq<char> {
    "tags"@
}

/// What a target is: a path where it names something on disk, else a web
/// address where it begins with `www` or `http`, else nothing.
pub open spec fn classified(target: Seq<char>, on_disk: bool) -> Option<Vtype> {
    if on_disk {
        Some(Vtype::Path)
    } else if starts_with(target, "www"@) || starts_with(target, "http"@) {
        Some(Vtype::Http)
    } else {
        None
    }
}

/// Sorts a target into a path or a web address. `on_disk` says whether the
/// target names an existing entry of the file system.
///
/// Fails with `Classification`, holding the target, exactly when the target
/// is neither.
pub fn classify(target: &str, on_disk: bool) -> (r: Result<Vtype, TagError>)
    ensures
        match r {
            Ok(kind) => classified(target@, on_disk) == Some(kind),
            Err(TagError::Classification(t)) => classified(target@, on_disk) is None && t@
                == target@,
            Err(_) => false,
        },
{
    if on_disk {
        Ok(Vtype::Path)
    } else if has_prefix(target, "www") || has_prefix(target, "http") {
        Ok(Vtype::Http)
    } else {
        Err(TagError::Classification(target.to_owned()))
    }
}

impl Store {
    /// `after` is this store with tag and item joined: where the listings
    /// share no edge from `tag_id` to `item_id`, the edge has been asked for;
    /// else nothing has changed.
    pub open spec fn joins(self, after: Store, tag_id: u128, item_id: u128) -> bool {
        if self.shared(item_id, tag_id, SCAN_LIMIT as nat) == 0 {
            self.gains_edge(
                after,
                EdgeRow { outbound: tag_id, kind: edge_kind(), inbound: item_id },
            )
        } else {
            after == self
        }
    }

    /// `after` is this store once `target`, of kind `kind`, has been tagged
    /// with `tag`: the item has been resolved to a vertex, then the tag, and
    /// the two have been joined.
    pub open spec fn tagged(
        self,
        after: Store,
        tag_type: Seq<char>,
        tag: Seq<char>,
        kind: Vtype,
        target: Seq<char>,
    ) -> bool {
        exists|s1: Store, s2: Store, item_id: u128, tag_id: u128|
            {
                &&& #[trigger] self.resolves(s1, item_id, kind.name(), kind.name(), target)
                &&& #[trigger] s1.resolves(s2, tag_id, tag_type, Vtype::Tagname.name(), tag)
                &&& s2.joins(after, tag_id, item_id)
            }
    }

    /// `after` is this store where a tagging stopped because the store
    /// failed: at most the two vertices are new, and no edge is.
    pub open spec fn stalled(
        self,
        after: Store,
        tag_type: Seq<char>,
        tag: Seq<char>,
        kind: Vtype,
        target: Seq<char>,
    ) -> bool {
        ||| after == self
        ||| self.adds_bare(after, kind.name())
        ||| exists|s1: Store, item_id: u128| #[trigger]
            self.resolves(s1, item_id, kind.name(), kind.name(), target) && (after == s1
                || s1.adds_bare(after, tag_type))
        ||| exists|s1: Store, item_id: u128, tag_id: u128|
            {
                &&& #[trigger] self.resolves(s1, item_id, kind.name(), kind.name(), target)
                &&& #[trigger] s1.resolves(after, tag_id, tag_type, Vtype::Tagname.name(), tag)
            }
    }
}

impl Store {
    /// A tagging keeps the shape of the store.
    pub proof fn tagging_keeps_shape(
        self,
        after: Store,
        tag_type: Seq<char>,
        tag: Seq<char>,
        kind: Vtype,
        target: Seq<char>,
    )
        requires
            self.well_formed(),
            self.tagged(after, tag_type, tag, kind, target),
        ensures
            after.well_formed(),
    {
        let (s1, s2, item_id, tag_id) = choose|s1: Store, s2: Store, item_id: u128, tag_id: u128|
            {
                &&& #[trigger] self.resolves(s1, item_id, kind.name(), kind.name(), target)
                &&& #[trigger] s1.resolves(s2, tag_id, tag_type, Vtype::Tagname.name(), tag)
                &&& s2.joins(after, tag_id, item_id)
            };
        self.resolving_keeps_shape(s1, item_id, kind.name(), kind.name(), target);
        s1.resolving_keeps_shape(s2, tag_id, tag_type, Vtype::Tagname.name(), tag);
        if s2.shared(item_id, tag_id, SCAN_LIMIT as nat) == 0 {
            s2.gain_of_edge_keeps_shape(
                after,
                EdgeRow { outbound: tag_id, kind: edge_kind(), inbound: item_id },
            );
        }
    }

    /// A tagging that stopped because the store failed keeps the shape of
    /// the store.
    pub proof fn stalling_keeps_shape(
        self,
        after: Store,
        tag_type: Seq<char>,
        tag: Seq<char>,
        kind: Vtype,
        target: Seq<char>,
    )
        requires
            self.well_formed(),
            self.stalled(after, tag_type, tag, kind, target),
        ensures
            after.well_formed(),
    {
        if after == self {
        } else if self.adds_bare(after, kind.name()) {
            self.bare_vertex_keeps_shape(after, kind.name());
        } else if exists|s1: Store, item_id: u128| #[trigger]
            self.resolves(s1, item_id, kind.name(), kind.name(), target) && (after == s1
                || s1.adds_bare(after, tag_type)) {
            let (s1, item_id) = choose|s1: Store, item_id: u128| #[trigger]
                self.resolves(s1, item_id, kind.name(), kind.name(), target) && (after == s1
                    || s1.adds_bare(after, tag_type));
            self.resolving_keeps_shape(s1, item_id, kind.name(), kind.name(), target);
            if after != s1 {
                s1.bare_vertex_keeps_shape(after, tag_type);
            }
        } else {
            let (s1, item_id, tag_id) = choose|s1: Store, item_id: u128, tag_id: u128|
                {
                    &&& #[trigger] self.resolves(s1, item_id, kind.name(), kind.name(), target)
                    &&& #[trigger] s1.resolves(after, tag_id, tag_type, Vtype::Tagname.name(), tag)
                };
            self.resolving_keeps_shape(s1, item_id, kind.name(), kind.name(), target);
            s1.resolving_keeps_shape(after, tag_id, tag_type, Vtype::Tagname.name(), tag);
        }
    }

    /// A tagging that stopped because the store failed has added no edge.
    pub proof fn stalled_adds_no_edge(
        self,
        after: Store,
        tag_type: Seq<char>,
        tag: Seq<char>,
        kind: Vtype,
        target: Seq<char>,
    )
        requires
            self.stalled(after, tag_type, tag, kind, target),
        ensures
            after.edges == self.edges,
            after.reversed == self.reversed,
    {
    }
}

/// The names that the library itself gives to vertex types and edges are
/// plain.
pub proof fn fixed_names_are_plain()
    ensures
        plain_kind(edge_kind()),
        plain_kind(Vtype::Path.name()),
        plain_kind(Vtype::Http.name()),
        plain_kind(Vtype::Tagname.name()),
        plain_kind(Vtype::Edgetype.name()),
{
    reveal_strlit("tags");
    reveal_strlit("Path");
    reveal_strlit("Http");
    reveal_strlit("Tagname");
    reveal_strlit("Edgetype");
}

/// Whether `links` holds the edge `link`.
pub fn holds_link(links: &Vec<Link>, link: &Link) -> (b: bool)
    ensures
        b == edge_rows(links@).contains(link@),
{
    let mut i: usize = 0;
    while i < links.len()
        invariant
            i <= links.len(),
            forall|j: int| 0 <= j < i ==> edge_rows(links@)[j] != link@,
        decreases links.len() - i,
    {
        let other: &Link = &links[i];
        if other.outbound == link.outbound && other.inbound == link.inbound && other.kind
            == link.kind {
            assert(edge_rows(links@)[i as int] == link@);
            return true;
        }
        i = i + 1;
    }
    false
}

/// How many of the edges `entering` are among the edges `leaving`.
pub fn count_shared(entering: &Vec<Link>, leaving: &Vec<Link>) -> (n: usize)
    ensures
        n == edge_rows(entering@).filter(among(edge_rows(leaving@))).len(),
{
    let ghost rows = edge_rows(entering@);
    let ghost both = among(edge_rows(leaving@));
    let mut n: usize = 0;
    let mut i: usize = 0;
    assert(rows.take(0).filter(both) =~= Seq::<EdgeRow>::empty()) by {
        reveal(Seq::filter);
    }
    while i < entering.len()
        invariant
            i <= entering.len(),
            rows == edge_rows(entering@),
            both == among(edge_rows(leaving@)),
            n == rows.take(i as int).filter(both).len(),
            n <= i,
        decreases entering.len() - i,
    {
        proof {
            rows.take(i as int).lemma_filter_len_push(both, rows[i as int]);
            assert(rows.take(i as int).push(rows[i as int]) =~= rows.take(i + 1));
        }
        if holds_link(leaving, &entering[i]) {
            n = n + 1;
        }
        i = i + 1;
    }
    assert(rows.take(entering.len() as int) =~= rows);
    n
}

impl GraphConn {
    /// How many edges lead from `outbound_v` to `inbound_v`, counted over what
    /// the store lists: the edges into `inbound_v` that are also among the
    /// edges out of `outbound_v`. In a store of good shape whose edge tables
    /// a listing walks to their end, that is the number of edges from
    /// `outbound_v` to `inbound_v`. Fails only where the store does.
    pub fn find_edges_between_vertices(&self, inbound_v: u128, outbound_v: u128) -> (r: Result<
        usize,
        TagError,
    >)
        ensures
            match r {
                Ok(n) => {
                    &&& n == self@.shared(inbound_v, outbound_v, SCAN_LIMIT as nat)
                    &&& self@.well_formed() && self@.has_room(0, 0) ==> n == self@.links_between(
                        outbound_v,
                        inbound_v,
                    )
                },
                Err(e) => e is Backend,
            },
    {
        proof {
            if self@.well_formed() && self@.has_room(0, 0) {
                self@.shared_counts_links(inbound_v, outbound_v);
            }
        }
        let mut target: Vec<u128> = Vec::new();
        target.push(inbound_v);
        let mut source: Vec<u128> = Vec::new();
        source.push(outbound_v);
        assert(target@ =~= seq![inbound_v]);
        assert(source@ =~= seq![outbound_v]);
        let entering = match backend::edges_at(&self.trans, &target, false, SCAN_LIMIT) {
            Ok(links) => links,
            Err(e) => {
                return Err(TagError::Backend(e));
            },
        };
        let leaving = match backend::edges_at(&self.trans, &source, true, SCAN_LIMIT) {
            Ok(links) => links,
            Err(e) => {
                return Err(TagError::Backend(e));
            },
        };
        Ok(count_shared(&entering, &leaving))
    }

    /// Asks for one edge of kind `kind` from `from` to `to`, and says whether
    /// both are vertices. Where they are, the store holds the edge
    /// afterwards, once, whether it held it before or not; where one is
    /// missing, nothing changes. It is the caller's part to look first
    /// whether the two are joined already.
    ///
    /// Fails with `InvalidType` exactly when the store does not accept
    /// `kind`. A failure changes nothing.
    pub fn create_edge(&mut self, from: u128, to: u128, kind: &str) -> (r: Result<bool, TagError>)
        ensures
            match r {
                Ok(made) => {
                    &&& type_accepts(kind@)
                    &&& made == (old(self)@.has_vertex(from) && old(self)@.has_vertex(to))
                    &&& old(self)@.gains_edge(
                        final(self)@,
                        (EdgeRow { outbound: from, kind: kind@, inbound: to }),
                    )
                },
                Err(TagError::InvalidType(name)) => !type_accepts(kind@) && name@ == kind@
                    && final(self)@ == old(self)@,
                Err(TagError::Backend(_)) => type_accepts(kind@) && final(self)@ == old(self)@,
                Err(_) => false,
            },
            old(self)@.well_formed() ==> final(self)@.well_formed(),
    {
        proof {
            if old(self)@.well_formed() {
                assert forall|after: Store|
                    old(self)@.gains_edge(
                        after,
                        EdgeRow { outbound: from, kind: kind@, inbound: to },
                    ) implies after.well_formed() by {
                    old(self)@.gain_of_edge_keeps_shape(
                        after,
                        EdgeRow { outbound: from, kind: kind@, inbound: to },
                    );
                }
            }
        }
        if !kind_accepted(kind) {
            return Err(TagError::InvalidType(kind.to_owned()));
        }
        match backend::create_edge(&mut self.trans, from, kind, to) {
            Ok(made) => Ok(made),
            Err(e) => Err(TagError::Backend(e)),
        }
    }

    /// How many edges leave `vertex` (`outward`) or enter it, of the kind
    /// `kind_filter` where one is given.
    ///
    /// Fails with `InvalidType` exactly when a kind is given that the store
    /// does not accept.
    pub fn count_by_direction(&self, vertex: u128, kind_filter: Option<&str>, outward: bool) -> (r:
        Result<u64, TagError>)
        ensures
            match r {
                Ok(n) => n == (if outward {
                    self@.out_degree(vertex, kind_view(kind_filter))
                } else {
                    self@.in_degree(vertex, kind_view(kind_filter))
                }) && (kind_filter matches Some(k) ==> type_accepts(k@)),
                Err(TagError::InvalidType(name)) => kind_filter matches Some(k) && !type_accepts(k@)
                    && name@ == k@,
                Err(TagError::Backend(_)) => kind_filter matches Some(k) ==> type_accepts(k@),
                Err(_) => false,
            },
    {
        match kind_filter {
            Some(k) => {
                if !kind_accepted(k) {
                    return Err(TagError::InvalidType(k.to_owned()));
                }
            },
            None => {},
        }
        match backend::edge_count(&self.trans, vertex, kind_filter, outward) {
            Ok(n) => Ok(n),
            Err(e) => Err(TagError::Backend(e)),
        }
    }

    /// The edges that enter the vertices `vec`, vertex by vertex in the order
    /// of `vec`, and of all these the first `SCAN_LIMIT`. Fails only where
    /// the store does.
    pub fn get_edges_of_vertices(&self, vec: Vec<u128>) -> (r: Result<Vec<Link>, TagError>)
        ensures
            match r {
                Ok(links) => edge_rows(links@) == self@.listed_edges(
                    vec@,
                    false,
                    SCAN_LIMIT as nat,
                ),
                Err(e) => e is Backend,
            },
    {
        match backend::edges_at(&self.trans, &vec, false, SCAN_LIMIT) {
            Ok(links) => Ok(links),
            Err(e) => Err(TagError::Backend(e)),
        }
    }

    /// Tags `path_or_http` with `tag`. `on_disk` says whether the target names
    /// an existing entry of the file system. The item vertex is resolved
    /// first, then the tag vertex, of type `tag_type` where it is new; then
    /// the two are joined by one edge from tag to item, unless the store
    /// already lists one.
    ///
    /// In a store of good shape with room for two vertices and an edge, a
    /// scan then finds a vertex for the target and one for the tag, and an
    /// edge leads from the first that it finds for the tag to the first that
    /// it finds for the target.
    ///
    /// Fails with `Classification` exactly when the target is neither a path
    /// nor a web address, and else with `InvalidType` exactly when the store
    /// does not accept `tag_type`; neither changes the store. Where the store
    /// itself fails, vertices may have been added, and no edge has.
    pub fn tag_path_or_http(
        &mut self,
        tag_type: &str,
        tag: String,
        path_or_http: String,
        on_disk: bool,
    ) -> (r: Result<(), TagError>)
        ensures
            match r {
                Ok(_) => {
                    &&& classified(path_or_http@, on_disk) matches Some(kind)
                    &&& type_accepts(tag_type@)
                    &&& old(self)@.tagged(final(self)@, tag_type@, tag@, kind, path_or_http@)
                },
                Err(TagError::Classification(t)) => {
                    &&& classified(path_or_http@, on_disk) is None
                    &&& t@ == path_or_http@
                    &&& final(self)@ == old(self)@
                },
                Err(TagError::InvalidType(name)) => {
                    &&& classified(path_or_http@, on_disk) is Some
                    &&& !type_accepts(tag_type@)
                    &&& name@ == tag_type@
                    &&& final(self)@ == old(self)@
                },
                Err(TagError::Backend(_)) => {
                    &&& classified(path_or_http@, on_disk) matches Some(kind)
                    &&& type_accepts(tag_type@)
                    &&& old(self)@.stalled(final(self)@, tag_type@, tag@, kind, path_or_http@)
                },
                Err(_) => false,
            },
            old(self)@.well_formed() ==> final(self)@.well_formed(),
            old(self)@.well_formed() && old(self)@.has_room(2, 1) && r is Ok ==> ({
                let kind = classified(path_or_http@, on_disk)->Some_0;
                let items = final(self)@.matching(kind.name(), path_or_http@, SCAN_LIMIT as nat);
                let tags = final(self)@.matching(Vtype::Tagname.name(), tag@, SCAN_LIMIT as nat);
                &&& items.len() > 0
                &&& tags.len() > 0
                &&& final(self)@.links_between(tags[0], items[0]) > 0
            }),
    {
        proof {
            if old(self)@.well_formed() {
                assert forall|after: Store, kind: Vtype|
                    old(self)@.tagged(after, tag_type@, tag@, kind, path_or_http@) || old(
                        self,
                    )@.stalled(
                        after,
                        tag_type@,
                        tag@,
                        kind,
                        path_or_http@,
                    ) implies after.well_formed() by {
                    if old(self)@.tagged(after, tag_type@, tag@, kind, path_or_http@) {
                        old(self)@.tagging_keeps_shape(after, tag_type@, tag@, kind, path_or_http@);
                    } else {
                        old(self)@.stalling_keeps_shape(after, tag_type@, tag@, kind, path_or_http@);
                    }
                }
            }
        }
        let kind = classify(path_or_http.as_str(), on_disk)?;
        if !kind_accepted(tag_type) {
            return Err(TagError::InvalidType(tag_type.to_owned()));
        }
        let kind_name = kind.to_string();
        proof {
            fixed_names_are_plain();
        }
        let item_ok = kind_accepted(kind_name.as_str());
        let edge_ok = kind_accepted("tags");
        assert(item_ok && edge_ok);
        let item_id = match self.find_vertex_or_create(
            kind_name.as_str(),
            path_or_http.as_str(),
            kind_name.as_str(),
        ) {
            Ok(id) => id,
            Err(e) => {
                return Err(e);
            },
        };
        let ghost s1 = self@;
        let property = Vtype::Tagname.to_string();
        let tag_id = match self.find_vertex_or_create(tag_type, tag.as_str(), property.as_str()) {
            Ok(id) => id,
            Err(e) => {
                return Err(e);
            },
        };
        let ghost s2 = self@;
        let n = match self.find_edges_between_vertices(item_id, tag_id) {
            Ok(n) => n,
            Err(e) => {
                return Err(e);
            },
        };
        if n == 0 {
            match self.create_edge(tag_id, item_id, "tags") {
                Ok(_) => {},
                Err(e) => {
                    return Err(e);
                },
            }
        }
        assert(old(self)@.resolves(s1, item_id, kind.name(), kind.name(), path_or_http@)
            && s1.resolves(s2, tag_id, tag_type@, Vtype::Tagname.name(), tag@) && s2.joins(
            self@,
            tag_id,
            item_id,
        ));
        proof {
            if old(self)@.well_formed() && old(self)@.has_room(2, 1) {
                old(self)@.after_tagged(self@, tag_type@, tag@, kind, path_or_http@);
            }
        }
        Ok(())
    }

    /// Deletes the vertices whose property `property` is the text
    /// `property_value`, as a scan finds them, with their properties and with
    /// every edge at them. Fails only where the store does, and then changes
    /// nothing.
    pub fn delete_vertices_with_property_value(&mut self, property: &str, property_value: &str) -> (r:
        Result<(), TagError>)
        ensures
            match r {
                Ok(_) => final(self)@ == old(self)@.without(
                    old(self)@.matching(property@, property_value@, SCAN_LIMIT as nat),
                ),
                Err(e) => e is Backend && final(self)@ == old(self)@,
            },
            old(self)@.well_formed() ==> final(self)@.well_formed(),
    {
        proof {
            if old(self)@.well_formed() {
                old(self)@.deletion_keeps_shape(
                    old(self)@.matching(property@, property_value@, SCAN_LIMIT as nat),
                );
            }
        }
        let found = self.find_vertices_with_property_value(property, property_value)?;
        match backend::delete_vertices(&mut self.trans, &found) {
            Ok(_) => Ok(()),
            Err(e) => Err(TagError::Backend(e)),
        }
    }
}

} // verus!
