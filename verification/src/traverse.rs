//! Walking the graph: the vertices at the far end of the edges of a set of
//! vertices, one step of a frontier, and the values met hop by hop.

use crate::backend::{edges_at, vertex_records};
use crate::error::TagError;
use crate::graph::{GraphConn, SCAN_LIMIT};
use crate::kinds::Vtype;
use crate::model::{capped, EdgeRow, RecordRow, Store};
use crate::records::{
    edge_rows, property_rows, record_rows, Link, PropValue, Property, VertexRecord,
};
use vstd::prelude::*;

verus! {

/// The most vertices that a frontier holds in `find_by_hops`.
pub const MAX_FRONTIER: usize = 1024;

/// The target of an edge.
pub open spec fn head() -> spec_fn(EdgeRow) -> u128 {
    |e: EdgeRow| e.inbound
}

/// The source of an edge.
pub open spec fn tail() -> spec_fn(EdgeRow) -> u128 {
    |e: EdgeRow| e.outbound
}

/// The identifiers whose properties the store can list: all but the largest.
pub open spec fn listable() -> spec_fn(u128) -> bool {
    |id: u128| id != u128::MAX
}

/// `s` with each value kept where it occurs first.
pub open spec fn distinct(s: Seq<u128>) -> Seq<u128>
    decreases s.len(),
{
    if s.len() == 0 {
        Seq::empty()
    } else {
        let rest = distinct(s.drop_last());
        if rest.contains(s.last()) {
            rest
        } else {
            rest.push(s.last())
        }
    }
}

/// The text that a record shows: the value of its first property where that
/// is a text, else nothing.
pub open spec fn shown_text() -> spec_fn(RecordRow) -> Option<Seq<char>> {
    |r: RecordRow|
        if r.props.len() > 0 && r.props[0].value is Text {
            Some(r.props[0].value->Text_0)
        } else {
            None
        }
}

/// The views of the strings `v`.
pub open spec fn texts(v: Seq<String>) -> Seq<Seq<char>> {
    v.map_values(|s: String| s@)
}

impl Store {
    /// Where the listed edges out of `ids` lead.
    pub open spec fn targets(self, ids: Seq<u128>) -> Seq<u128> {
        self.listed_edges(ids, true, SCAN_LIMIT as nat).map_values(head())
    }

    /// Where the listed edges into `ids` come from.
    pub open spec fn sources(self, ids: Seq<u128>) -> Seq<u128> {
        self.listed_edges(ids, false, SCAN_LIMIT as nat).map_values(tail())
    }

    /// One step of a frontier, outward then inward: the vertices from which
    /// an edge leads to a target of `frontier`, each once, and of these the
    /// first `max`.
    pub open spec fn step(self, frontier: Seq<u128>, max: nat) -> Seq<u128> {
        capped(distinct(self.sources(self.targets(frontier))), max)
    }

    /// The frontier after `hops` steps from the vertex `start`.
    pub open spec fn frontier_at(self, start: u128, hops: nat, max: nat) -> Seq<u128>
        decreases hops,
    {
        if hops == 0 {
            seq![start]
        } else {
            self.step(self.frontier_at(start, (hops - 1) as nat, max), max)
        }
    }

    /// The records of those of `ids` that the store can list.
    pub open spec fn listed_records(self, ids: Seq<u128>) -> Seq<RecordRow> {
        self.records(ids.filter(listable()))
    }

    /// The texts that the vertices `ids` show.
    pub open spec fn shown(self, ids: Seq<u128>) -> Seq<Seq<char>> {
        self.listed_records(ids).filter_map(shown_text())
    }
}

impl Store {
    /// What the store lists for one vertex: its record where it is a vertex
    /// that the store can list, and nothing else.
    pub proof fn listed_record_of_one(self, id: u128)
        ensures
            self.listed_records(seq![id]) == (if self.has_vertex(id) && id != u128::MAX {
                seq![self.record(id)]
            } else {
                Seq::empty()
            }),
    {
        reveal(Seq::filter);
        let ids = seq![id];
        assert(ids.drop_last() =~= Seq::<u128>::empty());
        assert(ids.last() == id);
        assert(ids.drop_last().filter(listable()) =~= Seq::<u128>::empty());
        if id != u128::MAX {
            assert(ids.filter(listable()) =~= seq![id]);
            assert(self.records(ids.drop_last()) =~= Seq::<RecordRow>::empty());
            if self.has_vertex(id) {
                assert(self.records(ids) =~= seq![self.record(id)]);
            }
        } else {
            assert(ids.filter(listable()) =~= Seq::<u128>::empty());
        }
    }
}

/// Keeps each value of `ids` where it occurs first.
pub fn dedup(ids: &Vec<u128>) -> (r: Vec<u128>)
    ensures
        r@ == distinct(ids@),
{
    let mut out: Vec<u128> = Vec::new();
    let mut i: usize = 0;
    assert(ids@.take(0) =~= Seq::<u128>::empty());
    while i < ids.len()
        invariant
            i <= ids.len(),
            out@ == distinct(ids@.take(i as int)),
        decreases ids.len() - i,
    {
        let id = ids[i];
        assert(ids@.take(i + 1).drop_last() =~= ids@.take(i as int));
        let mut seen = false;
        let mut j: usize = 0;
        while j < out.len()
            invariant
                j <= out.len(),
                !seen ==> forall|k: int| 0 <= k < j ==> out@[k] != id,
                seen ==> out@.contains(id),
            decreases out.len() - j,
        {
            if out[j] == id {
                seen = true;
            }
            j = j + 1;
        }
        if !seen {
            out.push(id);
        }
        i = i + 1;
    }
    assert(ids@.take(ids.len() as int) =~= ids@);
    out
}

/// The first `max` values of `ids`.
pub fn cut(ids: Vec<u128>, max: usize) -> (r: Vec<u128>)
    ensures
        r@ == capped(ids@, max as nat),
{
    if ids.len() <= max {
        return ids;
    }
    let mut out: Vec<u128> = Vec::new();
    let mut i: usize = 0;
    while i < max
        invariant
            i <= max < ids.len(),
            out@ == ids@.take(i as int),
        decreases max - i,
    {
        out.push(ids[i]);
        assert(ids@.take(i as int).push(ids@[i as int]) =~= ids@.take(i + 1));
        i = i + 1;
    }
    out
}

/// The identifiers of `ids` whose properties the store can list: all but the
/// largest there is.
pub fn listable_ids(ids: &Vec<u128>) -> (asked: Vec<u128>)
    ensures
        asked@ == ids@.filter(listable()),
        forall|k: int| 0 <= k < asked.len() ==> asked[k] != u128::MAX,
{
    let mut asked: Vec<u128> = Vec::new();
    let mut i: usize = 0;
    assert(ids@.take(0).filter(listable()) =~= Seq::<u128>::empty()) by {
        reveal(Seq::filter);
    }
    while i < ids.len()
        invariant
            i <= ids.len(),
            asked@ == ids@.take(i as int).filter(listable()),
            forall|k: int| 0 <= k < asked.len() ==> asked[k] != u128::MAX,
        decreases ids.len() - i,
    {
        proof {
            ids@.take(i as int).lemma_filter_push(ids@[i as int], listable());
            assert(ids@.take(i as int).push(ids@[i as int]) =~= ids@.take(i + 1));
        }
        if ids[i] != u128::MAX {
            asked.push(ids[i]);
        }
        i = i + 1;
    }
    assert(ids@.take(ids.len() as int) =~= ids@);
    asked
}

/// The far ends of the edges `links`: their targets where `outward`, else
/// their sources.
pub fn far_ends(links: &Vec<Link>, outward: bool) -> (found: Vec<u128>)
    ensures
        found@ == edge_rows(links@).map_values(if outward { head() } else { tail() }),
{
    let ghost rows = edge_rows(links@);
    let ghost end = if outward { head() } else { tail() };
    let mut found: Vec<u128> = Vec::new();
    let mut i: usize = 0;
    while i < links.len()
        invariant
            i <= links.len(),
            rows == edge_rows(links@),
            end == (if outward { head() } else { tail() }),
            found@ == rows.take(i as int).map_values(end),
        decreases links.len() - i,
    {
        let link: &Link = &links[i];
        assert(rows[i as int] == link@);
        let id = if outward { link.inbound } else { link.outbound };
        found.push(id);
        assert(rows.take(i as int).map_values(end).push(end(rows[i as int]))
            =~= rows.take(i + 1).map_values(end));
        i = i + 1;
    }
    assert(rows.take(links.len() as int) =~= rows);
    found
}

/// The one vertex of `found`, the vertices that hold `value`.
///
/// Fails with `NotFound` exactly when `found` is empty, and with
/// `AmbiguousMatch` exactly when it holds more than one vertex; each holds
/// `value`.
pub fn only_one(found: &Vec<u128>, value: String) -> (r: Result<u128, TagError>)
    ensures
        match r {
            Ok(id) => found.len() == 1 && id == found[0],
            Err(TagError::NotFound(v)) => found.len() == 0 && v@ == value@,
            Err(TagError::AmbiguousMatch(v)) => found.len() > 1 && v@ == value@,
            Err(_) => false,
        },
{
    if found.len() == 0 {
        Err(TagError::NotFound(value))
    } else if found.len() > 1 {
        Err(TagError::AmbiguousMatch(value))
    } else {
        Ok(found[0])
    }
}

/// The texts that the records show.
pub fn shown_texts(records: &Vec<VertexRecord>) -> (r: Vec<String>)
    ensures
        texts(r@) == record_rows(records@).filter_map(shown_text()),
{
    let ghost rows = record_rows(records@);
    let mut out: Vec<String> = Vec::new();
    let mut i: usize = 0;
    assert(rows.take(0).filter_map(shown_text()) =~= Seq::<Seq<char>>::empty());
    assert(texts(out@) =~= Seq::<Seq<char>>::empty());
    while i < records.len()
        invariant
            i <= records.len(),
            rows == record_rows(records@),
            texts(out@) == rows.take(i as int).filter_map(shown_text()),
        decreases records.len() - i,
    {
        proof {
            rows.lemma_filter_map_take_succ(shown_text(), i as int);
        }
        let record: &VertexRecord = &records[i];
        assert(rows[i as int] == record@);
        let ghost before = out@;
        if record.props.len() > 0 {
            match &record.props[0].value {
                PropValue::Text(s) => {
                    out.push(s.clone());
                    assert(texts(out@) =~= texts(before).push(s@));
                },
                PropValue::Json(_) => {},
            }
        }
        i = i + 1;
    }
    assert(rows.take(records.len() as int) =~= rows);
    out
}

impl GraphConn {
    /// The records of those of `ids` that are vertices, in the order of
    /// `ids`. The store cannot list the properties of the largest identifier
    /// there is; it is passed over. Fails only where the store does.
    pub fn records_of(&self, ids: &Vec<u128>) -> (r: Result<Vec<VertexRecord>, TagError>)
        ensures
            match r {
                Ok(records) => record_rows(records@) == self@.listed_records(ids@),
                Err(e) => e is Backend,
            },
    {
        let asked = listable_ids(ids);
        match vertex_records(&self.trans, &asked) {
            Ok(records) => Ok(records),
            Err(e) => Err(TagError::Backend(e)),
        }
    }

    /// Everything that vertex `id` holds: its properties in the order of the
    /// store.
    ///
    /// Fails with `UnknownVertex` exactly when `id` is no vertex, or is the
    /// largest identifier there is, which the store cannot list.
    pub fn get_properties(&self, id: u128) -> (r: Result<Vec<Property>, TagError>)
        ensures
            match r {
                Ok(props) => {
                    &&& self@.has_vertex(id)
                    &&& id != u128::MAX
                    &&& property_rows(id, props@) == self@.record(id).props
                },
                Err(TagError::UnknownVertex(v)) => v == id && !(self@.has_vertex(id) && id
                    != u128::MAX),
                Err(TagError::Backend(_)) => true,
                Err(_) => false,
            },
    {
        let mut ids: Vec<u128> = Vec::new();
        ids.push(id);
        assert(ids@ =~= seq![id]);
        let mut records = self.records_of(&ids)?;
        let ghost listed = records@;
        proof {
            self@.listed_record_of_one(id);
        }
        match records.pop() {
            Some(record) => {
                assert(record_rows(listed).len() == listed.len());
                assert(record == listed[0]);
                assert(record_rows(listed)[0] == record@);
                Ok(record.props)
            },
            None => {
                assert(record_rows(listed).len() == listed.len());
                Err(TagError::UnknownVertex(id))
            },
        }
    }

    /// The vertices at the far end of the edges of `ids`: where the edges out
    /// of them lead (`outward`), or where the edges into them come from, edge
    /// by edge as the store lists them. Fails only where the store does.
    pub fn neighbours(&self, ids: &Vec<u128>, outward: bool) -> (r: Result<Vec<u128>, TagError>)
        ensures
            match r {
                Ok(found) => found@ == (if outward {
                    self@.targets(ids@)
                } else {
                    self@.sources(ids@)
                }),
                Err(e) => e is Backend,
            },
    {
        match edges_at(&self.trans, ids, outward, SCAN_LIMIT) {
            Ok(links) => Ok(far_ends(&links, outward)),
            Err(e) => Err(TagError::Backend(e)),
        }
    }

    /// One step of a frontier, outward then inward: the vertices from which
    /// an edge leads to a target of `frontier`, each once, in the order in
    /// which the store lists them, and of these the first `max`. Fails only
    /// where the store does.
    pub fn expand_frontier(&self, frontier: &Vec<u128>, max: usize) -> (r: Result<
        Vec<u128>,
        TagError,
    >)
        ensures
            match r {
                Ok(next) => next@ == self@.step(frontier@, max as nat),
                Err(e) => e is Backend,
            },
    {
        let targets = self.neighbours(frontier, true)?;
        let sources = self.neighbours(&targets, false)?;
        Ok(cut(dedup(&sources), max))
    }

    /// The texts met hop by hop from the one vertex whose property
    /// `vtype` is the text `property_val`. Level `k` of the result, counted
    /// from 0, holds the texts that the frontier shows after `k + 1` steps of
    /// `expand_frontier` from that vertex, each frontier cut at
    /// `MAX_FRONTIER`.
    ///
    /// Fails with `NotFound` exactly when no vertex holds the value, and with
    /// `AmbiguousMatch` exactly when more than one does.
    pub fn find_by_hops(&self, num_hops: usize, vtype: Vtype, property_val: String) -> (r: Result<
        Vec<Vec<String>>,
        TagError,
    >)
        ensures
            match r {
                Ok(levels) => {
                    let found = self@.matching(vtype.name(), property_val@, SCAN_LIMIT as nat);
                    &&& found.len() == 1
                    &&& levels.len() == num_hops
                    &&& forall|k: int|
                        0 <= k < num_hops ==> texts((#[trigger] levels[k])@) == self@.shown(
                            self@.frontier_at(found[0], (k + 1) as nat, MAX_FRONTIER as nat),
                        )
                },
                Err(TagError::NotFound(value)) => value@ == property_val@ && self@.matching(
                    vtype.name(),
                    property_val@,
                    SCAN_LIMIT as nat,
                ).len() == 0,
                Err(TagError::AmbiguousMatch(value)) => value@ == property_val@ && self@.matching(
                    vtype.name(),
                    property_val@,
                    SCAN_LIMIT as nat,
                ).len() > 1,
                Err(TagError::Backend(_)) => true,
                Err(_) => false,
            },
    {
        let property = vtype.to_string();
        let found = self.find_vertices_with_property_value(
            property.as_str(),
            property_val.as_str(),
        )?;
        let start = only_one(&found, property_val)?;
        let mut frontier: Vec<u128> = Vec::new();
        frontier.push(start);
        assert(frontier@ =~= seq![start]);
        let mut levels: Vec<Vec<String>> = Vec::new();
        let mut k: usize = 0;
        while k < num_hops
            invariant
                k <= num_hops,
                levels.len() == k,
                frontier@ == self@.frontier_at(start, k as nat, MAX_FRONTIER as nat),
                forall|j: int|
                    0 <= j < k ==> texts((#[trigger] levels[j])@) == self@.shown(
                        self@.frontier_at(start, (j + 1) as nat, MAX_FRONTIER as nat),
                    ),
            decreases num_hops - k,
        {
            frontier = self.expand_frontier(&frontier, MAX_FRONTIER)?;
            let records = self.records_of(&frontier)?;
            let level = shown_texts(&records);
            levels.push(level);
            k = k + 1;
        }
        Ok(levels)
    }
}

} // verus!
