//! The boundary to the graph store. The store is `indradb`'s in-memory
//! datastore, reached through one of its transactions; nothing in this file
//! is proved. Each function makes one call into the store and states what
//! that call does to the four tables of the model.
//!
//! A transaction shares its tables with the datastore it came from. The
//! contracts take the transaction to be the only writer: they hold as long
//! as nothing else writes to that datastore.

use crate::model::{
    entering, kind_view, leaving, of_kind, scan, EdgeRow, PropertyRow, Store, VertexRow,
};
use crate::records::{edge_rows, hit_rows, record_rows, Hit, Link, PropValue, Property, VertexRecord};
use indradb::{Datastore, EdgeDirection, EdgeKey, Transaction, VertexQueryExt};
use vstd::prelude::*;

verus! {

/// `indradb::MemoryTransaction`, the handle through which the store is read
/// and written.
#[verifier::external_type_specification]
#[verifier::external_body]
pub struct ExMemoryTransaction(indradb::MemoryTransaction);

/// `indradb::Error`, what a call into the store fails with.
#[verifier::external_type_specification]
#[verifier::external_body]
pub struct ExStoreError(indradb::Error);

/// The vertex table behind a transaction, in key order.
pub uninterp spec fn stored_vertices(trans: indradb::MemoryTransaction) -> Seq<VertexRow>;

/// The vertex property table behind a transaction, in key order.
pub uninterp spec fn stored_properties(trans: indradb::MemoryTransaction) -> Seq<PropertyRow>;

/// The keys of the edge table behind a transaction, in key order.
pub uninterp spec fn stored_edges(trans: indradb::MemoryTransaction) -> Seq<EdgeRow>;

/// The keys of the reversed edge table behind a transaction, each turned back
/// to point from source to target, in the key order of that table.
pub uninterp spec fn stored_reversed(trans: indradb::MemoryTransaction) -> Seq<EdgeRow>;

/// Whether `indradb::Type::new` accepts `kind` as the name of a type.
pub uninterp spec fn type_accepts(kind: Seq<char>) -> bool;

/// What `serde_json` writes for the JSON string `text`.
pub uninterp spec fn json_text(text: Seq<char>) -> Seq<char>;

/// The four tables behind a transaction.
pub open spec fn store_of(trans: indradb::MemoryTransaction) -> Store {
    Store {
        vertices: stored_vertices(trans),
        properties: stored_properties(trans),
        edges: stored_edges(trans),
        reversed: stored_reversed(trans),
    }
}

/// A letter, digit, dash or underscore of ASCII.
pub open spec fn plain_char(c: char) -> bool {
    ||| 'a' <= c <= 'z'
    ||| 'A' <= c <= 'Z'
    ||| '0' <= c <= '9'
    ||| c == '-'
    ||| c == '_'
}

/// A name of at most 255 plain characters.
pub open spec fn plain_kind(kind: Seq<char>) -> bool {
    kind.len() <= 255 && forall|i: int| 0 <= i < kind.len() ==> plain_char(#[trigger] kind[i])
}

/// Makes a new `indradb::MemoryDatastore` and calls `Datastore::transaction`
/// on it: a handle to a store that holds nothing.
#[verifier::external_body]
pub(crate) fn new_transaction() -> (r: Result<indradb::MemoryTransaction, indradb::Error>)
    ensures
        r matches Ok(trans) ==> store_of(trans) == Store::empty(),
{
    indradb::MemoryDatastore::default().transaction()
}

/// Calls `indradb::Type::new` on `kind` and says whether it accepted the
/// name. The store accepts names of at most 255 bytes made of letters, digits,
/// dashes and underscores, so it accepts every plain name.
#[verifier::external_body]
pub(crate) fn kind_accepted(kind: &str) -> (ok: bool)
    ensures
        ok == type_accepts(kind@),
        plain_kind(kind@) ==> ok,
{
    indradb::Type::new(kind).is_ok()
}

/// Calls `Transaction::create_vertex_from_type`. The store draws a fresh
/// identifier and adds a vertex of the given type under it; where it fails
/// (the identifier was taken) it adds nothing.
#[verifier::external_body]
pub(crate) fn create_vertex(trans: &mut indradb::MemoryTransaction, kind: &str) -> (r: Result<
    u128,
    indradb::Error,
>)
    requires
        type_accepts(kind@),
    ensures
        match r {
            Ok(id) => store_of(*old(trans)).gains_vertex(store_of(*final(trans)), id, kind@),
            Err(_) => store_of(*final(trans)) == store_of(*old(trans)),
        },
{
    let t = indradb::Type::new(kind).unwrap();
    trans.create_vertex_from_type(t).map(|id| id.as_u128())
}

/// Calls `Transaction::get_vertex_count`: the number of vertices in the
/// store.
#[verifier::external_body]
pub(crate) fn count_vertices(trans: &indradb::MemoryTransaction) -> (r: Result<u64, indradb::Error>)
    ensures
        r matches Ok(n) ==> n == stored_vertices(*trans).len(),
{
    trans.get_vertex_count()
}

/// Calls `Transaction::set_vertex_properties` for the one vertex `id`: the
/// property `name` of that vertex becomes the JSON string `value`. Nothing
/// changes where `id` is no vertex.
#[verifier::external_body]
pub(crate) fn set_property(
    trans: &mut indradb::MemoryTransaction,
    id: u128,
    name: &str,
    value: &str,
) -> (r: Result<(), indradb::Error>)
    ensures
        match r {
            Ok(_) => store_of(*old(trans)).sets_property(
                store_of(*final(trans)),
                id,
                name@,
                value@,
            ),
            Err(_) => store_of(*final(trans)) == store_of(*old(trans)),
        },
{
    let q = indradb::SpecificVertexQuery::single(uuid::Uuid::from_u128(id)).property(name);
    trans.set_vertex_properties(q, &serde_json::Value::String(value.to_string()))
}

/// Calls `Transaction::get_vertex_properties` with a range query over all
/// vertices, cut at `limit`: the store walks its first `limit` vertices and
/// lists each that holds the property `name`, with the value.
#[verifier::external_body]
pub(crate) fn scan_property(trans: &indradb::MemoryTransaction, name: &str, limit: u32) -> (r:
    Result<Vec<Hit>, indradb::Error>)
    ensures
        r matches Ok(hits) ==> hit_rows(hits@) == scan(
            stored_vertices(*trans),
            stored_properties(*trans),
            name@,
            limit as nat,
        ),
{
    let range = indradb::RangeVertexQuery::new().limit(limit);
    let found = trans.get_vertex_properties(range.property(name))?;
    let line = |p: indradb::VertexProperty| Hit {
        id: p.id.as_u128(),
        value: match p.value {
            serde_json::Value::String(s) => PropValue::Text(s),
            other => PropValue::Json(other.to_string()),
        },
    };
    Ok(found.into_iter().map(line).collect())
}

/// Calls `Transaction::get_edges` with a query for the edges at one end of
/// the vertices `ids`, cut at `limit`: for each of `ids` that is a vertex, in
/// turn, the edges that leave it (`outward`) or enter it, and of all these
/// the first `limit`.
#[verifier::external_body]
pub(crate) fn edges_at(
    trans: &indradb::MemoryTransaction,
    ids: &Vec<u128>,
    outward: bool,
    limit: u32,
) -> (r: Result<Vec<Link>, indradb::Error>)
    ensures
        r matches Ok(links) ==> edge_rows(links@) == store_of(*trans).listed_edges(
            ids@,
            outward,
            limit as nat,
        ),
{
    let direction = if outward { EdgeDirection::Outbound } else { EdgeDirection::Inbound };
    let from = ids.iter().map(|id| uuid::Uuid::from_u128(*id)).collect();
    let from = indradb::SpecificVertexQuery::new(from);
    let q = indradb::PipeEdgeQuery::new(Box::new(from.into()), direction).limit(limit);
    let link = |e: indradb::Edge| Link {
        outbound: e.key.outbound_id.as_u128(),
        kind: e.key.t.0,
        inbound: e.key.inbound_id.as_u128(),
    };
    Ok(trans.get_edges(q)?.into_iter().map(link).collect())
}

/// Calls `Transaction::get_edge_count`: the number of edges that leave `id`
/// (`outward`) or enter it, of the type `kind` where one is given.
#[verifier::external_body]
pub(crate) fn edge_count(
    trans: &indradb::MemoryTransaction,
    id: u128,
    kind: Option<&str>,
    outward: bool,
) -> (r: Result<u64, indradb::Error>)
    requires
        kind matches Some(k) ==> type_accepts(k@),
    ensures
        r matches Ok(n) ==> n == (if outward {
            stored_edges(*trans).filter(leaving(id)).filter(of_kind(kind_view(kind))).len()
        } else {
            stored_reversed(*trans).filter(entering(id)).filter(of_kind(kind_view(kind))).len()
        }),
{
    let direction = if outward { EdgeDirection::Outbound } else { EdgeDirection::Inbound };
    let t = kind.map(|k| indradb::Type::new(k).unwrap());
    trans.get_edge_count(uuid::Uuid::from_u128(id), t.as_ref(), direction)
}

/// Calls `Transaction::create_edge`. Where both ends are vertices the store
/// holds the edge afterwards and the call returns `true`; where one is
/// missing it returns `false` and changes nothing.
#[verifier::external_body]
pub(crate) fn create_edge(
    trans: &mut indradb::MemoryTransaction,
    outbound: u128,
    kind: &str,
    inbound: u128,
) -> (r: Result<bool, indradb::Error>)
    requires
        type_accepts(kind@),
    ensures
        match r {
            Ok(made) => {
                &&& made == (store_of(*old(trans)).has_vertex(outbound) && store_of(
                    *old(trans),
                ).has_vertex(inbound))
                &&& store_of(*old(trans)).gains_edge(
                    store_of(*final(trans)),
                    (EdgeRow { outbound, kind: kind@, inbound }),
                )
            },
            Err(_) => store_of(*final(trans)) == store_of(*old(trans)),
        },
{
    let t = indradb::Type::new(kind).unwrap();
    let key = EdgeKey::new(uuid::Uuid::from_u128(outbound), t, uuid::Uuid::from_u128(inbound));
    trans.create_edge(&key)
}

/// Calls `Transaction::delete_vertices` for the vertices `ids`: the store
/// removes those that exist, their properties and every edge at them.
#[verifier::external_body]
pub(crate) fn delete_vertices(trans: &mut indradb::MemoryTransaction, ids: &Vec<u128>) -> (r:
    Result<(), indradb::Error>)
    ensures
        match r {
            Ok(_) => store_of(*final(trans)) == store_of(*old(trans)).without(ids@),
            Err(_) => store_of(*final(trans)) == store_of(*old(trans)),
        },
{
    let ids = ids.iter().map(|id| uuid::Uuid::from_u128(*id)).collect();
    trans.delete_vertices(indradb::SpecificVertexQuery::new(ids))
}

/// Calls `Transaction::get_all_vertex_properties` for the vertices `ids`: for
/// each that exists, in turn, all its properties. The store cannot list the
/// properties of the largest identifier there is, so that one is left out of
/// `ids`.
#[verifier::external_body]
pub(crate) fn vertex_records(trans: &indradb::MemoryTransaction, ids: &Vec<u128>) -> (r: Result<
    Vec<VertexRecord>,
    indradb::Error,
>)
    requires
        forall|i: int| 0 <= i < ids.len() ==> ids[i] != u128::MAX,
    ensures
        r matches Ok(records) ==> record_rows(records@) == store_of(*trans).records(ids@),
{
    let ids = ids.iter().map(|id| uuid::Uuid::from_u128(*id)).collect();
    let found = trans.get_all_vertex_properties(indradb::SpecificVertexQuery::new(ids))?;
    let property = |p: indradb::NamedProperty| Property {
        name: p.name,
        value: match p.value {
            serde_json::Value::String(s) => PropValue::Text(s),
            other => PropValue::Json(other.to_string()),
        },
    };
    let record = |v: indradb::VertexProperties| VertexRecord {
        id: v.vertex.id.as_u128(),
        props: v.props.into_iter().map(property).collect(),
    };
    Ok(found.into_iter().map(record).collect())
}

/// Formats an `indradb::Error` through its `Display`.
#[verifier::external_body]
pub(crate) fn describe(e: &indradb::Error) -> String {
    format!("{}", e)
}

/// Writes the text `text` as a JSON string, through `serde_json`.
#[verifier::external_body]
pub(crate) fn json_quoted(text: &str) -> (r: String)
    ensures
        r@ == json_text(text@),
{
    serde_json::Value::String(text.to_string()).to_string()
}

} // verus!
