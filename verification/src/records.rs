//! The plain values that cross the boundary to the store: property values,
//! edges and vertex records, each with its view in the model.

use crate::backend::{json_quoted, json_text};
use crate::model::{EdgeRow, HitRow, PropertyRow, RecordRow, Stored};
use vstd::prelude::*;

verus! {

/// A property value as the store holds it: a text, or the written form of any
/// other JSON value.
#[derive(Debug, Clone)]
pub enum PropValue {
    Text(String),
    Json(String),
}

impl View for PropValue {
    type V = Stored;

    open spec fn view(&self) -> Stored {
        match self {
            PropValue::Text(s) => Stored::Text(s@),
            PropValue::Json(s) => Stored::Json(s@),
        }
    }
}

/// A stored value written as JSON: a text as a JSON string, any other value
/// as the store handed it out.
pub open spec fn rendered(value: Stored) -> Seq<char> {
    match value {
        Stored::Text(s) => json_text(s),
        Stored::Json(s) => s,
    }
}

impl PropValue {
    /// The value written as JSON.
    pub fn rendered(&self) -> (s: String)
        ensures
            s@ == rendered(self@),
    {
        match self {
            PropValue::Text(s) => json_quoted(s.as_str()),
            PropValue::Json(s) => s.clone(),
        }
    }
}

/// A named property of a vertex.
#[derive(Debug, Clone)]
pub struct Property {
    pub name: String,
    pub value: PropValue,
}

/// A vertex with all its properties.
#[derive(Debug, Clone)]
pub struct VertexRecord {
    pub id: u128,
    pub props: Vec<Property>,
}

impl View for VertexRecord {
    type V = RecordRow;

    open spec fn view(&self) -> RecordRow {
        RecordRow { id: self.id, props: property_rows(self.id, self.props@) }
    }
}

/// A directed, typed edge between two vertices.
#[derive(Debug, Clone)]
pub struct Link {
    pub outbound: u128,
    pub kind: String,
    pub inbound: u128,
}

impl View for Link {
    type V = EdgeRow;

    open spec fn view(&self) -> EdgeRow {
        EdgeRow { outbound: self.outbound, kind: self.kind@, inbound: self.inbound }
    }
}

/// One line of a property scan.
#[derive(Debug, Clone)]
pub struct Hit {
    pub id: u128,
    pub value: PropValue,
}

impl View for Hit {
    type V = HitRow;

    open spec fn view(&self) -> HitRow {
        HitRow { id: self.id, value: self.value@ }
    }
}

/// The rows of the properties `props` of vertex `id`.
pub open spec fn property_rows(id: u128, props: Seq<Property>) -> Seq<PropertyRow> {
    props.map_values(|p: Property| PropertyRow { id, name: p.name@, value: p.value@ })
}

/// The rows of the edges `links`.
pub open spec fn edge_rows(links: Seq<Link>) -> Seq<EdgeRow> {
    links.map_values(|l: Link| l@)
}

/// The rows of the scan lines `hits`.
pub open spec fn hit_rows(hits: Seq<Hit>) -> Seq<HitRow> {
    hits.map_values(|h: Hit| h@)
}

/// The rows of the vertex records `records`.
pub open spec fn record_rows(records: Seq<VertexRecord>) -> Seq<RecordRow> {
    records.map_values(|r: VertexRecord| r@)
}

} // verus!
