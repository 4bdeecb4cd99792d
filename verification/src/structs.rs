//! A tag with the items it points at, and an item with what it points at,
//! read from the store.

use crate::error::TagError;
use crate::graph::GraphConn;
use crate::model::RecordRow;
use crate::records::{record_rows, rendered, VertexRecord};
use vstd::prelude::*;

verus! {

/// A tag and the items that it tags.
#[derive(Debug)]
pub struct Tag {
    pub id: u128,
    pub name: String,
    pub items: Vec<Item>,
}

/// An item and the tags at the end of its edges.
#[derive(Debug)]
pub struct Item {
    pub id: u128,
    pub itemtype: String,
    pub name: String,
    pub tags: Vec<Tag>,
}

/// What a tag holds beside its items.
pub struct TagRow {
    pub id: u128,
    pub name: Seq<char>,
}

/// What an item holds beside its tags.
pub struct ItemRow {
    pub id: u128,
    pub itemtype: Seq<char>,
    pub name: Seq<char>,
}

/// The tag that a record stands for: named by the record's first property,
/// written as JSON. A record without a property stands for none.
pub open spec fn as_tag() -> spec_fn(RecordRow) -> Option<TagRow> {
    |r: RecordRow|
        if r.props.len() > 0 {
            Some(TagRow { id: r.id, name: rendered(r.props[0].value) })
        } else {
            None
        }
}

/// The item that a record stands for: its type is the name of the record's
/// first property, its name that property's value, written as JSON. A record
/// without a property stands for none.
pub open spec fn as_item() -> spec_fn(RecordRow) -> Option<ItemRow> {
    |r: RecordRow|
        if r.props.len() > 0 {
            Some(
                ItemRow {
                    id: r.id,
                    itemtype: r.props[0].name,
                    name: rendered(r.props[0].value),
                },
            )
        } else {
            None
        }
}

/// The rows of the tags `tags`.
pub open spec fn tag_rows(tags: Seq<Tag>) -> Seq<TagRow> {
    tags.map_values(|t: Tag| t.row())
}

/// The rows of the items `items`.
pub open spec fn item_rows(items: Seq<Item>) -> Seq<ItemRow> {
    items.map_values(|i: Item| i.row())
}

impl Tag {
    /// The tag without its items.
    pub open spec fn row(self) -> TagRow {
        TagRow { id: self.id, name: self.name@ }
    }

    /// The tag that `record` stands for, without items.
    pub fn from_record(record: &VertexRecord) -> (r: Option<Tag>)
        ensures
            match r {
                Some(tag) => as_tag()(record@) == Some(tag.row()) && tag.items@.len() == 0,
                None => as_tag()(record@) is None,
            },
    {
        if record.props.len() == 0 {
            return None;
        }
        Some(Tag { id: record.id, name: record.props[0].value.rendered(), items: Vec::new() })
    }

    /// Reads the tag vertex `id`: its name is the value of its first
    /// property, written as JSON, and its items are the vertices to which its
    /// listed edges lead, edge by edge, each without tags of its own.
    ///
    /// Fails with `UnknownVertex` exactly when the store lists no vertex `id`
    /// or lists it without a property.
    pub fn new(id: u128, engine: &GraphConn) -> (r: Result<Tag, TagError>)
        ensures
            match r {
                Ok(tag) => {
                    let own = engine@.listed_records(seq![id]);
                    &&& own.len() > 0
                    &&& own[0].props.len() > 0
                    &&& tag.id == id
                    &&& tag.name@ == rendered(own[0].props[0].value)
                    &&& item_rows(tag.items@) == engine@.listed_records(
                        engine@.targets(seq![id]),
                    ).filter_map(as_item())
                    &&& forall|i: int| 0 <= i < tag.items.len() ==> tag.items[i].tags@.len() == 0
                },
                Err(TagError::UnknownVertex(v)) => {
                    let own = engine@.listed_records(seq![id]);
                    v == id && (own.len() == 0 || own[0].props.len() == 0)
                },
                Err(TagError::Backend(_)) => true,
                Err(_) => false,
            },
    {
        let mut own_id: Vec<u128> = Vec::new();
        own_id.push(id);
        assert(own_id@ =~= seq![id]);
        let own = engine.records_of(&own_id)?;
        if own.len() == 0 {
            return Err(TagError::UnknownVertex(id));
        }
        assert(record_rows(own@)[0] == own[0]@);
        let bare = match Tag::from_record(&own[0]) {
            Some(tag) => tag,
            None => {
                return Err(TagError::UnknownVertex(id));
            },
        };
        let targets = engine.neighbours(&own_id, true)?;
        let records = engine.records_of(&targets)?;
        let items = items_of(&records);
        Ok(Tag { id, name: bare.name, items })
    }
}

impl Item {
    /// The item without its tags.
    pub open spec fn row(self) -> ItemRow {
        ItemRow { id: self.id, itemtype: self.itemtype@, name: self.name@ }
    }

    /// The item that `record` stands for, without tags.
    pub fn from_record(record: &VertexRecord) -> (r: Option<Item>)
        ensures
            match r {
                Some(item) => as_item()(record@) == Some(item.row()) && item.tags@.len() == 0,
                None => as_item()(record@) is None,
            },
    {
        if record.props.len() == 0 {
            return None;
        }
        let first = &record.props[0];
        Some(
            Item {
                id: record.id,
                itemtype: first.name.clone(),
                name: first.value.rendered(),
                tags: Vec::new(),
            },
        )
    }

    /// Reads the item vertex `id`: its type and its name are both the name
    /// of its first property, and its tags are the vertices to which its
    /// listed edges lead, edge by edge, each without items of its own.
    ///
    /// Fails with `UnknownVertex` exactly when the store lists no vertex `id`
    /// or lists it without a property.
    pub fn new(id: u128, engine: &GraphConn) -> (r: Result<Item, TagError>)
        ensures
            match r {
                Ok(item) => {
                    let own = engine@.listed_records(seq![id]);
                    &&& own.len() > 0
                    &&& own[0].props.len() > 0
                    &&& item.id == id
                    &&& item.itemtype@ == own[0].props[0].name
                    &&& item.name@ == own[0].props[0].name
                    &&& tag_rows(item.tags@) == engine@.listed_records(
                        engine@.targets(seq![id]),
                    ).filter_map(as_tag())
                    &&& forall|i: int| 0 <= i < item.tags.len() ==> item.tags[i].items@.len() == 0
                },
                Err(TagError::UnknownVertex(v)) => {
                    let own = engine@.listed_records(seq![id]);
                    v == id && (own.len() == 0 || own[0].props.len() == 0)
                },
                Err(TagError::Backend(_)) => true,
                Err(_) => false,
            },
    {
        let mut own_id: Vec<u128> = Vec::new();
        own_id.push(id);
        assert(own_id@ =~= seq![id]);
        let own = engine.records_of(&own_id)?;
        if own.len() == 0 {
            return Err(TagError::UnknownVertex(id));
        }
        assert(record_rows(own@)[0] == own[0]@);
        if own[0].props.len() == 0 {
            return Err(TagError::UnknownVertex(id));
        }
        let itemtype = own[0].props[0].name.clone();
        let name = own[0].props[0].name.clone();
        let targets = engine.neighbours(&own_id, true)?;
        let records = engine.records_of(&targets)?;
        let tags = tags_of(&records);
        Ok(Item { id, itemtype, name, tags })
    }
}

/// The items that the records stand for, in their order.
pub fn items_of(records: &Vec<VertexRecord>) -> (r: Vec<Item>)
    ensures
        item_rows(r@) == record_rows(records@).filter_map(as_item()),
        forall|i: int| 0 <= i < r.len() ==> r[i].tags@.len() == 0,
{
    let ghost rows = record_rows(records@);
    let mut out: Vec<Item> = Vec::new();
    let mut i: usize = 0;
    assert(rows.take(0).filter_map(as_item()) =~= Seq::<ItemRow>::empty());
    assert(item_rows(out@) =~= Seq::<ItemRow>::empty());
    while i < records.len()
        invariant
            i <= records.len(),
            rows == record_rows(records@),
            item_rows(out@) == rows.take(i as int).filter_map(as_item()),
            forall|j: int| 0 <= j < out.len() ==> out[j].tags@.len() == 0,
        decreases records.len() - i,
    {
        proof {
            rows.lemma_filter_map_take_succ(as_item(), i as int);
        }
        assert(rows[i as int] == records[i as int]@);
        let ghost before = out@;
        match Item::from_record(&records[i]) {
            Some(item) => {
                out.push(item);
                assert(item_rows(out@) =~= item_rows(before).push(item.row()));
            },
            None => {},
        }
        i = i + 1;
    }
    assert(rows.take(records.len() as int) =~= rows);
    out
}

/// The tags that the records stand for, in their order.
pub fn tags_of(records: &Vec<VertexRecord>) -> (r: Vec<Tag>)
    ensures
        tag_rows(r@) == record_rows(records@).filter_map(as_tag()),
        forall|i: int| 0 <= i < r.len() ==> r[i].items@.len() == 0,
{
    let ghost rows = record_rows(records@);
    let mut out: Vec<Tag> = Vec::new();
    let mut i: usize = 0;
    assert(rows.take(0).filter_map(as_tag()) =~= Seq::<TagRow>::empty());
    assert(tag_rows(out@) =~= Seq::<TagRow>::empty());
    while i < records.len()
        invariant
            i <= records.len(),
            rows == record_rows(records@),
            tag_rows(out@) == rows.take(i as int).filter_map(as_tag()),
            forall|j: int| 0 <= j < out.len() ==> out[j].items@.len() == 0,
        decreases records.len() - i,
    {
        proof {
            rows.lemma_filter_map_take_succ(as_tag(), i as int);
        }
        assert(rows[i as int] == records[i as int]@);
        let ghost before = out@;
        match Tag::from_record(&records[i]) {
            Some(tag) => {
                out.push(tag);
                assert(tag_rows(out@) =~= tag_rows(before).push(tag.row()));
            },
            None => {},
        }
        i = i + 1;
    }
    assert(rows.take(records.len() as int) =~= rows);
    out
}

} // verus!
