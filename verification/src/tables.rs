//! The tables that are shown to the user: the tags that were asked for, and
//! the tags with their items. The tables are built here; printing them is
//! the caller's part.

use crate::error::TagError;
use crate::graph::{GraphConn, SCAN_LIMIT};
use crate::kinds::Vtype;
use crate::model::{RecordRow, Store};
use crate::records::{record_rows, rendered, VertexRecord};
use crate::traverse::texts;
use vstd::prelude::*;

verus! {

/// A table: rows of cells.
pub type Table = Seq<Seq<Seq<char>>>;

/// The view of a table held in vectors.
pub open spec fn grid(rows: Seq<Vec<String>>) -> Table {
    rows.map_values(|row: Vec<String>| texts(row@))
}

/// The head of the table of tags.
pub open spec fn tags_head() -> Seq<Seq<char>> {
    seq!["TAG"@]
}

/// The head of the table of tags and items.
pub open spec fn related_head() -> Seq<Seq<char>> {
    seq!["TAG"@, "ITEM"@, "ITEM_TYPE"@]
}

/// The row of a tag: the value of the record's first property, written as
/// JSON. A record without a property has no row.
pub open spec fn tag_line() -> spec_fn(RecordRow) -> Option<Seq<Seq<char>>> {
    |r: RecordRow|
        if r.props.len() > 0 {
            Some(seq![rendered(r.props[0].value)])
        } else {
            None
        }
}

/// The row of an item under the tag `tag`: the tag, the value of the item's
/// first property, written as JSON, and the name of that property. A record
/// without a property has no row.
pub open spec fn item_line(tag: Seq<char>) -> spec_fn(RecordRow) -> Option<Seq<Seq<char>>> {
    |r: RecordRow|
        if r.props.len() > 0 {
            Some(seq![tag, rendered(r.props[0].value), r.props[0].name])
        } else {
            None
        }
}

impl Store {
    /// The rows of one tag in the table of tags: a row for its vertex where
    /// exactly one vertex holds the tag, none else.
    pub open spec fn rows_of_tag(self, tag: Seq<char>) -> Table {
        let found = self.matching(Vtype::Tagname.name(), tag, SCAN_LIMIT as nat);
        if found.len() == 1 {
            self.listed_records(found).filter_map(tag_line())
        } else {
            Seq::empty()
        }
    }

    /// The rows of the tags `tags`, tag by tag.
    pub open spec fn rows_of_tags(self, tags: Seq<Seq<char>>) -> Table
        decreases tags.len(),
    {
        if tags.len() == 0 {
            Seq::empty()
        } else {
            self.rows_of_tags(tags.drop_last()) + self.rows_of_tag(tags.last())
        }
    }

    /// The rows of one tag in the table of tags and items: where exactly one
    /// vertex holds the tag and has a property, a row for each vertex to
    /// which a listed edge of the tag leads; none else.
    pub open spec fn rows_of_related(self, tag: Seq<char>) -> Table {
        let found = self.matching(Vtype::Tagname.name(), tag, SCAN_LIMIT as nat);
        let own = self.listed_records(found);
        if found.len() == 1 && own.len() > 0 && own[0].props.len() > 0 {
            self.listed_records(self.targets(found)).filter_map(
                item_line(rendered(own[0].props[0].value)),
            )
        } else {
            Seq::empty()
        }
    }

    /// The rows of the tags `tags` with their items, tag by tag.
    pub open spec fn rows_of_all_related(self, tags: Seq<Seq<char>>) -> Table
        decreases tags.len(),
    {
        if tags.len() == 0 {
            Seq::empty()
        } else {
            self.rows_of_all_related(tags.drop_last()) + self.rows_of_related(tags.last())
        }
    }
}

/// Appends to `table` the rows of the tags that the records stand for.
pub fn push_tag_lines(table: &mut Vec<Vec<String>>, records: &Vec<VertexRecord>)
    ensures
        grid(final(table)@) == grid(old(table)@) + record_rows(records@).filter_map(tag_line()),
{
    let ghost rows = record_rows(records@);
    let ghost start = grid(table@);
    let mut i: usize = 0;
    assert(rows.take(0).filter_map(tag_line()) =~= Seq::empty());
    assert(start + Seq::empty() =~= start);
    while i < records.len()
        invariant
            i <= records.len(),
            rows == record_rows(records@),
            grid(table@) == start + rows.take(i as int).filter_map(tag_line()),
        decreases records.len() - i,
    {
        proof {
            rows.lemma_filter_map_take_succ(tag_line(), i as int);
        }
        let record: &VertexRecord = &records[i];
        assert(rows[i as int] == record@);
        if record.props.len() > 0 {
            let ghost before = table@;
            let mut row: Vec<String> = Vec::new();
            row.push(record.props[0].value.rendered());
            assert(texts(row@) =~= seq![rendered(record@.props[0].value)]);
            table.push(row);
            assert(grid(table@) =~= grid(before).push(texts(row@)));
        }
        i = i + 1;
    }
    assert(rows.take(records.len() as int) =~= rows);
}

/// Appends to `table` the rows of the items that the records stand for,
/// under the tag `tag`.
pub fn push_item_lines(table: &mut Vec<Vec<String>>, tag: &String, records: &Vec<VertexRecord>)
    ensures
        grid(final(table)@) == grid(old(table)@) + record_rows(records@).filter_map(
            item_line(tag@),
        ),
{
    let ghost rows = record_rows(records@);
    let ghost start = grid(table@);
    let mut i: usize = 0;
    assert(rows.take(0).filter_map(item_line(tag@)) =~= Seq::empty());
    assert(start + Seq::empty() =~= start);
    while i < records.len()
        invariant
            i <= records.len(),
            rows == record_rows(records@),
            grid(table@) == start + rows.take(i as int).filter_map(item_line(tag@)),
        decreases records.len() - i,
    {
        proof {
            rows.lemma_filter_map_take_succ(item_line(tag@), i as int);
        }
        let record: &VertexRecord = &records[i];
        assert(rows[i as int] == record@);
        if record.props.len() > 0 {
            let ghost before = table@;
            let mut row: Vec<String> = Vec::new();
            row.push(tag.clone());
            row.push(record.props[0].value.rendered());
            row.push(record.props[0].name.clone());
            assert(texts(row@) =~= seq![
                tag@,
                rendered(record@.props[0].value),
                record@.props[0].name,
            ]);
            table.push(row);
            assert(grid(table@) =~= grid(before).push(texts(row@)));
        }
        i = i + 1;
    }
    assert(rows.take(records.len() as int) =~= rows);
}

impl GraphConn {
    /// The table of the tags `tags`: the head `TAG`, then, for each tag that
    /// exactly one vertex holds, a row with the value of that vertex's first
    /// property, written as JSON. Fails only where the store does.
    pub fn show_tags(&self, tags: Vec<String>) -> (r: Result<Vec<Vec<String>>, TagError>)
        ensures
            match r {
                Ok(table) => grid(table@) == seq![tags_head()] + self@.rows_of_tags(texts(tags@)),
                Err(e) => e is Backend,
            },
    {
        let mut table: Vec<Vec<String>> = Vec::new();
        let mut head: Vec<String> = Vec::new();
        head.push("TAG".to_owned());
        assert(texts(head@) =~= tags_head());
        table.push(head);
        assert(grid(table@) =~= seq![tags_head()]);
        let ghost names = texts(tags@);
        let mut i: usize = 0;
        assert(self@.rows_of_tags(names.take(0)) =~= Seq::empty());
        assert(seq![tags_head()] + Seq::empty() =~= seq![tags_head()]);
        while i < tags.len()
            invariant
                i <= tags.len(),
                names == texts(tags@),
                grid(table@) == seq![tags_head()] + self@.rows_of_tags(names.take(i as int)),
            decreases tags.len() - i,
        {
            assert(names.take(i + 1).drop_last() =~= names.take(i as int));
            assert(names[i as int] == tags[i as int]@);
            let found = self.find_tag(tags[i].as_str())?;
            if found.len() == 1 {
                let records = self.records_of(&found)?;
                push_tag_lines(&mut table, &records);
            }
            assert(grid(table@) =~= seq![tags_head()] + self@.rows_of_tags(names.take(i + 1)));
            i = i + 1;
        }
        assert(names.take(tags.len() as int) =~= names);
        Ok(table)
    }

    /// The table of the tags `tags` with their items: the head `TAG`,
    /// `ITEM`, `ITEM_TYPE`, then, for each tag that exactly one vertex holds,
    /// a row for each vertex to which a listed edge of the tag leads, with
    /// the tag, the item and the item's type. Every item of a tag has its
    /// row, whether `items` names it or not. Fails only where the store does.
    pub fn show_tags_and_associated_items(&self, tags: Vec<String>, items: Vec<String>) -> (r:
        Result<Vec<Vec<String>>, TagError>)
        ensures
            match r {
                Ok(table) => grid(table@) == seq![related_head()] + self@.rows_of_all_related(
                    texts(tags@),
                ),
                Err(e) => e is Backend,
            },
    {
        let mut table: Vec<Vec<String>> = Vec::new();
        let mut head: Vec<String> = Vec::new();
        head.push("TAG".to_owned());
        head.push("ITEM".to_owned());
        head.push("ITEM_TYPE".to_owned());
        assert(texts(head@) =~= related_head());
        table.push(head);
        assert(grid(table@) =~= seq![related_head()]);
        let ghost names = texts(tags@);
        let mut i: usize = 0;
        assert(self@.rows_of_all_related(names.take(0)) =~= Seq::empty());
        assert(seq![related_head()] + Seq::empty() =~= seq![related_head()]);
        while i < tags.len()
            invariant
                i <= tags.len(),
                names == texts(tags@),
                grid(table@) == seq![related_head()] + self@.rows_of_all_related(
                    names.take(i as int),
                ),
            decreases tags.len() - i,
        {
            assert(names.take(i + 1).drop_last() =~= names.take(i as int));
            assert(names[i as int] == tags[i as int]@);
            let found = self.find_tag(tags[i].as_str())?;
            if found.len() == 1 {
                let own = self.records_of(&found)?;
                if own.len() > 0 && own[0].props.len() > 0 {
                    assert(record_rows(own@)[0] == own[0]@);
                    let tag = own[0].props[0].value.rendered();
                    let targets = self.neighbours(&found, true)?;
                    let records = self.records_of(&targets)?;
                    push_item_lines(&mut table, &tag, &records);
                }
            }
            assert(grid(table@) =~= seq![related_head()] + self@.rows_of_all_related(
                names.take(i + 1),
            ));
            i = i + 1;
        }
        assert(names.take(tags.len() as int) =~= names);
        Ok(table)
    }
}

} // verus!
