//! The statements for the relational tables: `dim_tag` holds the tags and
//! `fct_tag` the paths that each tag is on. The statements are built here as
//! text; running them is the caller's part.

use vstd::prelude::*;
use vstd::string::{StrSliceExecFns, StringExecFns};

verus! {

/// The decimal digit `d` as a character.
pub open spec fn digit(d: int) -> char {
    ((48 + d) as u8) as char
}

/// The decimal writing of a natural number.
pub open spec fn natural(n: nat) -> Seq<char>
    decreases n,
{
    if n < 10 {
        seq![digit(n as int)]
    } else {
        natural(n / 10).push(digit((n % 10) as int))
    }
}

/// The decimal writing of an integer, with `-` before a negative one.
pub open spec fn decimal(n: int) -> Seq<char> {
    if n < 0 {
        seq!['-'] + natural((-n) as nat)
    } else {
        natural(n as nat)
    }
}

/// The texts `parts`, with `sep` between each two.
pub open spec fn joined(parts: Seq<Seq<char>>, sep: Seq<char>) -> Seq<char>
    decreases parts.len(),
{
    if parts.len() == 0 {
        Seq::empty()
    } else if parts.len() == 1 {
        parts[0]
    } else {
        joined(parts.drop_last(), sep) + sep + parts.last()
    }
}

/// The views of the strings `v`.
pub open spec fn views(v: Seq<String>) -> Seq<Seq<char>> {
    v.map_values(|s: String| s@)
}

/// The pieces of `s` between its commas.
pub open spec fn pieces(s: Seq<char>) -> Seq<Seq<char>>
    decreases s.len(),
{
    if s.len() == 0 {
        seq![Seq::empty()]
    } else if s.last() == ',' {
        pieces(s.drop_last()).push(Seq::empty())
    } else {
        let before = pieces(s.drop_last());
        before.update(before.len() - 1, before.last().push(s.last()))
    }
}

/// Each text of `parts` between two single quotes.
pub open spec fn each_quoted(parts: Seq<Seq<char>>) -> Seq<Seq<char>> {
    parts.map_values(|p: Seq<char>| seq!['\''] + p + seq!['\''])
}

/// The name of the database file that belongs to `path`.
pub open spec fn db_path_text(path: Seq<char>) -> Seq<char> {
    path + ".rtag.db"@
}

/// The statement that lists every tag with its paths.
pub open spec fn show_all_text() -> Seq<char> {
    "SELECT id, tag_name, path, time_created FROM dim_tag join fct_tag using (id)"@
}

/// The statement that puts `path` under the tag with the id `tag_id`.
pub open spec fn insert_path_text(tag_id: int, path: Seq<char>) -> Seq<char> {
    "insert into fct_tag (id, path) values ("@ + decimal(tag_id) + ", '"@ + path + "')"@
}

/// The statement that asks for the id of the tag `tag`.
pub open spec fn id_of_tag_text(tag: Seq<char>) -> Seq<char> {
    "select id from dim_tag where tag_name = '"@ + tag + "'"@
}

/// The statement that counts how often `path` is under the tag `tag`.
pub open spec fn count_path_tag_text(path: Seq<char>, tag: Seq<char>) -> Seq<char> {
    "select count(*) from dim_tag a join fct_tag b using (id) where path = '"@ + path
        + "' and tag_name = '"@ + tag + "'"@
}

/// The statement that creates the tag `tag`.
pub open spec fn new_tag_text(tag: Seq<char>) -> Seq<char> {
    "insert into dim_tag (tag_name) values ('"@ + tag + "')"@
}

/// The statement that lists the tags named in `tags`, a list that is written
/// as the statement needs it.
pub open spec fn show_tags_text(tags: Seq<char>) -> Seq<char> {
    show_all_text() + " where tag_name in ("@ + tags + ")"@
}

/// The statement that lists the paths that hold one of `paths`.
pub open spec fn show_paths_text(paths: Seq<Seq<char>>) -> Seq<char> {
    show_all_text() + " where "@ + "path like '%"@ + joined(paths, "%' or path like '%"@) + "%'"@
}

/// The statement that removes the paths of the tags with the ids `ids`.
pub open spec fn delete_paths_text(ids: Seq<char>) -> Seq<char> {
    "delete from fct_tag where id in ("@ + ids + ")"@
}

/// The statement that removes the tags with the ids `ids`.
pub open spec fn delete_tags_text(ids: Seq<char>) -> Seq<char> {
    "delete from dim_tag where id in ("@ + ids + ")"@
}

/// The statement that asks for the ids of the tags `tags`.
pub open spec fn ids_of_tags_text(tags: Seq<Seq<char>>) -> Seq<char> {
    "select id from dim_tag where tag_name in ("@ + joined(tags, ","@) + ")"@
}

/// What is to be done to put a path under a tag.
#[derive(Debug, Clone, Copy, PartialEq, Eq, Structural)]
pub enum InsertPlan {
    /// The path is under the tag already, or the count could not be had:
    /// nothing is written.
    Nothing,
    /// The tag exists with this id: the path is put under it.
    UnderTag(i32),
    /// The tag does not exist: it is created, its id is asked for, and the
    /// path is put under it.
    CreateTag,
}

/// The plan for putting a path under a tag, from how often the path is under
/// the tag already, and the id of the tag; each is `None` where the database
/// could not say.
pub open spec fn planned(count: Option<i32>, tag_id: Option<i32>) -> InsertPlan {
    match count {
        Some(0) => match tag_id {
            Some(id) => InsertPlan::UnderTag(id),
            None => InsertPlan::CreateTag,
        },
        _ => InsertPlan::Nothing,
    }
}

/// Decides what is to be done to put a path under a tag.
pub fn insert_plan(count: Option<i32>, tag_id: Option<i32>) -> (plan: InsertPlan)
    ensures
        plan == planned(count, tag_id),
{
    match count {
        Some(n) => {
            if n == 0 {
                match tag_id {
                    Some(id) => InsertPlan::UnderTag(id),
                    None => InsertPlan::CreateTag,
                }
            } else {
                InsertPlan::Nothing
            }
        },
        None => InsertPlan::Nothing,
    }
}

/// Saves what the statements have written. The database writes each
/// statement through as it runs, so nothing is left to do.
pub fn save_to_sqlite() {
}

/// The digit `d` as text.
fn digit_text(d: u64) -> (s: &'static str)
    requires
        d < 10,
    ensures
        s@ == seq![digit(d as int)],
{
    proof {
        reveal_strlit("0");
        reveal_strlit("1");
        reveal_strlit("2");
        reveal_strlit("3");
        reveal_strlit("4");
        reveal_strlit("5");
        reveal_strlit("6");
        reveal_strlit("7");
        reveal_strlit("8");
        reveal_strlit("9");
    }
    let s = if d == 0 {
        "0"
    } else if d == 1 {
        "1"
    } else if d == 2 {
        "2"
    } else if d == 3 {
        "3"
    } else if d == 4 {
        "4"
    } else if d == 5 {
        "5"
    } else if d == 6 {
        "6"
    } else if d == 7 {
        "7"
    } else if d == 8 {
        "8"
    } else {
        "9"
    };
    assert(s@ =~= seq![digit(d as int)]);
    s
}

/// Appends the decimal writing of `n` to `s`.
fn push_natural(s: &mut String, n: u64)
    ensures
        final(s)@ == old(s)@ + natural(n as nat),
    decreases n,
{
    if n >= 10 {
        push_natural(s, n / 10);
    }
    s.append(digit_text(n % 10));
    assert(s@ =~= old(s)@ + natural(n as nat));
}

/// Writes `n` in decimal.
pub fn to_decimal(n: i32) -> (s: String)
    ensures
        s@ == decimal(n as int),
{
    let mut s = String::new();
    if n < 0 {
        s.append("-");
        proof {
            reveal_strlit("-");
        }
        let size: u64 = (-(n as i64)) as u64;
        push_natural(&mut s, size);
        assert(s@ =~= decimal(n as int));
    } else {
        push_natural(&mut s, n as u64);
        assert(s@ =~= decimal(n as int));
    }
    s
}

/// Puts `sep` between each two of the texts `parts`.
pub fn join(parts: &Vec<String>, sep: &str) -> (s: String)
    ensures
        s@ == joined(views(parts@), sep@),
{
    let ghost texts = views(parts@);
    let mut s = String::new();
    let mut i: usize = 0;
    assert(texts.take(0) =~= Seq::<Seq<char>>::empty());
    while i < parts.len()
        invariant
            i <= parts.len(),
            texts == views(parts@),
            s@ == joined(texts.take(i as int), sep@),
        decreases parts.len() - i,
    {
        assert(texts.take(i + 1).drop_last() =~= texts.take(i as int));
        assert(texts.take(i + 1).last() == parts[i as int]@);
        if i > 0 {
            s.append(sep);
        }
        s.append(parts[i].as_str());
        assert(s@ =~= joined(texts.take(i + 1), sep@)) by {
            if i == 0 {
                assert(Seq::<char>::empty() + parts[i as int]@ =~= parts[i as int]@);
            }
        }
        i = i + 1;
    }
    assert(texts.take(parts.len() as int) =~= texts);
    s
}

/// Cuts `s` at its commas. A text without a comma is one piece, and so is
/// the empty text.
pub fn split_commas(s: &str) -> (r: Vec<String>)
    ensures
        views(r@) == pieces(s@),
{
    let n = s.unicode_len();
    let mut done: Vec<String> = Vec::new();
    let mut start: usize = 0;
    let mut i: usize = 0;
    assert(s@.take(0) =~= Seq::<char>::empty());
    assert(views(done@).push(s@.subrange(0, 0)) =~= pieces(s@.take(0)));
    while i < n
        invariant
            n == s@.len(),
            start <= i <= n,
            pieces(s@.take(i as int)) == views(done@).push(s@.subrange(start as int, i as int)),
        decreases n - i,
    {
        let c = s.get_char(i);
        let ghost before = pieces(s@.take(i as int));
        assert(s@.take(i + 1).drop_last() =~= s@.take(i as int));
        assert(s@.take(i + 1).last() == c);
        if c == ',' {
            let ghost closed = views(done@);
            done.push(s.substring_char(start, i).to_owned());
            assert(views(done@) =~= closed.push(s@.subrange(start as int, i as int)));
            start = i + 1;
            assert(s@.subrange(start as int, start as int) =~= Seq::<char>::empty());
        } else {
            assert(s@.subrange(start as int, i as int).push(c) =~= s@.subrange(
                start as int,
                i + 1,
            ));
            assert(before.update(before.len() - 1, before.last().push(c)) =~= views(done@).push(
                s@.subrange(start as int, i + 1),
            ));
        }
        i = i + 1;
    }
    assert(s@.take(n as int) =~= s@);
    let ghost closed = views(done@);
    done.push(s.substring_char(start, n).to_owned());
    assert(views(done@) =~= closed.push(s@.subrange(start as int, n as int)));
    done
}

/// Puts each of the texts `parts` between two single quotes.
pub fn quote_each(parts: &Vec<String>) -> (r: Vec<String>)
    ensures
        views(r@) == each_quoted(views(parts@)),
{
    let mut out: Vec<String> = Vec::new();
    let mut i: usize = 0;
    assert(views(out@) =~= each_quoted(views(parts@).take(0)));
    while i < parts.len()
        invariant
            i <= parts.len(),
            views(out@) == each_quoted(views(parts@).take(i as int)),
        decreases parts.len() - i,
    {
        proof {
            reveal_strlit("'");
            assert("'"@ =~= seq!['\'']);
            assert(views(parts@).take(i + 1)[i as int] == parts[i as int]@);
        }
        let ghost before = views(out@);
        let quoted = framed("'", parts[i].as_str(), "'");
        out.push(quoted);
        assert(views(out@) =~= before.push(quoted@));
        assert(each_quoted(views(parts@).take(i as int)).push(quoted@) =~= each_quoted(
            views(parts@).take(i + 1),
        ));
        i = i + 1;
    }
    assert(views(parts@).take(parts.len() as int) =~= views(parts@));
    out
}

/// The list for a statement from what was typed: the pieces of `values`
/// between its commas, each between single quotes, with commas between them.
pub fn quoted_list(values: &str) -> (s: String)
    ensures
        s@ == joined(each_quoted(pieces(values@)), ","@),
{
    let parts = split_commas(values);
    let quoted = quote_each(&parts);
    join(&quoted, ",")
}

/// `a`, then `b`, then `c`.
fn framed(a: &str, b: &str, c: &str) -> (s: String)
    ensures
        s@ == a@ + b@ + c@,
{
    let mut s = a.to_owned();
    s.append(b);
    s.append(c);
    s
}

/// The name of the database file that belongs to `path_to_db`.
pub fn db_path(path_to_db: &str) -> (s: String)
    ensures
        s@ == db_path_text(path_to_db@),
{
    let mut s = path_to_db.to_owned();
    s.append(".rtag.db");
    s
}

/// The statement that lists every tag with its paths.
pub fn show_all_query() -> (s: String)
    ensures
        s@ == show_all_text(),
{
    "SELECT id, tag_name, path, time_created FROM dim_tag join fct_tag using (id)".to_owned()
}

/// The statement that puts `path` under the tag with the id `tag_id`.
pub fn insert_path_query(tag_id: i32, path: &str) -> (s: String)
    ensures
        s@ == insert_path_text(tag_id as int, path@),
{
    let id = to_decimal(tag_id);
    let mut s = framed("insert into fct_tag (id, path) values (", id.as_str(), ", '");
    s.append(path);
    s.append("')");
    s
}

/// The statement that asks for the id of the tag `tag_name`.
pub fn id_of_tag_query(tag_name: &str) -> (s: String)
    ensures
        s@ == id_of_tag_text(tag_name@),
{
    framed("select id from dim_tag where tag_name = '", tag_name, "'")
}

/// The statement that counts how often `path` is under the tag `tag`.
pub fn count_path_tag_query(path: &str, tag: &str) -> (s: String)
    ensures
        s@ == count_path_tag_text(path@, tag@),
{
    let mut s = framed(
        "select count(*) from dim_tag a join fct_tag b using (id) where path = '",
        path,
        "' and tag_name = '",
    );
    s.append(tag);
    s.append("'");
    s
}

/// The statement that creates the tag `tag`.
pub fn new_tag_query(tag: &str) -> (s: String)
    ensures
        s@ == new_tag_text(tag@),
{
    framed("insert into dim_tag (tag_name) values ('", tag, "')")
}

/// The statement that lists the tags named in `tags`.
pub fn show_tags_query(tags: &str) -> (s: String)
    ensures
        s@ == show_tags_text(tags@),
{
    let mut s = show_all_query();
    s.append(" where tag_name in (");
    s.append(tags);
    s.append(")");
    s
}

/// The statement that lists the paths that hold one of `paths`.
pub fn show_paths_query(paths: &Vec<String>) -> (s: String)
    ensures
        s@ == show_paths_text(views(paths@)),
{
    let middle = join(paths, "%' or path like '%");
    let mut s = show_all_query();
    s.append(" where ");
    s.append("path like '%");
    s.append(middle.as_str());
    s.append("%'");
    s
}

/// The two statements that remove the tags with the ids `ids`: first their
/// paths, then the tags themselves.
pub fn delete_queries(ids: &str) -> (r: (String, String))
    ensures
        r.0@ == delete_paths_text(ids@),
        r.1@ == delete_tags_text(ids@),
{
    (
        framed("delete from fct_tag where id in (", ids, ")"),
        framed("delete from dim_tag where id in (", ids, ")"),
    )
}

/// The statement that asks for the ids of the tags `tags`.
pub fn ids_of_tags_query(tags: &Vec<String>) -> (s: String)
    ensures
        s@ == ids_of_tags_text(views(tags@)),
{
    let list = join(tags, ",");
    framed("select id from dim_tag where tag_name in (", list.as_str(), ")")
}

} // verus!
