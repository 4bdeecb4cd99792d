use rtag::queries::{
    count_path_tag_query, db_path, delete_queries, id_of_tag_query, ids_of_tags_query,
    insert_path_query, insert_plan, join, new_tag_query, quote_each, quoted_list, show_all_query,
    show_paths_query, show_tags_query, split_commas, to_decimal, InsertPlan,
};

fn strings(v: &[&str]) -> Vec<String> {
    v.iter().map(|s| String::from(*s)).collect()
}

#[test]
fn integers_are_written_in_decimal() {
    assert_eq!(to_decimal(0), "0");
    assert_eq!(to_decimal(7), "7");
    assert_eq!(to_decimal(10), "10");
    assert_eq!(to_decimal(-1), "-1");
    assert_eq!(to_decimal(1203), "1203");
    assert_eq!(to_decimal(i32::MAX), "2147483647");
    assert_eq!(to_decimal(i32::MIN), "-2147483648");
    for n in [-100100, -99, 9, 99, 100, 101, 65536] {
        assert_eq!(to_decimal(n), format!("{}", n));
    }
}

#[test]
fn texts_are_joined_with_a_separator() {
    assert_eq!(join(&strings(&[]), ","), "");
    assert_eq!(join(&strings(&["a"]), ","), "a");
    assert_eq!(join(&strings(&["a", "b", "c"]), ", "), "a, b, c");
    assert_eq!(join(&strings(&["", ""]), "-"), "-");
    assert_eq!(join(&strings(&["a", "b"]), ""), "ab");
}

#[test]
fn a_list_is_cut_at_its_commas() {
    assert_eq!(split_commas(""), strings(&[""]));
    assert_eq!(split_commas("a"), strings(&["a"]));
    assert_eq!(split_commas("a,b"), strings(&["a", "b"]));
    assert_eq!(split_commas(",a,,b,"), strings(&["", "a", "", "b", ""]));
    assert_eq!(split_commas("\u{e9}t\u{e9},x"), strings(&["\u{e9}t\u{e9}", "x"]));
    for s in ["", ",", "a,b,c", "tag one,tag two", ",,"] {
        let expected: Vec<String> = s.split(',').map(String::from).collect();
        assert_eq!(split_commas(s), expected);
    }
}

#[test]
fn a_typed_list_is_quoted_for_a_statement() {
    assert_eq!(quote_each(&strings(&["a", ""])), strings(&["'a'", "''"]));
    assert_eq!(quote_each(&strings(&[])), strings(&[]));
    assert_eq!(quoted_list("a,b"), "'a','b'");
    assert_eq!(quoted_list("rust"), "'rust'");
    assert_eq!(quoted_list(""), "''");
}

#[test]
fn the_database_file_is_named_after_the_path() {
    assert_eq!(db_path(""), ".rtag.db");
    assert_eq!(db_path("/home/me/"), "/home/me/.rtag.db");
}

#[test]
fn statements_are_spelled_out() {
    assert_eq!(
        show_all_query(),
        "SELECT id, tag_name, path, time_created FROM dim_tag join fct_tag using (id)"
    );
    assert_eq!(
        insert_path_query(12, "/a/b"),
        "insert into fct_tag (id, path) values (12, '/a/b')"
    );
    assert_eq!(
        insert_path_query(-3, ""),
        "insert into fct_tag (id, path) values (-3, '')"
    );
    assert_eq!(id_of_tag_query("rust"), "select id from dim_tag where tag_name = 'rust'");
    assert_eq!(
        count_path_tag_query("/a", "rust"),
        "select count(*) from dim_tag a join fct_tag b using (id) where path = '/a' and tag_name = 'rust'"
    );
    assert_eq!(new_tag_query("rust"), "insert into dim_tag (tag_name) values ('rust')");
    assert_eq!(
        show_tags_query("'a','b'"),
        "SELECT id, tag_name, path, time_created FROM dim_tag join fct_tag using (id) where tag_name in ('a','b')"
    );
    assert_eq!(
        show_paths_query(&strings(&["x", "y"])),
        "SELECT id, tag_name, path, time_created FROM dim_tag join fct_tag using (id) where path like '%x%' or path like '%y%'"
    );
    assert_eq!(
        show_paths_query(&strings(&[])),
        "SELECT id, tag_name, path, time_created FROM dim_tag join fct_tag using (id) where path like '%%'"
    );
    let (paths, tags) = delete_queries("1,2");
    assert_eq!(paths, "delete from fct_tag where id in (1,2)");
    assert_eq!(tags, "delete from dim_tag where id in (1,2)");
    assert_eq!(
        ids_of_tags_query(&strings(&["'a'", "'b'"])),
        "select id from dim_tag where tag_name in ('a','b')"
    );
    assert_eq!(ids_of_tags_query(&strings(&[])), "select id from dim_tag where tag_name in ()");
}

#[test]
fn a_path_is_put_under_a_tag_only_once() {
    assert_eq!(insert_plan(Some(0), Some(4)), InsertPlan::UnderTag(4));
    assert_eq!(insert_plan(Some(0), None), InsertPlan::CreateTag);
    assert_eq!(insert_plan(Some(1), Some(4)), InsertPlan::Nothing);
    assert_eq!(insert_plan(Some(2), None), InsertPlan::Nothing);
    assert_eq!(insert_plan(Some(-1), Some(4)), InsertPlan::Nothing);
    assert_eq!(insert_plan(None, Some(4)), InsertPlan::Nothing);
    assert_eq!(insert_plan(None, None), InsertPlan::Nothing);
}
