use rtag::structs::{Item, Tag};
use rtag::traverse::{cut, dedup, shown_texts, MAX_FRONTIER};
use rtag::{GraphConn, TagError, Vtype};

fn sorted(mut v: Vec<String>) -> Vec<String> {
    v.sort();
    v
}

fn library() -> GraphConn {
    let mut conn = GraphConn::in_memory().unwrap();
    let links = [
        ("rust", "www.rust-lang.org"),
        ("rust", "www.crates.io"),
        ("web", "www.crates.io"),
        ("web", "www.w3.org"),
        ("alone", "www.nowhere.org"),
    ];
    for (tag, target) in links.iter() {
        conn.tag_path_or_http("kind", String::from(*tag), String::from(*target), false).unwrap();
    }
    conn
}

#[test]
fn values_are_deduplicated_in_order() {
    assert_eq!(dedup(&vec![]), Vec::<u128>::new());
    assert_eq!(dedup(&vec![3, 1, 3, 2, 1, 1]), vec![3, 1, 2]);
    assert_eq!(dedup(&vec![7, 7, 7]), vec![7]);
    assert_eq!(dedup(&vec![1, 2, 3]), vec![1, 2, 3]);
}

#[test]
fn a_cut_keeps_the_first() {
    assert_eq!(cut(vec![1, 2, 3], 2), vec![1, 2]);
    assert_eq!(cut(vec![1, 2, 3], 3), vec![1, 2, 3]);
    assert_eq!(cut(vec![1, 2, 3], 4), vec![1, 2, 3]);
    assert_eq!(cut(vec![1, 2, 3], 0), Vec::<u128>::new());
    assert_eq!(cut(vec![], 0), Vec::<u128>::new());
}

#[test]
fn neighbours_follow_the_edges() {
    let conn = library();
    let rust = conn.find_tag("rust").unwrap()[0];
    let web = conn.find_tag("web").unwrap()[0];
    let crates = conn.find_vertices_with_property_value("Http", "www.crates.io").unwrap()[0];
    let lang = conn.find_vertices_with_property_value("Http", "www.rust-lang.org").unwrap()[0];

    let mut targets = conn.neighbours(&vec![rust], true).unwrap();
    targets.sort();
    let mut expected = vec![crates, lang];
    expected.sort();
    assert_eq!(targets, expected);

    let mut sources = conn.neighbours(&vec![crates], false).unwrap();
    sources.sort();
    let mut expected = vec![rust, web];
    expected.sort();
    assert_eq!(sources, expected);

    assert_eq!(conn.neighbours(&vec![rust], false).unwrap().len(), 0);
    assert_eq!(conn.neighbours(&vec![crates], true).unwrap().len(), 0);
    assert_eq!(conn.neighbours(&vec![], true).unwrap().len(), 0);
    assert_eq!(conn.neighbours(&vec![12345], true).unwrap().len(), 0);
    assert_eq!(conn.neighbours(&vec![rust, rust], true).unwrap().len(), 4);
    let both = conn.neighbours(&vec![lang, crates], false).unwrap();
    assert_eq!(both.len(), 3);
    assert_eq!(both[0], rust);
}

#[test]
fn a_step_goes_out_and_back() {
    let conn = library();
    let rust = conn.find_tag("rust").unwrap()[0];
    let web = conn.find_tag("web").unwrap()[0];
    let alone = conn.find_tag("alone").unwrap()[0];

    let mut next = conn.expand_frontier(&vec![rust], MAX_FRONTIER).unwrap();
    next.sort();
    let mut expected = vec![rust, web];
    expected.sort();
    assert_eq!(next, expected);

    assert_eq!(conn.expand_frontier(&vec![alone], MAX_FRONTIER).unwrap(), vec![alone]);
    assert_eq!(conn.expand_frontier(&vec![rust], 1).unwrap().len(), 1);
    assert_eq!(conn.expand_frontier(&vec![rust], 0).unwrap().len(), 0);
    assert_eq!(conn.expand_frontier(&vec![], MAX_FRONTIER).unwrap().len(), 0);
    let item = conn.find_vertices_with_property_value("Http", "www.w3.org").unwrap()[0];
    assert_eq!(conn.expand_frontier(&vec![item], MAX_FRONTIER).unwrap().len(), 0);
}

#[test]
fn hops_collect_the_texts_level_by_level() {
    let conn = library();
    let levels = conn.find_by_hops(2, Vtype::Tagname, String::from("rust")).unwrap();
    assert_eq!(levels.len(), 2);
    assert_eq!(sorted(levels[0].clone()), vec!["rust", "web"]);
    assert_eq!(sorted(levels[1].clone()), vec!["rust", "web"]);

    let levels = conn.find_by_hops(3, Vtype::Tagname, String::from("alone")).unwrap();
    assert_eq!(levels, vec![vec!["alone"], vec!["alone"], vec!["alone"]]);

    let levels = conn.find_by_hops(0, Vtype::Tagname, String::from("rust")).unwrap();
    assert_eq!(levels.len(), 0);

    let levels = conn.find_by_hops(1, Vtype::Http, String::from("www.w3.org")).unwrap();
    assert_eq!(levels, vec![Vec::<String>::new()]);
}

#[test]
fn hops_need_exactly_one_start() {
    let mut conn = library();
    match conn.find_by_hops(1, Vtype::Tagname, String::from("missing")) {
        Err(TagError::NotFound(value)) => assert_eq!(value, "missing"),
        other => panic!("unexpected: {:?}", other),
    }
    match conn.find_by_hops(1, Vtype::Path, String::from("rust")) {
        Err(TagError::NotFound(value)) => assert_eq!(value, "rust"),
        other => panic!("unexpected: {:?}", other),
    }
    conn.create_tag("kind", "rust").unwrap();
    match conn.find_by_hops(1, Vtype::Tagname, String::from("rust")) {
        Err(TagError::AmbiguousMatch(value)) => assert_eq!(value, "rust"),
        other => panic!("unexpected: {:?}", other),
    }
}

#[test]
fn records_show_their_first_text() {
    let conn = library();
    let rust = conn.find_tag("rust").unwrap()[0];
    let records = conn.records_of(&vec![rust, 99, rust]).unwrap();
    assert_eq!(shown_texts(&records), vec!["rust", "rust"]);
    assert_eq!(shown_texts(&vec![]), Vec::<String>::new());
}

#[test]
fn a_tag_is_read_with_its_items() {
    let conn = library();
    let web = conn.find_tag("web").unwrap()[0];
    let tag = Tag::new(web, &conn).unwrap();
    assert_eq!(tag.id, web);
    assert_eq!(tag.name, "\"web\"");
    let names = sorted(tag.items.iter().map(|i| i.name.clone()).collect());
    assert_eq!(names, vec!["\"www.crates.io\"", "\"www.w3.org\""]);
    for item in tag.items.iter() {
        assert_eq!(item.itemtype, "Http");
        assert_eq!(item.tags.len(), 0);
    }
    let crates = conn.find_vertices_with_property_value("Http", "www.crates.io").unwrap()[0];
    assert!(tag.items.iter().any(|i| i.id == crates));
}

#[test]
fn records_turn_into_tags_and_items() {
    let conn = library();
    let web = conn.find_tag("web").unwrap()[0];
    let records = conn.records_of(&vec![web]).unwrap();
    let tag = Tag::from_record(&records[0]).unwrap();
    assert_eq!(tag.id, web);
    assert_eq!(tag.name, "\"web\"");
    assert_eq!(tag.items.len(), 0);
    let item = Item::from_record(&records[0]).unwrap();
    assert_eq!(item.id, web);
    assert_eq!(item.itemtype, "Tagname");
    assert_eq!(item.name, "\"web\"");
    assert_eq!(item.tags.len(), 0);
    let bare = rtag::records::VertexRecord { id: 4, props: vec![] };
    assert!(Tag::from_record(&bare).is_none());
    assert!(Item::from_record(&bare).is_none());
}

#[test]
fn tables_skip_tags_that_are_missing_or_ambiguous() {
    let mut conn = library();
    conn.create_tag("kind", "web").unwrap();
    let tags = vec![String::from("missing"), String::from("web"), String::from("alone")];
    let table = conn.show_tags(tags.clone()).unwrap();
    assert_eq!(table, vec![vec!["TAG"], vec!["\"alone\""]]);
    let table = conn.show_tags_and_associated_items(tags, vec![]).unwrap();
    assert_eq!(
        table,
        vec![
            vec!["TAG", "ITEM", "ITEM_TYPE"],
            vec!["\"alone\"", "\"www.nowhere.org\"", "Http"],
        ]
    );
    assert_eq!(conn.show_tags(vec![]).unwrap(), vec![vec!["TAG"]]);
}

#[test]
fn a_tag_without_items_has_no_row_of_items() {
    let mut conn = GraphConn::in_memory().unwrap();
    conn.create_tag("kind", "bare").unwrap();
    let table = conn.show_tags_and_associated_items(vec![String::from("bare")], vec![]).unwrap();
    assert_eq!(table, vec![vec!["TAG", "ITEM", "ITEM_TYPE"]]);
    let table = conn.show_tags(vec![String::from("bare"), String::from("bare")]).unwrap();
    assert_eq!(table, vec![vec!["TAG"], vec!["\"bare\""], vec!["\"bare\""]]);
}
