use rtag::graph::holders_of;
use rtag::records::{Hit, Link, PropValue, Property, VertexRecord};
use rtag::tables::{push_item_lines, push_tag_lines};
use rtag::tagging::{count_shared, holds_link};
use rtag::traverse::{far_ends, listable_ids, only_one};
use rtag::{GraphConn, TagError};

fn link(outbound: u128, kind: &str, inbound: u128) -> Link {
    Link { outbound, kind: String::from(kind), inbound }
}

fn text(id: u128, value: &str) -> Hit {
    Hit { id, value: PropValue::Text(String::from(value)) }
}

fn record(id: u128, props: &[(&str, PropValue)]) -> VertexRecord {
    VertexRecord {
        id,
        props: props
            .iter()
            .map(|(name, value)| Property { name: String::from(*name), value: value.clone() })
            .collect(),
    }
}

#[test]
fn holders_are_the_lines_with_the_text() {
    let hits = vec![
        text(5, "a"),
        text(3, "b"),
        Hit { id: 9, value: PropValue::Json(String::from("a")) },
        Hit { id: 8, value: PropValue::Json(String::from("\"a\"")) },
        text(1, "a"),
        text(2, ""),
    ];
    assert_eq!(holders_of(&hits, "a"), vec![5, 1]);
    assert_eq!(holders_of(&hits, "b"), vec![3]);
    assert_eq!(holders_of(&hits, ""), vec![2]);
    assert_eq!(holders_of(&hits, "c"), Vec::<u128>::new());
    assert_eq!(holders_of(&vec![], "a"), Vec::<u128>::new());
}

#[test]
fn shared_edges_are_counted() {
    let entering = vec![link(1, "t", 9), link(2, "t", 9), link(2, "u", 9), link(3, "t", 9)];
    let leaving = vec![link(2, "t", 7), link(2, "t", 9), link(2, "u", 9)];
    assert_eq!(count_shared(&entering, &leaving), 2);
    assert_eq!(count_shared(&leaving, &entering), 2);
    assert_eq!(count_shared(&entering, &vec![]), 0);
    assert_eq!(count_shared(&vec![], &leaving), 0);
    assert_eq!(count_shared(&entering, &entering), 4);
    let twice = vec![link(2, "t", 9), link(2, "t", 9)];
    assert_eq!(count_shared(&twice, &leaving), 2);
    assert_eq!(count_shared(&leaving, &twice), 1);
}

#[test]
fn an_edge_is_found_by_its_ends_and_kind() {
    let links = vec![link(1, "t", 2), link(1, "u", 3)];
    assert!(holds_link(&links, &link(1, "t", 2)));
    assert!(holds_link(&links, &link(1, "u", 3)));
    assert!(!holds_link(&links, &link(1, "u", 2)));
    assert!(!holds_link(&links, &link(2, "t", 1)));
    assert!(!holds_link(&links, &link(1, "T", 2)));
    assert!(!holds_link(&vec![], &link(1, "t", 2)));
}

#[test]
fn far_ends_are_targets_or_sources() {
    let links = vec![link(1, "t", 2), link(3, "u", 4), link(1, "t", 4)];
    assert_eq!(far_ends(&links, true), vec![2, 4, 4]);
    assert_eq!(far_ends(&links, false), vec![1, 3, 1]);
    assert_eq!(far_ends(&vec![], true), Vec::<u128>::new());
}

#[test]
fn the_largest_identifier_is_passed_over() {
    assert_eq!(listable_ids(&vec![u128::MAX, 0, u128::MAX - 1, u128::MAX, 7]), vec![0, u128::MAX - 1, 7]);
    assert_eq!(listable_ids(&vec![u128::MAX]), Vec::<u128>::new());
    assert_eq!(listable_ids(&vec![]), Vec::<u128>::new());
}

#[test]
fn a_start_has_to_be_the_only_one() {
    match only_one(&vec![4], String::from("v")) {
        Ok(id) => assert_eq!(id, 4),
        Err(e) => panic!("unexpected: {:?}", e),
    }
    match only_one(&vec![], String::from("v")) {
        Err(TagError::NotFound(v)) => assert_eq!(v, "v"),
        other => panic!("unexpected: {:?}", other),
    }
    match only_one(&vec![4, 5], String::from("v")) {
        Err(TagError::AmbiguousMatch(v)) => assert_eq!(v, "v"),
        other => panic!("unexpected: {:?}", other),
    }
    match only_one(&vec![4, 4], String::from("v")) {
        Err(TagError::AmbiguousMatch(v)) => assert_eq!(v, "v"),
        other => panic!("unexpected: {:?}", other),
    }
}

#[test]
fn lines_are_appended_to_a_table() {
    let records = vec![
        record(1, &[("Tagname", PropValue::Text(String::from("a")))]),
        record(2, &[]),
        record(3, &[("n", PropValue::Json(String::from("7"))), ("z", PropValue::Text(String::from("b")))]),
    ];
    let mut table = vec![vec![String::from("TAG")]];
    push_tag_lines(&mut table, &records);
    assert_eq!(table, vec![vec!["TAG"], vec!["\"a\""], vec!["7"]]);

    let mut table = vec![];
    push_item_lines(&mut table, &String::from("\"t\""), &records);
    assert_eq!(table, vec![vec!["\"t\"", "\"a\"", "Tagname"], vec!["\"t\"", "7", "n"]]);
    push_item_lines(&mut table, &String::from("x"), &vec![]);
    assert_eq!(table.len(), 2);
}

#[test]
fn an_edge_needs_both_its_ends() {
    let mut conn = GraphConn::in_memory().unwrap();
    let a = conn.create_vertex_with_property("kind", "p", "a").unwrap();
    let b = conn.create_vertex_with_property("kind", "p", "b").unwrap();
    let missing = a.wrapping_add(b).wrapping_add(1);
    assert!(!conn.create_edge(a, missing, "likes").unwrap());
    assert!(!conn.create_edge(missing, b, "likes").unwrap());
    assert_eq!(conn.count_by_direction(a, None, true).unwrap(), 0);
    assert!(conn.create_edge(a, b, "likes").unwrap());
    assert!(conn.create_edge(a, b, "likes").unwrap());
    assert_eq!(conn.count_by_direction(a, None, true).unwrap(), 1);
    assert_eq!(conn.count_by_direction(b, None, false).unwrap(), 1);
    assert!(conn.create_edge(a, b, "knows").unwrap());
    assert!(conn.create_edge(a, a, "likes").unwrap());
    assert_eq!(conn.count_by_direction(a, None, true).unwrap(), 3);
    assert_eq!(conn.count_by_direction(a, Some("likes"), true).unwrap(), 2);
    assert_eq!(conn.find_edges_between_vertices(b, a).unwrap(), 2);
    assert_eq!(conn.find_edges_between_vertices(a, a).unwrap(), 1);
    let listed = conn.get_edges_of_vertices(vec![b]).unwrap();
    assert_eq!(listed.len(), 2);
    assert!(holds_link(&listed, &link(a, "likes", b)));
    assert!(holds_link(&listed, &link(a, "knows", b)));
    match conn.create_edge(a, b, "not a kind") {
        Err(TagError::InvalidType(name)) => assert_eq!(name, "not a kind"),
        other => panic!("unexpected: {:?}", other),
    }
}
