use indradb::{SpecificVertexQuery, Transaction, VertexQueryExt};
use rtag::kinds::has_prefix;
use rtag::records::PropValue;
use rtag::queries::save_to_sqlite;
use rtag::{GraphConn, TagError, Vtype};

#[test]
fn names_are_spelled_as_the_variants() {
    assert_eq!(Vtype::Edgetype.to_string(), "Edgetype");
    assert_eq!(Vtype::Tagname.to_string(), "Tagname");
    assert_eq!(Vtype::Path.to_string(), "Path");
    assert_eq!(Vtype::Http.to_string(), "Http");
}

#[test]
fn prefixes_are_compared_by_characters() {
    assert!(has_prefix("http://x", "http"));
    assert!(has_prefix("http", "http"));
    assert!(has_prefix("anything", ""));
    assert!(has_prefix("", ""));
    assert!(!has_prefix("htt", "http"));
    assert!(!has_prefix("", "w"));
    assert!(!has_prefix("hTtp://x", "http"));
    assert!(has_prefix("\u{e9}t\u{e9}", "\u{e9}t"));
    assert!(!has_prefix("\u{e9}t\u{e9}", "et"));
}

#[test]
fn a_new_store_holds_nothing() {
    let conn = GraphConn::in_memory().unwrap();
    assert_eq!(conn.trans.get_vertex_count().unwrap(), 0);
    assert_eq!(conn.vertex_count().unwrap(), 0);
    assert_eq!(conn.find_tag("x").unwrap().len(), 0);
    assert_eq!(conn.find_edges_between_vertices(1, 2).unwrap(), 0);
    assert_eq!(conn.count_by_direction(1, None, true).unwrap(), 0);
}

#[test]
fn created_vertices_are_distinct() {
    let mut conn = GraphConn::in_memory().unwrap();
    let a = conn.create_vertex_with_property("kind", "name", "same").unwrap();
    let b = conn.create_vertex_with_property("kind", "name", "same").unwrap();
    assert_ne!(a, b);
    let mut found = conn.find_vertices_with_property_value("name", "same").unwrap();
    assert_eq!(found.len(), 2);
    found.sort();
    let mut made = vec![a, b];
    made.sort();
    assert_eq!(found, made);
    let first = conn.find_vertex_or_create("kind", "same", "name").unwrap();
    assert!(first == a || first == b);
    assert_eq!(conn.trans.get_vertex_count().unwrap(), 2);
    assert_eq!(conn.vertex_count().unwrap(), 2);
}

#[test]
fn a_search_compares_name_and_value_exactly() {
    let mut conn = GraphConn::in_memory().unwrap();
    let id = conn.create_vertex_with_property("kind", "name", "value").unwrap();
    assert_eq!(conn.find_vertices_with_property_value("name", "value").unwrap(), vec![id]);
    assert_eq!(conn.find_vertices_with_property_value("name", "Value").unwrap().len(), 0);
    assert_eq!(conn.find_vertices_with_property_value("name", "valu").unwrap().len(), 0);
    assert_eq!(conn.find_vertices_with_property_value("Name", "value").unwrap().len(), 0);
    assert_eq!(conn.find_vertices_with_property_value("value", "name").unwrap().len(), 0);
    assert_eq!(conn.find_tag("value").unwrap().len(), 0);
}

#[test]
fn a_value_that_is_no_text_matches_no_search() {
    let mut conn = GraphConn::in_memory().unwrap();
    let id = conn.create_vertex_with_property("kind", "other", "x").unwrap();
    let q = SpecificVertexQuery::single(uuid::Uuid::from_u128(id)).property("count");
    conn.trans.set_vertex_properties(q, &serde_json::Value::from(42)).unwrap();
    assert_eq!(conn.find_vertices_with_property_value("count", "42").unwrap().len(), 0);
    let props = conn.get_properties(id).unwrap();
    assert_eq!(props.len(), 2);
    assert_eq!(props[0].name, "count");
    match &props[0].value {
        PropValue::Json(text) => assert_eq!(text, "42"),
        other => panic!("unexpected: {:?}", other),
    }
    assert_eq!(props[0].value.rendered(), "42");
    assert_eq!(props[1].name, "other");
    match &props[1].value {
        PropValue::Text(text) => assert_eq!(text, "x"),
        other => panic!("unexpected: {:?}", other),
    }
}

#[test]
fn texts_are_written_as_json_strings() {
    assert_eq!(PropValue::Text(String::from("tag1")).rendered(), "\"tag1\"");
    assert_eq!(PropValue::Text(String::from("a\"b\\c\n")).rendered(), "\"a\\\"b\\\\c\\n\"");
    assert_eq!(PropValue::Text(String::new()).rendered(), "\"\"");
    assert_eq!(PropValue::Json(String::from("[1,2]")).rendered(), "[1,2]");
}

#[test]
fn a_type_that_the_store_refuses_is_reported() {
    let mut conn = GraphConn::in_memory().unwrap();
    match conn.create_tag("no spaces", "t") {
        Err(TagError::InvalidType(name)) => assert_eq!(name, "no spaces"),
        other => panic!("unexpected: {:?}", other),
    }
    let long = "x".repeat(256);
    match conn.create_vertex_with_property(&long, "p", "v") {
        Err(TagError::InvalidType(name)) => assert_eq!(name, long),
        other => panic!("unexpected: {:?}", other),
    }
    match conn.find_vertex_or_create("a/b", "v", "p") {
        Err(TagError::InvalidType(name)) => assert_eq!(name, "a/b"),
        other => panic!("unexpected: {:?}", other),
    }
    match conn.tag_path_or_http("a b", String::from("t"), String::from("www.x.org"), false) {
        Err(TagError::InvalidType(name)) => assert_eq!(name, "a b"),
        other => panic!("unexpected: {:?}", other),
    }
    match conn.count_by_direction(1, Some("a b"), true) {
        Err(TagError::InvalidType(name)) => assert_eq!(name, "a b"),
        other => panic!("unexpected: {:?}", other),
    }
    assert_eq!(conn.trans.get_vertex_count().unwrap(), 0);
    let ok = "x".repeat(255);
    assert!(conn.create_vertex_with_property(&ok, "p", "v").is_ok());
    assert!(conn.create_vertex_with_property("with-dash_and_9", "p", "v").is_ok());
    assert!(conn.create_vertex_with_property("", "p", "v").is_ok());
}

#[test]
fn a_refused_type_does_not_matter_where_the_vertex_exists() {
    let mut conn = GraphConn::in_memory().unwrap();
    let id = conn.create_vertex_with_property("kind", "p", "v").unwrap();
    assert_eq!(conn.find_vertex_or_create("a b", "v", "p").unwrap(), id);
}

#[test]
fn a_target_that_is_neither_changes_nothing() {
    let mut conn = GraphConn::in_memory().unwrap();
    match conn.tag_path_or_http("kind", String::from("t"), String::from("paper1"), false) {
        Err(TagError::Classification(target)) => assert_eq!(target, "paper1"),
        other => panic!("unexpected: {:?}", other),
    }
    assert_eq!(conn.trans.get_vertex_count().unwrap(), 0);
}

#[test]
fn a_path_is_kept_under_its_own_name() {
    let mut conn = GraphConn::in_memory().unwrap();
    conn.tag_path_or_http("kind", String::from("t"), String::from("www.x.org"), true).unwrap();
    assert_eq!(conn.find_vertices_with_property_value("Path", "www.x.org").unwrap().len(), 1);
    assert_eq!(conn.find_vertices_with_property_value("Http", "www.x.org").unwrap().len(), 0);
    conn.tag_path_or_http("kind", String::from("t"), String::from("www.x.org"), false).unwrap();
    assert_eq!(conn.find_vertices_with_property_value("Http", "www.x.org").unwrap().len(), 1);
    let tag = conn.find_tag("t").unwrap();
    assert_eq!(tag.len(), 1);
    assert_eq!(conn.count_by_direction(tag[0], None, true).unwrap(), 2);
    let props = conn.get_properties(tag[0]).unwrap();
    assert_eq!(props.len(), 1);
    assert_eq!(props[0].name, "Tagname");
}

#[test]
fn edges_are_counted_by_kind_and_direction() {
    let mut conn = GraphConn::in_memory().unwrap();
    conn.tag_path_or_http("kind", String::from("t"), String::from("www.x.org"), false).unwrap();
    let tag = conn.find_tag("t").unwrap()[0];
    let item = conn.find_vertices_with_property_value("Http", "www.x.org").unwrap()[0];
    let other = indradb::EdgeKey::new(
        uuid::Uuid::from_u128(tag),
        indradb::Type::new("other").unwrap(),
        uuid::Uuid::from_u128(item),
    );
    assert!(conn.trans.create_edge(&other).unwrap());
    assert_eq!(conn.count_by_direction(tag, None, true).unwrap(), 2);
    assert_eq!(conn.count_by_direction(tag, Some("tags"), true).unwrap(), 1);
    assert_eq!(conn.count_by_direction(tag, Some("other"), true).unwrap(), 1);
    assert_eq!(conn.count_by_direction(tag, Some("none"), true).unwrap(), 0);
    assert_eq!(conn.count_by_direction(tag, None, false).unwrap(), 0);
    assert_eq!(conn.count_by_direction(item, None, false).unwrap(), 2);
    assert_eq!(conn.count_by_direction(item, Some("tags"), false).unwrap(), 1);
    assert_eq!(conn.count_by_direction(item, None, true).unwrap(), 0);
    assert_eq!(conn.find_edges_between_vertices(item, tag).unwrap(), 2);
    assert_eq!(conn.find_edges_between_vertices(tag, item).unwrap(), 0);
    assert_eq!(conn.find_edges_between_vertices(item, item).unwrap(), 0);
}

#[test]
fn an_existing_edge_of_another_kind_is_enough() {
    let mut conn = GraphConn::in_memory().unwrap();
    let tag = conn.create_tag("kind", "t").unwrap();
    let item = conn.create_vertex_with_property("Http", "Http", "www.x.org").unwrap();
    let other = indradb::EdgeKey::new(
        uuid::Uuid::from_u128(tag),
        indradb::Type::new("other").unwrap(),
        uuid::Uuid::from_u128(item),
    );
    assert!(conn.trans.create_edge(&other).unwrap());
    conn.tag_path_or_http("kind", String::from("t"), String::from("www.x.org"), false).unwrap();
    assert_eq!(conn.count_by_direction(tag, None, true).unwrap(), 1);
    assert_eq!(conn.count_by_direction(tag, Some("tags"), true).unwrap(), 0);
}

#[test]
fn the_properties_of_a_vertex_are_looked_up_by_id() {
    let mut conn = GraphConn::in_memory().unwrap();
    let id = conn.create_tag("kind", "t").unwrap();
    let props = conn.get_properties(id).unwrap();
    assert_eq!(props.len(), 1);
    assert_eq!(props[0].name, "Tagname");
    assert_eq!(props[0].value.rendered(), "\"t\"");
    match conn.get_properties(id.wrapping_add(1)) {
        Err(TagError::UnknownVertex(v)) => assert_eq!(v, id.wrapping_add(1)),
        other => panic!("unexpected: {:?}", other),
    }
    match conn.get_properties(u128::MAX) {
        Err(TagError::UnknownVertex(v)) => assert_eq!(v, u128::MAX),
        other => panic!("unexpected: {:?}", other),
    }
    let records = conn.records_of(&vec![u128::MAX, id, 5, id]).unwrap();
    assert_eq!(records.len(), 2);
    assert_eq!(records[0].id, id);
    assert_eq!(records[1].id, id);
    assert_eq!(records[1].props.len(), 1);
}

#[test]
fn errors_are_put_in_words() {
    assert_eq!(
        TagError::Classification(String::from("paper1")).message(),
        "Found paper1 which is neither a web address nor a path"
    );
    assert_eq!(
        TagError::NotFound(String::from("v")).message(),
        "You supplied the property value v which can't be found in the database"
    );
    assert_eq!(
        TagError::AmbiguousMatch(String::from("v")).message(),
        "More than one vertex holds the property value v"
    );
    assert_eq!(
        TagError::InvalidType(String::from("a b")).message(),
        "The store does not accept the type a b"
    );
    assert_eq!(
        TagError::UnknownVertex(3).message(),
        "No vertex with a property has the identifier"
    );
    assert_eq!(TagError::Backend(indradb::Error::UuidTaken).message(), "UUID already taken");
}

#[test]
fn saving_is_a_no_op() {
    save_to_sqlite();
}
