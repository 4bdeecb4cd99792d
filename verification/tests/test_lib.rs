use indradb::{
    Datastore, EdgeKey, MemoryDatastore, RangeVertexQuery, SpecificVertexQuery, Transaction, Type,
    VertexQuery,
};
use rtag::GraphConn;

fn create_new_db_trans() -> GraphConn {
    let db = MemoryDatastore::default();
    let trans = db.transaction().unwrap();
    GraphConn { trans: trans }
}

fn count(gconn: &GraphConn, id: u128) -> u64 {
    gconn.count_by_direction(id, None, true).unwrap()
}

#[test]
fn test_create_tag() {
    let tag_type: &str = "dummy_type";
    let tag_name: &str = "dummy_tag_name";
    let mut gconn = create_new_db_trans();
    let tag_v = gconn.create_tag(tag_type, &String::from(tag_name));

    let range = gconn.trans.get_vertices(RangeVertexQuery::new()).unwrap();
    assert_eq!(tag_v.unwrap(), range[0].id.as_u128());
    assert_eq!(range.len(), 1);
    let props = gconn
        .trans
        .get_all_vertex_properties(SpecificVertexQuery::single(range[0].clone().id))
        .unwrap();
    assert_eq!(Type::new(tag_type).unwrap(), range[0].t);
    let only_prop = &props[0].props[0];
    assert_eq!("Tagname", only_prop.name);
    assert_eq!(String::from(tag_name), only_prop.value);
}

#[test]
fn test_tag_path_or_http() {
    let mut gconn = create_new_db_trans();
    let tag_type: &str = "dummy_type";
    let tag_name: &str = "dummy_tag_name";
    let path_or_http: &str = "http://www.dummy.com";
    gconn
        .tag_path_or_http(tag_type, String::from(tag_name), String::from(path_or_http), false)
        .unwrap();

    let range = gconn.trans.get_vertices(RangeVertexQuery::new()).unwrap();
    assert_eq!(range.len(), 2);
}

#[test]
fn test_tag_path_or_http_multiple_times() {
    let mut gconn = create_new_db_trans();
    let tag_type: &str = "dummy_type";
    let tag_name: &str = "dummy_tag_name";
    let path_or_http: &str = "http://www.dummy.com";
    gconn
        .tag_path_or_http(tag_type, String::from(tag_name), String::from(path_or_http), false)
        .unwrap();
    gconn
        .tag_path_or_http(tag_type, String::from(tag_name), String::from(path_or_http), false)
        .unwrap();

    let range = gconn.trans.get_vertices(RangeVertexQuery::new()).unwrap();
    assert_eq!(range.len(), 2);
}

#[test]
fn test_find_vertices_with_property_value() {
    let mut gconn = create_new_db_trans();
    let _ = gconn
        .create_vertex_with_property("dummy_type1", &String::from("prop1"), &String::from("prop_val1"))
        .unwrap();
    let uuid2 = gconn
        .create_vertex_with_property("dummy_type2", &String::from("prop2"), &String::from("prop_val2"))
        .unwrap();
    let v = gconn
        .find_vertices_with_property_value(&String::from("prop2"), &String::from("prop_val2"))
        .unwrap();

    assert_eq!(v.len(), 1);
    assert_eq!(v[0], uuid2);
}

#[test]
fn test_find_or_replace_case_create() {
    let mut gconn = create_new_db_trans();

    let prop = String::from("tag_name");
    let prop_val = String::from("tag1");
    let v = gconn.find_vertex_or_create("test", &prop_val, &prop);
    let q = gconn.trans.get_vertices(VertexQuery::Range(RangeVertexQuery::new())).unwrap();
    assert_eq!(q.len(), 1);

    let found_v = gconn.find_vertices_with_property_value(&prop, &prop_val).unwrap();
    assert_eq!(found_v[0], v.unwrap());
}

#[test]
fn test_find_or_replace_case_exists() {
    let mut gconn = create_new_db_trans();

    let prop = String::from("tag_name");
    let prop_val = String::from("tag1");
    let v_created = gconn.create_vertex_with_property("test", &prop, &prop_val);
    let v_found = gconn.find_vertex_or_create("test", &prop_val, &prop);
    let q = gconn.trans.get_vertices(VertexQuery::Range(RangeVertexQuery::new())).unwrap();
    assert_eq!(q.len(), 1);

    assert_eq!(v_created.unwrap(), v_found.unwrap());
}

#[test]
fn test_find_edges_between_vertices() {
    let mut gconn = create_new_db_trans();
    let prop = String::from("tag_name");
    let prop_val = String::from("tag1");
    let v1 = gconn.create_vertex_with_property("test", &prop, &prop_val).unwrap();

    let prop_val = String::from("tag2");
    let v2 = gconn.create_vertex_with_property("test", &prop, &prop_val).unwrap();

    let n = gconn.find_edges_between_vertices(v1, v2).unwrap();
    assert_eq!(n, 0);

    let edge_t = Type::new("t").unwrap();
    let key = EdgeKey::new(uuid::Uuid::from_u128(v2), edge_t.clone(), uuid::Uuid::from_u128(v1));
    gconn.trans.create_edge(&key).unwrap();

    let n = gconn.find_edges_between_vertices(v1, v2).unwrap();
    assert_eq!(n, 1);
}

#[test]
fn test_tag_path_or_http_multiple_calls() {
    const DUMMY_TYPE: &str = "dummy_type";
    let mut gconn = create_new_db_trans();
    let t1 = gconn.create_tag(DUMMY_TYPE, &String::from("tag1")).unwrap();
    let t2 = gconn.create_tag(DUMMY_TYPE, &String::from("tag2")).unwrap();
    let t3 = gconn.create_tag(DUMMY_TYPE, &String::from("tag3")).unwrap();
    gconn
        .tag_path_or_http(DUMMY_TYPE, String::from("tag1"), String::from("tests/fixtures/paper1"), true)
        .unwrap();
    gconn
        .tag_path_or_http(DUMMY_TYPE, String::from("tag1"), String::from("tests/fixtures/paper2"), true)
        .unwrap();
    gconn
        .tag_path_or_http(DUMMY_TYPE, String::from("tag2"), String::from("tests/fixtures/paper2"), true)
        .unwrap();
    gconn
        .tag_path_or_http(DUMMY_TYPE, String::from("tag2"), String::from("tests/fixtures/paper3"), true)
        .unwrap();
    gconn
        .tag_path_or_http(DUMMY_TYPE, String::from("tag3"), String::from("tests/fixtures/paper3"), true)
        .unwrap();
    gconn
        .tag_path_or_http(DUMMY_TYPE, String::from("tag3"), String::from("tests/fixtures/paper3"), true)
        .unwrap();

    assert_eq!(gconn.trans.get_vertices(RangeVertexQuery::new()).unwrap().len(), 6);

    assert_eq!(count(&gconn, t1), 2);
    assert_eq!(count(&gconn, t2), 2);
    assert_eq!(count(&gconn, t3), 1);

    let v = gconn
        .find_vertices_with_property_value(&String::from("Path"), &String::from("tests/fixtures/paper1"))
        .unwrap();
    assert_eq!(v.len(), 1);
}

#[test]
#[should_panic(expected = "Found paper1 which is neither a web address nor a path")]
fn test_tag_path_or_http_panics() {
    const DUMMY_TYPE: &str = "dummy_type";
    let mut gconn = create_new_db_trans();
    if let Err(e) = gconn.tag_path_or_http(DUMMY_TYPE, String::from("tag1"), String::from("paper1"), false) {
        panic!("{}", e.message());
    }
}

#[test]
fn test_delete_vertex_with_property() {
    let mut gconn = create_new_db_trans();
    let p = String::from("prop1");
    let p_val = String::from("prop_val1");
    gconn.create_vertex_with_property("dummy_type1", &p, &p_val).unwrap();
    assert_eq!(gconn.trans.get_vertices(RangeVertexQuery::new()).unwrap().len(), 1);
    let _ = gconn.delete_vertices_with_property_value(&p, &p_val);
    assert_eq!(gconn.trans.get_vertices(RangeVertexQuery::new()).unwrap().len(), 0);
}

#[test]
fn test_find_tag() {
    let tag_name: &str = "dummy_tag_name";
    let tag_name2: &str = "other_dummy_tag_name";
    let tag_type: &str = "dummy_type";
    let mut gconn = create_new_db_trans();
    let _ = gconn.create_tag(tag_type, &String::from(tag_name));
    let _ = gconn.create_tag(tag_type, &String::from(tag_name2));

    assert_eq!(gconn.find_tag(&String::from(tag_name)).unwrap().len(), 1)
}

#[test]
fn test_show_tags() {
    const DUMMY_TYPE: &str = "dummy_type";
    let mut gconn = create_new_db_trans();
    gconn
        .tag_path_or_http(DUMMY_TYPE, String::from("tag1"), String::from("tests/fixtures/paper1"), true)
        .unwrap();
    gconn
        .tag_path_or_http(DUMMY_TYPE, String::from("tag2"), String::from("tests/fixtures/paper2"), true)
        .unwrap();
    gconn
        .tag_path_or_http(DUMMY_TYPE, String::from("tag3"), String::from("tests/fixtures/paper3"), true)
        .unwrap();

    let mut tag_v = Vec::new();
    tag_v.push(String::from("tag1"));
    tag_v.push(String::from("tag2"));

    let table = gconn.show_tags(tag_v).unwrap();
    assert_eq!(
        table,
        vec![
            vec![String::from("TAG")],
            vec![String::from("\"tag1\"")],
            vec![String::from("\"tag2\"")],
        ]
    );
}

#[test]
fn test_show_tags_and_associated_items() {
    const DUMMY_TYPE: &str = "dummy_type";
    let mut gconn = create_new_db_trans();
    gconn
        .tag_path_or_http(DUMMY_TYPE, String::from("tag1"), String::from("tests/fixtures/paper1"), true)
        .unwrap();
    gconn
        .tag_path_or_http(DUMMY_TYPE, String::from("tag2"), String::from("tests/fixtures/paper2"), true)
        .unwrap();
    gconn
        .tag_path_or_http(DUMMY_TYPE, String::from("tag3"), String::from("tests/fixtures/paper3"), true)
        .unwrap();

    let tag_v = [String::from("tag1"), String::from("tag2")].to_vec();
    let items = [String::from("item1"), String::from("item2")].to_vec();

    let table = gconn.show_tags_and_associated_items(tag_v, items).unwrap();
    assert_eq!(
        table,
        vec![
            vec![String::from("TAG"), String::from("ITEM"), String::from("ITEM_TYPE")],
            vec![
                String::from("\"tag1\""),
                String::from("\"tests/fixtures/paper1\""),
                String::from("Path"),
            ],
            vec![
                String::from("\"tag2\""),
                String::from("\"tests/fixtures/paper2\""),
                String::from("Path"),
            ],
        ]
    );
}
