use rtag::tagging::classify;
use rtag::{GraphConn, TagError, Vtype};

fn vertex_count(conn: &GraphConn) -> u64 {
    conn.vertex_count().unwrap()
}

fn out_edges(conn: &GraphConn, id: u128) -> u64 {
    conn.count_by_direction(id, None, true).unwrap()
}

#[test]
fn tagging_three_times_is_tagging_once() {
    let mut conn = GraphConn::in_memory().unwrap();
    for _ in 0..3 {
        conn.tag_path_or_http("kind", String::from("rust"), String::from("http://rust-lang.org"), false)
            .unwrap();
        let tags = conn.find_tag("rust").unwrap();
        let items = conn.find_vertices_with_property_value("Http", "http://rust-lang.org").unwrap();
        assert_eq!(tags.len(), 1);
        assert_eq!(items.len(), 1);
        assert_eq!(vertex_count(&conn), 2);
        assert_eq!(conn.find_edges_between_vertices(items[0], tags[0]).unwrap(), 1);
        assert_eq!(out_edges(&conn, tags[0]), 1);
        assert_eq!(conn.count_by_direction(items[0], None, false).unwrap(), 1);
    }
}

#[test]
fn resolving_twice_gives_the_same_vertex() {
    let mut conn = GraphConn::in_memory().unwrap();
    let first = conn.find_vertex_or_create("note", "buy milk", "text").unwrap();
    let after_first = vertex_count(&conn);
    let second = conn.find_vertex_or_create("note", "buy milk", "text").unwrap();
    assert_eq!(first, second);
    assert_eq!(after_first, 1);
    assert_eq!(vertex_count(&conn), after_first);
}

#[test]
fn a_tag_on_n_items_has_n_outgoing_edges() {
    let mut conn = GraphConn::in_memory().unwrap();
    let targets = ["www.a.org", "www.b.org", "/tmp/c", "/tmp/d", "http://e.org"];
    let on_disk = [false, false, true, true, false];
    for i in 0..targets.len() {
        conn.tag_path_or_http("kind", String::from("shared"), String::from(targets[i]), on_disk[i])
            .unwrap();
        let tag = conn.find_tag("shared").unwrap();
        assert_eq!(tag.len(), 1);
        assert_eq!(out_edges(&conn, tag[0]), (i + 1) as u64);
    }
    assert_eq!(vertex_count(&conn), 6);
}

#[test]
fn classification_covers_every_target() {
    match classify("anything at all", true) {
        Ok(kind) => assert_eq!(kind, Vtype::Path),
        Err(e) => panic!("unexpected: {:?}", e),
    }
    match classify("http://x.org", true) {
        Ok(kind) => assert_eq!(kind, Vtype::Path),
        Err(e) => panic!("unexpected: {:?}", e),
    }
    match classify("http://x.org", false) {
        Ok(kind) => assert_eq!(kind, Vtype::Http),
        Err(e) => panic!("unexpected: {:?}", e),
    }
    match classify("www", false) {
        Ok(kind) => assert_eq!(kind, Vtype::Http),
        Err(e) => panic!("unexpected: {:?}", e),
    }
    match classify("httpd.conf", false) {
        Ok(kind) => assert_eq!(kind, Vtype::Http),
        Err(e) => panic!("unexpected: {:?}", e),
    }
    for bad in ["", "ww", "htt", "ftp://x.org", " www.x.org", "Www.x.org", "paper1"] {
        match classify(bad, false) {
            Err(TagError::Classification(target)) => assert_eq!(target, bad),
            other => panic!("unexpected: {:?}", other),
        }
    }
}

#[test]
fn deletion_leaves_no_vertex_and_no_edge() {
    let mut conn = GraphConn::in_memory().unwrap();
    conn.tag_path_or_http("kind", String::from("t1"), String::from("www.a.org"), false).unwrap();
    conn.tag_path_or_http("kind", String::from("t1"), String::from("www.b.org"), false).unwrap();
    conn.tag_path_or_http("kind", String::from("t2"), String::from("www.a.org"), false).unwrap();
    let t1 = conn.find_tag("t1").unwrap()[0];
    let t2 = conn.find_tag("t2").unwrap()[0];
    let a = conn.find_vertices_with_property_value("Http", "www.a.org").unwrap()[0];
    let b = conn.find_vertices_with_property_value("Http", "www.b.org").unwrap()[0];
    assert_eq!(conn.count_by_direction(a, None, false).unwrap(), 2);

    conn.delete_vertices_with_property_value("Http", "www.a.org").unwrap();

    assert_eq!(conn.find_vertices_with_property_value("Http", "www.a.org").unwrap().len(), 0);
    assert_eq!(vertex_count(&conn), 3);
    assert_eq!(out_edges(&conn, t1), 1);
    assert_eq!(out_edges(&conn, t2), 0);
    assert_eq!(conn.count_by_direction(a, None, false).unwrap(), 0);
    assert_eq!(conn.count_by_direction(b, None, false).unwrap(), 1);
    assert_eq!(conn.get_edges_of_vertices(vec![a]).unwrap().len(), 0);
    let left = conn.get_edges_of_vertices(vec![a, b]).unwrap();
    assert_eq!(left.len(), 1);
    assert_eq!(left[0].outbound, t1);
    assert_eq!(left[0].inbound, b);
    assert_eq!(left[0].kind, "tags");
    match conn.get_properties(a) {
        Err(TagError::UnknownVertex(id)) => assert_eq!(id, a),
        other => panic!("unexpected: {:?}", other),
    }
}

#[test]
fn deleting_what_is_not_there_changes_nothing() {
    let mut conn = GraphConn::in_memory().unwrap();
    conn.tag_path_or_http("kind", String::from("t1"), String::from("www.a.org"), false).unwrap();
    conn.delete_vertices_with_property_value("Http", "www.none.org").unwrap();
    conn.delete_vertices_with_property_value("Path", "www.a.org").unwrap();
    assert_eq!(vertex_count(&conn), 2);
    let t1 = conn.find_tag("t1").unwrap()[0];
    assert_eq!(out_edges(&conn, t1), 1);
}

#[test]
fn end_to_end_scenario() {
    let mut conn = GraphConn::in_memory().unwrap();
    let t1 = conn.create_tag("dummy_type", "tag1").unwrap();
    let t2 = conn.create_tag("dummy_type", "tag2").unwrap();
    let t3 = conn.create_tag("dummy_type", "tag3").unwrap();
    let calls = [
        ("tag1", "/fixtures/paper1"),
        ("tag1", "/fixtures/paper2"),
        ("tag2", "/fixtures/paper2"),
        ("tag2", "/fixtures/paper3"),
        ("tag3", "/fixtures/paper3"),
        ("tag3", "/fixtures/paper3"),
    ];
    for (tag, target) in calls.iter() {
        conn.tag_path_or_http("dummy_type", String::from(*tag), String::from(*target), true).unwrap();
    }
    assert_eq!(vertex_count(&conn), 6);
    assert_eq!(out_edges(&conn, t1), 2);
    assert_eq!(out_edges(&conn, t2), 2);
    assert_eq!(out_edges(&conn, t3), 1);
    let found = conn.find_vertices_with_property_value("Path", "/fixtures/paper1").unwrap();
    assert_eq!(found.len(), 1);
}
