use crdt_sled::LWWMap;

fn temp_map() -> LWWMap {
    let db = sled::Config::new().temporary(true).open().unwrap();
    LWWMap::new(db)
}

#[test]
fn insert_then_get() {
    let mut map = temp_map();
    map.insert("key1".to_string(), "value1".to_string()).unwrap();
    assert_eq!(map.get(&"key1".to_string()).unwrap(), Some("value1".to_string()));
}

#[test]
fn get_absent_key_is_none() {
    let map = temp_map();
    assert_eq!(map.get(&"missing".to_string()).unwrap(), None);
    assert!(map.get_element(&"missing".to_string()).unwrap().is_none());
}

#[test]
fn insert_at_sets_value_and_timestamp() {
    let mut map = temp_map();
    map.insert_at("k".to_string(), "v".to_string(), 42).unwrap();
    let element = map.get_element(&"k".to_string()).unwrap().unwrap();
    assert_eq!(element.value(), "v");
    assert_eq!(element.timestamp(), 42);
}

#[test]
fn insert_overwrites_with_later_timestamp() {
    let mut map = temp_map();
    map.insert_at("k".to_string(), "v1".to_string(), 10).unwrap();
    map.insert_at("k".to_string(), "v2".to_string(), 20).unwrap();
    assert_eq!(map.get(&"k".to_string()).unwrap(), Some("v2".to_string()));
    let element = map.get_element(&"k".to_string()).unwrap().unwrap();
    assert_eq!(element.timestamp(), 20);
    assert!(element.timestamp() > 10);
}

#[test]
fn local_insert_wins_even_against_newer_timestamp() {
    let mut map = temp_map();
    map.insert_at("k".to_string(), "newer".to_string(), 100).unwrap();
    map.insert_at("k".to_string(), "older".to_string(), 50).unwrap();
    assert_eq!(map.get(&"k".to_string()).unwrap(), Some("older".to_string()));
    let element = map.get_element(&"k".to_string()).unwrap().unwrap();
    assert_eq!(element.timestamp(), 50);
}

#[test]
fn insert_twice_with_wall_clock() {
    let mut map = temp_map();
    map.insert("k".to_string(), "v1".to_string()).unwrap();
    map.insert("k".to_string(), "v2".to_string()).unwrap();
    assert_eq!(map.get(&"k".to_string()).unwrap(), Some("v2".to_string()));
}

#[test]
fn remove_keeps_value_and_advances_timestamp() {
    let mut map = temp_map();
    map.insert_at("k".to_string(), "v".to_string(), 1).unwrap();
    map.remove_at(&"k".to_string(), 5).unwrap();
    assert_eq!(map.get(&"k".to_string()).unwrap(), Some("v".to_string()));
    let element = map.get_element(&"k".to_string()).unwrap().unwrap();
    assert_eq!(element.timestamp(), 5);
    assert!(element.timestamp() > 1);
}

#[test]
fn remove_absent_key_is_a_no_op() {
    let mut map = temp_map();
    map.insert_at("other".to_string(), "v".to_string(), 1).unwrap();
    map.remove_at(&"missing".to_string(), 9).unwrap();
    map.remove(&"missing".to_string()).unwrap();
    assert_eq!(map.get(&"missing".to_string()).unwrap(), None);
    assert_eq!(map.get(&"other".to_string()).unwrap(), Some("v".to_string()));
}

#[test]
fn removal_shields_key_from_earlier_remote_update() {
    let mut local = temp_map();
    local.insert_at("k".to_string(), "kept".to_string(), 1).unwrap();
    local.remove_at(&"k".to_string(), 10).unwrap();

    let mut remote = temp_map();
    remote.insert_at("k".to_string(), "stale".to_string(), 7).unwrap();

    local.merge(&remote).unwrap();
    assert_eq!(local.get(&"k".to_string()).unwrap(), Some("kept".to_string()));
    let element = local.get_element(&"k".to_string()).unwrap().unwrap();
    assert_eq!(element.timestamp(), 10);
}

#[test]
fn merge_is_idempotent() {
    let mut left = temp_map();
    left.insert_at("a".to_string(), "1".to_string(), 3).unwrap();
    left.insert_at("b".to_string(), "2".to_string(), 4).unwrap();

    let mut twin = temp_map();
    twin.insert_at("a".to_string(), "1".to_string(), 3).unwrap();
    twin.insert_at("b".to_string(), "2".to_string(), 4).unwrap();

    left.merge(&twin).unwrap();

    for (key, value, ts) in [("a", "1", 3), ("b", "2", 4)] {
        let element = left.get_element(&key.to_string()).unwrap().unwrap();
        assert_eq!(element.value(), value);
        assert_eq!(element.timestamp(), ts);
    }
    assert_eq!(left.get(&"c".to_string()).unwrap(), None);
}

#[test]
fn merge_of_disjoint_maps_is_a_union() {
    let mut local = temp_map();
    local.insert_at("a".to_string(), "1".to_string(), 3).unwrap();

    let mut remote = temp_map();
    remote.insert_at("b".to_string(), "2".to_string(), 8).unwrap();
    remote.insert_at("c".to_string(), "3".to_string(), 9).unwrap();

    local.merge(&remote).unwrap();

    let a = local.get_element(&"a".to_string()).unwrap().unwrap();
    assert_eq!((a.value().as_str(), a.timestamp()), ("1", 3));
    let b = local.get_element(&"b".to_string()).unwrap().unwrap();
    assert_eq!((b.value().as_str(), b.timestamp()), ("2", 8));
    let c = local.get_element(&"c".to_string()).unwrap().unwrap();
    assert_eq!((c.value().as_str(), c.timestamp()), ("3", 9));
}

#[test]
fn mutual_merge_converges() {
    let mut one = temp_map();
    one.insert_at("k1".to_string(), "a".to_string(), 1).unwrap();
    one.insert_at("k2".to_string(), "b".to_string(), 6).unwrap();

    let mut two = temp_map();
    two.insert_at("k1".to_string(), "c".to_string(), 4).unwrap();
    two.insert_at("k3".to_string(), "d".to_string(), 5).unwrap();

    one.merge(&two).unwrap();
    two.merge(&one).unwrap();

    for map in [&one, &two] {
        let k1 = map.get_element(&"k1".to_string()).unwrap().unwrap();
        assert_eq!((k1.value().as_str(), k1.timestamp()), ("c", 4));
        let k2 = map.get_element(&"k2".to_string()).unwrap().unwrap();
        assert_eq!((k2.value().as_str(), k2.timestamp()), ("b", 6));
        let k3 = map.get_element(&"k3".to_string()).unwrap().unwrap();
        assert_eq!((k3.value().as_str(), k3.timestamp()), ("d", 5));
    }
}

#[test]
fn two_replica_scenario() {
    let mut replica1 = temp_map();
    replica1.insert_at("k1".to_string(), "a".to_string(), 1).unwrap();
    replica1.insert_at("k2".to_string(), "b".to_string(), 2).unwrap();
    replica1.remove_at(&"k2".to_string(), 3).unwrap();

    let mut replica2 = temp_map();
    replica2.insert_at("k1".to_string(), "c".to_string(), 4).unwrap();
    replica2.insert_at("k3".to_string(), "d".to_string(), 5).unwrap();

    replica1.merge(&replica2).unwrap();

    // "c" carries the later timestamp, so it wins for k1.
    assert_eq!(replica1.get(&"k1".to_string()).unwrap(), Some("c".to_string()));
    // The removal refreshed k2's timestamp but kept its value.
    let k2 = replica1.get_element(&"k2".to_string()).unwrap().unwrap();
    assert_eq!((k2.value().as_str(), k2.timestamp()), ("b", 3));
    // k3 was adopted from replica2 verbatim.
    assert_eq!(replica1.get(&"k3".to_string()).unwrap(), Some("d".to_string()));
}

#[test]
fn to_json_renders_sorted_object() {
    let mut map = temp_map();
    map.insert_at("k2".to_string(), "b".to_string(), 7).unwrap();
    map.insert_at("k1".to_string(), "a".to_string(), 5).unwrap();
    let rendered = map.to_json().unwrap();
    assert_eq!(
        rendered,
        "{\"k1\":{\"timestamp\":5,\"value\":\"a\"},\"k2\":{\"timestamp\":7,\"value\":\"b\"}}"
    );
}

#[test]
fn element_new_keeps_the_value() {
    let element = crdt_sled::LWWElement::new("payload".to_string());
    assert_eq!(element.value(), "payload");
}

#[test]
fn map_attaches_to_existing_store() {
    let db = sled::Config::new().temporary(true).open().unwrap();
    {
        let mut first = LWWMap::new(db.clone());
        first.insert_at("k".to_string(), "v".to_string(), 11).unwrap();
    }
    let second = LWWMap::new(db);
    let element = second.get_element(&"k".to_string()).unwrap().unwrap();
    assert_eq!((element.value().as_str(), element.timestamp()), ("v", 11));
}

#[test]
fn malformed_store_reports_codec_error() {
    let db = sled::Config::new().temporary(true).open().unwrap();
    db.insert(b"not json", b"junk").unwrap();
    let map = LWWMap::new(db);
    match map.to_json() {
        Err(crdt_sled::LWWMapError::SerdeError(_)) => {}
        other => panic!("expected a codec error, got {:?}", other),
    }
}

#[test]
fn merge_aborts_on_malformed_remote() {
    let db = sled::Config::new().temporary(true).open().unwrap();
    db.insert(b"not json", b"junk").unwrap();
    let remote = LWWMap::new(db);

    let mut local = temp_map();
    local.insert_at("k".to_string(), "v".to_string(), 1).unwrap();
    assert!(local.merge(&remote).is_err());
    // The failed merge left the local map alone.
    assert_eq!(local.get(&"k".to_string()).unwrap(), Some("v".to_string()));
}

#[test]
fn non_canonical_key_bytes_are_refused() {
    let db = sled::Config::new().temporary(true).open().unwrap();
    // A valid JSON encoding of "a", but not the canonical one: it carries
    // a leading space, so it cannot have been written by the library.
    db.insert(b" \"a\"", b"{\"timestamp\":1,\"value\":\"x\"}").unwrap();
    let map = LWWMap::new(db);

    // Lookups go by the canonical encoding alone and miss it.
    assert_eq!(map.get(&"a".to_string()).unwrap(), None);
    // A full scan refuses it instead of listing a duplicate-prone key.
    match map.to_json() {
        Err(crdt_sled::LWWMapError::SerdeError(_)) => {}
        other => panic!("expected a codec error, got {:?}", other),
    }

    let mut local = temp_map();
    local.insert_at("a".to_string(), "v".to_string(), 9).unwrap();
    assert!(local.merge(&map).is_err());
    assert_eq!(local.get(&"a".to_string()).unwrap(), Some("v".to_string()));
}
