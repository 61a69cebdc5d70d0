use pied_piper::crdt::lww_map::LwwMap;
use pied_piper::crdt::or_set::OrSet;
use pied_piper::crdt::types::{CrdtOperation, Timestamp, Token};
use pied_piper::crdt::sync::{CrdtSync, CrdtSyncMessage, CrdtType, SyncError};

#[test]
fn lww_map_test_basic_operations() {
    let mut map = LwwMap::new(1);

    map.set("key1".to_string(), b"value1".to_vec());
    assert_eq!(map.get("key1"), Some(b"value1".as_slice()));
    assert_eq!(map.len(), 1);

    map.set("key2".to_string(), b"value2".to_vec());
    assert_eq!(map.len(), 2);

    map.remove("key1");
    assert_eq!(map.get("key1"), None);
    assert_eq!(map.len(), 1);
}

#[test]
fn test_timestamp_conflicts() {
    let mut map = LwwMap::new(1);

    let ts1 = Timestamp::new(1000, 1);
    let ts2 = Timestamp::new(2000, 1);

    map.set_with_timestamp("key".to_string(), b"old".to_vec(), ts1);
    assert_eq!(map.get("key"), Some(b"old".as_slice()));

    map.set_with_timestamp("key".to_string(), b"new".to_vec(), ts2);
    assert_eq!(map.get("key"), Some(b"new".as_slice()));

    map.set_with_timestamp("key".to_string(), b"older".to_vec(), ts1);
    assert_eq!(map.get("key"), Some(b"new".as_slice()));
}

#[test]
fn test_merge() {
    let mut map1 = LwwMap::new(1);
    let mut map2 = LwwMap::new(2);

    let ts1 = Timestamp::new(1000, 1);
    let ts2 = Timestamp::new(2000, 2);
    let ts3 = Timestamp::new(1500, 1);

    map1.set_with_timestamp("a".to_string(), b"value_a1".to_vec(), ts1);
    map1.set_with_timestamp("b".to_string(), b"value_b1".to_vec(), ts3);

    map2.set_with_timestamp("a".to_string(), b"value_a2".to_vec(), ts2);
    map2.set_with_timestamp("c".to_string(), b"value_c2".to_vec(), ts2);

    map1.merge(&map2);

    assert_eq!(map1.get("a"), Some(b"value_a2".as_slice()));
    assert_eq!(map1.get("b"), Some(b"value_b1".as_slice()));
    assert_eq!(map1.get("c"), Some(b"value_c2".as_slice()));
    assert_eq!(map1.len(), 3);
}

#[test]
fn test_merge_bidirectional() {
    let mut map1 = LwwMap::new(1);
    let mut map2 = LwwMap::new(2);

    let ts1 = Timestamp::new(1000, 1);
    let ts2 = Timestamp::new(2000, 2);

    map1.set_with_timestamp("key".to_string(), b"value1".to_vec(), ts1);
    map2.set_with_timestamp("key".to_string(), b"value2".to_vec(), ts2);

    let mut merged1 = map1.clone();
    let mut merged2 = map2.clone();

    merged1.merge(&map2);
    merged2.merge(&map1);

    assert_eq!(merged1.get("key"), Some(b"value2".as_slice()));
    assert_eq!(merged2.get("key"), Some(b"value2".as_slice()));
}

#[test]
fn or_set_test_basic_operations() {
    let mut set = OrSet::new(1);

    set.add(b"elem1".to_vec());
    set.add(b"elem2".to_vec());

    assert!(set.contains(b"elem1"));
    assert!(set.contains(b"elem2"));
    assert!(!set.contains(b"elem3"));
    assert_eq!(set.len(), 2);

    set.remove(b"elem1");
    assert!(!set.contains(b"elem1"));
    assert_eq!(set.len(), 1);
}

#[test]
fn test_concurrent_adds() {
    let mut set1 = OrSet::new(1);
    let mut set2 = OrSet::new(2);

    let token1 = set1.add(b"elem".to_vec());
    let token2 = set2.add(b"elem".to_vec());

    assert_ne!(token1, token2);

    set1.merge(&set2);

    let tokens = set1.get_tokens(b"elem").unwrap();
    assert_eq!(tokens.len(), 2);
    assert!(tokens.contains(&token1));
    assert!(tokens.contains(&token2));
}

#[test]
fn test_remove_after_merge() {
    let mut set1 = OrSet::new(1);
    let mut set2 = OrSet::new(2);

    set1.add(b"elem".to_vec());

    assert!(!set2.contains(b"elem"));

    set2.merge(&set1);
    assert!(set2.contains(b"elem"));

    set2.remove(b"elem");
    assert!(!set2.contains(b"elem"));

    set1.merge(&set2);
    assert!(!set1.contains(b"elem"));
}

#[test]
fn test_add_wins_over_remove() {
    let mut set1 = OrSet::new(1);
    let mut set2 = OrSet::new(2);

    let token = set1.add(b"elem".to_vec());
    set2.add_with_token(b"elem".to_vec(), token.clone());

    set1.remove(b"elem");

    let token2 = set2.add(b"elem".to_vec());

    set1.merge(&set2);
    set2.merge(&set1);

    assert!(set1.contains(b"elem"));
    assert!(set2.contains(b"elem"));

    let tokens = set1.get_tokens(b"elem").unwrap();
    assert!(!tokens.contains(&token));
    assert!(tokens.contains(&token2));
}

#[test]
fn test_merge_convergence() {
    let mut set1 = OrSet::new(1);
    let mut set2 = OrSet::new(2);

    set1.add(b"a".to_vec());
    set1.add(b"b".to_vec());

    set2.add(b"b".to_vec());
    set2.add(b"c".to_vec());

    let mut merged1 = set1.clone();
    let mut merged2 = set2.clone();

    merged1.merge(&set2);
    merged2.merge(&set1);

    assert_eq!(merged1.len(), merged2.len());
    assert!(merged1.contains(b"a"));
    assert!(merged1.contains(b"b"));
    assert!(merged1.contains(b"c"));
    assert!(merged2.contains(b"a"));
    assert!(merged2.contains(b"b"));
    assert!(merged2.contains(b"c"));
}

#[test]
fn test_elements_iteration() {
    let mut set = OrSet::new(1);

    set.add(b"elem1".to_vec());
    set.add(b"elem2".to_vec());
    set.add(b"elem3".to_vec());

    let elements = set.elements();
    assert_eq!(elements.len(), 3);

    assert!(elements.contains(&b"elem1".to_vec()));
    assert!(elements.contains(&b"elem2".to_vec()));
    assert!(elements.contains(&b"elem3".to_vec()));
}

#[test]
fn test_timestamp_ordering() {
    let ts1 = Timestamp::new(1000, 1);
    let ts2 = Timestamp::new(1000, 2);
    let ts3 = Timestamp::new(1001, 1);

    assert!(ts1 < ts2);
    assert!(ts1 < ts3);
    assert!(ts2 < ts3);
}

#[test]
fn test_timestamp_now() {
    let ts1 = Timestamp::now(1);
    let ts2 = Timestamp::now(1);

    assert!(ts2.time >= ts1.time);
}

#[test]
fn test_token_creation() {
    let ts = Timestamp::new(1000, 1);
    let token = Token::new(ts, 0);

    assert_eq!(token.timestamp, ts);
    assert_eq!(token.seq, 0);
}

#[test]
fn timestamp_less_than_matches_order() {
    let a = Timestamp::new(5, 9);
    let b = Timestamp::new(6, 1);
    assert!(a.less_than(&b));
    assert!(!b.less_than(&a));
    assert!(!a.less_than(&a));
}

#[test]
fn lww_merge_is_commutative_on_values() {
    let mut a = LwwMap::new(1);
    let mut b = LwwMap::new(2);
    a.set_with_timestamp("x".to_string(), b"1".to_vec(), Timestamp::new(10, 1));
    a.set_with_timestamp("y".to_string(), b"2".to_vec(), Timestamp::new(30, 1));
    b.set_with_timestamp("x".to_string(), b"3".to_vec(), Timestamp::new(20, 2));
    b.set_with_timestamp("z".to_string(), b"4".to_vec(), Timestamp::new(5, 2));
    let mut ab = a.clone();
    ab.merge(&b);
    let mut ba = b.clone();
    ba.merge(&a);
    for k in ["x", "y", "z"] {
        assert_eq!(ab.get(k), ba.get(k));
    }
    assert_eq!(ab.get("x"), Some(b"3".as_slice()));
    assert_eq!(ab.len(), 3);
}

#[test]
fn lww_remove_with_older_timestamp_is_ignored() {
    let mut map = LwwMap::new(1);
    map.set_with_timestamp("k".to_string(), b"v".to_vec(), Timestamp::new(100, 1));
    map.remove_with_timestamp("k", Timestamp::new(50, 1));
    assert_eq!(map.get("k"), Some(b"v".as_slice()));
    map.remove_with_timestamp("k", Timestamp::new(150, 1));
    assert_eq!(map.get("k"), None);
    assert!(map.is_empty());
}

#[test]
fn or_set_merge_is_idempotent() {
    let mut set = OrSet::new(1);
    set.add(b"a".to_vec());
    let copy = set.clone();
    set.merge(&copy);
    assert_eq!(set.len(), 1);
    assert!(set.contains(b"a"));
}

#[test]
fn or_set_removed_element_can_be_added_again() {
    let mut set = OrSet::new(1);
    set.add(b"a".to_vec());
    set.remove(b"a");
    assert!(!set.contains(b"a"));
    set.add(b"a".to_vec());
    assert!(set.contains(b"a"));
}

#[test]
fn crdt_sync_set_and_apply() {
    let mut node1 = CrdtSync::new(1);
    let mut node2 = CrdtSync::new(2);
    let op = node1.lww_map_set("cache", "k".to_string(), b"v".to_vec()).unwrap();
    assert_eq!(node1.lww_map_get("cache", "k"), Some(b"v".to_vec()));
    let msg = node1.create_sync_message("cache".to_string(), CrdtType::LwwMap, vec![op]);
    node2.handle_sync_message(msg).unwrap();
    assert_eq!(node2.lww_map_get("cache", "k"), Some(b"v".to_vec()));
    assert_eq!(node2.lww_map_len("cache"), 1);
    assert_eq!(node2.lww_map_keys("cache"), vec!["k".to_string()]);
}

#[test]
fn crdt_sync_ignores_own_messages() {
    let mut node = CrdtSync::new(7);
    let op = CrdtOperation::LwwMapSet {
        key: "k".to_string(),
        value: b"v".to_vec(),
        timestamp: Timestamp::new(1, 7),
    };
    let msg = CrdtSyncMessage { node_id: 7, crdt_name: "m".to_string(), crdt_type: CrdtType::LwwMap, operations: vec![op] };
    node.handle_sync_message(msg).unwrap();
    assert_eq!(node.lww_map_len("m"), 0);
}

#[test]
fn crdt_sync_type_mismatch_is_refused() {
    let mut node = CrdtSync::new(1);
    let op = CrdtOperation::LwwMapRemove { key: "k".to_string(), timestamp: Timestamp::new(1, 1) };
    let err = node.apply_operation("s", CrdtType::OrSet, op).unwrap_err();
    assert_eq!(err, SyncError::TypeMismatch(CrdtType::OrSet));
    assert_eq!(err.message(), "CRDT type mismatch: OrSet does not match operation");
}

#[test]
fn crdt_sync_or_set_add_and_remove() {
    let mut node1 = CrdtSync::new(1);
    let mut node2 = CrdtSync::new(2);
    let add = node1.or_set_add("peers", b"p1".to_vec()).unwrap();
    assert!(node1.or_set_contains("peers", b"p1"));
    node2.apply_operation("peers", CrdtType::OrSet, add).unwrap();
    assert!(node2.or_set_contains("peers", b"p1"));
    let remove = node1.or_set_remove("peers", b"p1").unwrap();
    assert!(!node1.or_set_contains("peers", b"p1"));
    node2.apply_operation("peers", CrdtType::OrSet, remove).unwrap();
    assert!(!node2.or_set_contains("peers", b"p1"));
    assert_eq!(node2.or_set_len("peers"), 0);
    assert_eq!(node1.topic(), "pied-piper-crdt-sync");
}

#[test]
fn lww_get_with_timestamp_gives_the_winning_write() {
    let mut map = LwwMap::new(3);
    assert!(map.get_with_timestamp("k").is_none());
    map.set_with_timestamp("k".to_string(), b"a".to_vec(), Timestamp::new(10, 3));
    map.set_with_timestamp("k".to_string(), b"b".to_vec(), Timestamp::new(5, 3));
    let (v, t) = map.get_with_timestamp("k").unwrap();
    assert_eq!(v, b"a");
    assert_eq!(t, Timestamp::new(10, 3));
}

#[test]
fn or_set_raw_elements_keep_tokens_per_element() {
    let mut set = OrSet::new(1);
    let t1 = set.add(b"x".to_vec());
    let t2 = set.add(b"x".to_vec());
    set.add(b"y".to_vec());
    let raw = set.raw_elements();
    let x = raw.iter().find(|e| e.element == b"x".to_vec()).unwrap();
    assert_eq!(x.tokens.len(), 2);
    assert!(x.tokens.contains(&t1) && x.tokens.contains(&t2));
    assert!(raw.iter().any(|e| e.element == b"y".to_vec()));
    // a remove records tombstones; the added tokens stay in the raw map
    set.remove(b"x");
    assert!(!set.contains(b"x"));
    let x = set.raw_elements().iter().find(|e| e.element == b"x".to_vec()).unwrap();
    assert_eq!(x.tokens.len(), 2);
}

#[test]
fn crdt_sync_named_instances_and_removal() {
    let mut node = CrdtSync::new(4);
    assert_eq!(node.get_lww_map("m").len(), 0);
    node.lww_map_set("m", "a".to_string(), b"1".to_vec()).unwrap();
    node.lww_map_set("m", "b".to_string(), b"2".to_vec()).unwrap();
    let m = node.get_lww_map("m");
    assert_eq!(m.get("a"), Some(b"1".as_slice()));
    assert_eq!(m.len(), 2);
    let op = node.lww_map_remove("m", "a").unwrap();
    assert!(matches!(op, CrdtOperation::LwwMapRemove { ref key, .. } if key == "a"));
    assert_eq!(node.lww_map_get("m", "a"), None);
    assert_eq!(node.lww_map_len("m"), 1);

    assert!(node.get_or_set("s").elements().is_empty());
    node.or_set_add("s", b"p".to_vec()).unwrap();
    node.or_set_add("s", b"q".to_vec()).unwrap();
    node.or_set_add("s", b"p".to_vec()).unwrap();
    let mut els = node.or_set_elements("s");
    els.sort();
    assert_eq!(els, vec![b"p".to_vec(), b"q".to_vec()]);
    assert!(node.get_or_set("s").contains(b"q"));
    assert!(node.or_set_elements("none").is_empty());
}

#[test]
fn test_lww_map_operations() {
    let mut sync = CrdtSync::new(1);

    // Set a value
    let _op = sync.lww_map_set("test_map", "key1".to_string(), b"value1".to_vec()).unwrap();

    // Get the value
    let value = sync.lww_map_get("test_map", "key1");
    assert_eq!(value, Some(b"value1".to_vec()));

    // Update the value
    let _op = sync.lww_map_set("test_map", "key1".to_string(), b"value2".to_vec()).unwrap();
    let value = sync.lww_map_get("test_map", "key1");
    assert_eq!(value, Some(b"value2".to_vec()));

    // Remove the value
    let _op = sync.lww_map_remove("test_map", "key1").unwrap();
    let value = sync.lww_map_get("test_map", "key1");
    assert_eq!(value, None);
}

#[test]
fn test_or_set_operations() {
    let mut sync = CrdtSync::new(1);

    // Add elements
    let _op = sync.or_set_add("test_set", b"elem1".to_vec()).unwrap();
    let _op = sync.or_set_add("test_set", b"elem2".to_vec()).unwrap();

    // Check containment
    assert!(sync.or_set_contains("test_set", b"elem1"));
    assert!(sync.or_set_contains("test_set", b"elem2"));
    assert!(!sync.or_set_contains("test_set", b"elem3"));

    // Check length
    assert_eq!(sync.or_set_len("test_set"), 2);

    // Remove element
    let _op = sync.or_set_remove("test_set", b"elem1").unwrap();
    assert!(!sync.or_set_contains("test_set", b"elem1"));
    assert_eq!(sync.or_set_len("test_set"), 1);
}

#[test]
fn test_lww_map_sync() {
    let mut sync1 = CrdtSync::new(1);
    let mut sync2 = CrdtSync::new(2);

    // Node 1 sets a value
    let op1 = sync1.lww_map_set("shared", "key".to_string(), b"value1".to_vec()).unwrap();

    // Node 2 applies the operation
    sync2.apply_operation("shared", CrdtType::LwwMap, op1).unwrap();

    // Both should have the same value
    let value1 = sync1.lww_map_get("shared", "key");
    let value2 = sync2.lww_map_get("shared", "key");
    assert_eq!(value1, value2);
    assert_eq!(value1, Some(b"value1".to_vec()));
}

#[test]
fn test_or_set_sync() {
    let mut sync1 = CrdtSync::new(1);
    let mut sync2 = CrdtSync::new(2);

    // Node 1 adds an element
    let op1 = sync1.or_set_add("shared", b"elem".to_vec()).unwrap();

    // Node 2 applies the operation
    sync2.apply_operation("shared", CrdtType::OrSet, op1).unwrap();

    // Both should have the element
    assert!(sync1.or_set_contains("shared", b"elem"));
    assert!(sync2.or_set_contains("shared", b"elem"));
}

#[test]
fn removes_replay_on_other_replicas() {
    let mut sync1 = CrdtSync::new(1);
    let mut sync2 = CrdtSync::new(2);
    let add_a = sync1.or_set_add("s", b"a".to_vec()).unwrap();
    let add_b = sync1.or_set_add("s", b"b".to_vec()).unwrap();
    sync2.apply_operation("s", CrdtType::OrSet, add_a).unwrap();
    sync2.apply_operation("s", CrdtType::OrSet, add_b).unwrap();
    let remove = sync1.or_set_remove("s", b"a").unwrap();
    sync2.apply_operation("s", CrdtType::OrSet, remove).unwrap();
    assert!(!sync1.or_set_contains("s", b"a"));
    assert!(!sync2.or_set_contains("s", b"a"));
    assert!(sync1.or_set_contains("s", b"b"));
    assert!(sync2.or_set_contains("s", b"b"));
    assert_eq!(sync1.or_set_len("s"), sync2.or_set_len("s"));
}

#[test]
fn lww_remove_survives_merge_with_older_write() {
    let mut m1 = LwwMap::new(1);
    m1.set_with_timestamp("k".to_string(), b"v".to_vec(), Timestamp::new(1000, 1));
    let m2 = m1.clone();
    m1.remove_with_timestamp("k", Timestamp::new(2000, 1));
    m1.merge(&m2);
    assert_eq!(m1.get("k"), None);
    assert_eq!(m1.len(), 0);
    // the other way round, the remove reaches the older replica
    let mut m3 = m2.clone();
    m3.merge(&m1);
    assert_eq!(m3.get("k"), None);
    assert!(!m3.contains_key("k"));
    assert!(m3.keys().is_empty());
    // a newer write after the remove brings the key back
    m3.set_with_timestamp("k".to_string(), b"w".to_vec(), Timestamp::new(3000, 2));
    assert_eq!(m3.get("k"), Some(b"w".as_slice()));
    assert_eq!(m3.len(), 1);
}

#[test]
fn or_set_tokens_follow_contains() {
    let mut set = OrSet::new(3);
    assert!(set.get_tokens(b"x").is_none());
    let t = set.add(b"x".to_vec());
    let tokens = set.get_tokens(b"x").unwrap();
    assert_eq!(tokens.len(), 1);
    assert!(tokens.contains(&t));
    set.remove(b"x");
    assert!(set.get_tokens(b"x").is_none());
    assert!(!set.contains(b"x"));
}

#[test]
fn successive_adds_give_distinct_tokens() {
    let mut set = OrSet::new(9);
    let t1 = set.add(b"a".to_vec());
    let t2 = set.add(b"a".to_vec());
    set.remove(b"a");
    let t3 = set.add(b"b".to_vec());
    assert!(t1 != t2 && t2 != t3 && t1 != t3);
    assert_eq!((t1.seq, t2.seq, t3.seq), (0, 1, 2));
    assert!([t1, t2, t3].iter().all(|t| t.timestamp.node_id == 9));
}
