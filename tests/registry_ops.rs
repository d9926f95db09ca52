use registry::api::path_to_parts;
use registry::auth::{authorize, ApiKeyError};
use registry::bulk::{decode_entries, decode_stored, deleted, present_values};
use registry::local::{delete_in, dump_in, dump_texts_in, get_in, purge_in, restore_in, scan_in, set_in};
use registry::memstore::MemStore;
use registry::registry::{connection_url, RedisRegistry, RegistryError};
use registry::scan::{strip_key_prefix, ScanState};
use serde_json::Value;

fn s(x: &str) -> String {
    x.to_string()
}

fn parts(xs: &[&str]) -> Vec<String> {
    xs.iter().map(|x| x.to_string()).collect()
}

fn registry_for(owner_type: &str, owner_id: &str) -> RedisRegistry {
    match RedisRegistry::new(owner_type, owner_id, Some(s("redis://127.0.0.1:6379")), None, None) {
        Ok(r) => r,
        Err(_) => panic!("a well-formed URL makes a registry"),
    }
}

fn json(text: &str) -> Value {
    serde_json::from_str(text).unwrap()
}

fn sorted(mut v: Vec<String>) -> Vec<String> {
    v.sort();
    v
}

fn doc_pairs(doc: &[(String, Value)]) -> Vec<(String, Value)> {
    let mut v: Vec<(String, Value)> = doc.to_vec();
    v.sort_by(|a, b| a.0.cmp(&b.0));
    v
}

#[test]
fn build_key_root_and_nested() {
    let reg = registry_for("user", "42");
    assert_eq!(reg.get_owner_prefix(), "/user/42");
    assert_eq!(reg.build_key(&parts(&[])), "/user/42");
    assert_eq!(reg.build_key(&parts(&["a"])), "/user/42/a");
    assert_eq!(reg.build_key(&parts(&["a", "b", "c"])), "/user/42/a/b/c");
}

#[test]
fn distinct_scopes_give_distinct_keys() {
    let a = registry_for("user", "1");
    let b = registry_for("user", "2");
    let c = registry_for("team", "1");
    for p in [parts(&[]), parts(&["x"]), parts(&["x", "y"])] {
        assert_ne!(a.build_key(&p), b.build_key(&p));
        assert_ne!(a.build_key(&p), c.build_key(&p));
        assert_ne!(b.build_key(&p), c.build_key(&p));
    }
}

#[test]
fn connection_url_choices() {
    assert_eq!(connection_url(Some(s("redis://h:1")), Some(s("x")), Some(s("2"))), Some(s("redis://h:1")));
    assert_eq!(connection_url(None, Some(s("db")), Some(s("7000"))), Some(s("redis://db:7000")));
    assert_eq!(connection_url(None, Some(s("db")), None), Some(s("redis://db:6379")));
    assert_eq!(connection_url(None, None, Some(s("7000"))), None);
    assert_eq!(connection_url(None, None, None), None);
}

#[test]
fn new_without_connection_info_fails() {
    let r = RedisRegistry::new("t", "i", None, None, None);
    assert!(matches!(r, Err(RegistryError::MissingConnectionInfo)));
    let r = RedisRegistry::new("t", "i", None, Some(s("localhost")), None);
    assert!(r.is_ok());
}

#[test]
fn new_with_bad_url_is_a_store_error() {
    let r = RedisRegistry::new("t", "i", Some(s("not a url")), None, None);
    assert!(matches!(r, Err(RegistryError::Store(_))));
}

#[test]
fn strip_prefix_cases() {
    assert_eq!(strip_key_prefix(&s("/a/"), &s("/a/b/c")), Some(s("b/c")));
    assert_eq!(strip_key_prefix(&s("/a/"), &s("/a/")), Some(s("")));
    assert_eq!(strip_key_prefix(&s("/a/"), &s("/ab")), None);
    assert_eq!(strip_key_prefix(&s("/a/"), &s("/a")), None);
}

#[test]
fn scan_state_gathers_until_cursor_zero() {
    let reg = registry_for("o", "i");
    let mut st = reg.scan_start(&parts(&["a"]));
    assert_eq!(st.pattern(), "/o/i/a/*");
    assert_eq!(st.cursor(), 0);
    assert!(!st.is_finished());
    st.advance(17, &vec![s("/o/i/a/x"), s("/o/i/b/y")]);
    assert_eq!(st.cursor(), 17);
    assert!(!st.is_finished());
    st.advance(0, &vec![s("/o/i/a/y/z")]);
    assert!(st.is_finished());
    assert_eq!(st.into_keys(), vec![s("x"), s("y/z")]);
}

#[test]
fn scan_state_new_is_empty() {
    let st = ScanState::new(s("/p/"));
    assert_eq!(st.pattern(), "/p/*");
    assert_eq!(st.into_keys(), Vec::<String>::new());
}

#[test]
fn child_keys_are_full_store_keys() {
    let reg = registry_for("o", "i");
    let keys = reg.child_keys(&parts(&["a"]), &vec![s("b"), s("c/d")]);
    assert_eq!(keys, vec![s("/o/i/a/b"), s("/o/i/a/c/d")]);
    let root = reg.child_keys(&parts(&[]), &vec![s("z")]);
    assert_eq!(root, vec![s("/o/i/z")]);
}

#[test]
fn deleted_count() {
    assert!(deleted(1));
    assert!(deleted(3));
    assert!(!deleted(0));
}

#[test]
fn decode_stored_cases() {
    assert!(matches!(decode_stored(None), Ok(None)));
    match decode_stored(Some(s("{\"k\": [1, 2]}"))) {
        Ok(Some(v)) => assert_eq!(v, json("{\"k\": [1, 2]}")),
        _ => panic!("valid JSON decodes"),
    }
    assert!(matches!(decode_stored(Some(s("{not json"))), Err(RegistryError::Serialization(_))));
}

#[test]
fn present_values_skips_vanished_keys() {
    let keys = vec![s("a"), s("b"), s("c")];
    let values = vec![Some(s("1")), None, Some(s("3"))];
    assert_eq!(present_values(&keys, &values), vec![(s("a"), s("1")), (s("c"), s("3"))]);
}

#[test]
fn decode_entries_fails_on_corrupt_text() {
    let ok = decode_entries(vec![(s("a"), s("1")), (s("b"), s("\"x\""))]);
    match ok {
        Ok(v) => assert_eq!(v, vec![(s("a"), json("1")), (s("b"), json("\"x\""))]),
        Err(_) => panic!("valid texts decode"),
    }
    let bad = decode_entries(vec![(s("a"), s("1")), (s("b"), s("oops"))]);
    assert!(matches!(bad, Err(RegistryError::Serialization(_))));
}

#[test]
fn set_request_writes_json_text() {
    let reg = registry_for("o", "i");
    match reg.set_request(&parts(&["k"]), &json("{\"a\":1}")) {
        Ok((key, text)) => {
            assert_eq!(key, "/o/i/k");
            assert_eq!(text, "{\"a\":1}");
        }
        Err(_) => panic!("a JSON value serializes"),
    }
}

#[test]
fn restore_pairs_use_prefix_and_relative_key() {
    let reg = registry_for("o", "i");
    let pairs = reg.restore_pairs(&parts(&["a"]), Some(vec![(s("d"), s("3")), (s("e/f"), s("4"))]));
    assert_eq!(pairs, vec![(s("/o/i/a/d"), s("3")), (s("/o/i/a/e/f"), s("4"))]);
    assert_eq!(reg.restore_pairs(&parts(&["a"]), None), Vec::<(String, String)>::new());
}

#[test]
fn set_then_get_round_trip() {
    let reg = registry_for("o", "i");
    let mut store = MemStore::new(2);
    let v = json("{\"name\": \"x\", \"list\": [1, true, null, {\"deep\": 2.5}]}");
    assert!(set_in(&reg, &mut store, &parts(&["a", "b"]), &v).is_ok());
    match get_in(&reg, &store, &parts(&["a", "b"])) {
        Ok(Some(got)) => assert_eq!(got, v),
        _ => panic!("value set is read back"),
    }
}

#[test]
fn get_never_set_is_none() {
    let reg = registry_for("o", "i");
    let mut store = MemStore::new(2);
    assert!(matches!(get_in(&reg, &store, &parts(&["missing"])), Ok(None)));
    assert!(set_in(&reg, &mut store, &parts(&["other"]), &json("1")).is_ok());
    assert!(matches!(get_in(&reg, &store, &parts(&["missing"])), Ok(None)));
}

#[test]
fn get_corrupt_stored_text_is_serialization_error() {
    let reg = registry_for("o", "i");
    let mut store = MemStore::new(2);
    store.set(s("/o/i/bad"), s("{{"));
    assert!(matches!(get_in(&reg, &store, &parts(&["bad"])), Err(RegistryError::Serialization(_))));
}

#[test]
fn delete_true_once_then_false() {
    let reg = registry_for("o", "i");
    let mut store = MemStore::new(2);
    assert!(set_in(&reg, &mut store, &parts(&["k"]), &json("5")).is_ok());
    assert!(delete_in(&reg, &mut store, &parts(&["k"])));
    assert!(!delete_in(&reg, &mut store, &parts(&["k"])));
    assert!(matches!(get_in(&reg, &store, &parts(&["k"])), Ok(None)));
}

#[test]
fn scan_lists_relative_keys() {
    let reg = registry_for("o", "i");
    let mut store = MemStore::new(1);
    assert!(set_in(&reg, &mut store, &parts(&["a", "b"]), &json("1")).is_ok());
    assert!(set_in(&reg, &mut store, &parts(&["a", "c"]), &json("2")).is_ok());
    assert!(set_in(&reg, &mut store, &parts(&["z"]), &json("3")).is_ok());
    assert_eq!(sorted(scan_in(&reg, &store, &parts(&["a"]))), vec![s("b"), s("c")]);
    assert_eq!(sorted(scan_in(&reg, &store, &parts(&[]))), vec![s("a/b"), s("a/c"), s("z")]);
    assert_eq!(scan_in(&reg, &store, &parts(&["nothing"])), Vec::<String>::new());
}

#[test]
fn scan_stays_inside_the_scope() {
    let mine = registry_for("o", "i");
    let theirs = registry_for("o", "j");
    let mut store = MemStore::new(3);
    assert!(set_in(&mine, &mut store, &parts(&["a", "b"]), &json("1")).is_ok());
    assert!(set_in(&theirs, &mut store, &parts(&["a", "x"]), &json("2")).is_ok());
    assert_eq!(scan_in(&mine, &store, &parts(&["a"])), vec![s("b")]);
    assert_eq!(scan_in(&theirs, &store, &parts(&["a"])), vec![s("x")]);
}

#[test]
fn scan_after_delete_omits_key() {
    let reg = registry_for("o", "i");
    let mut store = MemStore::new(1);
    assert!(set_in(&reg, &mut store, &parts(&["a", "b"]), &json("1")).is_ok());
    assert!(set_in(&reg, &mut store, &parts(&["a", "c"]), &json("2")).is_ok());
    assert!(delete_in(&reg, &mut store, &parts(&["a", "b"])));
    assert_eq!(scan_in(&reg, &store, &parts(&["a"])), vec![s("c")]);
}

#[test]
fn purge_removes_everything_under_prefix() {
    let reg = registry_for("o", "i");
    let mut store = MemStore::new(1);
    assert!(set_in(&reg, &mut store, &parts(&["a", "b"]), &json("1")).is_ok());
    assert!(set_in(&reg, &mut store, &parts(&["a", "c"]), &json("2")).is_ok());
    assert!(set_in(&reg, &mut store, &parts(&["ab"]), &json("3")).is_ok());
    assert_eq!(purge_in(&reg, &mut store, &parts(&["a"])), 2);
    assert!(matches!(get_in(&reg, &store, &parts(&["a", "b"])), Ok(None)));
    assert!(matches!(get_in(&reg, &store, &parts(&["a", "c"])), Ok(None)));
    assert!(matches!(get_in(&reg, &store, &parts(&["ab"])), Ok(Some(_))));
    assert_eq!(purge_in(&reg, &mut store, &parts(&["a"])), 0);
}

#[test]
fn dump_returns_document_of_prefix() {
    let reg = registry_for("o", "i");
    let mut store = MemStore::new(1);
    assert!(set_in(&reg, &mut store, &parts(&["a", "b"]), &json("1")).is_ok());
    assert!(set_in(&reg, &mut store, &parts(&["a", "c"]), &json("2")).is_ok());
    assert!(set_in(&reg, &mut store, &parts(&["x"]), &json("9")).is_ok());
    match dump_in(&reg, &store, &parts(&["a"])) {
        Ok(doc) => assert_eq!(doc_pairs(&doc), vec![(s("b"), json("1")), (s("c"), json("2"))]),
        Err(_) => panic!("dump of valid entries succeeds"),
    }
    assert_eq!(dump_texts_in(&reg, &store, &parts(&["empty"])), Vec::<(String, String)>::new());
}

#[test]
fn restore_is_additive() {
    let reg = registry_for("o", "i");
    let mut store = MemStore::new(2);
    let original = json("{\"keep\": true}");
    assert!(set_in(&reg, &mut store, &parts(&["a", "b"]), &original).is_ok());
    let doc = vec![(s("d"), json("3"))];
    match restore_in(&reg, &mut store, &parts(&["a"]), Some(doc)) {
        Ok(n) => assert_eq!(n, 1),
        Err(_) => panic!("restore of an object succeeds"),
    }
    match dump_in(&reg, &store, &parts(&["a"])) {
        Ok(d) => assert_eq!(doc_pairs(&d), vec![(s("b"), original.clone()), (s("d"), json("3"))]),
        Err(_) => panic!("dump succeeds"),
    }
}

#[test]
fn restore_overwrites_named_keys() {
    let reg = registry_for("o", "i");
    let mut store = MemStore::new(2);
    assert!(set_in(&reg, &mut store, &parts(&["a", "b"]), &json("1")).is_ok());
    let doc = vec![(s("b"), json("7")), (s("c"), json("8"))];
    assert!(matches!(restore_in(&reg, &mut store, &parts(&["a"]), Some(doc)), Ok(2)));
    match get_in(&reg, &store, &parts(&["a", "b"])) {
        Ok(Some(v)) => assert_eq!(v, json("7")),
        _ => panic!("restored value is read back"),
    }
}

#[test]
fn restore_of_non_object_is_noop() {
    let reg = registry_for("o", "i");
    let mut store = MemStore::new(2);
    assert!(set_in(&reg, &mut store, &parts(&["a", "b"]), &json("1")).is_ok());
    assert!(matches!(restore_in(&reg, &mut store, &parts(&["a"]), None), Ok(0)));
    assert_eq!(scan_in(&reg, &store, &parts(&["a"])), vec![s("b")]);
    assert!(matches!(reg.restore_request(&parts(&["a"]), None), Ok(ref p) if p.is_empty()));
}

#[test]
fn restore_of_empty_object_writes_nothing() {
    let reg = registry_for("o", "i");
    let mut store = MemStore::new(2);
    assert!(matches!(restore_in(&reg, &mut store, &parts(&["a"]), Some(Vec::new())), Ok(0)));
    assert_eq!(scan_in(&reg, &store, &parts(&[])), Vec::<String>::new());
}

#[test]
fn last_write_wins() {
    let reg = registry_for("o", "i");
    let mut store = MemStore::new(2);
    let v1 = json("{\"v\": 1}");
    let v2 = json("{\"v\": 2}");
    assert!(set_in(&reg, &mut store, &parts(&["p"]), &v1).is_ok());
    assert!(set_in(&reg, &mut store, &parts(&["p"]), &v2).is_ok());
    match get_in(&reg, &store, &parts(&["p"])) {
        Ok(Some(v)) => assert_eq!(v, v2),
        _ => panic!("one value persists"),
    }
    assert_eq!(scan_in(&reg, &store, &parts(&[])), vec![s("p")]);
}

#[test]
fn memstore_commands() {
    let mut store = MemStore::new(1);
    store.set(s("k1"), s("v1"));
    store.set(s("k2"), s("v2"));
    assert_eq!(store.get(&s("k1")), Some(s("v1")));
    assert_eq!(store.mget(&vec![s("k1"), s("nope"), s("k2")]), vec![Some(s("v1")), None, Some(s("v2"))]);
    store.mset(&vec![(s("k3"), s("v3")), (s("k1"), s("w1"))]);
    assert_eq!(store.get(&s("k1")), Some(s("w1")));
    assert_eq!(store.del(&vec![s("k1"), s("k1"), s("zz"), s("k3")]), 2);
    let (c, batch) = store.scan(0, &s("k*"));
    assert_eq!(c, 1);
    assert_eq!(batch, Vec::<String>::new());
    let (c, batch) = store.scan(1, &s("k*"));
    assert_eq!(c, 2);
    assert_eq!(batch, vec![s("k2")]);
}

#[test]
fn authorize_cases() {
    assert_eq!(authorize(None, None).map(|k| k.0), Ok(s("disabled")));
    assert_eq!(authorize(Some(s("disabled")), None).map(|k| k.0), Ok(s("disabled")));
    assert_eq!(authorize(Some(s("t0k")), None).map(|k| k.0), Err(ApiKeyError::Missing));
    assert_eq!(authorize(Some(s("t0k")), Some(s("Basic t0k"))).map(|k| k.0), Err(ApiKeyError::Invalid));
    assert_eq!(authorize(Some(s("t0k")), Some(s("Bearer nope"))).map(|k| k.0), Err(ApiKeyError::Invalid));
    assert_eq!(authorize(Some(s("t0k")), Some(s("Bearer t0k"))).map(|k| k.0), Ok(s("t0k")));
    assert_eq!(authorize(Some(s("t0k")), Some(s("Bearer   t0k  "))).map(|k| k.0), Ok(s("t0k")));
}

#[test]
fn path_to_parts_cases() {
    assert_eq!(path_to_parts(None), Vec::<String>::new());
    assert_eq!(path_to_parts(Some(s("   "))), Vec::<String>::new());
    assert_eq!(path_to_parts(Some(s(""))), Vec::<String>::new());
    assert_eq!(path_to_parts(Some(s("a"))), vec![s("a")]);
    assert_eq!(path_to_parts(Some(s("a/b/c"))), vec![s("a"), s("b"), s("c")]);
    assert_eq!(path_to_parts(Some(s("/ a //b / "))), vec![s("a"), s("b")]);
}

#[test]
fn scan_keeps_inner_separators() {
    let reg = registry_for("o", "i");
    let mut store = MemStore::new(1);
    assert!(set_in(&reg, &mut store, &parts(&["a", "b", "c"]), &json("1")).is_ok());
    assert!(set_in(&reg, &mut store, &parts(&["a", "b", "c"]), &json("2")).is_ok());
    assert_eq!(scan_in(&reg, &store, &parts(&["a"])), vec![s("b/c")]);
    assert_eq!(scan_in(&reg, &store, &parts(&[])), vec![s("a/b/c")]);
}

#[test]
fn scan_after_delete_and_reset_lists_once() {
    let reg = registry_for("o", "i");
    let mut store = MemStore::new(1);
    assert!(set_in(&reg, &mut store, &parts(&["k"]), &json("1")).is_ok());
    assert!(delete_in(&reg, &mut store, &parts(&["k"])));
    assert!(set_in(&reg, &mut store, &parts(&["k"]), &json("2")).is_ok());
    assert_eq!(scan_in(&reg, &store, &parts(&[])), vec![s("k")]);
}

#[test]
fn path_to_parts_trims_unicode_whitespace() {
    assert_eq!(path_to_parts(Some(s("\u{3000}a\t/ b\u{a0}/\n"))), vec![s("a"), s("b")]);
    assert_eq!(path_to_parts(Some(s("\u{2003}"))), Vec::<String>::new());
}

#[test]
fn restore_request_texts() {
    let reg = registry_for("o", "i");
    match reg.restore_request(&parts(&["a"]), Some(vec![(s("d"), json("3"))])) {
        Ok(p) => assert_eq!(p, vec![(s("/o/i/a/d"), s("3"))]),
        Err(_) => panic!("a document always encodes"),
    }
}
