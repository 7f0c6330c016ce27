use diesel_pg_hstore::container::Hstore;
use diesel_pg_hstore::text::{str_eq, text_from_utf8};

fn pair(k: &str, v: &str) -> (String, String) {
    (k.to_string(), v.to_string())
}

#[test]
fn new_container_is_empty() {
    let h = Hstore::new();
    assert!(h.is_empty());
    assert_eq!(h.len(), 0);
    assert_eq!(h.get("a"), None);
    assert!(h.as_slice().is_empty());
}

#[test]
fn insert_then_get() {
    let mut h = Hstore::new();
    assert_eq!(h.insert("Hello".into(), "World".into()), None);
    assert_eq!(h.get("Hello").map(|s| s.as_str()), Some("World"));
    assert!(h.contains_key("Hello"));
    assert!(!h.contains_key("hello"));
    assert_eq!(h.len(), 1);
    assert!(!h.is_empty());
}

#[test]
fn insert_replaces_and_returns_the_old_value() {
    let mut h = Hstore::from_pairs(vec![pair("a", "1"), pair("b", "2"), pair("c", "3")]);
    assert_eq!(h.insert("b".into(), "20".into()), Some("2".to_string()));
    assert_eq!(h.len(), 3);
    assert_eq!(h.get("a").map(|s| s.as_str()), Some("1"));
    assert_eq!(h.get("b").map(|s| s.as_str()), Some("20"));
    assert_eq!(h.get("c").map(|s| s.as_str()), Some("3"));
}

#[test]
fn remove_returns_the_value_and_forgets_the_key() {
    let mut h = Hstore::from_pairs(vec![pair("a", "1"), pair("b", "2"), pair("c", "3")]);
    assert_eq!(h.remove("b"), Some("2".to_string()));
    assert_eq!(h.remove("b"), None);
    assert_eq!(h.len(), 2);
    assert_eq!(h, Hstore::from_pairs(vec![pair("a", "1"), pair("c", "3")]));
}

#[test]
fn clear_removes_everything() {
    let mut h = Hstore::from_pairs(vec![pair("a", "1"), pair("b", "2")]);
    h.clear();
    assert!(h.is_empty());
    assert_eq!(h, Hstore::new());
}

#[test]
fn from_pairs_keeps_the_later_of_two_equal_keys() {
    let h = Hstore::from_pairs(vec![pair("a", "1"), pair("b", "2"), pair("a", "3")]);
    assert_eq!(h.len(), 2);
    assert_eq!(h.get("a").map(|s| s.as_str()), Some("3"));
}

#[test]
fn keys_stay_unique() {
    let mut h = Hstore::new();
    for i in 0..50 {
        h.insert(format!("k{}", i % 7), format!("{}", i));
    }
    assert_eq!(h.len(), 7);
    let slice = h.as_slice();
    for i in 0..slice.len() {
        for j in 0..i {
            assert_ne!(slice[i].0, slice[j].0);
        }
    }
}

#[test]
fn equality_ignores_order() {
    let x = Hstore::from_pairs(vec![pair("a", "1"), pair("b", "2")]);
    let y = Hstore::from_pairs(vec![pair("b", "2"), pair("a", "1")]);
    assert_eq!(x, y);
    assert_ne!(x, Hstore::from_pairs(vec![pair("a", "1")]));
    assert_ne!(x, Hstore::from_pairs(vec![pair("a", "1"), pair("b", "3")]));
    assert_ne!(x, Hstore::from_pairs(vec![pair("a", "1"), pair("c", "2")]));
}

#[test]
fn clone_is_equal_and_independent() {
    let x = Hstore::from_pairs(vec![pair("a", "1"), pair("b", "2")]);
    let mut y = x.clone();
    assert_eq!(x, y);
    assert_eq!(x.as_slice(), y.as_slice());
    y.insert("c".into(), "3".into());
    assert_eq!(x.len(), 2);
    assert_ne!(x, y);
}

#[test]
fn submap_test() {
    let small = Hstore::from_pairs(vec![pair("a", "1")]);
    let big = Hstore::from_pairs(vec![pair("a", "1"), pair("b", "2")]);
    assert!(small.is_submap_of(&big));
    assert!(!big.is_submap_of(&small));
    assert!(Hstore::new().is_submap_of(&small));
    assert!(!small.is_submap_of(&Hstore::from_pairs(vec![pair("a", "2")])));
}

#[test]
fn string_comparison() {
    assert!(str_eq("", ""));
    assert!(str_eq("abc", "abc"));
    assert!(!str_eq("abc", "abd"));
    assert!(!str_eq("abc", "ab"));
    assert!(str_eq("日本", "日本"));
    assert!(!str_eq("é", "e"));
}

#[test]
fn utf8_validation() {
    assert_eq!(text_from_utf8(b"abc"), Some("abc".to_string()));
    assert_eq!(text_from_utf8("日本".as_bytes()), Some("日本".to_string()));
    assert_eq!(text_from_utf8(&[]), Some(String::new()));
    assert_eq!(text_from_utf8(&[0xff]), None);
    assert_eq!(text_from_utf8(&[0xe6, 0x97]), None);
    assert_eq!(text_from_utf8(&[0xed, 0xa0, 0x80]), None);
    assert_eq!(text_from_utf8(&[0xc0, 0x80]), None);
}

#[test]
fn default_container_is_empty() {
    assert!(Hstore::default().is_empty());
}

#[test]
fn crate_root_offers_the_main_items() {
    let mut h = diesel_pg_hstore::Hstore::new();
    h.insert("a".into(), "1".into());
    let bytes = diesel_pg_hstore::encode(&h).unwrap();
    assert_eq!(diesel_pg_hstore::decode(&bytes).unwrap(), h);
    assert_eq!(diesel_pg_hstore::render_literal(&h, true).unwrap(), "'a=>1'::hstore");
}
