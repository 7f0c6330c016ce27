use diesel_pg_hstore::container::Hstore;

fn store(pairs: &[(&str, &str)]) -> Hstore {
    let mut h = Hstore::new();
    for (k, v) in pairs {
        h.insert(k.to_string(), v.to_string());
    }
    h
}

fn texts(items: &[&str]) -> Vec<String> {
    items.iter().map(|s| s.to_string()).collect()
}

#[test]
fn get_value_of_present_and_absent_keys() {
    let h = store(&[("a", "1"), ("b", "2")]);
    assert_eq!(h.get_value("a"), Some("1".to_string()));
    assert_eq!(h.get_value("c"), None);
}

#[test]
fn get_array_follows_the_keys() {
    let h = store(&[("a", "1"), ("b", "2")]);
    assert_eq!(
        h.get_array(&texts(&["b", "c", "a", "b"])),
        vec![Some("2".to_string()), None, Some("1".to_string()), Some("2".to_string())]
    );
    assert!(h.get_array(&[]).is_empty());
}

#[test]
fn concat_prefers_the_right_operand() {
    let left = store(&[("a", "1"), ("b", "2")]);
    let right = store(&[("b", "20"), ("c", "3")]);
    assert_eq!(left.concat(&right), store(&[("a", "1"), ("b", "20"), ("c", "3")]));
    assert_eq!(right.concat(&left), store(&[("a", "1"), ("b", "2"), ("c", "3")]));
    assert_eq!(left.concat(&Hstore::new()), left);
    assert_eq!(Hstore::new().concat(&left), left);
}

#[test]
fn concat_adds_a_new_pair() {
    let h = store(&[("a", "1"), ("b", "2")]);
    let r = h.concat(&store(&[("another", "value")]));
    assert_eq!(r.get_value("a"), Some("1".to_string()));
    assert_eq!(r.get_value("b"), Some("2".to_string()));
    assert_eq!(r.get_value("another"), Some("value".to_string()));
}

#[test]
fn has_key_tells_presence() {
    let h = store(&[("a", "1"), ("b", "2")]);
    assert!(h.has_key("a"));
    assert!(!store(&[("c", "3"), ("d", "4")]).has_key("a"));
}

#[test]
fn has_all_keys_needs_every_key() {
    let h = store(&[("a", "1"), ("b", "2")]);
    assert!(h.has_all_keys(&texts(&["a", "b"])));
    assert!(!h.has_all_keys(&texts(&["a", "c"])));
    assert!(h.has_all_keys(&[]));
    assert!(!store(&[("c", "3"), ("d", "4")]).has_all_keys(&texts(&["a", "b"])));
}

#[test]
fn has_any_keys_needs_one_key() {
    let h = store(&[("a", "1"), ("b", "2")]);
    let other = store(&[("c", "3"), ("d", "4")]);
    assert!(h.has_any_keys(&texts(&["c", "b"])));
    assert!(other.has_any_keys(&texts(&["c", "b"])));
    assert!(h.has_any_keys(&texts(&["a", "b"])));
    assert!(!other.has_any_keys(&texts(&["a", "b"])));
    assert!(!h.has_any_keys(&[]));
}

#[test]
fn contains_asks_whether_the_left_lies_in_the_right() {
    let h = store(&[("a", "1"), ("b", "2")]);
    let other = store(&[("a", "1")]);
    assert!(!h.contains(&other));
    assert!(other.contains(&h));
    assert!(h.contains(&h));
}

#[test]
fn is_contained_by_asks_whether_the_right_lies_in_the_left() {
    let h = store(&[("a", "1"), ("b", "2")]);
    let other = store(&[("a", "1")]);
    assert!(h.is_contained_by(&other));
    assert!(!other.is_contained_by(&h));
    assert!(!h.is_contained_by(&store(&[("a", "2")])));
}

#[test]
fn remove_key_drops_one_key() {
    let h = store(&[("a", "1"), ("b", "2")]);
    let r = h.remove_key("a");
    assert_eq!(r, store(&[("b", "2")]));
    assert!(!r.contains_key("a"));
    assert!(r.contains_key("b"));
    assert_eq!(h.remove_key("zz"), h);
    assert_eq!(h.len(), 2);
}

#[test]
fn remove_keys_drops_the_listed_keys() {
    let h = store(&[("a", "1"), ("b", "2"), ("c", "3")]);
    assert_eq!(h.remove_keys(&texts(&["a", "b"])), store(&[("c", "3")]));
    assert_eq!(h.remove_keys(&texts(&["b", "x", "b"])), store(&[("a", "1"), ("c", "3")]));
    assert_eq!(h.remove_keys(&[]), h);
}

#[test]
fn difference_needs_key_and_value_to_match() {
    let h = store(&[("a", "1"), ("b", "2")]);
    assert_eq!(h.difference(&store(&[("a", "something")])), h);
    assert_eq!(h.difference(&store(&[("a", "1")])), store(&[("b", "2")]));
    assert_eq!(h.difference(&store(&[("b", "2"), ("c", "3")])), store(&[("a", "1")]));
    assert_eq!(h.difference(&h), Hstore::new());
}

#[test]
fn to_flat_array_pairs_each_key_with_its_value() {
    let h = store(&[("a", "1"), ("b", "2")]);
    let flat = h.to_flat_array();
    assert_eq!(flat.len(), 4);
    assert_eq!(flat, texts(&["a", "1", "b", "2"]));
    let mut seen = Vec::new();
    for pair in flat.chunks(2) {
        assert_eq!(h.get(&pair[0]), Some(&pair[1]));
        assert!(!seen.contains(&pair[0]));
        seen.push(pair[0].clone());
    }
    assert!(Hstore::new().to_flat_array().is_empty());
}

#[test]
fn to_keys_and_to_values_go_together() {
    let h = store(&[("a", "1"), ("b", "2")]);
    assert_eq!(h.to_keys(), texts(&["a", "b"]));
    assert_eq!(h.to_values(), texts(&["1", "2"]));
    let same_values = store(&[("x", "1"), ("y", "1")]);
    assert_eq!(same_values.to_values(), texts(&["1", "1"]));
}

#[test]
fn slice_keeps_the_listed_keys() {
    let h = store(&[("a", "1"), ("b", "2")]);
    let r = h.slice(&texts(&["b"]));
    assert_eq!(r.len(), 1);
    assert_eq!(r.get_value("b"), Some("2".to_string()));
    assert_eq!(h.slice(&texts(&["b", "zz", "b"])), store(&[("b", "2")]));
    assert_eq!(h.slice(&[]), Hstore::new());
}

#[test]
fn from_kv_makes_one_pair() {
    let h = Hstore::from_kv("a", "10");
    assert_eq!(h.len(), 1);
    assert_eq!(h.get_value("a"), Some("10".to_string()));
}

#[test]
fn from_array_reads_key_value_in_turn() {
    let h = Hstore::from_array(&texts(&["a", "10", "b", "20"])).unwrap();
    assert_eq!(h, store(&[("a", "10"), ("b", "20")]));
    assert_eq!(Hstore::from_array(&[]).unwrap(), Hstore::new());
    assert_eq!(Hstore::from_array(&texts(&["a", "1", "a", "2"])).unwrap(), store(&[("a", "2")]));
}

#[test]
fn from_array_refuses_an_odd_length() {
    assert!(Hstore::from_array(&texts(&["a"])).is_none());
    assert!(Hstore::from_array(&texts(&["a", "1", "b"])).is_none());
}

#[test]
fn from_kv_array_zips_by_index() {
    let h = Hstore::from_kv_array(&texts(&["a", "b"]), &texts(&["10", "20"])).unwrap();
    assert_eq!(h, store(&[("a", "10"), ("b", "20")]));
    assert!(Hstore::from_kv_array(&texts(&["a", "b"]), &texts(&["10"])).is_none());
    assert!(Hstore::from_kv_array(&[], &texts(&["10"])).is_none());
}

#[test]
fn flat_array_and_from_array_are_inverse() {
    let h = store(&[("a", "1"), ("b", "2"), ("c", "")]);
    assert_eq!(Hstore::from_array(&h.to_flat_array()).unwrap(), h);
    assert_eq!(Hstore::from_kv_array(&h.to_keys(), &h.to_values()).unwrap(), h);
}
