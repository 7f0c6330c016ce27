use diesel_pg_hstore::container::Hstore;
use diesel_pg_hstore::literal::{
    has_injection_hazard, render_literal, render_literal_strict, RenderError,
};

fn store(pairs: &[(&str, &str)]) -> Hstore {
    let mut h = Hstore::new();
    for (k, v) in pairs {
        h.insert(k.to_string(), v.to_string());
    }
    h
}

#[test]
fn literal_of_two_pairs() {
    let h = store(&[("a", "1"), ("b", "2")]);
    assert_eq!(render_literal(&h, false).unwrap(), "'a=>1,b=>2'::hstore");
    assert_eq!(render_literal(&h, true).unwrap(), "'a=>1,b=>2'::hstore");
}

#[test]
fn literal_of_one_pair_has_no_comma() {
    assert_eq!(render_literal(&store(&[("k", "v")]), true).unwrap(), "'k=>v'::hstore");
}

#[test]
fn literal_of_three_pairs() {
    let h = store(&[("a", "1"), ("b", "2"), ("c", "3")]);
    assert_eq!(render_literal(&h, false).unwrap(), "'a=>1,b=>2,c=>3'::hstore");
}

#[test]
fn empty_literal_is_rendered_unless_refused() {
    assert_eq!(render_literal(&Hstore::new(), false).unwrap(), "''::hstore");
    assert_eq!(render_literal(&Hstore::new(), true), Err(RenderError::EmptyLiteral));
}

#[test]
fn literal_splices_texts_unescaped() {
    let h = store(&[("a'b", "1,2")]);
    assert_eq!(render_literal(&h, false).unwrap(), "'a'b=>1,2'::hstore");
}

#[test]
fn hazard_is_found_in_keys_and_values() {
    assert!(!has_injection_hazard(&store(&[("a", "1"), ("bé", "日本")])));
    assert!(!has_injection_hazard(&Hstore::new()));
    for bad in ["=", ">", ",", "'", "\"", "\\", " ", "\t", "\n", "\r"] {
        assert!(has_injection_hazard(&store(&[("a", "1"), (&format!("k{}", bad), "v")])));
        assert!(has_injection_hazard(&store(&[("k", &format!("{}v", bad)), ("a", "1")])));
    }
}

#[test]
fn strict_rendering_refuses_a_hazard() {
    let bad = store(&[("a", "1'; DROP TABLE t; --")]);
    assert_eq!(render_literal_strict(&bad, false), Err(RenderError::SqlInjectionHazard));
    assert_eq!(render_literal_strict(&bad, true), Err(RenderError::SqlInjectionHazard));
}

#[test]
fn strict_rendering_of_safe_texts() {
    let h = store(&[("a", "1"), ("b", "2")]);
    assert_eq!(render_literal_strict(&h, true).unwrap(), "'a=>1,b=>2'::hstore");
    assert_eq!(render_literal_strict(&Hstore::new(), false).unwrap(), "''::hstore");
    assert_eq!(render_literal_strict(&Hstore::new(), true), Err(RenderError::EmptyLiteral));
}
