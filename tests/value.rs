use askit_rhai::value::{is_well_formed, keys_are_distinct, Value};

fn s(text: &str) -> String {
    text.to_string()
}

#[test]
fn distinct_keys_are_accepted() {
    let entries = vec![(s("a"), Value::Unit), (s("b"), Value::Unit), (s("c"), Value::Unit)];
    assert!(keys_are_distinct(&entries));
    assert!(keys_are_distinct(&vec![]));
}

#[test]
fn repeated_key_is_detected() {
    let entries = vec![(s("a"), Value::Unit), (s("b"), Value::Unit), (s("a"), Value::Integer(1))];
    assert!(!keys_are_distinct(&entries));
}

#[test]
fn well_formedness_looks_at_every_depth() {
    let good = Value::Array(vec![
        Value::Object(vec![(s("x"), Value::Integer(1))]),
        Value::Integer(2),
    ]);
    assert!(is_well_formed(&good));
    let bad = Value::Array(vec![
        Value::Integer(2),
        Value::Object(vec![(s("x"), Value::Integer(1)), (s("x"), Value::Integer(3))]),
    ]);
    assert!(!is_well_formed(&bad));
    let bad_inner = Value::Object(vec![(
        s("outer"),
        Value::Object(vec![(s("k"), Value::Unit), (s("k"), Value::Unit)]),
    )]);
    assert!(!is_well_formed(&bad_inner));
    assert!(is_well_formed(&Value::String(s("plain"))));
}
