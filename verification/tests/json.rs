use hachha_dev::json::{merge_json, merged, JsonValue};

fn text(s: &str) -> JsonValue {
    JsonValue::Text(String::from(s))
}

fn number(s: &str) -> JsonValue {
    JsonValue::Number(String::from(s))
}

fn object(entries: Vec<(&str, JsonValue)>) -> JsonValue {
    JsonValue::Object(entries.into_iter().map(|(k, v)| (String::from(k), v)).collect())
}

/// Compare two documents structurally, with a readable panic on the
/// first mismatch.
fn assert_json_eq(a: &JsonValue, b: &JsonValue) {
    match (a, b) {
        (JsonValue::Null, JsonValue::Null) => {}
        (JsonValue::Bool(x), JsonValue::Bool(y)) => assert_eq!(x, y),
        (JsonValue::Number(x), JsonValue::Number(y)) => assert_eq!(x, y),
        (JsonValue::Text(x), JsonValue::Text(y)) => assert_eq!(x, y),
        (JsonValue::Array(xs), JsonValue::Array(ys)) => {
            assert_eq!(xs.len(), ys.len());
            for (x, y) in xs.iter().zip(ys.iter()) {
                assert_json_eq(x, y);
            }
        }
        (JsonValue::Object(xs), JsonValue::Object(ys)) => {
            assert_eq!(xs.len(), ys.len());
            for (x, y) in xs.iter().zip(ys.iter()) {
                assert_eq!(x.0, y.0);
                assert_json_eq(&x.1, &y.1);
            }
        }
        _ => panic!("documents differ in shape"),
    }
}

#[test]
fn merge_replaces_non_objects() {
    let mut doc = JsonValue::Bool(true);
    merge_json(&mut doc, &text("x"));
    assert_json_eq(&doc, &text("x"));

    let mut doc = object(vec![("a", number("1"))]);
    merge_json(&mut doc, &JsonValue::Null);
    assert_json_eq(&doc, &JsonValue::Null);

    let mut doc = text("old");
    merge_json(&mut doc, &object(vec![("a", number("1"))]));
    assert_json_eq(&doc, &object(vec![("a", number("1"))]));
}

#[test]
fn merge_objects_recursively() {
    let mut doc = object(vec![
        ("name", text("a")),
        (
            "nested",
            object(vec![("x", number("1")), ("y", number("2"))]),
        ),
    ]);
    let other = object(vec![
        (
            "nested",
            object(vec![("y", number("3")), ("z", number("4"))]),
        ),
        ("extra", JsonValue::Bool(true)),
    ]);
    merge_json(&mut doc, &other);
    assert_json_eq(
        &doc,
        &object(vec![
            ("name", text("a")),
            (
                "nested",
                object(vec![
                    ("x", number("1")),
                    ("y", number("3")),
                    ("z", number("4")),
                ]),
            ),
            ("extra", JsonValue::Bool(true)),
        ]),
    );
}

#[test]
fn merged_keeps_both_inputs() {
    let a = object(vec![("kept", text("from a"))]);
    let b = object(vec![("added", text("from b"))]);
    let r = merged(&a, &b);
    assert_json_eq(
        &r,
        &object(vec![("kept", text("from a")), ("added", text("from b"))]),
    );
    // The inputs are untouched.
    assert_json_eq(&a, &object(vec![("kept", text("from a"))]));
    assert_json_eq(&b, &object(vec![("added", text("from b"))]));
}

#[test]
fn clone_copies_the_whole_document() {
    let doc = object(vec![
        ("items", JsonValue::Array(vec![number("1"), text("two")])),
        ("flag", JsonValue::Bool(false)),
    ]);
    let copy = doc.clone();
    assert_json_eq(&copy, &doc);
}

#[test]
fn wf_rejects_duplicate_keys() {
    assert!(object(vec![("a", number("1")), ("b", number("2"))]).is_wf());
    assert!(!object(vec![("a", number("1")), ("a", number("2"))]).is_wf());
    // A duplicate deep inside is found too.
    let nested = object(vec![(
        "outer",
        object(vec![("k", JsonValue::Null), ("k", JsonValue::Null)]),
    )]);
    assert!(!nested.is_wf());
    let in_array = JsonValue::Array(vec![object(vec![
        ("k", JsonValue::Null),
        ("k", JsonValue::Null),
    ])]);
    assert!(!in_array.is_wf());
}
