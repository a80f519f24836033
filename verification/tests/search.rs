use hyperkv::error::Error;
use hyperkv::expect::same_results;
use hyperkv::object::Object;
use hyperkv::predicate::{Operator, Predicate};
use hyperkv::scalar::ScalarType;
use hyperkv::schema::Schema;
use hyperkv::space::Space;
use hyperkv::stream::Step;
use hyperkv::value::{Value, ValueType};

fn text(s: &str) -> Value {
    Value::String(s.as_bytes().to_vec())
}

fn space(key: ScalarType, value: ScalarType) -> Space {
    let schema = Schema::new("k".to_string(), key)
        .declare("v".to_string(), ValueType::Scalar(value))
        .unwrap();
    Space::new(schema)
}

fn pred(attr: &str, op: Operator, operand: Value) -> Predicate {
    Predicate::new(attr.to_string(), op, operand)
}

fn int_row(n: i64) -> Object {
    Object::new()
        .with("k".to_string(), Value::Int(n))
        .unwrap()
        .with("v".to_string(), Value::Int(n))
        .unwrap()
}

fn int_rows(ns: &[i64]) -> Vec<Object> {
    ns.iter().map(|n| int_row(*n)).collect()
}

fn text_row(k: &str, v: &str) -> Object {
    Object::new()
        .with("k".to_string(), text(k))
        .unwrap()
        .with("v".to_string(), text(v))
        .unwrap()
}

fn integers() -> Space {
    let mut kv = space(ScalarType::Int, ScalarType::Int);
    for n in [-2i64, -1, 0, 1, 2] {
        let attrs = Object::new().with("v".to_string(), Value::Int(n)).unwrap();
        assert_eq!(kv.put(&Value::Int(n), &attrs), Ok(()));
    }
    kv
}

fn letters() -> Space {
    let mut kv = space(ScalarType::String, ScalarType::String);
    for s in ["A", "B", "C", "D", "E"] {
        let attrs = Object::new().with("v".to_string(), text(s)).unwrap();
        assert_eq!(kv.put(&text(s), &attrs), Ok(()));
    }
    kv
}

fn found_ints(kv: &Space, preds: Vec<Predicate>, expected: &[i64]) -> bool {
    let found = kv.select(&preds).unwrap();
    found.len() == expected.len() && same_results(&found, &int_rows(expected))
}

fn found_letters(kv: &Space, preds: Vec<Predicate>, expected: &[&str]) -> bool {
    let found = kv.select(&preds).unwrap();
    let rows: Vec<Object> = expected.iter().map(|s| text_row(s, s)).collect();
    found.len() == expected.len() && same_results(&found, &rows)
}

#[test]
fn range_search_int() {
    let kv = integers();
    for attr in ["k", "v"] {
        assert!(found_ints(&kv, vec![pred(attr, Operator::LessEqual, Value::Int(0))], &[-2, -1, 0]));
        assert!(found_ints(&kv, vec![pred(attr, Operator::GreaterEqual, Value::Int(0))], &[0, 1, 2]));
        assert!(found_ints(&kv, vec![pred(attr, Operator::LessThan, Value::Int(0))], &[-2, -1]));
        assert!(found_ints(&kv, vec![pred(attr, Operator::GreaterThan, Value::Int(0))], &[1, 2]));
        assert!(found_ints(
            &kv,
            vec![
                pred(attr, Operator::GreaterEqual, Value::Int(-1)),
                pred(attr, Operator::LessEqual, Value::Int(1)),
            ],
            &[-1, 0, 1]
        ));
    }
}

#[test]
fn range_search_int_is_exact_about_its_bounds() {
    let kv = integers();
    assert!(!found_ints(&kv, vec![pred("k", Operator::LessEqual, Value::Int(0))], &[-2, -1]));
    assert!(!found_ints(&kv, vec![pred("k", Operator::LessThan, Value::Int(0))], &[-2, -1, 0]));
    assert!(found_ints(&kv, vec![pred("k", Operator::Equals, Value::Int(2))], &[2]));
    assert!(found_ints(&kv, vec![pred("k", Operator::GreaterThan, Value::Int(2))], &[]));
    assert!(found_ints(
        &kv,
        vec![
            pred("k", Operator::GreaterThan, Value::Int(-1)),
            pred("v", Operator::LessThan, Value::Int(1)),
        ],
        &[0]
    ));
    assert!(found_ints(&kv, vec![], &[-2, -1, 0, 1, 2]));
}

#[test]
fn range_search_string() {
    let kv = letters();
    for attr in ["k", "v"] {
        assert!(found_letters(&kv, vec![pred(attr, Operator::LessEqual, text("C"))], &["A", "B", "C"]));
        assert!(found_letters(&kv, vec![pred(attr, Operator::GreaterEqual, text("C"))], &["C", "D", "E"]));
        assert!(found_letters(&kv, vec![pred(attr, Operator::LessThan, text("C"))], &["A", "B"]));
        assert!(found_letters(&kv, vec![pred(attr, Operator::GreaterThan, text("C"))], &["D", "E"]));
        assert!(found_letters(
            &kv,
            vec![
                pred(attr, Operator::GreaterEqual, text("B")),
                pred(attr, Operator::LessEqual, text("D")),
            ],
            &["B", "C", "D"]
        ));
    }
}

#[test]
fn strings_order_by_byte_value_and_prefix() {
    let mut kv = space(ScalarType::String, ScalarType::String);
    for s in ["", "a", "ab", "b", "B"] {
        assert_eq!(kv.put(&text(s), &Object::new()), Ok(()));
    }
    let found = kv.select(&vec![pred("k", Operator::LessThan, text("ab"))]).unwrap();
    assert_eq!(found.len(), 3);
    let found = kv.select(&vec![pred("k", Operator::LessEqual, text("ab"))]).unwrap();
    assert_eq!(found.len(), 4);
    let found = kv.select(&vec![pred("k", Operator::GreaterThan, text("a"))]).unwrap();
    assert_eq!(found.len(), 2);
    let found = kv.select(&vec![pred("k", Operator::LessThan, text(""))]).unwrap();
    assert_eq!(found.len(), 0);
}

fn keys_only(keys: &[&str]) -> Space {
    let mut kv = space(ScalarType::String, ScalarType::String);
    for k in keys {
        assert_eq!(kv.put(&text(k), &Object::new()), Ok(()));
    }
    kv
}

fn found_keys(kv: &Space, preds: Vec<Predicate>, expected: &[&str]) -> bool {
    let found = kv.select(&preds).unwrap();
    let rows: Vec<Object> = expected.iter().map(|s| text_row(s, "")).collect();
    found.len() == expected.len() && same_results(&found, &rows)
}

#[test]
fn length_string() {
    let kv = keys_only(&["A", "AB", "ABC", "ABCD", "ABCDE"]);
    assert!(found_keys(&kv, vec![pred("k", Operator::LengthEquals, Value::Int(1))], &["A"]));
    assert!(found_keys(&kv, vec![pred("k", Operator::LengthEquals, Value::Int(2))], &["AB"]));
    assert!(found_keys(&kv, vec![pred("k", Operator::LengthEquals, Value::Int(3))], &["ABC"]));
    assert!(found_keys(&kv, vec![pred("k", Operator::LengthEquals, Value::Int(4))], &["ABCD"]));
    assert!(found_keys(&kv, vec![pred("k", Operator::LengthEquals, Value::Int(5))], &["ABCDE"]));
    assert!(found_keys(
        &kv,
        vec![pred("k", Operator::LengthLessEqual, Value::Int(3))],
        &["A", "AB", "ABC"]
    ));
    assert!(found_keys(
        &kv,
        vec![pred("k", Operator::LengthGreaterEqual, Value::Int(3))],
        &["ABC", "ABCD", "ABCDE"]
    ));
}

#[test]
fn length_bounds_below_zero() {
    let kv = keys_only(&["A", "AB"]);
    assert!(found_keys(&kv, vec![pred("k", Operator::LengthEquals, Value::Int(-1))], &[]));
    assert!(found_keys(&kv, vec![pred("k", Operator::LengthLessEqual, Value::Int(-1))], &[]));
    assert!(found_keys(
        &kv,
        vec![pred("k", Operator::LengthGreaterEqual, Value::Int(-1))],
        &["A", "AB"]
    ));
    assert!(found_keys(&kv, vec![pred("k", Operator::LengthEquals, Value::Int(0))], &[]));
}

fn grid() -> Vec<String> {
    let parts = ["foo", "bar", "baz"];
    let mut keys = Vec::new();
    for a in parts {
        for b in parts {
            for c in parts {
                keys.push(format!("{}/{}/{}", a, b, c));
            }
        }
    }
    keys
}

fn grid_space() -> Space {
    let keys = grid();
    let refs: Vec<&str> = keys.iter().map(|k| k.as_str()).collect();
    keys_only(&refs)
}

#[test]
fn regex_search() {
    let kv = grid_space();
    assert_eq!(kv.len(), 27);
    assert!(found_keys(
        &kv,
        vec![pred("k", Operator::Regex, text("^foo"))],
        &[
            "foo/foo/foo", "foo/foo/bar", "foo/foo/baz", "foo/bar/foo", "foo/bar/bar",
            "foo/bar/baz", "foo/baz/foo", "foo/baz/bar", "foo/baz/baz",
        ]
    ));
    assert!(found_keys(
        &kv,
        vec![pred("k", Operator::Regex, text("foo$"))],
        &[
            "foo/foo/foo", "foo/bar/foo", "foo/baz/foo", "bar/foo/foo", "bar/bar/foo",
            "bar/baz/foo", "baz/foo/foo", "baz/bar/foo", "baz/baz/foo",
        ]
    ));
    assert!(found_keys(
        &kv,
        vec![pred("k", Operator::Regex, text("^b.*/foo/.*$"))],
        &[
            "bar/foo/foo", "bar/foo/bar", "bar/foo/baz", "baz/foo/foo", "baz/foo/bar",
            "baz/foo/baz",
        ]
    ));
}

#[test]
fn regex_matches_anywhere_unless_anchored() {
    let kv = grid_space();
    let found = kv.select(&vec![pred("k", Operator::Regex, text("foo"))]).unwrap();
    assert_eq!(found.len(), 19);
    let found = kv.select(&vec![pred("k", Operator::Regex, text("^foo/foo/foo$"))]).unwrap();
    assert_eq!(found.len(), 1);
    let found = kv.select(&vec![pred("k", Operator::Regex, text("^oo"))]).unwrap();
    assert_eq!(found.len(), 0);
}

#[test]
fn a_malformed_pattern_is_invalid() {
    let kv = grid_space();
    assert!(matches!(
        kv.select(&vec![pred("k", Operator::Regex, text("foo(bar"))]),
        Err(Error::InvalidArgument)
    ));
    let not_utf8 = Value::String(vec![0xff, 0xfe]);
    assert!(matches!(
        kv.select(&vec![pred("k", Operator::Regex, not_utf8)]),
        Err(Error::InvalidArgument)
    ));
    let empty = keys_only(&[]);
    assert!(matches!(
        empty.select(&vec![pred("k", Operator::Regex, text("foo(bar"))]),
        Err(Error::InvalidArgument)
    ));
    assert!(matches!(
        pred("k", Operator::Regex, text("foo(bar")).test(&text("foo(bar")),
        Err(Error::InvalidArgument)
    ));
}

#[test]
fn predicates_that_do_not_fit_are_invalid() {
    let kv = integers();
    let cases = vec![
        pred("k", Operator::LessThan, text("0")),
        pred("k", Operator::Equals, text("0")),
        pred("k", Operator::Regex, text("0")),
        pred("k", Operator::Regex, Value::Int(0)),
        pred("k", Operator::LengthEquals, Value::Int(1)),
        pred("nobody", Operator::Equals, Value::Int(0)),
    ];
    for p in cases {
        assert!(matches!(kv.select(&vec![p]), Err(Error::InvalidArgument)));
    }
    let strings = letters();
    assert!(matches!(
        strings.select(&vec![pred("k", Operator::LengthEquals, text("1"))]),
        Err(Error::InvalidArgument)
    ));
}

#[test]
fn a_search_streams_each_match_once() {
    let kv = integers();
    let mut stream = kv.search(&vec![pred("k", Operator::GreaterEqual, Value::Int(0))]);
    let mut seen = Vec::new();
    loop {
        match stream.next() {
            Step::Item(o) => seen.push(o),
            Step::Finished => break,
            other => panic!("unexpected step {:?}", other),
        }
    }
    assert!(same_results(&seen, &int_rows(&[0, 1, 2])));
    assert!(matches!(stream.next(), Step::Finished));
}

#[test]
fn a_search_with_a_bad_predicate_streams_the_fault() {
    let kv = integers();
    let mut stream = kv.search(&vec![pred("k", Operator::Regex, text("^0"))]);
    assert!(matches!(stream.next(), Step::Failed(Error::InvalidArgument)));
    assert!(matches!(stream.next(), Step::Finished));
}
