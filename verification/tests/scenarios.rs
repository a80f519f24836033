use hyperkv::collection::{SortedMap, SortedSet};
use hyperkv::object::Object;
use hyperkv::predicate::{Operator, Predicate};
use hyperkv::scalar::{Float, ScalarType};
use hyperkv::scenario::{judge, perform, Response, Step};
use hyperkv::schema::Schema;
use hyperkv::space::Space;
use hyperkv::value::{Value, ValueType};

struct Scenario {
    name: &'static str,
    key_type: ScalarType,
    attributes: Vec<(&'static str, ValueType)>,
    steps: Vec<Step>,
}

fn text(s: &str) -> Value {
    Value::String(s.as_bytes().to_vec())
}

fn bytes(s: &str) -> Vec<u8> {
    s.as_bytes().to_vec()
}

fn float(x: f64) -> Float {
    match Float::from_bits(x.to_bits()) {
        Some(f) => f,
        None => panic!("{} is not a number", x),
    }
}

fn object(pairs: Vec<(&str, Value)>) -> Object {
    let mut out = Object::new();
    for (name, value) in pairs {
        out = match out.with(name.to_string(), value) {
            Ok(next) => next,
            Err(e) => panic!("attribute {} twice: {:?}", name, e),
        };
    }
    out
}

fn pred(attr: &str, op: Operator, operand: Value) -> Predicate {
    Predicate::new(attr.to_string(), op, operand)
}

fn put(key: Value, attrs: Vec<(&str, Value)>) -> Step {
    Step::Put { key, attrs: object(attrs) }
}

fn get(key: Value, expected: Vec<(&str, Value)>) -> Step {
    Step::Get { key, expected: object(expected), loosely: false }
}

fn get_loosely(key: Value, expected: Vec<(&str, Value)>) -> Step {
    Step::Get { key, expected: object(expected), loosely: true }
}

fn search(preds: Vec<Predicate>, wanted: Vec<Vec<(&str, Value)>>) -> Step {
    Step::Search { preds, wanted: wanted.into_iter().map(object).collect() }
}

fn string_attrs(names: &[&'static str]) -> Vec<(&'static str, ValueType)> {
    names.iter().map(|n| (*n, ValueType::Scalar(ScalarType::String))).collect()
}

/// Writes, overwrites and removes one record.
fn basic() -> Scenario {
    let steps = vec![
        Step::GetNothing { key: text("k") },
        put(text("k"), vec![("v", text("v1"))]),
        get(text("k"), vec![("v", text("v1"))]),
        put(text("k"), vec![("v", text("v2"))]),
        get(text("k"), vec![("v", text("v2"))]),
        put(text("k"), vec![("v", text("v3"))]),
        get(text("k"), vec![("v", text("v3"))]),
        Step::Del { key: text("k") },
        Step::GetNothing { key: text("k") },
    ];
    Scenario { name: "Basic", key_type: ScalarType::String, attributes: string_attrs(&["v"]), steps }
}

/// An equality search before and after each of two writes.
fn basic_search() -> Scenario {
    let query = || vec![pred("v", Operator::Equals, text("v1"))];
    let row = |k: &'static str| vec![("k", text(k)), ("v", text("v1"))];
    let steps = vec![
        search(query(), vec![]),
        put(text("k1"), vec![("v", text("v1"))]),
        search(query(), vec![row("k1")]),
        put(text("k2"), vec![("v", text("v1"))]),
        search(query(), vec![row("k1"), row("k2")]),
    ];
    Scenario {
        name: "BasicSearch",
        key_type: ScalarType::String,
        attributes: string_attrs(&["v"]),
        steps,
    }
}

/// A conditional write that is refused, then one that is applied.
fn cond_put() -> Scenario {
    let steps = vec![
        Step::GetNothing { key: text("k") },
        put(text("k"), vec![("v", text("v1"))]),
        get(text("k"), vec![("v", text("v1"))]),
        Step::CondPut {
            key: text("k"),
            preds: vec![pred("v", Operator::Equals, text("v2"))],
            attrs: object(vec![("v", text("v3"))]),
            applies: false,
        },
        get(text("k"), vec![("v", text("v1"))]),
        Step::CondPut {
            key: text("k"),
            preds: vec![pred("v", Operator::Equals, text("v1"))],
            attrs: object(vec![("v", text("v3"))]),
            applies: true,
        },
        get(text("k"), vec![("v", text("v3"))]),
    ];
    Scenario { name: "CondPut", key_type: ScalarType::String, attributes: string_attrs(&["v"]), steps }
}

/// One attribute of type `t`: its zero value after an empty write, then
/// each of `values` written and read back, strictly or loosely.
fn data_type(
    name: &'static str,
    t: ValueType,
    zero: Value,
    values: Vec<(Value, Value)>,
    loosely: bool,
) -> Scenario {
    let read = |expected: Value| {
        if loosely {
            get_loosely(text("k"), vec![("v", expected)])
        } else {
            get(text("k"), vec![("v", expected)])
        }
    };
    let mut steps = vec![put(text("k"), vec![]), read(zero)];
    for (written, expected) in values {
        steps.push(put(text("k"), vec![("v", written)]));
        steps.push(read(expected));
    }
    Scenario { name, key_type: ScalarType::String, attributes: vec![("v", t)], steps }
}

/// Integers, with the ends of their range.
fn data_type_int() -> Scenario {
    let values = [1i64, -1, 0, 9223372036854775807, -9223372036854775808];
    data_type(
        "DataTypeInt",
        ValueType::Scalar(ScalarType::Int),
        Value::Int(0),
        values.iter().map(|n| (Value::Int(*n), Value::Int(*n))).collect(),
        false,
    )
}

/// Lists of doubles.
fn data_type_list_float() -> Scenario {
    let filled = || Value::ListFloat(vec![float(3.14), float(0.25), float(1.0)]);
    data_type(
        "DataTypeListFloat",
        ValueType::ListOf(ScalarType::Float),
        Value::ListFloat(vec![]),
        vec![(filled(), filled()), (Value::ListFloat(vec![]), Value::ListFloat(vec![]))],
        false,
    )
}

/// Lists of integers, compared loosely.
fn data_type_list_int() -> Scenario {
    let filled = || Value::ListInt(vec![1, 2, 3]);
    data_type(
        "DataTypeListInt",
        ValueType::ListOf(ScalarType::Int),
        Value::ListInt(vec![]),
        vec![(filled(), filled()), (Value::ListInt(vec![]), Value::ListInt(vec![]))],
        true,
    )
}

/// Lists of strings.
fn data_type_list_string() -> Scenario {
    let filled = || Value::ListString(vec![bytes("A"), bytes("B"), bytes("C")]);
    data_type(
        "DataTypeListString",
        ValueType::ListOf(ScalarType::String),
        Value::ListString(vec![]),
        vec![(filled(), filled()), (Value::ListString(vec![]), Value::ListString(vec![]))],
        false,
    )
}

/// Maps from doubles to strings, compared loosely: the empty map is
/// expected as a map from strings to strings.
fn data_type_map_float_string() -> Scenario {
    let filled = || {
        Value::MapFloatString(SortedMap::from_pairs(vec![
            (float(0.25), bytes("Y")),
            (float(1.0), bytes("Z")),
            (float(3.14), bytes("X")),
        ]))
    };
    let empty = || Value::MapStringString(SortedMap::new());
    data_type(
        "DataTypeMapFloatString",
        ValueType::MapOf(ScalarType::Float, ScalarType::String),
        empty(),
        vec![(filled(), filled()), (Value::MapFloatString(SortedMap::new()), empty())],
        true,
    )
}

/// Maps from integers to doubles.
fn data_type_map_int_float() -> Scenario {
    let filled = || {
        Value::MapIntFloat(SortedMap::from_pairs(vec![
            (1, float(3.14)),
            (2, float(0.25)),
            (3, float(1.0)),
        ]))
    };
    let empty = || Value::MapIntFloat(SortedMap::new());
    data_type(
        "DataTypeMapIntFloat",
        ValueType::MapOf(ScalarType::Int, ScalarType::Float),
        empty(),
        vec![(filled(), filled()), (empty(), empty())],
        false,
    )
}

/// Maps from integers to integers.
fn data_type_map_int_int() -> Scenario {
    let filled = || Value::MapIntInt(SortedMap::from_pairs(vec![(1, 7), (2, 8), (3, 9)]));
    let empty = || Value::MapIntInt(SortedMap::new());
    data_type(
        "DataTypeMapIntInt",
        ValueType::MapOf(ScalarType::Int, ScalarType::Int),
        empty(),
        vec![(filled(), filled()), (empty(), empty())],
        false,
    )
}

/// Maps from strings to integers.
fn data_type_map_string_int() -> Scenario {
    let filled = || {
        Value::MapStringInt(SortedMap::from_pairs(vec![
            (bytes("A"), 1),
            (bytes("C"), 3),
            (bytes("B"), 2),
        ]))
    };
    let empty = || Value::MapStringInt(SortedMap::new());
    data_type(
        "DataTypeMapStringInt",
        ValueType::MapOf(ScalarType::String, ScalarType::Int),
        empty(),
        vec![(filled(), filled()), (empty(), empty())],
        false,
    )
}

/// Sets of integers.
fn data_type_set_int() -> Scenario {
    let filled = || Value::SetInt(SortedSet::from_vec(vec![1, 2, 3]));
    let empty = || Value::SetInt(SortedSet::new());
    data_type(
        "DataTypeSetInt",
        ValueType::SetOf(ScalarType::Int),
        empty(),
        vec![(filled(), filled()), (empty(), empty())],
        false,
    )
}

/// Searches by the length of the key.
fn length_string() -> Scenario {
    let keys = ["A", "AB", "ABC", "ABCD", "ABCDE"];
    let row = |k: &'static str| vec![("k", text(k))];
    let mut steps: Vec<Step> = keys.iter().map(|k| put(text(k), vec![])).collect();
    for (n, k) in keys.iter().enumerate() {
        let length = Value::Int(n as i64 + 1);
        steps.push(search(vec![pred("k", Operator::LengthEquals, length)], vec![row(k)]));
    }
    steps.push(search(
        vec![pred("k", Operator::LengthLessEqual, Value::Int(3))],
        vec![row("A"), row("AB"), row("ABC")],
    ));
    steps.push(search(
        vec![pred("k", Operator::LengthGreaterEqual, Value::Int(3))],
        vec![row("ABC"), row("ABCD"), row("ABCDE")],
    ));
    Scenario {
        name: "LengthString",
        key_type: ScalarType::String,
        attributes: string_attrs(&["v"]),
        steps,
    }
}

/// Two attributes, written one after the other and read in part.
fn multi_attribute() -> Scenario {
    let steps = vec![
        Step::GetNothing { key: text("k") },
        put(text("k"), vec![("v1", text("ABC"))]),
        get(text("k"), vec![("v1", text("ABC")), ("v2", text(""))]),
        put(text("k"), vec![("v2", text("123"))]),
        get(text("k"), vec![("v1", text("ABC")), ("v2", text("123"))]),
        Step::GetPartial {
            key: text("k"),
            names: vec!["v1".to_string()],
            expected: object(vec![("v1", text("ABC"))]),
        },
    ];
    Scenario {
        name: "MultiAttribute",
        key_type: ScalarType::String,
        attributes: string_attrs(&["v1", "v2"]),
        steps,
    }
}

/// Range searches over `values`, each stored under itself, with the
/// bounds `middle`, `low` and `high`, on the key and on the attribute.
fn range_search(
    name: &'static str,
    scalar: ScalarType,
    values: Vec<Value>,
    low: usize,
    middle: usize,
    high: usize,
) -> Scenario {
    let row = |i: usize| vec![("k", values[i].dup()), ("v", values[i].dup())];
    let rows = |from: usize, to: usize| (from..to).map(row).collect::<Vec<_>>();
    let n = values.len();
    let mut steps: Vec<Step> =
        values.iter().map(|x| put(x.dup(), vec![("v", x.dup())])).collect();
    let cases = [
        (Operator::LessEqual, 0, middle + 1),
        (Operator::GreaterEqual, middle, n),
        (Operator::LessThan, 0, middle),
        (Operator::GreaterThan, middle + 1, n),
    ];
    for (op, from, to) in cases {
        for attr in ["k", "v"] {
            steps.push(search(vec![pred(attr, op, values[middle].dup())], rows(from, to)));
        }
    }
    for attr in ["k", "v"] {
        steps.push(search(
            vec![
                pred(attr, Operator::GreaterEqual, values[low].dup()),
                pred(attr, Operator::LessEqual, values[high].dup()),
            ],
            rows(low, high + 1),
        ));
    }
    Scenario {
        name,
        key_type: scalar,
        attributes: vec![("v", ValueType::Scalar(scalar))],
        steps,
    }
}

/// Range searches over the integers from -2 to 2.
fn range_search_int() -> Scenario {
    let values = [-2i64, -1, 0, 1, 2].iter().map(|n| Value::Int(*n)).collect();
    range_search("RangeSearchInt", ScalarType::Int, values, 1, 2, 3)
}

/// Range searches over the strings from A to E.
fn range_search_string() -> Scenario {
    let values = ["A", "B", "C", "D", "E"].iter().map(|s| text(s)).collect();
    range_search("RangeSearchString", ScalarType::String, values, 1, 2, 3)
}

/// Pattern searches over the keys made of three of `foo`, `bar`, `baz`.
fn regex_search() -> Scenario {
    let parts = ["foo", "bar", "baz"];
    let mut keys: Vec<String> = Vec::new();
    for a in parts {
        for b in parts {
            for c in parts {
                keys.push(format!("{}/{}/{}", a, b, c));
            }
        }
    }
    let rows = |keep: &dyn Fn(&str) -> bool| {
        keys.iter().filter(|k| keep(k.as_str())).map(|k| vec![("k", text(k))]).collect::<Vec<_>>()
    };
    let mut steps: Vec<Step> = keys.iter().map(|k| put(text(k), vec![])).collect();
    steps.push(search(
        vec![pred("k", Operator::Regex, text("^foo"))],
        rows(&|k| k.starts_with("foo")),
    ));
    steps.push(search(
        vec![pred("k", Operator::Regex, text("foo$"))],
        rows(&|k| k.ends_with("foo")),
    ));
    steps.push(search(
        vec![pred("k", Operator::Regex, text("^b.*/foo/.*$"))],
        rows(&|k| k.starts_with("b") && k[3..].starts_with("/foo/")),
    ));
    Scenario {
        name: "RegexSearch",
        key_type: ScalarType::String,
        attributes: string_attrs(&["v"]),
        steps,
    }
}

/// Every scenario.
fn all() -> Vec<Scenario> {
    vec![
        basic(),
        basic_search(),
        cond_put(),
        data_type_int(),
        data_type_list_float(),
        data_type_list_int(),
        data_type_list_string(),
        data_type_map_float_string(),
        data_type_map_int_float(),
        data_type_map_int_int(),
        data_type_map_string_int(),
        data_type_set_int(),
        length_string(),
        multi_attribute(),
        range_search_int(),
        range_search_string(),
        regex_search(),
    ]
}

fn space_of(scenario: &Scenario) -> Space {
    let mut schema = Schema::new("k".to_string(), scenario.key_type);
    for (name, t) in &scenario.attributes {
        schema = schema.declare(name.to_string(), *t).unwrap();
    }
    Space::new(schema)
}

fn passes(scenario: Scenario) {
    let mut space = space_of(&scenario);
    for (i, step) in scenario.steps.iter().enumerate() {
        let response = perform(&mut space, step);
        assert!(
            judge(step, &response),
            "{} step {}: {:?} answered {:?}",
            scenario.name,
            i,
            step,
            response
        );
    }
}

#[test]
fn there_are_seventeen_scenarios() {
    let names: Vec<&str> = all().iter().map(|s| s.name).collect();
    assert_eq!(names.len(), 17);
    for (i, a) in names.iter().enumerate() {
        for b in &names[i + 1..] {
            assert_ne!(a, b);
        }
    }
}

#[test]
fn scenario_basic() {
    passes(basic());
}

#[test]
fn scenario_basic_search() {
    passes(basic_search());
}

#[test]
fn scenario_cond_put() {
    passes(cond_put());
}

#[test]
fn scenario_data_type_int() {
    passes(data_type_int());
}

#[test]
fn scenario_data_type_list_float() {
    passes(data_type_list_float());
}

#[test]
fn scenario_data_type_list_int() {
    passes(data_type_list_int());
}

#[test]
fn scenario_data_type_list_string() {
    passes(data_type_list_string());
}

#[test]
fn scenario_data_type_map_float_string() {
    passes(data_type_map_float_string());
}

#[test]
fn scenario_data_type_map_int_float() {
    passes(data_type_map_int_float());
}

#[test]
fn scenario_data_type_map_int_int() {
    passes(data_type_map_int_int());
}

#[test]
fn scenario_data_type_map_string_int() {
    passes(data_type_map_string_int());
}

#[test]
fn scenario_data_type_set_int() {
    passes(data_type_set_int());
}

#[test]
fn scenario_length_string() {
    passes(length_string());
}

#[test]
fn scenario_multi_attribute() {
    passes(multi_attribute());
}

#[test]
fn scenario_range_search_int() {
    passes(range_search_int());
}

#[test]
fn scenario_range_search_string() {
    passes(range_search_string());
}

#[test]
fn scenario_regex_search() {
    passes(regex_search());
}

#[test]
fn a_wrong_expectation_is_noticed() {
    let mut scenario = basic();
    scenario.steps[2] = get(text("k"), vec![("v", text("v2"))]);
    let mut space = space_of(&scenario);
    let verdicts: Vec<bool> = scenario
        .steps
        .iter()
        .map(|step| {
            let response = perform(&mut space, step);
            judge(step, &response)
        })
        .collect();
    assert_eq!(verdicts, vec![true, true, false, true, true, true, true, true, true]);
}

#[test]
fn a_response_of_another_kind_never_meets_a_step() {
    let step = put(text("k"), vec![]);
    assert!(judge(&step, &Response::Written(Ok(()))));
    assert!(!judge(&step, &Response::Read(Ok(Object::new()))));
    assert!(!judge(&step, &Response::Found(vec![], None)));
    let step = search(vec![], vec![]);
    assert!(judge(&step, &Response::Found(vec![], None)));
    assert!(!judge(&step, &Response::Found(vec![], Some(hyperkv::error::Error::TransportError))));
    assert!(!judge(&step, &Response::Written(Ok(()))));
    let step = Step::GetNothing { key: text("k") };
    assert!(judge(&step, &Response::Read(Err(hyperkv::error::Error::NotFound))));
    assert!(!judge(&step, &Response::Read(Err(hyperkv::error::Error::TransportError))));
    let step = Step::Del { key: text("k") };
    assert!(!judge(&step, &Response::Written(Err(hyperkv::error::Error::TransportError))));
}
