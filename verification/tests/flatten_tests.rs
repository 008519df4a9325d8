use rhermes::flatten::ArgTree;
use rhermes::repair::FlattenRepair;
use serde_json::Value;

fn tree(v: &Value) -> ArgTree {
    match v {
        Value::Object(m) => ArgTree::Object(m.iter().map(|(k, x)| (k.clone(), tree(x))).collect()),
        other => ArgTree::Leaf(other.clone()),
    }
}

fn value(t: ArgTree) -> Value {
    match t {
        ArgTree::Leaf(v) => v,
        ArgTree::Object(es) => Value::Object(es.into_iter().map(|(k, x)| (k, value(x))).collect()),
    }
}

fn flatten(v: &Value) -> Value {
    Value::Object(FlattenRepair::flatten(tree(v)).into_iter().collect())
}

fn unflatten(v: &Value) -> Value {
    match v {
        Value::Object(m) => value(FlattenRepair::unflatten(m.iter().map(|(k, x)| (k.clone(), x.clone())).collect())),
        other => other.clone(),
    }
}

fn json(s: &str) -> Value {
    serde_json::from_str(s).unwrap()
}

#[test]
fn test_flatten_simple() {
    let args = json(r#"{"path": "src/main.rs"}"#);
    assert_eq!(flatten(&args), args);
}

#[test]
fn test_flatten_nested() {
    let args = json(r#"{"file": {"path": "src/main.rs", "range": "10-20"}}"#);
    let flat = flatten(&args);
    assert_eq!(flat["file.path"], "src/main.rs");
    assert_eq!(flat["file.range"], "10-20");
}

#[test]
fn test_unflatten() {
    let flat = json(r#"{"file.path": "src/main.rs", "file.range": "10-20"}"#);
    let unflat = unflatten(&flat);
    assert_eq!(unflat["file"]["path"], "src/main.rs");
    assert_eq!(unflat["file"]["range"], "10-20");
}

#[test]
fn test_flatten_roundtrip() {
    let original = json(r#"{"level1": {"level2": {"value": 42}}}"#);
    let flat = flatten(&original);
    let unflat = unflatten(&flat);
    assert_eq!(unflat, original);
}

#[test]
fn flatten_pairs_in_order() {
    let pairs = FlattenRepair::flatten(tree(&json(r#"{"a": {"b": 1, "c": [1, 2]}, "d": null}"#)));
    let keys: Vec<&str> = pairs.iter().map(|(k, _)| k.as_str()).collect();
    assert_eq!(keys, vec!["a.b", "a.c", "d"]);
    let top = FlattenRepair::flatten(ArgTree::Leaf(json("3")));
    assert_eq!(top.len(), 1);
    assert_eq!(top[0].0, "");
}

#[test]
fn unflatten_drops_value_under_a_leaf() {
    let restored = value(FlattenRepair::unflatten(vec![
        ("a".to_string(), json("1")),
        ("a.b".to_string(), json("2")),
    ]));
    assert_eq!(restored, json(r#"{"a": 1}"#));
}
