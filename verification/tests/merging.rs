use my_algo_pay::wire::{merge, merge_owned, WireValue};

fn obj(entries: Vec<(&str, WireValue)>) -> WireValue {
    WireValue::Obj(entries.into_iter().map(|(k, v)| (k.to_string(), v)).collect())
}

#[test]
fn merge_with_empty_object_is_identity() {
    let mut target = obj(vec![("a", WireValue::Num(1)), ("b", WireValue::Bool(true))]);
    merge(&mut target, WireValue::Obj(Vec::new()));
    assert_eq!(target.obj_get("a").unwrap().as_num(), Some(1));
    assert_eq!(target.obj_get("b").unwrap().as_bool(), Some(true));
    match &target {
        WireValue::Obj(es) => assert_eq!(es.len(), 2),
        _ => panic!("target must stay an object"),
    }
}

#[test]
fn merge_null_removes_key_and_is_noop_when_absent() {
    let mut target = obj(vec![("a", WireValue::Num(1)), ("b", WireValue::Num(2))]);
    merge(&mut target, obj(vec![("a", WireValue::Null)]));
    assert!(target.obj_get("a").is_none());
    assert_eq!(target.obj_get("b").unwrap().as_num(), Some(2));

    let mut untouched = obj(vec![("b", WireValue::Num(2))]);
    merge(&mut untouched, obj(vec![("zz", WireValue::Null)]));
    assert_eq!(untouched.obj_get("b").unwrap().as_num(), Some(2));
    match &untouched {
        WireValue::Obj(es) => assert_eq!(es.len(), 1),
        _ => panic!("target must stay an object"),
    }
}

#[test]
fn merge_overwrites_and_inserts() {
    let mut target = obj(vec![("a", WireValue::Num(1))]);
    merge(
        &mut target,
        obj(vec![("a", WireValue::Num(9)), ("c", WireValue::Str("x".to_string()))]),
    );
    assert_eq!(target.obj_get("a").unwrap().as_num(), Some(9));
    assert_eq!(target.obj_get("c").unwrap().as_str().unwrap().as_str(), "x");
}

#[test]
fn merge_recurses_into_nested_objects() {
    let inner_t = obj(vec![("x", WireValue::Num(1)), ("gone", WireValue::Num(3))]);
    let inner_s = obj(vec![("y", WireValue::Num(2)), ("gone", WireValue::Null)]);
    let mut target = obj(vec![("a", inner_t)]);
    merge(&mut target, obj(vec![("a", inner_s)]));
    let a = target.obj_get("a").unwrap();
    assert_eq!(a.obj_get("x").unwrap().as_num(), Some(1));
    assert_eq!(a.obj_get("y").unwrap().as_num(), Some(2));
    assert!(a.obj_get("gone").is_none());
}

#[test]
fn merge_replaces_wholesale_when_either_side_is_no_object() {
    let r = merge_owned(WireValue::Num(1), WireValue::Str("s".to_string()));
    assert_eq!(r.as_str().unwrap().as_str(), "s");

    let r2 = merge_owned(WireValue::Num(1), WireValue::Obj(Vec::new()));
    assert!(matches!(r2, WireValue::Obj(_)));

    let r3 = merge_owned(obj(vec![("a", WireValue::Num(1))]), WireValue::Num(4));
    assert_eq!(r3.as_num(), Some(4));
}
