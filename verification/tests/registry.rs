use std::collections::hash_map::DefaultHasher;
use std::hash::{Hash, Hasher};

use typst_core::model::{Func, Value};
use typst_core::registry::{NativeKind, Registry, Scope, Type, NativeTypeData, TypeOrder};

fn hash_of<T: Hash>(t: &T) -> u64 {
    let mut h = DefaultHasher::new();
    t.hash(&mut h);
    h.finish()
}

#[test]
fn type_of_is_memoized() {
    let mut reg = Registry::new();
    let t1 = Type::of(NativeKind::Int, &mut reg);
    let t2 = Type::of(NativeKind::Int, &mut reg);
    assert_eq!(t1, t2);
    assert_eq!(hash_of(&t1), hash_of(&t2));
    assert_eq!(reg.len(), 1);
}

#[test]
fn distinct_kinds_distinct_descriptors() {
    let mut reg = Registry::new();
    let ti = Type::of(NativeKind::Int, &mut reg);
    let tb = Type::of(NativeKind::Bool, &mut reg);
    assert_ne!(ti, tb);
    assert_eq!(reg.len(), 2);
}

fn custom(long_name: &str) -> NativeTypeData {
    NativeTypeData {
        short_name: "cus".to_string(),
        long_name: long_name.to_string(),
        title: "Custom".to_string(),
        docs: "A library-defined kind.".to_string(),
        keywords: Vec::new(),
        constructor: None,
        scope: Scope::new(),
    }
}

#[test]
fn shared_long_name_is_order_equivalent_not_identical() {
    let mut reg = Registry::new();
    let a = reg.register(custom("twin"));
    let b = reg.register(custom("twin"));
    assert_ne!(a, b);
    assert_eq!(a.cmp(&b, &reg), TypeOrder::Equal);
    assert_eq!(a.partial_cmp(&b, &reg), Some(TypeOrder::Equal));
}

#[test]
fn ordering_is_lexical_on_long_names() {
    let mut reg = Registry::new();
    let ti = Type::of(NativeKind::Int, &mut reg); // "integer"
    let tb = Type::of(NativeKind::Bool, &mut reg); // "boolean"
    assert_eq!(tb.cmp(&ti, &reg), TypeOrder::Less);
    assert_eq!(ti.cmp(&tb, &reg), TypeOrder::Greater);
    assert_eq!(ti.cmp(&ti, &reg), TypeOrder::Equal);
}

#[test]
fn accessors_read_the_descriptor() {
    let mut reg = Registry::new();
    let t = Type::of(NativeKind::Int, &mut reg);
    assert_eq!(t.short_name(&reg).as_str(), "int");
    assert_eq!(t.long_name(&reg).as_str(), "integer");
    assert_eq!(t.title(&reg).as_str(), "Integer");
    assert_eq!(t.docs(&reg).as_str(), "A whole number.");
    let kws: Vec<&str> = t.keywords(&reg).iter().map(|k| k.as_str()).collect();
    assert_eq!(kws, vec!["number"]);
}

#[test]
fn missing_field_always_fails() {
    let mut reg = Registry::new();
    let t = Type::of(NativeKind::Int, &mut reg);
    match t.field(&reg, "nonexistent") {
        Err(typst_core::diag::Error::FieldMissing { ty, field }) => {
            assert_eq!(ty.as_str(), "integer");
            assert_eq!(field.as_str(), "nonexistent");
        }
        other => panic!("expected FieldMissing, got {:?}", other),
    }
}

#[test]
fn present_field_is_returned() {
    let mut reg = Registry::new();
    let t = Type::of(NativeKind::Int, &mut reg);
    match t.field(&reg, "max") {
        Ok(Value::Int(n)) => assert_eq!(*n, i64::MAX),
        other => panic!("expected Ok(Int), got {:?}", other),
    }
}

#[test]
fn missing_constructor_always_fails() {
    let mut reg = Registry::new();
    let t = Type::of(NativeKind::Bool, &mut reg);
    match t.constructor(&reg) {
        Err(typst_core::diag::Error::ConstructorMissing { ty }) => {
            assert_eq!(ty.as_str(), "boolean");
        }
        other => panic!("expected ConstructorMissing, got {:?}", other),
    }
}

#[test]
fn declared_constructor_is_returned() {
    let mut reg = Registry::new();
    let t = Type::of(NativeKind::Int, &mut reg);
    assert_eq!(t.constructor(&reg), Ok(Func(1)));
}

#[test]
fn value_type_determination() {
    let mut reg = Registry::new();
    let t = Type::construct(&Value::Bool(true), &mut reg);
    let tb = Type::of(NativeKind::Bool, &mut reg);
    assert_eq!(t, tb);
    let ts = Value::Str("hi".to_string()).ty(&mut reg);
    assert_eq!(ts.long_name(&reg).as_str(), "string");
    assert_eq!(ts.into_value(), Value::Type(ts));
}
