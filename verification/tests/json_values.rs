use std::cmp::Ordering;
use std::collections::HashSet;

use indradb::fbits::{compare_fbits, i64_to_fbits, u64_to_fbits};
use indradb::{Json, JsonEntry, JsonNum, JsonValue};

fn jnull() -> Json {
    Json::new(JsonValue::Null)
}

fn jbool(b: bool) -> Json {
    Json::new(JsonValue::Bool(b))
}

fn ji(v: i64) -> Json {
    Json::new(JsonValue::Num(JsonNum::I64(v)))
}

fn ju(v: u64) -> Json {
    Json::new(JsonValue::Num(JsonNum::U64(v)))
}

fn jf(v: f64) -> Json {
    Json::new(JsonValue::Num(JsonNum::Bits(v.to_bits())))
}

fn js(s: &str) -> Json {
    Json::new(JsonValue::Str(s.as_bytes().to_vec()))
}

fn jarr(vs: Vec<JsonValue>) -> Json {
    Json::new(JsonValue::Arr(vs))
}

fn jobj(entries: Vec<(&str, JsonValue)>) -> Json {
    Json::new(JsonValue::Obj(
        entries
            .into_iter()
            .map(|(k, v)| JsonEntry {
                key: k.as_bytes().to_vec(),
                value: v,
            })
            .collect(),
    ))
}

fn vf(v: f64) -> JsonValue {
    JsonValue::Num(JsonNum::Bits(v.to_bits()))
}

fn vs(s: &str) -> JsonValue {
    JsonValue::Str(s.as_bytes().to_vec())
}

fn json_u64() -> Json {
    ju(u64::MAX)
}

fn json_i64() -> Json {
    ji(i64::MIN)
}

#[test]
fn should_hash() {
    assert_eq!(HashSet::from([jnull()]), HashSet::from([jnull()]));
    assert_eq!(HashSet::from([json_i64()]), HashSet::from([json_i64()]));
    assert_eq!(HashSet::from([json_u64()]), HashSet::from([json_u64()]));
    assert_eq!(HashSet::from([jf(3.0)]), HashSet::from([jf(3.0)]));
    assert_eq!(HashSet::from([js("foo")]), HashSet::from([js("foo")]));
    assert_eq!(
        HashSet::from([jarr(vec![vs("foo")])]),
        HashSet::from([jarr(vec![vs("foo")])])
    );
    assert_eq!(
        HashSet::from([jobj(vec![("foo", JsonValue::Bool(true))])]),
        HashSet::from([jobj(vec![("foo", JsonValue::Bool(true))])])
    );
}

#[test]
fn should_compare() {
    assert!(js("foo1") < js("foo2"));
    assert_eq!(jnull(), jnull());
    assert!(jbool(true) > jbool(false));
    assert!(ji(3) < ji(4));
    assert!(ji(3) < jf(4.0));
    assert_eq!(jf(4.0), jf(4.0));
    assert!(jf(3.0) < ji(4));
    assert!(jarr(vec![vf(3.0), vf(4.0)]) < jarr(vec![vf(4.0), vf(3.0)]));

    assert_eq!(json_u64(), json_u64());
    assert!(ji(3) < json_u64());
    assert!(json_u64() > jf(3.0));
    assert!(jf(3.0) < json_u64());

    assert!(json_u64() > json_i64());
    assert!(json_i64() < json_u64());
    assert!(ji(3) > json_i64());
    assert!(json_i64() < jf(3.0));

    assert!(jobj(vec![]) == jobj(vec![]));
    assert!(jobj(vec![("key", vs("value0"))]) < jobj(vec![("key", vs("value1"))]));
    assert!(jobj(vec![("key", vs("value1"))]) > jobj(vec![("key", vs("value0"))]));
    assert!(jobj(vec![("key1", vs("value0"))]) > jobj(vec![("key0", vs("value1"))]));
    assert_eq!(
        jobj(vec![("key", vs("value"))]),
        jobj(vec![("key", vs("value"))])
    );
    assert!(jobj(vec![("key", vs("value"))]) > jobj(vec![]));
    assert!(jobj(vec![]) < jobj(vec![("key", vs("value"))]));
    assert!(jobj(vec![("key", vs("value"))]) > jobj(vec![]));
}

#[test]
fn ordering_across_number_encodings() {
    assert!(ji(3) < jf(4.0));
    assert!(ju(u64::MAX) > ji(3));
    assert!(ji(i64::MIN) < jf(3.0));
    assert!(jobj(vec![("k", vs("v0"))]) < jobj(vec![("k", vs("v1"))]));
    assert_eq!(jnull(), jnull());
}

#[test]
fn nan_compares_with_nothing() {
    let nan = jf(f64::NAN);
    let also_nan = jf(f64::NAN);
    assert_eq!(nan.partial_cmp(&also_nan), None);
    assert_ne!(nan, also_nan);
    assert_eq!(nan.partial_cmp(&jf(1.0)), None);
    // Bit-equal NaN values still hash identically.
    assert_eq!(
        jf(f64::NAN).hash_bytes(),
        jf(f64::NAN).hash_bytes()
    );
}

#[test]
fn negative_zero_equals_positive_zero() {
    assert_eq!(jf(-0.0), jf(0.0));
    assert_eq!(compare_fbits((-0.0f64).to_bits(), 0.0f64.to_bits()), Some(Ordering::Equal));
}

#[test]
fn cross_variant_values_do_not_order() {
    assert_eq!(jnull().partial_cmp(&jbool(false)), None);
    assert_eq!(js("3").partial_cmp(&ji(3)), None);
    assert_eq!(jarr(vec![]).partial_cmp(&jobj(vec![])), None);
}

#[test]
fn integer_to_binary64_bits_matches_native_casts() {
    for v in [
        0u64,
        1,
        2,
        3,
        42,
        (1 << 52) - 1,
        1 << 52,
        (1 << 53) - 1,
        1 << 53,
        (1 << 53) + 1,
        (1 << 53) + 2,
        (1 << 53) + 3,
        u64::MAX,
        u64::MAX - 1,
        u64::MAX / 3,
    ] {
        assert_eq!(u64_to_fbits(v), (v as f64).to_bits(), "u64 {}", v);
    }
    for v in [
        0i64,
        1,
        -1,
        -42,
        i64::MAX,
        i64::MIN,
        i64::MIN + 1,
        -(1 << 53) - 1,
        (1 << 53) + 1,
    ] {
        assert_eq!(i64_to_fbits(v), (v as f64).to_bits(), "i64 {}", v);
    }
}

#[test]
fn binary64_comparison_matches_native_comparison() {
    let samples = [
        0.0f64,
        -0.0,
        1.0,
        -1.0,
        1.5,
        f64::MAX,
        f64::MIN,
        f64::MIN_POSITIVE,
        f64::INFINITY,
        f64::NEG_INFINITY,
        f64::NAN,
        5e-324,
        -5e-324,
    ];
    for a in samples {
        for b in samples {
            assert_eq!(
                compare_fbits(a.to_bits(), b.to_bits()),
                a.partial_cmp(&b),
                "{} vs {}",
                a,
                b
            );
        }
    }
}

#[test]
fn hash_stream_has_exact_bytes() {
    assert_eq!(jnull().hash_bytes(), vec![0u8]);
    assert_eq!(jbool(true).hash_bytes(), vec![1u8, 1]);
    assert_eq!(jbool(false).hash_bytes(), vec![1u8, 0]);
    assert_eq!(ji(3).hash_bytes(), vec![2u8, 3, 0, 0, 0, 0, 0, 0, 0]);
    assert_eq!(ji(-1).hash_bytes(), vec![2u8, 255, 255, 255, 255, 255, 255, 255, 255]);
    assert_eq!(js("ab").hash_bytes(), vec![3u8, 97, 98, 255]);
    assert_eq!(
        jarr(vec![JsonValue::Null, JsonValue::Bool(true)]).hash_bytes(),
        vec![4u8, 0, 1, 1]
    );
    assert_eq!(
        jobj(vec![("k", JsonValue::Null)]).hash_bytes(),
        vec![5u8, 107, 255, 0]
    );
    // The number tag is shared, so an integral value and the raw pattern
    // of the same number hash by their 64-bit patterns.
    assert_eq!(
        jf(3.0).hash_bytes(),
        {
            let mut v = vec![2u8];
            v.extend(3.0f64.to_bits().to_le_bytes());
            v
        }
    );
}

#[test]
fn partial_cmp_by_compares_arrays_elementwise() {
    let a = vec![vs("x"), vs("y")];
    let b = vec![vs("x"), vs("z")];
    assert_eq!(indradb::json::partial_cmp_by(&a, &b), Some(Ordering::Less));
    let c = vec![vs("x")];
    assert_eq!(indradb::json::partial_cmp_by(&a, &c), Some(Ordering::Greater));
    assert_eq!(indradb::json::partial_cmp_by(&c, &a), Some(Ordering::Less));
    assert_eq!(indradb::json::partial_cmp_by(&a, &a), Some(Ordering::Equal));
}
