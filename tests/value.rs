use rmp_serde::{Integer, Value};

#[test]
fn from_primitives() {
    assert_eq!(Value::from(true), Value::Boolean(true));
    assert_eq!(Value::from(7u64), Value::Integer(Integer::U64(7)));
    assert_eq!(Value::from(-7i64), Value::Integer(Integer::I64(-7)));
    assert_eq!(Value::from(0i64), Value::Integer(Integer::U64(0)));
    assert_eq!(Value::from("s".to_string()), Value::String("s".to_string()));
    assert_eq!(Value::from(vec![1u8, 2]), Value::Binary(vec![1, 2]));
}

#[test]
fn accessors() {
    assert_eq!(Value::Boolean(false).as_bool(), Some(false));
    assert_eq!(Value::Nil.as_bool(), None);
    assert_eq!(Value::from(5u64).as_u64(), Some(5));
    assert_eq!(Value::from(-5i64).as_u64(), None);
    assert_eq!(Value::from(-5i64).as_i64(), Some(-5));
    assert_eq!(Value::from(u64::MAX).as_i64(), None);
    assert_eq!(Value::from(i64::MAX as u64).as_i64(), Some(i64::MAX));
    assert_eq!(Value::String("ab".to_string()).as_str(), Some("ab"));
    assert_eq!(Value::Binary(vec![0x41, 0x42]).as_str(), None);
    assert_eq!(Value::Binary(vec![0x41, 0x42]).as_slice(), Some(&[0x41u8, 0x42][..]));
    assert_eq!(Value::String("AB".to_string()).as_slice(), None);
}

#[test]
fn deep_clone_is_equal_and_independent() {
    let v = Value::Mapping(vec![
        (Value::from("k".to_string()), Value::Array(vec![Value::from(-1i64), Value::Float32(7)])),
        (Value::Nil, Value::Ext(3, vec![1, 2, 3])),
    ]);
    let mut c = v.deep_clone();
    assert_eq!(c, v);
    if let Value::Mapping(ref mut pairs) = c {
        pairs.pop();
    }
    assert_ne!(c, v);
}
