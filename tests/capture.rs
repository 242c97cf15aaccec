use rmp_serde::{Error, Integer, Serializer, Value};

fn captured_i64(n: i64) -> Value {
    let mut s = Serializer::new();
    s.serialize_i64(n).unwrap();
    s.into_value()
}

#[test]
fn fresh_serializer_holds_nil() {
    assert_eq!(Serializer::new().into_value(), Value::Nil);
}

#[test]
fn negative_one_is_signed() {
    assert_eq!(captured_i64(-1), Value::Integer(Integer::I64(-1)));
}

#[test]
fn zero_is_unsigned() {
    assert_eq!(captured_i64(0), Value::Integer(Integer::U64(0)));
}

#[test]
fn max_u64_is_unsigned() {
    let mut s = Serializer::new();
    s.serialize_u64(18446744073709551615).unwrap();
    assert_eq!(s.into_value(), Value::Integer(Integer::U64(u64::MAX)));
}

#[test]
fn min_i64_is_signed() {
    assert_eq!(captured_i64(i64::MIN), Value::Integer(Integer::I64(i64::MIN)));
}

#[test]
fn narrow_signed_widths_canonicalize() {
    let mut s = Serializer::new();
    s.serialize_i8(-5).unwrap();
    assert_eq!(s.into_value(), Value::Integer(Integer::I64(-5)));
    let mut s = Serializer::new();
    s.serialize_i16(300).unwrap();
    assert_eq!(s.into_value(), Value::Integer(Integer::U64(300)));
    let mut s = Serializer::new();
    s.serialize_i32(-70000).unwrap();
    assert_eq!(s.into_value(), Value::Integer(Integer::I64(-70000)));
    let mut s = Serializer::new();
    s.serialize_isize(7).unwrap();
    assert_eq!(s.into_value(), Value::Integer(Integer::U64(7)));
}

#[test]
fn unsigned_widths_stay_unsigned() {
    let mut s = Serializer::new();
    s.serialize_u8(255).unwrap();
    assert_eq!(s.into_value(), Value::Integer(Integer::U64(255)));
    let mut s = Serializer::new();
    s.serialize_u16(0).unwrap();
    assert_eq!(s.into_value(), Value::Integer(Integer::U64(0)));
    let mut s = Serializer::new();
    s.serialize_u32(4000000000).unwrap();
    assert_eq!(s.into_value(), Value::Integer(Integer::U64(4000000000)));
    let mut s = Serializer::new();
    s.serialize_usize(9).unwrap();
    assert_eq!(s.into_value(), Value::Integer(Integer::U64(9)));
}

#[test]
fn f32_stays_32_bit() {
    let mut s = Serializer::new();
    s.serialize_f32(1.5f32.to_bits()).unwrap();
    let v = s.into_value();
    assert_eq!(v, Value::Float32(1.5f32.to_bits()));
    match v {
        Value::Float32(bits) => assert_eq!(f32::from_bits(bits), 1.5),
        other => panic!("not a 32-bit float: {:?}", other),
    }
}

#[test]
fn f64_is_64_bit() {
    let mut s = Serializer::new();
    s.serialize_f64(2.25f64.to_bits()).unwrap();
    assert_eq!(s.into_value(), Value::Float64(2.25f64.to_bits()));
}

#[test]
fn bytes_and_string_differ() {
    let mut s = Serializer::new();
    s.serialize_bytes(&[0x41, 0x42]).unwrap();
    let bin = s.into_value();
    let mut s = Serializer::new();
    s.serialize_str("AB").unwrap();
    let text = s.into_value();
    assert_eq!(bin, Value::Binary(vec![0x41, 0x42]));
    assert_eq!(text, Value::String("AB".to_string()));
    assert_ne!(bin, text);
}

#[test]
fn char_is_one_character_string() {
    let mut s = Serializer::new();
    s.serialize_char('x').unwrap();
    assert_eq!(s.into_value(), Value::String("x".to_string()));
    let mut s = Serializer::new();
    s.serialize_char('é').unwrap();
    assert_eq!(s.into_value(), Value::String("é".to_string()));
}

#[test]
fn bool_unit_none_and_unit_struct() {
    let mut s = Serializer::new();
    s.serialize_bool(true).unwrap();
    assert_eq!(s.into_value(), Value::Boolean(true));
    let mut s = Serializer::new();
    s.serialize_bool(true).unwrap();
    s.serialize_unit().unwrap();
    assert_eq!(s.into_value(), Value::Nil);
    let mut s = Serializer::new();
    s.serialize_bool(false).unwrap();
    s.serialize_none().unwrap();
    assert_eq!(s.into_value(), Value::Nil);
    let mut s = Serializer::new();
    s.serialize_u8(1).unwrap();
    s.serialize_unit_struct("Marker").unwrap();
    assert_eq!(s.into_value(), Value::Nil);
}

#[test]
fn some_is_transparent() {
    let mut s = Serializer::new();
    s.serialize_some(Value::Integer(Integer::U64(4))).unwrap();
    assert_eq!(s.into_value(), Value::Integer(Integer::U64(4)));
    let mut s = Serializer::new();
    s.serialize_newtype_struct("Meters", Value::Boolean(false)).unwrap();
    assert_eq!(s.into_value(), Value::Boolean(false));
}

#[test]
fn unit_variant_is_its_name() {
    let mut s = Serializer::new();
    s.serialize_unit_variant("Status", 0, "Active").unwrap();
    let variant = s.into_value();
    assert_eq!(variant, Value::String("Active".to_string()));
    let mut s = Serializer::new();
    s.serialize_str("Active").unwrap();
    assert_eq!(variant, s.into_value());
}

#[test]
fn newtype_variant_is_one_pair_map() {
    let mut s = Serializer::new();
    s.serialize_newtype_variant("E", 1, "Wrapped", captured_i64(5)).unwrap();
    assert_eq!(
        s.into_value(),
        Value::Mapping(vec![(
            Value::String("Wrapped".to_string()),
            Value::Integer(Integer::U64(5))
        )])
    );
}

#[test]
fn sequence_keeps_order() {
    let mut s = Serializer::new();
    let mut st = s.serialize_seq(Some(3)).unwrap();
    for n in [3i64, 1, 2] {
        s.serialize_seq_elt(&mut st, captured_i64(n)).unwrap();
    }
    s.serialize_seq_end(st).unwrap();
    assert_eq!(
        s.into_value(),
        Value::Array(vec![
            Value::Integer(Integer::U64(3)),
            Value::Integer(Integer::U64(1)),
            Value::Integer(Integer::U64(2)),
        ])
    );
}

#[test]
fn tuples_are_sequences() {
    let mut s = Serializer::new();
    let mut st = s.serialize_tuple(2).unwrap();
    s.serialize_tuple_elt(&mut st, Value::Boolean(true)).unwrap();
    s.serialize_tuple_elt(&mut st, Value::Nil).unwrap();
    s.serialize_tuple_end(st).unwrap();
    let tuple = s.into_value();
    let mut s = Serializer::new();
    let mut st = s.serialize_seq_fixed_size(2).unwrap();
    s.serialize_seq_elt(&mut st, Value::Boolean(true)).unwrap();
    s.serialize_seq_elt(&mut st, Value::Nil).unwrap();
    s.serialize_seq_end(st).unwrap();
    assert_eq!(tuple, s.into_value());
    let mut s = Serializer::new();
    let mut st = s.serialize_tuple_struct("Pair", 2).unwrap();
    s.serialize_tuple_struct_elt(&mut st, Value::Boolean(true)).unwrap();
    s.serialize_tuple_struct_elt(&mut st, Value::Nil).unwrap();
    s.serialize_tuple_struct_end(st).unwrap();
    assert_eq!(tuple, s.into_value());
    assert_eq!(tuple, Value::Array(vec![Value::Boolean(true), Value::Nil]));
}

#[test]
fn empty_sequence() {
    let mut s = Serializer::new();
    let st = s.serialize_seq(None).unwrap();
    s.serialize_seq_end(st).unwrap();
    assert_eq!(s.into_value(), Value::Array(vec![]));
}

#[test]
fn struct_keeps_duplicate_fields_in_order() {
    let mut s = Serializer::new();
    let mut st = s.serialize_struct("Rec", 2).unwrap();
    s.serialize_struct_elt(&mut st, "a", captured_i64(1)).unwrap();
    s.serialize_struct_elt(&mut st, "a", captured_i64(2)).unwrap();
    s.serialize_struct_end(st).unwrap();
    assert_eq!(
        s.into_value(),
        Value::Mapping(vec![
            (Value::String("a".to_string()), Value::Integer(Integer::U64(1))),
            (Value::String("a".to_string()), Value::Integer(Integer::U64(2))),
        ])
    );
}

#[test]
fn map_pairs_keys_and_values() {
    let mut s = Serializer::new();
    let mut st = s.serialize_map(None).unwrap();
    s.serialize_map_key(&mut st, Value::Boolean(true)).unwrap();
    s.serialize_map_value(&mut st, Value::Nil).unwrap();
    s.serialize_map_key(&mut st, Value::Boolean(true)).unwrap();
    s.serialize_map_value(&mut st, captured_i64(-3)).unwrap();
    s.serialize_map_end(st).unwrap();
    assert_eq!(
        s.into_value(),
        Value::Mapping(vec![
            (Value::Boolean(true), Value::Nil),
            (Value::Boolean(true), Value::Integer(Integer::I64(-3))),
        ])
    );
}

#[test]
fn map_value_without_key_fails() {
    let mut s = Serializer::new();
    let mut st = s.serialize_map(Some(1)).unwrap();
    assert_eq!(s.serialize_map_value(&mut st, Value::Nil), Err(Error::ValueWithoutKey));
}

#[test]
fn map_key_twice_fails() {
    let mut s = Serializer::new();
    let mut st = s.serialize_map(Some(1)).unwrap();
    s.serialize_map_key(&mut st, Value::Nil).unwrap();
    assert_eq!(s.serialize_map_key(&mut st, Value::Nil), Err(Error::KeyWithoutValue));
}

#[test]
fn map_end_with_waiting_key_fails() {
    let mut s = Serializer::new();
    s.serialize_bool(true).unwrap();
    let mut st = s.serialize_map(Some(1)).unwrap();
    s.serialize_map_key(&mut st, Value::Nil).unwrap();
    assert_eq!(s.serialize_map_end(st), Err(Error::KeyWithoutValue));
    assert_eq!(s.into_value(), Value::Boolean(true));
}

#[test]
fn tuple_variant_is_name_to_array() {
    let mut s = Serializer::new();
    let mut st = s.serialize_tuple_variant("E", 2, "Point", 2).unwrap();
    s.serialize_tuple_variant_elt(&mut st, captured_i64(1)).unwrap();
    s.serialize_tuple_variant_elt(&mut st, captured_i64(-2)).unwrap();
    s.serialize_tuple_variant_end(st).unwrap();
    assert_eq!(
        s.into_value(),
        Value::Mapping(vec![(
            Value::String("Point".to_string()),
            Value::Array(vec![
                Value::Integer(Integer::U64(1)),
                Value::Integer(Integer::I64(-2)),
            ])
        )])
    );
}

#[test]
fn struct_variant_is_name_to_map() {
    let mut s = Serializer::new();
    let mut st = s.serialize_struct_variant("E", 3, "Rect", 1).unwrap();
    s.serialize_struct_variant_elt(&mut st, "w", captured_i64(4)).unwrap();
    s.serialize_struct_variant_end(st).unwrap();
    assert_eq!(
        s.into_value(),
        Value::Mapping(vec![(
            Value::String("Rect".to_string()),
            Value::Mapping(vec![(
                Value::String("w".to_string()),
                Value::Integer(Integer::U64(4))
            )])
        )])
    );
}
