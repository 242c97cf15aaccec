use vstd::prelude::*;

use crate::value::{Error, Integer, Tree, Value};

verus! {

/// The canonical integer of `n`: unsigned when `n` is non-negative, signed when it
/// is negative.
pub open spec fn canonical(n: int) -> Integer {
    if n < 0 {
        Integer::I64(n as i64)
    } else {
        Integer::U64(n as u64)
    }
}

/// Relies on `char::to_string` (through `Display`): a one-character string.
#[verifier::external_body]
fn char_to_string(c: char) -> (r: String)
    ensures
        r@ == seq![c],
{
    c.to_string()
}

/// A single-use builder that captures one value, call by call.
///
/// A fresh serializer holds `Nil`; each call that emits a value replaces what it
/// holds. Containers are built in separate states that their closing call turns
/// into the held value.
pub struct Serializer {
    value: Value,
}

/// The state of a tuple-style enum variant that is being captured.
pub struct TupleVariantState {
    name: String,
    vec: Vec<Value>,
}

/// The state of a record-style enum variant that is being captured.
pub struct StructVariantState {
    name: String,
    fields: Vec<(Value, Value)>,
}

/// The state of a map or a record that is being captured: the pairs so far and
/// the key that waits for its value.
pub struct MapState {
    map: Vec<(Value, Value)>,
    next_key: Option<Value>,
}

impl TupleVariantState {
    pub closed spec fn name(&self) -> Seq<char> {
        self.name@
    }

    pub closed spec fn elements(&self) -> Seq<Value> {
        self.vec@
    }
}

impl StructVariantState {
    pub closed spec fn name(&self) -> Seq<char> {
        self.name@
    }

    pub closed spec fn fields(&self) -> Seq<(Value, Value)> {
        self.fields@
    }
}

impl MapState {
    pub closed spec fn entries(&self) -> Seq<(Value, Value)> {
        self.map@
    }

    pub closed spec fn pending(&self) -> Option<Value> {
        self.next_key
    }
}

impl Serializer {
    /// The value captured so far.
    pub closed spec fn current(&self) -> Value {
        self.value
    }

    pub fn new() -> (r: Serializer)
        ensures
            r.current() == Value::Nil,
    {
        Serializer { value: Value::Nil }
    }

    /// Gives up the serializer and returns the value it captured.
    pub fn into_value(self) -> (r: Value)
        ensures
            r == self.current(),
    {
        self.value
    }

    pub fn serialize_bool(&mut self, value: bool) -> (r: Result<(), Error>)
        ensures
            r is Ok,
            final(self).current() == Value::Boolean(value),
    {
        self.value = Value::Boolean(value);
        Ok(())
    }

    pub fn serialize_isize(&mut self, value: isize) -> (r: Result<(), Error>)
        ensures
            r is Ok,
            final(self).current() == Value::Integer(canonical(value as int)),
    {
        self.serialize_i64(value as i64)
    }

    pub fn serialize_i8(&mut self, value: i8) -> (r: Result<(), Error>)
        ensures
            r is Ok,
            final(self).current() == Value::Integer(canonical(value as int)),
    {
        self.serialize_i64(value as i64)
    }

    pub fn serialize_i16(&mut self, value: i16) -> (r: Result<(), Error>)
        ensures
            r is Ok,
            final(self).current() == Value::Integer(canonical(value as int)),
    {
        self.serialize_i64(value as i64)
    }

    pub fn serialize_i32(&mut self, value: i32) -> (r: Result<(), Error>)
        ensures
            r is Ok,
            final(self).current() == Value::Integer(canonical(value as int)),
    {
        self.serialize_i64(value as i64)
    }

    /// Captures a signed integer: unsigned when it is non-negative, signed when
    /// it is negative.
    pub fn serialize_i64(&mut self, value: i64) -> (r: Result<(), Error>)
        ensures
            r is Ok,
            final(self).current() == Value::Integer(canonical(value as int)),
    {
        self.value = Value::Integer(Integer::from_i64(value));
        Ok(())
    }

    pub fn serialize_usize(&mut self, value: usize) -> (r: Result<(), Error>)
        ensures
            r is Ok,
            final(self).current() == Value::Integer(Integer::U64(value as u64)),
    {
        self.serialize_u64(value as u64)
    }

    pub fn serialize_u8(&mut self, value: u8) -> (r: Result<(), Error>)
        ensures
            r is Ok,
            final(self).current() == Value::Integer(Integer::U64(value as u64)),
    {
        self.serialize_u64(value as u64)
    }

    pub fn serialize_u16(&mut self, value: u16) -> (r: Result<(), Error>)
        ensures
            r is Ok,
            final(self).current() == Value::Integer(Integer::U64(value as u64)),
    {
        self.serialize_u64(value as u64)
    }

    pub fn serialize_u32(&mut self, value: u32) -> (r: Result<(), Error>)
        ensures
            r is Ok,
            final(self).current() == Value::Integer(Integer::U64(value as u64)),
    {
        self.serialize_u64(value as u64)
    }

    pub fn serialize_u64(&mut self, value: u64) -> (r: Result<(), Error>)
        ensures
            r is Ok,
            final(self).current() == Value::Integer(Integer::U64(value)),
    {
        self.value = Value::Integer(Integer::U64(value));
        Ok(())
    }

    /// Captures a 32-bit float, given by its bit pattern; it stays 32-bit.
    pub fn serialize_f32(&mut self, bits: u32) -> (r: Result<(), Error>)
        ensures
            r is Ok,
            final(self).current() == Value::Float32(bits),
    {
        self.value = Value::Float32(bits);
        Ok(())
    }

    /// Captures a 64-bit float, given by its bit pattern.
    pub fn serialize_f64(&mut self, bits: u64) -> (r: Result<(), Error>)
        ensures
            r is Ok,
            final(self).current() == Value::Float64(bits),
    {
        self.value = Value::Float64(bits);
        Ok(())
    }

    /// Captures a character as a one-character string.
    pub fn serialize_char(&mut self, value: char) -> (r: Result<(), Error>)
        ensures
            r is Ok,
            final(self).current()@ == Tree::String(seq![value]),
    {
        let s = char_to_string(value);
        self.serialize_str(s.as_str())
    }

    pub fn serialize_str(&mut self, value: &str) -> (r: Result<(), Error>)
        ensures
            r is Ok,
            final(self).current()@ == Tree::String(value@),
    {
        self.value = Value::String(value.to_owned());
        Ok(())
    }

    /// Captures a byte sequence as binary, never as a string.
    pub fn serialize_bytes(&mut self, value: &[u8]) -> (r: Result<(), Error>)
        ensures
            r is Ok,
            final(self).current()@ == Tree::Binary(value@),
    {
        self.value = Value::Binary(vstd::slice::slice_to_vec(value));
        Ok(())
    }

    pub fn serialize_unit(&mut self) -> (r: Result<(), Error>)
        ensures
            r is Ok,
            final(self).current() == Value::Nil,
    {
        self.value = Value::Nil;
        Ok(())
    }

    pub fn serialize_unit_struct(&mut self, _name: &str) -> (r: Result<(), Error>)
        ensures
            r is Ok,
            final(self).current() == Value::Nil,
    {
        self.serialize_unit()
    }

    /// Captures a payload-free enum variant as the string of its name.
    pub fn serialize_unit_variant(
        &mut self,
        _name: &str,
        _variant_index: usize,
        variant: &str,
    ) -> (r: Result<(), Error>)
        ensures
            r is Ok,
            final(self).current()@ == Tree::String(variant@),
    {
        self.serialize_str(variant)
    }

    /// Captures a newtype struct as its inner value, already captured.
    pub fn serialize_newtype_struct(&mut self, _name: &str, value: Value) -> (r: Result<(), Error>)
        ensures
            r is Ok,
            final(self).current() == value,
    {
        self.value = value;
        Ok(())
    }

    /// Captures a newtype variant as a one-pair map from its name to its inner
    /// value, already captured.
    pub fn serialize_newtype_variant(
        &mut self,
        _name: &str,
        _variant_index: usize,
        variant: &str,
        value: Value,
    ) -> (r: Result<(), Error>)
        ensures
            r is Ok,
            final(self).current() matches Value::Mapping(m) && m@.len() == 1 && m@[0].0@
                == Tree::String(variant@) && m@[0].1 == value,
    {
        let mut values: Vec<(Value, Value)> = Vec::new();
        values.push((Value::String(variant.to_owned()), value));
        self.value = Value::Mapping(values);
        Ok(())
    }

    pub fn serialize_none(&mut self) -> (r: Result<(), Error>)
        ensures
            r is Ok,
            final(self).current() == Value::Nil,
    {
        self.serialize_unit()
    }

    /// Captures a present option as its inner value, already captured: an
    /// option adds no wrapping.
    pub fn serialize_some(&mut self, value: Value) -> (r: Result<(), Error>)
        ensures
            r is Ok,
            final(self).current() == value,
    {
        self.value = value;
        Ok(())
    }

    /// Opens a sequence; the length, when given, is a capacity hint.
    pub fn serialize_seq(&mut self, len: Option<usize>) -> (r: Result<Vec<Value>, Error>)
        ensures
            r matches Ok(state) && state@ == Seq::<Value>::empty(),
            final(self).current() == old(self).current(),
    {
        let cap: usize = match len {
            Some(n) => n,
            None => 0,
        };
        Ok(Vec::with_capacity(cap))
    }

    /// Appends an element, already captured, to an open sequence.
    pub fn serialize_seq_elt(&mut self, state: &mut Vec<Value>, value: Value) -> (r: Result<(), Error>)
        ensures
            r is Ok,
            final(state)@ == old(state)@.push(value),
            final(self).current() == old(self).current(),
    {
        state.push(value);
        Ok(())
    }

    /// Closes a sequence: the serializer holds the array of its elements.
    pub fn serialize_seq_end(&mut self, state: Vec<Value>) -> (r: Result<(), Error>)
        ensures
            r is Ok,
            final(self).current() == Value::Array(state),
    {
        self.value = Value::Array(state);
        Ok(())
    }

    pub fn serialize_seq_fixed_size(&mut self, size: usize) -> (r: Result<Vec<Value>, Error>)
        ensures
            r matches Ok(state) && state@ == Seq::<Value>::empty(),
            final(self).current() == old(self).current(),
    {
        self.serialize_seq(Some(size))
    }

    /// Opens a tuple, which is captured as a sequence.
    pub fn serialize_tuple(&mut self, len: usize) -> (r: Result<Vec<Value>, Error>)
        ensures
            r matches Ok(state) && state@ == Seq::<Value>::empty(),
            final(self).current() == old(self).current(),
    {
        self.serialize_seq(Some(len))
    }

    pub fn serialize_tuple_elt(&mut self, state: &mut Vec<Value>, value: Value) -> (r: Result<(), Error>)
        ensures
            r is Ok,
            final(state)@ == old(state)@.push(value),
            final(self).current() == old(self).current(),
    {
        self.serialize_seq_elt(state, value)
    }

    pub fn serialize_tuple_end(&mut self, state: Vec<Value>) -> (r: Result<(), Error>)
        ensures
            r is Ok,
            final(self).current() == Value::Array(state),
    {
        self.serialize_seq_end(state)
    }
}

} // verus!

verus! {

impl Serializer {
    /// Opens a tuple struct, which is captured as a sequence.
    pub fn serialize_tuple_struct(&mut self, _name: &str, len: usize) -> (r: Result<Vec<Value>, Error>)
        ensures
            r matches Ok(state) && state@ == Seq::<Value>::empty(),
            final(self).current() == old(self).current(),
    {
        self.serialize_seq(Some(len))
    }

    pub fn serialize_tuple_struct_elt(&mut self, state: &mut Vec<Value>, value: Value) -> (r: Result<
        (),
        Error,
    >)
        ensures
            r is Ok,
            final(state)@ == old(state)@.push(value),
            final(self).current() == old(self).current(),
    {
        self.serialize_seq_elt(state, value)
    }

    pub fn serialize_tuple_struct_end(&mut self, state: Vec<Value>) -> (r: Result<(), Error>)
        ensures
            r is Ok,
            final(self).current() == Value::Array(state),
    {
        self.serialize_seq_end(state)
    }

    /// Opens a tuple-style enum variant.
    pub fn serialize_tuple_variant(
        &mut self,
        _name: &str,
        _variant_index: usize,
        variant: &str,
        len: usize,
    ) -> (r: Result<TupleVariantState, Error>)
        ensures
            r matches Ok(state) && state.name() == variant@ && state.elements() == Seq::<
                Value,
            >::empty(),
            final(self).current() == old(self).current(),
    {
        Ok(TupleVariantState { name: variant.to_owned(), vec: Vec::with_capacity(len) })
    }

    pub fn serialize_tuple_variant_elt(
        &mut self,
        state: &mut TupleVariantState,
        value: Value,
    ) -> (r: Result<(), Error>)
        ensures
            r is Ok,
            final(state).name() == old(state).name(),
            final(state).elements() == old(state).elements().push(value),
            final(self).current() == old(self).current(),
    {
        state.vec.push(value);
        Ok(())
    }

    /// Closes a tuple-style variant: the serializer holds a one-pair map from the
    /// variant's name to the array of its fields.
    pub fn serialize_tuple_variant_end(&mut self, state: TupleVariantState) -> (r: Result<(), Error>)
        ensures
            r is Ok,
            final(self).current() matches Value::Mapping(m) && m@.len() == 1 && m@[0].0@
                == Tree::String(state.name()) && m@[0].1 is Array && m@[0].1->Array_0@
                == state.elements(),
    {
        let TupleVariantState { name, vec } = state;
        let mut values: Vec<(Value, Value)> = Vec::new();
        values.push((Value::String(name), Value::Array(vec)));
        self.value = Value::Mapping(values);
        Ok(())
    }

    /// Opens a map; the length, when given, is a capacity hint.
    pub fn serialize_map(&mut self, len: Option<usize>) -> (r: Result<MapState, Error>)
        ensures
            r matches Ok(state) && state.entries() == Seq::<(Value, Value)>::empty()
                && state.pending() is None,
            final(self).current() == old(self).current(),
    {
        let cap: usize = match len {
            Some(n) => n,
            None => 0,
        };
        Ok(MapState { map: Vec::with_capacity(cap), next_key: None })
    }

    /// Gives an open map the key, already captured, of its next pair. Fails when
    /// a key still waits for its value.
    pub fn serialize_map_key(&mut self, state: &mut MapState, key: Value) -> (r: Result<(), Error>)
        ensures
            old(state).pending() is None ==> r is Ok && final(state).pending() == Some(key)
                && final(state).entries() == old(state).entries(),
            old(state).pending() is Some ==> r == Err::<(), Error>(Error::KeyWithoutValue)
                && *final(state) == *old(state),
            final(self).current() == old(self).current(),
    {
        if state.next_key.is_some() {
            return Err(Error::KeyWithoutValue);
        }
        state.next_key = Some(key);
        Ok(())
    }

    /// Gives an open map the value, already captured, of the waiting key; the
    /// pair is appended, whether or not an equal key came before. Fails when no
    /// key waits.
    pub fn serialize_map_value(&mut self, state: &mut MapState, value: Value) -> (r: Result<
        (),
        Error,
    >)
        ensures
            old(state).pending() matches Some(k) ==> r is Ok && final(state).pending() is None
                && final(state).entries() == old(state).entries().push((k, value)),
            old(state).pending() is None ==> r == Err::<(), Error>(Error::ValueWithoutKey)
                && *final(state) == *old(state),
            final(self).current() == old(self).current(),
    {
        match state.next_key.take() {
            Some(key) => {
                state.map.push((key, value));
                Ok(())
            },
            None => Err(Error::ValueWithoutKey),
        }
    }

    /// Closes a map: the serializer holds its pairs, in order. Fails, holding
    /// what it held, when a key still waits for its value.
    pub fn serialize_map_end(&mut self, state: MapState) -> (r: Result<(), Error>)
        ensures
            state.pending() is None ==> r is Ok && final(self).current() is Mapping
                && final(self).current()->Mapping_0@ == state.entries(),
            state.pending() is Some ==> r == Err::<(), Error>(Error::KeyWithoutValue)
                && final(self).current() == old(self).current(),
    {
        if state.next_key.is_some() {
            return Err(Error::KeyWithoutValue);
        }
        self.value = Value::Mapping(state.map);
        Ok(())
    }

    /// Opens a record, which is captured as a map from field names to values.
    pub fn serialize_struct(&mut self, _name: &str, len: usize) -> (r: Result<MapState, Error>)
        ensures
            r matches Ok(state) && state.entries() == Seq::<(Value, Value)>::empty()
                && state.pending() is None,
            final(self).current() == old(self).current(),
    {
        self.serialize_map(Some(len))
    }

    /// Appends a field of a record: its name as a string, then its value,
    /// already captured. Equal names are kept, in order.
    pub fn serialize_struct_elt(&mut self, state: &mut MapState, key: &str, value: Value) -> (r: Result<
        (),
        Error,
    >)
        ensures
            r is Ok,
            final(state).pending() == old(state).pending(),
            final(state).entries().len() == old(state).entries().len() + 1,
            final(state).entries().take(old(state).entries().len() as int) == old(state).entries(),
            final(state).entries().last().0@ == Tree::String(key@),
            final(state).entries().last().1 == value,
            final(self).current() == old(self).current(),
    {
        state.map.push((Value::String(key.to_owned()), value));
        assert(state.map@.take(old(state).map@.len() as int) =~= old(state).map@);
        Ok(())
    }

    pub fn serialize_struct_end(&mut self, state: MapState) -> (r: Result<(), Error>)
        ensures
            state.pending() is None ==> r is Ok && final(self).current() is Mapping
                && final(self).current()->Mapping_0@ == state.entries(),
            state.pending() is Some ==> r == Err::<(), Error>(Error::KeyWithoutValue)
                && final(self).current() == old(self).current(),
    {
        self.serialize_map_end(state)
    }

    /// Opens a record-style enum variant.
    pub fn serialize_struct_variant(
        &mut self,
        _name: &str,
        _variant_index: usize,
        variant: &str,
        len: usize,
    ) -> (r: Result<StructVariantState, Error>)
        ensures
            r matches Ok(state) && state.name() == variant@ && state.fields() == Seq::<
                (Value, Value),
            >::empty(),
            final(self).current() == old(self).current(),
    {
        Ok(StructVariantState { name: variant.to_owned(), fields: Vec::with_capacity(len) })
    }

    /// Appends a field of a record-style variant: its name as a string, then its
    /// value, already captured.
    pub fn serialize_struct_variant_elt(
        &mut self,
        state: &mut StructVariantState,
        key: &str,
        value: Value,
    ) -> (r: Result<(), Error>)
        ensures
            r is Ok,
            final(state).name() == old(state).name(),
            final(state).fields().len() == old(state).fields().len() + 1,
            final(state).fields().take(old(state).fields().len() as int) == old(state).fields(),
            final(state).fields().last().0@ == Tree::String(key@),
            final(state).fields().last().1 == value,
            final(self).current() == old(self).current(),
    {
        state.fields.push((Value::String(key.to_owned()), value));
        assert(state.fields@.take(old(state).fields@.len() as int) =~= old(state).fields@);
        Ok(())
    }

    /// Closes a record-style variant: the serializer holds a one-pair map from the
    /// variant's name to the map of its fields.
    pub fn serialize_struct_variant_end(&mut self, state: StructVariantState) -> (r: Result<
        (),
        Error,
    >)
        ensures
            r is Ok,
            final(self).current() matches Value::Mapping(m) && m@.len() == 1 && m@[0].0@
                == Tree::String(state.name()) && m@[0].1 is Mapping && m@[0].1->Mapping_0@
                == state.fields(),
    {
        let StructVariantState { name, fields } = state;
        let mut values: Vec<(Value, Value)> = Vec::new();
        values.push((Value::String(name), Value::Mapping(fields)));
        self.value = Value::Mapping(values);
        Ok(())
    }
}

} // verus!
