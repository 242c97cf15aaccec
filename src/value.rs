use vstd::prelude::*;

verus! {

/// An integer of the format, held either as an unsigned or as a signed 64-bit number.
///
/// A well-formed integer is unsigned whenever its value is non-negative, and signed
/// only when it is negative.
#[derive(Debug, Clone, Copy, PartialEq, Eq)]
pub enum Integer {
    U64(u64),
    I64(i64),
}

/// One datum of the format.
///
/// Floats are held as their IEEE-754 bit patterns, so that a 32-bit float stays
/// 32-bit. A map is an ordered sequence of pairs; equal keys are kept.
#[derive(Debug, PartialEq)]
pub enum Value {
    Nil,
    Boolean(bool),
    Integer(Integer),
    Float32(u32),
    Float64(u64),
    String(String),
    Binary(Vec<u8>),
    Array(Vec<Value>),
    Mapping(Vec<(Value, Value)>),
    Ext(i8, Vec<u8>),
}

/// The mathematical model of a [`Value`].
pub enum Tree {
    Nil,
    Boolean(bool),
    Integer(int),
    Float32(u32),
    Float64(u64),
    String(Seq<char>),
    Binary(Seq<u8>),
    Array(Seq<Tree>),
    Mapping(Seq<(Tree, Tree)>),
    Ext(i8, Seq<u8>),
}

impl Integer {
    pub open spec fn view(self) -> int {
        match self {
            Integer::U64(n) => n as int,
            Integer::I64(n) => n as int,
        }
    }

    /// Signed only when negative.
    pub open spec fn wf(self) -> bool {
        match self {
            Integer::U64(_) => true,
            Integer::I64(n) => n < 0,
        }
    }

    /// The canonical integer for a signed 64-bit number.
    pub fn from_i64(n: i64) -> (r: Integer)
        ensures
            r.wf(),
            r@ == n as int,
            r == (if n < 0 { Integer::I64(n) } else { Integer::U64(n as u64) }),
    {
        if n < 0 {
            Integer::I64(n)
        } else {
            Integer::U64(n as u64)
        }
    }
}

impl Value {
    pub open spec fn view(self) -> Tree
        decreases self, 0nat,
    {
        match self {
            Value::Nil => Tree::Nil,
            Value::Boolean(b) => Tree::Boolean(b),
            Value::Integer(i) => Tree::Integer(i@),
            Value::Float32(b) => Tree::Float32(b),
            Value::Float64(b) => Tree::Float64(b),
            Value::String(s) => Tree::String(s@),
            Value::Binary(b) => Tree::Binary(b@),
            Value::Array(a) => Tree::Array(view_items(a@, 0)),
            Value::Mapping(m) => Tree::Mapping(view_pairs(m@, 0)),
            Value::Ext(t, b) => Tree::Ext(t, b@),
        }
    }

    /// Every integer in the tree is canonical.
    pub open spec fn wf(self) -> bool
        decreases self, 0nat,
    {
        match self {
            Value::Integer(i) => i.wf(),
            Value::Array(a) => items_wf(a@, 0),
            Value::Mapping(m) => pairs_wf(m@, 0),
            _ => true,
        }
    }
}

/// The models of the values `s[i..]`.
pub open spec fn view_items(s: Seq<Value>, i: nat) -> Seq<Tree>
    decreases s, s.len() - i,
{
    if i < s.len() {
        seq![s[i as int]@] + view_items(s, i + 1)
    } else {
        Seq::empty()
    }
}

/// The models of the pairs `s[i..]`.
pub open spec fn view_pairs(s: Seq<(Value, Value)>, i: nat) -> Seq<(Tree, Tree)>
    decreases s, s.len() - i,
{
    if i < s.len() {
        seq![(s[i as int].0@, s[i as int].1@)] + view_pairs(s, i + 1)
    } else {
        Seq::empty()
    }
}

pub open spec fn items_wf(s: Seq<Value>, i: nat) -> bool
    decreases s, s.len() - i,
{
    i < s.len() ==> s[i as int].wf() && items_wf(s, i + 1)
}

pub open spec fn pairs_wf(s: Seq<(Value, Value)>, i: nat) -> bool
    decreases s, s.len() - i,
{
    i < s.len() ==> s[i as int].0.wf() && s[i as int].1.wf() && pairs_wf(s, i + 1)
}

} // verus!

verus! {

/// `view_items` lists the models of the elements from `i` on, in order.
pub proof fn lemma_view_items(s: Seq<Value>, i: nat)
    requires
        i <= s.len(),
    ensures
        view_items(s, i) == s.subrange(i as int, s.len() as int).map_values(|v: Value| v@),
    decreases s.len() - i,
{
    if i < s.len() {
        lemma_view_items(s, i + 1);
    }
    assert(view_items(s, i) =~= s.subrange(i as int, s.len() as int).map_values(|v: Value| v@));
}

/// `view_pairs` lists the models of the pairs from `i` on, in order.
pub proof fn lemma_view_pairs(s: Seq<(Value, Value)>, i: nat)
    requires
        i <= s.len(),
    ensures
        view_pairs(s, i) == s.subrange(i as int, s.len() as int).map_values(
            |p: (Value, Value)| (p.0@, p.1@),
        ),
    decreases s.len() - i,
{
    if i < s.len() {
        lemma_view_pairs(s, i + 1);
    }
    assert(view_pairs(s, i) =~= s.subrange(i as int, s.len() as int).map_values(
        |p: (Value, Value)| (p.0@, p.1@),
    ));
}

/// `items_wf` holds when each element from `i` on is well formed.
pub proof fn lemma_items_wf(s: Seq<Value>, i: nat)
    requires
        i <= s.len(),
    ensures
        items_wf(s, i) <==> forall|k: int| i <= k < s.len() ==> #[trigger] s[k].wf(),
    decreases s.len() - i,
{
    if i < s.len() {
        lemma_items_wf(s, i + 1);
        if forall|k: int| i <= k < s.len() ==> #[trigger] s[k].wf() {
            assert(s[i as int].wf());
        }
        if items_wf(s, i) {
            assert forall|k: int| i <= k < s.len() implies #[trigger] s[k].wf() by {
                if k > i {
                    assert(i + 1 <= k);
                }
            }
        }
    }
}

/// `pairs_wf` holds when each pair from `i` on is well formed.
pub proof fn lemma_pairs_wf(s: Seq<(Value, Value)>, i: nat)
    requires
        i <= s.len(),
    ensures
        pairs_wf(s, i) <==> forall|k: int|
            i <= k < s.len() ==> (#[trigger] s[k]).0.wf() && s[k].1.wf(),
    decreases s.len() - i,
{
    if i < s.len() {
        lemma_pairs_wf(s, i + 1);
    }
}

} // verus!

verus! {

/// What can go wrong while building or reading a value.
#[derive(Debug, PartialEq, Eq)]
pub enum Error {
    /// The calls do not describe exactly one value.
    Malformed,
    /// A map entry's value came with no key before it.
    ValueWithoutKey,
    /// A map ended, or got a new key, while a key still waited for its value.
    KeyWithoutValue,
}

} // verus!

verus! {

impl Value {
    /// A deep, structural copy.
    pub fn deep_clone(&self) -> (r: Value)
        ensures
            r@ == self@,
            self.wf() ==> r.wf(),
    {
        clone_value(self)
    }

    /// The boolean, when the value is one.
    pub fn as_bool(&self) -> (r: Option<bool>)
        ensures
            r == (match *self {
                Value::Boolean(b) => Some(b),
                _ => None::<bool>,
            }),
    {
        match self {
            Value::Boolean(b) => Some(*b),
            _ => None,
        }
    }

    /// The integer as an unsigned 64-bit number, when it is one and fits.
    pub fn as_u64(&self) -> (r: Option<u64>)
        ensures
            r == (match *self {
                Value::Integer(i) => if 0 <= i@ { Some(i@ as u64) } else { None::<u64> },
                _ => None::<u64>,
            }),
    {
        match self {
            Value::Integer(Integer::U64(n)) => Some(*n),
            Value::Integer(Integer::I64(n)) => if *n >= 0 {
                Some(*n as u64)
            } else {
                None
            },
            _ => None,
        }
    }

    /// The integer as a signed 64-bit number, when it is one and fits.
    pub fn as_i64(&self) -> (r: Option<i64>)
        ensures
            r == (match *self {
                Value::Integer(i) => if i@ <= i64::MAX { Some(i@ as i64) } else { None::<i64> },
                _ => None::<i64>,
            }),
    {
        match self {
            Value::Integer(Integer::U64(n)) => if *n <= i64::MAX as u64 {
                Some(*n as i64)
            } else {
                None
            },
            Value::Integer(Integer::I64(n)) => Some(*n),
            _ => None,
        }
    }

    /// The text of a string value.
    pub fn as_str(&self) -> (r: Option<&str>)
        ensures
            self is String <==> r is Some,
            r matches Some(s) ==> self@ == Tree::String(s@),
    {
        match self {
            Value::String(s) => Some(s.as_str()),
            _ => None,
        }
    }

    /// The bytes of a binary value.
    pub fn as_slice(&self) -> (r: Option<&[u8]>)
        ensures
            self is Binary <==> r is Some,
            r matches Some(b) ==> self@ == Tree::Binary(b@),
    {
        match self {
            Value::Binary(b) => Some(b.as_slice()),
            _ => None,
        }
    }
}

/// Copies `v` and everything under it.
fn clone_value(v: &Value) -> (r: Value)
    ensures
        r@ == v@,
        v.wf() ==> r.wf(),
    decreases v,
{
    match v {
        Value::Nil => Value::Nil,
        Value::Boolean(b) => Value::Boolean(*b),
        Value::Integer(i) => Value::Integer(*i),
        Value::Float32(b) => Value::Float32(*b),
        Value::Float64(b) => Value::Float64(*b),
        Value::String(s) => Value::String(s.clone()),
        Value::Binary(b) => Value::Binary(b.clone()),
        Value::Array(a) => {
            proof {
                lemma_view_items(a@, 0);
                lemma_items_wf(a@, 0);
                assert(a@.subrange(0, a@.len() as int) =~= a@);
            }
            let mut out: Vec<Value> = Vec::with_capacity(a.len());
            let mut i: usize = 0;
            while i < a.len()
                invariant
                    0 <= i <= a.len(),
                    *v == Value::Array(*a),
                    v@ == Tree::Array(a@.map_values(|e: Value| e@)),
                    out@.len() == i,
                    forall|k: int| 0 <= k < i ==> (#[trigger] out@[k])@ == a@[k]@,
                    forall|k: int| 0 <= k < i ==> a@[k].wf() ==> (#[trigger] out@[k]).wf(),
                decreases a.len() - i,
            {
                proof {
                    vstd::std_specs::vec::axiom_vec_index_decreases(*a, i as int);
                }
                let e = clone_value(&a[i]);
                out.push(e);
                i = i + 1;
            }
            proof {
                lemma_view_items(out@, 0);
                lemma_items_wf(out@, 0);
                assert(out@.subrange(0, out@.len() as int) =~= out@);
                assert(out@.map_values(|v: Value| v@) =~= a@.map_values(|v: Value| v@));
            }
            Value::Array(out)
        },
        Value::Mapping(m) => {
            proof {
                lemma_view_pairs(m@, 0);
                lemma_pairs_wf(m@, 0);
                assert(m@.subrange(0, m@.len() as int) =~= m@);
            }
            let mut out: Vec<(Value, Value)> = Vec::with_capacity(m.len());
            let mut i: usize = 0;
            while i < m.len()
                invariant
                    0 <= i <= m.len(),
                    *v == Value::Mapping(*m),
                    v@ == Tree::Mapping(m@.map_values(|p: (Value, Value)| (p.0@, p.1@))),
                    out@.len() == i,
                    forall|k: int|
                        0 <= k < i ==> (#[trigger] out@[k]).0@ == m@[k].0@ && out@[k].1@
                            == m@[k].1@,
                    forall|k: int|
                        0 <= k < i ==> m@[k].0.wf() && m@[k].1.wf() ==> (#[trigger] out@[k]).0.wf()
                            && out@[k].1.wf(),
                decreases m.len() - i,
            {
                proof {
                    vstd::std_specs::vec::axiom_vec_index_decreases(*m, i as int);
                }
                let k = clone_value(&m[i].0);
                let v = clone_value(&m[i].1);
                out.push((k, v));
                i = i + 1;
            }
            proof {
                lemma_view_pairs(out@, 0);
                lemma_pairs_wf(out@, 0);
                assert(out@.subrange(0, out@.len() as int) =~= out@);
                assert(out@.map_values(|p: (Value, Value)| (p.0@, p.1@)) =~= m@.map_values(
                    |p: (Value, Value)| (p.0@, p.1@),
                ));
            }
            Value::Mapping(out)
        },
        Value::Ext(t, b) => Value::Ext(*t, b.clone()),
    }
}

} // verus!

verus! {

/// A boolean.
impl From<bool> for Value {
    fn from(v: bool) -> (r: Value) {
        Value::Boolean(v)
    }
}

impl vstd::std_specs::convert::FromSpecImpl<bool> for Value {
    open spec fn obeys_from_spec() -> bool {
        true
    }

    open spec fn from_spec(v: bool) -> Value {
        Value::Boolean(v)
    }
}

/// An unsigned integer.
impl From<u64> for Value {
    fn from(v: u64) -> (r: Value) {
        Value::Integer(Integer::U64(v))
    }
}

impl vstd::std_specs::convert::FromSpecImpl<u64> for Value {
    open spec fn obeys_from_spec() -> bool {
        true
    }

    open spec fn from_spec(v: u64) -> Value {
        Value::Integer(Integer::U64(v))
    }
}

/// A signed integer, canonicalized: unsigned unless negative.
impl From<i64> for Value {
    fn from(v: i64) -> (r: Value) {
        Value::Integer(Integer::from_i64(v))
    }
}

impl vstd::std_specs::convert::FromSpecImpl<i64> for Value {
    open spec fn obeys_from_spec() -> bool {
        true
    }

    open spec fn from_spec(v: i64) -> Value {
        Value::Integer(if v < 0 { Integer::I64(v) } else { Integer::U64(v as u64) })
    }
}

/// A string.
impl From<String> for Value {
    fn from(v: String) -> (r: Value) {
        Value::String(v)
    }
}

impl vstd::std_specs::convert::FromSpecImpl<String> for Value {
    open spec fn obeys_from_spec() -> bool {
        true
    }

    open spec fn from_spec(v: String) -> Value {
        Value::String(v)
    }
}

/// A byte sequence, as binary.
impl From<Vec<u8>> for Value {
    fn from(v: Vec<u8>) -> (r: Value) {
        Value::Binary(v)
    }
}

impl vstd::std_specs::convert::FromSpecImpl<Vec<u8>> for Value {
    open spec fn obeys_from_spec() -> bool {
        true
    }

    open spec fn from_spec(v: Vec<u8>) -> Value {
        Value::Binary(v)
    }
}

} // verus!
