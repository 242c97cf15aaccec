use vstd::prelude::*;

use crate::value::{Integer, Tree, Value, lemma_view_items, lemma_view_pairs};

verus! {

/// One call of the generic protocol, as a replay of a value makes it and as a
/// visitor receives it.
#[derive(Debug, PartialEq)]
pub enum Token {
    /// The unit or none call.
    Unit,
    Bool(bool),
    U64(u64),
    I64(i64),
    I8(i8),
    /// A 32-bit float, as its bit pattern.
    F32(u32),
    /// A 64-bit float, as its bit pattern.
    F64(u64),
    Str(String),
    Bytes(Vec<u8>),
    /// Opens a sequence that announces this many elements.
    SeqStart(usize),
    SeqEnd,
    /// Opens a map that announces this many pairs.
    MapStart(usize),
    MapEnd,
}

/// The mathematical model of a [`Token`].
pub enum Tok {
    Unit,
    Bool(bool),
    U64(int),
    I64(int),
    I8(int),
    F32(u32),
    F64(u64),
    Str(Seq<char>),
    Bytes(Seq<u8>),
    SeqStart(nat),
    SeqEnd,
    MapStart(nat),
    MapEnd,
}

impl Token {
    pub open spec fn view(self) -> Tok {
        match self {
            Token::Unit => Tok::Unit,
            Token::Bool(b) => Tok::Bool(b),
            Token::U64(n) => Tok::U64(n as int),
            Token::I64(n) => Tok::I64(n as int),
            Token::I8(n) => Tok::I8(n as int),
            Token::F32(b) => Tok::F32(b),
            Token::F64(b) => Tok::F64(b),
            Token::Str(s) => Tok::Str(s@),
            Token::Bytes(b) => Tok::Bytes(b@),
            Token::SeqStart(n) => Tok::SeqStart(n as nat),
            Token::SeqEnd => Tok::SeqEnd,
            Token::MapStart(n) => Tok::MapStart(n as nat),
            Token::MapEnd => Tok::MapEnd,
        }
    }
}

/// The models of a list of tokens.
pub open spec fn toks(s: Seq<Token>) -> Seq<Tok> {
    s.map_values(|t: Token| t@)
}

/// The calls that replay the tree `t`, in order.
///
/// Each scalar is one call; a non-negative integer goes to the unsigned call and a
/// negative one to the signed call. An array opens a sequence, replays its elements
/// in order and closes it; a map does the same with each key followed by its value.
/// An extension is the signed 8-bit call with its tag followed by the byte call
/// with its payload.
pub open spec fn tokens(t: Tree) -> Seq<Tok>
    decreases t, 0nat,
{
    match t {
        Tree::Nil => seq![Tok::Unit],
        Tree::Boolean(b) => seq![Tok::Bool(b)],
        Tree::Integer(n) => if n < 0 {
            seq![Tok::I64(n)]
        } else {
            seq![Tok::U64(n)]
        },
        Tree::Float32(b) => seq![Tok::F32(b)],
        Tree::Float64(b) => seq![Tok::F64(b)],
        Tree::String(s) => seq![Tok::Str(s)],
        Tree::Binary(b) => seq![Tok::Bytes(b)],
        Tree::Array(s) => seq![Tok::SeqStart(s.len())] + tokens_items(s, 0) + seq![Tok::SeqEnd],
        Tree::Mapping(m) => seq![Tok::MapStart(m.len())] + tokens_pairs(m, 0) + seq![Tok::MapEnd],
        Tree::Ext(tag, b) => seq![Tok::I8(tag as int), Tok::Bytes(b)],
    }
}

/// The calls that replay the elements `s[i..]`, one after another.
pub open spec fn tokens_items(s: Seq<Tree>, i: nat) -> Seq<Tok>
    decreases s, s.len() - i,
{
    if i < s.len() {
        tokens(s[i as int]) + tokens_items(s, i + 1)
    } else {
        Seq::empty()
    }
}

/// The calls that replay the pairs `m[i..]`: each key, then its value.
pub open spec fn tokens_pairs(m: Seq<(Tree, Tree)>, i: nat) -> Seq<Tok>
    decreases m, m.len() - i,
{
    if i < m.len() {
        tokens(m[i as int].0) + tokens(m[i as int].1) + tokens_pairs(m, i + 1)
    } else {
        Seq::empty()
    }
}

/// Appends to `out` the tokens that replay `v`.
pub(crate) fn emit(v: &Value, out: &mut Vec<Token>)
    ensures
        toks(final(out)@) == toks(old(out)@) + tokens(v@),
    decreases v,
{
    match v {
        Value::Nil => out.push(Token::Unit),
        Value::Boolean(b) => out.push(Token::Bool(*b)),
        Value::Integer(Integer::U64(n)) => out.push(Token::U64(*n)),
        Value::Integer(Integer::I64(n)) => {
            if *n < 0 {
                out.push(Token::I64(*n));
            } else {
                out.push(Token::U64(*n as u64));
            }
        },
        Value::Float32(b) => out.push(Token::F32(*b)),
        Value::Float64(b) => out.push(Token::F64(*b)),
        Value::String(s) => out.push(Token::Str(s.clone())),
        Value::Binary(b) => out.push(Token::Bytes(b.clone())),
        Value::Array(a) => {
            let ghost base = toks(out@);
            let ghost s = a@.map_values(|e: Value| e@);
            proof {
                lemma_view_items(a@, 0);
                assert(a@.subrange(0, a@.len() as int) =~= a@);
            }
            out.push(Token::SeqStart(a.len()));
            let mut i: usize = 0;
            while i < a.len()
                invariant
                    0 <= i <= a.len(),
                    s == a@.map_values(|e: Value| e@),
                    v@ == Tree::Array(s),
                    *v == Value::Array(*a),
                    toks(out@) + tokens_items(s, i as nat) == base + seq![Tok::SeqStart(s.len())]
                        + tokens_items(s, 0),
                decreases a.len() - i,
            {
                let ghost before = toks(out@);
                proof {
                    vstd::std_specs::vec::axiom_vec_index_decreases(*a, i as int);
                }
                emit(&a[i], out);
                proof {
                    assert(tokens_items(s, i as nat) == tokens(s[i as int]) + tokens_items(
                        s,
                        (i + 1) as nat,
                    ));
                    assert(toks(out@) + tokens_items(s, (i + 1) as nat) =~= before
                        + tokens_items(s, i as nat));
                }
                i = i + 1;
            }
            let ghost mid = toks(out@);
            out.push(Token::SeqEnd);
            proof {
                assert(tokens_items(s, s.len()) =~= Seq::<Tok>::empty());
                assert(mid + Seq::<Tok>::empty() =~= mid);
                assert(toks(out@) =~= mid.push(Tok::SeqEnd));
                assert(toks(out@) =~= base + tokens(v@));
            }
        },
        Value::Mapping(m) => {
            let ghost base = toks(out@);
            let ghost s = m@.map_values(|p: (Value, Value)| (p.0@, p.1@));
            proof {
                lemma_view_pairs(m@, 0);
                assert(m@.subrange(0, m@.len() as int) =~= m@);
            }
            out.push(Token::MapStart(m.len()));
            let mut i: usize = 0;
            while i < m.len()
                invariant
                    0 <= i <= m.len(),
                    s == m@.map_values(|p: (Value, Value)| (p.0@, p.1@)),
                    v@ == Tree::Mapping(s),
                    *v == Value::Mapping(*m),
                    toks(out@) + tokens_pairs(s, i as nat) == base + seq![Tok::MapStart(s.len())]
                        + tokens_pairs(s, 0),
                decreases m.len() - i,
            {
                let ghost before = toks(out@);
                proof {
                    vstd::std_specs::vec::axiom_vec_index_decreases(*m, i as int);
                }
                emit(&m[i].0, out);
                emit(&m[i].1, out);
                proof {
                    assert(tokens_pairs(s, i as nat) == tokens(s[i as int].0) + tokens(
                        s[i as int].1,
                    ) + tokens_pairs(s, (i + 1) as nat));
                    assert(toks(out@) + tokens_pairs(s, (i + 1) as nat) =~= before
                        + tokens_pairs(s, i as nat));
                }
                i = i + 1;
            }
            let ghost mid = toks(out@);
            out.push(Token::MapEnd);
            proof {
                assert(tokens_pairs(s, s.len()) =~= Seq::<Tok>::empty());
                assert(mid + Seq::<Tok>::empty() =~= mid);
                assert(toks(out@) =~= mid.push(Tok::MapEnd));
                assert(toks(out@) =~= base + tokens(v@));
            }
        },
        Value::Ext(tag, b) => {
            out.push(Token::I8(*tag));
            out.push(Token::Bytes(b.clone()));
        },
    }
    proof {
        assert(toks(final(out)@) =~= toks(old(out)@) + tokens(v@));
    }
}

} // verus!

verus! {

/// Reads one value from the calls `ts[pos..]`, as a visitor that builds a tree
/// receives them; gives the tree and the position after its last call.
///
/// Both integer calls land on the canonical integer of their number, and the
/// signed 8-bit call is read as an integer too. A sequence or a map is read up to
/// its closing call; the counts that open them are hints and are not checked.
pub open spec fn parse(ts: Seq<Tok>, pos: int) -> Option<(Tree, int)>
    decreases ts.len() - pos, 0nat,
{
    if 0 <= pos < ts.len() {
        match ts[pos] {
            Tok::Unit => Some((Tree::Nil, pos + 1)),
            Tok::Bool(b) => Some((Tree::Boolean(b), pos + 1)),
            Tok::U64(n) => Some((Tree::Integer(n), pos + 1)),
            Tok::I64(n) => Some((Tree::Integer(n), pos + 1)),
            Tok::I8(n) => Some((Tree::Integer(n), pos + 1)),
            Tok::F32(b) => Some((Tree::Float32(b), pos + 1)),
            Tok::F64(b) => Some((Tree::Float64(b), pos + 1)),
            Tok::Str(s) => Some((Tree::String(s), pos + 1)),
            Tok::Bytes(b) => Some((Tree::Binary(b), pos + 1)),
            Tok::SeqStart(_) => match parse_items(ts, pos + 1) {
                Some((s, e)) => Some((Tree::Array(s), e)),
                None => None,
            },
            Tok::MapStart(_) => match parse_pairs(ts, pos + 1) {
                Some((m, e)) => Some((Tree::Mapping(m), e)),
                None => None,
            },
            Tok::SeqEnd => None,
            Tok::MapEnd => None,
        }
    } else {
        None
    }
}

/// Reads the elements of a sequence from `ts[pos..]` up to and including its
/// closing call.
pub open spec fn parse_items(ts: Seq<Tok>, pos: int) -> Option<(Seq<Tree>, int)>
    decreases ts.len() - pos, 1nat,
{
    if 0 <= pos < ts.len() {
        if ts[pos] is SeqEnd {
            Some((Seq::empty(), pos + 1))
        } else {
            match parse(ts, pos) {
                Some((t, p)) => if pos < p <= ts.len() {
                    match parse_items(ts, p) {
                        Some((s, e)) => Some((seq![t] + s, e)),
                        None => None,
                    }
                } else {
                    None
                },
                None => None,
            }
        }
    } else {
        None
    }
}

/// Reads the pairs of a map from `ts[pos..]` up to and including its closing call.
pub open spec fn parse_pairs(ts: Seq<Tok>, pos: int) -> Option<(Seq<(Tree, Tree)>, int)>
    decreases ts.len() - pos, 1nat,
{
    if 0 <= pos < ts.len() {
        if ts[pos] is MapEnd {
            Some((Seq::empty(), pos + 1))
        } else {
            match parse(ts, pos) {
                Some((k, p)) => if pos < p <= ts.len() {
                    match parse(ts, p) {
                        Some((v, q)) => if p < q <= ts.len() {
                            match parse_pairs(ts, q) {
                                Some((m, e)) => Some((seq![(k, v)] + m, e)),
                                None => None,
                            }
                        } else {
                            None
                        },
                        None => None,
                    }
                } else {
                    None
                },
                None => None,
            }
        }
    } else {
        None
    }
}

/// The tree that the calls `ts` describe, when they describe exactly one.
pub open spec fn from_tokens(ts: Seq<Tok>) -> Option<Tree> {
    match parse(ts, 0) {
        Some((t, e)) => if e == ts.len() {
            Some(t)
        } else {
            None
        },
        None => None,
    }
}

} // verus!

verus! {

/// A borrowed view of a value, for replaying it without giving it up.
pub struct BorrowedValue<'a>(pub &'a Value);

impl<'a> BorrowedValue<'a> {
    /// The calls that replay the borrowed value, in order.
    pub fn serialize(&self) -> (r: Vec<Token>)
        ensures
            toks(r@) == tokens(self.0@),
    {
        let mut out: Vec<Token> = Vec::new();
        emit(self.0, &mut out);
        assert(toks(out@) =~= Seq::<Tok>::empty() + tokens(self.0@));
        out
    }
}

impl Value {
    /// The calls that replay this value, in order.
    pub fn serialize(&self) -> (r: Vec<Token>)
        ensures
            toks(r@) == tokens(self@),
    {
        BorrowedValue(self).serialize()
    }
}

} // verus!
