use vstd::prelude::*;

use crate::tokens::{Token, from_tokens, parse, parse_items, parse_pairs, tokens, toks};
use crate::value::{Error, Integer, Tree, Value, lemma_items_wf, lemma_pairs_wf, lemma_view_items, lemma_view_pairs};

verus! {

/// `o` with the elements `a` put in front of the elements it reads.
pub open spec fn prepend_items(a: Seq<Tree>, o: Option<(Seq<Tree>, int)>) -> Option<(Seq<Tree>, int)> {
    match o {
        Some((s, e)) => Some((a + s, e)),
        None => None,
    }
}

/// `o` with the pairs `a` put in front of the pairs it reads.
pub open spec fn prepend_pairs(a: Seq<(Tree, Tree)>, o: Option<(Seq<(Tree, Tree)>, int)>) -> Option<
    (Seq<(Tree, Tree)>, int),
> {
    match o {
        Some((m, e)) => Some((a + m, e)),
        None => None,
    }
}

/// Reads one value from `ts[pos..]`, as `parse` describes.
fn parse_at(ts: &Vec<Token>, pos: usize) -> (r: Option<(Value, usize)>)
    ensures
        match parse(toks(ts@), pos as int) {
            Some((t, e)) => r matches Some((v, p)) && v@ == t && p == e && v.wf(),
            None => r is None,
        },
    decreases ts.len() - pos, 0nat,
{
    let ghost ts_m = toks(ts@);
    if pos >= ts.len() {
        return None;
    }
    assert(ts_m[pos as int] == ts@[pos as int]@);
    match &ts[pos] {
        Token::Unit => Some((Value::Nil, pos + 1)),
        Token::Bool(b) => Some((Value::Boolean(*b), pos + 1)),
        Token::U64(n) => Some((Value::Integer(Integer::U64(*n)), pos + 1)),
        Token::I64(n) => Some((Value::Integer(Integer::from_i64(*n)), pos + 1)),
        Token::I8(n) => Some((Value::Integer(Integer::from_i64(*n as i64)), pos + 1)),
        Token::F32(b) => Some((Value::Float32(*b), pos + 1)),
        Token::F64(b) => Some((Value::Float64(*b), pos + 1)),
        Token::Str(s) => Some((Value::String(s.clone()), pos + 1)),
        Token::Bytes(b) => Some((Value::Binary(b.clone()), pos + 1)),
        Token::SeqStart(_) => match parse_items_at(ts, pos + 1) {
            Some((a, e)) => {
                proof {
                    lemma_view_items(a@, 0);
                    lemma_items_wf(a@, 0);
                    assert(a@.subrange(0, a@.len() as int) =~= a@);
                }
                Some((Value::Array(a), e))
            },
            None => None,
        },
        Token::MapStart(_) => match parse_pairs_at(ts, pos + 1) {
            Some((m, e)) => {
                proof {
                    lemma_view_pairs(m@, 0);
                    lemma_pairs_wf(m@, 0);
                    assert(m@.subrange(0, m@.len() as int) =~= m@);
                }
                Some((Value::Mapping(m), e))
            },
            None => None,
        },
        Token::SeqEnd => None,
        Token::MapEnd => None,
    }
}

/// Reads the elements of a sequence from `ts[pos..]`, as `parse_items` describes.
fn parse_items_at(ts: &Vec<Token>, pos: usize) -> (r: Option<(Vec<Value>, usize)>)
    ensures
        match parse_items(toks(ts@), pos as int) {
            Some((s, e)) => r matches Some((a, p)) && a@.map_values(|v: Value| v@) == s && p == e
                && forall|k: int| 0 <= k < a@.len() ==> (#[trigger] a@[k]).wf(),
            None => r is None,
        },
    decreases ts.len() - pos, 1nat,
{
    let ghost ts_m = toks(ts@);
    let mut acc: Vec<Value> = Vec::new();
    let mut p: usize = pos;
    loop
        invariant
            pos <= p,
            ts_m == toks(ts@),
            parse_items(ts_m, pos as int) == prepend_items(
                acc@.map_values(|v: Value| v@),
                parse_items(ts_m, p as int),
            ),
            forall|k: int| 0 <= k < acc@.len() ==> (#[trigger] acc@[k]).wf(),
        decreases ts.len() - p,
    {
        if p >= ts.len() {
            return None;
        }
        assert(ts_m[p as int] == ts@[p as int]@);
        if let Token::SeqEnd = &ts[p] {
            assert(acc@.map_values(|v: Value| v@) + Seq::<Tree>::empty() =~= acc@.map_values(
                |v: Value| v@,
            ));
            return Some((acc, p + 1));
        }
        match parse_at(ts, p) {
            None => {
                return None;
            },
            Some((v, q)) => {
                if q <= p || q > ts.len() {
                    return None;
                }
                let ghost old_acc = acc@;
                acc.push(v);
                proof {
                    let rest = parse_items(ts_m, q as int);
                    if let Some((s, e)) = rest {
                        assert(old_acc.map_values(|v: Value| v@) + (seq![v@] + s) =~= acc@.map_values(
                            |v: Value| v@,
                        ) + s);
                    }
                }
                p = q;
            },
        }
    }
}

/// Reads the pairs of a map from `ts[pos..]`, as `parse_pairs` describes.
fn parse_pairs_at(ts: &Vec<Token>, pos: usize) -> (r: Option<(Vec<(Value, Value)>, usize)>)
    ensures
        match parse_pairs(toks(ts@), pos as int) {
            Some((m, e)) => r matches Some((a, p)) && a@.map_values(
                |kv: (Value, Value)| (kv.0@, kv.1@),
            ) == m && p == e && forall|k: int|
                0 <= k < a@.len() ==> (#[trigger] a@[k]).0.wf() && a@[k].1.wf(),
            None => r is None,
        },
    decreases ts.len() - pos, 1nat,
{
    let ghost ts_m = toks(ts@);
    let mut acc: Vec<(Value, Value)> = Vec::new();
    let mut p: usize = pos;
    loop
        invariant
            pos <= p,
            ts_m == toks(ts@),
            parse_pairs(ts_m, pos as int) == prepend_pairs(
                acc@.map_values(|kv: (Value, Value)| (kv.0@, kv.1@)),
                parse_pairs(ts_m, p as int),
            ),
            forall|k: int| 0 <= k < acc@.len() ==> (#[trigger] acc@[k]).0.wf() && acc@[k].1.wf(),
        decreases ts.len() - p,
    {
        if p >= ts.len() {
            return None;
        }
        assert(ts_m[p as int] == ts@[p as int]@);
        if let Token::MapEnd = &ts[p] {
            assert(acc@.map_values(|kv: (Value, Value)| (kv.0@, kv.1@)) + Seq::<(Tree, Tree)>::empty()
                =~= acc@.map_values(|kv: (Value, Value)| (kv.0@, kv.1@)));
            return Some((acc, p + 1));
        }
        match parse_at(ts, p) {
            None => {
                return None;
            },
            Some((k, q)) => {
                if q <= p || q > ts.len() {
                    return None;
                }
                match parse_at(ts, q) {
                    None => {
                        return None;
                    },
                    Some((v, u)) => {
                        if u <= q || u > ts.len() {
                            return None;
                        }
                        let ghost old_acc = acc@;
                        acc.push((k, v));
                        proof {
                            let rest = parse_pairs(ts_m, u as int);
                            if let Some((m, e)) = rest {
                                assert(old_acc.map_values(|kv: (Value, Value)| (kv.0@, kv.1@)) + (
                                seq![(k@, v@)] + m) =~= acc@.map_values(
                                    |kv: (Value, Value)| (kv.0@, kv.1@),
                                ) + m);
                            }
                        }
                        p = u;
                    },
                }
            },
        }
    }
}

} // verus!

verus! {

impl Value {
    /// Builds the value that the calls `ts` describe, as a visitor that receives
    /// them would; fails unless they describe exactly one value.
    pub fn deserialize(ts: &Vec<Token>) -> (r: Result<Value, Error>)
        ensures
            match from_tokens(toks(ts@)) {
                Some(t) => r matches Ok(v) && v@ == t && v.wf(),
                None => r == Err::<Value, Error>(Error::Malformed),
            },
    {
        match parse_at(ts, 0) {
            Some((v, p)) => {
                if p == ts.len() {
                    Ok(v)
                } else {
                    Err(Error::Malformed)
                }
            },
            None => Err(Error::Malformed),
        }
    }
}

/// Replays `value` and reads the calls back into a value.
pub fn from_value(value: Value) -> (r: Result<Value, Error>)
    ensures
        match from_tokens(tokens(value@)) {
            Some(t) => r matches Ok(v) && v@ == t && v.wf(),
            None => r == Err::<Value, Error>(Error::Malformed),
        },
{
    let ts = value.serialize();
    Value::deserialize(&ts)
}

} // verus!
