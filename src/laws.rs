use vstd::prelude::*;

use crate::tokens::{Tok, from_tokens, parse, parse_items, parse_pairs, tokens, tokens_items, tokens_pairs};
use crate::ser::canonical;
use crate::value::{Integer, Tree};

verus! {

/// No extension occurs anywhere in the tree.
pub open spec fn ext_free(t: Tree) -> bool
    decreases t, 0nat,
{
    match t {
        Tree::Ext(_, _) => false,
        Tree::Array(s) => ext_free_items(s, 0),
        Tree::Mapping(m) => ext_free_pairs(m, 0),
        _ => true,
    }
}

pub open spec fn ext_free_items(s: Seq<Tree>, i: nat) -> bool
    decreases s, s.len() - i,
{
    i < s.len() ==> ext_free(s[i as int]) && ext_free_items(s, i + 1)
}

pub open spec fn ext_free_pairs(m: Seq<(Tree, Tree)>, i: nat) -> bool
    decreases m, m.len() - i,
{
    i < m.len() ==> ext_free(m[i as int].0) && ext_free(m[i as int].1) && ext_free_pairs(m, i + 1)
}

/// Where the calls of an extension-free tree stand in `ts` at `pos`, reading at
/// `pos` gives that tree back and stops right after them.
proof fn lemma_parse_tokens(t: Tree, ts: Seq<Tok>, pos: int)
    requires
        ext_free(t),
        0 <= pos,
        pos + tokens(t).len() <= ts.len(),
        ts.subrange(pos, pos + tokens(t).len()) == tokens(t),
    ensures
        tokens(t).len() >= 1,
        !(tokens(t)[0] is SeqEnd),
        !(tokens(t)[0] is MapEnd),
        parse(ts, pos) == Some((t, pos + tokens(t).len())),
    decreases t, 0nat,
{
    let k = tokens(t).len() as int;
    assert(ts[pos] == ts.subrange(pos, pos + k)[0]);
    match t {
        Tree::Array(s) => {
            let n = tokens_items(s, 0).len() as int;
            assert(tokens(t) == seq![Tok::SeqStart(s.len())] + tokens_items(s, 0) + seq![Tok::SeqEnd]);
            assert(tokens(t).subrange(1, 1 + n) =~= tokens_items(s, 0));
            assert(ts.subrange(pos + 1, pos + 1 + n) =~= ts.subrange(pos, pos + k).subrange(1, 1 + n));
            assert(ts[pos + 1 + n] == ts.subrange(pos, pos + k)[1 + n]);
            lemma_parse_items_tokens(s, 0, ts, pos + 1);
            assert(s.subrange(0, s.len() as int) =~= s);
        },
        Tree::Mapping(m) => {
            let n = tokens_pairs(m, 0).len() as int;
            assert(tokens(t) == seq![Tok::MapStart(m.len())] + tokens_pairs(m, 0) + seq![Tok::MapEnd]);
            assert(tokens(t).subrange(1, 1 + n) =~= tokens_pairs(m, 0));
            assert(ts.subrange(pos + 1, pos + 1 + n) =~= ts.subrange(pos, pos + k).subrange(1, 1 + n));
            assert(ts[pos + 1 + n] == ts.subrange(pos, pos + k)[1 + n]);
            lemma_parse_pairs_tokens(m, 0, ts, pos + 1);
            assert(m.subrange(0, m.len() as int) =~= m);
        },
        _ => {},
    }
}

proof fn lemma_parse_items_tokens(s: Seq<Tree>, i: nat, ts: Seq<Tok>, pos: int)
    requires
        i <= s.len(),
        ext_free_items(s, i),
        0 <= pos,
        pos + tokens_items(s, i).len() < ts.len(),
        ts.subrange(pos, pos + tokens_items(s, i).len()) == tokens_items(s, i),
        ts[pos + tokens_items(s, i).len()] is SeqEnd,
    ensures
        parse_items(ts, pos) == Some(
            (s.subrange(i as int, s.len() as int), pos + tokens_items(s, i).len() + 1),
        ),
    decreases s, s.len() - i,
{
    if i < s.len() {
        let t = s[i as int];
        let a = tokens(t).len() as int;
        let n = tokens_items(s, i).len() as int;
        let n1 = tokens_items(s, i + 1).len() as int;
        assert(ts.subrange(pos, pos + a) =~= tokens(t)) by {
            assert(ts.subrange(pos, pos + a) =~= ts.subrange(pos, pos + n).subrange(0, a));
        }
        lemma_parse_tokens(t, ts, pos);
        assert(ts[pos] == ts.subrange(pos, pos + a)[0]);
        assert(ts.subrange(pos + a, pos + a + n1) =~= tokens_items(s, i + 1)) by {
            assert(ts.subrange(pos + a, pos + a + n1) =~= ts.subrange(pos, pos + n).subrange(a, n));
        }
        lemma_parse_items_tokens(s, i + 1, ts, pos + a);
        assert(seq![t] + s.subrange((i + 1) as int, s.len() as int) =~= s.subrange(i as int, s.len() as int));
    } else {
        assert(s.subrange(i as int, s.len() as int) =~= Seq::<Tree>::empty());
    }
}

proof fn lemma_parse_pairs_tokens(m: Seq<(Tree, Tree)>, i: nat, ts: Seq<Tok>, pos: int)
    requires
        i <= m.len(),
        ext_free_pairs(m, i),
        0 <= pos,
        pos + tokens_pairs(m, i).len() < ts.len(),
        ts.subrange(pos, pos + tokens_pairs(m, i).len()) == tokens_pairs(m, i),
        ts[pos + tokens_pairs(m, i).len()] is MapEnd,
    ensures
        parse_pairs(ts, pos) == Some(
            (m.subrange(i as int, m.len() as int), pos + tokens_pairs(m, i).len() + 1),
        ),
    decreases m, m.len() - i,
{
    if i < m.len() {
        let k = m[i as int].0;
        let v = m[i as int].1;
        let a = tokens(k).len() as int;
        let b = tokens(v).len() as int;
        let n = tokens_pairs(m, i).len() as int;
        let n1 = tokens_pairs(m, i + 1).len() as int;
        assert(ts.subrange(pos, pos + a) =~= tokens(k)) by {
            assert(ts.subrange(pos, pos + a) =~= ts.subrange(pos, pos + n).subrange(0, a));
        }
        lemma_parse_tokens(k, ts, pos);
        assert(ts[pos] == ts.subrange(pos, pos + a)[0]);
        assert(ts.subrange(pos + a, pos + a + b) =~= tokens(v)) by {
            assert(ts.subrange(pos + a, pos + a + b) =~= ts.subrange(pos, pos + n).subrange(a, a + b));
        }
        lemma_parse_tokens(v, ts, pos + a);
        assert(ts.subrange(pos + a + b, pos + a + b + n1) =~= tokens_pairs(m, i + 1)) by {
            assert(ts.subrange(pos + a + b, pos + a + b + n1) =~= ts.subrange(pos, pos + n).subrange(
                a + b,
                n,
            ));
        }
        lemma_parse_pairs_tokens(m, i + 1, ts, pos + a + b);
        assert(seq![(k, v)] + m.subrange((i + 1) as int, m.len() as int) =~= m.subrange(
            i as int,
            m.len() as int,
        ));
    } else {
        assert(m.subrange(i as int, m.len() as int) =~= Seq::<(Tree, Tree)>::empty());
    }
}

/// Reading back the calls that replay a tree gives the same tree, for every tree
/// that holds no extension (an extension replays as two separate calls, which
/// read back as an integer and a byte string). Equal keys in a map are kept, in
/// their order.
pub proof fn lemma_round_trip(t: Tree)
    requires
        ext_free(t),
    ensures
        from_tokens(tokens(t)) == Some(t),
{
    let ts = tokens(t);
    assert(ts.subrange(0, ts.len() as int) =~= ts);
    lemma_parse_tokens(t, ts, 0);
}

} // verus!

verus! {

/// A well-formed integer is fixed by its value: the same number always has the
/// same representation, unsigned from zero up and signed below, so capturing and
/// reading back never flip it.
pub proof fn lemma_canonical_unique(a: Integer, b: Integer)
    requires
        a.wf(),
        b.wf(),
        a@ == b@,
    ensures
        a == b,
        a == canonical(a@),
{
}

} // verus!
