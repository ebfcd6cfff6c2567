//! Tokens, and how much of their opening two token runs share.

use vstd::prelude::*;

verus! {

/// One vocabulary entry, by its id.
#[derive(Clone, Copy, Debug, PartialEq, Eq, Structural)]
pub struct LlamaToken(pub i32);

impl LlamaToken {
    /// The token with the given id.
    pub fn new(id: i32) -> (token: LlamaToken)
        ensures
            token == LlamaToken(id),
    {
        LlamaToken(id)
    }
}

/// How many leading tokens `a` and `b` have in common.
pub open spec fn shared_prefix(a: Seq<LlamaToken>, b: Seq<LlamaToken>) -> nat
    decreases a.len(),
{
    if a.len() == 0 || b.len() == 0 || a[0] != b[0] {
        0
    } else {
        1 + shared_prefix(a.drop_first(), b.drop_first())
    }
}

/// Whether `a` is what `b` begins with.
pub open spec fn begins_with(b: Seq<LlamaToken>, a: Seq<LlamaToken>) -> bool {
    a.len() <= b.len() && b.take(a.len() as int) == a
}

/// Whether `a` and `b` agree on exactly their first `n` tokens: they agree up to
/// `n`, and at `n` one of them ends or they differ.
pub open spec fn agree_exactly(a: Seq<LlamaToken>, b: Seq<LlamaToken>, n: int) -> bool {
    &&& 0 <= n <= a.len()
    &&& n <= b.len()
    &&& forall|i: int| 0 <= i < n ==> a[i] == b[i]
    &&& n == a.len() || n == b.len() || a[n] != b[n]
}

/// The shared prefix is the one length at which two runs stop agreeing.
pub proof fn shared_prefix_is_where_agreement_ends(
    a: Seq<LlamaToken>,
    b: Seq<LlamaToken>,
    n: int,
)
    ensures
        agree_exactly(a, b, n) <==> n == shared_prefix(a, b),
    decreases a.len(),
{
    if !(a.len() == 0 || b.len() == 0 || a[0] != b[0]) {
        let ta = a.drop_first();
        let tb = b.drop_first();
        shared_prefix_is_where_agreement_ends(ta, tb, n - 1);
        if n >= 1 {
            if agree_exactly(ta, tb, n - 1) {
                assert forall|i: int| 0 <= i < n implies a[i] == b[i] by {
                    if i > 0 {
                        assert(ta[i - 1] == tb[i - 1]);
                    }
                }
            }
            if agree_exactly(a, b, n) {
                assert forall|i: int| 0 <= i < n - 1 implies ta[i] == tb[i] by {
                    assert(a[i + 1] == b[i + 1]);
                }
            }
        }
    }
}

/// What two runs share is a prefix of both.
pub proof fn shared_prefix_begins_both(a: Seq<LlamaToken>, b: Seq<LlamaToken>)
    ensures
        shared_prefix(a, b) <= a.len(),
        shared_prefix(a, b) <= b.len(),
        a.take(shared_prefix(a, b) as int) == b.take(shared_prefix(a, b) as int),
        begins_with(a, a.take(shared_prefix(a, b) as int)),
        begins_with(b, a.take(shared_prefix(a, b) as int)),
{
    let n = shared_prefix(a, b) as int;
    shared_prefix_is_where_agreement_ends(a, b, n);
    assert(a.take(n) =~= b.take(n));
}

/// No longer run is a prefix of both: any common prefix is at most as long.
pub proof fn shared_prefix_is_longest(
    a: Seq<LlamaToken>,
    b: Seq<LlamaToken>,
    p: Seq<LlamaToken>,
)
    requires
        begins_with(a, p),
        begins_with(b, p),
    ensures
        p.len() <= shared_prefix(a, b),
        begins_with(a.take(shared_prefix(a, b) as int), p),
{
    let n = shared_prefix(a, b) as int;
    shared_prefix_is_where_agreement_ends(a, b, n);
    assert forall|i: int| 0 <= i < p.len() implies a[i] == b[i] by {
        assert(a.take(p.len() as int)[i] == p[i]);
        assert(b.take(p.len() as int)[i] == p[i]);
    }
    assert(p.len() <= n);
    assert(a.take(n).take(p.len() as int) =~= a.take(p.len() as int));
}

/// Which of two runs comes first does not matter.
pub proof fn shared_prefix_is_symmetric(a: Seq<LlamaToken>, b: Seq<LlamaToken>)
    ensures
        shared_prefix(a, b) == shared_prefix(b, a),
{
    let n = shared_prefix(a, b) as int;
    shared_prefix_is_where_agreement_ends(a, b, n);
    shared_prefix_is_where_agreement_ends(b, a, n);
}

/// A run shares all of a prefix of itself.
pub proof fn shared_prefix_of_a_prefix(b: Seq<LlamaToken>, p: Seq<LlamaToken>)
    requires
        begins_with(b, p),
    ensures
        shared_prefix(p, b) == p.len(),
{
    assert forall|i: int| 0 <= i < p.len() implies p[i] == b[i] by {
        assert(b.take(p.len() as int)[i] == p[i]);
    }
    shared_prefix_is_where_agreement_ends(p, b, p.len() as int);
}

/// How many leading tokens `cached` and `prompt` have in common.
pub fn common_prefix_len(cached: &[LlamaToken], prompt: &[LlamaToken]) -> (n: usize)
    ensures
        n == shared_prefix(cached@, prompt@),
        n <= cached@.len(),
        n <= prompt@.len(),
{
    let mut n: usize = 0;
    while n < cached.len() && n < prompt.len() && cached[n] == prompt[n]
        invariant
            n <= cached@.len(),
            n <= prompt@.len(),
            forall|i: int| 0 <= i < n ==> cached@[i] == prompt@[i],
        decreases cached@.len() - n,
    {
        n += 1;
    }
    proof {
        shared_prefix_is_where_agreement_ends(cached@, prompt@, n as int);
    }
    n
}

/// A copy of `tokens[from..]`.
pub fn tokens_from(tokens: &[LlamaToken], from: usize) -> (rest: Vec<LlamaToken>)
    requires
        from <= tokens@.len(),
    ensures
        rest@ == tokens@.skip(from as int),
{
    let mut rest: Vec<LlamaToken> = Vec::new();
    let mut i: usize = from;
    while i < tokens.len()
        invariant
            from <= i <= tokens@.len(),
            rest@ == tokens@.subrange(from as int, i as int),
        decreases tokens@.len() - i,
    {
        rest.push(tokens[i]);
        proof {
            assert(rest@ =~= tokens@.subrange(from as int, i + 1));
        }
        i += 1;
    }
    assert(rest@ =~= tokens@.skip(from as int));
    rest
}

} // verus!
