//! The prefix ladder: hashes of a prompt's opening at fixed depths.
//!
//! A stored snapshot keeps the ladder of its own tokens. Comparing it with the
//! ladder of an incoming prompt tells how much the two share without reading the
//! snapshot, and the rungs, being hashes, tell nothing else about either.

use vstd::prelude::*;

use crate::fnv::{
    a_changed_byte_changes_the_hash, a_field_keeps_states_apart, bits32, fnv_field, le_bytes,
    to_bits32, to_le_bytes, Fnv, FNV_OFFSET,
};
use crate::token::{begins_with, LlamaToken};

verus! {

/// The depths, in tokens, at which the ladder has a rung.
pub const LADDER_DEPTHS: [usize; 7] = [256, 512, 1024, 2048, 4096, 8192, 16384];

/// One rung: a depth, and the hash of that many leading tokens.
pub type Rung = (usize, u64);

/// The hash state after each token in turn, each a field of four bytes.
pub open spec fn hash_tokens(state: u64, tokens: Seq<LlamaToken>) -> u64
    decreases tokens.len(),
{
    if tokens.len() == 0 {
        state
    } else {
        fnv_field(
            hash_tokens(state, tokens.drop_last()),
            le_bytes(bits32(tokens.last().0), 4),
        )
    }
}

/// The hash of a run of tokens.
pub open spec fn prefix_hash(tokens: Seq<LlamaToken>) -> u64 {
    hash_tokens(FNV_OFFSET, tokens)
}

/// How many rungs a run of `n` tokens reaches.
pub open spec fn rungs_reached(n: nat, from: nat) -> nat
    decreases LADDER_DEPTHS@.len() - from,
{
    if from < LADDER_DEPTHS@.len() && n >= LADDER_DEPTHS@[from as int] {
        rungs_reached(n, from + 1)
    } else {
        from
    }
}

/// The ladder of a run of tokens: a rung at each depth that it reaches, shallowest
/// first.
pub open spec fn ladder_of(tokens: Seq<LlamaToken>) -> Seq<Rung> {
    Seq::new(
        rungs_reached(tokens.len(), 0),
        |i: int| (LADDER_DEPTHS@[i], prefix_hash(tokens.take(LADDER_DEPTHS@[i] as int))),
    )
}

proof fn depths_rise()
    ensures
        LADDER_DEPTHS@.len() == 7,
        forall|i: int, j: int|
            0 <= i < j < 7 ==> LADDER_DEPTHS@[i] < LADDER_DEPTHS@[j],
        LADDER_DEPTHS@[0] == 256,
{
}

proof fn rungs_reached_are_reached(n: nat, from: nat)
    requires
        from <= 7,
    ensures
        from <= rungs_reached(n, from) <= 7,
        forall|i: int| from <= i < rungs_reached(n, from) ==> LADDER_DEPTHS@[i] <= n,
        rungs_reached(n, from) < 7 ==> LADDER_DEPTHS@[rungs_reached(n, from) as int] > n,
    decreases 7 - from,
{
    if from < 7 && n >= LADDER_DEPTHS@[from as int] {
        rungs_reached_are_reached(n, from + 1);
    }
}

/// The ladder of `tokens`.
pub fn ladder(tokens: &[LlamaToken]) -> (rungs: Vec<Rung>)
    ensures
        rungs@ == ladder_of(tokens@),
{
    let mut rungs: Vec<Rung> = Vec::new();
    let mut h = Fnv::new();
    let mut consumed: usize = 0;
    let mut k: usize = 0;
    proof {
        depths_rise();
    }
    while k < 7 && tokens.len() >= LADDER_DEPTHS[k]
        invariant
            k <= 7,
            LADDER_DEPTHS@.len() == 7,
            consumed <= tokens@.len(),
            consumed == (if k == 0 {
                0
            } else {
                LADDER_DEPTHS@[k - 1]
            }),
            forall|i: int, j: int|
                0 <= i < j < 7 ==> LADDER_DEPTHS@[i] < LADDER_DEPTHS@[j],
            h.0 == prefix_hash(tokens@.take(consumed as int)),
            rungs_reached(tokens@.len(), 0) == rungs_reached(tokens@.len(), k as nat),
            rungs@.len() == k,
            forall|i: int|
                0 <= i < k ==> rungs@[i] == (
                    LADDER_DEPTHS@[i],
                    prefix_hash(tokens@.take(LADDER_DEPTHS@[i] as int)),
                ),
        decreases 7 - k,
    {
        let depth: usize = LADDER_DEPTHS[k];
        while consumed < depth
            invariant
                consumed <= depth <= tokens@.len(),
                h.0 == prefix_hash(tokens@.take(consumed as int)),
            decreases depth - consumed,
        {
            let bytes = to_le_bytes(to_bits32(tokens[consumed].0), 4);
            proof {
                assert(tokens@.take(consumed + 1).drop_last() =~= tokens@.take(consumed as int));
            }
            h.write(bytes.as_slice());
            consumed += 1;
        }
        rungs.push((depth, h.finish()));
        k += 1;
    }
    assert(rungs@ =~= ladder_of(tokens@));
    rungs
}

/// Up to how many rungs two ladders are the same.
pub open spec fn rungs_in_common(a: Seq<Rung>, b: Seq<Rung>, from: nat) -> nat
    decreases a.len() - from,
{
    if from < a.len() && from < b.len() && a[from as int] == b[from as int] {
        rungs_in_common(a, b, from + 1)
    } else {
        from
    }
}

/// How deep two ladders agree, in tokens: the depth of the last rung up to which
/// they are the same, or zero.
pub open spec fn agreement(a: Seq<Rung>, b: Seq<Rung>) -> usize {
    let n = rungs_in_common(a, b, 0);
    if n == 0 {
        0
    } else {
        a[n - 1].0
    }
}

/// How deep two ladders agree, in tokens.
pub fn ladder_agreement(a: &[Rung], b: &[Rung]) -> (depth: usize)
    ensures
        depth == agreement(a@, b@),
{
    let mut depth: usize = 0;
    let mut n: usize = 0;
    while n < a.len() && n < b.len() && a[n].0 == b[n].0 && a[n].1 == b[n].1
        invariant
            n <= a@.len(),
            n <= b@.len(),
            rungs_in_common(a@, b@, 0) == rungs_in_common(a@, b@, n as nat),
            depth == (if n == 0 {
                0
            } else {
                a@[n - 1].0
            }),
        decreases a@.len() - n,
    {
        depth = a[n].0;
        n += 1;
    }
    depth
}

/// The depth of the deepest rung of a ladder, or zero.
pub open spec fn own_depth(rungs: Seq<Rung>) -> usize {
    if rungs.len() == 0 {
        0
    } else {
        rungs.last().0
    }
}

proof fn equal_rungs_are_common(a: Seq<Rung>, b: Seq<Rung>, from: nat)
    requires
        from <= a.len() <= b.len(),
        forall|i: int| 0 <= i < a.len() ==> a[i] == b[i],
    ensures
        rungs_in_common(a, b, from) == a.len(),
    decreases a.len() - from,
{
    if from < a.len() {
        equal_rungs_are_common(a, b, from + 1);
    }
}

/// The ladder never hides a true prefix: a prompt that begins with the stored
/// tokens agrees with their ladder down to its deepest rung.
pub proof fn a_prefix_agrees_down_to_its_own_depth(
    stored: Seq<LlamaToken>,
    prompt: Seq<LlamaToken>,
)
    requires
        begins_with(prompt, stored),
    ensures
        agreement(ladder_of(stored), ladder_of(prompt)) == own_depth(ladder_of(stored)),
{
    let a = ladder_of(stored);
    let b = ladder_of(prompt);
    depths_rise();
    rungs_reached_are_reached(stored.len(), 0);
    rungs_reached_are_reached(prompt.len(), 0);
    assert(a.len() <= b.len());
    assert forall|i: int| 0 <= i < a.len() implies a[i] == b[i] by {
        let d = LADDER_DEPTHS@[i] as int;
        assert(prompt.take(stored.len() as int).take(d) =~= prompt.take(d));
        assert(stored.take(d) =~= prompt.take(d));
    }
    equal_rungs_are_common(a, b, 0);
}

/// A rung depends on nothing deeper than itself: two runs that share their first
/// `LADDER_DEPTHS[k]` tokens have the same rung `k`.
pub proof fn a_rung_sees_only_what_it_covers(
    a: Seq<LlamaToken>,
    b: Seq<LlamaToken>,
    k: int,
)
    requires
        0 <= k < 7,
        LADDER_DEPTHS@[k] <= a.len(),
        LADDER_DEPTHS@[k] <= b.len(),
        a.take(LADDER_DEPTHS@[k] as int) == b.take(LADDER_DEPTHS@[k] as int),
    ensures
        k < ladder_of(a).len(),
        k < ladder_of(b).len(),
        ladder_of(a)[k] == ladder_of(b)[k],
{
    depths_rise();
    rungs_reached_are_reached(a.len(), 0);
    rungs_reached_are_reached(b.len(), 0);
}

/// A run too short for the first rung has no ladder.
pub proof fn a_short_run_has_no_ladder(tokens: Seq<LlamaToken>)
    ensures
        tokens.len() < 256 <==> ladder_of(tokens).len() == 0,
        own_depth(ladder_of(tokens)) <= tokens.len(),
        own_depth(ladder_of(tokens)) > 0 <==> ladder_of(tokens).len() > 0,
{
    depths_rise();
    rungs_reached_are_reached(tokens.len(), 0);
}

proof fn common_rungs_are_rungs(a: Seq<Rung>, b: Seq<Rung>, from: nat)
    requires
        from <= a.len(),
    ensures
        from <= rungs_in_common(a, b, from) <= a.len(),
    decreases a.len() - from,
{
    if from < a.len() && from < b.len() && a[from as int] == b[from as int] {
        common_rungs_are_rungs(a, b, from + 1);
    }
}

/// A longer run has no shallower ladder, and no ladder agrees with anything deeper
/// than it goes itself.
pub proof fn a_longer_run_has_no_shallower_ladder(
    a: Seq<LlamaToken>,
    b: Seq<LlamaToken>,
    other: Seq<Rung>,
)
    ensures
        a.len() <= b.len() ==> own_depth(ladder_of(a)) <= own_depth(ladder_of(b)),
        agreement(ladder_of(a), other) <= own_depth(ladder_of(a)),
{
    depths_rise();
    rungs_reached_are_reached(a.len(), 0);
    rungs_reached_are_reached(b.len(), 0);
    let r = rungs_reached(a.len(), 0) as int;
    let q = rungs_reached(b.len(), 0) as int;
    if a.len() <= b.len() && q < r {
        assert(LADDER_DEPTHS@[q] <= a.len());
    }
    if a.len() <= b.len() && 0 < r < q {
        assert(LADDER_DEPTHS@[r - 1] < LADDER_DEPTHS@[q - 1]);
    }
    common_rungs_are_rungs(ladder_of(a), other, 0);
    let n = rungs_in_common(ladder_of(a), other, 0) as int;
    if 0 < n < r {
        assert(LADDER_DEPTHS@[n - 1] < LADDER_DEPTHS@[r - 1]);
    }
}

/// A run has a rung at two hundred and fifty-six tokens, and at each doubling of that up
/// to sixteen thousand three hundred and eighty-four, as far as it reaches, and no other.
pub proof fn a_ladder_has_a_rung_at_each_doubling(tokens: Seq<LlamaToken>)
    ensures
        ({
            let rungs = ladder_of(tokens);
            &&& rungs.len() <= 7
            &&& rungs.len() >= 1 <==> tokens.len() >= 256
            &&& rungs.len() >= 2 <==> tokens.len() >= 512
            &&& rungs.len() >= 3 <==> tokens.len() >= 1024
            &&& rungs.len() >= 4 <==> tokens.len() >= 2048
            &&& rungs.len() >= 5 <==> tokens.len() >= 4096
            &&& rungs.len() >= 6 <==> tokens.len() >= 8192
            &&& rungs.len() >= 7 <==> tokens.len() >= 16384
            &&& rungs.len() >= 1 ==> rungs[0].0 == 256
            &&& rungs.len() >= 2 ==> rungs[1].0 == 512
            &&& rungs.len() >= 3 ==> rungs[2].0 == 1024
            &&& rungs.len() >= 4 ==> rungs[3].0 == 2048
            &&& rungs.len() >= 5 ==> rungs[4].0 == 4096
            &&& rungs.len() >= 6 ==> rungs[5].0 == 8192
            &&& rungs.len() >= 7 ==> rungs[6].0 == 16384
        }),
{
    depths_rise();
    rungs_reached_are_reached(tokens.len(), 0);
    let r = rungs_reached(tokens.len(), 0) as int;
    assert(LADDER_DEPTHS@[1] == 512 && LADDER_DEPTHS@[2] == 1024 && LADDER_DEPTHS@[3] == 2048);
    assert(LADDER_DEPTHS@[4] == 4096 && LADDER_DEPTHS@[5] == 8192 && LADDER_DEPTHS@[6] == 16384);
}

/// Every token that a rung covers counts: where the id of one of them changes in one of
/// its four bytes, the hash is another.
pub proof fn a_changed_token_changes_the_rungs_that_cover_it(
    state: u64,
    tokens: Seq<LlamaToken>,
    i: int,
    token: LlamaToken,
    j: int,
    b: u8,
)
    requires
        0 <= i < tokens.len(),
        0 <= j < 4,
        b != le_bytes(bits32(tokens[i].0), 4)[j],
        le_bytes(bits32(token.0), 4) == le_bytes(bits32(tokens[i].0), 4).update(j, b),
    ensures
        hash_tokens(state, tokens) != hash_tokens(state, tokens.update(i, token)),
    decreases tokens.len(),
{
    reveal_with_fuel(le_bytes, 5);
    let front = tokens.drop_last();
    let changed = tokens.update(i, token);
    if i == tokens.len() - 1 {
        assert(changed.drop_last() =~= front);
        a_changed_byte_changes_the_hash(
            hash_tokens(state, front),
            le_bytes(bits32(tokens[i].0), 4),
            j,
            b,
        );
    } else {
        a_changed_token_changes_the_rungs_that_cover_it(state, front, i, token, j, b);
        assert(changed.drop_last() =~= front.update(i, token));
        a_field_keeps_states_apart(
            hash_tokens(state, front),
            hash_tokens(state, front.update(i, token)),
            le_bytes(bits32(tokens.last().0), 4),
        );
    }
}

/// Two ladders agree as deep as the last of the rungs that they begin with in common, and
/// not at all where their first rungs differ. A ladder is as deep as its last rung.
pub proof fn ladders_agree_up_to_the_last_common_rung(a: Seq<Rung>, b: Seq<Rung>, n: int)
    requires
        0 <= n <= a.len(),
        n <= b.len(),
        forall|i: int| 0 <= i < n ==> a[i] == b[i],
        n == a.len() || n == b.len() || a[n] != b[n],
    ensures
        n == 0 ==> agreement(a, b) == 0,
        n > 0 ==> agreement(a, b) == a[n - 1].0,
        a.len() == 0 ==> own_depth(a) == 0,
        a.len() > 0 ==> own_depth(a) == a[a.len() - 1].0,
{
    common_rungs_end_there(a, b, 0, n);
}

proof fn common_rungs_end_there(a: Seq<Rung>, b: Seq<Rung>, from: nat, n: int)
    requires
        from <= n <= a.len(),
        n <= b.len(),
        forall|i: int| 0 <= i < n ==> a[i] == b[i],
        n == a.len() || n == b.len() || a[n] != b[n],
    ensures
        rungs_in_common(a, b, from) == n,
    decreases n - from,
{
    if from < n {
        common_rungs_end_there(a, b, from + 1, n);
    }
}

/// The hash of a run is taken token by token, each as four bytes, from the offset basis;
/// and a rung holds the hash of exactly the tokens that it covers.
pub proof fn a_rung_is_the_hash_of_what_it_covers(
    tokens: Seq<LlamaToken>,
    token: LlamaToken,
    k: int,
)
    requires
        0 <= k < ladder_of(tokens).len(),
    ensures
        prefix_hash(Seq::empty()) == 0xcbf2_9ce4_8422_2325,
        prefix_hash(tokens.push(token)) == fnv_field(
            prefix_hash(tokens),
            le_bytes(bits32(token.0), 4),
        ),
        ladder_of(tokens)[k].1 == prefix_hash(tokens.take(ladder_of(tokens)[k].0 as int)),
{
    assert(tokens.push(token).drop_last() =~= tokens);
}

} // verus!
