//! How a run of tokens is cut into the batches that an engine decodes.
//!
//! Positions are explicit, so that whoever decodes controls where the run lands
//! behind what the cache already holds. The engine requires them to continue
//! exactly where the cache ends.

use vstd::prelude::*;

use crate::error::{execution_error, ErrorView, ProviderError};
use crate::token::LlamaToken;

verus! {

/// One token of a batch.
#[derive(Clone, Copy, Debug, PartialEq, Eq, Structural)]
pub struct BatchEntry {
    pub token: LlamaToken,
    pub pos: i32,
    /// Whether the logits behind this token are asked for.
    pub logits: bool,
}

/// The batches of a run of tokens, in the order of their decoding.
#[derive(Debug)]
pub struct DecodePlan {
    pub batches: Vec<Vec<BatchEntry>>,
    /// Whether the run goes on to positions that do not fit. It then fails once
    /// the batches before them are decoded.
    pub out_of_range: bool,
}

/// The size of a full batch: what the engine says, but at least one.
pub open spec fn batch_size(n_batch: u32) -> nat {
    if n_batch == 0 {
        1
    } else {
        n_batch as nat
    }
}

/// Where a batch ends that starts at `from`.
pub open spec fn batch_end(len: nat, n: nat, from: nat) -> nat {
    if len - from > n {
        from + n
    } else {
        len
    }
}

/// The batch of the tokens from `from` up to `end`: each at its own position, the
/// last with its logits.
pub open spec fn batch_of(
    tokens: Seq<LlamaToken>,
    start_pos: nat,
    from: nat,
    end: nat,
) -> Seq<BatchEntry> {
    Seq::new(
        (end - from) as nat,
        |i: int|
            BatchEntry {
                token: tokens[from + i],
                pos: (start_pos + from + i) as i32,
                logits: from + i == end - 1,
            },
    )
}

/// The batches from `from` on, up to the first that holds a position which does not
/// fit.
pub open spec fn batches_from(
    tokens: Seq<LlamaToken>,
    start_pos: nat,
    n: nat,
    from: nat,
) -> Seq<Seq<BatchEntry>>
    decreases tokens.len() - from,
    when n > 0
{
    let end = batch_end(tokens.len(), n, from);
    if from >= tokens.len() || start_pos + end - 1 > i32::MAX {
        Seq::empty()
    } else {
        seq![batch_of(tokens, start_pos, from, end)] + batches_from(tokens, start_pos, n, end)
    }
}

/// Whether every position of the run fits.
pub open spec fn in_range(len: nat, start_pos: nat) -> bool {
    len == 0 || start_pos + len - 1 <= i32::MAX
}

/// Batches, as sequences.
pub open spec fn batch_views(batches: Seq<Vec<BatchEntry>>) -> Seq<Seq<BatchEntry>> {
    batches.map_values(|b: Vec<BatchEntry>| b@)
}

/// Cuts `tokens` into batches for an engine whose batches hold `n_batch` tokens,
/// the first token at position `start_pos`.
pub fn decode_tokens(tokens: &[LlamaToken], start_pos: usize, n_batch: u32) -> (plan: DecodePlan)
    ensures
        batch_views(plan.batches@) == batches_from(
            tokens@,
            start_pos as nat,
            batch_size(n_batch),
            0,
        ),
        plan.out_of_range == !in_range(tokens@.len(), start_pos as nat),
{
    let n: usize = if n_batch == 0 {
        1
    } else {
        n_batch as usize
    };
    let ghost all = batches_from(tokens@, start_pos as nat, n as nat, 0);
    let mut batches: Vec<Vec<BatchEntry>> = Vec::new();
    let mut from: usize = 0;
    assert(batch_views(batches@) + all =~= all);
    while from < tokens.len()
        invariant
            from <= tokens.len(),
            n > 0,
            from > 0 ==> start_pos + from - 1 <= i32::MAX,
            all == batch_views(batches@) + batches_from(
                tokens@,
                start_pos as nat,
                n as nat,
                from as nat,
            ),
            all == batches_from(tokens@, start_pos as nat, batch_size(n_batch), 0),
        decreases tokens@.len() - from,
    {
        let end: usize = if tokens.len() - from > n {
            from + n
        } else {
            tokens.len()
        };
        let ghost rest = batches_from(tokens@, start_pos as nat, n as nat, from as nat);
        if start_pos > i32::MAX as usize || end - 1 > i32::MAX as usize - start_pos {
            assert(all =~= batch_views(batches@));
            return DecodePlan { batches, out_of_range: true };
        }
        let ghost want = batch_of(tokens@, start_pos as nat, from as nat, end as nat);
        let mut batch: Vec<BatchEntry> = Vec::new();
        let mut i: usize = from;
        while i < end
            invariant
                from <= i <= end <= tokens@.len(),
                start_pos + (end - 1) <= i32::MAX,
                want == batch_of(tokens@, start_pos as nat, from as nat, end as nat),
                batch@ == want.take(i - from),
            decreases end - i,
        {
            batch.push(
                BatchEntry {
                    token: tokens[i],
                    pos: (start_pos + i) as i32,
                    logits: i == end - 1,
                },
            );
            assert(batch@ =~= want.take(i + 1 - from));
            i += 1;
        }
        assert(batch@ =~= want);
        let ghost before = batch_views(batches@);
        batches.push(batch);
        proof {
            assert(batch_views(batches@) =~= before.push(want));
            assert(before + rest =~= batch_views(batches@) + batches_from(
                tokens@,
                start_pos as nat,
                n as nat,
                end as nat,
            ));
        }
        from = end;
    }
    assert(all =~= batch_views(batches@));
    DecodePlan { batches, out_of_range: false }
}

/// Every token is decoded once, at its own position, and batches are as full as
/// they may be: batch `k` holds the tokens from `k` times the batch size on.
pub proof fn every_token_is_decoded_once_in_place(
    tokens: Seq<LlamaToken>,
    start_pos: nat,
    n: nat,
    from: nat,
)
    requires
        n > 0,
        from <= tokens.len(),
        in_range(tokens.len(), start_pos),
    ensures
        ({
            let batches = batches_from(tokens, start_pos, n, from);
            let flat = batches.flatten();
            &&& flat.len() == tokens.len() - from
            &&& forall|i: int|
                0 <= i < flat.len() ==> (#[trigger] flat[i]).token == tokens[from + i]
                    && flat[i].pos == start_pos + from + i
            &&& forall|k: int|
                0 <= k < batches.len() ==> 0 < (#[trigger] batches[k]).len() <= n
                    && batches[k].last().logits
        }),
    decreases tokens.len() - from,
{
    let batches = batches_from(tokens, start_pos, n, from);
    if from < tokens.len() {
        let end = batch_end(tokens.len(), n, from);
        let first = batch_of(tokens, start_pos, from, end);
        let rest = batches_from(tokens, start_pos, n, end);
        every_token_is_decoded_once_in_place(tokens, start_pos, n, end);
        assert(batches.first() == first);
        assert(batches.drop_first() =~= rest);
        assert(batches.flatten() == first + rest.flatten());
        assert forall|k: int| 0 <= k < batches.len() implies 0 < (#[trigger] batches[k]).len() <= n
            && batches[k].last().logits by {
            if k > 0 {
                assert(batches[k] == rest[k - 1]);
            }
        }
    }
}

/// Why a run of tokens was not decoded.
#[derive(Debug)]
pub enum DecodeFailure {
    /// A position does not fit.
    Position,
    /// The engine did not take a token into a batch.
    Batch(String),
    /// The engine did not decode a batch.
    Engine(String),
}

/// What is reported of a run that was not decoded.
pub open spec fn decode_error(failure: DecodeFailure) -> ErrorView {
    match failure {
        DecodeFailure::Position => ErrorView::ExecutionError(
            "Prompt position exceeds i32 range"@,
        ),
        DecodeFailure::Batch(e) => ErrorView::ExecutionError("Failed to build batch: "@ + e@),
        DecodeFailure::Engine(e) => ErrorView::ExecutionError("Prefill decode failed: "@ + e@),
    }
}

/// What is reported of a run that was not decoded.
pub fn report_decode(failure: &DecodeFailure) -> (e: ProviderError)
    ensures
        e@ == decode_error(*failure),
{
    match failure {
        DecodeFailure::Position => ProviderError::ExecutionError(
            "Prompt position exceeds i32 range".to_owned(),
        ),
        DecodeFailure::Batch(e) => execution_error("Failed to build batch: ", e.as_str()),
        DecodeFailure::Engine(e) => execution_error("Prefill decode failed: ", e.as_str()),
    }
}

/// How a run is cut: batch `k` begins `k` full batches behind the start and is full, but
/// for the last, which holds what is left. Its tokens stand at their own positions, one
/// after the other, and only its last asks for logits. Batch `k` is there exactly where
/// the run reaches it and every position up to its end fits.
pub proof fn a_run_is_cut_into_full_batches(
    tokens: Seq<LlamaToken>,
    start_pos: nat,
    n: nat,
    from: nat,
    k: nat,
)
    requires
        n > 0,
        from <= tokens.len(),
    ensures
        ({
            let batches = batches_from(tokens, start_pos, n, from);
            let first = (from + k * n) as int;
            let end = if first + n < tokens.len() {
                first + n
            } else {
                tokens.len() as int
            };
            &&& k < batches.len() <==> first < tokens.len() && start_pos + end <= 0x8000_0000
            &&& k < batches.len() ==> {
                &&& batches[k as int].len() == end - first
                &&& forall|i: int|
                    0 <= i < end - first ==> {
                        let entry = #[trigger] batches[k as int][i];
                        &&& entry.token == tokens[first + i]
                        &&& entry.pos == start_pos + first + i
                        &&& entry.logits <==> i == end - first - 1
                    }
            }
        }),
    decreases k,
{
    let batches = batches_from(tokens, start_pos, n, from);
    let stop = batch_end(tokens.len(), n, from);
    let rest = batches_from(tokens, start_pos, n, stop);
    if k == 0 {
        assert(k * n == 0) by (nonlinear_arith)
            requires
                k == 0,
        ;
    } else {
        let less = (k - 1) as nat;
        assert(k * n == less * n + n) by (nonlinear_arith)
            requires
                k == less + 1,
        ;
        assert(less * n >= 0) by (nonlinear_arith);
        if from < tokens.len() && start_pos + stop - 1 <= i32::MAX {
            a_run_is_cut_into_full_batches(tokens, start_pos, n, stop, less);
            if k < batches.len() {
                assert(batches[k as int] == rest[less as int]);
            }
        }
    }
}

/// An engine that gives no batch size decodes token by token, and any other takes as many
/// as it says. A run fits exactly where each of its positions does.
pub proof fn a_run_fits_where_each_position_does(n_batch: u32, len: nat, start_pos: nat)
    ensures
        batch_size(n_batch) == (if n_batch == 0 {
            1
        } else {
            n_batch as int
        }),
        in_range(len, start_pos) <==> forall|i: nat|
            i < len ==> #[trigger] (start_pos + i) < 0x8000_0000,
{
    if len > 0 {
        let last = (len - 1) as nat;
        assert(start_pos + last == start_pos + len - 1);
    }
}

/// A failed decode is reported as what failed, followed by what the engine said.
pub proof fn a_failed_decode_is_reported_as_what_failed(e: String)
    ensures
        decode_error(DecodeFailure::Position) == ErrorView::ExecutionError(
            "Prompt position exceeds i32 range"@,
        ),
        decode_error(DecodeFailure::Batch(e)) == ErrorView::ExecutionError(
            "Failed to build batch: "@ + e@,
        ),
        decode_error(DecodeFailure::Engine(e)) == ErrorView::ExecutionError(
            "Prefill decode failed: "@ + e@,
        ),
{
}

/// Batches are seen as they are, in order and entry by entry.
pub proof fn batches_are_seen_as_they_are(batches: Seq<Vec<BatchEntry>>, k: int)
    requires
        0 <= k < batches.len(),
    ensures
        batch_views(batches).len() == batches.len(),
        batch_views(batches)[k] == batches[k]@,
{
}

} // verus!
