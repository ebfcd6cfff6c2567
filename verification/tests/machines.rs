//! Generation, speculation, preparation and batches, step by step.

use local_inference::decode::{decode_tokens, report_decode, BatchEntry, DecodeFailure};
use local_inference::error::ProviderError;
use local_inference::generation::{GenAction, GenEvent, Generation, TokenAction, TokenFailure};
use local_inference::mtp::{
    speculate, BatchFailure, MtpSession, SpecAction, SpecEvent, SpecStep, Speculation,
};
use local_inference::prefill::PrefilledPrompt;
use local_inference::prepare::{
    estimated_image_tokens, PrepAction, PrepEvent, Preparation, Tools,
};
use local_inference::settings::ModelSettings;
use local_inference::token::LlamaToken;
use local_inference::window::{HostReading, ModelFacts, ModelShape};

fn tokens(ids: &[i32]) -> Vec<LlamaToken> {
    ids.iter().map(|i| LlamaToken(*i)).collect()
}

fn failed(text: &str) -> ProviderError {
    ProviderError::ExecutionError(text.to_string())
}

// --- batches ---

#[test]
fn a_run_is_cut_into_full_batches_at_consecutive_positions() {
    let plan = decode_tokens(&tokens(&[10, 11, 12, 13, 14]), 100, 2);
    assert!(!plan.out_of_range);
    let flat: Vec<(i32, i32, bool)> = plan
        .batches
        .iter()
        .flatten()
        .map(|e| (e.token.0, e.pos, e.logits))
        .collect();
    assert_eq!(
        flat,
        vec![
            (10, 100, false),
            (11, 101, true),
            (12, 102, false),
            (13, 103, true),
            (14, 104, true),
        ]
    );
    assert_eq!(plan.batches.iter().map(Vec::len).collect::<Vec<_>>(), vec![2, 2, 1]);
}

#[test]
fn a_batch_holds_at_least_one_token() {
    assert_eq!(decode_tokens(&tokens(&[1, 2]), 0, 0).batches.len(), 2);
    assert!(decode_tokens(&[], 5, 8).batches.is_empty());
}

#[test]
fn positions_that_do_not_fit_stop_the_run_at_their_batch() {
    let start = i32::MAX as usize - 2;
    let plan = decode_tokens(&tokens(&[1, 2, 3, 4]), start, 2);
    assert!(plan.out_of_range);
    assert_eq!(plan.batches.len(), 1);
    assert_eq!(
        plan.batches[0][1],
        BatchEntry { token: LlamaToken(2), pos: i32::MAX - 1, logits: true }
    );
    assert!(!decode_tokens(&tokens(&[1, 2, 3]), start, 2).out_of_range);
    for start in [i32::MAX as usize + 1, usize::MAX] {
        let plan = decode_tokens(&tokens(&[1, 2]), start, 2);
        assert!(plan.out_of_range && plan.batches.is_empty());
        assert!(!decode_tokens(&[], start, 2).out_of_range);
    }
}

#[test]
fn decode_failures_are_reported_in_full() {
    assert_eq!(
        report_decode(&DecodeFailure::Position),
        failed("Prompt position exceeds i32 range")
    );
    assert_eq!(
        report_decode(&DecodeFailure::Batch("full".to_string())),
        failed("Failed to build batch: full")
    );
    assert_eq!(
        report_decode(&DecodeFailure::Engine("x".to_string())),
        failed("Prefill decode failed: x")
    );
}

// --- generation ---

fn limited(max_output_tokens: Option<usize>) -> ModelSettings {
    ModelSettings { max_output_tokens, ..ModelSettings::default() }
}

/// Runs a generation on a model that says one letter per token and ends at zero.
fn generate(mut run: Generation, script: &[i32], stop_at: &str) -> (Vec<LlamaToken>, Result<i32, ProviderError>, String) {
    let mut said = String::new();
    let mut next = script.iter();
    loop {
        let event = match run.action() {
            GenAction::Sample => {
                let id = *next.next().unwrap_or(&0);
                GenEvent::Sampled { token: LlamaToken(id), eog: id == 0 }
            }
            GenAction::Piece(token) => {
                let text = if token.0 < 0 {
                    String::new()
                } else {
                    char::from_u32(96 + token.0 as u32).unwrap().to_string()
                };
                GenEvent::Piece(Ok(text))
            }
            GenAction::Deliver(text) => {
                said.push_str(&text);
                let action = if text == stop_at { TokenAction::Stop } else { TokenAction::Continue };
                GenEvent::Delivered(Ok(action))
            }
            GenAction::Decode(_) => GenEvent::Decoded(Ok(())),
            GenAction::Finish => break,
        };
        assert!(run.counts_fit(&event));
        run.step(event);
    }
    let (decoded, outcome) = run.finish();
    (decoded, outcome, said)
}

#[test]
fn a_generation_ends_where_the_model_ends() {
    let run = Generation::begin(&limited(None), 100, 200);
    let (decoded, outcome, said) = generate(run, &[1, 2, -5, 3, 0], "");
    assert_eq!(outcome, Ok(4));
    assert_eq!(decoded, tokens(&[1, 2, -5, 3]));
    assert_eq!(said, "abc");
}

#[test]
fn the_token_of_a_stop_is_produced_but_not_decoded() {
    let run = Generation::begin(&limited(None), 100, 200);
    let (decoded, outcome, said) = generate(run, &[1, 2, 3], "b");
    assert_eq!(outcome, Ok(2));
    assert_eq!(decoded, tokens(&[1]));
    assert_eq!(said, "ab");
}

#[test]
fn a_window_that_is_used_up_is_reported() {
    let run = Generation::begin(&limited(None), 100, 103);
    let (decoded, outcome, _) = generate(run, &[1, 2, 3, 4], "");
    assert_eq!(
        outcome,
        Err(ProviderError::ContextLengthExceeded(
            "Generation exhausted context window (100 prompt + 3 generated = 103 of 103 limit)"
                .to_string()
        ))
    );
    assert_eq!(decoded, tokens(&[1, 2, 3]));
    let full = Generation::begin(&limited(None), 9, 9);
    assert!(matches!(full.action(), GenAction::Finish));
    assert!(full.finish().1.is_err());
}

#[test]
fn an_output_limit_is_no_failure_but_the_window_is() {
    let run = Generation::begin(&limited(Some(2)), 100, 200);
    assert_eq!(generate(run, &[1, 2, 3], "").1, Ok(2));
    let run = Generation::begin(&limited(Some(3)), 100, 103);
    assert!(generate(run, &[1, 2, 3], "").1.is_err(), "the two limits meet: the window is out");
    let none = Generation::begin(&limited(Some(0)), 100, 200);
    assert_eq!(none.finish().1, Ok(0));
}

#[test]
fn every_failure_of_a_generation_is_reported() {
    let begin = || Generation::begin(&limited(None), 1, 10);
    let sampled = |run: &mut Generation| {
        run.step(GenEvent::Sampled { token: LlamaToken(1), eog: false });
    };
    let mut run = begin();
    sampled(&mut run);
    run.step(GenEvent::Piece(Err("bad".to_string())));
    assert_eq!(run.finish().1, Err(failed("Failed to decode token: bad")));

    let mut run = begin();
    sampled(&mut run);
    run.step(GenEvent::Piece(Ok("x".to_string())));
    run.step(GenEvent::Delivered(Err(failed("gone"))));
    assert_eq!(run.finish().1, Err(failed("gone")));

    for (failure, text) in [
        (TokenFailure::Batch("b".to_string()), "Failed to create batch: b"),
        (TokenFailure::Engine("e".to_string()), "Decode failed: e"),
    ] {
        let mut run = begin();
        sampled(&mut run);
        run.step(GenEvent::Piece(Ok(String::new())));
        run.step(GenEvent::Decoded(Err(failure)));
        let (decoded, outcome) = run.finish();
        assert!(decoded.is_empty());
        assert_eq!(outcome, Err(failed(text)));
    }
}

// --- speculation ---

/// The target: counts on from the last token, skips every fifth number, and ends
/// at thirty.
fn target(context: &[LlamaToken]) -> LlamaToken {
    let next = context.last().unwrap().0 + 1;
    LlamaToken(if next % 5 == 0 { next + 1 } else { next })
}

fn ends(token: LlamaToken) -> bool {
    token.0 >= 30
}

fn run_spec(
    mtp: &MtpSession,
    cache: &mut Vec<LlamaToken>,
    id_last: LlamaToken,
    draft: Vec<LlamaToken>,
    told: &mut Vec<u16>,
) -> (MtpSession, Result<SpecStep, ProviderError>) {
    let n_past = cache.len() as i32;
    let prompt = cache.clone();
    let mut run: Speculation<'_> = speculate(mtp, n_past, id_last, &prompt);
    let mut seq = Vec::new();
    loop {
        let event = match run.action() {
            SpecAction::Draft { n_past: at, id_last: last, prompt: seen } => {
                assert_eq!((at, last, seen), (n_past, id_last, &prompt[..]));
                SpecEvent::Drafted(Ok(draft.clone()))
            }
            SpecAction::DecodeOne(token) => {
                cache.push(token);
                SpecEvent::Decoded(Ok(()))
            }
            SpecAction::DecodeBatch(batch) => {
                for e in batch {
                    assert_eq!(e.pos as usize, cache.len());
                    assert!(e.logits);
                    cache.push(e.token);
                    seq.push(e.token);
                }
                SpecEvent::Decoded(Ok(()))
            }
            SpecAction::Sample(i) => {
                let upto = n_past as usize + i as usize + 1;
                let token = target(&cache[..upto]);
                SpecEvent::Sampled { token, eog: ends(token) }
            }
            SpecAction::RemoveFrom(pos) => {
                cache.truncate(pos as usize);
                SpecEvent::Removed(Ok(true))
            }
            SpecAction::Accept(n) => {
                told.push(n);
                SpecEvent::Told(Ok(()))
            }
            SpecAction::Finish => break,
        };
        assert!(run.counts_fit(&event));
        run.step(event);
    }
    run.finish()
}

#[test]
fn greedy_output_is_the_same_with_and_without_speculation() {
    let mut alone = vec![LlamaToken(1)];
    loop {
        let token = target(&alone);
        if ends(token) {
            break;
        }
        alone.push(token);
    }
    for wrong_at in 0..6usize {
        let mut mtp = MtpSession::new(4, Ok(())).unwrap();
        let mut cache = Vec::new();
        let mut out = vec![LlamaToken(1)];
        let mut told = Vec::new();
        loop {
            let last = *out.last().unwrap();
            let mut draft = Vec::new();
            let mut context = out.clone();
            for k in 0..4 {
                let mut token = target(&context);
                if k == wrong_at {
                    token = LlamaToken(-7);
                }
                draft.push(token);
                context.push(token);
            }
            let (after, step) = run_spec(&mtp, &mut cache, last, draft, &mut told);
            let step = step.unwrap();
            mtp = after;
            out.extend_from_slice(&step.tokens);
            if step.hit_eog {
                break;
            }
            assert_eq!(cache[..], out[..out.len() - 1], "the ledger is the cache");
        }
        assert_eq!(out, alone, "a draft wrong at {wrong_at}");
        assert_eq!(mtp.accepted, told.iter().map(|n| *n as u32).sum::<u32>());
    }
}

#[test]
fn output_is_the_same_where_some_steps_draft_nothing() {
    let mut alone = vec![LlamaToken(1)];
    while !ends(target(&alone)) {
        alone.push(target(&alone));
    }
    let mut mtp = MtpSession::new(4, Ok(())).unwrap();
    let (mut cache, mut told) = (Vec::new(), Vec::new());
    let mut out = vec![LlamaToken(1)];
    for turn in 0.. {
        let last = *out.last().unwrap();
        let draft = if turn % 2 == 0 { vec![target(&out), LlamaToken(-7)] } else { Vec::new() };
        let plain = draft.is_empty();
        let (after, step) = run_spec(&mtp, &mut cache, last, draft, &mut told);
        let step = step.unwrap();
        mtp = after;
        out.extend_from_slice(&step.tokens);
        let drawn = target(&cache);
        if step.hit_eog || (plain && ends(drawn)) {
            break;
        }
        if plain {
            out.push(drawn);
        }
        assert_eq!(cache[..], out[..out.len() - 1]);
    }
    assert_eq!(out, alone);
}

#[test]
fn counts_are_asked_for_only_where_something_is_counted() {
    let full = MtpSession { n_max: 2, drafted: u32::MAX, accepted: u32::MAX };
    let run = speculate(&full, i32::MAX, LlamaToken(1), &[]);
    assert!(run.counts_fit(&SpecEvent::Drafted(Ok(vec![]))));
    assert!(run.counts_fit(&SpecEvent::Drafted(Err("e".to_string()))));
    assert!(!run.counts_fit(&SpecEvent::Drafted(Ok(tokens(&[2])))));
    assert!(run.counts_fit(&SpecEvent::Told(Ok(()))));

    let some = MtpSession { n_max: 2, drafted: 0, accepted: u32::MAX };
    let mut run = speculate(&some, -5, LlamaToken(1), &[]);
    run.step(SpecEvent::Drafted(Ok(tokens(&[2]))));
    run.step(SpecEvent::Decoded(Ok(())));
    run.step(SpecEvent::Sampled { token: LlamaToken(9), eog: false });
    assert!(matches!(run.action(), SpecAction::RemoveFrom(pos) if pos == -4i32 as u32));
    assert!(run.counts_fit(&SpecEvent::Removed(Ok(true))), "nothing was endorsed");

    let mut vast = Generation::begin(&limited(Some(5)), i32::MAX as usize, usize::MAX);
    let drawn = || GenEvent::Sampled { token: LlamaToken(1), eog: false };
    assert!(vast.counts_fit(&drawn()), "the window is not the limit");
    vast.step(drawn());
    vast.step(GenEvent::Piece(Ok(String::new())));
    assert!(vast.counts_fit(&GenEvent::Decoded(Ok(()))));
    let end = i32::MAX as usize + 1;
    let mut bound = Generation::begin(&limited(None), i32::MAX as usize, end);
    bound.step(drawn());
    bound.step(GenEvent::Piece(Ok(String::new())));
    assert!(!bound.counts_fit(&GenEvent::Decoded(Ok(()))), "the report overflows");
}

#[test]
fn the_last_emitted_token_is_no_acceptance() {
    let mtp = MtpSession::new(4, Ok(())).unwrap();
    let mut told = Vec::new();
    let mut cache = tokens(&[9]);
    let draft = tokens(&[2, 3, 9]);
    let (after, step) = run_spec(&mtp, &mut cache, LlamaToken(1), draft, &mut told);
    let step = step.unwrap();
    assert_eq!(step.tokens, tokens(&[2, 3, 4]));
    assert!(!step.hit_eog);
    assert_eq!(told, vec![2]);
    assert_eq!((after.drafted, after.accepted), (3, 2));
    assert_eq!(cache, tokens(&[9, 1, 2, 3]), "the rejected token is gone");
}

#[test]
fn nothing_drafted_is_a_plain_decode() {
    for n_max in [0, -3, 4] {
        let mtp = MtpSession::new(n_max, Ok(())).unwrap();
        assert_eq!(mtp.drafts(), n_max > 0);
        let mut told = Vec::new();
        let mut cache = tokens(&[8]);
        let (after, step) = run_spec(&mtp, &mut cache, LlamaToken(1), Vec::new(), &mut told);
        let step = step.unwrap();
        assert!(step.tokens.is_empty() && !step.hit_eog);
        assert_eq!(cache, tokens(&[8, 1]));
        assert_eq!(told, vec![0]);
        assert_eq!((after.drafted, after.accepted), (0, 0));
    }
}

#[test]
fn every_failure_of_a_step_is_reported() {
    let mtp = MtpSession::new(2, Ok(())).unwrap();
    let e = || "e".to_string();
    let begin = |draft: Option<Vec<LlamaToken>>| {
        let mut run = speculate(&mtp, 3, LlamaToken(1), &[]);
        if let Some(draft) = draft {
            run.step(SpecEvent::Drafted(Ok(draft)));
        }
        run
    };
    let ends_with = |mut run: Speculation<'_>, event: SpecEvent, text: &str| {
        run.step(event);
        assert_eq!(run.finish().1.unwrap_err(), failed(text));
    };
    ends_with(begin(None), SpecEvent::Drafted(Err(e())), "MTP draft failed: e");
    ends_with(
        begin(Some(vec![])),
        SpecEvent::Decoded(Err(BatchFailure::Build(e()))),
        "batch: e",
    );
    ends_with(
        begin(Some(vec![])),
        SpecEvent::Decoded(Err(BatchFailure::Engine(e()))),
        "decode: e",
    );
    ends_with(
        begin(Some(tokens(&[2]))),
        SpecEvent::Decoded(Err(BatchFailure::Build(e()))),
        "batch add: e",
    );
    ends_with(
        begin(Some(tokens(&[2]))),
        SpecEvent::Decoded(Err(BatchFailure::Engine(e()))),
        "speculative decode: e",
    );
    let mut run = begin(Some(tokens(&[2])));
    run.step(SpecEvent::Decoded(Ok(())));
    run.step(SpecEvent::Sampled { token: LlamaToken(5), eog: false });
    assert!(matches!(run.action(), SpecAction::RemoveFrom(4)));
    ends_with(
        run,
        SpecEvent::Removed(Err(e())),
        "failed to roll back rejected draft: e",
    );
    let mut run = begin(Some(tokens(&[2])));
    run.step(SpecEvent::Decoded(Ok(())));
    run.step(SpecEvent::Sampled { token: LlamaToken(5), eog: false });
    ends_with(
        run,
        SpecEvent::Removed(Ok(false)),
        "failed to roll back rejected draft: the engine declined the removal",
    );
    let mut run = begin(Some(vec![]));
    run.step(SpecEvent::Decoded(Ok(())));
    ends_with(run, SpecEvent::Told(Err(e())), "MTP accept failed: e");
    assert_eq!(
        MtpSession::new(2, Err(e())).unwrap_err(),
        failed("failed to init MTP speculative decoding: e")
    );
    assert_eq!(MtpSession::begin(Err(e())), Err(failed("MTP begin failed: e")));
    assert_eq!(MtpSession::begin(Ok(())), Ok(()));
}

// --- preparation ---

fn facts() -> ModelFacts {
    ModelFacts {
        n_ctx_train: 4096,
        shape: ModelShape {
            n_layer: 0,
            n_head_kv: 0,
            n_head: 0,
            n_embd: 0,
            key_length: None,
            value_length: None,
        },
    }
}

fn prepare(images: usize) -> Preparation {
    let settings = ModelSettings { image_token_estimate: 100, ..ModelSettings::default() };
    Preparation::begin(&None, false, images, &settings, facts(), 1512, &reading(0, None))
}

fn reading(available_memory_bytes: u64, host_limit: Option<&str>) -> HostReading {
    HostReading { available_memory_bytes, host_limit: host_limit.map(str::to_string) }
}

fn tokenized(tokens: Vec<LlamaToken>) -> PrepEvent {
    PrepEvent::Tokenized(Ok((tokens, reading(0, None))))
}

fn filled(reused: usize) -> PrefilledPrompt {
    PrefilledPrompt { reused_prefix_tokens: reused, transient: None, effective_ctx: 1512 }
}

fn rendered(run: &mut Preparation, ok: bool) {
    run.step(PrepEvent::Rendered(if ok { Ok(()) } else { Err("no".to_string()) }));
}

#[test]
fn a_prompt_within_budget_keeps_the_full_schemas() {
    let mut run = prepare(0);
    assert_eq!(run.action(), PrepAction::Render(Tools::Full));
    rendered(&mut run, true);
    assert_eq!(run.action(), PrepAction::CountTokens);
    run.step(PrepEvent::Counted(Some(1000)));
    assert_eq!(run.action(), PrepAction::Tokenize(Tools::Full));
    run.step(tokenized(tokens(&[1, 2, 3])));
    assert_eq!(run.action(), PrepAction::PrefillText { effective_ctx: 1512 });
    assert_eq!(run.tokens(), &tokens(&[1, 2, 3])[..]);
    run.step(PrepEvent::TextFilled(Ok(filled(2))));
    let ready = run.finish().unwrap();
    assert_eq!(ready.tools, Tools::Full);
    assert_eq!(
        (ready.prompt_token_count, ready.effective_ctx, ready.reused_prefix_tokens),
        (3, 1512, 2)
    );
    assert!(ready.transient.is_none());
}

#[test]
fn a_prompt_over_budget_is_rendered_compactly() {
    let mut run = prepare(0);
    rendered(&mut run, true);
    run.step(PrepEvent::Counted(Some(1001)));
    assert_eq!(run.action(), PrepAction::Render(Tools::Compact));
    rendered(&mut run, true);
    assert_eq!(run.action(), PrepAction::Tokenize(Tools::Compact));

    let mut kept = prepare(0);
    rendered(&mut kept, true);
    kept.step(PrepEvent::Counted(Some(usize::MAX)));
    rendered(&mut kept, false);
    assert_eq!(kept.action(), PrepAction::Tokenize(Tools::Full), "the full one is there");
}

#[test]
fn images_count_towards_the_budget_and_take_their_own_way() {
    let mut run = prepare(3);
    rendered(&mut run, true);
    run.step(PrepEvent::Counted(Some(701)));
    assert_eq!(run.action(), PrepAction::Render(Tools::Compact));
    rendered(&mut run, true);
    assert_eq!(run.action(), PrepAction::PrefillMedia(Tools::Compact));
    run.step(PrepEvent::MediaFilled(Ok((812, filled(0)))));
    assert_eq!(run.finish().unwrap().prompt_token_count, 812);

    let mut uncounted = prepare(3);
    rendered(&mut uncounted, true);
    uncounted.step(PrepEvent::Counted(None));
    assert_eq!(uncounted.action(), PrepAction::PrefillMedia(Tools::Full));
    let settings = ModelSettings { image_token_estimate: 7, ..ModelSettings::default() };
    assert_eq!(estimated_image_tokens(6, &settings), Some(42));
    assert_eq!(estimated_image_tokens(usize::MAX, &settings), None);
}

#[test]
fn two_failed_renderings_are_reported_together() {
    let mut run = prepare(0);
    run.step(PrepEvent::Rendered(Err("full broke".to_string())));
    assert_eq!(run.action(), PrepAction::Render(Tools::Compact));
    run.step(PrepEvent::Rendered(Err("compact broke".to_string())));
    match run.finish().unwrap_err() {
        ProviderError::ExecutionError(m) => {
            assert!(m.starts_with("Failed to apply chat template with llama.cpp's Jinja renderer."));
            assert!(m.ends_with(
                "metadata. Full tools error: full broke; compact tools error: compact broke"
            ));
        }
        other => panic!("{other:?}"),
    }
    let mut saved = prepare(0);
    rendered(&mut saved, false);
    rendered(&mut saved, true);
    assert_eq!(saved.action(), PrepAction::Tokenize(Tools::Compact));
}

#[test]
fn tokens_are_measured_by_what_the_host_says_last() {
    let start = |memory: u64| {
        let settings = ModelSettings::default();
        let facts = ModelFacts {
            n_ctx_train: 4096,
            shape: ModelShape {
                n_layer: 2,
                n_head_kv: 2,
                n_head: 4,
                n_embd: 64,
                key_length: None,
                value_length: None,
            },
        };
        let mut run =
            Preparation::begin(&None, false, 0, &settings, facts, 0, &reading(memory, None));
        rendered(&mut run, true);
        run.step(PrepEvent::Counted(Some(1)));
        run
    };
    let bytes = |tokens: u64| 256 * tokens * 2;
    let prompt = || vec![LlamaToken(1); 1500];

    let mut run = start(bytes(3000));
    run.step(PrepEvent::Tokenized(Ok((prompt(), reading(bytes(2000), None)))));
    assert_eq!(run.action(), PrepAction::PrefillText { effective_ctx: 2000 });

    let mut run = start(bytes(3000));
    run.step(PrepEvent::Tokenized(Ok((prompt(), reading(bytes(1000), None)))));
    assert_eq!(
        run.finish().unwrap_err(),
        ProviderError::ContextLengthExceeded(
            "Prompt (1500 tokens) exceeds estimated memory capacity (1000 tokens). Try a \
             smaller model or reduce conversation length."
                .to_string()
        )
    );

    let mut run = start(bytes(3000));
    run.step(PrepEvent::Tokenized(Ok((prompt(), reading(bytes(3000), Some("1600"))))));
    assert_eq!(run.action(), PrepAction::PrefillText { effective_ctx: 1600 });
}

#[test]
fn a_preparation_reports_what_stops_it() {
    let tokenize = || {
        let mut run = prepare(0);
        rendered(&mut run, true);
        run.step(PrepEvent::Counted(Some(1)));
        run
    };
    let mut run = tokenize();
    run.step(PrepEvent::Tokenized(Err("nul byte".to_string())));
    assert_eq!(run.finish().unwrap_err(), failed("nul byte"));
    let mut run = tokenize();
    run.step(tokenized(vec![LlamaToken(1); 1512]));
    assert!(matches!(run.finish().unwrap_err(), ProviderError::ContextLengthExceeded(_)));
    let mut run = tokenize();
    run.step(tokenized(tokens(&[1])));
    run.step(PrepEvent::TextFilled(Err(failed("x"))));
    assert_eq!(run.finish().unwrap_err(), failed("x"));
    let mut run = prepare(1);
    rendered(&mut run, true);
    run.step(PrepEvent::Counted(Some(1)));
    run.step(PrepEvent::MediaFilled(Err(failed("y"))));
    assert_eq!(run.finish().unwrap_err(), failed("y"));
}
