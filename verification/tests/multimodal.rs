//! Runs that fill a cache with a prompt that carries images.

use local_inference::decode::DecodeFailure;
use local_inference::error::ProviderError;
use local_inference::media::{
    describe_chunk, positions_fit, read_chunks, ChunkFacts, ChunkKind, ExtractedImage, HeadChunk,
};
use local_inference::multimodal::{MediaAction, MediaEvent, MultimodalPrefill, Spans};
use local_inference::prefill::Chore;
use local_inference::session::{retained_kv_tokens, RetainedPrefix, SessionKv};
use local_inference::settings::ModelSettings;
use local_inference::token::LlamaToken;
use local_inference::window::{HostReading, ModelFacts, ModelShape};

fn ids(range: std::ops::Range<i32>) -> Vec<LlamaToken> {
    range.map(LlamaToken).collect()
}

fn text(tokens: Vec<LlamaToken>) -> Option<ChunkFacts> {
    Some(ChunkFacts {
        kind: ChunkKind::Text,
        n_tokens: tokens.len(),
        n_positions: tokens.len() as i32,
        text_tokens: Some(tokens),
    })
}

fn picture(n: i32) -> Option<ChunkFacts> {
    Some(ChunkFacts {
        kind: ChunkKind::Image,
        n_tokens: n as usize,
        n_positions: n,
        text_tokens: None,
    })
}

fn image(bytes: &[u8]) -> ExtractedImage {
    ExtractedImage { bytes: bytes.to_vec() }
}

fn begin(
    session: Option<SessionKv>,
    has_mtmd: bool,
    images: &[ExtractedImage],
    window: u32,
) -> MultimodalPrefill<'_> {
    let facts = ModelFacts {
        n_ctx_train: 100_000,
        shape: ModelShape {
            n_layer: 0,
            n_head_kv: 0,
            n_head: 0,
            n_embd: 0,
            key_length: None,
            value_length: None,
        },
    };
    let settings = ModelSettings::default();
    MultimodalPrefill::begin(session, has_mtmd, images, &settings, facts, window as usize)
}

fn reading(available_memory_bytes: u64, host_limit: Option<&str>) -> HostReading {
    HostReading { available_memory_bytes, host_limit: host_limit.map(str::to_string) }
}

fn tokenized(spans: Spans) -> MediaEvent {
    MediaEvent::Tokenized(Ok((spans, reading(0, None))))
}

fn spans(tail: Vec<LlamaToken>) -> Spans {
    Spans {
        total_tokens: 310 + tail.len(),
        chunks: vec![text(ids(0..10)), picture(300), text(tail)],
    }
}

/// A first turn: everything is evaluated, and the cache is kept.
fn first_turn(images: &[ExtractedImage], tail: Vec<LlamaToken>) -> SessionKv {
    let mut run = begin(None, true, images, 4096);
    assert_eq!(run.action(), MediaAction::DecodeImages);
    run.step(MediaEvent::Images(Ok(())));
    assert_eq!(run.action(), MediaAction::Tokenize);
    let end = 310 + tail.len() as i32;
    run.step(tokenized(spans(tail.clone())));
    assert_eq!(run.action(), MediaAction::CreateContext { n_ctx: 4096 });
    run.step(MediaEvent::Context(Ok(4096)));
    assert_eq!(run.action(), MediaAction::EvaluateSpans);
    run.step(MediaEvent::Evaluated(Ok(end)));
    let (session, outcome) = run.finish();
    let (n, filled) = outcome.unwrap();
    assert_eq!(n, 310 + tail.len());
    assert_eq!((filled.reused_prefix_tokens, filled.effective_ctx), (0, 4096));
    assert!(filled.transient.is_none());
    let session = session.expect("retained");
    assert_eq!(session.tokens, tail);
    assert_eq!((session.media_pos(), session.occupied()), (310, 310 + tail.len()));
    session
}

#[test]
fn the_same_pictures_are_not_encoded_again() {
    let images = [image(b"photo")];
    let session = first_turn(&images, ids(100..120));
    assert_eq!(RetainedPrefix::resumable(&session).media_pos, 310);
    assert_eq!(RetainedPrefix::opaque(&session).tokens.len(), 0);
    let mut run = begin(Some(session), true, &images, 4096);
    run.step(MediaEvent::Images(Ok(())));
    let mut tail = ids(100..110);
    tail.extend(ids(500..505));
    run.step(tokenized(spans(tail.clone())));
    assert_eq!(run.action(), MediaAction::Trim { pos: 320 });
    run.step(MediaEvent::Trimmed(true));
    assert_eq!(run.action(), MediaAction::Decode { from: 10, start: 320 });
    assert_eq!(run.tail(), Some(&tail[..]));
    run.step(MediaEvent::Decoded(Ok(())));
    let (session, outcome) = run.finish();
    let (n, filled) = outcome.unwrap();
    assert_eq!((n, filled.reused_prefix_tokens), (325, 320));
    assert_eq!(session.unwrap().tokens, tail);
}

#[test]
fn other_pictures_rebuild_the_cache() {
    let session = first_turn(&[image(b"photo")], ids(100..120));
    let other = [image(b"other")];
    let mut run = begin(Some(session), true, &other, 4096);
    run.step(MediaEvent::Images(Ok(())));
    run.step(tokenized(spans(ids(100..125))));
    assert!(matches!(run.chores()[..], [Chore::ReleaseContext]));
    assert_eq!(run.action(), MediaAction::CreateContext { n_ctx: 4096 });
}

#[test]
fn a_resume_that_fails_rebuilds_the_cache() {
    for decode in [false, true] {
        let images = [image(b"photo")];
        let session = first_turn(&images, ids(100..120));
        let mut run = begin(Some(session), true, &images, 4096);
        run.step(MediaEvent::Images(Ok(())));
        run.step(tokenized(spans(ids(100..130))));
        run.step(MediaEvent::Trimmed(decode));
        if decode {
            run.step(MediaEvent::Decoded(Err(DecodeFailure::Position)));
        }
        assert!(matches!(run.chores()[..], [Chore::ReleaseContext]));
        assert_eq!(run.action(), MediaAction::CreateContext { n_ctx: 4096 });
    }
}

#[test]
fn a_cache_that_cannot_be_addressed_is_thrown_away() {
    for (chunks, n_past) in [
        (vec![text(ids(0..10)), picture(300), text(ids(0..5))], 314),
        (vec![text(ids(0..10)), None, text(ids(0..5))], 315),
        (
            vec![Some(ChunkFacts {
                kind: ChunkKind::Audio,
                n_tokens: 4,
                n_positions: 4,
                text_tokens: None,
            })],
            4,
        ),
        (vec![text(ids(0..10))], 10),
    ] {
        let images = [image(b"photo")];
        let mut run = begin(None, true, &images, 4096);
        run.step(MediaEvent::Images(Ok(())));
        run.step(tokenized(Spans { total_tokens: 315, chunks }));
        run.step(MediaEvent::Context(Ok(4096)));
        run.step(MediaEvent::Evaluated(Ok(n_past)));
        assert!(matches!(run.chores()[..], [Chore::DetachContext]));
        let (session, outcome) = run.finish();
        assert!(session.is_none());
        let filled = outcome.unwrap().1;
        assert_eq!(filled.transient.map(|t| (t.n_ctx, t.tokens.len())), Some((4096, 0)));
        assert_eq!(filled.effective_ctx, 4096);
    }
}

#[test]
fn every_failure_of_a_media_run_is_reported() {
    let images = [image(b"photo")];
    let fails = |mut run: MultimodalPrefill<'_>, event: MediaEvent, text: &str| {
        run.step(event);
        let (session, outcome) = run.finish();
        assert!(session.is_none());
        assert_eq!(outcome.unwrap_err(), ProviderError::ExecutionError(text.to_string()));
    };
    let e = || "e".to_string();
    let (_, outcome) = begin(None, false, &images, 4096).finish();
    assert_eq!(
        outcome.unwrap_err(),
        ProviderError::ExecutionError(
            "This model does not have vision support. Download the vision encoder from \
             Settings > Local Inference, or use a text-only message."
                .to_string()
        )
    );
    fails(
        begin(None, true, &images, 4096),
        MediaEvent::Images(Err(e())),
        "Failed to decode image: e",
    );
    let tokenize = |window| {
        let mut run = begin(None, true, &images, window);
        run.step(MediaEvent::Images(Ok(())));
        run
    };
    fails(
        tokenize(4096),
        MediaEvent::Tokenized(Err(e())),
        "Multimodal tokenization failed: e",
    );
    let mut run = tokenize(850);
    run.step(tokenized(spans(ids(0..29))));
    assert_eq!(
        run.finish().1.unwrap_err(),
        ProviderError::ContextLengthExceeded(
            "Multimodal prompt (339 tokens including images) exceeds context limit (850 tokens)"
                .to_string()
        )
    );
    let create = || {
        let mut run = tokenize(850);
        run.step(tokenized(spans(ids(0..28))));
        run
    };
    fails(create(), MediaEvent::Context(Err(e())), "Failed to create context: e");
    let mut run = create();
    run.step(MediaEvent::Context(Ok(850)));
    fails(run, MediaEvent::Evaluated(Err(e())), "Multimodal eval failed: e");
}

#[test]
fn a_span_is_described_only_position_for_position() {
    let facts = |kind, n_tokens, n_positions, text_tokens| ChunkFacts {
        kind,
        n_tokens,
        n_positions,
        text_tokens,
    };
    assert_eq!(
        describe_chunk(&facts(ChunkKind::Text, 2, 2, Some(ids(4..6)))),
        Some(HeadChunk::Text(ids(4..6)))
    );
    assert_eq!(describe_chunk(&facts(ChunkKind::Text, 2, 3, Some(ids(4..6)))), None);
    assert_eq!(describe_chunk(&facts(ChunkKind::Text, 3, 3, Some(ids(4..6)))), None);
    assert_eq!(
        describe_chunk(&facts(ChunkKind::Text, 0, 0, None)),
        Some(HeadChunk::Text(Vec::new()))
    );
    assert_eq!(
        describe_chunk(&facts(ChunkKind::Image, 256, 16, None)),
        Some(HeadChunk::Media { n_tokens: 256, n_pos: 16 })
    );
    assert_eq!(describe_chunk(&facts(ChunkKind::Image, 256, -1, None)), None);
    assert_eq!(describe_chunk(&facts(ChunkKind::Audio, 1, 1, None)), None);
    assert_eq!(read_chunks(&[text(ids(0..1)), picture(2)]).map(|c| c.len()), Some(2));
    assert_eq!(read_chunks(&[text(ids(0..1)), None]), None);
    assert!(positions_fit(&[HeadChunk::Text(ids(0..3))]));
    let vast = HeadChunk::Media { n_tokens: 1, n_pos: usize::MAX };
    assert!(!positions_fit(&[vast, HeadChunk::Text(ids(0..1))]));
}

#[test]
fn the_window_of_a_retained_cache_is_what_it_was_asked_for() {
    assert_eq!(retained_kv_tokens(&None), 0);
    assert_eq!(retained_kv_tokens(&Some(SessionKv::create(2048))), 2048);
}

#[test]
fn a_media_prompt_is_measured_once_it_is_cut() {
    let images = [image(b"photo")];
    let start = |session: Option<SessionKv>| {
        let facts = ModelFacts {
            n_ctx_train: 4096,
            shape: ModelShape {
                n_layer: 2,
                n_head_kv: 2,
                n_head: 4,
                n_embd: 64,
                key_length: None,
                value_length: None,
            },
        };
        let mut run = MultimodalPrefill::begin(
            session,
            true,
            &images,
            &ModelSettings::default(),
            facts,
            0,
        );
        run.step(MediaEvent::Images(Ok(())));
        run
    };
    let bytes = |tokens: u64| 256 * tokens * 2;

    let mut run = start(None);
    run.step(MediaEvent::Tokenized(Ok((spans(ids(0..20)), reading(bytes(2000), None)))));
    assert_eq!(run.action(), MediaAction::CreateContext { n_ctx: 2000 });

    let mut run = start(Some(SessionKv::create(500)));
    run.step(MediaEvent::Tokenized(Ok((spans(ids(0..20)), reading(bytes(2000), None)))));
    assert_eq!(run.action(), MediaAction::CreateContext { n_ctx: 2250 });

    let mut run = start(None);
    run.step(MediaEvent::Tokenized(Ok((spans(ids(0..20)), reading(bytes(2000), Some("1200"))))));
    assert_eq!(run.action(), MediaAction::CreateContext { n_ctx: 1200 });

    let mut run = start(None);
    run.step(MediaEvent::Tokenized(Ok((spans(ids(0..20)), reading(bytes(841), None)))));
    assert!(matches!(run.finish().1.unwrap_err(), ProviderError::ContextLengthExceeded(_)));
}

#[test]
fn a_model_without_vision_is_turned_away_whatever_its_cache_would_take() {
    let images = [image(b"photo")];
    let facts = ModelFacts {
        n_ctx_train: 4096,
        shape: ModelShape {
            n_layer: u64::MAX,
            n_head_kv: 8,
            n_head: 8,
            n_embd: 4096,
            key_length: None,
            value_length: None,
        },
    };
    let run =
        MultimodalPrefill::begin(None, false, &images, &ModelSettings::default(), facts, 0);
    assert_eq!(run.action(), MediaAction::Finish);
    assert!(matches!(run.finish().1.unwrap_err(), ProviderError::ExecutionError(_)));
}

#[test]
fn a_cache_of_any_size_is_fine_where_memory_is_unknown() {
    let images = [image(b"photo")];
    let facts = ModelFacts {
        n_ctx_train: 4096,
        shape: ModelShape {
            n_layer: u64::MAX,
            n_head_kv: 8,
            n_head: 8,
            n_embd: 4096,
            key_length: None,
            value_length: None,
        },
    };
    let mut run =
        MultimodalPrefill::begin(None, true, &images, &ModelSettings::default(), facts, 0);
    run.step(MediaEvent::Images(Ok(())));
    let known = MediaEvent::Tokenized(Ok((spans(ids(0..20)), reading(1, None))));
    assert!(!run.counts_fit(&known));
    let unknown = tokenized(spans(ids(0..20)));
    assert!(run.counts_fit(&unknown));
    run.step(unknown);
    assert_eq!(run.action(), MediaAction::CreateContext { n_ctx: 4096 });
}
