//! Runs that fill a cache with text, on an engine whose caches are plain vectors.

use std::collections::HashMap;

use local_inference::decode::DecodeFailure;
use local_inference::error::ProviderError;
use local_inference::index::{IndexEntry, SnapshotIndex};
use local_inference::key::{FileFacts, Modified};
use local_inference::ladder::ladder;
use local_inference::prefill::{Action, Chore, Event, Prefill, PrefilledPrompt};
use local_inference::session::SessionKv;
use local_inference::settings::ModelSettings;
use local_inference::slot::{SnapshotSlot, SNAPSHOT_MIN_TOKENS};
use local_inference::token::LlamaToken;

/// An engine and a disk. Counters say how many operations still fail.
#[derive(Default)]
struct World {
    retained: Option<Vec<LlamaToken>>,
    throwaway: Option<Vec<LlamaToken>>,
    most_retained: usize,
    files: HashMap<String, Vec<LlamaToken>>,
    index: HashMap<String, Vec<(String, usize)>>,
    saved_index: usize,
    capacity: u32,
    no_model: bool,
    fail_create: usize,
    fail_decode: usize,
    fail_throwaway: bool,
    refuse_trim: bool,
    fail_dir: bool,
    fail_save: bool,
    fail_rename: bool,
    now: u64,
    log: Vec<String>,
}

fn world() -> World {
    World { capacity: 8192, now: 1000, ..World::default() }
}

fn fails(n: &mut usize) -> bool {
    if *n > 0 {
        *n -= 1;
        true
    } else {
        false
    }
}

fn shaped(lead: i32, len: usize) -> Vec<LlamaToken> {
    (0..len)
        .map(|i| LlamaToken(if i < 256 { lead } else { i as i32 }))
        .collect()
}

fn changed(tokens: &[LlamaToken], at: usize) -> Vec<LlamaToken> {
    let mut t = tokens.to_vec();
    t[at] = LlamaToken(-(at as i32) - 1);
    t
}

impl World {
    fn chores(&mut self, run: &Prefill) {
        for chore in run.chores() {
            self.log.push(format!("{chore:?}"));
            match chore {
                Chore::ReleaseContext => self.retained = None,
                Chore::ReleaseThrowaway => self.throwaway = None,
                Chore::DetachContext => self.throwaway = self.retained.take(),
                Chore::ClearCache | Chore::ClearSequence => {
                    self.retained = Some(Vec::new());
                }
                Chore::RemoveFile(file) => {
                    self.files.remove(file);
                }
                Chore::SaveIndex => {
                    let slot = run.slot().as_ref().expect("an index is saved of a slot");
                    let list = slot.index.entries.iter();
                    let list = list.map(|e| (e.file.clone(), e.tokens)).collect();
                    self.index.insert(slot.key.index_name(), list);
                    self.saved_index += 1;
                }
            }
        }
    }

    fn answer(&mut self, action: Action, prompt: &[LlamaToken]) -> Event {
        self.log.push(format!("{action:?}").chars().take(60).collect());
        let failure = || Err(DecodeFailure::Engine("boom".to_string()));
        match action {
            Action::StatModel => Event::ModelFile(if self.no_model {
                None
            } else {
                Some(FileFacts { len: 5, modified: Modified::At(6) })
            }),
            Action::ReadIndex(_) => Event::Index(None),
            Action::CreateContext { .. } => {
                assert!(self.retained.is_none(), "two contexts at once");
                if fails(&mut self.fail_create) {
                    Event::Context(Err("no memory".to_string()))
                } else {
                    self.retained = Some(Vec::new());
                    Event::Context(Ok(self.capacity))
                }
            }
            Action::CreateThrowaway { .. } => {
                if self.fail_throwaway {
                    Event::Context(Err("no memory".to_string()))
                } else {
                    self.throwaway = Some(Vec::new());
                    Event::Context(Ok(self.capacity))
                }
            }
            Action::Lookup(file) => Event::Present(self.files.contains_key(&file)),
            Action::Read { file, capacity } => {
                assert_eq!(capacity, self.capacity);
                let tokens = self.files[&file].clone();
                if tokens.len() > capacity as usize {
                    return Event::Read { tokens: None, now: self.now };
                }
                self.retained = Some(tokens.clone());
                Event::Read { tokens: Some(tokens), now: self.now }
            }
            Action::Trim { pos } => {
                if self.refuse_trim {
                    return Event::Trimmed(false);
                }
                self.retained.as_mut().unwrap().truncate(pos as usize);
                Event::Trimmed(true)
            }
            Action::Decode { from, start } => {
                let held = self.retained.as_mut().unwrap();
                assert_eq!(held.len(), start, "a decode must continue the cache");
                if fails(&mut self.fail_decode) {
                    held.push(LlamaToken(-12345));
                    return Event::Decoded(failure());
                }
                held.extend_from_slice(&prompt[from..]);
                self.most_retained = self.most_retained.max(held.len());
                Event::Decoded(Ok(()))
            }
            Action::DecodeThrowaway => {
                if fails(&mut self.fail_decode) {
                    return Event::Decoded(failure());
                }
                self.throwaway.as_mut().unwrap().extend_from_slice(prompt);
                Event::Decoded(Ok(()))
            }
            Action::MakeDir => Event::Dir(!self.fail_dir),
            Action::Save { file, tokens } => {
                assert_eq!(self.retained.as_ref(), Some(&tokens), "only what the cache holds");
                if self.fail_save {
                    return Event::Saved(false);
                }
                self.files.insert(file, tokens);
                Event::Saved(true)
            }
            Action::Rename { part, file } => {
                if self.fail_rename {
                    return Event::Renamed { done: false, now: self.now };
                }
                let tokens = self.files.remove(&part).expect("the unfinished file");
                self.files.insert(file, tokens);
                Event::Renamed { done: true, now: self.now }
            }
            Action::Finish => unreachable!(),
        }
    }

    fn turn(
        &mut self,
        session: &mut Option<SessionKv>,
        slot: &mut Option<SnapshotSlot>,
        prompt: &[LlamaToken],
        effective_ctx: usize,
    ) -> Result<PrefilledPrompt, ProviderError> {
        self.turn_with(session, slot, prompt, effective_ctx, &ModelSettings::default())
    }

    fn turn_with(
        &mut self,
        session: &mut Option<SessionKv>,
        slot: &mut Option<SnapshotSlot>,
        prompt: &[LlamaToken],
        effective_ctx: usize,
        settings: &ModelSettings,
    ) -> Result<PrefilledPrompt, ProviderError> {
        self.log.clear();
        let mut run = Prefill::begin(
            session.take(),
            slot.take(),
            "/m.gguf",
            settings,
            prompt,
            effective_ctx,
        );
        self.chores(&run);
        loop {
            let action = run.action();
            if matches!(action, Action::Finish) {
                break;
            }
            let event = self.answer(action, run.prompt());
            run.step(event);
            self.chores(&run);
        }
        let (kept, after, outcome) = run.finish();
        *session = kept;
        *slot = after;
        if let Some(kv) = session.as_ref() {
            let held = self.retained.as_ref().expect("a context for every session");
            assert!(held.starts_with(&kv.tokens), "the ledger is a prefix of the cache");
        } else {
            assert!(self.retained.is_none());
        }
        outcome
    }
}

fn engine_error(text: &str) -> ProviderError {
    ProviderError::ExecutionError(text.to_string())
}

#[test]
fn the_read_buffer_is_sized_from_the_context_not_the_prompt() {
    let stored = shaped(1, 2000);
    let prompt = shaped(1, 2500);
    let index = SnapshotIndex {
        entries: vec![IndexEntry {
            file: "stored.kv".to_string(),
            tokens: stored.len(),
            ladder: ladder(&stored),
            last_used: 1,
        }],
    };
    let mut run = Prefill::begin(None, None, "/m.gguf", &ModelSettings::default(), &prompt, 4096);
    run.step(Event::ModelFile(Some(FileFacts { len: 5, modified: Modified::At(6) })));
    run.step(Event::Index(Some(index)));
    assert!(matches!(run.action(), Action::CreateContext { n_ctx: 4096 }));
    run.step(Event::Context(Ok(5120)));
    run.step(Event::Present(true));
    match run.action() {
        Action::Read { file, capacity } => {
            assert_eq!(file, "stored.kv");
            assert_eq!(capacity, 5120);
            assert_ne!(capacity as usize, prompt.len());
        }
        other => panic!("{other:?}"),
    }
}

#[test]
fn a_cold_start_decodes_the_whole_prompt() {
    let mut w = world();
    let (mut session, mut slot) = (None, None);
    let prompt = shaped(1, 900);
    let filled = w.turn(&mut session, &mut slot, &prompt, 4096).unwrap();
    assert_eq!(filled.reused_prefix_tokens, 0);
    assert_eq!(filled.effective_ctx, 4096);
    assert!(filled.transient.is_none());
    assert_eq!(session.unwrap().tokens, prompt);
    assert_eq!(w.retained.unwrap(), prompt);
    assert_eq!(slot.unwrap().stable_len(&prompt), Some(900));
}

#[test]
fn a_model_that_cannot_be_read_turns_snapshots_off() {
    let mut w = World { no_model: true, ..world() };
    let (mut session, mut slot) = (None, None);
    let prompt = shaped(1, 900);
    w.turn(&mut session, &mut slot, &prompt, 4096).unwrap();
    assert!(slot.is_none());
    assert_eq!(session.unwrap().tokens, prompt);
}

#[test]
fn the_second_turn_decodes_only_what_is_new() {
    let mut w = world();
    let (mut session, mut slot) = (None, None);
    let first = shaped(1, 900);
    w.turn(&mut session, &mut slot, &first, 4096).unwrap();
    session.as_mut().unwrap().record_generated(&[LlamaToken(5), LlamaToken(6)]);
    w.retained.as_mut().unwrap().extend_from_slice(&[LlamaToken(5), LlamaToken(6)]);
    let mut second = first.clone();
    second.extend(shaped(2, 40));
    let filled = w.turn(&mut session, &mut slot, &second, 4096).unwrap();
    assert_eq!(filled.reused_prefix_tokens, 900);
    assert_eq!(w.retained.unwrap(), second);
    assert_eq!(session.unwrap().tokens, second);
}

#[test]
fn a_refused_trim_and_a_failed_decode_fall_back_to_the_whole_prompt() {
    let first = shaped(1, 900);
    let second = changed(&first, 800);

    let mut w = world();
    let (mut session, mut slot) = (None, None);
    w.turn(&mut session, &mut slot, &first, 4096).unwrap();
    w.refuse_trim = true;
    let filled = w.turn(&mut session, &mut slot, &second, 4096).unwrap();
    assert_eq!(filled.reused_prefix_tokens, 0);
    assert_eq!(w.retained.as_ref().unwrap(), &second);

    let mut w = world();
    let (mut session, mut slot) = (None, None);
    w.turn(&mut session, &mut slot, &first, 4096).unwrap();
    w.fail_decode = 1;
    let filled = w.turn(&mut session, &mut slot, &second, 4096).unwrap();
    assert_eq!(filled.reused_prefix_tokens, 0);
    assert_eq!(w.retained.as_ref().unwrap(), &second);
    assert!(w.log.iter().any(|l| l == "ReleaseContext"));
}

#[test]
fn a_small_stranger_runs_beside_the_cache() {
    let mut w = world();
    let (mut session, mut slot) = (None, None);
    let long = shaped(1, 3000);
    w.turn(&mut session, &mut slot, &long, 4096).unwrap();
    let small = shaped(9, 300);
    let filled = w.turn(&mut session, &mut slot, &small, 4096).unwrap();
    assert_eq!(filled.transient.as_ref().map(|t| t.n_ctx), Some(2348));
    assert!(filled.transient.unwrap().tokens.is_empty());
    assert_eq!(filled.effective_ctx, 2348);
    assert_eq!(w.throwaway.take().unwrap(), small);
    assert_eq!(session.as_ref().unwrap().tokens, long);
    assert_eq!(w.retained.as_ref().unwrap(), &long);

    let capped = ModelSettings { max_output_tokens: Some(100), ..ModelSettings::default() };
    let filled = w.turn_with(&mut session, &mut slot, &small, 4096, &capped).unwrap();
    assert_eq!(filled.effective_ctx, 400);
}

#[test]
fn a_throwaway_context_that_fails_gives_up_the_cache_instead() {
    for decode in [false, true] {
        let mut w = world();
        let (mut session, mut slot) = (None, None);
        w.turn(&mut session, &mut slot, &shaped(1, 3000), 4096).unwrap();
        w.fail_throwaway = !decode;
        w.fail_decode = usize::from(decode);
        let small = shaped(9, 300);
        let filled = w.turn(&mut session, &mut slot, &small, 4096).unwrap();
        assert!(filled.transient.is_none());
        assert_eq!(filled.effective_ctx, 4096);
        assert!(w.throwaway.is_none());
        assert_eq!(w.retained.as_ref().unwrap(), &small);
        assert_eq!(session.unwrap().tokens, small);
    }
}

#[test]
fn a_retained_context_that_fails_is_tried_again_in_a_new_one() {
    let mut w = World { no_model: true, ..world() };
    let (mut session, mut slot) = (None, None);
    w.turn(&mut session, &mut slot, &shaped(1, 600), 4096).unwrap();
    let other = shaped(2, 600);
    w.fail_decode = 1;
    w.turn(&mut session, &mut slot, &other, 4096).unwrap();
    assert_eq!(w.retained.as_ref().unwrap(), &other);

    w.fail_decode = 2;
    assert_eq!(
        w.turn(&mut session, &mut slot, &shaped(3, 600), 4096).unwrap_err(),
        engine_error("Prefill decode failed: boom")
    );
    assert!(session.is_none());
}

#[test]
fn only_a_failure_of_the_last_attempt_is_reported() {
    let mut w = World { no_model: true, fail_create: 1, ..world() };
    let (mut session, mut slot) = (None, None);
    assert_eq!(
        w.turn(&mut session, &mut slot, &shaped(1, 600), 4096).unwrap_err(),
        engine_error("Failed to create context: no memory")
    );
    let mut w = World { fail_create: 1, ..world() };
    let (mut session, mut slot) = (None, None);
    w.turn(&mut session, &mut slot, &shaped(1, 600), 4096).unwrap();
    assert!(session.is_some());
}

#[test]
fn a_window_beyond_the_engine_is_refused_at_once() {
    if usize::BITS < 64 {
        return;
    }
    let huge = (u32::MAX as usize).wrapping_add(1);
    let mut w = world();
    let (mut session, mut slot) = (None, None);
    assert_eq!(
        w.turn(&mut session, &mut slot, &shaped(1, 600), huge).unwrap_err(),
        engine_error("Context size 4294967296 exceeds u32 range")
    );
    assert!(w.log.is_empty());
}

#[test]
fn two_prompts_of_a_shape_leave_its_shared_prefix_on_disk() {
    let mut w = world();
    let (mut session, mut slot) = (None, None);
    let first = shaped(1, 2000);
    let second = changed(&first, 1500);
    w.turn(&mut session, &mut slot, &first, 4096).unwrap();
    assert!(w.files.is_empty(), "one prompt shares nothing with another yet");
    let filled = w.turn(&mut session, &mut slot, &second, 4096).unwrap();
    assert_eq!(filled.reused_prefix_tokens, 1500);
    assert_eq!(w.files.len(), 1);
    let (name, stored) = w.files.iter().next().unwrap();
    assert!(name.ends_with(".kv"));
    assert_eq!(stored, &first[..1500].to_vec());
    assert_eq!(w.retained.as_ref().unwrap(), &second, "the tail is put back");
    assert_eq!(w.saved_index, 1);
    w.turn(&mut session, &mut slot, &changed(&first, 1400), 4096).unwrap();
    assert_eq!(w.saved_index, 1, "one write for one shape");
}

#[test]
fn interleaved_shapes_each_leave_their_own_snapshot() {
    let mut w = world();
    let (mut session, mut slot) = (None, None);
    let (a, b) = (shaped(1, 1600), shaped(2, 1600));
    for prompt in [&a, &b, &changed(&a, 1300), &changed(&b, 1200), &a, &b] {
        w.turn(&mut session, &mut slot, prompt, 4096).unwrap();
    }
    let mut lengths: Vec<usize> = w.files.values().map(Vec::len).collect();
    lengths.sort();
    assert_eq!(lengths, vec![1200, 1300]);
}

fn stored_world() -> (World, Option<SnapshotSlot>, Vec<LlamaToken>) {
    let mut w = world();
    let (mut session, mut slot) = (None, None);
    let first = shaped(1, 2000);
    w.turn(&mut session, &mut slot, &first, 4096).unwrap();
    w.turn(&mut session, &mut slot, &changed(&first, 1500), 4096).unwrap();
    w.retained = None;
    (w, slot, first)
}

#[test]
fn a_cold_start_resumes_from_disk() {
    let (mut w, mut slot, first) = stored_world();
    let mut session = None;
    let filled = w.turn(&mut session, &mut slot, &first, 4096).unwrap();
    assert_eq!(filled.reused_prefix_tokens, 1500);
    assert_eq!(w.retained.as_ref().unwrap(), &first);
    assert_eq!(session.as_ref().unwrap().tokens, first);
    assert_eq!(w.saved_index, 1, "a fresh use is not worth a write");

    w.now += 3601;
    w.retained = None;
    session = None;
    w.turn(&mut session, &mut slot, &first, 4096).unwrap();
    assert_eq!(w.saved_index, 2, "a stale one is");
    assert_eq!(slot.unwrap().index.entries[0].last_used, 4601);
}

#[test]
fn a_file_that_is_gone_is_forgotten() {
    let (mut w, mut slot, first) = stored_world();
    w.files.clear();
    let mut session = None;
    let filled = w.turn(&mut session, &mut slot, &first, 4096).unwrap();
    assert_eq!(filled.reused_prefix_tokens, 0);
    assert!(slot.unwrap().index.entries.is_empty());
    assert_eq!(w.retained.unwrap(), first);
}

#[test]
fn a_file_that_cannot_be_read_is_deleted_and_may_be_replaced() {
    let (mut w, mut slot, first) = stored_world();
    w.capacity = 1000;
    let mut session = None;
    let filled = w.turn(&mut session, &mut slot, &first, 4096).unwrap();
    assert_eq!(filled.reused_prefix_tokens, 0);
    assert_eq!(w.retained.as_ref().unwrap(), &first);
    assert!(w.log.iter().any(|l| l == "ClearSequence"));
    assert_eq!(w.files.len(), 1, "the shape was due again and wrote anew");
}

#[test]
fn a_file_with_other_tokens_is_deleted() {
    let (mut w, mut slot, first) = stored_world();
    let name = w.files.keys().next().unwrap().clone();
    w.files.insert(name, shaped(4, 1500));
    let mut session = None;
    let filled = w.turn(&mut session, &mut slot, &first, 4096).unwrap();
    assert_eq!(filled.reused_prefix_tokens, 0);
    assert_eq!(w.retained.as_ref().unwrap(), &first);
    assert!(w.files.values().all(|t| t[..] == first[..1500]));
}

#[test]
fn a_restored_cache_that_will_not_decode_is_rebuilt() {
    let (mut w, mut slot, first) = stored_world();
    w.fail_decode = 1;
    let mut session = None;
    let filled = w.turn(&mut session, &mut slot, &first, 4096).unwrap();
    assert_eq!(filled.reused_prefix_tokens, 0);
    assert_eq!(w.retained.as_ref().unwrap(), &first);
}

#[test]
fn a_write_that_fails_costs_nothing_but_the_write() {
    for step in 0..4 {
        let mut w = world();
        let (mut session, mut slot) = (None, None);
        let first = shaped(1, 2000);
        let second = changed(&first, 1500);
        w.turn(&mut session, &mut slot, &first, 4096).unwrap();
        match step {
            0 => w.fail_dir = true,
            1 => w.fail_save = true,
            2 => w.fail_rename = true,
            _ => {}
        }
        let filled = w.turn(&mut session, &mut slot, &second, 4096).unwrap();
        assert_eq!(filled.reused_prefix_tokens, 1500);
        assert_eq!(w.retained.as_ref().unwrap(), &second);
        assert_eq!(w.files.len(), usize::from(step == 3));
        let slot = slot.unwrap();
        assert_eq!(slot.writable_prefix(&second), None, "the one write has been tried");
        assert_eq!(slot.index.entries.len(), usize::from(step == 3));
    }
}

#[test]
fn a_tail_that_cannot_be_put_back_rebuilds_the_cache() {
    let mut w = World { no_model: false, ..world() };
    let (mut session, mut slot) = (None, None);
    let first = shaped(1, 2000);
    let second = changed(&first, 1500);
    w.turn(&mut session, &mut slot, &first, 4096).unwrap();
    let mut run = Prefill::begin(
        session.take(),
        slot.take(),
        "/m.gguf",
        &ModelSettings::default(),
        &second,
        4096,
    );
    let mut decodes = 0;
    loop {
        let action = run.action();
        if matches!(action, Action::Finish) {
            break;
        }
        let decode = matches!(action, Action::Decode { .. });
        decodes += usize::from(decode);
        if decode && decodes == 2 {
            run.step(Event::Decoded(Err(DecodeFailure::Position)));
        } else {
            let event = w.answer(action, run.prompt());
            run.step(event);
        }
        w.chores(&run);
    }
    assert_eq!(decodes, 3, "the rest, the tail, and the whole prompt");
    assert_eq!(w.files.len(), 1, "the snapshot is stored once");
    let (session, slot, outcome) = run.finish();
    let session = session.expect("a context to generate on");
    assert_eq!((session.tokens, session.n_ctx), (second.clone(), 4096));
    assert!(session.head.is_none());
    assert_eq!(w.retained.as_ref(), Some(&second));
    assert_eq!(slot.unwrap().writable_prefix(&second), None);
    let filled = outcome.unwrap();
    assert_eq!((filled.reused_prefix_tokens, filled.effective_ctx), (0, 4096));
    assert!(filled.transient.is_none());
}

#[test]
fn a_rebuilt_cache_that_fails_is_reported() {
    let mut w = World { no_model: false, ..world() };
    let (mut session, mut slot) = (None, None);
    let first = shaped(1, 2000);
    let second = changed(&first, 1500);
    w.turn(&mut session, &mut slot, &first, 4096).unwrap();
    let mut run = Prefill::begin(
        session.take(),
        slot.take(),
        "/m.gguf",
        &ModelSettings::default(),
        &second,
        4096,
    );
    let mut decodes = 0;
    loop {
        let action = run.action();
        if matches!(action, Action::Finish) {
            break;
        }
        let decode = matches!(action, Action::Decode { .. });
        decodes += usize::from(decode);
        w.fail_decode = usize::from(decode && decodes >= 2);
        let event = w.answer(action, run.prompt());
        run.step(event);
        w.chores(&run);
    }
    assert_eq!(decodes, 3);
    let (session, _, outcome) = run.finish();
    assert!(session.is_none() && w.retained.is_none());
    assert_eq!(outcome.unwrap_err(), engine_error("Prefill decode failed: boom"));
}

#[test]
fn a_shape_that_a_file_serves_is_not_stored_again() {
    let mut w = world();
    let (mut session, mut slot) = (None, None);
    let first = shaped(1, 2000);
    let second = changed(&first, 1500);
    w.turn(&mut session, &mut slot, &first, 4096).unwrap();
    w.turn(&mut session, &mut slot, &second, 4096).unwrap();
    let (mut after, index) = (None, slot.take().unwrap().index);
    w.retained = None;
    let key = SnapshotSlot::key_for_model(
        "/m.gguf",
        Some(FileFacts { len: 5, modified: Modified::At(6) }),
        4096,
        &ModelSettings::default(),
    );
    let mut slot = Some(SnapshotSlot::new(key.unwrap(), Some(index)));
    let third = changed(&first, 1700);
    let served = w.turn(&mut after, &mut slot, &third, 4096).unwrap();
    assert_eq!(served.reused_prefix_tokens, 1500);
    let fourth = changed(&first, 1600);
    w.turn(&mut after, &mut slot, &fourth, 4096).unwrap();
    assert!(w.log.iter().all(|line| !line.starts_with("Save {")), "{:?}", w.log);
    assert_eq!(slot.unwrap().writable_prefix(&fourth), None);
}

#[test]
fn an_event_that_answers_nothing_changes_nothing() {
    let mut run = Prefill::begin(
        None,
        None,
        "/m.gguf",
        &ModelSettings::default(),
        &shaped(1, 300),
        4096,
    );
    run.step(Event::Saved(true));
    assert!(matches!(run.action(), Action::StatModel));
}

#[test]
fn a_slot_is_rebuilt_when_the_window_moves() {
    let mut w = world();
    let (mut session, mut slot) = (None, None);
    let prompt = shaped(1, SNAPSHOT_MIN_TOKENS + 50);
    w.turn(&mut session, &mut slot, &prompt, 4096).unwrap();
    w.turn(&mut session, &mut slot, &prompt, 2048).unwrap();
    let slot = slot.unwrap();
    assert!(slot.matches("/m.gguf", 2048));
    assert!(slot.matches("//m.gguf/", 2048));
    assert_eq!(session.unwrap().n_ctx, 2048);
}
