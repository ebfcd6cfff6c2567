//! Filling a cache with a prompt of text: what is asked of the engine and of the
//! disk, and what follows from each answer.
//!
//! The run is a machine. It names one action at a time, takes what came of it as an
//! event, and goes on. An answer may also leave chores: operations that cannot
//! fail, or whose failure changes nothing, to be done before the next action.
//!
//! A bad cache never fails a turn. Whatever a resume, a snapshot or a throwaway
//! context runs into, the run falls back to decoding the whole prompt, and only a
//! failure there, in a context of its own, is reported.

use vstd::prelude::*;
use vstd::string::*;

use crate::decode::{decode_error, report_decode, DecodeFailure};
use crate::error::{
    context_size_error, execution_error, report_context_size, ErrorView, ProviderError,
};
use crate::index::{evicted_by_cap, touch_is_due, EntryView, SnapshotIndex};
use crate::key::{
    a_key_holds_what_the_file_system_says, key_of_file, layout_of, part_name, unfinished_name, FileFacts, KeyView, SnapshotKey,
};
use crate::session::{
    a_cache_offers_what_can_be_resumed, a_plan_follows_what_is_shared,
    a_resume_counts_from_the_end_of_the_head, a_resume_keeps_what_is_shared_and_leaves_a_token,
    empty_session, is_kept, kept_prefix_tokens, kept_tokens, plan_of, prefill_plan, session_view,
    PrefillPlan, RetainedPrefix, SessionKv, SessionView,
};
use crate::settings::ModelSettings;
use crate::slot::{
    a_file_serves_where_it_is_a_long_proper_prefix, a_prefix_has_the_shape_of_its_prompt, a_restored_file_is_a_proper_prefix,
    a_shape_is_that_of_the_opening, shape_of, verdict, LoadVerdict, SlotView, SnapshotSlot,
};
use crate::token::{
    begins_with, common_prefix_len, shared_prefix, shared_prefix_begins_both,
    shared_prefix_is_where_agreement_ends, tokens_from, LlamaToken,
};
use crate::window::{sacrificial_context_size, sacrificial_window};

verus! {

/// Where a run stands: what was asked last.
#[derive(Clone, Copy, Debug, PartialEq, Eq, Structural)]
pub enum Phase {
    /// The model file is looked at, for the key of its snapshots.
    StatModel,
    /// The index of its snapshots is read.
    ReadIndex,
    /// A context is created that a snapshot may fill.
    SeedCreate,
    /// The file of the chosen snapshot is looked for.
    SeedLookup { capacity: u32 },
    /// The chosen snapshot is read.
    SeedRead { capacity: u32 },
    /// What the snapshot leaves of the prompt is decoded.
    SeedDecode { restored: usize },
    /// The retained cache is cut back to what the prompt shares with it.
    ReuseTrim { resume: usize, kept: usize },
    /// The rest of the prompt is decoded behind it.
    ReuseDecode { resume: usize, kept: usize },
    /// A throwaway context is created beside the retained one.
    ThrowawayCreate { window: u32 },
    /// The whole prompt is decoded into it.
    ThrowawayDecode { window: u32 },
    /// A context is created for the whole prompt.
    FullCreate { retry: bool },
    /// The whole prompt is decoded from the first position.
    FullDecode { retry: bool },
    /// The cache is cut back to the prefix that is to be stored.
    SnapshotTrim { keep: usize },
    /// The directory of the snapshots is made.
    SnapshotDir { keep: usize, shape: u64 },
    /// The cache is stored under a name of its own.
    SnapshotSave { keep: usize, shape: u64 },
    /// The stored file is put in place.
    SnapshotRename { keep: usize, shape: u64 },
    /// The tail that was cut is decoded again.
    SnapshotRestore { keep: usize },
    /// Nothing is left to ask.
    Done,
}

/// What is asked.
#[derive(Debug)]
pub enum Action {
    StatModel,
    ReadIndex(String),
    /// Create the retained context, with a window of that size.
    CreateContext { n_ctx: u32 },
    /// Create a throwaway context beside it, with a window of that size.
    CreateThrowaway { n_ctx: u32 },
    Lookup(String),
    /// Read a stored sequence into the context, with room for that many tokens.
    Read { file: String, capacity: u32 },
    /// Remove every position from that one on.
    Trim { pos: u32 },
    /// Decode the prompt's tokens from index `from` on, the first at position
    /// `start`.
    Decode { from: usize, start: usize },
    /// Decode the whole prompt into the throwaway context.
    DecodeThrowaway,
    MakeDir,
    /// Store the sequence, which holds exactly these tokens.
    Save { file: String, tokens: Vec<LlamaToken> },
    Rename { part: String, file: String },
    Finish,
}

/// What is asked, with its text and tokens as sequences.
#[verifier::ext_equal]
pub enum ActionView {
    StatModel,
    ReadIndex(Seq<char>),
    CreateContext { n_ctx: u32 },
    CreateThrowaway { n_ctx: u32 },
    Lookup(Seq<char>),
    Read { file: Seq<char>, capacity: u32 },
    Trim { pos: u32 },
    Decode { from: usize, start: usize },
    DecodeThrowaway,
    MakeDir,
    Save { file: Seq<char>, tokens: Seq<LlamaToken> },
    Rename { part: Seq<char>, file: Seq<char> },
    Finish,
}

impl View for Action {
    type V = ActionView;

    open spec fn view(&self) -> ActionView {
        match self {
            Action::StatModel => ActionView::StatModel,
            Action::ReadIndex(name) => ActionView::ReadIndex(name@),
            Action::CreateContext { n_ctx } => ActionView::CreateContext { n_ctx: *n_ctx },
            Action::CreateThrowaway { n_ctx } => ActionView::CreateThrowaway { n_ctx: *n_ctx },
            Action::Lookup(file) => ActionView::Lookup(file@),
            Action::Read { file, capacity } => ActionView::Read {
                file: file@,
                capacity: *capacity,
            },
            Action::Trim { pos } => ActionView::Trim { pos: *pos },
            Action::Decode { from, start } => ActionView::Decode { from: *from, start: *start },
            Action::DecodeThrowaway => ActionView::DecodeThrowaway,
            Action::MakeDir => ActionView::MakeDir,
            Action::Save { file, tokens } => ActionView::Save { file: file@, tokens: tokens@ },
            Action::Rename { part, file } => ActionView::Rename { part: part@, file: file@ },
            Action::Finish => ActionView::Finish,
        }
    }
}

/// What came of an action.
#[derive(Debug)]
pub enum Event {
    ModelFile(Option<FileFacts>),
    /// What the index lists, where it is there and can be parsed.
    Index(Option<SnapshotIndex>),
    /// The window that the new context really has, or what the engine said.
    Context(Result<u32, String>),
    Present(bool),
    /// The tokens of the stored sequence, where it could be read, and the time.
    Read { tokens: Option<Vec<LlamaToken>>, now: u64 },
    Trimmed(bool),
    Decoded(Result<(), DecodeFailure>),
    Dir(bool),
    Saved(bool),
    Renamed { done: bool, now: u64 },
}

/// What came of an action, as sequences. Of a failure, only what is reported of it.
#[verifier::ext_equal]
pub enum EventView {
    ModelFile(Option<FileFacts>),
    Index(Option<Seq<EntryView>>),
    Context(Result<u32, Seq<char>>),
    Present(bool),
    Read { tokens: Option<Seq<LlamaToken>>, now: u64 },
    Trimmed(bool),
    Decoded(Result<(), ErrorView>),
    Dir(bool),
    Saved(bool),
    Renamed { done: bool, now: u64 },
}

impl View for Event {
    type V = EventView;

    open spec fn view(&self) -> EventView {
        match self {
            Event::ModelFile(file) => EventView::ModelFile(*file),
            Event::Index(index) => EventView::Index(
                match index {
                    Some(index) => Some(index@),
                    None => None,
                },
            ),
            Event::Context(made) => EventView::Context(
                match made {
                    Ok(capacity) => Ok(*capacity),
                    Err(e) => Err(e@),
                },
            ),
            Event::Present(there) => EventView::Present(*there),
            Event::Read { tokens, now } => EventView::Read {
                tokens: match tokens {
                    Some(tokens) => Some(tokens@),
                    None => None,
                },
                now: *now,
            },
            Event::Trimmed(done) => EventView::Trimmed(*done),
            Event::Decoded(done) => EventView::Decoded(
                match done {
                    Ok(_) => Ok(()),
                    Err(failure) => Err(decode_error(*failure)),
                },
            ),
            Event::Dir(made) => EventView::Dir(*made),
            Event::Saved(done) => EventView::Saved(*done),
            Event::Renamed { done, now } => EventView::Renamed { done: *done, now: *now },
        }
    }
}

/// What is left to do before the next action, in order.
#[derive(Debug)]
pub enum Chore {
    /// Drop the retained context.
    ReleaseContext,
    /// Drop the throwaway context.
    ReleaseThrowaway,
    /// Make the retained context the throwaway one: it serves this generation and is
    /// dropped with it.
    DetachContext,
    /// Empty the cache of the retained context.
    ClearCache,
    /// Drop whatever a failed restore left in the sequence.
    ClearSequence,
    RemoveFile(String),
    /// Write the index as the slot has it now.
    SaveIndex,
}

/// What is left to do, with file names as sequences.
#[verifier::ext_equal]
pub enum ChoreView {
    ReleaseContext,
    ReleaseThrowaway,
    DetachContext,
    ClearCache,
    ClearSequence,
    RemoveFile(Seq<char>),
    SaveIndex,
}

impl View for Chore {
    type V = ChoreView;

    open spec fn view(&self) -> ChoreView {
        match self {
            Chore::ReleaseContext => ChoreView::ReleaseContext,
            Chore::ReleaseThrowaway => ChoreView::ReleaseThrowaway,
            Chore::DetachContext => ChoreView::DetachContext,
            Chore::ClearCache => ChoreView::ClearCache,
            Chore::ClearSequence => ChoreView::ClearSequence,
            Chore::RemoveFile(file) => ChoreView::RemoveFile(file@),
            Chore::SaveIndex => ChoreView::SaveIndex,
        }
    }
}

/// Removing each of these files.
pub open spec fn removals(files: Seq<Seq<char>>) -> Seq<ChoreView> {
    files.map_values(|f: Seq<char>| ChoreView::RemoveFile(f))
}

/// What an optional slot holds.
pub open spec fn slot_view(slot: Option<SnapshotSlot>) -> Option<SlotView> {
    match slot {
        Some(slot) => Some(slot@),
        None => None,
    }
}

/// A run, as plain sequences.
#[verifier::ext_equal]
pub struct PrefillView {
    /// What the retained context holds.
    pub session: Option<SessionView>,
    pub slot: Option<SlotView>,
    /// The key of the slot whose index is being read.
    pub key: Option<KeyView>,
    pub model_path: Seq<char>,
    pub settings: ModelSettings,
    pub prompt: Seq<LlamaToken>,
    pub effective_ctx: usize,
    pub n_ctx: u32,
    pub phase: Phase,
    /// The snapshot that is being restored.
    pub chosen: Seq<char>,
    pub reused: usize,
    /// What the throwaway context holds, where there is one.
    pub transient: Option<SessionView>,
    pub failure: Option<ErrorView>,
    pub chores: Seq<ChoreView>,
}

impl PrefillView {
    /// Nothing left to ask.
    pub open spec fn done(self) -> PrefillView {
        PrefillView { phase: Phase::Done, ..self }
    }

    /// Nothing left to do before the next action.
    pub open spec fn fresh(self) -> PrefillView {
        PrefillView { chores: Seq::empty(), ..self }
    }

    /// One more thing to do before the next action.
    pub open spec fn leaving(self, chore: ChoreView) -> PrefillView {
        PrefillView { chores: self.chores.push(chore), ..self }
    }

    /// Without the retained context.
    pub open spec fn released(self) -> PrefillView {
        if self.session is Some {
            (PrefillView { session: None, ..self }).leaving(ChoreView::ReleaseContext)
        } else {
            self
        }
    }

    /// With these tokens recorded of the retained context.
    pub open spec fn recording(self, tokens: Seq<LlamaToken>) -> PrefillView {
        PrefillView {
            session: match self.session {
                Some(kv) => Some(SessionView { tokens, ..kv }),
                None => None,
            },
            ..self
        }
    }

    /// The tokens recorded of the retained context.
    pub open spec fn recorded(self) -> Seq<LlamaToken> {
        match self.session {
            Some(kv) => kv.tokens,
            None => Seq::empty(),
        }
    }

    /// With an empty retained context of the requested window.
    pub open spec fn created(self) -> PrefillView {
        PrefillView { session: Some(empty_session(self.n_ctx)), ..self }
    }

    /// The whole prompt is decoded into the retained context, which fits.
    pub open spec fn decode_all(self, retry: bool) -> PrefillView {
        (PrefillView { phase: Phase::FullDecode { retry }, ..self.created() }).leaving(
            ChoreView::ClearCache,
        )
    }

    /// One attempt at the whole prompt: in the retained context where its window
    /// fits, else in a new one, for which the old one is released first.
    pub open spec fn attempt(self, retry: bool) -> PrefillView {
        if self.session is Some && self.session->0.n_ctx == self.n_ctx {
            self.decode_all(retry)
        } else {
            PrefillView { phase: Phase::FullCreate { retry }, ..self.released() }
        }
    }

    /// The whole prompt is decoded from scratch. A failure in a context that was
    /// there before is tried again in a new one.
    pub open spec fn full(self) -> PrefillView {
        self.attempt(self.session is Some)
    }

    /// An attempt at the whole prompt failed.
    pub open spec fn full_failed(self, retry: bool, e: ErrorView) -> PrefillView {
        if retry {
            self.released().attempt(false)
        } else {
            (PrefillView { failure: Some(e), ..self.released() }).done()
        }
    }

    /// How many leading tokens are to be stored now: the cache is text alone and
    /// holds them, there is a tail behind them, and their shape is due a write.
    pub open spec fn store_now(self) -> Option<usize> {
        match (self.slot, self.session) {
            (Some(slot), Some(kv)) => match slot.writable(self.prompt) {
                Some(keep) => if kv.head is None && keep < kv.tokens.len() && keep
                    <= shared_prefix(kv.tokens, self.prompt) {
                    Some(keep)
                } else {
                    None
                },
                None => None,
            },
            _ => None,
        }
    }

    /// The cache holds the prompt: its shape is stored if that is due.
    pub open spec fn filled(self, reused: usize) -> PrefillView {
        let s = PrefillView { reused, ..self };
        match self.store_now() {
            Some(keep) => PrefillView { phase: Phase::SnapshotTrim { keep }, ..s },
            None => s.done(),
        }
    }

    /// How to prefill the prompt, given what the retained context holds.
    pub open spec fn plan(self) -> PrefillPlan {
        plan_of(
            match self.session {
                Some(kv) => Some(kv.offer_to_text()),
                None => None,
            },
            self.prompt,
            self.n_ctx,
        )
    }

    /// How many of the prompt's tokens a resume at that position keeps, if the
    /// retained context can honour it.
    pub open spec fn resume_at(self, resume: usize) -> Option<usize> {
        match self.session {
            Some(kv) => if resume <= u32::MAX {
                kept_tokens(
                    resume,
                    kv.media_pos() as usize,
                    self.prompt.len() as usize,
                    kv.tokens.len() as usize,
                )
            } else {
                None
            },
            None => None,
        }
    }

    /// The window of a throwaway context for the prompt.
    pub open spec fn throwaway_window(self) -> u32 {
        sacrificial_window(self.prompt.len(), self.settings.max_output_tokens, self.n_ctx)
    }

    /// The plan is set in motion.
    pub open spec fn planned(self) -> PrefillView {
        match self.plan() {
            PrefillPlan::CreateContext => if self.slot is Some {
                PrefillView { phase: Phase::SeedCreate, ..self.released() }
            } else {
                self.full()
            },
            PrefillPlan::ReusePrefix(resume) => match self.resume_at(resume) {
                Some(kept) => PrefillView { phase: Phase::ReuseTrim { resume, kept }, ..self },
                None => self.full(),
            },
            PrefillPlan::SacrificialContext => PrefillView {
                phase: Phase::ThrowawayCreate { window: self.throwaway_window() },
                ..self
            },
            PrefillPlan::FullPrefillInPlace => self.full(),
        }
    }

    /// The slot has seen the prompt, and the plan is set in motion.
    pub open spec fn observed(self) -> PrefillView {
        (PrefillView {
            slot: match self.slot {
                Some(slot) => Some(slot.observed(self.prompt)),
                None => None,
            },
            ..self
        }).planned()
    }

    /// The model file was looked at.
    pub open spec fn after_model_file(self, file: Option<FileFacts>) -> PrefillView {
        match key_of_file(
            self.model_path,
            file,
            self.n_ctx,
            layout_of(self.settings) as u64,
        ) {
            Some(key) => PrefillView { key: Some(key), phase: Phase::ReadIndex, ..self },
            None => self.observed(),
        }
    }

    /// The index was read.
    pub open spec fn after_index(self, index: Option<Seq<EntryView>>) -> PrefillView {
        (PrefillView {
            key: None,
            slot: match self.key {
                Some(key) => Some(
                    SlotView {
                        key,
                        index: match index {
                            Some(index) => index,
                            None => Seq::empty(),
                        },
                        buckets: Map::empty(),
                    },
                ),
                None => None,
            },
            ..self
        }).observed()
    }

    /// A context that a snapshot may fill was created, or not.
    pub open spec fn after_seed_context(self, made: Option<u32>) -> PrefillView {
        match made {
            Some(capacity) => match self.slot->0.choice(self.prompt) {
                Some(file) => PrefillView {
                    chosen: file,
                    phase: Phase::SeedLookup { capacity },
                    ..self.created()
                },
                None => self.created().full(),
            },
            None => self.full(),
        }
    }

    /// The chosen file was looked for.
    pub open spec fn after_lookup(self, there: bool, capacity: u32) -> PrefillView {
        if there {
            PrefillView { phase: Phase::SeedRead { capacity }, ..self }
        } else {
            (PrefillView { slot: Some(self.slot->0.forgot(self.chosen)), ..self }).leaving(
                ChoreView::SaveIndex,
            ).full()
        }
    }

    /// The chosen file cannot serve: it is deleted, and nothing of it stays in the
    /// cache.
    pub open spec fn retiring(self) -> PrefillView {
        (PrefillView { slot: Some(self.slot->0.retired(self.chosen)), ..self }).leaving(
            ChoreView::RemoveFile(self.chosen),
        ).leaving(ChoreView::SaveIndex).leaving(ChoreView::ClearSequence)
    }

    /// The chosen file was read, or not.
    pub open spec fn after_read(self, tokens: Option<Seq<LlamaToken>>, now: u64) -> PrefillView {
        match tokens {
            None => self.retiring().full(),
            Some(tokens) => match verdict(tokens, self.prompt) {
                LoadVerdict::Restored(restored) => {
                    let slot = self.slot->0;
                    let s = PrefillView {
                        slot: Some(slot.judged(self.chosen, tokens, self.prompt, now)),
                        phase: Phase::SeedDecode { restored },
                        ..self.recording(tokens)
                    };
                    if touch_is_due(slot.index, self.chosen, now) {
                        s.leaving(ChoreView::SaveIndex)
                    } else {
                        s
                    }
                },
                LoadVerdict::Unsuitable => self.leaving(ChoreView::ClearSequence).full(),
                LoadVerdict::Foreign => self.retiring().full(),
            },
        }
    }

    /// The rest behind a restored snapshot was decoded, or not.
    pub open spec fn after_seed_decode(
        self,
        done: Result<(), ErrorView>,
        restored: usize,
    ) -> PrefillView {
        match done {
            Ok(_) => (PrefillView { reused: restored, ..self.recording(self.prompt) }).done(),
            Err(_) => self.released().full(),
        }
    }

    /// The retained cache was cut back for a resume, or the engine declined.
    pub open spec fn after_reuse_trim(
        self,
        done: bool,
        resume: usize,
        kept: usize,
    ) -> PrefillView {
        if done {
            PrefillView {
                phase: Phase::ReuseDecode { resume, kept },
                ..self.recording(self.recorded().take(kept as int))
            }
        } else {
            self.full()
        }
    }

    /// The rest behind a resumed prefix was decoded, or not.
    pub open spec fn after_reuse_decode(
        self,
        done: Result<(), ErrorView>,
        resume: usize,
        kept: usize,
    ) -> PrefillView {
        match done {
            Ok(_) => self.recording(self.recorded() + self.prompt.skip(kept as int)).filled(resume),
            Err(_) => self.released().full(),
        }
    }

    /// A throwaway context was created, or not.
    pub open spec fn after_throwaway_context(
        self,
        made: Option<u32>,
        window: u32,
    ) -> PrefillView {
        match made {
            Some(_) => PrefillView {
                transient: Some(empty_session(window)),
                phase: Phase::ThrowawayDecode { window },
                ..self
            },
            None => self.full(),
        }
    }

    /// The prompt was decoded into the throwaway context, or not. What a throwaway
    /// context holds is never resumed, so nothing of it is recorded.
    pub open spec fn after_throwaway_decode(self, done: Result<(), ErrorView>) -> PrefillView {
        match done {
            Ok(_) => self.done(),
            Err(_) => (PrefillView { transient: None, ..self }).leaving(
                ChoreView::ReleaseThrowaway,
            ).full(),
        }
    }

    /// A context for the whole prompt was created, or not.
    pub open spec fn after_full_context(
        self,
        made: Result<u32, Seq<char>>,
        retry: bool,
    ) -> PrefillView {
        match made {
            Ok(_) => self.decode_all(retry),
            Err(e) => self.full_failed(
                retry,
                ErrorView::ExecutionError("Failed to create context: "@ + e),
            ),
        }
    }

    /// The whole prompt was decoded, or not.
    pub open spec fn after_full_decode(
        self,
        done: Result<(), ErrorView>,
        retry: bool,
    ) -> PrefillView {
        match done {
            Ok(_) => self.recording(self.prompt).filled(0),
            Err(e) => self.full_failed(retry, e),
        }
    }

    /// The cache was cut back to the prefix to be stored, or the engine declined.
    pub open spec fn after_snapshot_trim(self, done: bool, keep: usize) -> PrefillView {
        if done {
            let s = self.recording(self.recorded().take(keep as int));
            match shape_of(s.recorded()) {
                Some(shape) => PrefillView { phase: Phase::SnapshotDir { keep, shape }, ..s },
                None => PrefillView { phase: Phase::SnapshotRestore { keep }, ..s },
            }
        } else {
            self.done()
        }
    }

    /// The write of a shape is over without a file.
    pub open spec fn write_failed(self, keep: usize, shape: u64) -> PrefillView {
        PrefillView {
            slot: Some(self.slot->0.settled(shape)),
            phase: Phase::SnapshotRestore { keep },
            ..self
        }
    }

    /// The name of the file that is being written.
    pub open spec fn part_name(self, shape: u64) -> Seq<char> {
        unfinished_name(self.slot->0.key.file_name(shape))
    }

    /// The directory was made, or not.
    pub open spec fn after_dir(self, made: bool, keep: usize, shape: u64) -> PrefillView {
        if made {
            PrefillView { phase: Phase::SnapshotSave { keep, shape }, ..self }
        } else {
            self.write_failed(keep, shape)
        }
    }

    /// The cache was stored, or not.
    pub open spec fn after_save(self, done: bool, keep: usize, shape: u64) -> PrefillView {
        if done {
            PrefillView { phase: Phase::SnapshotRename { keep, shape }, ..self }
        } else {
            self.leaving(ChoreView::RemoveFile(self.part_name(shape))).write_failed(keep, shape)
        }
    }

    /// The stored file was put in place, or not.
    pub open spec fn after_rename(
        self,
        done: bool,
        now: u64,
        keep: usize,
        shape: u64,
    ) -> PrefillView {
        if done {
            let slot = self.slot->0;
            let tokens = self.recorded();
            PrefillView {
                slot: Some(slot.published(shape, tokens, now)),
                phase: Phase::SnapshotRestore { keep },
                chores: (self.chores + removals(
                    evicted_by_cap(slot.index_with(shape, tokens, now)),
                )).push(ChoreView::SaveIndex),
                ..self
            }
        } else {
            self.leaving(ChoreView::RemoveFile(self.part_name(shape))).write_failed(keep, shape)
        }
    }

    /// The tail was decoded again, or not. Without it the cache is rebuilt from
    /// scratch; the shape is settled by then, so that nothing is stored again.
    pub open spec fn after_restore(self, done: Result<(), ErrorView>, keep: usize) -> PrefillView {
        match done {
            Ok(_) => self.recording(self.recorded() + self.prompt.skip(keep as int)).done(),
            Err(_) => self.released().full(),
        }
    }

    /// What follows from an event. One that does not answer what was asked changes
    /// nothing.
    pub open spec fn after(self, event: EventView) -> PrefillView {
        let s = self.fresh();
        match (self.phase, event) {
            (Phase::StatModel, EventView::ModelFile(file)) => s.after_model_file(file),
            (Phase::ReadIndex, EventView::Index(index)) => s.after_index(index),
            (Phase::SeedCreate, EventView::Context(made)) => s.after_seed_context(made.ok()),
            (Phase::SeedLookup { capacity }, EventView::Present(there)) => s.after_lookup(
                there,
                capacity,
            ),
            (Phase::SeedRead { capacity }, EventView::Read { tokens, now }) => s.after_read(
                tokens,
                now,
            ),
            (Phase::SeedDecode { restored }, EventView::Decoded(done)) => s.after_seed_decode(
                done,
                restored,
            ),
            (Phase::ReuseTrim { resume, kept }, EventView::Trimmed(done)) => s.after_reuse_trim(
                done,
                resume,
                kept,
            ),
            (
                Phase::ReuseDecode { resume, kept },
                EventView::Decoded(done),
            ) => s.after_reuse_decode(done, resume, kept),
            (
                Phase::ThrowawayCreate { window },
                EventView::Context(made),
            ) => s.after_throwaway_context(made.ok(), window),
            (
                Phase::ThrowawayDecode { window },
                EventView::Decoded(done),
            ) => s.after_throwaway_decode(done),
            (Phase::FullCreate { retry }, EventView::Context(made)) => s.after_full_context(
                made,
                retry,
            ),
            (Phase::FullDecode { retry }, EventView::Decoded(done)) => s.after_full_decode(
                done,
                retry,
            ),
            (Phase::SnapshotTrim { keep }, EventView::Trimmed(done)) => s.after_snapshot_trim(
                done,
                keep,
            ),
            (Phase::SnapshotDir { keep, shape }, EventView::Dir(made)) => s.after_dir(
                made,
                keep,
                shape,
            ),
            (Phase::SnapshotSave { keep, shape }, EventView::Saved(done)) => s.after_save(
                done,
                keep,
                shape,
            ),
            (
                Phase::SnapshotRename { keep, shape },
                EventView::Renamed { done, now },
            ) => s.after_rename(done, now, keep, shape),
            (Phase::SnapshotRestore { keep }, EventView::Decoded(done)) => s.after_restore(
                done,
                keep,
            ),
            _ => self,
        }
    }

    /// What is asked.
    pub open spec fn action(self) -> ActionView {
        match self.phase {
            Phase::StatModel => ActionView::StatModel,
            Phase::ReadIndex => ActionView::ReadIndex(self.key->0.index_name()),
            Phase::SeedCreate => ActionView::CreateContext { n_ctx: self.n_ctx },
            Phase::SeedLookup { .. } => ActionView::Lookup(self.chosen),
            Phase::SeedRead { capacity } => ActionView::Read { file: self.chosen, capacity },
            Phase::SeedDecode { restored } => ActionView::Decode {
                from: restored,
                start: restored,
            },
            Phase::ReuseTrim { resume, .. } => ActionView::Trim { pos: resume as u32 },
            Phase::ReuseDecode { resume, kept } => ActionView::Decode { from: kept, start: resume },
            Phase::ThrowawayCreate { window } => ActionView::CreateThrowaway { n_ctx: window },
            Phase::ThrowawayDecode { .. } => ActionView::DecodeThrowaway,
            Phase::FullCreate { .. } => ActionView::CreateContext { n_ctx: self.n_ctx },
            Phase::FullDecode { .. } => ActionView::Decode { from: 0, start: 0 },
            Phase::SnapshotTrim { keep } => ActionView::Trim { pos: keep as u32 },
            Phase::SnapshotDir { .. } => ActionView::MakeDir,
            Phase::SnapshotSave { shape, .. } => ActionView::Save {
                file: self.part_name(shape),
                tokens: self.recorded(),
            },
            Phase::SnapshotRename { shape, .. } => ActionView::Rename {
                part: self.part_name(shape),
                file: self.slot->0.key.file_name(shape),
            },
            Phase::SnapshotRestore { keep } => ActionView::Decode { from: keep, start: keep },
            Phase::Done => ActionView::Finish,
        }
    }

    /// Whether the retained context is text alone, fits the request, and holds
    /// exactly the first `n` tokens of the prompt.
    pub open spec fn holds_prefix(self, n: int) -> bool {
        &&& 0 <= n <= self.prompt.len()
        &&& self.session matches Some(kv) && kv.head is None && kv.n_ctx == self.n_ctx
            && kv.tokens == self.prompt.take(n)
    }

    /// What holds of every run, between one answer and the next.
    pub open spec fn wf(self) -> bool {
        &&& self.prompt.len() <= usize::MAX
        &&& self.session matches Some(kv) ==> kv.fits()
        &&& match self.phase {
            Phase::StatModel => self.slot is None && self.transient is None && self.reused == 0,
            Phase::ReadIndex => self.slot is None && self.key is Some && self.transient is None
                && self.reused == 0,
            Phase::SeedCreate => self.session is None && self.slot is Some && self.transient is None,
            Phase::SeedLookup { .. } | Phase::SeedRead { .. } => self.holds_prefix(0)
                && self.slot is Some && self.transient is None,
            Phase::SeedDecode { restored } => self.holds_prefix(restored as int) && restored
                < self.prompt.len() && self.transient is None,
            Phase::ReuseTrim { resume, kept } => {
                &&& self.session matches Some(kv) && kv.head is None && kv.n_ctx == self.n_ctx
                    && kept <= kv.tokens.len() && kv.tokens.take(kept as int)
                    == self.prompt.take(kept as int)
                &&& kept < self.prompt.len()
                &&& resume == kept <= u32::MAX
                &&& self.transient is None
            },
            Phase::ReuseDecode { resume, kept } => self.holds_prefix(kept as int) && kept
                < self.prompt.len() && resume == kept && self.transient is None,
            Phase::ThrowawayCreate { window } => {
                &&& self.session is Some
                &&& self.transient is None
                &&& self.prompt.len() > 0
                &&& self.reused == 0
                &&& window == self.throwaway_window()
            },
            Phase::ThrowawayDecode { window } => {
                &&& self.session is Some
                &&& self.transient == Some(empty_session(window))
                &&& self.prompt.len() > 0
                &&& self.reused == 0
                &&& window == self.throwaway_window()
            },
            Phase::FullCreate { .. } => self.session is None && self.transient is None,
            Phase::FullDecode { .. } => self.holds_prefix(0) && self.transient is None,
            Phase::SnapshotTrim { keep } => {
                &&& self.holds_prefix(self.prompt.len() as int)
                &&& self.slot is Some
                &&& self.slot->0.writable(self.prompt) == Some(keep)
                &&& keep < self.prompt.len()
                &&& self.transient is None
            },
            Phase::SnapshotDir { keep, shape } | Phase::SnapshotSave { keep, shape }
            | Phase::SnapshotRename { keep, shape } => {
                &&& self.holds_prefix(keep as int)
                &&& keep < self.prompt.len()
                &&& self.slot is Some
                &&& self.slot->0.writable(self.prompt) == Some(keep)
                &&& shape_of(self.prompt) == Some(shape)
                &&& self.transient is None
            },
            Phase::SnapshotRestore { keep } => {
                &&& self.holds_prefix(keep as int)
                &&& keep < self.prompt.len()
                &&& self.slot is Some
                &&& self.slot->0.writable(self.prompt) is None
                &&& self.transient is None
            },
            Phase::Done => self.failure is None ==> match self.transient {
                Some(kv) => {
                    &&& self.session is Some
                    &&& self.reused == 0
                    &&& kv == empty_session(self.throwaway_window())
                },
                None => self.holds_prefix(self.prompt.len() as int),
            },
        }
        &&& self.failure is None ==> self.n_ctx == self.effective_ctx
        &&& self.failure is Some ==> self.phase is Done && self.transient is None
        &&& self.failure is None && !(self.phase is StatModel) && !(self.phase is ReadIndex)
            ==> self.seen()
    }

    /// Whether the slot has taken the prompt in: what it holds of the prompt's shape
    /// is something that the prompt begins with.
    pub open spec fn seen(self) -> bool {
        match (self.slot, shape_of(self.prompt)) {
            (Some(slot), Some(shape)) => slot.bucket(shape).stable is Some && begins_with(
                self.prompt,
                slot.bucket(shape).stable->0,
            ),
            _ => true,
        }
    }
}

/// The window that a run asks of the engine, or zero where it is out of range.
pub open spec fn window_of(effective_ctx: usize) -> u32 {
    if effective_ctx <= u32::MAX {
        effective_ctx as u32
    } else {
        0
    }
}

/// A run at its start. The slot is kept where it is for this model at this window, which
/// is what `kept` says of it; else it is built anew, its key being a matter of the
/// request.
pub open spec fn begun(
    session: Option<SessionView>,
    slot: Option<SlotView>,
    kept: bool,
    model_path: Seq<char>,
    settings: ModelSettings,
    prompt: Seq<LlamaToken>,
    effective_ctx: usize,
) -> PrefillView {
    let s = PrefillView {
        session,
        slot,
        key: None,
        model_path,
        settings,
        prompt,
        effective_ctx,
        n_ctx: window_of(effective_ctx),
        phase: Phase::StatModel,
        chosen: Seq::empty(),
        reused: 0,
        transient: None,
        failure: None,
        chores: Seq::empty(),
    };
    if effective_ctx > u32::MAX {
        (PrefillView { failure: Some(context_size_error(effective_ctx as nat)), ..s }).done()
    } else if slot is Some && kept {
        s.observed()
    } else {
        PrefillView { slot: None, ..s }
    }
}

proof fn full_keeps_wf(s: PrefillView)
    requires
        s.prompt.len() <= usize::MAX,
        s.session matches Some(kv) ==> kv.fits(),
        s.transient is None,
        s.failure is None,
        s.n_ctx == s.effective_ctx,
        s.seen(),
    ensures
        s.full().wf(),
        s.attempt(false).wf(),
        s.decode_all(true).wf(),
        s.decode_all(false).wf(),
{
    assert(s.prompt.take(0) =~= Seq::<LlamaToken>::empty());
}

proof fn filled_keeps_wf(s: PrefillView, reused: usize)
    requires
        s.prompt.len() <= usize::MAX,
        s.holds_prefix(s.prompt.len() as int),
        s.transient is None,
        s.failure is None,
        s.n_ctx == s.effective_ctx,
        s.seen(),
    ensures
        s.filled(reused).wf(),
{
    assert(s.prompt.take(s.prompt.len() as int) =~= s.prompt);
}

proof fn observed_keeps_wf(s: PrefillView)
    requires
        s.prompt.len() <= usize::MAX,
        s.session matches Some(kv) ==> kv.fits(),
        s.transient is None,
        s.failure is None,
        s.reused == 0,
        s.n_ctx == s.effective_ctx,
    ensures
        s.observed().wf(),
{
    if let Some(kv) = s.session {
        a_resume_keeps_what_is_shared_and_leaves_a_token(kv.offer_to_text(), s.prompt, s.n_ctx);
    }
    let o = PrefillView {
        slot: match s.slot {
            Some(slot) => Some(slot.observed(s.prompt)),
            None => None,
        },
        ..s
    };
    assert(o.seen()) by {
        if let (Some(slot), Some(shape)) = (s.slot, shape_of(s.prompt)) {
            assert(s.prompt.take(s.prompt.len() as int) =~= s.prompt);
            if let Some(stable) = slot.bucket(shape).stable {
                shared_prefix_begins_both(stable, s.prompt);
            }
        }
    }
    full_keeps_wf(o);
}

/// Every run starts well, whatever the request is.
pub proof fn a_begun_run_is_well_formed(
    session: Option<SessionView>,
    slot: Option<SlotView>,
    kept: bool,
    model_path: Seq<char>,
    settings: ModelSettings,
    prompt: Seq<LlamaToken>,
    effective_ctx: usize,
)
    requires
        session matches Some(kv) ==> kv.fits(),
        prompt.len() <= usize::MAX,
    ensures
        begun(session, slot, kept, model_path, settings, prompt, effective_ctx).wf(),
{
    if effective_ctx <= u32::MAX {
        observed_keeps_wf(
            PrefillView {
                session,
                slot,
                key: None,
                model_path,
                settings,
                prompt,
                effective_ctx,
                n_ctx: effective_ctx as u32,
                phase: Phase::StatModel,
                chosen: Seq::empty(),
                reused: 0,
                transient: None,
                failure: None,
                chores: Seq::empty(),
            },
        );
    }
}

/// Every run that starts well stays well: after any event, what is recorded of the
/// retained context is what the phase says.
pub proof fn every_event_keeps_a_run_well_formed(s: PrefillView, event: EventView)
    requires
        s.wf(),
    ensures
        s.after(event).wf(),
{
    let f = s.fresh();
    let n = s.prompt.len() as int;
    assert(s.prompt.take(n) =~= s.prompt);
    match (s.phase, event) {
        (Phase::StatModel, EventView::ModelFile(file)) => {
            observed_keeps_wf(f);
        },
        (Phase::ReadIndex, EventView::Index(index)) => {
            let with_slot = PrefillView {
                key: None,
                slot: Some(
                    SlotView {
                        key: s.key->0,
                        index: match index {
                            Some(index) => index,
                            None => Seq::empty(),
                        },
                        buckets: Map::empty(),
                    },
                ),
                ..f
            };
            observed_keeps_wf(with_slot);
        },
        (Phase::SeedCreate, EventView::Context(made)) => {
            full_keeps_wf(f);
            full_keeps_wf(f.created());
            assert(s.prompt.take(0) =~= Seq::<LlamaToken>::empty());
        },
        (Phase::SeedLookup { capacity }, EventView::Present(there)) => {
            full_keeps_wf(
                (PrefillView { slot: Some(f.slot->0.forgot(f.chosen)), ..f }).leaving(
                    ChoreView::SaveIndex,
                ),
            );
        },
        (Phase::SeedRead { capacity }, EventView::Read { tokens, now }) => {
            full_keeps_wf(f.retiring());
            full_keeps_wf(f.leaving(ChoreView::ClearSequence));
            if tokens is Some {
                a_restored_file_is_a_proper_prefix(tokens->0, s.prompt);
            }
        },
        (Phase::SeedDecode { restored }, EventView::Decoded(done)) => {
            full_keeps_wf(f.released());
        },
        (Phase::ReuseTrim { resume, kept }, EventView::Trimmed(done)) => {
            full_keeps_wf(f);
        },
        (Phase::ReuseDecode { resume, kept }, EventView::Decoded(done)) => {
            full_keeps_wf(f.released());
            assert(s.prompt.take(kept as int) + s.prompt.skip(kept as int) =~= s.prompt);
            filled_keeps_wf(
                f.recording(f.recorded() + f.prompt.skip(kept as int)),
                resume,
            );
        },
        (Phase::ThrowawayCreate { window }, EventView::Context(made)) => {
            full_keeps_wf(f);
        },
        (Phase::ThrowawayDecode { window }, EventView::Decoded(done)) => {
            full_keeps_wf(
                (PrefillView { transient: None, ..f }).leaving(ChoreView::ReleaseThrowaway),
            );
        },
        (Phase::FullCreate { retry }, EventView::Context(made)) => {
            full_keeps_wf(f);
            full_keeps_wf(f.released());
        },
        (Phase::FullDecode { retry }, EventView::Decoded(done)) => {
            full_keeps_wf(f.released());
            filled_keeps_wf(f.recording(f.prompt), 0);
        },
        (Phase::SnapshotTrim { keep }, EventView::Trimmed(done)) => {
            let p = s.prompt.take(keep as int);
            assert(begins_with(s.prompt, p));
            a_prefix_has_the_shape_of_its_prompt(p, s.prompt);
        },
        (Phase::SnapshotRestore { keep }, EventView::Decoded(done)) => {
            assert(s.prompt.take(keep as int) + s.prompt.skip(keep as int) =~= s.prompt);
            full_keeps_wf(f.released());
        },
        _ => {},
    }
}

/// How far a run still has to go, at most. Decoding the whole prompt is followed by
/// storing its shape only where that is still due.
pub open spec fn steps_left(s: PrefillView) -> nat {
    let storing: nat = if s.slot is Some && s.slot->0.writable(s.prompt) is Some {
        7
    } else {
        0
    };
    match s.phase {
        Phase::StatModel => 17,
        Phase::ReadIndex => 16,
        Phase::SeedCreate => 15,
        Phase::SeedLookup { .. } => 14,
        Phase::SeedRead { .. } => 13,
        Phase::SeedDecode { .. } => 12,
        Phase::ReuseTrim { .. } => 11,
        Phase::ReuseDecode { .. } => 10,
        Phase::ThrowawayCreate { .. } => 13,
        Phase::ThrowawayDecode { .. } => 12,
        Phase::FullCreate { retry } => if retry {
            storing + 4
        } else {
            storing + 2
        },
        Phase::FullDecode { retry } => if retry {
            storing + 3
        } else {
            storing + 1
        },
        Phase::SnapshotTrim { .. } => 7,
        Phase::SnapshotDir { .. } => 6,
        Phase::SnapshotSave { .. } => 5,
        Phase::SnapshotRename { .. } => 4,
        Phase::SnapshotRestore { .. } => 3,
        Phase::Done => 0,
    }
}

/// Whether an event answers what was asked in a phase.
pub open spec fn answers(event: EventView, phase: Phase) -> bool {
    match phase {
        Phase::StatModel => event is ModelFile,
        Phase::ReadIndex => event is Index,
        Phase::SeedCreate | Phase::ThrowawayCreate { .. } | Phase::FullCreate { .. } => event
            is Context,
        Phase::SeedLookup { .. } => event is Present,
        Phase::SeedRead { .. } => event is Read,
        Phase::SeedDecode { .. } | Phase::ReuseDecode { .. } | Phase::ThrowawayDecode { .. }
        | Phase::FullDecode { .. } | Phase::SnapshotRestore { .. } => event is Decoded,
        Phase::ReuseTrim { .. } | Phase::SnapshotTrim { .. } => event is Trimmed,
        Phase::SnapshotDir { .. } => event is Dir,
        Phase::SnapshotSave { .. } => event is Saved,
        Phase::SnapshotRename { .. } => event is Renamed,
        Phase::Done => false,
    }
}

/// Every run ends: each answer brings it closer, whatever the answer is.
pub proof fn every_answer_brings_the_end_closer(s: PrefillView, event: EventView)
    requires
        s.wf(),
        answers(event, s.phase),
    ensures
        steps_left(s.after(event)) < steps_left(s),
{
}

/// A filled cache.
#[derive(Debug)]
pub struct PrefilledPrompt {
    /// Leading tokens that were served from a cache.
    pub reused_prefix_tokens: usize,
    /// What the throwaway context of this generation holds. `None` means that the
    /// generation runs on the retained one.
    pub transient: Option<SessionKv>,
    /// The window that the generation must respect.
    pub effective_ctx: usize,
}

/// A filled cache, as sequences.
#[verifier::ext_equal]
pub struct PrefilledView {
    pub reused_prefix_tokens: usize,
    pub transient: Option<SessionView>,
    pub effective_ctx: usize,
}

impl View for PrefilledPrompt {
    type V = PrefilledView;

    open spec fn view(&self) -> PrefilledView {
        PrefilledView {
            reused_prefix_tokens: self.reused_prefix_tokens,
            transient: session_view(self.transient),
            effective_ctx: self.effective_ctx,
        }
    }
}

impl PrefillView {
    /// What a run that is done comes to. The window of a generation in a throwaway
    /// context is that context's own.
    pub open spec fn outcome(self) -> Result<PrefilledView, ErrorView> {
        match self.failure {
            Some(e) => Err(e),
            None => Ok(
                PrefilledView {
                    reused_prefix_tokens: self.reused,
                    transient: self.transient,
                    effective_ctx: match self.transient {
                        Some(kv) => kv.n_ctx as usize,
                        None => self.effective_ctx,
                    },
                },
            ),
        }
    }
}

/// A run that is done and did not fail has filled a cache. In the retained context
/// that is the prompt, whole and alone, in the window of the request; a throwaway
/// context leaves the retained one in place, serves nothing from a cache, and has a
/// window of its own.
pub proof fn a_successful_run_has_filled_a_cache(s: PrefillView)
    requires
        s.wf(),
        s.phase is Done,
    ensures
        s.outcome() matches Ok(filled) ==> match filled.transient {
            None => {
                &&& s.session == Some(
                    SessionView { head: None, tokens: s.prompt, n_ctx: s.effective_ctx as u32 },
                )
                &&& filled.effective_ctx == s.effective_ctx
            },
            Some(_) => {
                &&& s.session is Some
                &&& filled.reused_prefix_tokens == 0
                &&& filled.effective_ctx == sacrificial_window(
                    s.prompt.len(),
                    s.settings.max_output_tokens,
                    s.effective_ctx as u32,
                )
            },
        },
{
    assert(s.prompt.take(s.prompt.len() as int) =~= s.prompt);
}

/// A run that fills a cache with a prompt of text.
#[derive(Debug)]
pub struct Prefill {
    session: Option<SessionKv>,
    slot: Option<SnapshotSlot>,
    key: Option<SnapshotKey>,
    model_path: String,
    settings: ModelSettings,
    prompt: Vec<LlamaToken>,
    effective_ctx: usize,
    n_ctx: u32,
    phase: Phase,
    chosen: String,
    reused: usize,
    transient: Option<SessionKv>,
    failure: Option<ProviderError>,
    chores: Vec<Chore>,
}

impl View for Prefill {
    type V = PrefillView;

    closed spec fn view(&self) -> PrefillView {
        PrefillView {
            session: session_view(self.session),
            slot: slot_view(self.slot),
            key: match self.key {
                Some(key) => Some(key@),
                None => None,
            },
            model_path: self.model_path@,
            settings: self.settings,
            prompt: self.prompt@,
            effective_ctx: self.effective_ctx,
            n_ctx: self.n_ctx,
            phase: self.phase,
            chosen: self.chosen@,
            reused: self.reused,
            transient: session_view(self.transient),
            failure: match self.failure {
                Some(e) => Some(e@),
                None => None,
            },
            chores: self.chores@.map_values(|c: Chore| c@),
        }
    }
}

impl Prefill {
    /// Starts a run for a prompt in a window of `effective_ctx` positions. Whether the
    /// slot is for the model at `model_path` is for the platform to say.
    pub fn begin(
        session: Option<SessionKv>,
        slot: Option<SnapshotSlot>,
        model_path: &str,
        settings: &ModelSettings,
        prompt: &[LlamaToken],
        effective_ctx: usize,
    ) -> (run: Prefill)
        requires
            session matches Some(kv) ==> kv@.fits(),
        ensures
            exists|kept: bool|
                {
                    &&& slot matches Some(slot) ==> slot@.may_match(
                        model_path@,
                        window_of(effective_ctx),
                        kept,
                    )
                    &&& run@ == #[trigger] begun(
                        session_view(session),
                        slot_view(slot),
                        kept,
                        model_path@,
                        *settings,
                        prompt@,
                        effective_ctx,
                    )
                },
            run@.wf(),
    {
        let n_ctx: u32 = if effective_ctx <= u32::MAX as usize {
            effective_ctx as u32
        } else {
            0
        };
        let kept = match &slot {
            Some(slot) => slot.matches(model_path, n_ctx),
            None => false,
        };
        Prefill::begin_with(session, slot, kept, model_path, settings, prompt, effective_ctx)
    }

    /// Starts a run for a prompt in a window of `effective_ctx` positions, where `kept`
    /// says whether the slot is for the model at `model_path` and for that window.
    pub fn begin_with(
        session: Option<SessionKv>,
        slot: Option<SnapshotSlot>,
        kept: bool,
        model_path: &str,
        settings: &ModelSettings,
        prompt: &[LlamaToken],
        effective_ctx: usize,
    ) -> (run: Prefill)
        requires
            session matches Some(kv) ==> kv@.fits(),
        ensures
            run@ == begun(
                session_view(session),
                slot_view(slot),
                kept,
                model_path@,
                *settings,
                prompt@,
                effective_ctx,
            ),
            run@.wf(),
    {
        let mut run = Prefill {
            session,
            slot,
            key: None,
            model_path: model_path.to_owned(),
            settings: *settings,
            prompt: tokens_from(prompt, 0),
            effective_ctx,
            n_ctx: if effective_ctx <= u32::MAX as usize {
                effective_ctx as u32
            } else {
                0
            },
            phase: Phase::StatModel,
            chosen: String::new(),
            reused: 0,
            transient: None,
            failure: None,
            chores: Vec::new(),
        };
        proof {
            assert(prompt@.skip(0) =~= prompt@);
            assert(run@.chores =~= Seq::<ChoreView>::empty());
            assert(run@.chosen =~= Seq::<char>::empty());
            assert(run@.prompt.len() == run.prompt.len());
        }
        if effective_ctx > u32::MAX as usize {
            run.failure = Some(report_context_size(effective_ctx));
            run.phase = Phase::Done;
            return run;
        }
        if kept && run.slot.is_some() {
            proof {
                observed_keeps_wf(run@);
            }
            run.observe_and_plan();
        } else {
            run.slot = None;
        }
        run
    }

    fn clear_chores(&mut self)
        ensures
            final(self)@ == old(self)@.fresh(),
    {
        self.chores.clear();
        assert(self@.chores =~= Seq::<ChoreView>::empty());
    }

    fn leave(&mut self, chore: Chore)
        ensures
            final(self)@ == old(self)@.leaving(chore@),
    {
        let ghost before = self@.chores;
        self.chores.push(chore);
        assert(self@.chores =~= before.push(chore@));
    }

    fn release(&mut self)
        ensures
            final(self)@ == old(self)@.released(),
    {
        if self.session.is_some() {
            self.session = None;
            self.leave(Chore::ReleaseContext);
        }
    }

    fn decode_all(&mut self, retry: bool)
        ensures
            final(self)@ == old(self)@.decode_all(retry),
    {
        self.session = Some(SessionKv::create(self.n_ctx));
        self.phase = Phase::FullDecode { retry };
        self.leave(Chore::ClearCache);
    }

    fn attempt(&mut self, retry: bool)
        ensures
            final(self)@ == old(self)@.attempt(retry),
    {
        let fits = match &self.session {
            Some(kv) => kv.n_ctx == self.n_ctx,
            None => false,
        };
        if fits {
            self.decode_all(retry);
        } else {
            self.release();
            self.phase = Phase::FullCreate { retry };
        }
    }

    fn full(&mut self)
        ensures
            final(self)@ == old(self)@.full(),
    {
        self.attempt(self.session.is_some());
    }

    fn full_failed(&mut self, retry: bool, e: ProviderError)
        ensures
            final(self)@ == old(self)@.full_failed(retry, e@),
    {
        self.release();
        if retry {
            self.attempt(false);
        } else {
            self.failure = Some(e);
            self.phase = Phase::Done;
        }
    }

    fn filled(&mut self, reused: usize)
        ensures
            final(self)@ == old(self)@.filled(reused),
    {
        let keep = match (&self.slot, &self.session) {
            (Some(slot), Some(kv)) => match slot.writable_prefix(self.prompt.as_slice()) {
                Some(keep) => if kv.head.is_none() && keep < kv.tokens.len() && keep
                    <= common_prefix_len(kv.tokens.as_slice(), self.prompt.as_slice()) {
                    Some(keep)
                } else {
                    None
                },
                None => None,
            },
            _ => None,
        };
        self.reused = reused;
        self.phase = match keep {
            Some(keep) => Phase::SnapshotTrim { keep },
            None => Phase::Done,
        };
    }

    fn plan(&self) -> (plan: PrefillPlan)
        requires
            self@.session matches Some(kv) ==> kv.fits(),
        ensures
            plan == self@.plan(),
    {
        match &self.session {
            Some(kv) => {
                proof {
                    shared_prefix_begins_both(kv@.tokens, self.prompt@);
                }
                let offer = if kv.head.is_some() {
                    RetainedPrefix::opaque(kv)
                } else {
                    RetainedPrefix::resumable(kv)
                };
                prefill_plan(Some(offer), self.prompt.as_slice(), self.n_ctx)
            },
            None => prefill_plan(None, self.prompt.as_slice(), self.n_ctx),
        }
    }

    fn resume_at(&self, resume: usize) -> (kept: Option<usize>)
        requires
            self@.session matches Some(kv) ==> kv.fits(),
        ensures
            kept == self@.resume_at(resume),
    {
        match &self.session {
            Some(kv) => if resume <= u32::MAX as usize {
                kept_prefix_tokens(resume, kv.media_pos(), self.prompt.len(), kv.tokens.len())
            } else {
                None
            },
            None => None,
        }
    }

    fn start_plan(&mut self)
        requires
            old(self)@.session matches Some(kv) ==> kv.fits(),
        ensures
            final(self)@ == old(self)@.planned(),
    {
        match self.plan() {
            PrefillPlan::CreateContext => {
                if self.slot.is_some() {
                    self.release();
                    self.phase = Phase::SeedCreate;
                } else {
                    self.full();
                }
            },
            PrefillPlan::ReusePrefix(resume) => match self.resume_at(resume) {
                Some(kept) => {
                    self.phase = Phase::ReuseTrim { resume, kept };
                },
                None => {
                    self.full();
                },
            },
            PrefillPlan::SacrificialContext => {
                self.phase = Phase::ThrowawayCreate {
                    window: sacrificial_context_size(
                        self.prompt.len(),
                        self.settings.max_output_tokens,
                        self.n_ctx,
                    ),
                };
            },
            PrefillPlan::FullPrefillInPlace => {
                self.full();
            },
        }
    }

    fn observe_and_plan(&mut self)
        requires
            old(self)@.session matches Some(kv) ==> kv.fits(),
        ensures
            final(self)@ == old(self)@.observed(),
    {
        match self.slot.take() {
            Some(mut slot) => {
                slot.observe(self.prompt.as_slice());
                self.slot = Some(slot);
            },
            None => {},
        }
        self.start_plan();
    }

    fn on_model_file(&mut self, file: Option<FileFacts>)
        requires
            old(self)@.session matches Some(kv) ==> kv.fits(),
        ensures
            final(self)@ == old(self)@.after_model_file(file),
    {
        match SnapshotSlot::key_for_model(
            self.model_path.as_str(),
            file,
            self.n_ctx,
            &self.settings,
        ) {
            Some(key) => {
                self.key = Some(key);
                self.phase = Phase::ReadIndex;
            },
            None => {
                self.observe_and_plan();
            },
        }
    }

    fn on_index(&mut self, index: Option<SnapshotIndex>)
        requires
            old(self)@.session matches Some(kv) ==> kv.fits(),
        ensures
            final(self)@ == old(self)@.after_index(
                match index {
                    Some(index) => Some(index@),
                    None => None,
                },
            ),
    {
        self.slot = match self.key.take() {
            Some(key) => Some(SnapshotSlot::new(key, index)),
            None => None,
        };
        self.observe_and_plan();
    }

    fn on_seed_context(&mut self, made: Option<u32>)
        requires
            old(self)@.slot is Some,
        ensures
            final(self)@ == old(self)@.after_seed_context(made),
    {
        match made {
            Some(capacity) => {
                self.session = Some(SessionKv::create(self.n_ctx));
                let file = match &self.slot {
                    Some(slot) => slot.choose_file(self.prompt.as_slice()),
                    None => None,
                };
                match file {
                    Some(file) => {
                        self.chosen = file;
                        self.phase = Phase::SeedLookup { capacity };
                    },
                    None => {
                        self.full();
                    },
                }
            },
            None => {
                self.full();
            },
        }
    }

    fn on_lookup(&mut self, there: bool, capacity: u32)
        requires
            old(self)@.slot is Some,
        ensures
            final(self)@ == old(self)@.after_lookup(there, capacity),
    {
        if there {
            self.phase = Phase::SeedRead { capacity };
        } else {
            match self.slot.take() {
                Some(mut slot) => {
                    slot.forget(&self.chosen);
                    self.slot = Some(slot);
                },
                None => {},
            }
            self.leave(Chore::SaveIndex);
            self.full();
        }
    }

    fn leave_retirement(&mut self)
        ensures
            final(self)@ == old(self)@.leaving(ChoreView::RemoveFile(old(self)@.chosen)).leaving(
                ChoreView::SaveIndex,
            ).leaving(ChoreView::ClearSequence),
    {
        let file = self.chosen.clone();
        self.leave(Chore::RemoveFile(file));
        self.leave(Chore::SaveIndex);
        self.leave(Chore::ClearSequence);
    }

    fn retire_chosen(&mut self)
        requires
            old(self)@.slot is Some,
        ensures
            final(self)@ == old(self)@.retiring(),
    {
        match self.slot.take() {
            Some(mut slot) => {
                slot.retire(&self.chosen);
                self.slot = Some(slot);
            },
            None => {},
        }
        self.leave_retirement();
    }

    fn on_read(&mut self, tokens: Option<Vec<LlamaToken>>, now: u64)
        requires
            old(self)@.slot is Some,
        ensures
            final(self)@ == old(self)@.after_read(
                match tokens {
                    Some(tokens) => Some(tokens@),
                    None => None,
                },
                now,
            ),
    {
        let tokens = match tokens {
            Some(tokens) => tokens,
            None => {
                self.retire_chosen();
                self.full();
                return;
            },
        };
        let mut judged = (LoadVerdict::Unsuitable, false);
        match self.slot.take() {
            Some(mut slot) => {
                judged =
                slot.judge_file(&self.chosen, tokens.as_slice(), self.prompt.as_slice(), now);
                self.slot = Some(slot);
            },
            None => {},
        }
        match judged.0 {
            LoadVerdict::Restored(restored) => {
                self.record(tokens);
                self.phase = Phase::SeedDecode { restored };
                if judged.1 {
                    self.leave(Chore::SaveIndex);
                }
            },
            LoadVerdict::Unsuitable => {
                self.leave(Chore::ClearSequence);
                self.full();
            },
            LoadVerdict::Foreign => {
                self.leave_retirement();
                self.full();
            },
        }
    }

    fn record(&mut self, tokens: Vec<LlamaToken>)
        ensures
            final(self)@ == old(self)@.recording(tokens@),
    {
        match self.session.take() {
            Some(mut kv) => {
                kv.tokens = tokens;
                self.session = Some(kv);
            },
            None => {},
        }
    }

    fn truncate(&mut self, n: usize)
        requires
            n <= old(self)@.recorded().len(),
        ensures
            final(self)@ == old(self)@.recording(old(self)@.recorded().take(n as int)),
    {
        match self.session.take() {
            Some(mut kv) => {
                let ghost before = kv.tokens@;
                kv.tokens.truncate(n);
                assert(kv.tokens@ =~= before.take(n as int));
                self.session = Some(kv);
            },
            None => {},
        }
    }

    fn extend(&mut self, from: usize)
        requires
            from <= old(self)@.prompt.len(),
        ensures
            final(self)@ == old(self)@.recording(
                old(self)@.recorded() + old(self)@.prompt.skip(from as int),
            ),
    {
        match self.session.take() {
            Some(mut kv) => {
                let rest = tokens_from(self.prompt.as_slice(), from);
                kv.record_generated(rest.as_slice());
                self.session = Some(kv);
            },
            None => {},
        }
    }

    fn on_seed_decode(&mut self, done: Result<(), DecodeFailure>, restored: usize)
        ensures
            final(self)@ == old(self)@.after_seed_decode(decoded_view(done), restored),
    {
        match done {
            Ok(_) => {
                let all = tokens_from(self.prompt.as_slice(), 0);
                assert(all@ =~= self@.prompt);
                self.record(all);
                self.reused = restored;
                self.phase = Phase::Done;
            },
            Err(_) => {
                self.release();
                self.full();
            },
        }
    }

    fn on_reuse_trim(&mut self, done: bool, resume: usize, kept: usize)
        requires
            kept <= old(self)@.recorded().len(),
        ensures
            final(self)@ == old(self)@.after_reuse_trim(done, resume, kept),
    {
        if done {
            self.truncate(kept);
            self.phase = Phase::ReuseDecode { resume, kept };
        } else {
            self.full();
        }
    }

    fn on_reuse_decode(&mut self, done: Result<(), DecodeFailure>, resume: usize, kept: usize)
        requires
            kept <= old(self)@.prompt.len(),
        ensures
            final(self)@ == old(self)@.after_reuse_decode(decoded_view(done), resume, kept),
    {
        match done {
            Ok(_) => {
                self.extend(kept);
                self.filled(resume);
            },
            Err(_) => {
                self.release();
                self.full();
            },
        }
    }

    fn on_throwaway_context(&mut self, made: Option<u32>, window: u32)
        ensures
            final(self)@ == old(self)@.after_throwaway_context(made, window),
    {
        match made {
            Some(_) => {
                self.transient = Some(SessionKv::create(window));
                self.phase = Phase::ThrowawayDecode { window };
            },
            None => {
                self.full();
            },
        }
    }

    fn on_throwaway_decode(&mut self, done: Result<(), DecodeFailure>)
        ensures
            final(self)@ == old(self)@.after_throwaway_decode(decoded_view(done)),
    {
        match done {
            Ok(_) => {
                self.phase = Phase::Done;
            },
            Err(_) => {
                self.transient = None;
                self.leave(Chore::ReleaseThrowaway);
                self.full();
            },
        }
    }

    fn on_full_context(&mut self, made: Result<u32, String>, retry: bool)
        ensures
            final(self)@ == old(self)@.after_full_context(
                match made {
                    Ok(capacity) => Ok(capacity),
                    Err(e) => Err(e@),
                },
                retry,
            ),
    {
        match made {
            Ok(_) => {
                self.decode_all(retry);
            },
            Err(e) => {
                self.full_failed(
                    retry,
                    execution_error("Failed to create context: ", e.as_str()),
                );
            },
        }
    }

    fn on_full_decode(&mut self, done: Result<(), DecodeFailure>, retry: bool)
        ensures
            final(self)@ == old(self)@.after_full_decode(decoded_view(done), retry),
    {
        match done {
            Ok(_) => {
                let all = tokens_from(self.prompt.as_slice(), 0);
                assert(all@ =~= self@.prompt);
                self.record(all);
                self.filled(0);
            },
            Err(failure) => {
                self.full_failed(retry, report_decode(&failure));
            },
        }
    }

    fn on_snapshot_trim(&mut self, done: bool, keep: usize)
        requires
            keep <= old(self)@.recorded().len(),
        ensures
            final(self)@ == old(self)@.after_snapshot_trim(done, keep),
    {
        if done {
            self.truncate(keep);
            let shape = match &self.session {
                Some(kv) => SnapshotSlot::bucket_of(kv.tokens.as_slice()),
                None => {
                    let none: Vec<LlamaToken> = Vec::new();
                    assert(none@ =~= self@.recorded());
                    SnapshotSlot::bucket_of(none.as_slice())
                },
            };
            self.phase = match shape {
                Some(shape) => Phase::SnapshotDir { keep, shape },
                None => Phase::SnapshotRestore { keep },
            };
        } else {
            self.phase = Phase::Done;
        }
    }

    fn write_failed(&mut self, keep: usize, shape: u64)
        requires
            old(self)@.slot is Some,
        ensures
            final(self)@ == old(self)@.write_failed(keep, shape),
    {
        match self.slot.take() {
            Some(mut slot) => {
                slot.settle(shape);
                self.slot = Some(slot);
            },
            None => {},
        }
        self.phase = Phase::SnapshotRestore { keep };
    }

    fn final_name(&self, shape: u64) -> (name: String)
        requires
            self@.slot is Some,
        ensures
            name@ == self@.slot->0.key.file_name(shape),
    {
        match &self.slot {
            Some(slot) => slot.key.file_name(shape),
            None => String::new(),
        }
    }

    fn remove_part(&mut self, shape: u64)
        requires
            old(self)@.slot is Some,
        ensures
            final(self)@ == old(self)@.leaving(
                ChoreView::RemoveFile(old(self)@.part_name(shape)),
            ),
    {
        let part = part_name(&self.final_name(shape));
        self.leave(Chore::RemoveFile(part));
    }

    fn on_dir(&mut self, made: bool, keep: usize, shape: u64)
        requires
            old(self)@.slot is Some,
        ensures
            final(self)@ == old(self)@.after_dir(made, keep, shape),
    {
        if made {
            self.phase = Phase::SnapshotSave { keep, shape };
        } else {
            self.write_failed(keep, shape);
        }
    }

    fn on_save(&mut self, done: bool, keep: usize, shape: u64)
        requires
            old(self)@.slot is Some,
        ensures
            final(self)@ == old(self)@.after_save(done, keep, shape),
    {
        if done {
            self.phase = Phase::SnapshotRename { keep, shape };
        } else {
            self.remove_part(shape);
            self.write_failed(keep, shape);
        }
    }

    fn leave_removals(&mut self, files: Vec<String>)
        ensures
            final(self)@ == (PrefillView {
                chores: old(self)@.chores + removals(files@.map_values(|f: String| f@)),
                ..old(self)@
            }),
    {
        let ghost before = self@;
        let ghost want = removals(files@.map_values(|f: String| f@));
        let mut i: usize = 0;
        assert(before.chores + want.take(0) =~= before.chores);
        while i < files.len()
            invariant
                i <= files@.len(),
                want == removals(files@.map_values(|f: String| f@)),
                self@ == (PrefillView { chores: before.chores + want.take(i as int), ..before }),
            decreases files@.len() - i,
        {
            let file = files[i].clone();
            self.leave(Chore::RemoveFile(file));
            assert(want.take(i + 1) =~= want.take(i as int).push(
                ChoreView::RemoveFile(files@[i as int]@),
            ));
            assert(self@.chores =~= before.chores + want.take(i + 1));
            i += 1;
        }
        assert(want.take(i as int) =~= want);
    }

    fn on_rename(&mut self, done: bool, now: u64, keep: usize, shape: u64)
        requires
            old(self)@.slot is Some,
            old(self)@.session is Some,
        ensures
            final(self)@ == old(self)@.after_rename(done, now, keep, shape),
    {
        if !done {
            self.remove_part(shape);
            self.write_failed(keep, shape);
            return;
        }
        match (self.slot.take(), &self.session) {
            (Some(mut slot), Some(kv)) => {
                let evicted = slot.publish(shape, kv.tokens.as_slice(), now);
                self.slot = Some(slot);
                self.leave_removals(evicted);
            },
            _ => {},
        }
        self.leave(Chore::SaveIndex);
        self.phase = Phase::SnapshotRestore { keep };
    }

    fn on_restore(&mut self, done: Result<(), DecodeFailure>, keep: usize)
        requires
            keep <= old(self)@.prompt.len(),
        ensures
            final(self)@ == old(self)@.after_restore(decoded_view(done), keep),
    {
        match done {
            Ok(_) => {
                self.extend(keep);
                self.phase = Phase::Done;
            },
            Err(_) => {
                self.release();
                self.full();
            },
        }
    }

    /// Takes what came of the last action.
    pub fn step(&mut self, event: Event)
        requires
            old(self)@.wf(),
        ensures
            final(self)@ == old(self)@.after(event@),
            final(self)@.wf(),
    {
        proof {
            every_event_keeps_a_run_well_formed(self@, event@);
        }
        match (self.phase, event) {
            (Phase::StatModel, Event::ModelFile(file)) => {
                self.clear_chores();
                self.on_model_file(file);
            },
            (Phase::ReadIndex, Event::Index(index)) => {
                self.clear_chores();
                self.on_index(index);
            },
            (Phase::SeedCreate, Event::Context(made)) => {
                self.clear_chores();
                self.on_seed_context(made.ok());
            },
            (Phase::SeedLookup { capacity }, Event::Present(there)) => {
                self.clear_chores();
                self.on_lookup(there, capacity);
            },
            (Phase::SeedRead { capacity }, Event::Read { tokens, now }) => {
                self.clear_chores();
                self.on_read(tokens, now);
            },
            (Phase::SeedDecode { restored }, Event::Decoded(done)) => {
                self.clear_chores();
                self.on_seed_decode(done, restored);
            },
            (Phase::ReuseTrim { resume, kept }, Event::Trimmed(done)) => {
                self.clear_chores();
                self.on_reuse_trim(done, resume, kept);
            },
            (Phase::ReuseDecode { resume, kept }, Event::Decoded(done)) => {
                self.clear_chores();
                self.on_reuse_decode(done, resume, kept);
            },
            (Phase::ThrowawayCreate { window }, Event::Context(made)) => {
                self.clear_chores();
                self.on_throwaway_context(made.ok(), window);
            },
            (Phase::ThrowawayDecode { window }, Event::Decoded(done)) => {
                self.clear_chores();
                self.on_throwaway_decode(done);
            },
            (Phase::FullCreate { retry }, Event::Context(made)) => {
                self.clear_chores();
                self.on_full_context(made, retry);
            },
            (Phase::FullDecode { retry }, Event::Decoded(done)) => {
                self.clear_chores();
                self.on_full_decode(done, retry);
            },
            (Phase::SnapshotTrim { keep }, Event::Trimmed(done)) => {
                self.clear_chores();
                self.on_snapshot_trim(done, keep);
            },
            (Phase::SnapshotDir { keep, shape }, Event::Dir(made)) => {
                self.clear_chores();
                self.on_dir(made, keep, shape);
            },
            (Phase::SnapshotSave { keep, shape }, Event::Saved(done)) => {
                self.clear_chores();
                self.on_save(done, keep, shape);
            },
            (Phase::SnapshotRename { keep, shape }, Event::Renamed { done, now }) => {
                self.clear_chores();
                self.on_rename(done, now, keep, shape);
            },
            (Phase::SnapshotRestore { keep }, Event::Decoded(done)) => {
                self.clear_chores();
                self.on_restore(done, keep);
            },
            _ => {},
        }
    }

    /// What is asked now.
    pub fn action(&self) -> (action: Action)
        requires
            self@.wf(),
        ensures
            action@ == self@.action(),
    {
        match self.phase {
            Phase::StatModel => Action::StatModel,
            Phase::ReadIndex => Action::ReadIndex(
                match &self.key {
                    Some(key) => key.index_name(),
                    None => String::new(),
                },
            ),
            Phase::SeedCreate => Action::CreateContext { n_ctx: self.n_ctx },
            Phase::SeedLookup { .. } => Action::Lookup(self.chosen.clone()),
            Phase::SeedRead { capacity } => Action::Read { file: self.chosen.clone(), capacity },
            Phase::SeedDecode { restored } => Action::Decode { from: restored, start: restored },
            Phase::ReuseTrim { resume, .. } => Action::Trim { pos: resume as u32 },
            Phase::ReuseDecode { resume, kept } => Action::Decode { from: kept, start: resume },
            Phase::ThrowawayCreate { window } => Action::CreateThrowaway { n_ctx: window },
            Phase::ThrowawayDecode { .. } => Action::DecodeThrowaway,
            Phase::FullCreate { .. } => Action::CreateContext { n_ctx: self.n_ctx },
            Phase::FullDecode { .. } => Action::Decode { from: 0, start: 0 },
            Phase::SnapshotTrim { keep } => Action::Trim { pos: keep as u32 },
            Phase::SnapshotDir { .. } => Action::MakeDir,
            Phase::SnapshotSave { shape, .. } => Action::Save {
                file: part_name(&self.final_name(shape)),
                tokens: match &self.session {
                    Some(kv) => tokens_from(kv.tokens.as_slice(), 0),
                    None => Vec::new(),
                },
            },
            Phase::SnapshotRename { shape, .. } => Action::Rename {
                part: part_name(&self.final_name(shape)),
                file: self.final_name(shape),
            },
            Phase::SnapshotRestore { keep } => Action::Decode { from: keep, start: keep },
            Phase::Done => Action::Finish,
        }
    }

    /// The chores that the last answer left, in order.
    pub fn chores(&self) -> (chores: &Vec<Chore>)
        ensures
            chores@.map_values(|c: Chore| c@) == self@.chores,
    {
        &self.chores
    }

    /// The prompt.
    pub fn prompt(&self) -> (prompt: &[LlamaToken])
        ensures
            prompt@ == self@.prompt,
    {
        self.prompt.as_slice()
    }

    /// The slot, as it stands now.
    pub fn slot(&self) -> (slot: &Option<SnapshotSlot>)
        ensures
            slot_view(*slot) == self@.slot,
    {
        &self.slot
    }

    /// What the run comes to: what the retained context holds now, the slot, and the
    /// filled cache or the failure.
    pub fn finish(self) -> (end: (
        Option<SessionKv>,
        Option<SnapshotSlot>,
        Result<PrefilledPrompt, ProviderError>,
    ))
        requires
            self@.phase is Done,
        ensures
            session_view(end.0) == self@.session,
            slot_view(end.1) == self@.slot,
            match end.2 {
                Ok(filled) => self@.outcome() == Ok::<PrefilledView, ErrorView>(filled@),
                Err(e) => self@.outcome() == Err::<PrefilledView, ErrorView>(e@),
            },
    {
        let outcome = match self.failure {
            Some(e) => Err(e),
            None => {
                let effective_ctx: usize = match &self.transient {
                    Some(kv) => kv.n_ctx as usize,
                    None => self.effective_ctx,
                };
                Ok(
                    PrefilledPrompt {
                        reused_prefix_tokens: self.reused,
                        transient: self.transient,
                        effective_ctx,
                    },
                )
            },
        };
        (self.session, self.slot, outcome)
    }
}

/// What is reported of a decode.
pub open spec fn decoded_view(done: Result<(), DecodeFailure>) -> Result<(), ErrorView> {
    match done {
        Ok(_) => Ok(()),
        Err(failure) => Err(decode_error(failure)),
    }
}

/// Whether a run, whose retained context is `session`, now decodes the whole prompt, with
/// `before` done first. A context of the right window is emptied and used; any other is
/// released, and one is created. Only what was tried in a context that was there before is
/// tried once more.
pub open spec fn starts_over(
    t: PrefillView,
    session: Option<SessionView>,
    n_ctx: u32,
    before: Seq<ChoreView>,
) -> bool {
    match session {
        Some(kv) => if kv.n_ctx == n_ctx {
            &&& t.action() == (ActionView::Decode { from: 0, start: 0 })
            &&& t.phase == (Phase::FullDecode { retry: true })
            &&& t.chores == before.push(ChoreView::ClearCache)
            &&& t.session == Some(SessionView { head: None, tokens: Seq::empty(), n_ctx })
        } else {
            &&& t.action() == (ActionView::CreateContext { n_ctx })
            &&& t.phase == (Phase::FullCreate { retry: true })
            &&& t.chores == before.push(ChoreView::ReleaseContext)
            &&& t.session is None
        },
        None => {
            &&& t.action() == (ActionView::CreateContext { n_ctx })
            &&& t.phase == (Phase::FullCreate { retry: false })
            &&& t.chores == before
            &&& t.session is None
        },
    }
}

/// Whether a run has its plan set in motion, `n` being what a resume would keep. Without a
/// context of the right window, one is created for a snapshot, if there are snapshots, the
/// old one being released first, or else for the whole prompt. With one of text alone, it
/// is cut back where at least two hundred and fifty-six tokens are kept. A prompt of less
/// than half of what the context holds runs elsewhere, in a window for it and its answer.
/// Any other is decoded as a whole.
pub open spec fn is_set_in_motion(s: PrefillView, t: PrefillView, n: int) -> bool {
    let prompt = s.prompt.len();
    &&& t.failure is None && t.reused == 0 && t.transient is None
    &&& t.prompt == s.prompt && t.n_ctx == s.n_ctx && t.settings == s.settings
    &&& match s.session {
        Some(kv) => {
            let occupied = kv.tokens.len() + (match kv.head {
                Some(head) => head.n_pos as int,
                None => 0,
            });
            if kv.n_ctx != s.n_ctx {
                if t.slot is Some {
                    &&& t.action() == (ActionView::CreateContext { n_ctx: s.n_ctx })
                    &&& t.phase is SeedCreate
                    &&& t.chores == seq![ChoreView::ReleaseContext]
                    &&& t.session is None
                } else {
                    starts_over(t, s.session, s.n_ctx, Seq::empty())
                }
            } else if kv.head is None && prompt > 0 && n >= 256 {
                if n <= u32::MAX {
                    &&& t.action() == (ActionView::Trim { pos: n as u32 })
                    &&& t.chores.len() == 0
                    &&& t.session == s.session
                } else {
                    starts_over(t, s.session, s.n_ctx, Seq::empty())
                }
            } else if prompt > 0 && prompt + prompt < occupied {
                let wanted = prompt + (match s.settings.max_output_tokens {
                    Some(n) => n as int,
                    None => 2048,
                });
                &&& t.action() == (ActionView::CreateThrowaway {
                    n_ctx: if wanted < s.n_ctx {
                        wanted as u32
                    } else {
                        s.n_ctx
                    },
                })
                &&& t.chores.len() == 0
                &&& t.session == s.session
            } else {
                starts_over(t, s.session, s.n_ctx, Seq::empty())
            }
        },
        None => if t.slot is Some {
            &&& t.action() == (ActionView::CreateContext { n_ctx: s.n_ctx })
            &&& t.phase is SeedCreate
            &&& t.chores.len() == 0
            &&& t.session is None
        } else {
            starts_over(t, None, s.n_ctx, Seq::empty())
        },
    }
}

proof fn observing_sets_in_motion(s: PrefillView, n: int)
    requires
        s.prompt.len() <= usize::MAX,
        s.session matches Some(kv) ==> kv.fits() && (kv.head is None && s.prompt.len() > 0
            ==> is_kept(kv.tokens, s.prompt, n)),
        s.transient is None,
        s.failure is None,
        s.reused == 0,
        s.chores.len() == 0,
    ensures
        is_set_in_motion(s, s.observed(), n),
        s.observed().slot == (match s.slot {
            Some(slot) => Some(slot.observed(s.prompt)),
            None => None,
        }),
{
    assert(s.chores =~= Seq::empty());
    assert(s.chores.push(ChoreView::ReleaseContext) =~= seq![ChoreView::ReleaseContext]);
    if let Some(kv) = s.session {
        a_cache_offers_what_can_be_resumed(kv);
        let offer = kv.offer_to_text();
        let m = if kv.head is None {
            n
        } else {
            0
        };
        if kv.n_ctx == s.n_ctx {
            a_plan_follows_what_is_shared(Some(offer), s.prompt, s.n_ctx, m);
            if kv.head is None {
                a_resume_counts_from_the_end_of_the_head(
                    n as usize,
                    0,
                    s.prompt.len() as usize,
                    kv.tokens.len() as usize,
                );
            }
        }
    }
}

/// How a run begins. A window beyond thirty-two bits is refused, and nothing changes. A
/// slot that is not for this model at this window is let go, and the model file is looked
/// at. A slot that is has the prompt taken in, and the plan is set in motion.
pub proof fn a_run_begins_with_the_slot_of_its_model(
    session: Option<SessionView>,
    slot: Option<SlotView>,
    kept: bool,
    model_path: Seq<char>,
    settings: ModelSettings,
    prompt: Seq<LlamaToken>,
    effective_ctx: usize,
    n: int,
)
    requires
        prompt.len() <= usize::MAX,
        session matches Some(kv) ==> kv.fits() && (kv.head is None && prompt.len() > 0 ==> is_kept(
            kv.tokens,
            prompt,
            n,
        )),
    ensures
        ({
            let s = begun(session, slot, kept, model_path, settings, prompt, effective_ctx);
            &&& s.prompt == prompt && s.settings == settings && s.model_path == model_path
                && s.effective_ctx == effective_ctx
            &&& effective_ctx > u32::MAX ==> s.action() is Finish && s.failure is Some && s.session
                == session && s.slot == slot && s.chores.len() == 0
            &&& effective_ctx <= u32::MAX ==> s.n_ctx == effective_ctx && s.failure is None
            &&& effective_ctx <= u32::MAX && !(slot is Some && kept) ==> s.action() is StatModel
                && s.slot is None && s.session == session && s.chores.len() == 0
            &&& effective_ctx <= u32::MAX && slot is Some && kept ==> {
                &&& s.slot == Some(slot->0.observed(prompt))
                &&& is_set_in_motion(
                    (PrefillView { session, n_ctx: effective_ctx as u32, ..s }),
                    s,
                    n,
                )
            }
        }),
{
    let s = PrefillView {
        session,
        slot,
        key: None,
        model_path,
        settings,
        prompt,
        effective_ctx,
        n_ctx: window_of(effective_ctx),
        phase: Phase::StatModel,
        chosen: Seq::empty(),
        reused: 0,
        transient: None,
        failure: None,
        chores: Seq::empty(),
    };
    observing_sets_in_motion(s, n);
}

/// A model file that can be read leads to the index of its snapshots, under the key of the
/// file, the window and the layout; one that cannot turns snapshots off. What the index
/// lists, or nothing where it cannot be read, is the slot, which then takes the prompt in.
/// Either way the plan is set in motion.
pub proof fn the_index_is_read_before_the_plan(
    s: PrefillView,
    file: Option<FileFacts>,
    index: Option<Seq<EntryView>>,
    n: int,
)
    requires
        s.wf(),
        s.failure is None,
        s.session matches Some(kv) ==> (kv.head is None && s.prompt.len() > 0 ==> is_kept(
            kv.tokens,
            s.prompt,
            n,
        )),
    ensures
        s.phase is StatModel ==> {
            let t = s.after(EventView::ModelFile(file));
            let readable = file matches Some(facts) && !(facts.modified is Unavailable);
            &&& readable ==> t.key is Some && t.key == key_of_file(
                s.model_path,
                file,
                s.n_ctx,
                layout_of(s.settings) as u64,
            ) && t.action() == ActionView::ReadIndex(t.key->0.index_name()) && t.session
                == s.session && t.slot is None && t.chores.len() == 0
            &&& !readable ==> t.slot is None && is_set_in_motion(s, t, n)
        },
        s.phase is ReadIndex ==> {
            let t = s.after(EventView::Index(index));
            let listed = match index {
                Some(entries) => entries,
                None => Seq::empty(),
            };
            &&& t.slot == Some(
                (SlotView { key: s.key->0, index: listed, buckets: Map::empty() }).observed(
                    s.prompt,
                ),
            )
            &&& is_set_in_motion(s, t, n)
        },
{
    let f = s.fresh();
    assert(s.phase is StatModel || s.phase is ReadIndex ==> s.reused == 0 && s.transient is None);
    if s.phase is StatModel {
        a_key_holds_what_the_file_system_says(
            s.model_path,
            file,
            s.n_ctx,
            layout_of(s.settings) as u64,
        );
        observing_sets_in_motion(f, n);
    }
    if s.phase is ReadIndex {
        let slot = SlotView {
            key: s.key->0,
            index: match index {
                Some(index) => index,
                None => Seq::empty(),
            },
            buckets: Map::empty(),
        };
        observing_sets_in_motion((PrefillView { key: None, slot: Some(slot), ..f }), n);
    }
}

/// A context that was made for a snapshot is filled with the file that serves the prompt
/// best, with room for what the engine says it holds; without one, or without the context,
/// the whole prompt is decoded.
pub proof fn the_best_file_is_looked_for_and_read(s: PrefillView, capacity: u32, e: Seq<char>)
    requires
        s.wf(),
        s.phase is SeedCreate,
        s.failure is None,
    ensures
        ({
            let made = s.after(EventView::Context(Ok(capacity)));
            let there = made.after(EventView::Present(true));
            let gone = made.after(EventView::Present(false));
            let empty = SessionView { head: None, tokens: Seq::empty(), n_ctx: s.n_ctx };
            match s.slot->0.choice(s.prompt) {
                Some(file) => {
                    &&& made.action() == ActionView::Lookup(file)
                    &&& made.session == Some(empty) && made.chores.len() == 0 && made.slot == s.slot
                    &&& there.action() == (ActionView::Read { file, capacity })
                    &&& there.session == Some(empty) && there.chores.len() == 0
                    &&& gone.slot == Some(s.slot->0.forgot(file))
                    &&& starts_over(gone, Some(empty), s.n_ctx, seq![ChoreView::SaveIndex])
                },
                None => made.slot == s.slot && starts_over(
                    made,
                    Some(empty),
                    s.n_ctx,
                    Seq::empty(),
                ),
            }
        }),
        starts_over(s.after(EventView::Context(Err(e))), None, s.n_ctx, Seq::empty()),
{
    assert(Seq::<ChoreView>::empty().push(ChoreView::SaveIndex) =~= seq![ChoreView::SaveIndex]);
}

/// What is read is judged. A file that serves is recorded, the index being written where
/// that is due, and decode goes on behind it. One that cannot be read, or is foreign, is
/// deleted and no longer listed; it and one that is merely unsuitable leave nothing in the
/// sequence, and the whole prompt is decoded.
pub proof fn a_file_that_serves_is_decoded_on(
    s: PrefillView,
    tokens: Option<Seq<LlamaToken>>,
    now: u64,
)
    requires
        s.wf(),
        s.phase is SeedRead,
        s.failure is None,
    ensures
        ({
            let t = s.after(EventView::Read { tokens, now });
            let slot = s.slot->0;
            let same = tokens matches Some(held) && held.len() <= s.prompt.len() && forall|i: int|
                0 <= i < held.len() ==> held[i] == s.prompt[i];
            let held = tokens->0;
            if !same {
                &&& t.slot == Some(slot.retired(s.chosen))
                &&& starts_over(
                    t,
                    s.session,
                    s.n_ctx,
                    seq![
                        ChoreView::RemoveFile(s.chosen),
                        ChoreView::SaveIndex,
                        ChoreView::ClearSequence,
                    ],
                )
            } else if held.len() < 1024 || held.len() == s.prompt.len() {
                &&& t.slot == s.slot
                &&& starts_over(t, s.session, s.n_ctx, seq![ChoreView::ClearSequence])
            } else {
                &&& t.action() == (ActionView::Decode {
                    from: held.len() as usize,
                    start: held.len() as usize,
                })
                &&& t.session == Some(SessionView { head: None, tokens: held, n_ctx: s.n_ctx })
                &&& t.slot == Some(slot.restored(s.chosen, s.prompt, now))
                &&& t.chores == (if touch_is_due(slot.index, s.chosen, now) {
                    seq![ChoreView::SaveIndex]
                } else {
                    Seq::empty()
                })
            }
        }),
{
    if let Some(held) = tokens {
        a_file_serves_where_it_is_a_long_proper_prefix(held, s.prompt);
    }
    let none = Seq::<ChoreView>::empty();
    assert(none.push(ChoreView::SaveIndex) =~= seq![ChoreView::SaveIndex]);
    assert(none.push(ChoreView::ClearSequence) =~= seq![ChoreView::ClearSequence]);
    assert(none.push(ChoreView::RemoveFile(s.chosen)).push(ChoreView::SaveIndex).push(
        ChoreView::ClearSequence,
    ) =~= seq![
        ChoreView::RemoveFile(s.chosen),
        ChoreView::SaveIndex,
        ChoreView::ClearSequence,
    ]);
}

/// Whether a run that has the whole prompt in its retained context goes on to store what
/// is due of it, or is over: it is cut back to that first.
pub open spec fn stores_what_is_due(s: PrefillView, t: PrefillView, reused: usize) -> bool {
    &&& t.session == Some(SessionView { head: None, tokens: s.prompt, n_ctx: s.n_ctx })
    &&& t.reused == reused && t.failure is None && t.chores.len() == 0 && t.slot == s.slot
    &&& match s.slot {
        Some(slot) => match slot.writable(s.prompt) {
            Some(keep) => if keep < s.prompt.len() {
                t.action() == (ActionView::Trim { pos: keep as u32 })
            } else {
                t.action() is Finish
            },
            None => t.action() is Finish,
        },
        None => t.action() is Finish,
    }
}

/// What follows a decode. Behind a snapshot, the run is over with as many tokens from the
/// cache as the snapshot held. Behind a resume, they are those that were kept, and what is
/// due is stored; after a whole decode there are none, and what is due is stored too. What
/// fails behind a cache is done over in a new context. A whole decode that fails is done
/// over once, if its context was there before; else it is reported, and leaves no context.
pub proof fn a_decode_ends_the_run_or_is_done_over(s: PrefillView, e: ErrorView)
    requires
        s.wf(),
        s.failure is None,
        s.prompt.len() <= u32::MAX,
    ensures
        s.phase matches Phase::SeedDecode { restored } ==> {
            let t = s.after(EventView::Decoded(Ok(())));
            &&& s.action() == (ActionView::Decode { from: restored, start: restored })
            &&& s.recorded() == s.prompt.take(restored as int)
            &&& t.action() is Finish && t.reused == restored && t.failure is None && t.chores.len()
                == 0 && t.session == Some(
                SessionView { head: None, tokens: s.prompt, n_ctx: s.n_ctx },
            )
            &&& starts_over(
                s.after(EventView::Decoded(Err(e))),
                None,
                s.n_ctx,
                seq![ChoreView::ReleaseContext],
            )
        },
        s.phase matches Phase::ReuseDecode { resume, kept } ==> {
            &&& s.action() == (ActionView::Decode { from: kept, start: kept })
            &&& s.recorded() == s.prompt.take(kept as int)
            &&& stores_what_is_due(s, s.after(EventView::Decoded(Ok(()))), kept)
            &&& starts_over(
                s.after(EventView::Decoded(Err(e))),
                None,
                s.n_ctx,
                seq![ChoreView::ReleaseContext],
            )
        },
        s.phase matches Phase::FullDecode { retry } ==> {
            let t = s.after(EventView::Decoded(Err(e)));
            &&& s.action() == (ActionView::Decode { from: 0, start: 0 })
            &&& stores_what_is_due(s, s.after(EventView::Decoded(Ok(()))), 0)
            &&& t.session is None && t.chores == seq![ChoreView::ReleaseContext]
            &&& retry ==> t.action() == (ActionView::CreateContext { n_ctx: s.n_ctx }) && t.phase
                == (Phase::FullCreate { retry: false })
            &&& !retry ==> t.action() is Finish && t.failure == Some(e)
        },
        s.phase matches Phase::SnapshotRestore { keep } ==> {
            let t = s.after(EventView::Decoded(Ok(())));
            &&& s.action() == (ActionView::Decode { from: keep, start: keep })
            &&& s.recorded() == s.prompt.take(keep as int)
            &&& t.action() is Finish && t.reused == s.reused && t.failure is None && t.chores.len()
                == 0 && t.session == Some(
                SessionView { head: None, tokens: s.prompt, n_ctx: s.n_ctx },
            )
            &&& starts_over(
                s.after(EventView::Decoded(Err(e))),
                None,
                s.n_ctx,
                seq![ChoreView::ReleaseContext],
            )
        },
{
    let none = Seq::<ChoreView>::empty();
    assert(none.push(ChoreView::ReleaseContext) =~= seq![ChoreView::ReleaseContext]);
    let p = s.prompt;
    assert(p.take(p.len() as int) =~= p);
    if let Phase::ReuseDecode { resume, kept } = s.phase {
        assert(p.take(kept as int) + p.skip(kept as int) =~= p);
        shared_prefix_is_where_agreement_ends(p, p, p.len() as int);
    }
    if let Phase::FullDecode { retry } = s.phase {
        shared_prefix_is_where_agreement_ends(p, p, p.len() as int);
    }
    if let Phase::SnapshotRestore { keep } = s.phase {
        assert(p.take(keep as int) + p.skip(keep as int) =~= p);
    }
}

/// What follows a cut for a resume: the rest of the prompt is decoded behind what is kept,
/// or, where the engine declines, the whole of it.
pub proof fn a_cut_cache_is_decoded_on(s: PrefillView, resume: usize, kept: usize)
    requires
        s.wf(),
        s.failure is None,
        s.phase == (Phase::ReuseTrim { resume, kept }),
    ensures
        ({
            let t = s.after(EventView::Trimmed(true));
            &&& s.action() == (ActionView::Trim { pos: kept as u32 })
            &&& t.action() == (ActionView::Decode { from: kept, start: kept })
            &&& t.recorded() == s.prompt.take(kept as int)
            &&& t.chores.len() == 0
            &&& starts_over(
                s.after(EventView::Trimmed(false)),
                s.session,
                s.n_ctx,
                Seq::empty(),
            )
        }),
{
}

/// A throwaway context is filled with the whole prompt and handed over, the retained one
/// staying as it is; where it cannot be had or filled, it is let go, and the prompt takes
/// the retained one's place.
pub proof fn a_throwaway_context_is_filled_or_let_go(s: PrefillView, capacity: u32, e: ErrorView)
    requires
        s.wf(),
        s.failure is None,
    ensures
        s.phase matches Phase::ThrowawayCreate { window } ==> {
            let t = s.after(EventView::Context(Ok(capacity)));
            &&& s.action() == (ActionView::CreateThrowaway { n_ctx: window })
            &&& t.action() is DecodeThrowaway && t.chores.len() == 0 && t.session == s.session
            &&& t.transient == Some(
                SessionView { head: None, tokens: Seq::empty(), n_ctx: window },
            )
            &&& forall|m: Seq<char>|
                starts_over(
                    #[trigger] s.after(EventView::Context(Err(m))),
                    s.session,
                    s.n_ctx,
                    Seq::empty(),
                )
        },
        s.phase matches Phase::ThrowawayDecode { window } ==> {
            let t = s.after(EventView::Decoded(Ok(())));
            let u = s.after(EventView::Decoded(Err(e)));
            &&& t.action() is Finish && t.failure is None && t.session == s.session && t.transient
                == s.transient && t.reused == 0 && t.chores.len() == 0
            &&& t.outcome() == Ok::<PrefilledView, ErrorView>(
                PrefilledView {
                    reused_prefix_tokens: 0,
                    transient: s.transient,
                    effective_ctx: window as usize,
                },
            )
            &&& u.transient is None
            &&& starts_over(u, s.session, s.n_ctx, seq![ChoreView::ReleaseThrowaway])
        },
{
    let none = Seq::<ChoreView>::empty();
    assert(none.push(ChoreView::ReleaseThrowaway) =~= seq![ChoreView::ReleaseThrowaway]);
}

/// A context for the whole prompt is emptied and filled from the first position. Where it
/// cannot be had, that is tried again once, if a context was there before, and else
/// reported with what the engine said.
pub proof fn a_new_context_is_filled_from_the_start(
    s: PrefillView,
    retry: bool,
    capacity: u32,
    m: Seq<char>,
)
    requires
        s.wf(),
        s.failure is None,
        s.phase == (Phase::FullCreate { retry }),
    ensures
        ({
            let t = s.after(EventView::Context(Ok(capacity)));
            let u = s.after(EventView::Context(Err(m)));
            &&& t.action() == (ActionView::Decode { from: 0, start: 0 })
            &&& t.phase == (Phase::FullDecode { retry })
            &&& t.chores == seq![ChoreView::ClearCache]
            &&& t.session == Some(SessionView { head: None, tokens: Seq::empty(), n_ctx: s.n_ctx })
            &&& retry ==> starts_over(u, None, s.n_ctx, Seq::empty())
            &&& !retry ==> u.action() is Finish && u.session is None && u.chores.len() == 0
                && u.failure == Some(
                ErrorView::ExecutionError("Failed to create context: "@ + m),
            )
        }),
{
    let none = Seq::<ChoreView>::empty();
    assert(none.push(ChoreView::ClearCache) =~= seq![ChoreView::ClearCache]);
}

/// How a prefix is stored: the cache is cut back to it; the directory is made; the prefix,
/// and nothing else, is saved under the unfinished name of its file; the file gets its own
/// name, is listed, and what the cap pushes out is deleted before the index is written.
/// Whatever fails settles the shape, and an unfinished file is removed. Whatever happens,
/// the tail that was cut is decoded again; a cut that the engine declines ends the run.
pub proof fn a_prefix_is_saved_and_put_in_place(s: PrefillView, now: u64)
    requires
        s.wf(),
        s.failure is None,
    ensures
        s.phase matches Phase::SnapshotTrim { keep } ==> {
            let t = s.after(EventView::Trimmed(true));
            let u = s.after(EventView::Trimmed(false));
            &&& t.action() is MakeDir && t.recorded() == s.prompt.take(keep as int)
                && t.chores.len() == 0 && t.slot == s.slot
            &&& u.action() is Finish && u.session == s.session && u.reused == s.reused
                && u.chores.len() == 0
        },
        s.phase matches Phase::SnapshotDir { keep, shape } ==> {
            let t = s.after(EventView::Dir(true));
            let u = s.after(EventView::Dir(false));
            &&& t.action() == (ActionView::Save {
                file: s.slot->0.key.file_name(shape_of(s.prompt)->0) + ".part"@,
                tokens: s.prompt.take(keep as int),
            })
            &&& t.chores.len() == 0
            &&& u.action() == (ActionView::Decode { from: keep, start: keep })
            &&& u.slot == Some(s.slot->0.settled(shape_of(s.prompt)->0)) && u.chores.len() == 0
        },
        s.phase matches Phase::SnapshotSave { keep, shape } ==> {
            let t = s.after(EventView::Saved(true));
            let u = s.after(EventView::Saved(false));
            let file = s.slot->0.key.file_name(shape_of(s.prompt)->0);
            &&& t.action() == (ActionView::Rename { part: file + ".part"@, file })
            &&& t.chores.len() == 0
            &&& u.action() == (ActionView::Decode { from: keep, start: keep })
            &&& u.slot == Some(s.slot->0.settled(shape_of(s.prompt)->0))
            &&& u.chores == seq![ChoreView::RemoveFile(file + ".part"@)]
        },
        s.phase matches Phase::SnapshotRename { keep, shape } ==> {
            let t = s.after(EventView::Renamed { done: true, now });
            let u = s.after(EventView::Renamed { done: false, now });
            let own = shape_of(s.prompt)->0;
            let file = s.slot->0.key.file_name(own);
            let stored = s.prompt.take(keep as int);
            let gone = evicted_by_cap(s.slot->0.index_with(own, stored, now));
            &&& t.action() == (ActionView::Decode { from: keep, start: keep })
            &&& t.slot == Some(s.slot->0.published(own, stored, now))
            &&& t.chores.len() == gone.len() + 1 && t.chores.last() == ChoreView::SaveIndex
            &&& forall|i: int|
                0 <= i < gone.len() ==> #[trigger] t.chores[i] == ChoreView::RemoveFile(gone[i])
            &&& u.action() == (ActionView::Decode { from: keep, start: keep })
            &&& u.slot == Some(s.slot->0.settled(own))
            &&& u.chores == seq![ChoreView::RemoveFile(file + ".part"@)]
        },
{
    let p = s.prompt;
    if let Phase::SnapshotTrim { keep } = s.phase {
        assert(p.take(p.len() as int) =~= p);
        a_shape_is_that_of_the_opening(p, p);
        a_shape_is_that_of_the_opening(p.take(keep as int), p);
    }
    let part = s.part_name(shape_of(p)->0);
    let none = Seq::<ChoreView>::empty();
    assert(none.push(ChoreView::RemoveFile(part)) =~= seq![ChoreView::RemoveFile(part)]);
}

/// What a run that is over comes to: its error, or how much came from the cache, in the
/// window of the request, or in that of a throwaway context, which is then handed over.
pub proof fn a_run_comes_to_what_it_did(s: PrefillView)
    ensures
        s.failure matches Some(e) ==> s.outcome() == Err::<PrefilledView, ErrorView>(e),
        s.failure is None ==> (s.outcome() matches Ok(filled) && {
            &&& filled.reused_prefix_tokens == s.reused
            &&& filled.transient == s.transient
            &&& s.transient is None ==> filled.effective_ctx == s.effective_ctx
            &&& s.transient matches Some(kv) ==> filled.effective_ctx == kv.n_ctx
        }),
{
}

/// What came of an action, and what is asked, are seen as they are.
pub proof fn a_run_reads_events_as_they_come(
    file: Option<FileFacts>,
    index: SnapshotIndex,
    capacity: u32,
    m: String,
    yes: bool,
    tokens: Vec<LlamaToken>,
    now: u64,
    name: String,
    n: usize,
    chore: Chore,
)
    ensures
        Event::ModelFile(file)@ == EventView::ModelFile(file),
        Event::Index(Some(index))@ == EventView::Index(Some(index@)),
        Event::Index(None)@ == EventView::Index(None),
        Event::Context(Ok(capacity))@ == EventView::Context(Ok(capacity)),
        Event::Context(Err(m))@ == EventView::Context(Err(m@)),
        Event::Present(yes)@ == EventView::Present(yes),
        (Event::Read { tokens: Some(tokens), now })@ == (EventView::Read {
            tokens: Some(tokens@),
            now,
        }),
        (Event::Read { tokens: None, now })@ == (EventView::Read { tokens: None, now }),
        Event::Trimmed(yes)@ == EventView::Trimmed(yes),
        Event::Decoded(Ok(()))@ == EventView::Decoded(Ok(())),
        Event::Dir(yes)@ == EventView::Dir(yes),
        Event::Saved(yes)@ == EventView::Saved(yes),
        (Event::Renamed { done: yes, now })@ == (EventView::Renamed { done: yes, now }),
        Action::StatModel@ == ActionView::StatModel,
        Action::ReadIndex(name)@ == ActionView::ReadIndex(name@),
        (Action::CreateContext { n_ctx: capacity })@ == (ActionView::CreateContext {
            n_ctx: capacity,
        }),
        (Action::CreateThrowaway { n_ctx: capacity })@ == (ActionView::CreateThrowaway {
            n_ctx: capacity,
        }),
        Action::Lookup(name)@ == ActionView::Lookup(name@),
        (Action::Read { file: name, capacity })@ == (ActionView::Read { file: name@, capacity }),
        (Action::Trim { pos: capacity })@ == (ActionView::Trim { pos: capacity }),
        (Action::Decode { from: n, start: n })@ == (ActionView::Decode { from: n, start: n }),
        Action::DecodeThrowaway@ == ActionView::DecodeThrowaway,
        Action::MakeDir@ == ActionView::MakeDir,
        (Action::Save { file: name, tokens })@ == (ActionView::Save {
            file: name@,
            tokens: tokens@,
        }),
        (Action::Rename { part: name, file: m })@ == (ActionView::Rename { part: name@, file: m@ }),
        Action::Finish@ == ActionView::Finish,
        chore matches Chore::RemoveFile(f) ==> chore@ == ChoreView::RemoveFile(f@),
        chore is ReleaseContext <==> chore@ is ReleaseContext,
        chore is ReleaseThrowaway <==> chore@ is ReleaseThrowaway,
        chore is DetachContext <==> chore@ is DetachContext,
        chore is ClearCache <==> chore@ is ClearCache,
        chore is ClearSequence <==> chore@ is ClearSequence,
        chore is SaveIndex <==> chore@ is SaveIndex,
{
}

/// Whether a run has the request that another has.
pub open spec fn same_request(s: PrefillView, t: PrefillView) -> bool {
    &&& t.model_path == s.model_path
    &&& t.settings == s.settings
    &&& t.prompt == s.prompt
    &&& t.effective_ctx == s.effective_ctx
    &&& t.n_ctx == s.n_ctx
}

proof fn starting_over_keeps_the_request(s: PrefillView)
    ensures
        same_request(s, s.full()),
        s.full().slot == s.slot,
        s.full().reused == s.reused,
        s.full().transient == s.transient,
        s.full().failure == s.failure,
        same_request(s, s.released().full()),
        s.released().full().slot == s.slot,
        s.released().full().reused == s.reused,
        s.released().full().transient == s.transient,
        s.released().full().failure == s.failure,
{
}

proof fn a_plan_keeps_the_request(s: PrefillView)
    ensures
        same_request(s, s.planned()),
        s.planned().slot == s.slot,
        s.planned().reused == s.reused,
        s.planned().transient == s.transient,
        s.planned().failure == s.failure,
{
    starting_over_keeps_the_request(s);
}

/// Whatever happens, the request stays what it was. The slot changes only where the index
/// or a file is dealt with, what came from the cache only where a decode succeeds, and the
/// throwaway context only where one is dealt with. A run fails only over a context or a
/// decode for the whole prompt.
#[verifier::spinoff_prover]
#[verifier::rlimit(60)]
pub proof fn a_run_keeps_its_request(s: PrefillView, event: EventView)
    ensures
        ({
            let t = s.after(event);
            &&& same_request(s, t)
            &&& t.slot == s.slot || match s.phase {
                Phase::StatModel
                | Phase::ReadIndex
                | Phase::SeedLookup { .. }
                | Phase::SeedRead { .. }
                | Phase::SnapshotDir { .. }
                | Phase::SnapshotSave { .. }
                | Phase::SnapshotRename { .. } => true,
                _ => false,
            }
            &&& t.reused == s.reused || (event matches EventView::Decoded(done) && done is Ok)
            &&& t.transient == s.transient || s.phase is ThrowawayCreate
                || s.phase is ThrowawayDecode
            &&& t.failure == s.failure || s.phase is FullCreate || s.phase is FullDecode
        }),
{
    let f = s.fresh();
    match (s.phase, event) {
        (Phase::StatModel, EventView::ModelFile(file)) => {
            assert(s.after(event) == f.after_model_file(file));
            a_plan_keeps_the_request(
                PrefillView {
                    slot: match f.slot {
                        Some(slot) => Some(slot.observed(f.prompt)),
                        None => None,
                    },
                    ..f
                },
            );
        },
        (Phase::ReadIndex, EventView::Index(index)) => {
            let t = s.after(event);
            assert(t == f.after_index(index));
            let slot = match f.key {
                Some(key) => Some(
                    SlotView {
                        key,
                        index: match index {
                            Some(index) => index,
                            None => Seq::empty(),
                        },
                        buckets: Map::empty(),
                    },
                ),
                None => None,
            };
            a_plan_keeps_the_request(
                PrefillView {
                    key: None,
                    slot: match slot {
                        Some(slot) => Some(slot.observed(f.prompt)),
                        None => None,
                    },
                    ..f
                },
            );
        },
        _ => {},
    }
}

/// An answer to something that was not asked changes nothing.
pub proof fn a_run_ignores_what_it_did_not_ask(s: PrefillView, event: EventView)
    requires
        match event {
            EventView::ModelFile(_) => !(s.action() is StatModel),
            EventView::Index(_) => !(s.action() is ReadIndex),
            EventView::Context(_) => !(s.action() is CreateContext
                || s.action() is CreateThrowaway),
            EventView::Present(_) => !(s.action() is Lookup),
            EventView::Read { .. } => !(s.action() is Read),
            EventView::Trimmed(_) => !(s.action() is Trim),
            EventView::Decoded(_) => !(s.action() is Decode || s.action() is DecodeThrowaway),
            EventView::Dir(_) => !(s.action() is MakeDir),
            EventView::Saved(_) => !(s.action() is Save),
            EventView::Renamed { .. } => !(s.action() is Rename),
        },
    ensures
        s.after(event) == s,
{
}

} // verus!
