//! The snapshots of one loaded model: what is stored, what every prompt of a shape
//! has begun with so far, and which of the two answers an incoming prompt.
//!
//! A stored cache is a numeric form of the tokens that made it, so what may be
//! stored is only the run that every prompt of a shape shares, and only once two
//! of them have differed.

use std::collections::HashMap;

use vstd::prelude::*;
use vstd::std_specs::hash::spec_keys_iter;
use vstd::std_specs::iter::IteratorSpec;

use crate::index::{
    best_of, evicted_by_cap, kept_by_cap, may_serve,
    the_best_snapshot_is_the_longest_that_may_serve, touch_is_due, touched, without_file,
    EntryView, IndexEntry, SnapshotIndex,
};
use crate::key::{key_of_file, layout_fingerprint, layout_of, FileFacts, KeyView, SnapshotKey};
use crate::ladder::{
    a_rung_sees_only_what_it_covers, a_short_run_has_no_ladder, ladder, ladder_of, LADDER_DEPTHS,
};
use crate::paths::{may_agree, paths_agree};
use crate::settings::ModelSettings;
use crate::token::{
    begins_with, common_prefix_len, shared_prefix, shared_prefix_begins_both,
    shared_prefix_is_longest, tokens_from, LlamaToken,
};

verus! {

broadcast use vstd::std_specs::hash::group_hash_axioms;

/// The one sequence that a retained context uses.
pub const SNAPSHOT_SEQ_ID: i32 = 0;

/// The shortest prefix worth a file of its own.
pub const SNAPSHOT_MIN_TOKENS: usize = 1024;

/// The most tokens that one snapshot holds: the size of the file is how long the
/// turn that writes it waits.
pub const SNAPSHOT_MAX_TOKENS: usize = 6144;

/// The converging prefix of one prompt shape.
#[derive(Debug)]
pub struct Bucket {
    pub stable: Option<Vec<LlamaToken>>,
    /// Whether a prompt has ever shortened the prefix. The prefix of one prompt is
    /// that prompt; only a shortening shows that two different ones were seen.
    pub intersected: bool,
    /// Whether a snapshot of this shape was written or found since the slot was made,
    /// or its write was tried: the expensive write happens at most once.
    pub settled: bool,
}

/// The converging prefix of one prompt shape, as a sequence.
#[verifier::ext_equal]
pub struct BucketView {
    pub stable: Option<Seq<LlamaToken>>,
    pub intersected: bool,
    pub settled: bool,
}

impl View for Bucket {
    type V = BucketView;

    open spec fn view(&self) -> BucketView {
        BucketView {
            stable: match self.stable {
                Some(tokens) => Some(tokens@),
                None => None,
            },
            intersected: self.intersected,
            settled: self.settled,
        }
    }
}

/// A shape of which nothing has been seen.
pub open spec fn unseen() -> BucketView {
    BucketView { stable: None, intersected: false, settled: false }
}

impl BucketView {
    /// The shape after one more of its prompts.
    pub open spec fn observed(self, prompt: Seq<LlamaToken>) -> BucketView {
        match self.stable {
            None => BucketView { stable: Some(prompt), ..self },
            Some(stable) => BucketView {
                stable: Some(stable.take(shared_prefix(stable, prompt) as int)),
                intersected: self.intersected || shared_prefix(stable, prompt) < stable.len(),
                ..self
            },
        }
    }

    /// How much of the shape is worth storing, if a write is due.
    pub open spec fn writable(self) -> Option<usize> {
        let len = match self.stable {
            Some(stable) => stable.len(),
            None => 0,
        };
        if self.settled || !self.intersected || len < SNAPSHOT_MIN_TOKENS {
            None
        } else if len < SNAPSHOT_MAX_TOKENS {
            Some(len as usize)
        } else {
            Some(SNAPSHOT_MAX_TOKENS)
        }
    }
}

/// The snapshots of one loaded model.
#[derive(Debug)]
pub struct SnapshotSlot {
    pub key: SnapshotKey,
    /// What is on disk.
    pub index: SnapshotIndex,
    /// One converging prefix per prompt shape, by the hash of its first rung.
    pub buckets: HashMap<u64, Bucket>,
}

/// The snapshots of one loaded model, as plain sequences and maps.
#[verifier::ext_equal]
pub struct SlotView {
    pub key: KeyView,
    pub index: Seq<EntryView>,
    pub buckets: Map<u64, BucketView>,
}

impl View for SnapshotSlot {
    type V = SlotView;

    open spec fn view(&self) -> SlotView {
        SlotView {
            key: self.key@,
            index: self.index@,
            buckets: self.buckets@.map_values(|b: Bucket| b@),
        }
    }
}

/// The shape of a prompt: the hash of its first rung. A prompt too short for the
/// first rung has none.
pub open spec fn shape_of(prompt: Seq<LlamaToken>) -> Option<u64> {
    if ladder_of(prompt).len() > 0 {
        Some(ladder_of(prompt)[0].1)
    } else {
        None
    }
}

/// What a file that was read means for a prompt.
#[derive(Clone, Copy, Debug, PartialEq, Eq, Structural)]
pub enum LoadVerdict {
    /// The file holds this many leading tokens of the prompt, and leaves some.
    Restored(usize),
    /// The file is a prefix of the prompt, but too short, or all of it.
    Unsuitable,
    /// The prompt does not begin with what the file holds.
    Foreign,
}

/// What a file with these tokens means for a prompt.
pub open spec fn verdict(tokens: Seq<LlamaToken>, prompt: Seq<LlamaToken>) -> LoadVerdict {
    if !begins_with(prompt, tokens) {
        LoadVerdict::Foreign
    } else if tokens.len() < SNAPSHOT_MIN_TOKENS || tokens.len() >= prompt.len() {
        LoadVerdict::Unsuitable
    } else {
        LoadVerdict::Restored(tokens.len() as usize)
    }
}

impl SlotView {
    /// What has been seen of a shape.
    pub open spec fn bucket(self, shape: u64) -> BucketView {
        if self.buckets.dom().contains(shape) {
            self.buckets[shape]
        } else {
            unseen()
        }
    }

    /// The slot with one shape replaced.
    pub open spec fn with_bucket(self, shape: u64, b: BucketView) -> SlotView {
        SlotView { buckets: self.buckets.insert(shape, b), ..self }
    }

    /// The slot after one more prompt.
    pub open spec fn observed(self, prompt: Seq<LlamaToken>) -> SlotView {
        match shape_of(prompt) {
            Some(shape) => self.with_bucket(shape, self.bucket(shape).observed(prompt)),
            None => self,
        }
    }

    /// Whether the answer can be `r` where it is asked if the slot is for that model at
    /// that window: never for another window, and else as the platform compares paths.
    pub open spec fn may_match(self, model_path: Seq<char>, n_ctx: u32, r: bool) -> bool {
        if self.key.n_ctx == n_ctx {
            may_agree(self.key.model_path, model_path, r)
        } else {
            !r
        }
    }

    /// How much of the prompt's shape is worth storing, if a write is due.
    pub open spec fn writable(self, prompt: Seq<LlamaToken>) -> Option<usize> {
        match shape_of(prompt) {
            Some(shape) => self.bucket(shape).writable(),
            None => None,
        }
    }

    /// How long the converged prefix of the prompt's shape is.
    pub open spec fn stable_len(self, prompt: Seq<LlamaToken>) -> Option<nat> {
        match shape_of(prompt) {
            Some(shape) => match self.bucket(shape).stable {
                Some(stable) => Some(stable.len()),
                None => None,
            },
            None => None,
        }
    }

    /// The slot once a shape is settled: a snapshot of it was found, or its write was
    /// tried.
    pub open spec fn settled(self, shape: u64) -> SlotView {
        self.with_bucket(shape, BucketView { settled: true, ..self.bucket(shape) })
    }

    /// The file to read for a prompt.
    pub open spec fn choice(self, prompt: Seq<LlamaToken>) -> Option<Seq<char>>
        recommends
            prompt.len() <= usize::MAX,
    {
        match best_of(self.index, ladder_of(prompt), prompt.len() as usize) {
            Some(i) => Some(self.index[i].file),
            None => None,
        }
    }

    /// The slot without a file that is gone.
    pub open spec fn forgot(self, file: Seq<char>) -> SlotView {
        SlotView { index: without_file(self.index, file), ..self }
    }

    /// The slot without a file that cannot serve: every shape may write again.
    pub open spec fn retired(self, file: Seq<char>) -> SlotView {
        SlotView {
            index: without_file(self.index, file),
            buckets: self.buckets.map_values(
                |b: BucketView| BucketView { settled: false, ..b },
            ),
            ..self
        }
    }

    /// The slot once a file has served a prompt: its use is recorded, and the prompt's
    /// shape, of which a snapshot is thereby found, is settled.
    pub open spec fn restored(
        self,
        file: Seq<char>,
        prompt: Seq<LlamaToken>,
        now: u64,
    ) -> SlotView {
        (SlotView { index: touched(self.index, file, now), ..self }).settled(shape_of(prompt)->0)
    }

    /// The slot once a file was read and judged.
    pub open spec fn judged(
        self,
        file: Seq<char>,
        tokens: Seq<LlamaToken>,
        prompt: Seq<LlamaToken>,
        now: u64,
    ) -> SlotView {
        match verdict(tokens, prompt) {
            LoadVerdict::Restored(_) => self.restored(file, prompt, now),
            LoadVerdict::Unsuitable => self,
            LoadVerdict::Foreign => self.retired(file),
        }
    }

    /// The index with a new snapshot at its end, before the cap.
    pub open spec fn index_with(
        self,
        shape: u64,
        tokens: Seq<LlamaToken>,
        now: u64,
    ) -> Seq<EntryView> {
        let file = self.key.file_name(shape);
        without_file(self.index, file).push(
            EntryView {
                file,
                tokens: tokens.len() as usize,
                ladder: ladder_of(tokens),
                last_used: now,
            },
        )
    }

    /// The slot once the snapshot of a shape is in place.
    pub open spec fn published(
        self,
        shape: u64,
        tokens: Seq<LlamaToken>,
        now: u64,
    ) -> SlotView {
        (SlotView { index: kept_by_cap(self.index_with(shape, tokens, now)), ..self }).settled(
            shape,
        )
    }
}

impl SnapshotSlot {
    /// The key of the slot of a model file, or `None` where the file cannot be read:
    /// snapshots are off for the request.
    pub fn key_for_model(
        model_path: &str,
        file: Option<FileFacts>,
        n_ctx: u32,
        settings: &ModelSettings,
    ) -> (key: Option<SnapshotKey>)
        ensures
            match key {
                Some(k) => key_of_file(
                    model_path@,
                    file,
                    n_ctx,
                    layout_of(*settings) as u64,
                ) == Some(k@),
                None => key_of_file(model_path@, file, n_ctx, layout_of(*settings) as u64) is None,
            },
    {
        SnapshotKey::new(model_path, file, n_ctx, layout_fingerprint(settings))
    }

    /// A slot with what the index on disk lists, or nothing where it cannot be read.
    pub fn new(key: SnapshotKey, index: Option<SnapshotIndex>) -> (slot: SnapshotSlot)
        ensures
            slot@.key == key@,
            slot@.index == (match index {
                Some(i) => i@,
                None => Seq::empty(),
            }),
            slot@.buckets == Map::<u64, BucketView>::empty(),
    {
        let index = match index {
            Some(index) => index,
            None => SnapshotIndex::default(),
        };
        let slot = SnapshotSlot { key, index, buckets: HashMap::new() };
        assert(slot@.buckets =~= Map::<u64, BucketView>::empty());
        slot
    }

    /// Whether this slot is for that model at that window. Whether two paths are the
    /// same is for the platform to say.
    pub fn matches(&self, model_path: &str, n_ctx: u32) -> (r: bool)
        ensures
            self@.may_match(model_path@, n_ctx, r),
    {
        self.key.n_ctx == n_ctx && paths_agree(self.key.model_path.as_str(), model_path)
    }

    /// The shape of a prompt.
    pub fn bucket_of(prompt: &[LlamaToken]) -> (shape: Option<u64>)
        ensures
            shape == shape_of(prompt@),
    {
        let rungs = ladder(prompt);
        if rungs.len() > 0 {
            Some(rungs[0].1)
        } else {
            None
        }
    }

    fn take_bucket(&mut self, shape: u64) -> (b: Bucket)
        ensures
            b@ == old(self)@.bucket(shape),
            final(self)@.key == old(self)@.key,
            final(self)@.index == old(self)@.index,
            final(self)@.buckets == old(self)@.buckets.remove(shape),
    {
        let ghost before = self@.buckets;
        let b = match self.buckets.remove(&shape) {
            Some(b) => b,
            None => Bucket { stable: None, intersected: false, settled: false },
        };
        assert(self@.buckets =~= before.remove(shape));
        b
    }

    fn put_bucket(&mut self, shape: u64, b: Bucket)
        ensures
            final(self)@.key == old(self)@.key,
            final(self)@.index == old(self)@.index,
            final(self)@.buckets == old(self)@.buckets.insert(shape, b@),
    {
        let ghost before = self@.buckets;
        self.buckets.insert(shape, b);
        assert(self@.buckets =~= before.insert(shape, b@));
    }

    /// Takes a prompt into the prefix of its own shape.
    pub fn observe(&mut self, prompt: &[LlamaToken])
        ensures
            final(self)@ == old(self)@.observed(prompt@),
    {
        let shape = match SnapshotSlot::bucket_of(prompt) {
            Some(shape) => shape,
            None => {
                return;
            },
        };
        let ghost before = self@;
        let mut b = self.take_bucket(shape);
        match b.stable.take() {
            None => {
                b.stable = Some(tokens_from(prompt, 0));
                assert(prompt@.skip(0) =~= prompt@);
            },
            Some(mut stable) => {
                let shared = common_prefix_len(stable.as_slice(), prompt);
                if shared < stable.len() {
                    b.intersected = true;
                }
                let ghost whole = stable@;
                stable.truncate(shared);
                assert(stable@ =~= whole.take(shared as int));
                b.stable = Some(stable);
            },
        }
        self.put_bucket(shape, b);
        assert(self@.buckets =~= before.observed(prompt@).buckets);
    }

    /// How much of this prompt's shape is worth storing, if a write is due.
    pub fn writable_prefix(&self, prompt: &[LlamaToken]) -> (n: Option<usize>)
        ensures
            n == self@.writable(prompt@),
    {
        let shape = match SnapshotSlot::bucket_of(prompt) {
            Some(shape) => shape,
            None => {
                return None;
            },
        };
        let b = match self.buckets.get(&shape) {
            Some(b) => b,
            None => {
                return None;
            },
        };
        if b.settled || !b.intersected {
            return None;
        }
        let len: usize = match &b.stable {
            Some(stable) => stable.len(),
            None => 0,
        };
        if len < SNAPSHOT_MIN_TOKENS {
            None
        } else if len < SNAPSHOT_MAX_TOKENS {
            Some(len)
        } else {
            Some(SNAPSHOT_MAX_TOKENS)
        }
    }

    /// How long the converged prefix of this prompt's shape is.
    pub fn stable_len(&self, prompt: &[LlamaToken]) -> (n: Option<usize>)
        ensures
            self@.stable_len(prompt@) == (match n {
                Some(n) => Some(n as nat),
                None => None,
            }),
    {
        let shape = match SnapshotSlot::bucket_of(prompt) {
            Some(shape) => shape,
            None => {
                return None;
            },
        };
        match self.buckets.get(&shape) {
            Some(b) => match &b.stable {
                Some(stable) => Some(stable.len()),
                None => None,
            },
            None => None,
        }
    }

    /// Settles a shape: a snapshot of it was found, or its one write was tried.
    pub fn settle(&mut self, shape: u64)
        ensures
            final(self)@ == old(self)@.settled(shape),
    {
        let ghost before = self@;
        let mut b = self.take_bucket(shape);
        b.settled = true;
        self.put_bucket(shape, b);
        assert(self@.buckets =~= before.settled(shape).buckets);
    }

    /// The file to read for this prompt, if any may serve it.
    pub fn choose_file(&self, prompt: &[LlamaToken]) -> (file: Option<String>)
        ensures
            self@.choice(prompt@) == (match file {
                Some(f) => Some(f@),
                None => None,
            }),
    {
        let rungs = ladder(prompt);
        match self.index.best_match(rungs.as_slice(), prompt.len()) {
            Some(e) => Some(e.file.clone()),
            None => None,
        }
    }

    /// Drops an entry whose file is already gone.
    pub fn forget(&mut self, file: &String)
        ensures
            final(self)@ == old(self)@.forgot(file@),
    {
        self.index.forget_file(file);
    }

    /// Drops an entry whose file cannot serve, and lets every shape write again:
    /// whichever owned the file may now store a better one.
    pub fn retire(&mut self, file: &String)
        ensures
            final(self)@ == old(self)@.retired(file@),
    {
        let ghost before = self@;
        self.index.forget_file(file);
        let mut shapes: Vec<u64> = Vec::new();
        let ghost all = spec_keys_iter(&self.buckets).remaining().unref();
        for k in it: self.buckets.keys()
            invariant
                it.seq().unref() == all,
                shapes@ == all.take(it.index() as int),
        {
            shapes.push(*k);
            assert(shapes@ =~= all.take(it.index() + 1));
        }
        assert(shapes@ =~= all);
        assert(self.buckets@.dom() =~= before.buckets.dom());
        let mut i: usize = 0;
        while i < shapes.len()
            invariant
                i <= shapes@.len(),
                shapes@.to_set() == before.buckets.dom(),
                self@.key == before.key,
                self@.index == without_file(before.index, file@),
                self@.buckets.dom() == before.buckets.dom(),
                forall|j: int|
                    0 <= j < i ==> self@.buckets[#[trigger] shapes@[j]] == (BucketView {
                        settled: false,
                        ..before.buckets[shapes@[j]]
                    }),
                forall|k: u64| #[trigger]
                    before.buckets.dom().contains(k) ==> self@.buckets[k] == before.buckets[k]
                        || self@.buckets[k] == (BucketView { settled: false, ..before.buckets[k] }),
            decreases shapes@.len() - i,
        {
            let shape = shapes[i];
            assert(shapes@.to_set().contains(shape));
            let mut b = self.take_bucket(shape);
            b.settled = false;
            self.put_bucket(shape, b);
            assert(self@.buckets.dom() =~= before.buckets.dom());
            i += 1;
        }
        proof {
            let after = before.retired(file@);
            assert forall|k: u64| #[trigger] before.buckets.dom().contains(k) implies
                self@.buckets[k] == after.buckets[k] by {
                assert(shapes@.to_set().contains(k));
                let j = choose|j: int| 0 <= j < shapes@.len() && shapes@[j] == k;
                assert(shapes@[j] == k);
            }
            assert(self@.buckets =~= after.buckets);
        }
    }

    /// Judges what a file held for a prompt. One that serves settles the prompt's
    /// shape. Says what the file means, and whether the index is now worth writing.
    pub fn judge_file(
        &mut self,
        file: &String,
        tokens: &[LlamaToken],
        prompt: &[LlamaToken],
        now: u64,
    ) -> (r: (LoadVerdict, bool))
        ensures
            final(self)@ == old(self)@.judged(file@, tokens@, prompt@, now),
            r.0 == verdict(tokens@, prompt@),
            r.1 == (match r.0 {
                LoadVerdict::Restored(_) => touch_is_due(old(self)@.index, file@, now),
                LoadVerdict::Unsuitable => false,
                LoadVerdict::Foreign => true,
            }),
    {
        let shared = common_prefix_len(tokens, prompt);
        proof {
            shared_prefix_begins_both(tokens@, prompt@);
            if begins_with(prompt@, tokens@) {
                assert(tokens@.take(tokens@.len() as int) =~= tokens@);
                shared_prefix_is_longest(tokens@, prompt@, tokens@);
            } else if shared == tokens@.len() {
                assert(tokens@.take(shared as int) =~= tokens@);
            }
        }
        if shared < tokens.len() {
            self.retire(file);
            return (LoadVerdict::Foreign, true);
        }
        if shared < SNAPSHOT_MIN_TOKENS || shared >= prompt.len() {
            return (LoadVerdict::Unsuitable, false);
        }
        let ghost before = self@;
        let due = self.index.touch(file, now);
        proof {
            a_short_run_has_no_ladder(prompt@);
        }
        if let Some(shape) = SnapshotSlot::bucket_of(prompt) {
            self.settle(shape);
        }
        assert(self@.buckets =~= before.restored(file@, prompt@, now).buckets);
        (LoadVerdict::Restored(shared), due)
    }

    /// Lists the snapshot of a shape that is now in place, and records that its
    /// write has been tried. Gives back the files that the cap pushes out.
    pub fn publish(&mut self, shape: u64, tokens: &[LlamaToken], now: u64) -> (evicted: Vec<
        String,
    >)
        ensures
            final(self)@ == old(self)@.published(shape, tokens@, now),
            evicted@.map_values(|f: String| f@) == evicted_by_cap(
                old(self)@.index_with(shape, tokens@, now),
            ),
    {
        let ghost before = self@;
        let file = self.key.file_name(shape);
        self.index.forget_file(&file);
        let entry = IndexEntry {
            file,
            tokens: tokens.len(),
            ladder: ladder(tokens),
            last_used: now,
        };
        self.index.push(entry);
        assert(self@.index == before.index_with(shape, tokens@, now));
        let evicted = self.index.evict_beyond_cap();
        self.settle(shape);
        assert(self@.buckets =~= before.published(shape, tokens@, now).buckets);
        evicted
    }
}

/// The seconds since the epoch that the clock gives, or zero where it stands
/// before the epoch.
pub fn now_secs(since_epoch: Option<u64>) -> (now: u64)
    ensures
        now == (match since_epoch {
            Some(secs) => secs,
            None => 0,
        }),
{
    match since_epoch {
        Some(secs) => secs,
        None => 0,
    }
}

/// One thing that can happen to a slot.
pub enum SlotStep {
    /// A prompt is taken in.
    Observe(Seq<LlamaToken>),
    /// A write of a shape was tried and failed.
    Settle(u64),
    /// A file turned out to be gone.
    Forget(Seq<char>),
    /// A file turned out not to serve.
    Retire(Seq<char>),
    /// A file served a prompt.
    Restore(Seq<char>, Seq<LlamaToken>, u64),
    /// A snapshot of a shape was written.
    Publish(u64, Seq<LlamaToken>, u64),
}

impl SlotView {
    /// The slot after one thing has happened to it.
    pub open spec fn taking(self, step: SlotStep) -> SlotView {
        match step {
            SlotStep::Observe(prompt) => self.observed(prompt),
            SlotStep::Settle(shape) => self.settled(shape),
            SlotStep::Forget(file) => self.forgot(file),
            SlotStep::Retire(file) => self.retired(file),
            SlotStep::Restore(file, prompt, now) => self.restored(file, prompt, now),
            SlotStep::Publish(shape, tokens, now) => self.published(shape, tokens, now),
        }
    }
}

/// The slot after each thing in turn.
pub open spec fn slot_after(slot: SlotView, steps: Seq<SlotStep>) -> SlotView
    decreases steps.len(),
{
    if steps.len() == 0 {
        slot
    } else {
        slot_after(slot, steps.drop_last()).taking(steps.last())
    }
}

/// Whether step `i` takes in a prompt of that shape.
pub open spec fn has_shape(steps: Seq<SlotStep>, i: int, shape: u64) -> bool {
    0 <= i < steps.len() && steps[i] is Observe && shape_of(steps[i]->Observe_0) == Some(shape)
}

/// The prompt that step `i` takes in.
pub open spec fn prompt_at(steps: Seq<SlotStep>, i: int) -> Seq<LlamaToken> {
    steps[i]->Observe_0
}

proof fn only_prompts_move_a_prefix(slot: SlotView, step: SlotStep, shape: u64)
    requires
        step is Observe ==> shape_of(step->Observe_0) != Some(shape),
    ensures
        slot.taking(step).bucket(shape).stable == slot.bucket(shape).stable,
        slot.taking(step).bucket(shape).intersected == slot.bucket(shape).intersected,
{
}

/// The converged prefix is exactly what every prompt of its shape has begun with,
/// whatever else has happened to the slot: each prompt begins with it, and nothing
/// longer is common to them. And it has been shortened only where two of them
/// differed.
pub proof fn the_stable_prefix_is_what_every_prompt_shares(
    slot: SlotView,
    steps: Seq<SlotStep>,
    shape: u64,
)
    requires
        slot.buckets == Map::<u64, BucketView>::empty(),
    ensures
        ({
            let b = slot_after(slot, steps).bucket(shape);
            &&& b.stable is Some <==> exists|i: int| has_shape(steps, i, shape)
            &&& b.stable is Some ==> forall|i: int| #[trigger]
                has_shape(steps, i, shape) ==> begins_with(prompt_at(steps, i), b.stable->0)
            &&& b.stable is Some ==> forall|q: Seq<LlamaToken>|
                (forall|i: int| #[trigger]
                    has_shape(steps, i, shape) ==> begins_with(prompt_at(steps, i), q))
                    ==> #[trigger] begins_with(b.stable->0, q)
            &&& b.intersected ==> exists|i: int, j: int| #[trigger]
                has_shape(steps, i, shape) && #[trigger] has_shape(steps, j, shape) && prompt_at(
                    steps,
                    i,
                ) != prompt_at(steps, j)
        }),
    decreases steps.len(),
{
    if steps.len() == 0 {
        assert(!slot.buckets.dom().contains(shape));
        return ;
    }
    let front = steps.drop_last();
    the_stable_prefix_is_what_every_prompt_shares(slot, front, shape);
    let before = slot_after(slot, front).bucket(shape);
    let b = slot_after(slot, steps).bucket(shape);
    let n = steps.len() - 1;
    assert forall|i: int| #[trigger] has_shape(front, i, shape) implies has_shape(steps, i, shape)
        && prompt_at(front, i) == prompt_at(steps, i) by {}
    assert forall|i: int| #[trigger] has_shape(steps, i, shape) && i < n implies has_shape(
        front,
        i,
        shape,
    ) by {}
    if !has_shape(steps, n, shape) {
        only_prompts_move_a_prefix(slot_after(slot, front), steps.last(), shape);
        if b.stable is Some {
            let i = choose|i: int| has_shape(front, i, shape);
            assert(has_shape(steps, i, shape));
            assert forall|q: Seq<LlamaToken>|
                (forall|i: int| #[trigger]
                    has_shape(steps, i, shape) ==> begins_with(prompt_at(steps, i), q)) implies
                #[trigger] begins_with(b.stable->0, q) by {
                assert forall|i: int| #[trigger] has_shape(front, i, shape) implies begins_with(
                    prompt_at(front, i),
                    q,
                ) by {
                    assert(has_shape(steps, i, shape));
                }
            }
        }
        if b.intersected {
            let (i, j) = choose|i: int, j: int| #[trigger]
                has_shape(front, i, shape) && #[trigger] has_shape(front, j, shape) && prompt_at(
                    front,
                    i,
                ) != prompt_at(front, j);
            assert(has_shape(steps, i, shape) && has_shape(steps, j, shape));
        }
        return ;
    }
    let last = prompt_at(steps, n);
    assert(b == before.observed(last));
    match before.stable {
        None => {
            assert(!before.intersected) by {
                if before.intersected {
                    let (i, j) = choose|i: int, j: int| #[trigger]
                        has_shape(front, i, shape) && #[trigger] has_shape(front, j, shape)
                            && prompt_at(front, i) != prompt_at(front, j);
                    assert(has_shape(front, i, shape));
                }
            }
            assert(last.take(last.len() as int) =~= last);
        },
        Some(stable) => {
            shared_prefix_begins_both(stable, last);
            let kept = stable.take(shared_prefix(stable, last) as int);
            assert forall|i: int| #[trigger] has_shape(steps, i, shape) implies begins_with(
                prompt_at(steps, i),
                kept,
            ) by {
                if i < n {
                    assert(has_shape(front, i, shape));
                    assert(prompt_at(steps, i).take(kept.len() as int) =~= stable.take(
                        kept.len() as int,
                    ));
                }
            }
            assert forall|q: Seq<LlamaToken>|
                (forall|i: int| #[trigger]
                    has_shape(steps, i, shape) ==> begins_with(prompt_at(steps, i), q)) implies
                #[trigger] begins_with(kept, q) by {
                assert forall|i: int| #[trigger] has_shape(front, i, shape) implies begins_with(
                    prompt_at(front, i),
                    q,
                ) by {
                    assert(has_shape(steps, i, shape));
                }
                assert(begins_with(stable, q));
                assert(has_shape(steps, n, shape));
                shared_prefix_is_longest(stable, last, q);
            }
            if b.intersected && !before.intersected {
                two_prompts_differ(front, last, stable, shape);
                let k = choose|k: int| #[trigger]
                    has_shape(front, k, shape) && prompt_at(front, k) != last;
                assert(has_shape(steps, k, shape));
                assert(prompt_at(steps, k) != prompt_at(steps, n));
            } else if before.intersected {
                let (i, j) = choose|i: int, j: int| #[trigger]
                    has_shape(front, i, shape) && #[trigger] has_shape(front, j, shape)
                        && prompt_at(front, i) != prompt_at(front, j);
                assert(has_shape(steps, i, shape) && has_shape(steps, j, shape));
            }
        },
    }
}

proof fn two_prompts_differ(
    front: Seq<SlotStep>,
    last: Seq<LlamaToken>,
    stable: Seq<LlamaToken>,
    shape: u64,
)
    requires
        exists|i: int| has_shape(front, i, shape),
        forall|i: int| #[trigger]
            has_shape(front, i, shape) ==> begins_with(prompt_at(front, i), stable),
        forall|q: Seq<LlamaToken>|
            (forall|i: int| #[trigger]
                has_shape(front, i, shape) ==> begins_with(prompt_at(front, i), q))
                ==> #[trigger] begins_with(stable, q),
        shared_prefix(stable, last) < stable.len(),
    ensures
        exists|k: int| #[trigger] has_shape(front, k, shape) && prompt_at(front, k) != last,
{
    if forall|i: int| #[trigger] has_shape(front, i, shape) ==> prompt_at(front, i) == last {
        let i = choose|i: int| has_shape(front, i, shape);
        assert(prompt_at(front, i) == last);
        assert(begins_with(last, stable));
        assert(stable.take(stable.len() as int) =~= stable);
        shared_prefix_is_longest(stable, last, stable);
    }
}

/// What may be stored of a prompt is long enough, short enough, and common to
/// every prompt of its shape, of which two differed: a file holds nothing that a
/// second prompt did not hold too.
pub proof fn only_what_prompts_share_is_written(
    slot: SlotView,
    steps: Seq<SlotStep>,
    prompt: Seq<LlamaToken>,
    at: int,
)
    requires
        slot.buckets == Map::<u64, BucketView>::empty(),
        0 <= at < steps.len(),
        steps[at] == SlotStep::Observe(prompt),
        slot_after(slot, steps).writable(prompt) is Some,
    ensures
        ({
            let n = slot_after(slot, steps).writable(prompt)->0;
            let shape = shape_of(prompt)->0;
            &&& SNAPSHOT_MIN_TOKENS <= n <= SNAPSHOT_MAX_TOKENS
            &&& n <= prompt.len()
            &&& forall|i: int| #[trigger]
                has_shape(steps, i, shape) ==> begins_with(
                    prompt_at(steps, i),
                    prompt.take(n as int),
                )
            &&& exists|i: int, j: int| #[trigger]
                has_shape(steps, i, shape) && #[trigger] has_shape(steps, j, shape) && prompt_at(
                    steps,
                    i,
                ) != prompt_at(steps, j)
        }),
{
    let shape = shape_of(prompt)->0;
    let n = slot_after(slot, steps).writable(prompt)->0 as int;
    the_stable_prefix_is_what_every_prompt_shares(slot, steps, shape);
    let stable = slot_after(slot, steps).bucket(shape).stable->0;
    assert(has_shape(steps, at, shape));
    assert(begins_with(prompt, stable));
    assert(prompt.take(n) =~= stable.take(n));
    assert forall|i: int| #[trigger] has_shape(steps, i, shape) implies begins_with(
        prompt_at(steps, i),
        prompt.take(n),
    ) by {
        assert(prompt_at(steps, i).take(n) =~= stable.take(n));
    }
}

/// Prompts of one shape do not touch what is known of another.
pub proof fn shapes_do_not_disturb_each_other(
    slot: SlotView,
    prompt: Seq<LlamaToken>,
    shape: u64,
)
    requires
        shape_of(prompt) != Some(shape),
    ensures
        slot.observed(prompt).bucket(shape) == slot.bucket(shape),
{
}

/// A prefix never grows back: one more prompt leaves it, or a prefix of it.
pub proof fn a_prefix_never_grows(slot: SlotView, prompt: Seq<LlamaToken>, shape: u64)
    requires
        slot.bucket(shape).stable is Some,
    ensures
        slot.observed(prompt).bucket(shape).stable is Some,
        begins_with(
            slot.bucket(shape).stable->0,
            slot.observed(prompt).bucket(shape).stable->0,
        ),
        slot.bucket(shape).intersected ==> slot.observed(prompt).bucket(shape).intersected,
{
    let stable = slot.bucket(shape).stable->0;
    shared_prefix_begins_both(stable, prompt);
    assert(stable.take(stable.len() as int) =~= stable);
}

/// A shape that has been settled offers no other write, whatever happens, until a
/// file is retired.
pub proof fn a_settled_shape_offers_no_write(
    slot: SlotView,
    shape: u64,
    steps: Seq<SlotStep>,
    prompt: Seq<LlamaToken>,
)
    requires
        slot.bucket(shape).settled,
        forall|i: int| 0 <= i < steps.len() ==> !(#[trigger] steps[i] is Retire),
        shape_of(prompt) == Some(shape),
    ensures
        slot_after(slot, steps).writable(prompt) is None,
{
    stays_settled(slot, shape, steps);
}

/// A shape that was found on disk, or whose write was tried, is not written again,
/// whatever prompts follow, until a file is retired.
pub proof fn a_shape_found_or_written_is_not_written_again(
    slot: SlotView,
    step: SlotStep,
    steps: Seq<SlotStep>,
    prompt: Seq<LlamaToken>,
)
    requires
        shape_of(prompt) is Some,
        match step {
            SlotStep::Restore(_, served, _) => shape_of(served) == shape_of(prompt),
            SlotStep::Settle(shape) => Some(shape) == shape_of(prompt),
            SlotStep::Publish(shape, _, _) => Some(shape) == shape_of(prompt),
            _ => false,
        },
        forall|i: int| 0 <= i < steps.len() ==> !(#[trigger] steps[i] is Retire),
    ensures
        slot_after(slot.taking(step), steps).writable(prompt) is None,
{
    stays_settled(slot.taking(step), shape_of(prompt)->0, steps);
}

proof fn stays_settled(slot: SlotView, shape: u64, steps: Seq<SlotStep>)
    requires
        slot.bucket(shape).settled,
        forall|i: int| 0 <= i < steps.len() ==> !(#[trigger] steps[i] is Retire),
    ensures
        slot_after(slot, steps).bucket(shape).settled,
    decreases steps.len(),
{
    if steps.len() > 0 {
        let front = steps.drop_last();
        assert forall|i: int| 0 <= i < front.len() implies !(#[trigger] front[i] is Retire) by {
            assert(front[i] == steps[i]);
        }
        stays_settled(slot, shape, front);
        assert(!(steps[steps.len() - 1] is Retire));
    }
}

/// A prefix that reaches the first rung has the shape of its prompt.
pub proof fn a_prefix_has_the_shape_of_its_prompt(
    prefix: Seq<LlamaToken>,
    prompt: Seq<LlamaToken>,
)
    requires
        begins_with(prompt, prefix),
        prefix.len() >= 256,
    ensures
        shape_of(prefix) is Some,
        shape_of(prefix) == shape_of(prompt),
{
    assert(LADDER_DEPTHS@[0] == 256);
    assert(prefix.take(256) =~= prompt.take(256));
    a_short_run_has_no_ladder(prefix);
    a_short_run_has_no_ladder(prompt);
    a_rung_sees_only_what_it_covers(prefix, prompt, 0);
}

/// A file that is judged usable is a proper prefix of the prompt, so that there is
/// always a token left to decode.
pub proof fn a_restored_file_is_a_proper_prefix(
    tokens: Seq<LlamaToken>,
    prompt: Seq<LlamaToken>,
)
    requires
        prompt.len() <= usize::MAX,
    ensures
        verdict(tokens, prompt) matches LoadVerdict::Restored(n) ==> {
            &&& n == tokens.len()
            &&& SNAPSHOT_MIN_TOKENS <= n < prompt.len()
            &&& tokens == prompt.take(n as int)
        },
{
}

/// A prompt has a shape exactly where it has two hundred and fifty-six tokens, and prompts
/// that share these have the same.
pub proof fn a_shape_is_that_of_the_opening(a: Seq<LlamaToken>, b: Seq<LlamaToken>)
    ensures
        shape_of(a) is Some <==> a.len() >= 256,
        a.len() >= 256 && b.len() >= 256 && a.take(256) == b.take(256) ==> shape_of(a)
            == shape_of(b),
{
    a_short_run_has_no_ladder(a);
    a_short_run_has_no_ladder(b);
    assert(LADDER_DEPTHS@[0] == 256);
    if a.len() >= 256 && b.len() >= 256 && a.take(256) == b.take(256) {
        a_rung_sees_only_what_it_covers(a, b, 0);
    }
}

/// A write is due exactly where the shape is not settled, two of its prompts differed, and
/// what they share is at least a thousand and twenty-four tokens; what is written is that,
/// but not more than six thousand one hundred and forty-four.
pub proof fn a_write_is_due_where_prompts_share_enough(
    slot: SlotView,
    prompt: Seq<LlamaToken>,
)
    requires
        shape_of(prompt) is Some,
        slot.buckets.dom().contains(shape_of(prompt)->0),
        slot.buckets[shape_of(prompt)->0].stable is Some,
        slot.buckets[shape_of(prompt)->0].stable->0.len() <= usize::MAX,
    ensures
        ({
            let b = slot.buckets[shape_of(prompt)->0];
            let shared = b.stable->0.len();
            match slot.writable(prompt) {
                Some(n) => {
                    &&& !b.settled && b.intersected && shared >= 1024
                    &&& shared <= 6144 ==> n == shared
                    &&& shared > 6144 ==> n == 6144
                },
                None => b.settled || !b.intersected || shared < 1024,
            }
        }),
{
}

/// Nothing is written of a shape that was never seen, nor of a prompt without one.
pub proof fn nothing_is_written_of_what_was_never_seen(slot: SlotView, prompt: Seq<LlamaToken>)
    requires
        shape_of(prompt) is None || !slot.buckets.dom().contains(shape_of(prompt)->0),
    ensures
        slot.writable(prompt) is None,
        slot.stable_len(prompt) is None,
{
}

/// A shape counts as one in which prompts differed exactly where what its prompts share is
/// shorter than the first of them.
pub proof fn a_shape_is_shortened_where_prompts_differ(
    slot: SlotView,
    steps: Seq<SlotStep>,
    shape: u64,
    first: int,
)
    requires
        slot.buckets == Map::<u64, BucketView>::empty(),
        has_shape(steps, first, shape),
        forall|j: int| 0 <= j < first ==> !#[trigger] has_shape(steps, j, shape),
    ensures
        ({
            let b = slot_after(slot, steps).bucket(shape);
            b.stable is Some && (b.intersected <==> b.stable->0.len() < prompt_at(
                steps,
                first,
            ).len())
        }),
    decreases steps.len(),
{
    let front = steps.drop_last();
    let n = steps.len() - 1;
    let before = slot_after(slot, front).bucket(shape);
    the_stable_prefix_is_what_every_prompt_shares(slot, front, shape);
    assert forall|j: int| 0 <= j < n implies has_shape(front, j, shape) == #[trigger] has_shape(
        steps,
        j,
        shape,
    ) by {}
    if first == n {
        assert(forall|j: int| !has_shape(front, j, shape)) by {
            assert forall|j: int| !has_shape(front, j, shape) by {
                if has_shape(front, j, shape) {
                    assert(has_shape(steps, j, shape));
                }
            }
        }
        if before.intersected {
            let (i, j) = choose|i: int, j: int| #[trigger]
                has_shape(front, i, shape) && #[trigger] has_shape(front, j, shape) && prompt_at(
                    front,
                    i,
                ) != prompt_at(front, j);
            assert(has_shape(front, i, shape));
        }
    } else {
        assert(has_shape(front, first, shape));
        assert forall|j: int| 0 <= j < first implies !#[trigger] has_shape(front, j, shape) by {
            assert(!has_shape(steps, j, shape));
        }
        a_shape_is_shortened_where_prompts_differ(slot, front, shape, first);
        assert(begins_with(prompt_at(front, first), before.stable->0));
        if has_shape(steps, n, shape) {
            shared_prefix_begins_both(before.stable->0, prompt_at(steps, n));
        } else {
            only_prompts_move_a_prefix(slot_after(slot, front), steps.last(), shape);
        }
    }
}

/// Whether a step settles a shape: its write was tried, it was written, or a prompt of it
/// was served by a file.
pub open spec fn settles(step: SlotStep, shape: u64) -> bool {
    match step {
        SlotStep::Settle(s) => s == shape,
        SlotStep::Publish(s, _, _) => s == shape,
        SlotStep::Restore(_, served, _) => shape_of(served) == Some(shape),
        _ => false,
    }
}

/// Whether step `i` settled a shape and no file was retired since.
pub open spec fn settled_since(steps: Seq<SlotStep>, i: int, shape: u64) -> bool {
    &&& 0 <= i < steps.len()
    &&& settles(steps[i], shape)
    &&& forall|j: int| i < j < steps.len() ==> !(#[trigger] steps[j] is Retire)
}

/// A shape is settled exactly since something settled it, until a file is retired.
pub proof fn a_shape_is_settled_until_a_file_is_retired(
    slot: SlotView,
    steps: Seq<SlotStep>,
    shape: u64,
)
    requires
        slot.buckets == Map::<u64, BucketView>::empty(),
        forall|i: int|
            0 <= i < steps.len() && (#[trigger] steps[i]) is Restore ==> shape_of(
                steps[i]->Restore_1,
            ) is Some,
    ensures
        slot_after(slot, steps).bucket(shape).settled <==> exists|i: int|
            settled_since(steps, i, shape),
    decreases steps.len(),
{
    if steps.len() == 0 {
        assert(!slot.buckets.dom().contains(shape));
        return ;
    }
    let front = steps.drop_last();
    let n = steps.len() - 1;
    assert forall|i: int| 0 <= i < front.len() && (#[trigger] front[i]) is Restore implies shape_of(
        front[i]->Restore_1,
    ) is Some by {
        assert(front[i] == steps[i]);
    }
    a_shape_is_settled_until_a_file_is_retired(slot, front, shape);
    let last = steps[n];
    if settles(last, shape) {
        assert(settled_since(steps, n, shape));
    } else if last is Retire {
        assert forall|i: int| !settled_since(steps, i, shape) by {
            if settled_since(steps, i, shape) && i < n {
                assert(steps[n] is Retire);
            }
        }
    } else {
        let before = slot_after(slot, front);
        assert(before.taking(last).bucket(shape).settled == before.bucket(shape).settled);
        if exists|i: int| settled_since(front, i, shape) {
            let i = choose|i: int| settled_since(front, i, shape);
            assert forall|j: int| i < j < steps.len() implies !(#[trigger] steps[j] is Retire) by {
                if j < n {
                    assert(!(front[j] is Retire));
                }
            }
            assert(settled_since(steps, i, shape));
        }
        if exists|i: int| settled_since(steps, i, shape) {
            let i = choose|i: int| settled_since(steps, i, shape);
            assert(i != n);
            assert forall|j: int| i < j < front.len() implies !(#[trigger] front[j] is Retire) by {
                assert(!(steps[j] is Retire));
            }
            assert(settled_since(front, i, shape));
        }
    }
}

/// What a file means for a prompt, token by token: it is foreign exactly where the prompt
/// ends before it or differs from it somewhere; else it serves exactly where it holds a
/// thousand and twenty-four tokens and leaves the prompt at least one.
pub proof fn a_file_serves_where_it_is_a_long_proper_prefix(
    tokens: Seq<LlamaToken>,
    prompt: Seq<LlamaToken>,
)
    requires
        prompt.len() <= usize::MAX,
    ensures
        ({
            let same = tokens.len() <= prompt.len() && forall|i: int|
                0 <= i < tokens.len() ==> tokens[i] == prompt[i];
            match verdict(tokens, prompt) {
                LoadVerdict::Foreign => !same,
                LoadVerdict::Restored(n) => same && n == tokens.len() && 1024 <= tokens.len()
                    && tokens.len() < prompt.len(),
                LoadVerdict::Unsuitable => same && (tokens.len() < 1024 || tokens.len()
                    == prompt.len()),
            }
        }),
{
    if tokens.len() <= prompt.len() {
        if forall|i: int| 0 <= i < tokens.len() ==> tokens[i] == prompt[i] {
            assert(prompt.take(tokens.len() as int) =~= tokens);
        } else {
            let i = choose|i: int| 0 <= i < tokens.len() && tokens[i] != prompt[i];
            assert(prompt.take(tokens.len() as int)[i] == prompt[i]);
        }
    }
}

/// A judged file leaves its mark: one that serves is recorded as used and settles the
/// prompt's shape alone; one that is foreign is no longer listed, and every shape may be
/// written again; one that is merely unsuitable leaves everything as it was. What the
/// prompts of a shape share does not change.
pub proof fn a_judged_file_leaves_its_mark(
    slot: SlotView,
    file: Seq<char>,
    tokens: Seq<LlamaToken>,
    prompt: Seq<LlamaToken>,
    now: u64,
    shape: u64,
)
    requires
        prompt.len() <= usize::MAX,
    ensures
        ({
            let after = slot.judged(file, tokens, prompt, now);
            &&& after.key == slot.key
            &&& after.bucket(shape).stable == slot.bucket(shape).stable
            &&& after.bucket(shape).intersected == slot.bucket(shape).intersected
            &&& match verdict(tokens, prompt) {
                LoadVerdict::Restored(_) => {
                    &&& after.index == touched(slot.index, file, now)
                    &&& shape_of(prompt) == Some(shape) ==> after.bucket(shape).settled
                    &&& shape_of(prompt) != Some(shape) ==> after.bucket(shape) == slot.bucket(shape)
                },
                LoadVerdict::Unsuitable => after == slot,
                LoadVerdict::Foreign => {
                    &&& after.index == without_file(slot.index, file)
                    &&& !after.bucket(shape).settled
                },
            }
        }),
{
    a_shape_is_that_of_the_opening(prompt, prompt);
}

/// A file that is gone is no longer listed, and changes nothing else.
pub proof fn a_missing_file_is_no_longer_listed(slot: SlotView, file: Seq<char>)
    ensures
        slot.forgot(file).index == without_file(slot.index, file),
        slot.forgot(file).buckets == slot.buckets,
        slot.forgot(file).key == slot.key,
{
}

/// A snapshot that is in place is listed once, last, under the file of its shape, with the
/// number and the ladder of its tokens and the time; an older entry of the file is gone,
/// and nothing else, as long as there are no more than six. Its shape is settled, and no
/// other changes.
pub proof fn a_published_snapshot_is_listed_last(
    slot: SlotView,
    shape: u64,
    tokens: Seq<LlamaToken>,
    now: u64,
    other: u64,
)
    requires
        tokens.len() <= usize::MAX,
    ensures
        ({
            let after = slot.published(shape, tokens, now);
            let file = slot.key.file_name(shape);
            let rest = without_file(slot.index, file);
            let all = slot.index_with(shape, tokens, now);
            &&& all.len() == rest.len() + 1
            &&& all.drop_last() == rest
            &&& all.last().file == file
            &&& all.last().tokens == tokens.len()
            &&& all.last().ladder == ladder_of(tokens)
            &&& all.last().last_used == now
            &&& rest.len() < 6 ==> after.index == all
            &&& rest.len() >= 6 ==> after.index == kept_by_cap(all)
            &&& after.key == slot.key
            &&& after.bucket(shape).settled
            &&& after.bucket(shape).stable == slot.bucket(shape).stable
            &&& after.bucket(shape).intersected == slot.bucket(shape).intersected
            &&& other != shape ==> after.bucket(other) == slot.bucket(other)
        }),
{
    let all = slot.index_with(shape, tokens, now);
    assert(all.drop_last() =~= without_file(slot.index, slot.key.file_name(shape)));
}

/// The file that is read for a prompt is that of a listed snapshot which may serve it, the
/// longest of those, and the last of equals; where none may serve, no file is read.
pub proof fn the_file_that_is_read_serves_longest(slot: SlotView, prompt: Seq<LlamaToken>)
    requires
        prompt.len() <= usize::MAX,
    ensures
        ({
            let want = ladder_of(prompt);
            let n = prompt.len() as usize;
            match slot.choice(prompt) {
                Some(file) => exists|i: int|
                    #![trigger slot.index[i]]
                    0 <= i < slot.index.len() && slot.index[i].file == file && may_serve(
                        slot.index[i],
                        want,
                        n,
                    ) && forall|j: int|
                        0 <= j < slot.index.len() && may_serve(#[trigger] slot.index[j], want, n)
                            ==> slot.index[j].tokens <= slot.index[i].tokens && (j > i
                            ==> slot.index[j].tokens < slot.index[i].tokens),
                None => forall|j: int|
                    0 <= j < slot.index.len() ==> !may_serve(#[trigger] slot.index[j], want, n),
            }
        }),
{
    the_best_snapshot_is_the_longest_that_may_serve(
        slot.index,
        ladder_of(prompt),
        prompt.len() as usize,
    );
}

/// A slot is seen as it is: the same shapes, each with what is kept of it.
pub proof fn a_slot_is_seen_as_it_is(slot: SnapshotSlot, shape: u64)
    ensures
        slot@.key == slot.key@,
        slot@.index == slot.index@,
        slot@.buckets.dom().contains(shape) <==> slot.buckets@.dom().contains(shape),
        slot.buckets@.dom().contains(shape) ==> {
            let b = slot.buckets@[shape];
            let seen = slot@.buckets[shape];
            &&& seen.settled == b.settled
            &&& seen.intersected == b.intersected
            &&& seen.stable is Some <==> b.stable is Some
            &&& b.stable is Some ==> seen.stable->0 == b.stable->0@
        },
{
}

/// A slot is never that of another window, and at its own window it is that of its own
/// path.
pub proof fn a_slot_is_for_its_own_window(
    slot: SlotView,
    model_path: Seq<char>,
    n_ctx: u32,
    r: bool,
)
    requires
        slot.may_match(model_path, n_ctx, r),
    ensures
        n_ctx != slot.key.n_ctx ==> !r,
        n_ctx == slot.key.n_ctx && model_path == slot.key.model_path ==> r,
{
}

} // verus!
