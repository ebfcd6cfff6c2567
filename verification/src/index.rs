//! The index of stored snapshots, and which of them a prompt should use.

use vstd::prelude::*;

use crate::ladder::{
    a_longer_run_has_no_shallower_ladder, a_prefix_agrees_down_to_its_own_depth,
    a_short_run_has_no_ladder, agreement, ladder_agreement, ladder_of,
    ladders_agree_up_to_the_last_common_rung, own_depth, Rung,
};
use crate::token::{begins_with, LlamaToken};

verus! {

/// How many snapshots one model keeps at one window and layout.
pub const MAX_SNAPSHOTS: usize = 6;

/// How stale a use may get, in seconds, before the index is written again.
pub const TOUCH_WRITE_INTERVAL_SECS: u64 = 3600;

/// One stored snapshot.
#[derive(Clone, Debug)]
pub struct IndexEntry {
    pub file: String,
    pub tokens: usize,
    pub ladder: Vec<Rung>,
    /// Seconds since the epoch, for eviction alone.
    pub last_used: u64,
}

/// One stored snapshot, as plain sequences.
#[verifier::ext_equal]
pub struct EntryView {
    pub file: Seq<char>,
    pub tokens: usize,
    pub ladder: Seq<Rung>,
    pub last_used: u64,
}

impl View for IndexEntry {
    type V = EntryView;

    open spec fn view(&self) -> EntryView {
        EntryView {
            file: self.file@,
            tokens: self.tokens,
            ladder: self.ladder@,
            last_used: self.last_used,
        }
    }
}

/// The snapshots of one model, oldest write first.
#[derive(Clone, Debug)]
pub struct SnapshotIndex {
    pub entries: Vec<IndexEntry>,
}

impl View for SnapshotIndex {
    type V = Seq<EntryView>;

    open spec fn view(&self) -> Seq<EntryView> {
        self.entries@.map_values(|e: IndexEntry| e@)
    }
}

impl Default for SnapshotIndex {
    /// No snapshots.
    fn default() -> (index: SnapshotIndex)
        ensures
            index@ == Seq::<EntryView>::empty(),
    {
        let index = SnapshotIndex { entries: Vec::new() };
        assert(index@ =~= Seq::<EntryView>::empty());
        index
    }
}

/// Whether a snapshot may serve a prompt of `prompt_tokens` tokens with the ladder
/// `want`: it leaves something to decode, and the ladders agree at least as deep
/// as its own goes, so that it does not diverge from the prompt before it ends.
pub open spec fn may_serve(e: EntryView, want: Seq<Rung>, prompt_tokens: usize) -> bool {
    &&& e.tokens < prompt_tokens
    &&& agreement(e.ladder, want) >= own_depth(e.ladder)
    &&& own_depth(e.ladder) > 0
}

/// The snapshot that serves a prompt best: of those that may serve it, the one with
/// the most tokens, and the later one of equals.
pub open spec fn best_of(
    entries: Seq<EntryView>,
    want: Seq<Rung>,
    prompt_tokens: usize,
) -> Option<int>
    decreases entries.len(),
{
    if entries.len() == 0 {
        None
    } else {
        let rest = best_of(entries.drop_last(), want, prompt_tokens);
        let last = entries.last();
        if may_serve(last, want, prompt_tokens) && (rest is None || entries[rest->0].tokens
            <= last.tokens) {
            Some(entries.len() - 1)
        } else {
            rest
        }
    }
}

/// The best snapshot may serve, none that may serve is longer, and a snapshot is
/// offered wherever one may serve.
pub proof fn the_best_snapshot_is_the_longest_that_may_serve(
    entries: Seq<EntryView>,
    want: Seq<Rung>,
    prompt_tokens: usize,
)
    ensures
        match best_of(entries, want, prompt_tokens) {
            Some(i) => {
                &&& 0 <= i < entries.len()
                &&& may_serve(entries[i], want, prompt_tokens)
                &&& forall|j: int|
                    0 <= j < entries.len() && may_serve(
                        #[trigger] entries[j],
                        want,
                        prompt_tokens,
                    ) ==> entries[j].tokens <= entries[i].tokens && (j > i ==> entries[j].tokens
                        < entries[i].tokens)
            },
            None => forall|j: int|
                0 <= j < entries.len() ==> !may_serve(#[trigger] entries[j], want, prompt_tokens),
        },
    decreases entries.len(),
{
    if entries.len() > 0 {
        let front = entries.drop_last();
        the_best_snapshot_is_the_longest_that_may_serve(front, want, prompt_tokens);
        assert forall|j: int| 0 <= j < front.len() implies #[trigger] entries[j] == front[j] by {}
    }
}

/// A snapshot of a true prefix is never turned away: where the stored tokens are a
/// proper prefix of the prompt that reaches a rung, the snapshot may serve it.
pub proof fn a_true_prefix_may_serve(
    e: EntryView,
    stored: Seq<LlamaToken>,
    prompt: Seq<LlamaToken>,
)
    requires
        e.ladder == ladder_of(stored),
        e.tokens == stored.len(),
        stored.len() >= 256,
        begins_with(prompt, stored),
        stored.len() < prompt.len() <= usize::MAX,
    ensures
        may_serve(e, ladder_of(prompt), prompt.len() as usize),
{
    a_prefix_agrees_down_to_its_own_depth(stored, prompt);
    a_short_run_has_no_ladder(stored);
}

/// Whether an entry tells the truth about the tokens that it stands for.
pub open spec fn is_entry_of(e: EntryView, stored: Seq<LlamaToken>) -> bool {
    e.ladder == ladder_of(stored) && e.tokens == stored.len()
}

/// The best snapshot is also the one that agrees with the prompt deepest: among
/// entries that tell the truth about their tokens, none that may serve agrees with
/// the prompt deeper.
pub proof fn the_best_snapshot_agrees_deepest(
    entries: Seq<EntryView>,
    stored: Seq<Seq<LlamaToken>>,
    want: Seq<Rung>,
    prompt_tokens: usize,
    j: int,
)
    requires
        entries.len() == stored.len(),
        forall|i: int|
            0 <= i < entries.len() ==> #[trigger] is_entry_of(entries[i], stored[i]),
        0 <= j < entries.len(),
        may_serve(entries[j], want, prompt_tokens),
    ensures
        best_of(entries, want, prompt_tokens) matches Some(i) && agreement(
            entries[j].ladder,
            want,
        ) <= agreement(entries[i].ladder, want),
{
    the_best_snapshot_is_the_longest_that_may_serve(entries, want, prompt_tokens);
    let i = best_of(entries, want, prompt_tokens)->0;
    assert(is_entry_of(entries[i], stored[i]));
    assert(is_entry_of(entries[j], stored[j]));
    a_longer_run_has_no_shallower_ladder(stored[j], stored[i], want);
    a_longer_run_has_no_shallower_ladder(stored[i], stored[j], want);
}

/// The entries of every file but `file`.
pub open spec fn without_file(entries: Seq<EntryView>, file: Seq<char>) -> Seq<EntryView> {
    entries.filter(|e: EntryView| e.file != file)
}

/// The first entry of `file`, from `from` on.
pub open spec fn first_of_file(entries: Seq<EntryView>, file: Seq<char>, from: nat) -> Option<int>
    decreases entries.len() - from,
{
    if from >= entries.len() {
        None
    } else if entries[from as int].file == file {
        Some(from as int)
    } else {
        first_of_file(entries, file, from + 1)
    }
}

/// The entries after `file` was used at `now`.
pub open spec fn touched(entries: Seq<EntryView>, file: Seq<char>, now: u64) -> Seq<EntryView> {
    match first_of_file(entries, file, 0) {
        Some(i) => entries.update(i, EntryView { last_used: now, ..entries[i] }),
        None => entries,
    }
}

/// Whether the recorded use of `file` is so old that a new one is worth writing.
pub open spec fn touch_is_due(entries: Seq<EntryView>, file: Seq<char>, now: u64) -> bool {
    match first_of_file(entries, file, 0) {
        Some(i) => now - entries[i].last_used > TOUCH_WRITE_INTERVAL_SECS,
        None => false,
    }
}

/// The least recently used entry, and the earlier one of equals.
pub open spec fn oldest(entries: Seq<EntryView>) -> int
    decreases entries.len(),
{
    if entries.len() <= 1 {
        0
    } else {
        let o = oldest(entries.drop_last());
        if entries.last().last_used < entries[o].last_used {
            entries.len() - 1
        } else {
            o
        }
    }
}

/// What is left once the least recently used entries beyond the cap are gone.
pub open spec fn kept_by_cap(entries: Seq<EntryView>) -> Seq<EntryView>
    decreases entries.len(),
{
    if entries.len() <= MAX_SNAPSHOTS {
        entries
    } else {
        proof {
            the_oldest_is_an_entry(entries);
        }
        kept_by_cap(entries.remove(oldest(entries)))
    }
}

/// The files of the entries that the cap pushes out, in the order of their going.
pub open spec fn evicted_by_cap(entries: Seq<EntryView>) -> Seq<Seq<char>>
    decreases entries.len(),
{
    if entries.len() <= MAX_SNAPSHOTS {
        Seq::empty()
    } else {
        proof {
            the_oldest_is_an_entry(entries);
        }
        seq![entries[oldest(entries)].file] + evicted_by_cap(entries.remove(oldest(entries)))
    }
}

/// Whether entry `i` goes before entry `j`: it was used before it, or at the same
/// time and stands before it.
pub open spec fn goes_before(entries: Seq<EntryView>, i: int, j: int) -> bool {
    entries[i].last_used < entries[j].last_used || (entries[i].last_used == entries[j].last_used
        && i < j)
}

/// The oldest entry is one of the entries, and goes before every other.
pub proof fn the_oldest_is_an_entry(entries: Seq<EntryView>)
    requires
        entries.len() > 0,
    ensures
        0 <= oldest(entries) < entries.len(),
        forall|j: int|
            0 <= j < entries.len() && j != oldest(entries) ==> #[trigger] goes_before(
                entries,
                oldest(entries),
                j,
            ),
    decreases entries.len(),
{
    if entries.len() > 1 {
        let front = entries.drop_last();
        the_oldest_is_an_entry(front);
        let o = oldest(entries);
        assert forall|j: int| 0 <= j < entries.len() && j != o implies #[trigger] goes_before(
            entries,
            o,
            j,
        ) by {
            if j < front.len() && j != oldest(front) {
                assert(goes_before(front, oldest(front), j));
            }
        }
    }
}

/// Whether the entries of an index fall into those that are kept, at the places
/// `kept_at`, and those that go, at the places `gone_at`: every place is one or the
/// other; what is kept stays in order; what goes leaves in the order of its use, the
/// earlier of equals first; whatever goes, goes before whatever is kept; and the files
/// that go are those of its entries.
pub open spec fn falls_into(
    entries: Seq<EntryView>,
    kept: Seq<EntryView>,
    kept_at: Seq<int>,
    gone: Seq<Seq<char>>,
    gone_at: Seq<int>,
) -> bool {
    &&& kept_at.len() == kept.len()
    &&& gone_at.len() == gone.len()
    &&& kept.len() + gone.len() == entries.len()
    &&& forall|p: int|
        0 <= p < entries.len() ==> #[trigger] kept_at.contains(p) || gone_at.contains(p)
    &&& forall|i: int|
        0 <= i < kept.len() ==> 0 <= #[trigger] kept_at[i] < entries.len() && kept[i]
            == entries[kept_at[i]]
    &&& forall|i: int|
        0 <= i < gone.len() ==> 0 <= #[trigger] gone_at[i] < entries.len() && gone[i]
            == entries[gone_at[i]].file
    &&& forall|i: int, j: int|
        0 <= i < j < kept.len() ==> #[trigger] kept_at[i] < #[trigger] kept_at[j]
    &&& forall|i: int, j: int|
        0 <= i < j < gone.len() ==> goes_before(
            entries,
            #[trigger] gone_at[i],
            #[trigger] gone_at[j],
        )
    &&& forall|i: int, j: int|
        0 <= i < gone.len() && 0 <= j < kept.len() ==> goes_before(
            entries,
            #[trigger] gone_at[i],
            #[trigger] kept_at[j],
        )
}

/// The cap holds and leaves an index within it alone. Beyond it, exactly the entries
/// go that were least recently used, the earlier of equals first; the others stay in
/// their order; and the files that are given back are those of the entries that went.
pub proof fn the_cap_keeps_the_most_recently_used(entries: Seq<EntryView>)
    ensures
        kept_by_cap(entries).len() == (if entries.len() <= MAX_SNAPSHOTS {
            entries.len()
        } else {
            MAX_SNAPSHOTS as nat
        }),
        entries.len() <= MAX_SNAPSHOTS ==> kept_by_cap(entries) == entries && evicted_by_cap(
            entries,
        ).len() == 0,
        exists|kept_at: Seq<int>, gone_at: Seq<int>|
            falls_into(
                entries,
                kept_by_cap(entries),
                kept_at,
                evicted_by_cap(entries),
                gone_at,
            ),
{
    let (kept_at, gone_at) = places(entries);
    assert(falls_into(
        entries,
        kept_by_cap(entries),
        kept_at,
        evicted_by_cap(entries),
        gone_at,
    ));
}

proof fn places(entries: Seq<EntryView>) -> (at: (Seq<int>, Seq<int>))
    ensures
        falls_into(entries, kept_by_cap(entries), at.0, evicted_by_cap(entries), at.1),
        kept_by_cap(entries).len() == (if entries.len() <= MAX_SNAPSHOTS {
            entries.len()
        } else {
            MAX_SNAPSHOTS as nat
        }),
    decreases entries.len(),
{
    if entries.len() <= MAX_SNAPSHOTS {
        let all = Seq::new(entries.len(), |i: int| i);
        assert forall|p: int| 0 <= p < entries.len() implies #[trigger] all.contains(p) by {
            assert(all[p] == p);
        }
        (all, Seq::empty())
    } else {
        the_oldest_is_an_entry(entries);
        let o = oldest(entries);
        let rest = entries.remove(o);
        let (k, g) = places(rest);
        let back = |i: int|
            if i < o {
                i
            } else {
                i + 1
            };
        let kept_at = k.map_values(back);
        let gone_at = seq![o] + g.map_values(back);
        assert forall|i: int| 0 <= i < rest.len() implies #[trigger] rest[i] == entries[back(i)] by {}
        let kept = kept_by_cap(entries);
        let gone = evicted_by_cap(entries);
        assert forall|p: int| 0 <= p < entries.len() implies #[trigger] kept_at.contains(p)
            || gone_at.contains(p) by {
            if p == o {
                assert(gone_at[0] == p);
            } else {
                let q = if p < o {
                    p
                } else {
                    p - 1
                };
                if k.contains(q) {
                    let i = k.index_of(q);
                    assert(kept_at[i] == p);
                } else {
                    let i = g.index_of(q);
                    assert(gone_at[i + 1] == back(g[i]));
                }
            }
        }
        assert forall|i: int| 0 <= i < kept.len() implies 0 <= #[trigger] kept_at[i]
            < entries.len() && kept[i] == entries[kept_at[i]] && kept_at[i] != o by {
            assert(0 <= k[i] < rest.len() && kept[i] == rest[k[i]]);
        }
        assert forall|i: int| 0 <= i < gone.len() implies 0 <= #[trigger] gone_at[i]
            < entries.len() && gone[i] == entries[gone_at[i]].file && (i > 0 ==> gone_at[i]
            != o) by {
            if i > 0 {
                assert(gone[i] == evicted_by_cap(rest)[i - 1]);
                assert(0 <= g[i - 1] < rest.len());
                assert(gone_at[i] == back(g[i - 1]));
            }
        }
        assert forall|i: int, j: int| 0 <= i < j < kept.len() implies #[trigger] kept_at[i]
            < #[trigger] kept_at[j] by {
            assert(k[i] < k[j]);
        }
        assert forall|i: int, j: int| 0 <= i < j < gone.len() implies goes_before(
            entries,
            #[trigger] gone_at[i],
            #[trigger] gone_at[j],
        ) by {
            if i > 0 {
                assert(goes_before(rest, g[i - 1], g[j - 1]));
                assert(0 <= g[i - 1] < rest.len() && 0 <= g[j - 1] < rest.len());
                assert(gone_at[i] == back(g[i - 1]) && gone_at[j] == back(g[j - 1]));
            } else {
                assert(gone_at[j] != o);
            }
        }
        assert forall|i: int, j: int| 0 <= i < gone.len() && 0 <= j < kept.len() implies goes_before(
            entries,
            #[trigger] gone_at[i],
            #[trigger] kept_at[j],
        ) by {
            if i > 0 {
                assert(goes_before(rest, g[i - 1], k[j]));
                assert(0 <= g[i - 1] < rest.len() && 0 <= k[j] < rest.len());
                assert(gone_at[i] == back(g[i - 1]));
            }
        }
        (kept_at, gone_at)
    }
}

impl SnapshotIndex {
    /// The snapshot that serves a prompt best, if any may.
    pub fn best_match(&self, want: &[Rung], prompt_tokens: usize) -> (best: Option<&IndexEntry>)
        ensures
            match best_of(self@, want@, prompt_tokens) {
                Some(i) => best matches Some(e) && e@ == self@[i],
                None => best is None,
            },
    {
        let mut best: Option<usize> = None;
        let mut i: usize = 0;
        while i < self.entries.len()
            invariant
                i <= self.entries@.len(),
                best_of(self@.take(i as int), want@, prompt_tokens) == (match best {
                    Some(b) => Some(b as int),
                    None => None,
                }),
                best matches Some(b) ==> b < i,
            decreases self.entries@.len() - i,
        {
            let e = &self.entries[i];
            let ghost upto = self@.take(i + 1);
            proof {
                assert(upto.drop_last() =~= self@.take(i as int));
                assert(upto.last() == e@);
            }
            let own = if e.ladder.len() == 0 {
                0
            } else {
                e.ladder[e.ladder.len() - 1].0
            };
            let serves = e.tokens < prompt_tokens && ladder_agreement(e.ladder.as_slice(), want)
                >= own && own > 0;
            assert(serves == may_serve(e@, want@, prompt_tokens));
            let beats = match best {
                Some(b) => self.entries[b].tokens <= e.tokens,
                None => true,
            };
            if serves && beats {
                best = Some(i);
            }
            i += 1;
        }
        assert(self@.take(i as int) =~= self@);
        match best {
            Some(b) => Some(&self.entries[b]),
            None => None,
        }
    }

    /// Drops every entry of `file`.
    pub fn forget_file(&mut self, file: &String)
        ensures
            final(self)@ == without_file(old(self)@, file@),
    {
        let ghost before = self@;
        let ghost keep = |e: EntryView| e.file != file@;
        let mut kept: Vec<IndexEntry> = Vec::new();
        let mut i: usize = 0;
        while i < self.entries.len()
            invariant
                i <= self.entries@.len(),
                self@ == before,
                keep == (|e: EntryView| e.file != file@),
                kept@.map_values(|e: IndexEntry| e@) == before.take(i as int).filter(keep),
            decreases self.entries@.len() - i,
        {
            proof {
                reveal(Seq::filter);
                assert(before.take(i + 1).drop_last() =~= before.take(i as int));
                assert(before.take(i + 1).last() == self.entries@[i as int]@);
            }
            if self.entries[i].file != *file {
                let copy = copy_entry(&self.entries[i]);
                proof {
                    assert(kept@.push(copy).map_values(|e: IndexEntry| e@) =~= kept@.map_values(
                        |e: IndexEntry| e@,
                    ).push(copy@));
                }
                kept.push(copy);
            }
            i += 1;
        }
        assert(before.take(i as int) =~= before);
        self.entries = kept;
    }

    /// Records a use of `file` at `now`. Says whether that is worth writing.
    pub fn touch(&mut self, file: &String, now: u64) -> (due: bool)
        ensures
            final(self)@ == touched(old(self)@, file@, now),
            due == touch_is_due(old(self)@, file@, now),
    {
        let ghost before = self@;
        let mut i: usize = 0;
        while i < self.entries.len()
            invariant
                i <= self.entries@.len(),
                self@ == before,
                before == old(self)@,
                first_of_file(before, file@, 0) == first_of_file(before, file@, i as nat),
            decreases self.entries@.len() - i,
        {
            assert(before[i as int] == self.entries@[i as int]@);
            if self.entries[i].file == *file {
                let due = now.saturating_sub(self.entries[i].last_used) > TOUCH_WRITE_INTERVAL_SECS;
                let mut e = copy_entry(&self.entries[i]);
                e.last_used = now;
                self.entries.set(i, e);
                assert(self@ =~= touched(before, file@, now));
                return due;
            }
            i += 1;
        }
        false
    }

    /// Lets go of the least recently used entries beyond the cap. Gives back their
    /// files.
    pub fn evict_beyond_cap(&mut self) -> (evicted: Vec<String>)
        ensures
            final(self)@ == kept_by_cap(old(self)@),
            evicted@.map_values(|f: String| f@) == evicted_by_cap(old(self)@),
    {
        let ghost before = self@;
        let mut evicted: Vec<String> = Vec::new();
        assert(evicted@.map_values(|f: String| f@) =~= Seq::<Seq<char>>::empty());
        assert(Seq::<Seq<char>>::empty() + evicted_by_cap(before) =~= evicted_by_cap(before));
        while self.entries.len() > MAX_SNAPSHOTS
            invariant
                kept_by_cap(before) == kept_by_cap(self@),
                evicted@.map_values(|f: String| f@) + evicted_by_cap(self@) == evicted_by_cap(
                    before,
                ),
            decreases self.entries@.len(),
        {
            let ghost now = self@;
            let ghost gone = evicted@.map_values(|f: String| f@);
            let victim = self.oldest_entry();
            proof {
                the_oldest_is_an_entry(now);
            }
            let e = self.entries.remove(victim);
            assert(self@ =~= now.remove(victim as int));
            evicted.push(e.file);
            proof {
                assert(evicted@.map_values(|f: String| f@) =~= gone.push(now[victim as int].file));
                assert(evicted@.map_values(|f: String| f@) + evicted_by_cap(self@) =~= gone
                    + evicted_by_cap(now));
            }
        }
        assert(evicted@.map_values(|f: String| f@) =~= evicted_by_cap(before));
        evicted
    }

    fn oldest_entry(&self) -> (o: usize)
        requires
            self@.len() > 0,
        ensures
            o == oldest(self@),
    {
        let mut o: usize = 0;
        let mut i: usize = 1;
        assert(self@.take(1).len() == 1);
        while i < self.entries.len()
            invariant
                1 <= i <= self.entries@.len(),
                o < i,
                o == oldest(self@.take(i as int)),
            decreases self.entries@.len() - i,
        {
            let ghost upto = self@.take(i + 1);
            proof {
                assert(upto.drop_last() =~= self@.take(i as int));
                assert(upto.last() == self.entries@[i as int]@);
                assert(upto[o as int] == self.entries@[o as int]@);
            }
            if self.entries[i].last_used < self.entries[o].last_used {
                o = i;
            }
            i += 1;
        }
        assert(self@.take(i as int) =~= self@);
        o
    }

    /// Adds an entry at the end.
    pub fn push(&mut self, entry: IndexEntry)
        ensures
            final(self)@ == old(self)@.push(entry@),
    {
        let ghost before = self@;
        self.entries.push(entry);
        assert(self@ =~= before.push(entry@));
    }
}

fn copy_rungs(rungs: &Vec<Rung>) -> (copy: Vec<Rung>)
    ensures
        copy@ == rungs@,
{
    let mut copy: Vec<Rung> = Vec::new();
    let mut i: usize = 0;
    while i < rungs.len()
        invariant
            i <= rungs@.len(),
            copy@ == rungs@.take(i as int),
        decreases rungs@.len() - i,
    {
        copy.push((rungs[i].0, rungs[i].1));
        assert(copy@ =~= rungs@.take(i + 1));
        i += 1;
    }
    assert(copy@ =~= rungs@);
    copy
}

fn copy_entry(e: &IndexEntry) -> (copy: IndexEntry)
    ensures
        copy@ == e@,
{
    IndexEntry {
        file: e.file.clone(),
        tokens: e.tokens,
        ladder: copy_rungs(&e.ladder),
        last_used: e.last_used,
    }
}

/// A snapshot may serve exactly where it is shorter than the prompt, reaches a rung, and
/// every rung of its ladder is the prompt's rung of the same depth.
pub proof fn a_snapshot_serves_where_every_rung_of_it_agrees(
    e: EntryView,
    want: Seq<Rung>,
    prompt_tokens: usize,
)
    requires
        forall|i: int, j: int|
            0 <= i < j < e.ladder.len() ==> (#[trigger] e.ladder[i]).0 < (#[trigger] e.ladder[j]).0,
        e.ladder.len() > 0 ==> e.ladder[0].0 > 0,
    ensures
        may_serve(e, want, prompt_tokens) <==> {
            &&& e.tokens < prompt_tokens
            &&& 0 < e.ladder.len() <= want.len()
            &&& forall|i: int| 0 <= i < e.ladder.len() ==> e.ladder[i] == want[i]
        },
{
    let a = e.ladder;
    let n = first_difference(a, want, 0);
    ladders_agree_up_to_the_last_common_rung(a, want, n);
    if n < a.len() && n > 0 {
        assert(a[n - 1].0 < a[a.len() - 1].0);
    }
    if a.len() > 1 {
        assert(a[0].0 < a[a.len() - 1].0);
    }
}

proof fn first_difference(a: Seq<Rung>, b: Seq<Rung>, from: int) -> (n: int)
    requires
        0 <= from <= a.len(),
        from <= b.len(),
        forall|i: int| 0 <= i < from ==> a[i] == b[i],
    ensures
        0 <= n <= a.len(),
        n <= b.len(),
        forall|i: int| 0 <= i < n ==> a[i] == b[i],
        n == a.len() || n == b.len() || a[n] != b[n],
    decreases a.len() - from,
{
    if from < a.len() && from < b.len() && a[from] == b[from] {
        first_difference(a, b, from + 1)
    } else {
        from
    }
}

proof fn the_first_of_a_file_is_found(entries: Seq<EntryView>, file: Seq<char>, from: nat, i: int)
    requires
        from <= i <= entries.len(),
        forall|j: int| 0 <= j < i ==> (#[trigger] entries[j]).file != file,
        i < entries.len() ==> entries[i].file == file,
    ensures
        first_of_file(entries, file, from) == (if i < entries.len() {
            Some(i)
        } else {
            None
        }),
    decreases i - from,
{
    if from < i {
        the_first_of_a_file_is_found(entries, file, from + 1, i);
    }
}

/// A use of a file changes the time of its first entry and nothing else. It is worth
/// writing exactly where the time before is more than an hour back. A file without an
/// entry changes nothing, and is not worth writing.
pub proof fn a_use_changes_one_time(
    entries: Seq<EntryView>,
    file: Seq<char>,
    now: u64,
    i: int,
)
    requires
        0 <= i <= entries.len(),
        forall|j: int| 0 <= j < i ==> (#[trigger] entries[j]).file != file,
        i < entries.len() ==> entries[i].file == file,
    ensures
        ({
            let after = touched(entries, file, now);
            &&& after.len() == entries.len()
            &&& forall|j: int| 0 <= j < entries.len() && j != i ==> after[j] == entries[j]
            &&& i < entries.len() ==> {
                &&& after[i].last_used == now
                &&& after[i].file == entries[i].file
                &&& after[i].tokens == entries[i].tokens
                &&& after[i].ladder == entries[i].ladder
                &&& touch_is_due(entries, file, now) <==> entries[i].last_used + 3600 < now
            }
            &&& i == entries.len() ==> !touch_is_due(entries, file, now)
        }),
{
    the_first_of_a_file_is_found(entries, file, 0, i);
}

/// What is left without a file: entry by entry, those of the file go and all others stay,
/// in their order.
pub proof fn a_forgotten_file_leaves_the_others(
    entries: Seq<EntryView>,
    e: EntryView,
    file: Seq<char>,
)
    ensures
        without_file(Seq::empty(), file).len() == 0,
        e.file == file ==> without_file(entries.push(e), file) == without_file(entries, file),
        e.file != file ==> without_file(entries.push(e), file) == without_file(
            entries,
            file,
        ).push(e),
        forall|i: int|
            0 <= i < without_file(entries, file).len() ==> (#[trigger] without_file(
                entries,
                file,
            )[i]).file != file,
{
    reveal(Seq::filter);
    assert(entries.push(e).drop_last() =~= entries);
    others_only(entries, file);
}

proof fn others_only(entries: Seq<EntryView>, file: Seq<char>)
    ensures
        forall|i: int|
            0 <= i < without_file(entries, file).len() ==> (#[trigger] without_file(
                entries,
                file,
            )[i]).file != file,
    decreases entries.len(),
{
    reveal(Seq::filter);
    if entries.len() > 0 {
        others_only(entries.drop_last(), file);
    }
}

/// One model keeps six snapshots at one window and layout, and gives up exactly those
/// beyond.
pub proof fn an_index_keeps_six(entries: Seq<EntryView>)
    ensures
        entries.len() <= 6 ==> kept_by_cap(entries) == entries && evicted_by_cap(entries).len()
            == 0,
        entries.len() > 6 ==> kept_by_cap(entries).len() == 6 && evicted_by_cap(entries).len()
            == entries.len() - 6,
{
    the_cap_keeps_the_most_recently_used(entries);
    let (kept_at, gone_at) = places(entries);
}

/// An entry is seen as it is, and an index entry by entry.
pub proof fn an_index_is_seen_as_it_is(index: SnapshotIndex, i: int)
    requires
        0 <= i < index.entries@.len(),
    ensures
        index@.len() == index.entries@.len(),
        index@[i].file == index.entries@[i].file@,
        index@[i].tokens == index.entries@[i].tokens,
        index@[i].ladder == index.entries@[i].ladder@,
        index@[i].last_used == index.entries@[i].last_used,
{
}

} // verus!
