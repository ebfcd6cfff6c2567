//! Stop strings, kept out of the text that is streamed.

use vstd::prelude::*;
use vstd::string::*;

use crate::text::chars_of;

verus! {

/// Whether `s` ends in `tail`.
pub open spec fn ends_in(s: Seq<char>, tail: Seq<char>) -> bool {
    tail.len() <= s.len() && s.skip(s.len() - tail.len()) == tail
}

/// Whether `s` starts with `head`.
pub open spec fn starts_in(s: Seq<char>, head: Seq<char>) -> bool {
    head.len() <= s.len() && s.take(head.len() as int) == head
}

/// The length of the longest stop that `text` ends in, or zero.
pub open spec fn longest_stop(text: Seq<char>, stops: Seq<Seq<char>>) -> nat
    decreases stops.len(),
{
    if stops.len() == 0 {
        0
    } else {
        let rest = longest_stop(text, stops.drop_last());
        let last = stops.last();
        if ends_in(text, last) && last.len() > rest {
            last.len()
        } else {
            rest
        }
    }
}

/// Whether the last `k` characters of `text` are how some stop begins.
pub open spec fn may_become_stop(text: Seq<char>, stops: Seq<Seq<char>>, k: int) -> bool {
    0 <= k <= text.len() && exists|i: int|
        0 <= i < stops.len() && starts_in(#[trigger] stops[i], text.skip(text.len() - k))
}

/// The longest ending of `text`, of at most `k` characters, that may still become
/// a stop.
pub open spec fn longest_hold(text: Seq<char>, stops: Seq<Seq<char>>, k: nat) -> nat
    decreases k,
{
    if k == 0 || may_become_stop(text, stops, k as int) {
        k
    } else {
        longest_hold(text, stops, (k - 1) as nat)
    }
}

/// A trimmer: the text that it holds back, and the stops that it looks for.
pub struct TrimmerView {
    pub pending: Seq<char>,
    pub stops: Seq<Seq<char>>,
}

/// What a trimmer does with one more chunk of text.
pub struct PushView {
    /// The trimmer afterwards.
    pub next: TrimmerView,
    /// The text that is released.
    pub emit: Seq<char>,
    /// Whether a stop was reached.
    pub stopped: bool,
}

impl TrimmerView {
    /// No stop is empty.
    pub open spec fn wf(self) -> bool {
        forall|i: int| 0 <= i < self.stops.len() ==> (#[trigger] self.stops[i]).len() > 0
    }

    /// Without stops a chunk passes through. Otherwise it joins the text held back.
    /// If that now ends in a stop, everything before the longest such stop is
    /// released and the stop is dropped. If not, everything is released but the
    /// longest ending that may still become a stop.
    pub open spec fn push(self, chunk: Seq<char>) -> PushView {
        let text = self.pending + chunk;
        let cut = longest_stop(text, self.stops);
        let hold = longest_hold(text, self.stops, text.len());
        if self.stops.len() == 0 {
            PushView { next: self, emit: chunk, stopped: false }
        } else if cut > 0 {
            PushView {
                next: TrimmerView { pending: Seq::empty(), stops: self.stops },
                emit: text.take(text.len() - cut),
                stopped: true,
            }
        } else {
            PushView {
                next: TrimmerView { pending: text.skip(text.len() - hold), stops: self.stops },
                emit: text.take(text.len() - hold),
                stopped: false,
            }
        }
    }
}

proof fn longest_stop_is_a_stop(text: Seq<char>, stops: Seq<Seq<char>>)
    ensures
        longest_stop(text, stops) > 0 ==> exists|i: int|
            0 <= i < stops.len() && ends_in(text, #[trigger] stops[i]) && stops[i].len()
                == longest_stop(text, stops),
        forall|i: int|
            0 <= i < stops.len() && ends_in(text, #[trigger] stops[i]) ==> stops[i].len()
                <= longest_stop(text, stops),
        longest_stop(text, stops) <= text.len(),
    decreases stops.len(),
{
    if stops.len() > 0 {
        let rest = stops.drop_last();
        longest_stop_is_a_stop(text, rest);
        let n = longest_stop(text, stops);
        if n > 0 {
            if ends_in(text, stops.last()) && stops.last().len() > longest_stop(text, rest) {
                assert(ends_in(text, stops[stops.len() - 1]));
            } else {
                let i = choose|i: int|
                    0 <= i < rest.len() && ends_in(text, #[trigger] rest[i]) && rest[i].len()
                        == longest_stop(text, rest);
                assert(stops[i] == rest[i]);
            }
        }
        assert forall|i: int|
            0 <= i < stops.len() && ends_in(text, #[trigger] stops[i]) implies stops[i].len()
            <= n by {
            if i < rest.len() {
                assert(rest[i] == stops[i]);
            }
        }
    }
}

proof fn longest_hold_is_longest(text: Seq<char>, stops: Seq<Seq<char>>, k: nat)
    requires
        k <= text.len(),
    ensures
        longest_hold(text, stops, k) <= k,
        longest_hold(text, stops, k) == 0 || may_become_stop(
            text,
            stops,
            longest_hold(text, stops, k) as int,
        ),
        forall|j: int|
            0 <= j <= k && #[trigger] may_become_stop(text, stops, j) ==> j <= longest_hold(
                text,
                stops,
                k,
            ),
    decreases k,
{
    if !(k == 0 || may_become_stop(text, stops, k as int)) {
        longest_hold_is_longest(text, stops, (k - 1) as nat);
    }
}

/// No text is lost: what was held back and what came in is what is released and
/// what is held back now, and, where a stop was reached, that stop.
pub proof fn pushing_loses_no_text(t: TrimmerView, chunk: Seq<char>)
    requires
        t.wf(),
    ensures
        ({
            let p = t.push(chunk);
            &&& p.next.stops == t.stops
            &&& t.stops.len() > 0 && !p.stopped ==> p.emit + p.next.pending == t.pending + chunk
            &&& p.stopped ==> p.next.pending.len() == 0 && exists|i: int|
                0 <= i < t.stops.len() && p.emit + #[trigger] t.stops[i] == t.pending + chunk
            &&& p.stopped <==> exists|i: int|
                0 <= i < t.stops.len() && ends_in(t.pending + chunk, #[trigger] t.stops[i])
        }),
{
    let p = t.push(chunk);
    let text = t.pending + chunk;
    longest_stop_is_a_stop(text, t.stops);
    longest_hold_is_longest(text, t.stops, text.len());
    if p.stopped {
        let cut = longest_stop(text, t.stops);
        let i = choose|i: int|
            0 <= i < t.stops.len() && ends_in(text, #[trigger] t.stops[i]) && t.stops[i].len()
                == cut;
        assert(p.emit + t.stops[i] =~= text);
    } else if t.stops.len() > 0 {
        assert(p.emit + p.next.pending =~= text);
    }
}

/// What is held back is always how some stop begins, so no text waits for a stop
/// that can no longer come.
pub proof fn only_the_start_of_a_stop_is_held_back(t: TrimmerView, chunk: Seq<char>)
    requires
        t.wf(),
        t.stops.len() > 0,
    ensures
        t.push(chunk).next.pending.len() > 0 ==> exists|i: int|
            0 <= i < t.stops.len() && starts_in(
                #[trigger] t.stops[i],
                t.push(chunk).next.pending,
            ),
{
    let text = t.pending + chunk;
    longest_hold_is_longest(text, t.stops, text.len());
}

/// How the text is cut into chunks does not matter: as long as the first chunk
/// reaches no stop, two chunks release together, and hold back, exactly what the
/// joined chunk would. In particular a stop that is spread over chunks is found
/// and no part of it is released.
pub proof fn chunking_does_not_matter(t: TrimmerView, first: Seq<char>, second: Seq<char>)
    requires
        t.wf(),
        t.stops.len() > 0,
        !t.push(first).stopped,
    ensures
        ({
            let one = t.push(first);
            let two = one.next.push(second);
            let joined = t.push(first + second);
            &&& two.stopped == joined.stopped
            &&& one.emit + two.emit == joined.emit
            &&& two.next == joined.next
        }),
{
    let one = t.push(first);
    let stops = t.stops;
    let t1 = t.pending + first;
    let held = one.next.pending;
    let t2 = held + second;
    let full = t.pending + (first + second);
    assert(full =~= t1 + second);
    assert(full =~= one.emit + t2) by {
        pushing_loses_no_text(t, first);
        assert(one.emit + held == t1);
    }
    longest_hold_is_longest(t1, stops, t1.len());
    longest_stop_is_a_stop(t2, stops);
    longest_stop_is_a_stop(full, stops);
    // A stop that the whole text ends in, it ends in without what was released.
    assert forall|i: int| 0 <= i < stops.len() implies ends_in(full, #[trigger] stops[i])
        == ends_in(t2, stops[i]) by {
        let s = stops[i];
        if ends_in(full, s) {
            if s.len() > second.len() {
                let j = s.len() - second.len();
                assert(t1.skip(t1.len() - j) =~= s.take(j)) by {
                    assert forall|x: int| 0 <= x < j implies t1.skip(t1.len() - j)[x] == s.take(
                        j,
                    )[x] by {
                        assert(full.skip(full.len() - s.len())[x] == s[x]);
                    }
                }
                assert(starts_in(stops[i], t1.skip(t1.len() - j)));
                assert(may_become_stop(t1, stops, j));
            }
            assert(s.len() <= t2.len());
            assert(t2.skip(t2.len() - s.len()) =~= full.skip(full.len() - s.len()));
        }
        if ends_in(t2, s) {
            assert(t2.skip(t2.len() - s.len()) =~= full.skip(full.len() - s.len()));
        }
    }
    same_endings_same_longest_stop(full, t2, stops);
    // The same holds of an ending that may become one.
    let hf = longest_hold(full, stops, full.len());
    let h2 = longest_hold(t2, stops, t2.len());
    longest_hold_is_longest(full, stops, full.len());
    longest_hold_is_longest(t2, stops, t2.len());
    assert(hf <= t2.len()) by {
        if hf > second.len() {
            let j = hf - second.len();
            let i = choose|i: int|
                0 <= i < stops.len() && starts_in(#[trigger] stops[i], full.skip(full.len() - hf));
            assert(t1.skip(t1.len() - j) =~= stops[i].take(j)) by {
                assert forall|x: int| 0 <= x < j implies t1.skip(t1.len() - j)[x]
                    == stops[i].take(j)[x] by {
                    assert(full.skip(full.len() - hf)[x] == stops[i].take(hf as int)[x]);
                }
            }
            assert(starts_in(stops[i], t1.skip(t1.len() - j)));
            assert(may_become_stop(t1, stops, j));
        }
    }
    assert(full.skip(full.len() - hf) =~= t2.skip(t2.len() - hf));
    assert(full.skip(full.len() - h2) =~= t2.skip(t2.len() - h2));
    if hf > 0 {
        assert(may_become_stop(t2, stops, hf as int));
    }
    if h2 > 0 {
        assert(may_become_stop(full, stops, h2 as int));
    }
    assert(hf == h2);
    let two = one.next.push(second);
    let joined = t.push(first + second);
    assert(one.emit + two.emit =~= joined.emit);
}

proof fn same_endings_same_longest_stop(a: Seq<char>, b: Seq<char>, stops: Seq<Seq<char>>)
    requires
        forall|i: int|
            0 <= i < stops.len() ==> ends_in(a, #[trigger] stops[i]) == ends_in(b, stops[i]),
    ensures
        longest_stop(a, stops) == longest_stop(b, stops),
    decreases stops.len(),
{
    if stops.len() > 0 {
        assert forall|i: int| 0 <= i < stops.drop_last().len() implies ends_in(
            a,
            #[trigger] stops.drop_last()[i],
        ) == ends_in(b, stops.drop_last()[i]) by {
            assert(stops.drop_last()[i] == stops[i]);
        }
        same_endings_same_longest_stop(a, b, stops.drop_last());
        assert(ends_in(a, stops[stops.len() - 1]) == ends_in(b, stops[stops.len() - 1]));
    }
}

/// Keeps stop strings out of streamed text.
#[derive(Debug)]
pub struct StopSuffixTrimmer {
    pending: String,
    stops: Vec<Vec<char>>,
}

/// The characters of each string.
pub open spec fn texts(strings: Seq<String>) -> Seq<Seq<char>> {
    strings.map_values(|s: String| s@)
}

impl View for StopSuffixTrimmer {
    type V = TrimmerView;

    closed spec fn view(&self) -> TrimmerView {
        TrimmerView {
            pending: self.pending@,
            stops: self.stops@.map_values(|s: Vec<char>| s@),
        }
    }
}

fn chars_end_in(text: &Vec<char>, tail: &Vec<char>) -> (r: bool)
    ensures
        r == ends_in(text@, tail@),
{
    if tail.len() > text.len() {
        return false;
    }
    let start: usize = text.len() - tail.len();
    let mut i: usize = 0;
    while i < tail.len()
        invariant
            start == text.len() - tail.len(),
            i <= tail@.len(),
            forall|j: int| 0 <= j < i ==> text@[start + j] == tail@[j],
        decreases tail@.len() - i,
    {
        if text[start + i] != tail[i] {
            assert(text@.skip(start as int)[i as int] != tail@[i as int]);
            return false;
        }
        i += 1;
    }
    assert(text@.skip(start as int) =~= tail@);
    true
}

/// Whether `stop` starts with the characters of `text` from `from` on.
fn starts_with_rest(stop: &Vec<char>, text: &Vec<char>, from: usize) -> (r: bool)
    requires
        from <= text@.len(),
    ensures
        r == starts_in(stop@, text@.skip(from as int)),
{
    let ghost rest = text@.skip(from as int);
    let n: usize = text.len() - from;
    if n > stop.len() {
        return false;
    }
    let mut i: usize = 0;
    while i < n
        invariant
            from <= text@.len(),
            n == text.len() - from,
            n <= stop@.len(),
            i <= n,
            rest == text@.skip(from as int),
            forall|j: int| 0 <= j < i ==> stop@[j] == rest[j],
        decreases n - i,
    {
        if stop[i] != text[from + i] {
            assert(stop@.take(n as int)[i as int] != rest[i as int]);
            return false;
        }
        i += 1;
    }
    assert(stop@.take(n as int) =~= rest);
    true
}

impl StopSuffixTrimmer {
    /// A trimmer for the given stops. Empty ones are left out.
    pub fn new(stops: &[String]) -> (trimmer: StopSuffixTrimmer)
        ensures
            trimmer@.wf(),
            trimmer@.pending == Seq::<char>::empty(),
            trimmer@.stops == texts(stops@).filter(|s: Seq<char>| s.len() > 0),
    {
        let mut kept: Vec<Vec<char>> = Vec::new();
        let ghost keep = |s: Seq<char>| s.len() > 0;
        let mut i: usize = 0;
        while i < stops.len()
            invariant
                i <= stops@.len(),
                keep == (|s: Seq<char>| s.len() > 0),
                kept@.map_values(|s: Vec<char>| s@) == texts(stops@).take(i as int).filter(keep),
                forall|j: int| 0 <= j < kept@.len() ==> (#[trigger] kept@[j])@.len() > 0,
            decreases stops@.len() - i,
        {
            let chars = chars_of(stops[i].as_str());
            proof {
                reveal(Seq::filter);
                assert(texts(stops@).take(i + 1).drop_last() =~= texts(stops@).take(i as int));
                assert(texts(stops@).take(i + 1).last() == chars@);
                assert(kept@.push(chars).map_values(|s: Vec<char>| s@) =~= kept@.map_values(
                    |s: Vec<char>| s@,
                ).push(chars@));
            }
            if chars.len() > 0 {
                kept.push(chars);
            }
            i += 1;
        }
        assert(texts(stops@).take(i as int) =~= texts(stops@));
        let trimmer = StopSuffixTrimmer { pending: String::new(), stops: kept };
        assert forall|j: int| 0 <= j < trimmer@.stops.len() implies (
        #[trigger] trimmer@.stops[j]).len() > 0 by {
            assert(kept@[j]@.len() > 0);
        }
        trimmer
    }

    /// Takes in a chunk. Gives back the text to release and whether a stop was
    /// reached.
    pub fn push(&mut self, chunk: &str) -> (r: (String, bool))
        requires
            old(self)@.wf(),
        ensures
            final(self)@ == old(self)@.push(chunk@).next,
            r.0@ == old(self)@.push(chunk@).emit,
            r.1 == old(self)@.push(chunk@).stopped,
            final(self)@.wf(),
    {
        let ghost before = self@;
        let ghost model = self@.stops;
        if self.stops.len() == 0 {
            return (chunk.to_owned(), false);
        }
        self.pending.append(chunk);
        let text = chars_of(self.pending.as_str());
        assert(text@ == before.pending + chunk@);

        let mut cut: usize = 0;
        let mut i: usize = 0;
        while i < self.stops.len()
            invariant
                i <= self.stops@.len(),
                model == self.stops@.map_values(|s: Vec<char>| s@),
                cut == longest_stop(text@, model.take(i as int)),
                cut <= text@.len(),
            decreases self.stops@.len() - i,
        {
            proof {
                assert(model.take(i + 1).drop_last() =~= model.take(i as int));
                assert(model.take(i + 1).last() == self.stops@[i as int]@);
            }
            if chars_end_in(&text, &self.stops[i]) && self.stops[i].len() > cut {
                cut = self.stops[i].len();
            }
            i += 1;
        }
        assert(model.take(i as int) =~= model);
        if cut > 0 {
            let emit = self.pending.as_str().substring_char(0, text.len() - cut).to_owned();
            assert(emit@ =~= text@.take(text@.len() - cut));
            self.pending = String::new();
            assert(self@ == before.push(chunk@).next);
            return (emit, true);
        }
        let mut hold: usize = text.len();
        while hold > 0 && !self.may_become_stop(&text, hold)
            invariant
                hold <= text@.len(),
                model == self.stops@.map_values(|s: Vec<char>| s@),
                model == self@.stops,
                longest_hold(text@, model, text@.len()) == longest_hold(text@, model, hold as nat),
            decreases hold,
        {
            hold -= 1;
        }
        let keep = self.pending.as_str().substring_char(text.len() - hold, text.len()).to_owned();
        let emit = self.pending.as_str().substring_char(0, text.len() - hold).to_owned();
        assert(keep@ =~= text@.skip(text@.len() - hold));
        assert(emit@ =~= text@.take(text@.len() - hold));
        self.pending = keep;
        assert(self@ == before.push(chunk@).next);
        (emit, false)
    }

    fn may_become_stop(&self, text: &Vec<char>, k: usize) -> (r: bool)
        requires
            k <= text@.len(),
        ensures
            r == may_become_stop(text@, self@.stops, k as int),
    {
        let ghost model = self@.stops;
        let mut i: usize = 0;
        while i < self.stops.len()
            invariant
                k <= text@.len(),
                model == self.stops@.map_values(|s: Vec<char>| s@),
                forall|j: int|
                    0 <= j < i ==> !starts_in(#[trigger] model[j], text@.skip(text@.len() - k)),
            decreases self.stops@.len() - i,
        {
            if starts_with_rest(&self.stops[i], text, text.len() - k) {
                assert(starts_in(model[i as int], text@.skip(text@.len() - k)));
                return true;
            }
            i += 1;
        }
        false
    }

    /// Releases what is still held back.
    pub fn finish(&mut self) -> (rest: String)
        ensures
            rest@ == old(self)@.pending,
            final(self)@ == (TrimmerView { pending: Seq::empty(), stops: old(self)@.stops }),
    {
        let rest = self.pending.clone();
        self.pending = String::new();
        rest
    }
}

/// Without stops, text passes through as it came. With stops, everything is released that
/// comes before the longest stop that the text ends in; and where it ends in none, as much
/// is held back as may still become a stop, never less.
pub proof fn text_is_released_up_to_the_longest_stop(t: TrimmerView, chunk: Seq<char>)
    requires
        t.wf(),
    ensures
        ({
            let p = t.push(chunk);
            let text = t.pending + chunk;
            &&& t.stops.len() == 0 ==> p.emit == chunk && !p.stopped && p.next.pending == t.pending
            &&& t.stops.len() > 0 ==> p.emit.len() <= text.len() && p.emit == text.take(
                p.emit.len() as int,
            )
            &&& forall|i: int|
                0 <= i < t.stops.len() && #[trigger] t.stops[i].len() <= text.len()
                    && text.subrange(text.len() - t.stops[i].len(), text.len() as int)
                    == t.stops[i] ==> p.stopped && p.emit.len() + t.stops[i].len() <= text.len()
            &&& !p.stopped ==> forall|i: int, k: int|
                0 <= i < t.stops.len() && 0 <= k <= text.len() && k <= t.stops[i].len()
                    && #[trigger] t.stops[i].take(k) == text.skip(text.len() - k) ==> k
                    <= p.next.pending.len()
        }),
{
    let p = t.push(chunk);
    let text = t.pending + chunk;
    longest_stop_is_a_stop(text, t.stops);
    longest_hold_is_longest(text, t.stops, text.len());
    assert forall|i: int|
        0 <= i < t.stops.len() && #[trigger] t.stops[i].len() <= text.len() && text.subrange(
            text.len() - t.stops[i].len(),
            text.len() as int,
        ) == t.stops[i] implies p.stopped && p.emit.len() + t.stops[i].len() <= text.len() by {
        assert(text.skip(text.len() - t.stops[i].len()) =~= t.stops[i]);
        assert(ends_in(text, t.stops[i]));
    }
    assert forall|i: int, k: int|
        !p.stopped && 0 <= i < t.stops.len() && 0 <= k <= text.len() && k <= t.stops[i].len()
            && #[trigger] t.stops[i].take(k) == text.skip(text.len() - k) implies k
        <= p.next.pending.len() by {
        assert(starts_in(t.stops[i], text.skip(text.len() - k)));
        assert(may_become_stop(text, t.stops, k));
    }
}

/// The stops of a trimmer are the strings that it was given, character by character and in
/// their order.
pub proof fn strings_are_seen_as_their_characters(strings: Seq<String>, i: int)
    requires
        0 <= i < strings.len(),
    ensures
        texts(strings).len() == strings.len(),
        texts(strings)[i] == strings[i]@,
{
}

} // verus!
