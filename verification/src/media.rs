//! The media-bearing head of a prompt: what it holds, and when a prompt may resume
//! behind one that is cached.
//!
//! Cached media are not tokens, so they cannot be compared position by position.
//! A head is matched as a whole or not at all: the same chunks in the same order,
//! from the same image bytes in the same order.

use vstd::prelude::*;

use crate::token::LlamaToken;

verus! {

/// One span of a media-bearing head, in decode order.
#[derive(Clone, Debug, PartialEq, Eq)]
pub enum HeadChunk {
    /// Text tokens, one position each.
    Text(Vec<LlamaToken>),
    /// Media embeddings. What they contain is pinned by the source images, not by
    /// anything here.
    Media { n_tokens: usize, n_pos: usize },
}

/// One span of a media-bearing head, its text as a sequence.
#[verifier::ext_equal]
pub enum ChunkView {
    Text(Seq<LlamaToken>),
    Media { n_tokens: usize, n_pos: usize },
}

impl View for HeadChunk {
    type V = ChunkView;

    open spec fn view(&self) -> ChunkView {
        match self {
            HeadChunk::Text(tokens) => ChunkView::Text(tokens@),
            HeadChunk::Media { n_tokens, n_pos } => ChunkView::Media {
                n_tokens: *n_tokens,
                n_pos: *n_pos,
            },
        }
    }
}

impl ChunkView {
    /// The positions that a span takes.
    pub open spec fn n_pos(self) -> nat {
        match self {
            ChunkView::Text(tokens) => tokens.len(),
            ChunkView::Media { n_pos, .. } => n_pos as nat,
        }
    }
}

/// Spans, their text as sequences.
pub open spec fn chunk_views(chunks: Seq<HeadChunk>) -> Seq<ChunkView> {
    chunks.map_values(|c: HeadChunk| c@)
}

/// Images, as sequences of bytes.
pub open spec fn image_views(images: Seq<ExtractedImage>) -> Seq<Seq<u8>> {
    images.map_values(|i: ExtractedImage| i.bytes@)
}

impl HeadChunk {
    /// The positions that this span takes.
    pub fn n_pos(&self) -> (n: usize)
        ensures
            n == self@.n_pos(),
    {
        match self {
            HeadChunk::Text(tokens) => tokens.len(),
            HeadChunk::Media { n_pos, .. } => *n_pos,
        }
    }
}

/// An image of a request, as it was sent.
#[derive(Clone, Debug, PartialEq, Eq)]
pub struct ExtractedImage {
    pub bytes: Vec<u8>,
}

/// Why a prompt could not resume behind a cached head: the narrowest cause that
/// explains it.
#[derive(Clone, Copy, Debug, PartialEq, Eq, Structural)]
pub enum HeadMismatch {
    /// A different number of images.
    ImageCount,
    /// As many images, but other bytes in at least one.
    ImageBytes,
    /// The same images, with other text around them.
    ChunkShape,
    /// The same spans, yet another number of positions: a head whose recorded size
    /// disagrees with its own spans.
    Positions,
}

/// The leading part of a cache that carries media.
#[derive(Clone, Debug)]
pub struct MediaHead {
    pub chunks: Vec<HeadChunk>,
    /// The positions that the head takes, from the first.
    pub n_pos: usize,
    /// The bytes of every image that made the head. They are compared as they are:
    /// a hash that collides would answer about another picture.
    pub images: Vec<Vec<u8>>,
}

/// The leading part of a cache that carries media, as sequences.
#[verifier::ext_equal]
pub struct HeadView {
    pub chunks: Seq<ChunkView>,
    pub n_pos: usize,
    pub images: Seq<Seq<u8>>,
}

impl View for MediaHead {
    type V = HeadView;

    open spec fn view(&self) -> HeadView {
        HeadView {
            chunks: chunk_views(self.chunks@),
            n_pos: self.n_pos,
            images: self.images@.map_values(|i: Vec<u8>| i@),
        }
    }
}

impl HeadView {
    /// What keeps a prompt with these spans and images from resuming behind this
    /// head.
    pub open spec fn mismatch(
        self,
        n_pos: usize,
        chunks: Seq<ChunkView>,
        images: Seq<Seq<u8>>,
    ) -> Option<HeadMismatch> {
        if self.images.len() != images.len() {
            Some(HeadMismatch::ImageCount)
        } else if self.images != images {
            Some(HeadMismatch::ImageBytes)
        } else if self.chunks != chunks {
            Some(HeadMismatch::ChunkShape)
        } else if self.n_pos != n_pos {
            Some(HeadMismatch::Positions)
        } else {
            None
        }
    }
}

/// A head matches a prompt exactly where the prompt reproduces all of it.
pub proof fn a_head_matches_only_its_own_reproduction(
    head: HeadView,
    n_pos: usize,
    chunks: Seq<ChunkView>,
    images: Seq<Seq<u8>>,
)
    ensures
        head.mismatch(n_pos, chunks, images) is None <==> head == (HeadView {
            chunks,
            n_pos,
            images,
        }),
{
}

/// Whether two runs of bytes are the same.
fn bytes_equal(a: &Vec<u8>, b: &Vec<u8>) -> (r: bool)
    ensures
        r == (a@ == b@),
{
    if a.len() != b.len() {
        return false;
    }
    let mut i: usize = 0;
    while i < a.len()
        invariant
            i <= a@.len(),
            a@.len() == b@.len(),
            forall|j: int| 0 <= j < i ==> a@[j] == b@[j],
        decreases a@.len() - i,
    {
        if a[i] != b[i] {
            return false;
        }
        i += 1;
    }
    assert(a@ =~= b@);
    true
}

fn tokens_equal(a: &Vec<LlamaToken>, b: &Vec<LlamaToken>) -> (r: bool)
    ensures
        r == (a@ == b@),
{
    if a.len() != b.len() {
        return false;
    }
    let mut i: usize = 0;
    while i < a.len()
        invariant
            i <= a@.len(),
            a@.len() == b@.len(),
            forall|j: int| 0 <= j < i ==> a@[j] == b@[j],
        decreases a@.len() - i,
    {
        if a[i] != b[i] {
            return false;
        }
        i += 1;
    }
    assert(a@ =~= b@);
    true
}

fn chunk_equal(a: &HeadChunk, b: &HeadChunk) -> (r: bool)
    ensures
        r == (a@ == b@),
{
    match (a, b) {
        (HeadChunk::Text(s), HeadChunk::Text(t)) => tokens_equal(s, t),
        (
            HeadChunk::Media { n_tokens, n_pos },
            HeadChunk::Media { n_tokens: other_tokens, n_pos: other_pos },
        ) => *n_tokens == *other_tokens && *n_pos == *other_pos,
        _ => false,
    }
}

fn chunks_equal(a: &Vec<HeadChunk>, b: &[HeadChunk]) -> (r: bool)
    ensures
        r == (chunk_views(a@) == chunk_views(b@)),
{
    let ghost va = chunk_views(a@);
    let ghost vb = chunk_views(b@);
    if a.len() != b.len() {
        assert(va.len() != vb.len());
        return false;
    }
    let mut i: usize = 0;
    while i < a.len()
        invariant
            i <= a@.len(),
            a@.len() == b@.len(),
            va == chunk_views(a@),
            vb == chunk_views(b@),
            forall|j: int| 0 <= j < i ==> va[j] == vb[j],
        decreases a@.len() - i,
    {
        if !chunk_equal(&a[i], &b[i]) {
            assert(va[i as int] != vb[i as int]);
            return false;
        }
        i += 1;
    }
    assert(va =~= vb);
    true
}

impl MediaHead {
    /// What keeps a prompt with these spans and images from resuming behind this
    /// head, or `None` where it reproduces the head exactly.
    pub fn mismatch(
        &self,
        n_pos: usize,
        chunks: &[HeadChunk],
        images: &[ExtractedImage],
    ) -> (reason: Option<HeadMismatch>)
        ensures
            reason == self@.mismatch(n_pos, chunk_views(chunks@), image_views(images@)),
    {
        let ghost mine = self@.images;
        let ghost theirs = image_views(images@);
        if self.images.len() != images.len() {
            assert(mine.len() != theirs.len());
            return Some(HeadMismatch::ImageCount);
        }
        let mut i: usize = 0;
        while i < images.len()
            invariant
                i <= images@.len(),
                self.images@.len() == images@.len(),
                mine == self@.images,
                theirs == image_views(images@),
                forall|j: int| 0 <= j < i ==> mine[j] == theirs[j],
            decreases images@.len() - i,
        {
            if !bytes_equal(&self.images[i], &images[i].bytes) {
                assert(mine[i as int] != theirs[i as int]);
                return Some(HeadMismatch::ImageBytes);
            }
            i += 1;
        }
        assert(mine =~= theirs);
        if !chunks_equal(&self.chunks, chunks) {
            return Some(HeadMismatch::ChunkShape);
        }
        if self.n_pos != n_pos {
            return Some(HeadMismatch::Positions);
        }
        None
    }
}

/// The kinds of span that a multimodal prompt is cut into.
#[derive(Clone, Copy, Debug, PartialEq, Eq, Structural)]
pub enum ChunkKind {
    Text,
    Image,
    Audio,
}

/// What the tokenizer says of one span.
#[derive(Clone, Debug)]
pub struct ChunkFacts {
    pub kind: ChunkKind,
    pub n_tokens: usize,
    pub n_positions: i32,
    /// The tokens of a text span, where it gives them.
    pub text_tokens: Option<Vec<LlamaToken>>,
}

/// The tokens of a span, none where it gives none.
pub open spec fn tokens_of(facts: ChunkFacts) -> Seq<LlamaToken> {
    match facts.text_tokens {
        Some(tokens) => tokens@,
        None => Seq::empty(),
    }
}

/// The span that these facts describe, if it can be modelled position for
/// position: text with one position for each of its tokens, or an image.
pub open spec fn described(facts: ChunkFacts) -> Option<ChunkView> {
    if facts.n_positions < 0 {
        None
    } else {
        match facts.kind {
            ChunkKind::Text => if tokens_of(facts).len() == facts.n_tokens && facts.n_positions
                == facts.n_tokens {
                Some(ChunkView::Text(tokens_of(facts)))
            } else {
                None
            },
            ChunkKind::Image => Some(
                ChunkView::Media {
                    n_tokens: facts.n_tokens,
                    n_pos: facts.n_positions as usize,
                },
            ),
            ChunkKind::Audio => None,
        }
    }
}

fn copy_tokens(tokens: &Vec<LlamaToken>) -> (copy: Vec<LlamaToken>)
    ensures
        copy@ == tokens@,
{
    let mut copy: Vec<LlamaToken> = Vec::new();
    let mut i: usize = 0;
    while i < tokens.len()
        invariant
            i <= tokens@.len(),
            copy@ == tokens@.take(i as int),
        decreases tokens@.len() - i,
    {
        copy.push(tokens[i]);
        assert(copy@ =~= tokens@.take(i + 1));
        i += 1;
    }
    assert(copy@ =~= tokens@);
    copy
}

/// Describes one span, or refuses it. A span that is refused makes the whole cache
/// ineligible for reuse.
pub fn describe_chunk(facts: &ChunkFacts) -> (chunk: Option<HeadChunk>)
    ensures
        described(*facts) == (match chunk {
            Some(c) => Some(c@),
            None => None,
        }),
{
    if facts.n_positions < 0 {
        return None;
    }
    let n_pos: usize = facts.n_positions as usize;
    match facts.kind {
        ChunkKind::Text => {
            let tokens = match &facts.text_tokens {
                Some(tokens) => copy_tokens(tokens),
                None => Vec::new(),
            };
            if tokens.len() != facts.n_tokens || n_pos != facts.n_tokens {
                return None;
            }
            Some(HeadChunk::Text(tokens))
        },
        ChunkKind::Image => Some(HeadChunk::Media { n_tokens: facts.n_tokens, n_pos }),
        ChunkKind::Audio => None,
    }
}

/// The description of one span that the tokenizer may not even give.
pub open spec fn described_if_given(facts: Option<ChunkFacts>) -> Option<ChunkView> {
    match facts {
        Some(facts) => described(facts),
        None => None,
    }
}

/// The description of every span, if each has one.
pub open spec fn all_described(chunks: Seq<Option<ChunkFacts>>) -> Option<Seq<ChunkView>>
    decreases chunks.len(),
{
    if chunks.len() == 0 {
        Some(Seq::empty())
    } else {
        match (all_described(chunks.drop_last()), described_if_given(chunks.last())) {
            (Some(before), Some(c)) => Some(before.push(c)),
            _ => None,
        }
    }
}

proof fn one_refusal_refuses_all(chunks: Seq<Option<ChunkFacts>>, n: int)
    requires
        0 <= n <= chunks.len(),
        all_described(chunks.take(n)) is None,
    ensures
        all_described(chunks) is None,
    decreases chunks.len() - n,
{
    if n < chunks.len() {
        assert(chunks.take(n + 1).drop_last() =~= chunks.take(n));
        one_refusal_refuses_all(chunks, n + 1);
    } else {
        assert(chunks.take(n) =~= chunks);
    }
}

/// Describes every span, or refuses the list.
pub fn read_chunks(chunks: &[Option<ChunkFacts>]) -> (list: Option<Vec<HeadChunk>>)
    ensures
        all_described(chunks@) == (match list {
            Some(v) => Some(chunk_views(v@)),
            None => None,
        }),
{
    let mut list: Vec<HeadChunk> = Vec::new();
    let mut i: usize = 0;
    assert(chunk_views(list@) =~= Seq::<ChunkView>::empty());
    assert(chunks@.take(0).len() == 0);
    while i < chunks.len()
        invariant
            i <= chunks@.len(),
            all_described(chunks@.take(i as int)) == Some(chunk_views(list@)),
        decreases chunks@.len() - i,
    {
        let ghost before = chunk_views(list@);
        proof {
            assert(chunks@.take(i + 1).drop_last() =~= chunks@.take(i as int));
            assert(chunks@.take(i + 1).last() == chunks@[i as int]);
        }
        let chunk = match &chunks[i] {
            Some(facts) => describe_chunk(facts),
            None => None,
        };
        match chunk {
            Some(c) => {
                list.push(c);
                assert(chunk_views(list@) =~= before.push(c@));
            },
            None => {
                proof {
                    one_refusal_refuses_all(chunks@, i + 1);
                }
                return None;
            },
        }
        i += 1;
    }
    assert(chunks@.take(i as int) =~= chunks@);
    Some(list)
}

/// The positions that spans take together.
pub open spec fn positions(chunks: Seq<ChunkView>) -> nat
    decreases chunks.len(),
{
    if chunks.len() == 0 {
        0
    } else {
        positions(chunks.drop_last()) + chunks.last().n_pos()
    }
}

/// The tokens of spans that are text, one after the other.
pub open spec fn text_tokens(chunks: Seq<ChunkView>) -> Seq<LlamaToken>
    decreases chunks.len(),
{
    if chunks.len() == 0 {
        Seq::empty()
    } else {
        text_tokens(chunks.drop_last()) + (match chunks.last() {
            ChunkView::Text(tokens) => tokens,
            ChunkView::Media { .. } => Seq::empty(),
        })
    }
}

/// How many spans there are up to and with the last one that is media; zero where
/// none is.
pub open spec fn head_len(chunks: Seq<ChunkView>) -> nat
    decreases chunks.len(),
{
    if chunks.len() == 0 {
        0
    } else if chunks.last() is Media {
        chunks.len()
    } else {
        head_len(chunks.drop_last())
    }
}

/// A prompt's spans, cut behind the last one that is media.
#[derive(Debug)]
pub struct SplitChunks {
    pub head: Vec<HeadChunk>,
    /// The positions that the head takes. The tail starts here.
    pub head_pos: usize,
    /// The tokens behind the head, one position each.
    pub tail: Vec<LlamaToken>,
}

/// A prompt's spans, cut behind the last one that is media, as sequences.
#[verifier::ext_equal]
pub struct SplitView {
    pub head: Seq<ChunkView>,
    pub head_pos: nat,
    pub tail: Seq<LlamaToken>,
}

impl View for SplitChunks {
    type V = SplitView;

    open spec fn view(&self) -> SplitView {
        SplitView { head: chunk_views(self.head@), head_pos: self.head_pos as nat, tail: self.tail@ }
    }
}

/// Spans cut behind the last one that is media, if one is.
pub open spec fn split(chunks: Seq<ChunkView>) -> Option<SplitView> {
    let n = head_len(chunks) as int;
    if n == 0 {
        None
    } else {
        Some(
            SplitView {
                head: chunks.take(n),
                head_pos: positions(chunks.take(n)),
                tail: text_tokens(chunks.skip(n)),
            },
        )
    }
}

proof fn head_ends_at_the_last_media(chunks: Seq<ChunkView>)
    ensures
        head_len(chunks) <= chunks.len(),
        head_len(chunks) > 0 ==> chunks[head_len(chunks) - 1] is Media,
        forall|i: int| head_len(chunks) <= i < chunks.len() ==> #[trigger] chunks[i] is Text,
    decreases chunks.len(),
{
    if chunks.len() > 0 && !(chunks.last() is Media) {
        head_ends_at_the_last_media(chunks.drop_last());
        assert forall|i: int| head_len(chunks) <= i < chunks.len() implies #[trigger] chunks[
            i
        ] is Text by {
            if i < chunks.len() - 1 {
                assert(chunks.drop_last()[i] == chunks[i]);
            }
        }
    }
}

proof fn text_takes_one_position_each(chunks: Seq<ChunkView>)
    requires
        forall|i: int| 0 <= i < chunks.len() ==> #[trigger] chunks[i] is Text,
    ensures
        positions(chunks) == text_tokens(chunks).len(),
    decreases chunks.len(),
{
    if chunks.len() > 0 {
        let front = chunks.drop_last();
        assert forall|i: int| 0 <= i < front.len() implies #[trigger] front[i] is Text by {
            assert(front[i] == chunks[i]);
        }
        text_takes_one_position_each(front);
        assert(chunks[chunks.len() - 1] is Text);
    }
}

proof fn positions_add_up(a: Seq<ChunkView>, b: Seq<ChunkView>)
    ensures
        positions(a + b) == positions(a) + positions(b),
    decreases b.len(),
{
    if b.len() == 0 {
        assert(a + b =~= a);
    } else {
        positions_add_up(a, b.drop_last());
        assert((a + b).drop_last() =~= a + b.drop_last());
    }
}

/// A cut loses nothing: the head ends in media, nothing behind it is media, and
/// head and tail together take the positions of the prompt, the tail one for each
/// of its tokens.
pub proof fn a_cut_keeps_every_position(chunks: Seq<ChunkView>)
    ensures
        split(chunks) is None <==> forall|i: int|
            0 <= i < chunks.len() ==> #[trigger] chunks[i] is Text,
        split(chunks) matches Some(s) ==> {
            &&& 0 < s.head.len() <= chunks.len()
            &&& s.head.last() is Media
            &&& s.head == chunks.take(s.head.len() as int)
            &&& s.head_pos + s.tail.len() == positions(chunks)
            &&& forall|i: int| s.head.len() <= i < chunks.len() ==> #[trigger] chunks[i] is Text
        },
{
    head_ends_at_the_last_media(chunks);
    let n = head_len(chunks) as int;
    let head = chunks.take(n);
    let rest = chunks.skip(n);
    if n > 0 {
        assert(chunks[n - 1] is Media);
        assert(head + rest =~= chunks);
        positions_add_up(head, rest);
        assert forall|i: int| 0 <= i < rest.len() implies #[trigger] rest[i] is Text by {
            assert(rest[i] == chunks[n + i]);
        }
        text_takes_one_position_each(rest);
    }
}

/// Whether the positions of these spans can be counted.
pub fn positions_fit(chunks: &[HeadChunk]) -> (r: bool)
    ensures
        r == (positions(chunk_views(chunks@)) <= usize::MAX),
{
    let ghost all = chunk_views(chunks@);
    let mut sum: usize = 0;
    let mut i: usize = 0;
    assert(all.take(0).len() == 0);
    while i < chunks.len()
        invariant
            i <= chunks@.len(),
            all == chunk_views(chunks@),
            sum == positions(all.take(i as int)),
        decreases chunks@.len() - i,
    {
        proof {
            assert(all.take(i + 1).drop_last() =~= all.take(i as int));
            assert(all.take(i + 1).last() == chunks@[i as int]@);
            positions_add_up(all.take(i + 1), all.skip(i + 1));
            assert(all.take(i + 1) + all.skip(i + 1) =~= all);
        }
        match sum.checked_add(chunks[i].n_pos()) {
            Some(s) => {
                sum = s;
            },
            None => {
                return false;
            },
        }
        i += 1;
    }
    assert(all.take(i as int) =~= all);
    true
}

/// Cuts described spans behind the last one that is media, or refuses a list
/// without media. What follows that span is plain text, so it can be decoded at
/// explicit positions without the vision encoder.
pub fn split_at_last_media(chunks: Vec<HeadChunk>) -> (s: Option<SplitChunks>)
    requires
        positions(chunk_views(chunks@)) <= usize::MAX,
    ensures
        split(chunk_views(chunks@)) == (match s {
            Some(s) => Some(s@),
            None => None,
        }),
{
    let ghost all = chunk_views(chunks@);
    let mut chunks = chunks;
    let mut n: usize = chunks.len();
    assert(all.take(n as int) =~= all);
    proof {
        head_ends_at_the_last_media(all);
    }
    while n > 0
        invariant_except_break
            n <= all.len(),
            all == chunk_views(chunks@),
            head_len(all) == head_len(all.take(n as int)),
        ensures
            n == head_len(all),
            n <= all.len(),
        decreases n,
    {
        let media = match &chunks[n - 1] {
            HeadChunk::Media { .. } => true,
            HeadChunk::Text(_) => false,
        };
        proof {
            assert(all.take(n as int).last() == chunks@[n - 1]@);
            assert(all.take(n as int).drop_last() =~= all.take(n - 1));
        }
        if media {
            break;
        }
        n -= 1;
    }
    if n == 0 {
        return None;
    }
    let rest = chunks.split_off(n);
    let ghost head = all.take(n as int);
    let ghost behind = all.skip(n as int);
    assert(chunk_views(chunks@) =~= head);
    assert(chunk_views(rest@) =~= behind);

    let mut head_pos: usize = 0;
    let mut i: usize = 0;
    assert(head.take(0).len() == 0);
    while i < chunks.len()
        invariant
            i <= chunks@.len(),
            n <= all.len(),
            head == chunk_views(chunks@),
            head == all.take(n as int),
            positions(all) <= usize::MAX,
            head_pos == positions(head.take(i as int)),
        decreases chunks@.len() - i,
    {
        proof {
            assert(head.take(i + 1).drop_last() =~= head.take(i as int));
            assert(head.take(i + 1).last() == chunks@[i as int]@);
            assert(head.len() == chunks@.len());
            assert(head.take(i + 1) =~= all.take(i + 1));
            positions_add_up(all.take(i + 1), all.skip(i + 1));
            assert(all.take(i + 1) + all.skip(i + 1) =~= all);
        }
        head_pos = head_pos + chunks[i].n_pos();
        i += 1;
    }
    assert(head.take(i as int) =~= head);

    let mut tail: Vec<LlamaToken> = Vec::new();
    let mut k: usize = 0;
    assert(behind.take(0).len() == 0);
    while k < rest.len()
        invariant
            k <= rest@.len(),
            behind == chunk_views(rest@),
            tail@ == text_tokens(behind.take(k as int)),
        decreases rest@.len() - k,
    {
        proof {
            assert(behind.take(k + 1).drop_last() =~= behind.take(k as int));
            assert(behind.take(k + 1).last() == rest@[k as int]@);
        }
        match &rest[k] {
            HeadChunk::Text(tokens) => {
                let mut more = copy_tokens(tokens);
                tail.append(&mut more);
            },
            HeadChunk::Media { .. } => {
                assert(tail@ + Seq::<LlamaToken>::empty() =~= tail@);
            },
        }
        k += 1;
    }
    assert(behind.take(k as int) =~= behind);
    Some(SplitChunks { head: chunks, head_pos, tail })
}

/// The tail of a cut is the text behind the head, token for token and in order, and the
/// positions of the head are those of its spans: one for each token of text, and as many
/// as the engine says for media.
pub proof fn a_cut_keeps_the_text_behind_the_head(chunks: Seq<ChunkView>)
    ensures
        split(chunks) matches Some(s) ==> {
            let behind = chunks.skip(s.head.len() as int);
            &&& s.tail == behind.map_values(
                |c: ChunkView|
                    match c {
                        ChunkView::Text(tokens) => tokens,
                        ChunkView::Media { .. } => Seq::empty(),
                    },
            ).flatten()
            &&& s.head_pos == s.head.map_values(
                |c: ChunkView|
                    match c {
                        ChunkView::Text(tokens) => tokens.len() as int,
                        ChunkView::Media { n_tokens, n_pos } => n_pos as int,
                    },
            ).fold_left(0int, |sum: int, n: int| sum + n)
        },
{
    head_ends_at_the_last_media(chunks);
    if let Some(s) = split(chunks) {
        text_is_flattened(chunks.skip(s.head.len() as int));
        positions_are_summed(s.head);
    }
}

proof fn text_is_flattened(chunks: Seq<ChunkView>)
    ensures
        text_tokens(chunks) == chunks.map_values(
            |c: ChunkView|
                match c {
                    ChunkView::Text(tokens) => tokens,
                    ChunkView::Media { .. } => Seq::empty(),
                },
        ).flatten(),
    decreases chunks.len(),
{
    let f = |c: ChunkView|
        match c {
            ChunkView::Text(tokens) => tokens,
            ChunkView::Media { .. } => Seq::empty(),
        };
    let mapped = chunks.map_values(f);
    if chunks.len() > 0 {
        text_is_flattened(chunks.drop_last());
        assert(mapped.drop_last() =~= chunks.drop_last().map_values(f));
        mapped.lemma_flatten_and_flatten_alt_are_equivalent();
        mapped.drop_last().lemma_flatten_and_flatten_alt_are_equivalent();
    }
}

proof fn positions_are_summed(chunks: Seq<ChunkView>)
    ensures
        positions(chunks) == chunks.map_values(
            |c: ChunkView|
                match c {
                    ChunkView::Text(tokens) => tokens.len() as int,
                    ChunkView::Media { n_tokens, n_pos } => n_pos as int,
                },
        ).fold_left(0int, |sum: int, n: int| sum + n),
    decreases chunks.len(),
{
    let f = |c: ChunkView|
        match c {
            ChunkView::Text(tokens) => tokens.len() as int,
            ChunkView::Media { n_tokens, n_pos } => n_pos as int,
        };
    let mapped = chunks.map_values(f);
    if chunks.len() > 0 {
        positions_are_summed(chunks.drop_last());
        assert(mapped.drop_last() =~= chunks.drop_last().map_values(f));
    }
}

/// A span can be described exactly where its positions can be modelled: text that gives
/// all its tokens and takes one position for each, or an image, with the size and the
/// positions that the engine says. Audio cannot.
pub proof fn a_span_is_described_where_its_positions_are_known(facts: ChunkFacts)
    ensures
        facts.kind is Audio || facts.n_positions < 0 ==> described(facts) is None,
        facts.kind is Image && facts.n_positions >= 0 ==> described(facts) == Some(
            ChunkView::Media { n_tokens: facts.n_tokens, n_pos: facts.n_positions as usize },
        ),
        facts.kind is Text ==> match facts.text_tokens {
            Some(tokens) => if tokens@.len() == facts.n_tokens && facts.n_positions
                == facts.n_tokens {
                described(facts) == Some(ChunkView::Text(tokens@))
            } else {
                described(facts) is None
            },
            None => if facts.n_tokens == 0 && facts.n_positions == 0 {
                described(facts) == Some(ChunkView::Text(Seq::empty()))
            } else {
                described(facts) is None
            },
        },
{
}

/// A list of spans is described span by span, in order, and only where each of them is.
pub proof fn a_prompt_is_described_span_by_span(chunks: Seq<Option<ChunkFacts>>)
    ensures
        match all_described(chunks) {
            Some(list) => list.len() == chunks.len() && forall|i: int|
                0 <= i < chunks.len() ==> (#[trigger] chunks[i]) is Some && described(
                    chunks[i]->0,
                ) == Some(list[i]),
            None => exists|i: int|
                0 <= i < chunks.len() && ((#[trigger] chunks[i]) is None || described(
                    chunks[i]->0,
                ) is None),
        },
    decreases chunks.len(),
{
    if chunks.len() > 0 {
        let front = chunks.drop_last();
        a_prompt_is_described_span_by_span(front);
        match all_described(front) {
            Some(list) => {
                assert forall|i: int| 0 <= i < front.len() implies (#[trigger] chunks[i]) is Some
                    && described(chunks[i]->0) == Some(list[i]) by {
                    assert(front[i] == chunks[i]);
                }
                let last = chunks[chunks.len() - 1];
                assert(last == chunks.last());
            },
            None => {
                let i = choose|i: int|
                    0 <= i < front.len() && ((#[trigger] front[i]) is None || described(
                        front[i]->0,
                    ) is None);
                assert(chunks[i] == front[i]);
            },
        }
    }
}

/// Why a head does not match is the narrowest cause there is: another number of images,
/// else other bytes in one, else other spans around them, else another number of
/// positions.
pub proof fn a_mismatch_names_the_narrowest_cause(
    head: HeadView,
    n_pos: usize,
    chunks: Seq<ChunkView>,
    images: Seq<Seq<u8>>,
)
    ensures
        ({
            let reason = head.mismatch(n_pos, chunks, images);
            let count = head.images.len() == images.len();
            let bytes = count && forall|i: int|
                0 <= i < images.len() ==> #[trigger] head.images[i] == images[i];
            let spans = bytes && head.chunks == chunks;
            &&& !count <==> reason == Some(HeadMismatch::ImageCount)
            &&& count && !bytes <==> reason == Some(HeadMismatch::ImageBytes)
            &&& bytes && !spans <==> reason == Some(HeadMismatch::ChunkShape)
            &&& spans && head.n_pos != n_pos <==> reason == Some(HeadMismatch::Positions)
            &&& spans && head.n_pos == n_pos <==> reason is None
        }),
{
    if head.images.len() == images.len() && forall|i: int|
        0 <= i < images.len() ==> #[trigger] head.images[i] == images[i] {
        assert(head.images =~= images);
    }
}

/// Spans, heads, images and cuts are seen as they are, in order.
pub proof fn spans_are_seen_as_they_are(head: MediaHead, cut: SplitChunks, image: ExtractedImage)
    ensures
        head@.n_pos == head.n_pos,
        head@.chunks.len() == head.chunks@.len(),
        head@.images.len() == head.images@.len(),
        forall|i: int|
            0 <= i < head.images@.len() ==> #[trigger] head@.images[i] == head.images@[i]@,
        forall|i: int|
            0 <= i < head.chunks@.len() ==> #[trigger] head@.chunks[i] == (match head.chunks@[i] {
                HeadChunk::Text(tokens) => ChunkView::Text(tokens@),
                HeadChunk::Media { n_tokens, n_pos } => ChunkView::Media { n_tokens, n_pos },
            }),
        cut@.head_pos == cut.head_pos,
        cut@.tail == cut.tail@,
        cut@.head == chunk_views(cut.head@),
        image_views(seq![image]) == seq![image.bytes@],
{
}

} // verus!
