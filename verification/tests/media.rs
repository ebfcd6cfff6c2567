//! Media heads: their spans, where they end, and what matches them.

use local_inference::media::{
    split_at_last_media, ExtractedImage, HeadChunk, HeadMismatch, MediaHead,
};
use local_inference::token::LlamaToken;

fn tokens(ids: impl IntoIterator<Item = i32>) -> Vec<LlamaToken> {
    ids.into_iter().map(LlamaToken::new).collect()
}

fn image(bytes: &[u8]) -> ExtractedImage {
    ExtractedImage {
        bytes: bytes.to_vec(),
    }
}

fn media_head(chunks: Vec<HeadChunk>, images: &[&[u8]]) -> MediaHead {
    MediaHead {
        n_pos: chunks.iter().map(HeadChunk::n_pos).sum(),
        chunks,
        images: images.iter().map(|bytes| bytes.to_vec()).collect(),
    }
}

#[test]
fn head_chunk_positions_count_text_tokens_and_media_positions() {
    assert_eq!(HeadChunk::Text(tokens(0..7)).n_pos(), 7);
    assert_eq!(
        HeadChunk::Media {
            n_tokens: 256,
            n_pos: 64
        }
        .n_pos(),
        64
    );
}

#[test]
fn split_at_last_media_puts_every_trailing_text_chunk_in_the_tail() {
    let split = split_at_last_media(vec![
        HeadChunk::Text(tokens(0..10)),
        HeadChunk::Media {
            n_tokens: 256,
            n_pos: 256,
        },
        HeadChunk::Text(tokens(100..104)),
        HeadChunk::Text(tokens(200..203)),
    ])
    .expect("a list with a media chunk splits");

    assert_eq!(split.head_pos, 266);
    assert_eq!(split.head.len(), 2);
    assert_eq!(split.tail, tokens((100..104).chain(200..203)));
}

#[test]
fn split_at_last_media_splits_after_the_last_of_several_media_chunks() {
    let media = HeadChunk::Media {
        n_tokens: 64,
        n_pos: 64,
    };
    let split = split_at_last_media(vec![
        HeadChunk::Text(tokens(0..5)),
        media.clone(),
        HeadChunk::Text(tokens(10..15)),
        media,
        HeadChunk::Text(tokens(20..25)),
    ])
    .expect("a list with media chunks splits");

    assert_eq!(split.head.len(), 4);
    assert_eq!(split.head_pos, 5 + 64 + 5 + 64);
    assert_eq!(split.tail, tokens(20..25));
}

#[test]
fn split_at_last_media_refuses_a_chunk_list_without_media() {
    assert!(split_at_last_media(vec![HeadChunk::Text(tokens(0..10))]).is_none());
    assert!(split_at_last_media(Vec::new()).is_none());
}

fn incoming_head_pos(chunks: &[HeadChunk]) -> usize {
    chunks.iter().map(HeadChunk::n_pos).sum()
}

fn mismatch(
    head: &MediaHead,
    chunks: &[HeadChunk],
    images: &[ExtractedImage],
) -> Option<HeadMismatch> {
    head.mismatch(incoming_head_pos(chunks), chunks, images)
}

#[test]
fn media_head_matches_identical_shape_and_images() {
    let head = media_head(
        vec![
            HeadChunk::Text(tokens(0..10)),
            HeadChunk::Media {
                n_tokens: 256,
                n_pos: 256,
            },
        ],
        &[b"png-bytes"],
    );
    let same = head.chunks.clone();
    assert_eq!(mismatch(&head, &same, &[image(b"png-bytes")]), None);
}

#[test]
fn media_head_rejects_different_image_bytes() {
    let head = media_head(
        vec![HeadChunk::Media {
            n_tokens: 256,
            n_pos: 256,
        }],
        &[b"first-picture"],
    );
    let same_shape = head.chunks.clone();
    assert_eq!(
        mismatch(&head, &same_shape, &[image(b"second-picture")]),
        Some(HeadMismatch::ImageBytes)
    );
}

fn media_chunk() -> HeadChunk {
    HeadChunk::Media {
        n_tokens: 256,
        n_pos: 256,
    }
}

fn one_image_head() -> MediaHead {
    media_head(vec![HeadChunk::Text(tokens(0..10)), media_chunk()], &[b"a"])
}

#[test]
fn media_head_rejects_a_grown_image_list() {
    let head = one_image_head();
    let two_images = vec![
        HeadChunk::Text(tokens(0..10)),
        media_chunk(),
        HeadChunk::Text(tokens(20..24)),
        media_chunk(),
    ];
    assert_eq!(
        mismatch(&head, &two_images, &[image(b"a"), image(b"b")]),
        Some(HeadMismatch::ImageCount)
    );
}

#[test]
fn media_head_rejects_a_rewritten_preamble() {
    let head = one_image_head();
    let shorter = vec![HeadChunk::Text(tokens(500..506)), media_chunk()];
    assert_eq!(
        mismatch(&head, &shorter, &[image(b"a")]),
        Some(HeadMismatch::ChunkShape)
    );

    let same_length = vec![HeadChunk::Text(tokens(500..510)), media_chunk()];
    assert_eq!(incoming_head_pos(&same_length), head.n_pos);
    assert_eq!(
        mismatch(&head, &same_length, &[image(b"a")]),
        Some(HeadMismatch::ChunkShape)
    );
}

#[test]
fn media_head_rejects_a_recorded_size_that_disagrees_with_its_chunks() {
    let mut head = one_image_head();
    head.n_pos += 1;
    let same = head.chunks.clone();
    assert_eq!(
        mismatch(&head, &same, &[image(b"a")]),
        Some(HeadMismatch::Positions)
    );
}
