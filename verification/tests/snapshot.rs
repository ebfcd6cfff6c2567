//! Snapshot names, shapes, converging prefixes and the choice of a file.

use local_inference::fnv::Fnv;
use local_inference::index::{IndexEntry, SnapshotIndex};
use local_inference::key::{layout_fingerprint, SnapshotKey, SNAPSHOT_FORMAT_VERSION};
use local_inference::ladder::{ladder, ladder_agreement};
use local_inference::settings::ModelSettings;
use local_inference::slot::{SnapshotSlot, SNAPSHOT_MIN_TOKENS};
use local_inference::token::LlamaToken;

fn slot() -> SnapshotSlot {
    SnapshotSlot::new(
        SnapshotKey {
            model_path: "/m.gguf".to_string(),
            model_len: 1,
            model_mtime_secs: 2,
            n_ctx: 4096,
            layout: 0,
        },
        None,
    )
}

fn shaped(lead: i32, len: usize) -> Vec<LlamaToken> {
    (0..len)
        .map(|i| LlamaToken(if i < 256 { lead } else { i as i32 }))
        .collect()
}

#[test]
fn the_stable_prefix_shrinks_to_what_every_prompt_shares() {
    let mut s = slot();
    let a = shaped(7, 2000);
    s.observe(&a);
    assert_eq!(s.stable_len(&a), Some(2000));

    let mut b = a.clone();
    b[1500] = LlamaToken(-99);
    s.observe(&b);
    assert_eq!(s.stable_len(&a), Some(1500));

    s.observe(&b);
    assert_eq!(s.stable_len(&a), Some(1500));
}

#[test]
fn two_prompt_shapes_keep_separate_prefixes_instead_of_cancelling_out() {
    let mut s = slot();

    let chat_a = shaped(1, 3000);
    let mut chat_b = chat_a.clone();
    chat_b[2500] = LlamaToken(-1);

    let sched_a = shaped(2, 3000);
    let mut sched_b = sched_a.clone();
    sched_b[2000] = LlamaToken(-2);

    s.observe(&chat_a);
    s.observe(&sched_a);
    s.observe(&chat_b);
    s.observe(&sched_b);

    assert_eq!(
        s.stable_len(&chat_a),
        Some(2500),
        "chat keeps its own prefix"
    );
    assert_eq!(
        s.stable_len(&sched_a),
        Some(2000),
        "the scheduler keeps its own, and did not shorten chat's"
    );
    assert!(s.writable_prefix(&chat_a).is_some());
    assert!(s.writable_prefix(&sched_a).is_some());
}

#[test]
fn the_deepest_matching_ladder_wins_and_a_stranger_matches_nothing() {
    let deep = ladder(&shaped(1, 4000));
    let shallow_same_shape = ladder(&shaped(1, 600));
    let other_shape = ladder(&shaped(2, 4000));

    assert_eq!(ladder_agreement(&deep, &shallow_same_shape), 512);
    assert_eq!(
        ladder_agreement(&deep, &other_shape),
        0,
        "different openings must not share even the first rung"
    );

    let index = SnapshotIndex {
        entries: vec![
            IndexEntry {
                file: "shallow.kv".into(),
                tokens: 600,
                ladder: shallow_same_shape,
                last_used: 1,
            },
            IndexEntry {
                file: "deep.kv".into(),
                tokens: 4000,
                ladder: deep.clone(),
                last_used: 1,
            },
        ],
    };
    let incoming = ladder(&shaped(1, 5000));
    assert_eq!(
        index.best_match(&incoming, 5000).map(|e| e.file.as_str()),
        Some("deep.kv")
    );
    assert_eq!(
        index
            .best_match(&other_shape, 5000)
            .map(|e| e.file.as_str()),
        None,
        "a prompt shape with no stored cache must get nothing rather than the wrong one"
    );

    assert_eq!(
        index.best_match(&incoming, 600).map(|e| e.file.as_str()),
        None,
        "a snapshot at least as long as the prompt leaves nothing to decode"
    );
    let diverges_early = {
        let mut p = shaped(1, 5000);
        p[700] = LlamaToken(-7);
        ladder(&p)
    };
    assert_eq!(
        index
            .best_match(&diverges_early, 5000)
            .map(|e| e.file.as_str()),
        Some("shallow.kv"),
        "the 4,000-token snapshot diverges from this prompt at token 700, so it cannot be \
         a prefix of it and must be refused FROM THE LADDER rather than by reading 4,000 \
         tokens of KV to find out -- while the 600-token one still genuinely is a prefix \
         and should be served"
    );
}

#[test]
fn a_prefix_below_the_threshold_is_not_written() {
    let mut s = slot();
    let a = shaped(5, SNAPSHOT_MIN_TOKENS - 1);
    let mut b = a.clone();
    b[300] = LlamaToken(-5);
    s.observe(&a);
    s.observe(&b);
    assert_eq!(s.writable_prefix(&a), None);

    let mut s = slot();
    let a = shaped(6, SNAPSHOT_MIN_TOKENS + 50);
    let mut b = a.clone();
    b[SNAPSHOT_MIN_TOKENS] = LlamaToken(-6);
    s.observe(&a);
    s.observe(&b);
    assert_eq!(s.writable_prefix(&a), Some(SNAPSHOT_MIN_TOKENS));
}

#[test]
fn a_prefix_that_has_never_intersected_anything_is_not_written() {
    let long = shaped(9, SNAPSHOT_MIN_TOKENS + 200);

    let mut s = slot();
    for _ in 0..3 {
        s.observe(&long);
    }
    assert_eq!(
        s.writable_prefix(&long),
        None,
        "agreeing prompts prove nothing about what a DIFFERENT session shares"
    );

    let mut diverged = long.clone();
    let cut = SNAPSHOT_MIN_TOKENS + 100;
    diverged[cut] = LlamaToken(-1);
    s.observe(&diverged);
    assert_eq!(
        s.writable_prefix(&long),
        Some(cut),
        "a shrink is the evidence, and the shared run is what gets written"
    );
}

#[test]
fn a_settled_slot_never_offers_another_write() {
    let mut s = slot();
    let a = shaped(8, SNAPSHOT_MIN_TOKENS + 50);
    let mut b = a.clone();
    b[SNAPSHOT_MIN_TOKENS] = LlamaToken(-8);
    s.observe(&a);
    s.observe(&b);
    assert!(s.writable_prefix(&a).is_some());
    let bucket = SnapshotSlot::bucket_of(&a).expect("a shaped prompt has a bucket");
    s.settle(bucket);
    assert_eq!(s.writable_prefix(&a), None);
}

#[test]
fn every_key_component_changes_the_file_name() {
    let base = SnapshotKey {
        model_path: "/a.gguf".to_string(),
        model_len: 10,
        model_mtime_secs: 20,
        n_ctx: 4096,
        layout: 1,
    };
    let name = base.index_name();

    let variants = [
        SnapshotKey {
            model_path: "/b.gguf".to_string(),
            ..base.clone()
        },
        SnapshotKey {
            model_len: 11,
            ..base.clone()
        },
        SnapshotKey {
            model_mtime_secs: 21,
            ..base.clone()
        },
        SnapshotKey {
            n_ctx: 8192,
            ..base.clone()
        },
        SnapshotKey {
            layout: 2,
            ..base.clone()
        },
    ];
    for v in &variants {
        assert_ne!(
            v.index_name(),
            name,
            "changing a key component must change the file name: {v:?}"
        );
    }
    assert_eq!(base.index_name(), name);
}

#[test]
fn the_hasher_distinguishes_where_one_field_ends_and_the_next_begins() {
    let mut split = Fnv::new();
    split.write(b"ab");
    split.write(b"c");

    let mut other = Fnv::new();
    other.write(b"a");
    other.write(b"bc");

    assert_ne!(
        split.finish(),
        other.finish(),
        "two different field sequences hashed to one value; a key gaining a second \
         variable-width field would then let two models share a snapshot"
    );
}

#[test]
fn a_slot_stops_matching_when_the_window_or_the_model_moves() {
    let s = slot();
    assert!(s.matches("/m.gguf", 4096));
    assert!(!s.matches("/m.gguf", 2048));
    assert!(!s.matches("/other.gguf", 4096));
}

#[test]
fn the_layout_fingerprint_separates_settings_that_could_change_the_bytes() {
    let off = ModelSettings {
        flash_attention: Some(false),
        ..Default::default()
    };
    let on = ModelSettings {
        flash_attention: Some(true),
        ..Default::default()
    };
    let unset = ModelSettings::default();

    let f = layout_fingerprint;
    assert_ne!(f(&off), f(&on));
    assert_ne!(f(&unset), f(&off));
    assert_ne!(f(&unset), f(&on));

    let batched = ModelSettings {
        n_batch: Some(512),
        ..Default::default()
    };
    assert_ne!(f(&batched), f(&unset));
    assert_eq!(f(&ModelSettings::default()), f(&unset));
}

#[test]
fn the_format_version_is_part_of_the_name() {
    let k = SnapshotKey {
        model_path: "/a.gguf".to_string(),
        model_len: 1,
        model_mtime_secs: 1,
        n_ctx: 1,
        layout: 0,
    };
    assert!(k
        .index_name()
        .starts_with(&format!("v{SNAPSHOT_FORMAT_VERSION}-")));
    assert!(k.index_name().ends_with(".index.json"));
}
