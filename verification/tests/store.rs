//! The index of stored snapshots, and paths that name the same model.

use local_inference::index::{IndexEntry, SnapshotIndex, MAX_SNAPSHOTS};
use local_inference::ladder::ladder;
use local_inference::slot::LoadVerdict;
use local_inference::key::SnapshotKey;
use local_inference::slot::SnapshotSlot;
use local_inference::token::LlamaToken;

fn entry(file: &str, last_used: u64) -> IndexEntry {
    IndexEntry { file: file.to_string(), tokens: 2000, ladder: Vec::new(), last_used }
}

fn index(entries: Vec<IndexEntry>) -> SnapshotIndex {
    SnapshotIndex { entries }
}

fn files(index: &SnapshotIndex) -> Vec<&str> {
    index.entries.iter().map(|e| e.file.as_str()).collect()
}

#[test]
fn the_least_recently_used_go_first() {
    let mut i = index(vec![
        entry("a", 9),
        entry("b", 1),
        entry("c", 5),
        entry("d", 1),
        entry("e", 7),
        entry("f", 8),
        entry("g", 6),
        entry("h", 4),
    ]);
    assert_eq!(i.evict_beyond_cap(), vec!["b".to_string(), "d".to_string()]);
    assert_eq!(files(&i), vec!["a", "c", "e", "f", "g", "h"]);
    assert_eq!(i.entries.len(), MAX_SNAPSHOTS);
    assert!(i.evict_beyond_cap().is_empty());
}

#[test]
fn a_use_is_worth_a_write_only_after_an_hour() {
    let mut i = index(vec![entry("a", 1000), entry("b", 1000)]);
    assert!(!i.touch(&"a".to_string(), 4600));
    assert_eq!(i.entries[0].last_used, 4600);
    assert!(i.touch(&"b".to_string(), 4601));
    assert_eq!(i.entries[1].last_used, 4601);
    assert!(!i.touch(&"b".to_string(), 10), "a clock that went back is no use");
    assert!(!i.touch(&"none".to_string(), 9999));
}

#[test]
fn a_forgotten_file_leaves_every_entry_of_its_name() {
    let mut i = index(vec![entry("a", 1), entry("b", 2), entry("a", 3)]);
    i.forget_file(&"a".to_string());
    assert_eq!(files(&i), vec!["b"]);
    i.push(entry("c", 4));
    assert_eq!(files(&i), vec!["b", "c"]);
    assert!(SnapshotIndex::default().entries.is_empty());
}

#[test]
fn the_later_of_two_equal_snapshots_is_chosen() {
    let tokens: Vec<LlamaToken> = (0..600).map(LlamaToken).collect();
    let rungs = ladder(&tokens);
    let same = |file: &str| IndexEntry {
        file: file.to_string(),
        tokens: 600,
        ladder: rungs.clone(),
        last_used: 0,
    };
    let i = index(vec![same("first"), same("second")]);
    assert_eq!(i.best_match(&rungs, 601).map(|e| e.file.as_str()), Some("second"));
    assert!(i.best_match(&rungs, 600).is_none());
    let bare = index(vec![entry("bare", 0)]);
    assert!(bare.best_match(&rungs, 5000).is_none(), "an entry without rungs serves nothing");
}

fn slot() -> SnapshotSlot {
    let key = SnapshotKey {
        model_path: "/m.gguf".to_string(),
        model_len: 1,
        model_mtime_secs: 2,
        n_ctx: 4096,
        layout: 0,
    };
    SnapshotSlot::new(key, None)
}

#[test]
fn a_file_is_judged_by_what_the_prompt_begins_with() {
    let prompt: Vec<LlamaToken> = (0..3000).map(LlamaToken).collect();
    let file = "f".to_string();
    let judge = |tokens: &[LlamaToken]| slot().judge_file(&file, tokens, &prompt, 5).0;
    assert_eq!(judge(&prompt[..2000]), LoadVerdict::Restored(2000));
    assert_eq!(judge(&prompt[..1024]), LoadVerdict::Restored(1024));
    assert_eq!(judge(&prompt[..1023]), LoadVerdict::Unsuitable);
    assert_eq!(judge(&prompt), LoadVerdict::Unsuitable);
    let mut other = prompt.clone();
    other[10] = LlamaToken(-1);
    assert_eq!(judge(&other[..2000]), LoadVerdict::Foreign);
    let longer: Vec<LlamaToken> = (0..3500).map(LlamaToken).collect();
    assert_eq!(judge(&longer), LoadVerdict::Foreign);
}

#[test]
fn a_retired_file_lets_every_shape_write_again() {
    let mut s = slot();
    let a: Vec<LlamaToken> = (0..1100).map(LlamaToken).collect();
    let mut b = a.clone();
    b[1050] = LlamaToken(-1);
    s.observe(&a);
    s.observe(&b);
    let shape = SnapshotSlot::bucket_of(&a).unwrap();
    let evicted = s.publish(shape, &a[..1050], 77);
    assert!(evicted.is_empty());
    assert_eq!(s.index.entries[0].tokens, 1050);
    assert_eq!(s.index.entries[0].last_used, 77);
    assert_eq!(s.writable_prefix(&a), None);
    let file = s.choose_file(&a).expect("the snapshot serves the prompt");
    assert_eq!(file, s.key.file_name(shape));
    s.retire(&file);
    assert!(s.index.entries.is_empty());
    assert_eq!(s.writable_prefix(&a), Some(1050));
}

#[test]
fn a_shape_found_on_disk_is_settled() {
    let mut s = slot();
    let a: Vec<LlamaToken> = (0..3000).map(LlamaToken).collect();
    let mut b = a.clone();
    b[2500] = LlamaToken(-1);
    s.observe(&a);
    let found = s.judge_file(&"f".to_string(), &a[..2000], &a, 5);
    assert_eq!(found.0, LoadVerdict::Restored(2000));
    s.observe(&b);
    assert_eq!(s.stable_len(&a), Some(2500));
    assert_eq!(s.writable_prefix(&a), None);
    assert_eq!(s.writable_prefix(&b), None);
    s.retire(&"f".to_string());
    assert_eq!(s.writable_prefix(&b), Some(2500));

    let mut unserved = slot();
    unserved.observe(&a);
    let short = unserved.judge_file(&"f".to_string(), &a[..1023], &a, 5);
    assert_eq!(short.0, LoadVerdict::Unsuitable);
    unserved.observe(&b);
    assert_eq!(unserved.writable_prefix(&b), Some(2500));
}

#[test]
fn a_write_holds_no_more_than_the_cap() {
    let mut s = slot();
    let a: Vec<LlamaToken> = (0..9000).map(LlamaToken).collect();
    let mut b = a.clone();
    b[8000] = LlamaToken(-1);
    s.observe(&a);
    s.observe(&b);
    assert_eq!(s.stable_len(&a), Some(8000));
    assert_eq!(s.writable_prefix(&a), Some(6144));
}

#[test]
fn paths_agree_as_std_says() {
    let paths = ["", "/", "//", ".", "./a", "a", "a/", "a/.", "/a", "/a/", "//a", "/./a", "/a//b",
        "/a/./b", "/a/b", "a/../a", "..", "./", "a/b", "./a/b", "C:/a", "C:\\a", "a\\b", "c:/a"];
    for a in paths {
        for b in paths {
            let std = std::path::Path::new(a) == std::path::Path::new(b);
            let mut s = slot();
            s.key.model_path = a.to_string();
            assert_eq!(s.matches(b, 4096), std, "{a:?} {b:?}");
            assert!(!s.matches(b, 2048));
        }
    }
}

#[test]
fn a_slot_serves_its_model_however_the_path_is_written() {
    let s = slot();
    assert!(s.matches("/m.gguf", 4096));
    assert!(s.matches("/./m.gguf/", 4096));
    assert!(!s.matches("m.gguf", 4096));
    assert!(!s.matches("/a/../m.gguf", 4096));
    assert!(!s.matches("/M.gguf", 4096));
}
