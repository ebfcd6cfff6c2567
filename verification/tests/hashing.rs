//! Exact values of the hash, of names, of ladders and of rendered numbers.

use local_inference::fnv::{to_bits32, to_bits64, to_le_bytes, Fnv};
use local_inference::key::{part_name, FileFacts, Modified, SnapshotKey};
use local_inference::ladder::{ladder, ladder_agreement, LADDER_DEPTHS};
use local_inference::slot::{now_secs, SnapshotSlot};
use local_inference::text::{chars_of, parse_unsigned, push_decimal, push_hex16, push_signed};
use local_inference::token::{tokens_from, LlamaToken};

const AB: u64 = 0xe720_0119_0541_f8b8;
const EMPTY: u64 = 0xaf63_bd4c_8601_b7df;
const FAMILY: u64 = 0x21da_fa29_0020_33ea;
const OLDER_FAMILY: u64 = 0x8714_e077_23f4_5642;
const SEVENS: u64 = 0x4da5_b807_7394_1825;
const MINUS_ONES: u64 = 0xc66b_19b8_cfcb_5f25;

fn key() -> SnapshotKey {
    SnapshotKey {
        model_path: "/m.gguf".to_string(),
        model_len: 1,
        model_mtime_secs: 2,
        n_ctx: 4096,
        layout: 0,
    }
}

#[test]
fn a_field_has_a_fixed_hash() {
    let mut h = Fnv::new();
    assert_eq!(h.finish(), 0xcbf2_9ce4_8422_2325);
    h.write(b"ab");
    assert_eq!(h.finish(), AB);
    let mut empty = Fnv::new();
    empty.write(b"");
    assert_eq!(empty.finish(), EMPTY);
}

#[test]
fn one_changed_byte_changes_a_hash() {
    for i in 0..4usize {
        let mut bytes = *b"wxyz";
        let mut a = Fnv::new();
        a.write(&bytes);
        bytes[i] ^= 1;
        let mut b = Fnv::new();
        b.write(&bytes);
        assert_ne!(a.finish(), b.finish());
    }
}

#[test]
fn numbers_are_taken_apart_lowest_byte_first() {
    assert_eq!(to_le_bytes(0x0102_0304, 4), vec![4, 3, 2, 1]);
    assert_eq!(to_le_bytes(to_bits32(-2), 4), (-2i32).to_le_bytes().to_vec());
    assert_eq!(to_le_bytes(to_bits64(-2), 8), (-2i64).to_le_bytes().to_vec());
    assert_eq!(to_le_bytes(u64::MAX - 5, 8), (u64::MAX - 5).to_le_bytes().to_vec());
}

#[test]
fn a_key_has_a_fixed_family_and_names() {
    let k = key();
    assert_eq!(k.family(), FAMILY);
    assert_eq!(k.index_name(), format!("v1-{:016x}.index.json", FAMILY));
    assert_eq!(k.file_name(0x2a), format!("v1-{:016x}-000000000000002a.kv", FAMILY));
    assert_eq!(
        part_name(&k.file_name(0x2a)),
        format!("v1-{:016x}-000000000000002a.kv.part", FAMILY)
    );
    let older = SnapshotKey {
        model_len: 10,
        model_mtime_secs: -1,
        layout: 0x20001,
        ..key()
    };
    assert_eq!(older.family(), OLDER_FAMILY);
}

#[test]
fn a_key_needs_a_file_and_its_time() {
    let at = |modified| SnapshotKey::new("/m.gguf", Some(FileFacts { len: 9, modified }), 64, 3);
    assert!(SnapshotKey::new("/m.gguf", None, 64, 3).is_none());
    assert!(at(Modified::Unavailable).is_none());
    assert_eq!(at(Modified::BeforeEpoch).unwrap().model_mtime_secs, -1);
    let k = at(Modified::At(1700)).unwrap();
    assert_eq!(
        (k.model_path.as_str(), k.model_len, k.model_mtime_secs, k.n_ctx, k.layout),
        ("/m.gguf", 9, 1700, 64, 3)
    );
    assert_eq!(at(Modified::At(u64::MAX)).unwrap().model_mtime_secs, -1);
}

#[test]
fn a_ladder_has_a_rung_at_every_depth_it_reaches() {
    let sevens = vec![LlamaToken(7); 256];
    assert_eq!(ladder(&sevens), vec![(256, SEVENS)]);
    assert_eq!(ladder(&vec![LlamaToken(-1); 256]), vec![(256, MINUS_ONES)]);
    assert!(ladder(&sevens[..255]).is_empty());
    let long = vec![LlamaToken(7); 20_000];
    let rungs = ladder(&long);
    let depths: Vec<usize> = rungs.iter().map(|(d, _)| *d).collect();
    assert_eq!(depths, LADDER_DEPTHS.to_vec());
    assert_eq!(rungs[0], (256, SEVENS));
    assert_eq!(ladder_agreement(&ladder(&long[..600]), &rungs), 512);
    assert_eq!(ladder_agreement(&[], &rungs), 0);
    assert_eq!(SnapshotSlot::bucket_of(&long), Some(SEVENS));
    assert_eq!(SnapshotSlot::bucket_of(&long[..255]), None);
}

#[test]
fn numbers_render_as_std_renders_them() {
    for n in [0u64, 7, 10, 999, 1_000_000, u64::MAX] {
        let mut s = String::from("<");
        push_decimal(&mut s, n);
        assert_eq!(s, format!("<{n}"));
        let mut s = String::new();
        push_hex16(&mut s, n);
        assert_eq!(s, format!("{n:016x}"));
    }
    for n in [0i64, -1, 12, i64::MIN, i64::MAX] {
        let mut s = String::new();
        push_signed(&mut s, n);
        assert_eq!(s, format!("{n}"));
    }
}

#[test]
fn numbers_parse_as_std_parses_them() {
    for s in ["", "+", "0", "007", "+12", "-1", " 1", "1 ", "18446744073709551615",
        "18446744073709551616", "99999999999999999999999", "1x", "++1", "٣"]
    {
        assert_eq!(parse_unsigned(s, u64::MAX), s.parse::<u64>().ok(), "{s:?}");
    }
    assert_eq!(parse_unsigned("10", 9), None);
    assert_eq!(parse_unsigned("9", 9), Some(9));
}

#[test]
fn small_helpers_give_what_they_are_given() {
    assert_eq!(chars_of("aé漢"), vec!['a', 'é', '漢']);
    assert_eq!(now_secs(Some(12)), 12);
    assert_eq!(now_secs(None), 0);
    let tokens = [LlamaToken::new(1), LlamaToken::new(2)];
    assert_eq!(tokens_from(&tokens, 1), vec![LlamaToken(2)]);
}

#[test]
fn a_difference_survives_the_fields_that_follow() {
    let hash = |first: &[u8]| {
        let mut h = Fnv::new();
        h.write(first);
        h.write(b"the same");
        h.write(b"");
        h.finish()
    };
    assert_ne!(hash(b"x"), hash(b"y"));
    assert_eq!(hash(b"x"), hash(b"x"));
}

#[test]
fn different_hashes_have_different_digits() {
    let digits = |n: u64| {
        let mut s = String::new();
        push_hex16(&mut s, n);
        s
    };
    assert_eq!(digits(0xab).len(), 16);
    assert_ne!(digits(0xab), digits(0xab << 60));
    assert_ne!(digits(1), digits(16));
}
