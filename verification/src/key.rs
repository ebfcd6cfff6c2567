//! What a snapshot belongs to: one model file, one window, one cache layout.

use vstd::prelude::*;
use vstd::string::*;
use vstd::utf8::encode_utf8;

use crate::fnv::{
    a_changed_byte_changes_the_hash, a_field_keeps_states_apart, bits64, fnv_field, le_bytes,
    to_bits64, to_le_bytes, Fnv, FNV_OFFSET,
};
use crate::settings::ModelSettings;
use crate::text::{decimal, hex16_is_injective, hex_digits, push_decimal, push_hex16};

verus! {

/// The version of the stored bytes. It is part of every name, so that a file of
/// another version is never opened, let alone misread.
pub const SNAPSHOT_FORMAT_VERSION: u32 = 1;

/// When a file was last modified.
#[derive(Clone, Copy, Debug, PartialEq, Eq, Structural)]
pub enum Modified {
    /// The file system does not say.
    Unavailable,
    BeforeEpoch,
    /// Seconds since the epoch.
    At(u64),
}

/// What the file system says of a model file.
#[derive(Clone, Copy, Debug, PartialEq, Eq, Structural)]
pub struct FileFacts {
    pub len: u64,
    pub modified: Modified,
}

/// Everything that must be the same for stored bytes to mean what they meant when
/// they were written.
#[derive(Clone, Debug)]
pub struct SnapshotKey {
    pub model_path: String,
    pub model_len: u64,
    pub model_mtime_secs: i64,
    pub n_ctx: u32,
    /// Settings that change the shape of the cache.
    pub layout: u64,
}

/// A key, with its path as a sequence of characters.
#[verifier::ext_equal]
pub struct KeyView {
    pub model_path: Seq<char>,
    pub model_len: u64,
    pub model_mtime_secs: i64,
    pub n_ctx: u32,
    pub layout: u64,
}

impl View for SnapshotKey {
    type V = KeyView;

    open spec fn view(&self) -> KeyView {
        KeyView {
            model_path: self.model_path@,
            model_len: self.model_len,
            model_mtime_secs: self.model_mtime_secs,
            n_ctx: self.n_ctx,
            layout: self.layout,
        }
    }
}

/// A number of seconds as the key keeps it: in 63 bits and a sign.
pub open spec fn signed_seconds(secs: u64) -> int {
    if secs <= i64::MAX {
        secs as int
    } else {
        secs - 0x1_0000_0000_0000_0000
    }
}

/// The key of a model file, if the file and its time of modification can be read.
pub open spec fn key_of_file(
    model_path: Seq<char>,
    file: Option<FileFacts>,
    n_ctx: u32,
    layout: u64,
) -> Option<KeyView> {
    match file {
        Some(facts) => match facts.modified {
            Modified::Unavailable => None,
            Modified::BeforeEpoch => Some(
                KeyView { model_path, model_len: facts.len, model_mtime_secs: -1i64, n_ctx, layout },
            ),
            Modified::At(secs) => Some(
                KeyView {
                    model_path,
                    model_len: facts.len,
                    model_mtime_secs: signed_seconds(secs) as i64,
                    n_ctx,
                    layout,
                },
            ),
        },
        None => None,
    }
}

/// The hash state after each field in turn.
pub open spec fn hash_fields(state: u64, fields: Seq<Seq<u8>>) -> u64
    decreases fields.len(),
{
    if fields.len() == 0 {
        state
    } else {
        fnv_field(hash_fields(state, fields.drop_last()), fields.last())
    }
}

impl KeyView {
    /// The fields of the key as bytes, in the order in which they are hashed.
    pub open spec fn fields(self) -> Seq<Seq<u8>> {
        seq![
            encode_utf8(self.model_path),
            le_bytes(self.model_len as nat, 8),
            le_bytes(bits64(self.model_mtime_secs), 8),
            le_bytes(self.n_ctx as nat, 4),
            le_bytes(self.layout as nat, 8),
        ]
    }

    /// The hash that every file of this key carries in its name.
    pub open spec fn family(self) -> u64 {
        hash_fields(FNV_OFFSET, self.fields())
    }

    /// The name of the index.
    pub open spec fn index_name(self) -> Seq<char> {
        "v"@ + decimal(SNAPSHOT_FORMAT_VERSION as nat) + "-"@ + hex_digits(
            self.family() as nat,
            16,
        ) + ".index.json"@
    }

    /// The name of the snapshot of one prompt shape.
    pub open spec fn file_name(self, bucket: u64) -> Seq<char> {
        "v"@ + decimal(SNAPSHOT_FORMAT_VERSION as nat) + "-"@ + hex_digits(
            self.family() as nat,
            16,
        ) + "-"@ + hex_digits(bucket as nat, 16) + ".kv"@
    }
}

/// The name that a snapshot has while it is written.
pub open spec fn unfinished_name(file: Seq<char>) -> Seq<char> {
    file + ".part"@
}

proof fn fields_in_turn(s: u64, fields: Seq<Seq<u8>>)
    requires
        fields.len() == 5,
    ensures
        hash_fields(s, fields) == fnv_field(
            fnv_field(
                fnv_field(fnv_field(fnv_field(s, fields[0]), fields[1]), fields[2]),
                fields[3],
            ),
            fields[4],
        ),
{
    let f4 = fields.drop_last();
    let f3 = f4.drop_last();
    let f2 = f3.drop_last();
    let f1 = f2.drop_last();
    assert(f1.drop_last().len() == 0);
    assert(hash_fields(s, f1.drop_last()) == s);
    assert(hash_fields(s, f1) == fnv_field(s, fields[0]));
    assert(hash_fields(s, f2) == fnv_field(hash_fields(s, f1), fields[1]));
    assert(hash_fields(s, f3) == fnv_field(hash_fields(s, f2), fields[2]));
    assert(hash_fields(s, f4) == fnv_field(hash_fields(s, f3), fields[3]));
}

proof fn a_changed_field_byte_changes_the_hash(
    s: u64,
    a: Seq<Seq<u8>>,
    f: int,
    i: int,
    byte: u8,
)
    requires
        0 <= f < a.len(),
        0 <= i < a[f].len(),
        a[f][i] != byte,
    ensures
        hash_fields(s, a.update(f, a[f].update(i, byte))) != hash_fields(s, a),
    decreases a.len(),
{
    let changed = a[f].update(i, byte);
    let b = a.update(f, changed);
    let front = a.drop_last();
    if f == a.len() - 1 {
        assert(b.drop_last() =~= front);
        a_changed_byte_changes_the_hash(hash_fields(s, front), a.last(), i, byte);
    } else {
        a_changed_field_byte_changes_the_hash(s, front, f, i, byte);
        assert(b.drop_last() =~= front.update(f, changed));
        a_field_keeps_states_apart(
            hash_fields(s, b.drop_last()),
            hash_fields(s, front),
            a.last(),
        );
    }
}

/// Two keys have the same index exactly where they have the same hash, and two
/// shapes the same snapshot exactly where their hashes agree too.
pub proof fn names_tell_hashes_apart(a: KeyView, b: KeyView, p: u64, q: u64)
    ensures
        a.index_name() == b.index_name() <==> a.family() == b.family(),
        a.file_name(p) == b.file_name(q) <==> a.family() == b.family() && p == q,
        a.index_name() != b.file_name(q),
{
    let head = "v"@ + decimal(SNAPSHOT_FORMAT_VERSION as nat) + "-"@;
    let ha = hex_digits(a.family() as nat, 16);
    let hb = hex_digits(b.family() as nat, 16);
    let hp = hex_digits(p as nat, 16);
    let hq = hex_digits(q as nat, 16);
    hex_width(a.family() as nat, 16);
    hex_width(b.family() as nat, 16);
    hex_width(p as nat, 16);
    hex_width(q as nat, 16);
    hex16_is_injective(a.family(), b.family());
    hex16_is_injective(p, q);
    reveal_strlit("-");
    reveal_strlit(".kv");
    reveal_strlit(".index.json");
    let n = head.len() as int;
    assert(a.index_name().subrange(n, n + 16) =~= ha);
    assert(b.index_name().subrange(n, n + 16) =~= hb);
    assert(a.file_name(p).subrange(n, n + 16) =~= ha);
    assert(b.file_name(q).subrange(n, n + 16) =~= hb);
    assert(a.file_name(p).subrange(n + 17, n + 33) =~= hp);
    assert(b.file_name(q).subrange(n + 17, n + 33) =~= hq);
    assert(a.index_name().len() == n + 27);
    assert(b.file_name(q).len() == n + 36);
}

proof fn hex_width(n: nat, width: nat)
    ensures
        hex_digits(n, width).len() == width,
    decreases width,
{
    if width > 0 {
        hex_width(n / 16, (width - 1) as nat);
    }
}

/// Every component reaches the name: keys that differ in one byte of one field
/// have different indexes, and no snapshot in common.
pub proof fn a_key_that_differs_in_a_byte_has_other_files(
    a: KeyView,
    b: KeyView,
    field: int,
    i: int,
    byte: u8,
    p: u64,
    q: u64,
)
    requires
        0 <= field < 5,
        0 <= i < a.fields()[field].len(),
        a.fields()[field][i] != byte,
        b.fields() == a.fields().update(field, a.fields()[field].update(i, byte)),
    ensures
        a.index_name() != b.index_name(),
        a.file_name(p) != b.file_name(q),
{
    a_changed_field_byte_changes_the_hash(FNV_OFFSET, a.fields(), field, i, byte);
    names_tell_hashes_apart(a, b, p, q);
}

/// A number that stands for the flash attention setting: unset is not the same
/// claim as off.
pub open spec fn flash_code(flash_attention: Option<bool>) -> int {
    match flash_attention {
        Some(true) => 1,
        Some(false) => 2,
        None => 0,
    }
}

/// The batch size, or zero where it is left to the engine.
pub open spec fn batch_code(n_batch: Option<u32>) -> int {
    match n_batch {
        Some(n) => n as int,
        None => 0,
    }
}

/// The settings that could change what a stored cache means, in one number.
pub open spec fn layout_of(settings: ModelSettings) -> int {
    flash_code(settings.flash_attention) + batch_code(settings.n_batch) * 256
}

/// Settings with the same layout agree on flash attention and on the batch size;
/// nothing else about the settings matters.
pub proof fn a_layout_is_flash_attention_and_batch(a: ModelSettings, b: ModelSettings)
    ensures
        layout_of(a) == layout_of(b) <==> a.flash_attention == b.flash_attention && batch_code(
            a.n_batch,
        ) == batch_code(b.n_batch),
{
}

/// The settings that could change what a stored cache means, in one number.
///
/// The batch size almost certainly does not, but leaving it out wrongly would cost
/// a corrupt restore. The number of threads cannot.
pub fn layout_fingerprint(settings: &ModelSettings) -> (layout: u64)
    ensures
        layout == layout_of(*settings),
{
    let flash: u64 = match settings.flash_attention {
        Some(on) => if on {
            1
        } else {
            2
        },
        None => 0,
    };
    let batch: u64 = match settings.n_batch {
        Some(n) => n as u64,
        None => 0,
    };
    assert(flash | (batch << 8) == flash + batch * 256) by (bit_vector)
        requires
            flash <= 2,
            batch <= 0xffff_ffff,
    ;
    flash | (batch << 8)
}

impl SnapshotKey {
    /// The key of a model file, or `None` where the file or its time of
    /// modification cannot be read.
    pub fn new(
        model_path: &str,
        file: Option<FileFacts>,
        n_ctx: u32,
        layout: u64,
    ) -> (key: Option<SnapshotKey>)
        ensures
            match key {
                Some(k) => key_of_file(model_path@, file, n_ctx, layout) == Some(k@),
                None => key_of_file(model_path@, file, n_ctx, layout) is None,
            },
    {
        let facts = match file {
            Some(facts) => facts,
            None => {
                return None;
            },
        };
        let mtime: i64 = match facts.modified {
            Modified::Unavailable => {
                return None;
            },
            Modified::BeforeEpoch => -1,
            Modified::At(secs) => {
                assert(secs > 0x7fff_ffff_ffff_ffff ==> secs as i64
                    == secs - 0x1_0000_0000_0000_0000) by (bit_vector);
                secs as i64
            },
        };
        Some(
            SnapshotKey {
                model_path: model_path.to_owned(),
                model_len: facts.len,
                model_mtime_secs: mtime,
                n_ctx,
                layout,
            },
        )
    }

    /// The hash that every file of this key carries in its name.
    pub fn family(&self) -> (h: u64)
        ensures
            h == self@.family(),
    {
        let mut h = Fnv::new();
        h.write(self.model_path.as_str().as_bytes());
        h.write(to_le_bytes(self.model_len, 8).as_slice());
        h.write(to_le_bytes(to_bits64(self.model_mtime_secs), 8).as_slice());
        h.write(to_le_bytes(self.n_ctx as u64, 4).as_slice());
        h.write(to_le_bytes(self.layout, 8).as_slice());
        proof {
            fields_in_turn(FNV_OFFSET, self@.fields());
        }
        h.finish()
    }

    /// The name of the index of this key's snapshots.
    pub fn index_name(&self) -> (name: String)
        ensures
            name@ == self@.index_name(),
    {
        let mut name = "v".to_owned();
        push_decimal(&mut name, SNAPSHOT_FORMAT_VERSION as u64);
        name.append("-");
        push_hex16(&mut name, self.family());
        name.append(".index.json");
        name
    }

    /// The name of the snapshot of one prompt shape.
    pub fn file_name(&self, bucket: u64) -> (name: String)
        ensures
            name@ == self@.file_name(bucket),
    {
        let mut name = "v".to_owned();
        push_decimal(&mut name, SNAPSHOT_FORMAT_VERSION as u64);
        name.append("-");
        push_hex16(&mut name, self.family());
        name.append("-");
        push_hex16(&mut name, bucket);
        name.append(".kv");
        name
    }
}

/// The name that a snapshot has while it is written.
pub fn part_name(file: &String) -> (name: String)
    ensures
        name@ == unfinished_name(file@),
{
    let mut name = file.clone();
    name.append(".part");
    name
}

/// A layout is a number of two parts: what is set of flash attention, which is zero, one
/// or two, and above it, in steps of two hundred and fifty-six, the batch size, or zero.
pub proof fn a_layout_holds_both_settings(settings: ModelSettings)
    ensures
        settings.flash_attention is None ==> layout_of(settings) % 256 == 0,
        settings.flash_attention == Some(true) ==> layout_of(settings) % 256 == 1,
        settings.flash_attention == Some(false) ==> layout_of(settings) % 256 == 2,
        settings.n_batch is None ==> layout_of(settings) / 256 == 0,
        settings.n_batch matches Some(n) ==> layout_of(settings) / 256 == n,
{
}

/// A key holds the path, the window and the layout that it was made for, and the size and
/// the time of the file. There is one exactly where the time can be read; a time before
/// the epoch counts as one second before it.
pub proof fn a_key_holds_what_the_file_system_says(
    model_path: Seq<char>,
    file: Option<FileFacts>,
    n_ctx: u32,
    layout: u64,
)
    ensures
        ({
            let key = key_of_file(model_path, file, n_ctx, layout);
            &&& key is None <==> file is None || file->0.modified is Unavailable
            &&& key matches Some(k) ==> {
                &&& k.model_path == model_path
                &&& k.model_len == file->0.len
                &&& k.n_ctx == n_ctx
                &&& k.layout == layout
                &&& file->0.modified is BeforeEpoch ==> k.model_mtime_secs == -1
                &&& file->0.modified matches Modified::At(secs) ==> (secs < 0x8000_0000_0000_0000
                    ==> k.model_mtime_secs == secs) && (secs >= 0x8000_0000_0000_0000
                    ==> k.model_mtime_secs == secs - 0x1_0000_0000_0000_0000)
            }
        }),
{
}

/// The files of a key share the beginning of their names with its index; and a file that
/// is being written has a name of its own.
pub proof fn the_files_of_a_key_share_their_beginning(key: KeyView, bucket: u64)
    ensures
        exists|stem: Seq<char>|
            key.index_name() == #[trigger] (stem + ".index.json"@) && key.file_name(bucket) == stem
                + "-"@ + hex_digits(bucket as nat, 16) + ".kv"@,
        unfinished_name(key.file_name(bucket)) == key.file_name(bucket) + ".part"@,
        unfinished_name(key.file_name(bucket)) != key.file_name(bucket),
{
    let stem = "v"@ + decimal(SNAPSHOT_FORMAT_VERSION as nat) + "-"@ + hex_digits(
        key.family() as nat,
        16,
    );
    assert(key.index_name() == stem + ".index.json"@);
    reveal_strlit(".part");
    assert(unfinished_name(key.file_name(bucket)).len() > key.file_name(bucket).len());
}

/// A key is seen as it is.
pub proof fn a_key_is_seen_as_it_is(key: SnapshotKey)
    ensures
        key@.model_path == key.model_path@,
        key@.model_len == key.model_len,
        key@.model_mtime_secs == key.model_mtime_secs,
        key@.n_ctx == key.n_ctx,
        key@.layout == key.layout,
{
}

/// The hash of a key takes in, from the offset basis on, the path, the size and the time of
/// the file, the window and the layout, in that order.
pub proof fn a_key_is_hashed_field_by_field(key: KeyView)
    ensures
        ({
            let path = fnv_field(0xcbf2_9ce4_8422_2325, encode_utf8(key.model_path));
            let size = fnv_field(path, le_bytes(key.model_len as nat, 8));
            let time = fnv_field(size, le_bytes(bits64(key.model_mtime_secs), 8));
            let window = fnv_field(time, le_bytes(key.n_ctx as nat, 4));
            key.family() == fnv_field(window, le_bytes(key.layout as nat, 8))
        }),
{
    fields_in_turn(FNV_OFFSET, key.fields());
}

} // verus!
