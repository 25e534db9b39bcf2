//! The tile cache: how keys are derived, and what the two tiers are asked
//! to do when a tile is looked up or stored.
//!
//! The tiers themselves (a bounded store in memory, a directory on disk)
//! are not part of this library. A caller starts a lookup in the state
//! [`Lookup::Start`], carries out each action that [`TileCache::get`]
//! hands back, and reports what the tier said, until the action is
//! [`CacheAction::Finish`]. Storing goes the same way with
//! [`TileCache::set`].

pub mod model;

use vstd::prelude::*;
use vstd::slice::slice_to_vec;
use vstd::string::StringSliceAdditionalSpecFns;
use sha2::Digest;
use sha2::Sha256;

verus! {

/// The SHA-256 digest of `data`. Nothing is known of it here but that it
/// is a function of the data.
pub uninterp spec fn sha256(data: Seq<u8>) -> Seq<u8>;

/// `Sha256::digest` of the `sha2` crate, which hashes the data in one go.
/// Taken on trust: what it returns is the SHA-256 digest of `data`, and it
/// is 32 bytes long.
#[verifier::external_body]
fn sha256_digest(data: &[u8]) -> (digest: Vec<u8>)
    ensures
        digest@ == sha256(data@),
        digest@.len() == 32,
{
    Sha256::digest(data).to_vec()
}

/// The lower-case hexadecimal digit for `n`.
pub open spec fn hex_digit(n: u8) -> char
    recommends
        n < 16,
{
    if n < 10 {
        ((48 + n) as u8) as char
    } else {
        ((87 + n) as u8) as char
    }
}

/// The lower-case hexadecimal form of `bytes`: two digits for each byte,
/// the high half first.
pub open spec fn hex_of(bytes: Seq<u8>) -> Seq<char> {
    Seq::new(
        2 * bytes.len(),
        |i: int|
            if i % 2 == 0 {
                hex_digit(bytes[i / 2] / 16)
            } else {
                hex_digit(bytes[i / 2] % 16)
            },
    )
}

/// The bytes that are hashed for a key: those of the identifier, then
/// those of the parameter string, with nothing between them.
pub open spec fn key_material(identifier: Seq<char>, params: Seq<char>) -> Seq<u8> {
    vstd::utf8::encode_utf8(identifier) + vstd::utf8::encode_utf8(params)
}

/// The cache key of a tile: the SHA-256 digest of the identifier followed
/// by the parameter string, in lower-case hexadecimal.
pub open spec fn key_of(identifier: Seq<char>, params: Seq<char>) -> Seq<char> {
    hex_of(sha256(key_material(identifier, params)))
}

/// The parameter string of a request: its five segments as they were
/// written, joined as they are in the path.
pub open spec fn params_of(
    region: Seq<char>,
    size: Seq<char>,
    rotation: Seq<char>,
    quality: Seq<char>,
    format: Seq<char>,
) -> Seq<char> {
    region + seq!['/'] + size + seq!['/'] + rotation + seq!['/'] + quality + seq!['.'] + format
}

/// A text between the same two texts: where the wholes agree, so do the
/// middles.
pub proof fn lemma_middle_decides<T>(before: Seq<T>, x: Seq<T>, y: Seq<T>, after: Seq<T>)
    requires
        before + x + after == before + y + after,
    ensures
        x == y,
{
    let wx = before + x + after;
    let wy = before + y + after;
    assert(wx.len() == wy.len());
    assert(x =~= wx.subrange(before.len() as int, (before.len() + x.len()) as int));
    assert(y =~= wy.subrange(before.len() as int, (before.len() + y.len()) as int));
}

/// Identical inputs give identical keys.
pub proof fn lemma_same_inputs_same_key(
    identifier1: Seq<char>,
    params1: Seq<char>,
    identifier2: Seq<char>,
    params2: Seq<char>,
)
    requires
        identifier1 == identifier2,
        params1 == params2,
    ensures
        key_of(identifier1, params1) == key_of(identifier2, params2),
{
}

/// Two identifiers that differ are hashed as different bytes under the
/// same parameter string. (That the digests then differ is what SHA-256
/// is trusted for; it is not proved.)
pub proof fn lemma_identifiers_are_told_apart(
    identifier1: Seq<char>,
    identifier2: Seq<char>,
    params: Seq<char>,
)
    requires
        identifier1 != identifier2,
    ensures
        key_material(identifier1, params) != key_material(identifier2, params),
{
    let e1 = vstd::utf8::encode_utf8(identifier1);
    let e2 = vstd::utf8::encode_utf8(identifier2);
    let p = vstd::utf8::encode_utf8(params);
    vstd::utf8::encode_utf8_decode_utf8(identifier1);
    vstd::utf8::encode_utf8_decode_utf8(identifier2);
    if e1 + p == e2 + p {
        assert(Seq::<u8>::empty() + e1 + p == e1 + p);
        assert(Seq::<u8>::empty() + e2 + p == e2 + p);
        lemma_middle_decides(Seq::<u8>::empty(), e1, e2, p);
    }
}

/// Two parameter strings that differ are hashed as different bytes under
/// the same identifier.
pub proof fn lemma_params_are_told_apart(
    identifier: Seq<char>,
    params1: Seq<char>,
    params2: Seq<char>,
)
    requires
        params1 != params2,
    ensures
        key_material(identifier, params1) != key_material(identifier, params2),
{
    let i = vstd::utf8::encode_utf8(identifier);
    let e1 = vstd::utf8::encode_utf8(params1);
    let e2 = vstd::utf8::encode_utf8(params2);
    vstd::utf8::encode_utf8_decode_utf8(params1);
    vstd::utf8::encode_utf8_decode_utf8(params2);
    if i + e1 == i + e2 {
        assert(i + e1 + Seq::<u8>::empty() == i + e1);
        assert(i + e2 + Seq::<u8>::empty() == i + e2);
        lemma_middle_decides(i, e1, e2, Seq::<u8>::empty());
    }
}

/// Two requests whose written segments differ in one place have different
/// parameter strings.
pub proof fn lemma_segments_are_told_apart(
    region1: Seq<char>,
    size1: Seq<char>,
    rotation1: Seq<char>,
    quality1: Seq<char>,
    format1: Seq<char>,
    region2: Seq<char>,
    size2: Seq<char>,
    rotation2: Seq<char>,
    quality2: Seq<char>,
    format2: Seq<char>,
)
    requires
        ({
            let r = region1 != region2;
            let s = size1 != size2;
            let o = rotation1 != rotation2;
            let q = quality1 != quality2;
            let f = format1 != format2;
            ||| (r && !s && !o && !q && !f)
            ||| (!r && s && !o && !q && !f)
            ||| (!r && !s && o && !q && !f)
            ||| (!r && !s && !o && q && !f)
            ||| (!r && !s && !o && !q && f)
        }),
    ensures
        params_of(region1, size1, rotation1, quality1, format1) != params_of(
            region2,
            size2,
            rotation2,
            quality2,
            format2,
        ),
{
    let slash = seq!['/'];
    let dot = seq!['.'];
    let one = params_of(region1, size1, rotation1, quality1, format1);
    let other = params_of(region2, size2, rotation2, quality2, format2);
    let none = Seq::<char>::empty();
    if one == other {
        if region1 != region2 {
            let after = slash + size1 + slash + rotation1 + slash + quality1 + dot + format1;
            assert(one =~= none + region1 + after);
            assert(other =~= none + region2 + after);
            lemma_middle_decides(none, region1, region2, after);
        } else if size1 != size2 {
            let before = region1 + slash;
            let after = slash + rotation1 + slash + quality1 + dot + format1;
            assert(one =~= before + size1 + after);
            assert(other =~= before + size2 + after);
            lemma_middle_decides(before, size1, size2, after);
        } else if rotation1 != rotation2 {
            let before = region1 + slash + size1 + slash;
            let after = slash + quality1 + dot + format1;
            assert(one =~= before + rotation1 + after);
            assert(other =~= before + rotation2 + after);
            lemma_middle_decides(before, rotation1, rotation2, after);
        } else if quality1 != quality2 {
            let before = region1 + slash + size1 + slash + rotation1 + slash;
            let after = dot + format1;
            assert(one =~= before + quality1 + after);
            assert(other =~= before + quality2 + after);
            lemma_middle_decides(before, quality1, quality2, after);
        } else {
            let before = region1 + slash + size1 + slash + rotation1 + slash + quality1 + dot;
            assert(one =~= before + format1 + none);
            assert(other =~= before + format2 + none);
            lemma_middle_decides(before, format1, format2, none);
        }
    }
}

/// Two requests that differ in one place, be it the identifier or one of
/// the five written segments, are hashed as different bytes.
pub proof fn lemma_requests_are_told_apart(
    identifier1: Seq<char>,
    region1: Seq<char>,
    size1: Seq<char>,
    rotation1: Seq<char>,
    quality1: Seq<char>,
    format1: Seq<char>,
    identifier2: Seq<char>,
    region2: Seq<char>,
    size2: Seq<char>,
    rotation2: Seq<char>,
    quality2: Seq<char>,
    format2: Seq<char>,
)
    requires
        ({
            let i = identifier1 != identifier2;
            let r = region1 != region2;
            let s = size1 != size2;
            let o = rotation1 != rotation2;
            let q = quality1 != quality2;
            let f = format1 != format2;
            ||| (i && !r && !s && !o && !q && !f)
            ||| (!i && r && !s && !o && !q && !f)
            ||| (!i && !r && s && !o && !q && !f)
            ||| (!i && !r && !s && o && !q && !f)
            ||| (!i && !r && !s && !o && q && !f)
            ||| (!i && !r && !s && !o && !q && f)
        }),
    ensures
        key_material(identifier1, params_of(region1, size1, rotation1, quality1, format1))
            != key_material(identifier2, params_of(region2, size2, rotation2, quality2, format2)),
{
    let params1 = params_of(region1, size1, rotation1, quality1, format1);
    let params2 = params_of(region2, size2, rotation2, quality2, format2);
    if identifier1 != identifier2 {
        lemma_identifiers_are_told_apart(identifier1, identifier2, params1);
    } else {
        lemma_segments_are_told_apart(
            region1,
            size1,
            rotation1,
            quality1,
            format1,
            region2,
            size2,
            rotation2,
            quality2,
            format2,
        );
        lemma_params_are_told_apart(identifier1, params1, params2);
    }
}

/// Two digests that differ are written as different keys: the
/// hexadecimal form loses nothing.
pub proof fn lemma_hex_tells_apart(a: Seq<u8>, b: Seq<u8>)
    requires
        a != b,
    ensures
        hex_of(a) != hex_of(b),
{
    if hex_of(a) == hex_of(b) {
        assert(hex_of(a).len() == hex_of(b).len());
        assert(a.len() == b.len());
        assert forall|i: int| 0 <= i < a.len() implies a[i] == b[i] by {
            assert((2 * i) % 2 == 0 && (2 * i) / 2 == i);
            assert((2 * i + 1) % 2 == 1 && (2 * i + 1) / 2 == i);
            assert(hex_of(a)[2 * i] == hex_of(b)[2 * i]);
            assert(hex_of(a)[2 * i + 1] == hex_of(b)[2 * i + 1]);
            assert(hex_digit(a[i] / 16) == hex_digit(b[i] / 16));
            assert(hex_digit(a[i] % 16) == hex_digit(b[i] % 16));
        }
        assert(a =~= b);
    }
}

/// The lower-case hexadecimal digit for `n`.
fn hex_char(n: u8) -> (c: char)
    requires
        n < 16,
    ensures
        c == hex_digit(n),
{
    if n < 10 {
        (48 + n) as char
    } else {
        (87 + n) as char
    }
}

/// The lower-case hexadecimal form of `bytes`.
pub fn to_hex(bytes: &[u8]) -> (text: String)
    ensures
        text@ == hex_of(bytes@),
{
    let mut text = String::new();
    let mut i: usize = 0;
    while i < bytes.len()
        invariant
            i <= bytes@.len(),
            text@.len() == 2 * i,
            forall|j: int| 0 <= j < 2 * i ==> text@[j] == hex_of(bytes@)[j],
        decreases bytes@.len() - i,
    {
        let b = bytes[i];
        text.push(hex_char(b / 16));
        text.push(hex_char(b % 16));
        i += 1;
    }
    assert(text@ =~= hex_of(bytes@));
    text
}

/// What a tier is asked to do for the key at hand.
#[derive(Debug)]
pub enum CacheAction {
    /// Look the key up in the memory tier.
    ReadMemory,
    /// Read the key's file in the disk tier.
    ReadDisk,
    /// Put these bytes under the key in the memory tier.
    WriteMemory(Vec<u8>),
    /// Write these bytes to the key's file in the disk tier, creating the
    /// directory where it is missing.
    WriteDisk(Vec<u8>),
    /// Nothing more: the lookup ends with these bytes, or with a miss.
    Finish(Option<Vec<u8>>),
    /// Nothing more: the tile is stored.
    Stored,
}

/// What a [`CacheAction`] says, with its bytes as values.
pub enum CacheActionView {
    ReadMemory,
    ReadDisk,
    WriteMemory(Seq<u8>),
    WriteDisk(Seq<u8>),
    Finish(Option<Seq<u8>>),
    Stored,
}

/// The bytes that were found, as values.
pub open spec fn bytes_of(found: Option<Vec<u8>>) -> Option<Seq<u8>> {
    match found {
        Some(data) => Some(data@),
        None => None,
    }
}

impl View for CacheAction {
    type V = CacheActionView;

    open spec fn view(&self) -> CacheActionView {
        match self {
            CacheAction::ReadMemory => CacheActionView::ReadMemory,
            CacheAction::ReadDisk => CacheActionView::ReadDisk,
            CacheAction::WriteMemory(data) => CacheActionView::WriteMemory(data@),
            CacheAction::WriteDisk(data) => CacheActionView::WriteDisk(data@),
            CacheAction::Finish(found) => CacheActionView::Finish(bytes_of(*found)),
            CacheAction::Stored => CacheActionView::Stored,
        }
    }
}

/// How far a lookup has come.
#[derive(Debug)]
pub enum Lookup {
    /// Nothing was asked yet.
    Start,
    /// The memory tier was asked.
    Memory,
    /// The memory tier had nothing, and the disk tier was asked.
    Disk,
    /// The disk tier had these bytes, and the memory tier was given them.
    Promote(Vec<u8>),
    /// The lookup has ended.
    Done,
}

/// What a [`Lookup`] says, with its bytes as values.
pub enum LookupView {
    Start,
    Memory,
    Disk,
    Promote(Seq<u8>),
    Done,
}

impl View for Lookup {
    type V = LookupView;

    open spec fn view(&self) -> LookupView {
        match self {
            Lookup::Start => LookupView::Start,
            Lookup::Memory => LookupView::Memory,
            Lookup::Disk => LookupView::Disk,
            Lookup::Promote(data) => LookupView::Promote(data@),
            Lookup::Done => LookupView::Done,
        }
    }
}

/// One turn of a lookup: the state it is in now, and what to do next.
#[derive(Debug)]
pub struct LookupTurn {
    pub state: Lookup,
    pub action: CacheAction,
}

/// How far a store has come.
#[derive(Clone, Copy, Debug, PartialEq, Eq, Structural)]
pub enum Store {
    /// Nothing was written yet.
    Start,
    /// The memory tier was given the bytes.
    Memory,
    /// The disk tier was given the bytes.
    Disk,
    /// The store has ended.
    Done,
}

/// One turn of a store: the state it is in now, and what to do next.
#[derive(Debug)]
pub struct StoreTurn {
    pub state: Store,
    pub action: CacheAction,
}

/// The state that follows `state` of a lookup when the tier that was asked
/// last said `found`.
pub open spec fn lookup_state_after(state: LookupView, found: Option<Seq<u8>>) -> LookupView {
    match state {
        LookupView::Start => LookupView::Memory,
        LookupView::Memory => match found {
            Some(_) => LookupView::Done,
            None => LookupView::Disk,
        },
        LookupView::Disk => match found {
            Some(data) => LookupView::Promote(data),
            None => LookupView::Done,
        },
        LookupView::Promote(_) => LookupView::Done,
        LookupView::Done => LookupView::Done,
    }
}

/// What a lookup in `state` does when the tier that was asked last said
/// `found`: memory first; on a miss there, disk; what disk had goes into
/// memory before the lookup ends with it.
pub open spec fn lookup_action_after(state: LookupView, found: Option<Seq<u8>>) -> CacheActionView {
    match state {
        LookupView::Start => CacheActionView::ReadMemory,
        LookupView::Memory => match found {
            Some(data) => CacheActionView::Finish(Some(data)),
            None => CacheActionView::ReadDisk,
        },
        LookupView::Disk => match found {
            Some(data) => CacheActionView::WriteMemory(data),
            None => CacheActionView::Finish(None),
        },
        LookupView::Promote(data) => CacheActionView::Finish(Some(data)),
        LookupView::Done => CacheActionView::Finish(None),
    }
}

/// The state that follows `state` of a store.
pub open spec fn store_state_after(state: Store) -> Store {
    match state {
        Store::Start => Store::Memory,
        Store::Memory => Store::Disk,
        Store::Disk => Store::Done,
        Store::Done => Store::Done,
    }
}

/// What a store of `data` in `state` does: memory first, then disk.
pub open spec fn store_action_after(state: Store, data: Seq<u8>) -> CacheActionView {
    match state {
        Store::Start => CacheActionView::WriteMemory(data),
        Store::Memory => CacheActionView::WriteDisk(data),
        Store::Disk => CacheActionView::Stored,
        Store::Done => CacheActionView::Stored,
    }
}

/// The settings of the two tiers, and the rules by which they are used.
#[derive(Debug)]
pub struct TileCache {
    pub disk_dir: String,
    pub memory_limit_bytes: u64,
}

impl TileCache {
    /// A cache whose disk tier is the directory `disk_dir` and whose memory
    /// tier may hold `memory_limit_bytes`.
    pub fn new(disk_dir: String, memory_limit_bytes: u64) -> (cache: TileCache)
        ensures
            cache.disk_dir == disk_dir,
            cache.memory_limit_bytes == memory_limit_bytes,
    {
        TileCache { disk_dir, memory_limit_bytes }
    }

    /// The key of the tile of `identifier` with the parameter string
    /// `params`. The identifier counts with its page selector, and the
    /// parameter string as it was written.
    pub fn get_key(identifier: &str, params: &str) -> (key: String)
        ensures
            key@ == key_of(identifier@, params@),
            key@.len() == 64,
    {
        let mut material = slice_to_vec(identifier.as_bytes());
        material.extend_from_slice(params.as_bytes());
        assert(material@ == identifier.spec_bytes() + params.spec_bytes());
        assert(material@ == key_material(identifier@, params@));
        let digest = sha256_digest(material.as_slice());
        to_hex(digest.as_slice())
    }

    /// The next turn of a lookup in `state`, when the tier that was asked
    /// last said `found`: `None` for a miss, for a file that could not be
    /// read, and where nothing was asked.
    pub fn get(&self, state: Lookup, found: Option<Vec<u8>>) -> (turn: LookupTurn)
        ensures
            turn.state@ == lookup_state_after(state@, bytes_of(found)),
            turn.action@ == lookup_action_after(state@, bytes_of(found)),
    {
        match state {
            Lookup::Start => LookupTurn { state: Lookup::Memory, action: CacheAction::ReadMemory },
            Lookup::Memory => match found {
                Some(data) => LookupTurn {
                    state: Lookup::Done,
                    action: CacheAction::Finish(Some(data)),
                },
                None => LookupTurn { state: Lookup::Disk, action: CacheAction::ReadDisk },
            },
            Lookup::Disk => match found {
                Some(data) => {
                    let copy = slice_to_vec(data.as_slice());
                    LookupTurn {
                        state: Lookup::Promote(data),
                        action: CacheAction::WriteMemory(copy),
                    }
                },
                None => LookupTurn { state: Lookup::Done, action: CacheAction::Finish(None) },
            },
            Lookup::Promote(data) => LookupTurn {
                state: Lookup::Done,
                action: CacheAction::Finish(Some(data)),
            },
            Lookup::Done => LookupTurn { state: Lookup::Done, action: CacheAction::Finish(None) },
        }
    }

    /// The next turn of a store of `data` in `state`. Whether the write
    /// before succeeded (`written`) changes nothing: a tile counts as
    /// stored once both tiers were given it.
    pub fn set(&self, state: Store, data: &[u8], written: bool) -> (turn: StoreTurn)
        ensures
            turn.state == store_state_after(state),
            turn.action@ == store_action_after(state, data@),
    {
        match state {
            Store::Start => StoreTurn {
                state: Store::Memory,
                action: CacheAction::WriteMemory(slice_to_vec(data)),
            },
            Store::Memory => StoreTurn {
                state: Store::Disk,
                action: CacheAction::WriteDisk(slice_to_vec(data)),
            },
            Store::Disk => StoreTurn { state: Store::Done, action: CacheAction::Stored },
            Store::Done => StoreTurn { state: Store::Done, action: CacheAction::Stored },
        }
    }
}

} // verus!
