//! What lookups and stores come to when the tiers keep what they are
//! given: a model of the two tiers as maps from keys to bytes, and the
//! laws of the cache over it.
//!
//! A real memory tier is bounded and may drop an entry at any time; these
//! laws speak of the moments at which it has not.

use crate::cache::{
    lookup_action_after, lookup_state_after, store_action_after, store_state_after,
    CacheActionView, LookupView, Store,
};
use vstd::prelude::*;

verus! {

/// The contents of the two tiers.
pub struct Tiers {
    pub memory: Map<Seq<char>, Seq<u8>>,
    pub disk: Map<Seq<char>, Seq<u8>>,
}

/// What the tiers say when `action` is carried out for `key`: the bytes
/// that the tier read from holds under the key; nothing for a write.
pub open spec fn reply_of(tiers: Tiers, key: Seq<char>, action: CacheActionView) -> Option<
    Seq<u8>,
> {
    match action {
        CacheActionView::ReadMemory => if tiers.memory.contains_key(key) {
            Some(tiers.memory[key])
        } else {
            None
        },
        CacheActionView::ReadDisk => if tiers.disk.contains_key(key) {
            Some(tiers.disk[key])
        } else {
            None
        },
        _ => None,
    }
}

/// What the tiers hold once `action` is carried out for `key`. A write to
/// disk leaves the disk as it was where `disk_writes` is unset.
pub open spec fn tiers_after(
    tiers: Tiers,
    key: Seq<char>,
    action: CacheActionView,
    disk_writes: bool,
) -> Tiers {
    match action {
        CacheActionView::WriteMemory(data) => Tiers {
            memory: tiers.memory.insert(key, data),
            disk: tiers.disk,
        },
        CacheActionView::WriteDisk(data) => if disk_writes {
            Tiers { memory: tiers.memory, disk: tiers.disk.insert(key, data) }
        } else {
            tiers
        },
        _ => tiers,
    }
}

/// How a lookup ended: what the tiers hold then, what was found, and how
/// often the disk was read.
pub struct LookupRun {
    pub tiers: Tiers,
    pub result: Option<Seq<u8>>,
    pub disk_reads: nat,
}

/// A lookup of `key` that stands in `state` and has just been told
/// `found`, carried on against `tiers` for at most `turns` more turns.
pub open spec fn lookup_from(
    tiers: Tiers,
    key: Seq<char>,
    state: LookupView,
    found: Option<Seq<u8>>,
    turns: nat,
) -> LookupRun
    decreases turns,
{
    let action = lookup_action_after(state, found);
    match action {
        CacheActionView::Finish(result) => LookupRun { tiers, result, disk_reads: 0 },
        _ => if turns == 0 {
            LookupRun { tiers, result: None, disk_reads: 0 }
        } else {
            let rest = lookup_from(
                tiers_after(tiers, key, action, true),
                key,
                lookup_state_after(state, found),
                reply_of(tiers, key, action),
                (turns - 1) as nat,
            );
            LookupRun {
                tiers: rest.tiers,
                result: rest.result,
                disk_reads: rest.disk_reads + (if action is ReadDisk {
                    1nat
                } else {
                    0nat
                }),
            }
        },
    }
}

/// A whole lookup of `key` against `tiers`. No lookup takes more than four
/// turns.
pub open spec fn lookup(tiers: Tiers, key: Seq<char>) -> LookupRun {
    lookup_from(tiers, key, LookupView::Start, None, 4)
}

/// A store of `data` under `key` that stands in `state`, carried on against
/// `tiers` for at most `turns` more turns; the disk takes the write only
/// where `disk_writes` is set.
pub open spec fn store_from(
    tiers: Tiers,
    key: Seq<char>,
    data: Seq<u8>,
    state: Store,
    disk_writes: bool,
    turns: nat,
) -> Tiers
    decreases turns,
{
    let action = store_action_after(state, data);
    match action {
        CacheActionView::Stored => tiers,
        _ => if turns == 0 {
            tiers
        } else {
            store_from(
                tiers_after(tiers, key, action, disk_writes),
                key,
                data,
                store_state_after(state),
                disk_writes,
                (turns - 1) as nat,
            )
        },
    }
}

/// A whole store of `data` under `key`. No store takes more than three
/// turns.
pub open spec fn store(tiers: Tiers, key: Seq<char>, data: Seq<u8>, disk_writes: bool) -> Tiers {
    store_from(tiers, key, data, Store::Start, disk_writes, 3)
}

/// A lookup finds what the memory tier holds under the key, without
/// reading the disk; else what the disk holds, after one read of it and
/// with the memory tier given these bytes; else nothing. It changes
/// nothing else.
pub proof fn lemma_lookup(tiers: Tiers, key: Seq<char>)
    ensures
        tiers.memory.contains_key(key) ==> lookup(tiers, key) == (LookupRun {
            tiers,
            result: Some(tiers.memory[key]),
            disk_reads: 0,
        }),
        !tiers.memory.contains_key(key) && tiers.disk.contains_key(key) ==> lookup(tiers, key) == (
        LookupRun {
            tiers: Tiers { memory: tiers.memory.insert(key, tiers.disk[key]), disk: tiers.disk },
            result: Some(tiers.disk[key]),
            disk_reads: 1,
        }),
        !tiers.memory.contains_key(key) && !tiers.disk.contains_key(key) ==> lookup(tiers, key)
            == (LookupRun { tiers, result: None, disk_reads: 1 }),
{
    reveal_with_fuel(lookup_from, 5);
}

/// Promotion: after a lookup that only the disk could serve, the memory
/// tier holds the tile, and a second lookup of the same key is served
/// with the same bytes and without a read of the disk.
pub proof fn lemma_disk_hit_is_promoted(tiers: Tiers, key: Seq<char>)
    requires
        !tiers.memory.contains_key(key),
        tiers.disk.contains_key(key),
    ensures
        lookup(tiers, key).result == Some(tiers.disk[key]),
        lookup(tiers, key).disk_reads == 1,
        lookup(tiers, key).tiers.memory.contains_key(key),
        lookup(lookup(tiers, key).tiers, key).result == Some(tiers.disk[key]),
        lookup(lookup(tiers, key).tiers, key).disk_reads == 0,
{
    lemma_lookup(tiers, key);
    lemma_lookup(lookup(tiers, key).tiers, key);
}

/// Write-through: a store gives the bytes to the memory tier whether or
/// not the disk takes them, and to the disk where it does; it changes
/// nothing else.
pub proof fn lemma_store(tiers: Tiers, key: Seq<char>, data: Seq<u8>, disk_writes: bool)
    ensures
        store(tiers, key, data, disk_writes).memory == tiers.memory.insert(key, data),
        store(tiers, key, data, disk_writes).disk == (if disk_writes {
            tiers.disk.insert(key, data)
        } else {
            tiers.disk
        }),
{
    reveal_with_fuel(store_from, 4);
}

/// What was stored is found again, and without a read of the disk.
pub proof fn lemma_stored_is_found(
    tiers: Tiers,
    key: Seq<char>,
    data: Seq<u8>,
    disk_writes: bool,
)
    ensures
        lookup(store(tiers, key, data, disk_writes), key).result == Some(data),
        lookup(store(tiers, key, data, disk_writes), key).disk_reads == 0,
{
    lemma_store(tiers, key, data, disk_writes);
    lemma_lookup(store(tiers, key, data, disk_writes), key);
}

} // verus!
