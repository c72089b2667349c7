//! The sysvars that every guest can read, and where their data lies.

use crate::memory_region::HostBuffer;
use solana_sysvar_id::SysvarId;
use vstd::prelude::*;

verus! {

/// Bytes of an account's key.
pub type Pubkey = [u8; 32];

pub open spec fn clock_key() -> Seq<u8> {
    seq![
        6u8, 167, 213, 23, 24, 199, 116, 201, 40, 86, 99, 152, 105, 29, 94, 182, 139, 94, 184, 163,
        155, 75, 109, 92, 115, 85, 91, 33, 0, 0, 0, 0,
    ]
}

pub open spec fn epoch_rewards_key() -> Seq<u8> {
    seq![
        6u8, 167, 213, 23, 24, 220, 63, 238, 2, 165, 88, 191, 131, 206, 102, 225, 68, 66, 42, 28,
        52, 149, 11, 39, 193, 134, 155, 90, 156, 0, 0, 0,
    ]
}

pub open spec fn epoch_schedule_key() -> Seq<u8> {
    seq![
        6u8, 167, 213, 23, 24, 220, 63, 238, 2, 211, 228, 127, 1, 0, 248, 176, 84, 247, 148, 46,
        96, 89, 30, 63, 80, 135, 25, 168, 5, 0, 0, 0,
    ]
}

pub open spec fn last_restart_slot_key() -> Seq<u8> {
    seq![
        6u8, 167, 213, 23, 25, 6, 221, 225, 205, 63, 148, 125, 202, 180, 200, 244, 244, 245, 27,
        173, 15, 152, 19, 184, 0, 210, 137, 71, 31, 192, 0, 0,
    ]
}

pub open spec fn rent_key() -> Seq<u8> {
    seq![
        6u8, 167, 213, 23, 25, 44, 92, 81, 33, 140, 201, 76, 61, 74, 241, 127, 88, 218, 238, 8,
        155, 161, 253, 68, 227, 219, 217, 138, 0, 0, 0, 0,
    ]
}

pub open spec fn slot_hashes_key() -> Seq<u8> {
    seq![
        6u8, 167, 213, 23, 25, 47, 10, 175, 198, 242, 101, 227, 251, 119, 204, 122, 218, 130, 197,
        41, 208, 190, 59, 19, 110, 45, 0, 85, 32, 0, 0, 0,
    ]
}

pub open spec fn stake_history_key() -> Seq<u8> {
    seq![
        6u8, 167, 213, 23, 25, 53, 132, 208, 254, 237, 155, 179, 67, 29, 19, 32, 107, 229, 68, 40,
        27, 87, 184, 86, 108, 197, 55, 95, 244, 0, 0, 0,
    ]
}

/// The keys of the sysvars in the order of their areas, lowest area first.
pub open spec fn sysvar_keys_by_area() -> Seq<Seq<u8>> {
    seq![
        stake_history_key(),
        slot_hashes_key(),
        rent_key(),
        last_restart_slot_key(),
        epoch_schedule_key(),
        epoch_rewards_key(),
        clock_key(),
    ]
}

/// `solana_clock::Clock::id`, the bytes of `SysvarC1ock11111111111111111111111111111111`.
#[verifier::external_body]
fn clock_id() -> (id: Pubkey)
    ensures
        id@ == clock_key(),
{
    solana_clock::Clock::id().to_bytes()
}

/// `solana_epoch_rewards::EpochRewards::id`, the bytes of
/// `SysvarEpochRewards1111111111111111111111111`.
#[verifier::external_body]
fn epoch_rewards_id() -> (id: Pubkey)
    ensures
        id@ == epoch_rewards_key(),
{
    solana_epoch_rewards::EpochRewards::id().to_bytes()
}

/// `solana_epoch_schedule::EpochSchedule::id`, the bytes of
/// `SysvarEpochSchedu1e111111111111111111111111`.
#[verifier::external_body]
fn epoch_schedule_id() -> (id: Pubkey)
    ensures
        id@ == epoch_schedule_key(),
{
    solana_epoch_schedule::EpochSchedule::id().to_bytes()
}

/// `solana_last_restart_slot::LastRestartSlot::id`, the bytes of
/// `SysvarLastRestartS1ot1111111111111111111111`.
#[verifier::external_body]
fn last_restart_slot_id() -> (id: Pubkey)
    ensures
        id@ == last_restart_slot_key(),
{
    solana_last_restart_slot::LastRestartSlot::id().to_bytes()
}

/// `solana_rent::Rent::id`, the bytes of `SysvarRent111111111111111111111111111111111`.
#[verifier::external_body]
fn rent_id() -> (id: Pubkey)
    ensures
        id@ == rent_key(),
{
    solana_rent::Rent::id().to_bytes()
}

/// `solana_slot_hashes::SlotHashes::id`, the bytes of
/// `SysvarS1otHashes111111111111111111111111111`.
#[verifier::external_body]
fn slot_hashes_id() -> (id: Pubkey)
    ensures
        id@ == slot_hashes_key(),
{
    solana_slot_hashes::SlotHashes::id().to_bytes()
}

/// `solana_stake_interface::stake_history::StakeHistory::id`, the bytes of
/// `SysvarStakeHistory1111111111111111111111111`.
#[verifier::external_body]
fn stake_history_id() -> (id: Pubkey)
    ensures
        id@ == stake_history_key(),
{
    solana_stake_interface::stake_history::StakeHistory::id().to_bytes()
}

/// The keys of the sysvars that have an area, lowest area first.
pub fn sysvar_ids_by_area() -> (ids: Vec<Pubkey>)
    ensures
        ids@.len() == sysvar_keys_by_area().len(),
        forall|i: int|
            0 <= i < ids@.len() ==> (#[trigger] ids@[i])@ == sysvar_keys_by_area()[i],
{
    let mut ids: Vec<Pubkey> = Vec::new();
    ids.push(stake_history_id());
    ids.push(slot_hashes_id());
    ids.push(rent_id());
    ids.push(last_restart_slot_id());
    ids.push(epoch_schedule_id());
    ids.push(epoch_rewards_id());
    ids.push(clock_id());
    ids
}

/// Whether two keys are the same.
pub fn same_key(a: &Pubkey, b: &Pubkey) -> (same: bool)
    ensures
        same == (a@ == b@),
        same == (*a == *b),
{
    let mut i: usize = 0;
    while i < 32
        invariant
            i <= 32,
            forall|j: int| 0 <= j < i ==> a@[j] == b@[j],
        decreases 32 - i,
    {
        if a[i] != b[i] {
            return false;
        }
        i = i + 1;
    }
    assert(a@ =~= b@);
    assert(*a =~= *b);
    true
}

/// Data of one sysvar.
#[derive(Clone, Copy, Debug)]
pub struct SysvarBuffer {
    pub id: Pubkey,
    pub data: HostBuffer,
}

/// The sysvars that the runtime holds data of.
#[derive(Debug)]
pub struct SysvarCache {
    pub buffers: Vec<SysvarBuffer>,
}

/// The data of the first sysvar, from `from` on, that has the given key.
pub open spec fn first_buffer(buffers: Seq<SysvarBuffer>, key: Seq<u8>, from: int) -> Option<
    HostBuffer,
>
    decreases buffers.len() - from,
{
    if from < 0 || from >= buffers.len() {
        None
    } else if buffers[from].id@ == key {
        Some(buffers[from].data)
    } else {
        first_buffer(buffers, key, from + 1)
    }
}

impl SysvarCache {
    /// The data held of the sysvar with the given key, if any.
    pub open spec fn buffer_of(self, key: Seq<u8>) -> Option<HostBuffer> {
        first_buffer(self.buffers@, key, 0)
    }

    pub fn sysvar_id_to_buffer(&self, id: &Pubkey) -> (buffer: Option<HostBuffer>)
        ensures
            buffer == self.buffer_of(id@),
    {
        let mut i: usize = 0;
        while i < self.buffers.len()
            invariant
                i <= self.buffers@.len(),
                self.buffer_of(id@) == first_buffer(self.buffers@, id@, i as int),
            decreases self.buffers@.len() - i,
        {
            if same_key(&self.buffers[i].id, id) {
                return Some(self.buffers[i].data);
            }
            i = i + 1;
        }
        None
    }
}

proof fn lemma_first_buffer_from(buffers: Seq<SysvarBuffer>, key: Seq<u8>, from: int, b: int)
    requires
        0 <= from <= b < buffers.len(),
        buffers[b].id@ == key,
        forall|c: int| from <= c < b ==> (#[trigger] buffers[c]).id@ != key,
    ensures
        first_buffer(buffers, key, from) == Some(buffers[b].data),
    decreases b - from,
{
    if from < b {
        assert(buffers[from].id@ != key);
        lemma_first_buffer_from(buffers, key, from + 1, b);
    }
}

proof fn lemma_no_buffer_from(buffers: Seq<SysvarBuffer>, key: Seq<u8>, from: int)
    requires
        0 <= from <= buffers.len(),
        forall|c: int| from <= c < buffers.len() ==> (#[trigger] buffers[c]).id@ != key,
    ensures
        first_buffer(buffers, key, from) is None,
    decreases buffers.len() - from,
{
    if from < buffers.len() {
        assert(buffers[from].id@ != key);
        lemma_no_buffer_from(buffers, key, from + 1);
    }
}

/// The data that a cache gives of a sysvar is the data of its first entry with that sysvar's key.
pub proof fn lemma_cache_gives_the_first_entry(cache: SysvarCache, key: Seq<u8>, b: int)
    requires
        0 <= b < cache.buffers@.len(),
        cache.buffers@[b].id@ == key,
        forall|c: int| 0 <= c < b ==> (#[trigger] cache.buffers@[c]).id@ != key,
    ensures
        cache.buffer_of(key) == Some(cache.buffers@[b].data),
{
    lemma_first_buffer_from(cache.buffers@, key, 0, b);
}

/// A cache gives nothing of a sysvar that it has no entry of.
pub proof fn lemma_cache_gives_nothing_without_an_entry(cache: SysvarCache, key: Seq<u8>)
    requires
        forall|c: int| 0 <= c < cache.buffers@.len() ==> (#[trigger] cache.buffers@[c]).id@ != key,
    ensures
        cache.buffer_of(key) is None,
{
    lemma_no_buffer_from(cache.buffers@, key, 0);
}

/// Each sysvar has its own place among the areas.
pub proof fn lemma_sysvar_places()
    ensures
        sysvar_keys_by_area().len() == 7,
        sysvar_keys_by_area()[0] == stake_history_key(),
        sysvar_keys_by_area()[1] == slot_hashes_key(),
        sysvar_keys_by_area()[2] == rent_key(),
        sysvar_keys_by_area()[3] == last_restart_slot_key(),
        sysvar_keys_by_area()[4] == epoch_schedule_key(),
        sysvar_keys_by_area()[5] == epoch_rewards_key(),
        sysvar_keys_by_area()[6] == clock_key(),
{
}

} // verus!
