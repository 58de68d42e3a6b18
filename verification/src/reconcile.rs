//! The per-iteration reconciliation logic: change detection over loop-carried
//! state, extraction of the slot a block was produced in, the mint decision
//! for a new best head, the finality backfill over a range of newly finalized
//! blocks, and the adaptive sleep until the next poll.
//!
//! All loop-carried mutable state lives in an explicit [`PollState`] value
//! that each observation updates, so a whole monitoring history can be
//! replayed synthetically.

use crate::schedule::assigned_index;
use crate::store::Status;
use crate::store::Store;
use crate::store::spec_update_block_status;
use vstd::bytes::spec_u64_from_le_bytes;
use vstd::bytes::u64_from_le_bytes;
use vstd::prelude::*;

verus! {

/// What the poll loop carries from one iteration to the next. Losing this
/// state (a restart) only causes re-emission: every write it suppresses is
/// idempotent.
pub struct PollState {
    pub prev_fingerprint: Option<Vec<u8>>,
    pub prev_len: u64,
    pub prev_author_present: Option<bool>,
    pub prev_schedule_fingerprint: Option<Vec<u8>>,
    pub prev_epoch: Option<u64>,
    pub last_best_hash: Option<Vec<u8>>,
    pub last_finalized_number: u64,
}

impl PollState {
    /// The state before anything was observed.
    pub fn new() -> (s: PollState)
        ensures
            s.prev_fingerprint is None,
            s.prev_len == 0,
            s.prev_author_present is None,
            s.prev_schedule_fingerprint is None,
            s.prev_epoch is None,
            s.last_best_hash is None,
            s.last_finalized_number == 0,
    {
        PollState {
            prev_fingerprint: None,
            prev_len: 0,
            prev_author_present: None,
            prev_schedule_fingerprint: None,
            prev_epoch: None,
            last_best_hash: None,
            last_finalized_number: 0,
        }
    }

    /// Record the fetched authority set's fingerprint and length; true when
    /// either differs from the previous observation, or there was none.
    pub fn observe_authorities(&mut self, fingerprint: &Vec<u8>, len: u64) -> (changed: bool)
        ensures
            changed == !(old(self).prev_fingerprint matches Some(p) && p@ == fingerprint@ && old(
                self,
            ).prev_len == len),
            final(self).prev_fingerprint matches Some(p) && p@ == fingerprint@,
            final(self).prev_len == len,
            final(self).prev_author_present == old(self).prev_author_present,
            final(self).prev_schedule_fingerprint == old(self).prev_schedule_fingerprint,
            final(self).prev_epoch == old(self).prev_epoch,
            final(self).last_best_hash == old(self).last_best_hash,
            final(self).last_finalized_number == old(self).last_finalized_number,
    {
        let changed = match &self.prev_fingerprint {
            Some(p) => !crate::schedule::bytes_eq(p, fingerprint) || self.prev_len != len,
            None => true,
        };
        self.prev_fingerprint = Some(fingerprint.clone());
        self.prev_len = len;
        changed
    }

    /// Record the epoch the iteration settled on; true when it differs from
    /// the previous iteration's epoch, or there was none.
    pub fn observe_epoch(&mut self, epoch_idx: u64) -> (switched: bool)
        ensures
            switched == (old(self).prev_epoch != Some(epoch_idx)),
            final(self).prev_epoch == Some(epoch_idx),
            final(self).prev_fingerprint == old(self).prev_fingerprint,
            final(self).prev_len == old(self).prev_len,
            final(self).prev_author_present == old(self).prev_author_present,
            final(self).prev_schedule_fingerprint == old(self).prev_schedule_fingerprint,
            final(self).last_best_hash == old(self).last_best_hash,
            final(self).last_finalized_number == old(self).last_finalized_number,
    {
        let switched = match self.prev_epoch {
            Some(e) => e != epoch_idx,
            None => true,
        };
        self.prev_epoch = Some(epoch_idx);
        switched
    }

    /// Record whether the identity is in the current authority set; true
    /// when that differs from the previous observation, or there was none.
    pub fn observe_author_present(&mut self, present: bool) -> (changed: bool)
        ensures
            changed == (old(self).prev_author_present != Some(present)),
            final(self).prev_author_present == Some(present),
            final(self).prev_fingerprint == old(self).prev_fingerprint,
            final(self).prev_len == old(self).prev_len,
            final(self).prev_schedule_fingerprint == old(self).prev_schedule_fingerprint,
            final(self).prev_epoch == old(self).prev_epoch,
            final(self).last_best_hash == old(self).last_best_hash,
            final(self).last_finalized_number == old(self).last_finalized_number,
    {
        let changed = match self.prev_author_present {
            Some(p) => p != present,
            None => true,
        };
        self.prev_author_present = Some(present);
        changed
    }

    /// Record the fingerprint of the identity's own computed schedule; true
    /// when the assignment changed (even within one epoch), or was never
    /// computed before.
    pub fn observe_schedule(&mut self, schedule_fingerprint: &Vec<u8>) -> (changed: bool)
        ensures
            changed == !(old(self).prev_schedule_fingerprint matches Some(p) && p@
                == schedule_fingerprint@),
            final(self).prev_schedule_fingerprint matches Some(p) && p@ == schedule_fingerprint@,
            final(self).prev_fingerprint == old(self).prev_fingerprint,
            final(self).prev_len == old(self).prev_len,
            final(self).prev_author_present == old(self).prev_author_present,
            final(self).prev_epoch == old(self).prev_epoch,
            final(self).last_best_hash == old(self).last_best_hash,
            final(self).last_finalized_number == old(self).last_finalized_number,
    {
        let changed = match &self.prev_schedule_fingerprint {
            Some(p) => !crate::schedule::bytes_eq(p, schedule_fingerprint),
            None => true,
        };
        self.prev_schedule_fingerprint = Some(schedule_fingerprint.clone());
        changed
    }

    /// Record the best head's hash; true when a head with another hash (or
    /// the first head) was observed, which is the mint trigger.
    pub fn observe_best_head(&mut self, best_hash: &Vec<u8>) -> (is_new: bool)
        ensures
            is_new == !(old(self).last_best_hash matches Some(h) && h@ == best_hash@),
            final(self).last_best_hash matches Some(h) && h@ == best_hash@,
            final(self).prev_fingerprint == old(self).prev_fingerprint,
            final(self).prev_len == old(self).prev_len,
            final(self).prev_author_present == old(self).prev_author_present,
            final(self).prev_schedule_fingerprint == old(self).prev_schedule_fingerprint,
            final(self).prev_epoch == old(self).prev_epoch,
            final(self).last_finalized_number == old(self).last_finalized_number,
    {
        let is_new = match &self.last_best_hash {
            Some(h) => !crate::schedule::bytes_eq(h, best_hash),
            None => true,
        };
        self.last_best_hash = Some(best_hash.clone());
        is_new
    }
}

/// One pre-runtime consensus digest entry of a block header: the engine tag
/// and its payload.
pub struct PreRuntimeLog {
    pub engine: Vec<u8>,
    pub data: Vec<u8>,
}

/// The engine tag of the round-robin consensus digest.
pub open spec fn aura_engine_id() -> Seq<u8> {
    seq![97u8, 117u8, 114u8, 97u8]
}

/// The slot embedded in a header's pre-runtime digests: the first entry
/// tagged with the consensus engine decides; its first eight payload bytes,
/// read little-endian, are the slot. A too-short payload yields nothing, and
/// so does a header without such an entry.
pub open spec fn aura_slot_spec(logs: Seq<PreRuntimeLog>) -> Option<u64>
    decreases logs.len(),
{
    if logs.len() == 0 {
        None
    } else if logs.first().engine@ == aura_engine_id() {
        if logs.first().data@.len() >= 8 {
            Some(spec_u64_from_le_bytes(logs.first().data@.take(8)))
        } else {
            None
        }
    } else {
        aura_slot_spec(logs.drop_first())
    }
}

/// Extract the production slot from a header's pre-runtime digest entries.
pub fn aura_slot_from_header(logs: &Vec<PreRuntimeLog>) -> (r: Option<u64>)
    ensures
        r == aura_slot_spec(logs@),
{
    let mut i: usize = 0;
    proof {
        assert(logs@.skip(0) =~= logs@);
    }
    while i < logs.len()
        invariant
            i <= logs.len(),
            aura_slot_spec(logs@) == aura_slot_spec(logs@.skip(i as int)),
        decreases logs.len() - i,
    {
        proof {
            assert(logs@.skip(i as int).first() == logs@[i as int]);
            assert(logs@.skip(i as int).drop_first() =~= logs@.skip(i + 1));
        }
        let log = &logs[i];
        let is_aura = log.engine.len() == 4 && log.engine[0] == 97 && log.engine[1] == 117
            && log.engine[2] == 114 && log.engine[3] == 97;
        proof {
            if is_aura {
                assert(log.engine@ =~= aura_engine_id());
            } else {
                assert(log.engine@ != aura_engine_id());
            }
        }
        if is_aura {
            if log.data.len() >= 8 {
                let mut head: Vec<u8> = Vec::new();
                let mut j: usize = 0;
                while j < 8
                    invariant
                        j <= 8,
                        log.data@.len() >= 8,
                        head@ == log.data@.take(j as int),
                    decreases 8 - j,
                {
                    head.push(log.data[j]);
                    assert(log.data@.take(j + 1) =~= log.data@.take(j as int).push(
                        log.data@[j as int],
                    ));
                    j = j + 1;
                }
                let slot = u64_from_le_bytes(head.as_slice());
                return Some(slot);
            } else {
                return None;
            }
        }
        i = i + 1;
    }
    proof {
        assert(logs@.skip(logs@.len() as int) =~= Seq::<PreRuntimeLog>::empty());
    }
    None
}

/// The mint decision for a new best head: the head's slot, if the authority
/// the *current* set assigns to that slot is the local identity. (The
/// current set can disagree with the set the schedule was computed from if
/// the authorities changed mid-epoch; the live set decides here.)
pub fn mint_slot(auths: &Vec<Vec<u8>>, author: &Vec<u8>, header_slot: Option<u64>) -> (r: Option<
    u64,
>)
    requires
        auths@.len() > 0,
    ensures
        r == (match header_slot {
            Some(s) => if auths@[assigned_index(s, auths@.len() as int)]@ == author@ {
                Some(s)
            } else {
                None
            },
            None => None,
        }),
{
    match header_slot {
        Some(s) => {
            let n = auths.len();
            let idx: usize = (s % (n as u64)) as usize;
            proof {
                vstd::arithmetic::div_mod::lemma_mod_division_less_than_divisor(
                    s as int,
                    n as int,
                );
            }
            if crate::schedule::bytes_eq(&auths[idx], author) {
                Some(s)
            } else {
                None
            }
        },
        None => None,
    }
}

/// A finalized block of the backfill range that the chain could resolve:
/// its number, the slot its header carries, and the recorded hash and
/// production time.
pub struct ResolvedBlock {
    pub number: u64,
    pub slot: u64,
    pub block_hash: String,
    pub produced_time: String,
}

/// The effect of the finality backfill on the slot rows: the resolved
/// blocks' updates in ascending block order, each one guarded; unresolved
/// numbers are skipped.
pub open spec fn spec_apply_scan(
    m: Map<u64, crate::store::SlotRow>,
    resolved: Seq<Option<ResolvedBlock>>,
    n: int,
) -> Map<u64, crate::store::SlotRow>
    decreases n,
{
    if n <= 0 {
        m
    } else {
        let prev = spec_apply_scan(m, resolved, n - 1);
        match resolved[n - 1] {
            Some(rb) => spec_update_block_status(
                prev,
                rb.slot,
                rb.number,
                rb.block_hash@,
                rb.produced_time@,
                Status::Finalized,
            ),
            None => prev,
        }
    }
}

/// The finality backfill: for every block number in
/// `(last_finalized, finalized_number]`, in ascending order, force the
/// block's slot row to `Finalized` (guarded: scheduled or minted rows only);
/// a number the chain could not resolve is skipped, the others are still
/// processed. The finality marker then advances to `finalized_number`
/// whether or not every number resolved.
pub fn apply_finality_scan(
    store: &mut Store,
    state: &mut PollState,
    finalized_number: u64,
    resolved: &Vec<Option<ResolvedBlock>>,
)
    requires
        finalized_number > old(state).last_finalized_number,
        resolved@.len() == finalized_number - old(state).last_finalized_number,
        forall|i: int|
            0 <= i < resolved@.len() ==> (#[trigger] resolved@[i] matches Some(rb) ==> rb.number
                == old(state).last_finalized_number + 1 + i),
    ensures
        final(store).blocks_model() == spec_apply_scan(
            old(store).blocks_model(),
            resolved@,
            resolved@.len() as int,
        ),
        final(store).epochs_model() == old(store).epochs_model(),
        final(state).last_finalized_number == finalized_number,
        final(state).prev_fingerprint == old(state).prev_fingerprint,
        final(state).prev_len == old(state).prev_len,
        final(state).prev_author_present == old(state).prev_author_present,
        final(state).prev_schedule_fingerprint == old(state).prev_schedule_fingerprint,
        final(state).prev_epoch == old(state).prev_epoch,
        final(state).last_best_hash == old(state).last_best_hash,
{
    let ghost m0 = store.blocks_model();
    let ghost e0 = store.epochs_model();
    let mut i: usize = 0;
    while i < resolved.len()
        invariant
            i <= resolved.len(),
            store.blocks_model() == spec_apply_scan(m0, resolved@, i as int),
            store.epochs_model() == e0,
        decreases resolved.len() - i,
    {
        match &resolved[i] {
            Some(rb) => {
                store.update_block_status(
                    rb.slot,
                    rb.number,
                    rb.block_hash.clone(),
                    rb.produced_time.clone(),
                    Status::Finalized,
                );
            },
            None => (),
        }
        i = i + 1;
    }
    state.last_finalized_number = finalized_number;
}

/// Status monotonicity of the whole finality backfill: however many of the
/// range's blocks resolved, no slot row's status ever decreases and no row
/// disappears.
pub proof fn lemma_apply_scan_monotone(
    m: Map<u64, crate::store::SlotRow>,
    resolved: Seq<Option<ResolvedBlock>>,
    n: int,
)
    requires
        n <= resolved.len(),
    ensures
        forall|s: u64| #[trigger]
            m.contains_key(s) ==> {
                let after = spec_apply_scan(m, resolved, n);
                after.contains_key(s) && crate::store::status_le(m[s].status, after[s].status)
            },
    decreases n,
{
    if n > 0 {
        lemma_apply_scan_monotone(m, resolved, n - 1);
        let prev = spec_apply_scan(m, resolved, n - 1);
        match resolved[n - 1] {
            Some(rb) => {
                crate::store::lemma_update_block_status_monotone(
                    prev,
                    rb.slot,
                    rb.number,
                    rb.block_hash@,
                    rb.produced_time@,
                    Status::Finalized,
                );
            },
            None => (),
        }
    }
}

/// The epoch an iteration works on: the operator's override if pinned,
/// otherwise the epoch containing the latest observed slot.
pub fn current_epoch(epoch_override: Option<u64>, latest_slot: u64, epoch_size: u64) -> (r: u64)
    requires
        epoch_size > 0,
    ensures
        r == (match epoch_override {
            Some(e) => e,
            None => latest_slot / epoch_size,
        }),
{
    match epoch_override {
        Some(e) => e,
        None => latest_slot / epoch_size,
    }
}

/// The latest observed slot: the best head's embedded slot when it carries
/// one, otherwise the chain timestamp divided by the slot duration.
pub fn latest_slot_of(header_slot: Option<u64>, ts_ms: u64, slot_dur_ms: u64) -> (r: u64)
    requires
        slot_dur_ms > 0,
    ensures
        r == (match header_slot {
            Some(s) => s,
            None => ts_ms / slot_dur_ms,
        }),
{
    match header_slot {
        Some(s) => s,
        None => ts_ms / slot_dur_ms,
    }
}

/// The adaptive sleep: a pinned epoch always waits the configured interval;
/// otherwise the estimated time to the next epoch boundary, capped by the
/// configured interval for liveness, waking one second past the boundary.
pub open spec fn sleep_secs_spec(
    pinned: bool,
    watch_seconds: u64,
    epoch_idx: u64,
    epoch_size: u64,
    latest_slot: u64,
    slot_dur_ms: u64,
) -> int {
    if pinned {
        watch_seconds as int
    } else {
        let next_start = (epoch_idx + 1) * epoch_size;
        let gap = if next_start > latest_slot {
            next_start - latest_slot
        } else {
            0
        };
        let delta_slots = if gap < 1 {
            1
        } else {
            gap
        };
        let delta_ms = if delta_slots * slot_dur_ms > u64::MAX {
            u64::MAX as int
        } else {
            delta_slots * slot_dur_ms
        };
        let cap_ms = if watch_seconds * 1000 > u64::MAX {
            u64::MAX as int
        } else {
            watch_seconds * 1000
        };
        if delta_ms > cap_ms {
            watch_seconds as int
        } else {
            delta_ms / 1000 + 1
        }
    }
}

/// Compute the sleep before the next iteration in watch mode.
pub fn compute_sleep_secs(
    pinned: bool,
    watch_seconds: u64,
    epoch_idx: u64,
    epoch_size: u64,
    latest_slot: u64,
    slot_dur_ms: u64,
) -> (r: u64)
    requires
        !pinned ==> epoch_idx < u64::MAX,
        !pinned ==> (epoch_idx + 1) * epoch_size <= u64::MAX,
    ensures
        r == sleep_secs_spec(pinned, watch_seconds, epoch_idx, epoch_size, latest_slot, slot_dur_ms),
{
    if pinned {
        return watch_seconds;
    }
    let next_start = (epoch_idx + 1) * epoch_size;
    let gap = if next_start > latest_slot {
        next_start - latest_slot
    } else {
        0
    };
    let delta_slots = if gap < 1 {
        1
    } else {
        gap
    };
    let delta_ms = saturating_mul_u64(delta_slots, slot_dur_ms);
    let cap_ms = saturating_mul_u64(watch_seconds, 1000);
    if delta_ms > cap_ms {
        watch_seconds
    } else {
        delta_ms / 1000 + 1
    }
}

/// `a * b`, saturated at the largest representable value.
fn saturating_mul_u64(a: u64, b: u64) -> (r: u64)
    ensures
        r == if a * b > u64::MAX {
            u64::MAX as int
        } else {
            a * b
        },
{
    if b == 0 {
        return 0;
    }
    let limit = u64::MAX / b;
    if a > limit {
        proof {
            assert(a * b > u64::MAX) by (nonlinear_arith)
                requires
                    b > 0,
                    a > u64::MAX as int / b as int,
            ;
        }
        u64::MAX
    } else {
        proof {
            assert(a * b <= u64::MAX) by (nonlinear_arith)
                requires
                    b > 0,
                    a <= u64::MAX as int / b as int,
            ;
        }
        a * b
    }
}

} // verus!
