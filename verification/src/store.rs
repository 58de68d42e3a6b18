//! The durable record of the monitor: one row per observed epoch and one row
//! per own slot, consumed only through guarded upsert operations.
//!
//! A slot row's status only ever advances along
//! `Scheduled -> Minted -> Finalized` (the direct edge
//! `Scheduled -> Finalized` included); the guards make every operation
//! idempotent, so a re-observed head or finality range re-applies as a
//! no-op.

use std::collections::HashMap;
use vstd::prelude::*;

verus! {

broadcast use vstd::std_specs::hash::group_hash_axioms;

/// The lifecycle of one scheduled slot.
#[derive(Clone, Copy, PartialEq, Eq, Structural, Debug)]
pub enum Status {
    Scheduled,
    Minted,
    Finalized,
}

/// The position of a status in the lifecycle order
/// `Scheduled < Minted < Finalized`.
pub open spec fn status_rank(s: Status) -> int {
    match s {
        Status::Scheduled => 0,
        Status::Minted => 1,
        Status::Finalized => 2,
    }
}

/// The lifecycle order on statuses.
pub open spec fn status_le(a: Status, b: Status) -> bool {
    status_rank(a) <= status_rank(b)
}

/// Whether a row whose status is `cur` may be rewritten to `next` by a
/// block-status update: mint only from a scheduled row, finality from a
/// scheduled or minted row, never backward and never re-touching a
/// finalized row.
pub open spec fn status_advance_allowed(cur: Status, next: Status) -> bool {
    match next {
        Status::Minted => cur == Status::Scheduled,
        Status::Finalized => cur == Status::Scheduled || cur == Status::Minted,
        Status::Scheduled => false,
    }
}

/// One persisted slot row.
pub struct SlotRecord {
    pub epoch: u64,
    pub planned_time: String,
    pub block_number: Option<u64>,
    pub block_hash: Option<String>,
    pub produced_time: Option<String>,
    pub status: Status,
}

/// The mathematical value of a slot row: the same fields with text as
/// character sequences.
#[verifier::ext_equal]
pub struct SlotRow {
    pub epoch: u64,
    pub planned_time: Seq<char>,
    pub block_number: Option<u64>,
    pub block_hash: Option<Seq<char>>,
    pub produced_time: Option<Seq<char>>,
    pub status: Status,
}

impl View for SlotRecord {
    type V = SlotRow;

    open spec fn view(&self) -> SlotRow {
        SlotRow {
            epoch: self.epoch,
            planned_time: self.planned_time@,
            block_number: self.block_number,
            block_hash: match self.block_hash {
                Some(h) => Some(h@),
                None => None,
            },
            produced_time: match self.produced_time {
                Some(t) => Some(t@),
                None => None,
            },
            status: self.status,
        }
    }
}

/// One persisted epoch row.
pub struct EpochInfo {
    pub start_slot: u64,
    pub end_slot: u64,
    pub authority_set_fingerprint: String,
    pub authority_set_len: u64,
    pub created_at: String,
}

/// The mathematical value of an epoch row.
#[verifier::ext_equal]
pub struct EpochRow {
    pub start_slot: u64,
    pub end_slot: u64,
    pub authority_set_fingerprint: Seq<char>,
    pub authority_set_len: u64,
    pub created_at: Seq<char>,
}

impl View for EpochInfo {
    type V = EpochRow;

    open spec fn view(&self) -> EpochRow {
        EpochRow {
            start_slot: self.start_slot,
            end_slot: self.end_slot,
            authority_set_fingerprint: self.authority_set_fingerprint@,
            authority_set_len: self.authority_set_len,
            created_at: self.created_at@,
        }
    }
}

/// The monitor's durable state: epoch metadata keyed by epoch index and
/// slot lifecycle rows keyed by slot number. Rows are never deleted.
pub struct Store {
    pub epochs: HashMap<u64, EpochInfo>,
    pub blocks: HashMap<u64, SlotRecord>,
}

/// A schedule upsert of one row: creates the row as `Scheduled`, or, while
/// the row is still `Scheduled`, refreshes its epoch and planned time; a
/// minted or finalized row is left untouched.
pub open spec fn spec_schedule_row(
    m: Map<u64, SlotRow>,
    slot: u64,
    epoch: u64,
    planned_time: Seq<char>,
) -> Map<u64, SlotRow> {
    if m.contains_key(slot) && m[slot].status != Status::Scheduled {
        m
    } else {
        let prev_number = if m.contains_key(slot) {
            m[slot].block_number
        } else {
            None
        };
        let prev_hash = if m.contains_key(slot) {
            m[slot].block_hash
        } else {
            None
        };
        let prev_produced = if m.contains_key(slot) {
            m[slot].produced_time
        } else {
            None
        };
        m.insert(
            slot,
            SlotRow {
                epoch,
                planned_time,
                block_number: prev_number,
                block_hash: prev_hash,
                produced_time: prev_produced,
                status: Status::Scheduled,
            },
        )
    }
}

/// The schedule upserts of a planned list, applied in order.
pub open spec fn spec_insert_schedule(
    m: Map<u64, SlotRow>,
    epoch: u64,
    planned: Seq<(u64, String)>,
) -> Map<u64, SlotRow>
    decreases planned.len(),
{
    if planned.len() == 0 {
        m
    } else {
        spec_schedule_row(
            spec_insert_schedule(m, epoch, planned.drop_last()),
            planned.last().0,
            epoch,
            planned.last().1@,
        )
    }
}

/// A guarded block-status update: if the row exists and
/// `status_advance_allowed` admits the step, the row takes the block
/// number, hash, produced time and new status; otherwise nothing changes.
pub open spec fn spec_update_block_status(
    m: Map<u64, SlotRow>,
    slot: u64,
    block_number: u64,
    block_hash: Seq<char>,
    produced_time: Seq<char>,
    status: Status,
) -> Map<u64, SlotRow> {
    if m.contains_key(slot) && status_advance_allowed(m[slot].status, status) {
        m.insert(
            slot,
            SlotRow {
                epoch: m[slot].epoch,
                planned_time: m[slot].planned_time,
                block_number: Some(block_number),
                block_hash: Some(block_hash),
                produced_time: Some(produced_time),
                status,
            },
        )
    } else {
        m
    }
}

impl Store {
    /// The epoch rows as a map of mathematical values.
    pub open spec fn epochs_model(&self) -> Map<u64, EpochRow> {
        self.epochs@.map_values(|e: EpochInfo| e@)
    }

    /// The slot rows as a map of mathematical values.
    pub open spec fn blocks_model(&self) -> Map<u64, SlotRow> {
        self.blocks@.map_values(|r: SlotRecord| r@)
    }

    /// An empty store.
    pub fn new() -> (s: Store)
        ensures
            s.epochs_model() == Map::<u64, EpochRow>::empty(),
            s.blocks_model() == Map::<u64, SlotRow>::empty(),
    {
        let s = Store { epochs: HashMap::new(), blocks: HashMap::new() };
        proof {
            assert(s.epochs_model() =~= Map::<u64, EpochRow>::empty());
            assert(s.blocks_model() =~= Map::<u64, SlotRow>::empty());
        }
        s
    }

    /// Upsert of the epoch row: the row is created or overwritten whole,
    /// keyed by the epoch index. Slot rows are untouched.
    pub fn upsert_epoch_info(&mut self, epoch: u64, info: EpochInfo)
        ensures
            final(self).epochs_model() == old(self).epochs_model().insert(epoch, info@),
            final(self).blocks_model() == old(self).blocks_model(),
    {
        let ghost old_model = self.epochs_model();
        let ghost info_row = info@;
        self.epochs.insert(epoch, info);
        proof {
            assert(final(self).epochs_model() =~~= old_model.insert(epoch, info_row));
            assert(final(self).blocks_model() =~~= old(self).blocks_model());
        }
    }

    /// The full own-slot schedule of an epoch, written as one batch of
    /// guarded upserts: each planned `(slot, planned_time)` row is created
    /// as `Scheduled`, or refreshed while still `Scheduled`; minted and
    /// finalized rows are left as they are. Epoch rows are untouched.
    pub fn insert_schedule(&mut self, epoch: u64, planned: &Vec<(u64, String)>)
        ensures
            final(self).blocks_model() == spec_insert_schedule(
                old(self).blocks_model(),
                epoch,
                planned@,
            ),
            final(self).epochs_model() == old(self).epochs_model(),
    {
        let ghost m0 = self.blocks_model();
        let ghost e0 = self.epochs_model();
        let mut i: usize = 0;
        while i < planned.len()
            invariant
                i <= planned.len(),
                self.blocks_model() == spec_insert_schedule(m0, epoch, planned@.take(i as int)),
                self.epochs_model() == e0,
            decreases planned.len() - i,
        {
            let slot = planned[i].0;
            let ghost before = self.blocks_model();
            let allowed: bool = match self.blocks.get(&slot) {
                Some(rec) => rec.status == Status::Scheduled,
                None => true,
            };
            if allowed {
                let (prev_number, prev_hash, prev_produced) = match self.blocks.get(&slot) {
                    Some(rec) => (
                        rec.block_number,
                        match &rec.block_hash {
                            Some(h) => Some(h.clone()),
                            None => None,
                        },
                        match &rec.produced_time {
                            Some(t) => Some(t.clone()),
                            None => None,
                        },
                    ),
                    None => (None, None, None),
                };
                let row = SlotRecord {
                    epoch,
                    planned_time: planned[i].1.clone(),
                    block_number: prev_number,
                    block_hash: prev_hash,
                    produced_time: prev_produced,
                    status: Status::Scheduled,
                };
                self.blocks.insert(slot, row);
            }
            proof {
                assert(self.blocks_model() =~~= spec_schedule_row(
                    before,
                    slot,
                    epoch,
                    planned@[i as int].1@,
                ));
                assert(planned@.take(i + 1).drop_last() =~= planned@.take(i as int));
                assert(self.blocks_model() =~~= spec_insert_schedule(
                    m0,
                    epoch,
                    planned@.take(i + 1),
                ));
                assert(self.epochs_model() =~~= e0);
            }
            i = i + 1;
        }
        proof {
            assert(planned@.take(planned@.len() as int) =~= planned@);
        }
    }

    /// A guarded single-row status update, as observed from a minted head
    /// or a newly finalized block: the row advances to `status` and records
    /// the block's number, hash and produced time, only if it exists and
    /// the lifecycle order admits the step; otherwise this is a no-op.
    pub fn update_block_status(
        &mut self,
        slot: u64,
        block_number: u64,
        block_hash: String,
        produced_time: String,
        status: Status,
    )
        requires
            status != Status::Scheduled,
        ensures
            final(self).blocks_model() == spec_update_block_status(
                old(self).blocks_model(),
                slot,
                block_number,
                block_hash@,
                produced_time@,
                status,
            ),
            final(self).epochs_model() == old(self).epochs_model(),
    {
        let ghost m0 = self.blocks_model();
        let ghost e0 = self.epochs_model();
        let ghost hash_chars = block_hash@;
        let ghost time_chars = produced_time@;
        let updated: Option<SlotRecord> = match self.blocks.get(&slot) {
            Some(rec) => {
                let step_ok = match status {
                    Status::Minted => rec.status == Status::Scheduled,
                    Status::Finalized => rec.status == Status::Scheduled || rec.status
                        == Status::Minted,
                    Status::Scheduled => false,
                };
                if step_ok {
                    Some(
                        SlotRecord {
                            epoch: rec.epoch,
                            planned_time: rec.planned_time.clone(),
                            block_number: Some(block_number),
                            block_hash: Some(block_hash),
                            produced_time: Some(produced_time),
                            status,
                        },
                    )
                } else {
                    None
                }
            },
            None => None,
        };
        match updated {
            Some(row) => {
                self.blocks.insert(slot, row);
            },
            None => (),
        }
        proof {
            assert(self.blocks_model() =~~= spec_update_block_status(
                m0,
                slot,
                block_number,
                hash_chars,
                time_chars,
                status,
            ));
            assert(self.epochs_model() =~~= e0);
        }
    }

    /// The slot row at `slot`, if one was ever written.
    pub fn get_block(&self, slot: u64) -> (r: Option<&SlotRecord>)
        ensures
            match r {
                Some(rec) => self.blocks_model().contains_key(slot) && rec@
                    == self.blocks_model()[slot],
                None => !self.blocks_model().contains_key(slot),
            },
    {
        self.blocks.get(&slot)
    }

    /// The epoch row at `epoch`, if one was ever written.
    pub fn get_epoch(&self, epoch: u64) -> (r: Option<&EpochInfo>)
        ensures
            match r {
                Some(info) => self.epochs_model().contains_key(epoch) && info@
                    == self.epochs_model()[epoch],
                None => !self.epochs_model().contains_key(epoch),
            },
    {
        self.epochs.get(&epoch)
    }
}

/// Status monotonicity of the guarded update: no slot row's status ever
/// decreases, no row disappears, and a finalized row is never rewritten.
pub proof fn lemma_update_block_status_monotone(
    m: Map<u64, SlotRow>,
    slot: u64,
    block_number: u64,
    block_hash: Seq<char>,
    produced_time: Seq<char>,
    status: Status,
)
    requires
        status != Status::Scheduled,
    ensures
        forall|s: u64| #[trigger]
            m.contains_key(s) ==> {
                let after = spec_update_block_status(
                    m,
                    slot,
                    block_number,
                    block_hash,
                    produced_time,
                    status,
                );
                after.contains_key(s) && status_le(m[s].status, after[s].status)
            },
        m.contains_key(slot) && m[slot].status == Status::Finalized ==> spec_update_block_status(
            m,
            slot,
            block_number,
            block_hash,
            produced_time,
            status,
        ) == m,
{
}

/// Status monotonicity of the schedule upsert: a schedule write never
/// demotes a row; minted and finalized rows keep their data whole.
pub proof fn lemma_schedule_row_monotone(
    m: Map<u64, SlotRow>,
    slot: u64,
    epoch: u64,
    planned_time: Seq<char>,
)
    ensures
        forall|s: u64| #[trigger]
            m.contains_key(s) ==> {
                let after = spec_schedule_row(m, slot, epoch, planned_time);
                after.contains_key(s) && status_le(m[s].status, after[s].status)
            },
        m.contains_key(slot) && m[slot].status != Status::Scheduled ==> spec_schedule_row(
            m,
            slot,
            epoch,
            planned_time,
        ) == m,
{
}

/// Status monotonicity of a whole schedule batch: however many planned
/// rows are written, no slot row's status ever decreases and no row
/// disappears.
pub proof fn lemma_insert_schedule_monotone(
    m: Map<u64, SlotRow>,
    epoch: u64,
    planned: Seq<(u64, String)>,
)
    ensures
        forall|s: u64| #[trigger]
            m.contains_key(s) ==> {
                let after = spec_insert_schedule(m, epoch, planned);
                after.contains_key(s) && status_le(m[s].status, after[s].status)
            },
    decreases planned.len(),
{
    if planned.len() > 0 {
        lemma_insert_schedule_monotone(m, epoch, planned.drop_last());
        let mid = spec_insert_schedule(m, epoch, planned.drop_last());
        lemma_schedule_row_monotone(mid, planned.last().0, epoch, planned.last().1@);
    }
}

/// Idempotence of the epoch upsert: writing the same epoch row twice
/// leaves exactly the state of writing it once.
pub proof fn lemma_upsert_epoch_idempotent(m: Map<u64, EpochRow>, epoch: u64, row: EpochRow)
    ensures
        m.insert(epoch, row).insert(epoch, row) == m.insert(epoch, row),
{
    assert(m.insert(epoch, row).insert(epoch, row) =~= m.insert(epoch, row));
}

/// Idempotence of the guarded status update: re-applying an identical
/// update (same slot, block number, hash, time and status) is a no-op.
pub proof fn lemma_update_block_status_idempotent(
    m: Map<u64, SlotRow>,
    slot: u64,
    block_number: u64,
    block_hash: Seq<char>,
    produced_time: Seq<char>,
    status: Status,
)
    requires
        status != Status::Scheduled,
    ensures
        ({
            let once = spec_update_block_status(
                m,
                slot,
                block_number,
                block_hash,
                produced_time,
                status,
            );
            spec_update_block_status(once, slot, block_number, block_hash, produced_time, status)
                == once
        }),
{
    let once = spec_update_block_status(m, slot, block_number, block_hash, produced_time, status);
    if m.contains_key(slot) && status_advance_allowed(m[slot].status, status) {
        assert(once[slot].status == status);
        assert(!status_advance_allowed(once[slot].status, status));
    }
}

/// Idempotence of the schedule upsert of one row: re-writing the same
/// planned row is a no-op on the resulting state.
pub proof fn lemma_schedule_row_idempotent(
    m: Map<u64, SlotRow>,
    slot: u64,
    epoch: u64,
    planned_time: Seq<char>,
)
    ensures
        ({
            let once = spec_schedule_row(m, slot, epoch, planned_time);
            spec_schedule_row(once, slot, epoch, planned_time) == once
        }),
{
    let once = spec_schedule_row(m, slot, epoch, planned_time);
    if !(m.contains_key(slot) && m[slot].status != Status::Scheduled) {
        assert(spec_schedule_row(once, slot, epoch, planned_time) =~~= once);
    }
}

} // verus!
