//! Speculative transactions: drafting with the prediction head while the target model
//! verifies, then keeping what held or going back to where the transaction began.
use crate::adapter::{lemma_slots_stay_usable, slot_usable, AdapterSlot, Qwen35BatchAdapter};
use crate::adapter_decode::{
    decode_outcome, model_same_slot, model_same_stream, seeding_failure, slot_after_seeding,
    stopped_at, DecodeInputs, DecodeItem,
};
use crate::adapter_keep::step_kept;
use crate::instance::{
    lemma_own_checkpoint_ok, lemma_put_back_keeps_instance, lemma_same_instance_refl,
    lemma_same_instance_trans, lemma_seed_keeps_instance,
};
use crate::kv_cache::DECODE_BATCH_CAPACITY;
use crate::model_laws::{law_checkpoint_brings_slot_back, same_instance, same_slot, same_stream};
use crate::model_slots::{checkpoint_of, seed_outcome, slot_restore_outcome};
use crate::model_state::{BatchedStateCheckpoint, ModelWeights, StateSnapshot};
use crate::mtp::{
    commit_failure, committed, is_last_max, kept_rows, no_slot_text, saved_state, slot_became,
    state_of, with_rows, DraftRun, Qwen35Mtp,
};
use crate::validation::concat2;
use crate::text::{decimal, push_decimal};
use vstd::prelude::*;

verus! {

/// Whether a slot can start a transaction.
pub open spec fn speculative_ready(adapter: Qwen35BatchAdapter, slot: int) -> bool {
    &&& slot < adapter.slots@.len()
    &&& adapter.mtp is Some
    &&& adapter.slots@[slot].seeded
    &&& adapter.slots@[slot].transaction is None
}

/// Whether two adapters differ at most in their model, their head and slot `s`.
pub open spec fn same_but_transaction(
    a: Qwen35BatchAdapter,
    b: Qwen35BatchAdapter,
    s: int,
) -> bool {
    &&& a == (Qwen35BatchAdapter { model: a.model, slots: a.slots, mtp: a.mtp, ..b })
    &&& a.slots@.len() == b.slots@.len()
    &&& forall|t: int|
        0 <= t < b.slots@.len() && t != s ==> #[trigger] a.slots@[t] == b.slots@[t]
}

/// The position of a slot's snapshot.
pub open spec fn snap_position(slot: AdapterSlot) -> Option<usize> {
    match slot.snap {
        Some(snap) => Some(snap.position),
        None => None,
    }
}

/// A slot with the position of its snapshot replaced.
pub open spec fn with_position(slot: AdapterSlot, position: Option<usize>) -> Option<StateSnapshot> {
    match (slot.snap, position) {
        (Some(snap), Some(p)) => Some(StateSnapshot { position: p, ..snap }),
        _ => slot.snap,
    }
}

/// Whether a transaction began: slot and head are captured, and nothing is verified yet.
pub open spec fn began(after: Qwen35BatchAdapter, before: Qwen35BatchAdapter, slot: usize) -> bool {
    let s = slot as int;
    &&& same_but_transaction(after, before, s)
    &&& after.model == before.model
    &&& after.slots@[s] == (AdapterSlot {
        transaction: after.slots@[s].transaction,
        verified: after.slots@[s].verified,
        snapshot_position: snap_position(before.slots@[s]),
        ..before.slots@[s]
    })
    &&& after.slots@[s].verified@.len() == 0
    &&& after.slots@[s].transaction is Some
    &&& checkpoint_of(after.slots@[s].transaction->0, before.model, slot)
    &&& after.mtp is Some
    &&& before.mtp is Some
    &&& slot_became(
        after.mtp->0,
        before.mtp->0,
        s,
        state_of(before.mtp->0, s),
        Some(state_of(before.mtp->0, s)),
    )
}

/// Why a transaction cannot begin, with the text that says so.
pub open spec fn begin_failure(adapter: Qwen35BatchAdapter, slot: usize) -> Option<Seq<char>> {
    if !speculative_ready(adapter, slot as int) {
        Some("MTP is unavailable for slot "@ + decimal(slot as nat))
    } else if saved_state(adapter.mtp->0, slot as int) is Some {
        Some(
            "MTP begin: "@ + ("MTP transaction already active for slot "@ + decimal(slot as nat)),
        )
    } else {
        None
    }
}

/// Why a draft cannot start, with the text that says so.
pub open spec fn draft_failure(
    adapter: Qwen35BatchAdapter,
    slot: usize,
    cache_pos: usize,
    rope_pos: usize,
) -> Option<Seq<char>> {
    let s = slot as int;
    if cache_pos != rope_pos && adapter.slots@[s].rope_delta == 0 {
        Some("MTP cache/RoPE position mismatch"@)
    } else if adapter.mtp is None {
        Some("MTP component is not loaded"@)
    } else if slot >= adapter.slots@.len() {
        Some("MTP draft: "@ + no_slot_text(slot as nat))
    } else if saved_state(adapter.mtp->0, s) is None {
        Some("MTP draft: "@ + "MTP draft requires active transaction"@)
    } else if state_of(adapter.mtp->0, s).pending is None {
        Some("MTP draft: "@ + "MTP target hidden is not initialized"@)
    } else {
        None
    }
}

/// Why a commit is refused before the head is asked, with the text that says so.
pub open spec fn uncommittable(adapter: Qwen35BatchAdapter, slot: usize) -> Option<Seq<char>> {
    if adapter.slots@[slot as int].transaction is None {
        Some("MTP transaction is not active for slot "@ + decimal(slot as nat))
    } else if adapter.mtp is None {
        Some("MTP component is not loaded"@)
    } else {
        None
    }
}

/// A slot whose transaction is over.
pub open spec fn closed(after: AdapterSlot, before: AdapterSlot) -> bool {
    &&& after == (AdapterSlot {
        transaction: None,
        verified: after.verified,
        snapshot_position: None,
        ..before
    })
    &&& after.verified@.len() == 0
}

/// What a commit does and returns.
pub open spec fn commit_outcome(
    done: Result<(), String>,
    after: Qwen35BatchAdapter,
    before: Qwen35BatchAdapter,
    slot: usize,
) -> bool {
    let s = slot as int;
    let verified = before.slots@[s].verified@;
    if uncommittable(before, slot) is Some {
        &&& after == before
        &&& done matches Err(msg)
        &&& uncommittable(before, slot) == Some(msg@)
    } else {
        let head = before.mtp->0;
        &&& same_but_transaction(after, before, s)
        &&& after.model == before.model
        &&& after.mtp is Some
        &&& match done {
            Ok(()) => {
                &&& commit_failure(head, s, verified.len()) is None
                &&& slot_became(after.mtp->0, head, s, committed(head, s, verified), None)
                &&& closed(after.slots@[s], before.slots@[s])
            },
            Err(msg) => {
                &&& commit_failure(head, s, verified.len()) matches Some(reason)
                &&& msg@ == "MTP commit: "@ + reason
                &&& slot_became(after.mtp->0, head, s, state_of(head, s), None)
                &&& after.slots@[s] == before.slots@[s]
            },
        }
    }
}

/// Whether the head went back to where its transaction began, if it has one.
pub open spec fn head_rolled_back(
    after: Option<Qwen35Mtp>,
    before: Option<Qwen35Mtp>,
    s: int,
) -> bool {
    match before {
        None => after is None,
        Some(head) => after is Some && slot_became(
            after->0,
            head,
            s,
            match saved_state(head, s) {
                Some(saved) => saved,
                None => state_of(head, s),
            },
            None,
        ),
    }
}

/// What a rollback does and returns.
pub open spec fn rollback_outcome(
    done: Result<(), String>,
    after: Qwen35BatchAdapter,
    before: Qwen35BatchAdapter,
    slot: usize,
) -> bool {
    let s = slot as int;
    if slot >= before.slots@.len() {
        &&& after == before
        &&& done matches Err(msg)
        &&& msg@ == "MTP rollback slot "@ + decimal(slot as nat) + " is out of range"@
    } else {
        let own = before.slots@[s];
        &&& same_but_transaction(after, before, s)
        &&& match own.transaction {
            None => {
                &&& done is Ok
                &&& after.model == before.model
                &&& after.slots@[s].snap == own.snap
            },
            Some(checkpoint) => exists|restored: Result<(), String>|
                {
                    &&& #[trigger] slot_restore_outcome(
                        restored,
                        after.model,
                        before.model,
                        checkpoint,
                    )
                    &&& match restored {
                        Ok(()) => {
                            &&& done is Ok
                            &&& after.slots@[s].snap == with_position(own, own.snapshot_position)
                        },
                        Err(reason) => {
                            &&& done matches Err(msg)
                            &&& msg@ == "target rollback: "@ + reason@
                        },
                    }
                },
        }
        &&& match done {
            Ok(()) => {
                &&& closed(
                    after.slots@[s],
                    AdapterSlot { snap: after.slots@[s].snap, ..own },
                )
                &&& head_rolled_back(after.mtp, before.mtp, s)
            },
            Err(_) => {
                &&& after.slots@[s] == (AdapterSlot { transaction: None, ..own })
                &&& after.mtp == before.mtp
            },
        }
    }
}

impl Qwen35BatchAdapter {
    /// Whether a slot can start a transaction.
    pub fn speculative_available(&self, slot: usize) -> (yes: bool)
        ensures
            yes == speculative_ready(*self, slot as int),
    {
        slot < self.slots.len() && self.mtp.is_some() && self.slots[slot].seeded
            && self.slots[slot].transaction.is_none()
    }

    /// Begins a transaction.
    pub fn speculative_begin(&mut self, slot: usize) -> (done: Result<(), String>)
        requires
            old(self).wf(),
        ensures
            final(self).wf(),
            match done {
                Ok(()) => begin_failure(*old(self), slot) is None && began(
                    *final(self),
                    *old(self),
                    slot,
                ),
                Err(msg) => {
                    &&& begin_failure(*old(self), slot) == Some(msg@)
                    &&& if !speculative_ready(*old(self), slot as int) {
                        *final(self) == *old(self)
                    } else {
                        &&& same_but_transaction(*final(self), *old(self), slot as int)
                        &&& final(self).slots == old(self).slots
                        &&& final(self).mtp == old(self).mtp
                        &&& same_instance(old(self).model, final(self).model)
                        &&& forall|t: int|
                            0 <= t < DECODE_BATCH_CAPACITY ==> #[trigger] model_same_slot(
                                final(self).model,
                                old(self).model,
                                t,
                            )
                        &&& model_same_stream(final(self).model, old(self).model)
                    }
                },
            },
    {
        if !self.speculative_available(slot) {
            let mut msg = "MTP is unavailable for slot ".to_owned();
            push_decimal(&mut msg, slot as u64);
            return Err(msg);
        }
        let ghost before = *self;
        let checkpoint = match self.model.checkpoint_slot_batched(slot) {
            Ok(checkpoint) => checkpoint,
            Err(reason) => {
                assert(false);
                return Err(concat2("target checkpoint: ", reason.as_str()));
            },
        };
        proof {
            lemma_own_checkpoint_ok(self.model, checkpoint, slot);
        }
        let started = match &mut self.mtp {
            None => {
                assert(false);
                return Err("MTP component is not loaded".to_owned());
            },
            Some(mtp) => mtp.begin(slot),
        };
        match started {
            Err(reason) => {
                let restored = self.model.restore_slot_batched(&checkpoint);
                proof {
                    lemma_same_instance_refl(before.model);
                    law_checkpoint_brings_slot_back(
                        before.model,
                        checkpoint,
                        slot,
                        before.model,
                        self.model,
                        restored,
                    );
                    lemma_put_back_keeps_instance(
                        restored,
                        self.model,
                        before.model,
                        checkpoint,
                    );
                    lemma_slots_stay_usable(before.model, self.model, self.slots@);
                    lemma_restored_same(self.model, before.model, slot as int);
                }
                match restored {
                    Ok(()) => {},
                    Err(_) => {
                        assert(false);
                    },
                }
                return Err(concat2("MTP begin: ", reason.as_str()));
            },
            Ok(()) => {},
        }
        let position: Option<usize> = match &self.slots[slot].snap {
            Some(snap) => Some(snap.position),
            None => None,
        };
        self.slots[slot].snapshot_position = position;
        self.slots[slot].transaction = Some(checkpoint);
        self.slots[slot].verified.clear();
        proof {
            assert forall|i: int| 0 <= i < self.slots@.len() implies slot_usable(
                self.model,
                #[trigger] self.slots@[i],
                i,
            ) by {
                assert(slot_usable(before.model, before.slots@[i], i));
            }
        }
        Ok(())
    }

    /// Starts drafting behind a token. The steps are taken by the head itself.
    pub fn speculative_draft(
        &self,
        slot: usize,
        token: u32,
        cache_pos: usize,
        rope_pos: usize,
        max_tokens: usize,
    ) -> (run: Result<DraftRun, String>)
        requires
            self.wf(),
            cache_pos != rope_pos ==> slot < self.slots@.len(),
        ensures
            match run {
                Ok(r) => {
                    &&& draft_failure(*self, slot, cache_pos, rope_pos) is None
                    &&& r.slot == slot
                    &&& r.token == token
                    &&& state_of(self.mtp->0, slot as int).pending == Some(r.hidden)
                    &&& r.position == rope_pos
                    &&& r.remaining == max_tokens
                    &&& r.tokens@ == Seq::<u32>::empty()
                },
                Err(msg) => draft_failure(*self, slot, cache_pos, rope_pos) == Some(msg@),
            },
    {
        if cache_pos != rope_pos && self.slots[slot].rope_delta == 0 {
            return Err("MTP cache/RoPE position mismatch".to_owned());
        }
        match &self.mtp {
            None => Err("MTP component is not loaded".to_owned()),
            Some(mtp) => match mtp.draft(slot, token, rope_pos, max_tokens) {
                Ok(run) => Ok(run),
                Err(reason) => Err(concat2("MTP draft: ", reason.as_str())),
            },
        }
    }

    /// Takes the outcome of one drafting step.
    pub fn speculative_step(&mut self, run: &mut DraftRun, row: u64, hidden: u64, logits: &[u32])
        requires
            old(self).wf(),
            old(self).mtp is Some,
            old(run).slot < old(self).slots@.len(),
            old(run).remaining > 0,
            old(run).position < usize::MAX,
            0 < logits@.len() <= u32::MAX,
        ensures
            final(self).wf(),
            *final(self) == (Qwen35BatchAdapter { mtp: final(self).mtp, ..*old(self) }),
            final(self).mtp is Some,
            drafted(
                final(self).mtp->0,
                *final(run),
                old(self).mtp->0,
                *old(run),
                row,
                hidden,
                logits@,
            ),
    {
        match &mut self.mtp {
            None => {},
            Some(mtp) => mtp.draft_step(run, row, hidden, logits),
        }
    }

    /// Ends a transaction by keeping what was verified.
    pub fn speculative_commit(&mut self, slot: usize) -> (done: Result<(), String>)
        requires
            old(self).wf(),
            slot < old(self).slots@.len(),
        ensures
            final(self).wf(),
            commit_outcome(done, *final(self), *old(self), slot),
    {
        let ghost before = *self;
        if self.slots[slot].transaction.is_none() {
            let mut msg = "MTP transaction is not active for slot ".to_owned();
            push_decimal(&mut msg, slot as u64);
            return Err(msg);
        }
        let kept = match &mut self.mtp {
            None => return Err("MTP component is not loaded".to_owned()),
            Some(mtp) => mtp.commit(slot, &self.slots[slot].verified),
        };
        match kept {
            Ok(()) => {},
            Err(reason) => return Err(concat2("MTP commit: ", reason.as_str())),
        }
        self.slots[slot].transaction = None;
        self.slots[slot].verified.clear();
        self.slots[slot].snapshot_position = None;
        proof {
            assert forall|i: int| 0 <= i < self.slots@.len() implies slot_usable(
                self.model,
                #[trigger] self.slots@[i],
                i,
            ) by {
                assert(slot_usable(before.model, before.slots@[i], i));
            }
        }
        Ok(())
    }

    /// Ends a transaction by going back to where it began. Without a transaction only
    /// the head's own is rolled back.
    pub fn speculative_rollback(&mut self, slot: usize) -> (done: Result<(), String>)
        requires
            old(self).wf(),
        ensures
            final(self).wf(),
            rollback_outcome(done, *final(self), *old(self), slot),
    {
        if slot >= self.slots.len() {
            let mut msg = "MTP rollback slot ".to_owned();
            push_decimal(&mut msg, slot as u64);
            msg.append(" is out of range");
            return Err(msg);
        }
        let ghost before = *self;
        proof {
            lemma_same_instance_refl(before.model);
            assert(slot_usable(before.model, before.slots@[slot as int], slot as int));
        }
        let mut taken: Option<BatchedStateCheckpoint> = None;
        std::mem::swap(&mut self.slots[slot].transaction, &mut taken);
        match &taken {
            None => {},
            Some(checkpoint) => {
                let restored = self.model.restore_slot_batched(checkpoint);
                proof {
                    lemma_put_back_keeps_instance(
                        restored,
                        self.model,
                        before.model,
                        *checkpoint,
                    );
                    lemma_slots_stay_usable(before.model, self.model, before.slots@);
                }
                match restored {
                    Ok(()) => {},
                    Err(reason) => {
                        proof {
                            assert forall|i: int|
                                0 <= i < self.slots@.len() implies slot_usable(
                                self.model,
                                #[trigger] self.slots@[i],
                                i,
                            ) by {
                                assert(slot_usable(self.model, before.slots@[i], i));
                            }
                        }
                        return Err(concat2("target rollback: ", reason.as_str()));
                    },
                }
                let saved: Option<usize> = self.slots[slot].snapshot_position;
                match saved {
                    None => {},
                    Some(position) => match &mut self.slots[slot].snap {
                        None => {},
                        Some(snap) => {
                            snap.position = position;
                        },
                    },
                }
            },
        }
        match &mut self.mtp {
            None => {},
            Some(mtp) => match mtp.rollback(slot) {
                Ok(()) => {},
                Err(_) => {
                    assert(false);
                },
            },
        }
        self.slots[slot].verified.clear();
        self.slots[slot].snapshot_position = None;
        proof {
            assert forall|i: int| 0 <= i < self.slots@.len() implies slot_usable(
                self.model,
                #[trigger] self.slots@[i],
                i,
            ) by {
                assert(slot_usable(self.model, before.slots@[i], i));
            }
        }
        Ok(())
    }
}

/// Whether a drafting step was taken: the row is cached, and the likeliest token is next.
pub open spec fn drafted(
    after: Qwen35Mtp,
    run: DraftRun,
    before: Qwen35Mtp,
    earlier: DraftRun,
    row: u64,
    hidden: u64,
    logits: Seq<u32>,
) -> bool {
    let s = earlier.slot as int;
    &&& slot_became(
        after,
        before,
        s,
        with_rows(state_of(before, s), seq![row]),
        saved_state(before, s),
    )
    &&& run.slot == earlier.slot
    &&& is_last_max(logits, run.token as int)
    &&& run.hidden == hidden
    &&& run.position == earlier.position + 1
    &&& run.remaining == earlier.remaining - 1
    &&& run.tokens@ == earlier.tokens@.push(run.token)
}

proof fn lemma_restored_same(after: ModelWeights, before: ModelWeights, slot: int)
    requires
        after.blocks@.len() == before.blocks@.len(),
        0 <= slot < DECODE_BATCH_CAPACITY,
        forall|i: int|
            0 <= i < before.blocks@.len() ==> same_slot(
                #[trigger] after.blocks@[i],
                before.blocks@[i],
                slot,
            ) && same_stream(after.blocks@[i], before.blocks@[i]),
        forall|i: int, s: int|
            0 <= i < before.blocks@.len() && 0 <= s < DECODE_BATCH_CAPACITY && s != slot
                ==> #[trigger] same_slot(after.blocks@[i], before.blocks@[i], s),
    ensures
        forall|t: int|
            0 <= t < DECODE_BATCH_CAPACITY ==> #[trigger] model_same_slot(after, before, t),
        model_same_stream(after, before),
{
    assert forall|t: int| 0 <= t < DECODE_BATCH_CAPACITY implies #[trigger] model_same_slot(
        after,
        before,
        t,
    ) by {
        assert forall|i: int| 0 <= i < before.blocks@.len() implies same_slot(
            #[trigger] after.blocks@[i],
            before.blocks@[i],
            t,
        ) by {
            if t != slot {
                assert(same_slot(after.blocks@[i], before.blocks@[i], t));
            }
        }
    }
}

/// Whether `later` is a state within the transaction that slot `s` began: what the
/// transaction remembers is untouched, and of the slot's snapshot only the position
/// may have moved.
pub open spec fn in_transaction(later: Qwen35BatchAdapter, begun: Qwen35BatchAdapter, s: int) -> bool {
    &&& same_instance(begun.model, later.model)
    &&& later.slots@.len() == begun.slots@.len()
    &&& later.slots@[s].transaction == begun.slots@[s].transaction
    &&& later.slots@[s].snapshot_position == begun.slots@[s].snapshot_position
    &&& later.slots@[s].seeded == begun.slots@[s].seeded
    &&& match (later.slots@[s].snap, begun.slots@[s].snap) {
        (Some(x), Some(y)) => x == (StateSnapshot { position: x.position, ..y }),
        (None, None) => true,
        _ => false,
    }
    &&& later.mtp is Some
    &&& saved_state(later.mtp->0, s) == saved_state(begun.mtp->0, s)
}

/// Preparing a decode step, for whatever slots and whether or not it succeeds, stays within
/// a transaction.
pub proof fn law_preparing_stays_in_transaction(
    begun: Qwen35BatchAdapter,
    earlier: Qwen35BatchAdapter,
    later: Qwen35BatchAdapter,
    s: int,
    items: Seq<DecodeItem>,
    done: Result<Option<DecodeInputs>, String>,
)
    requires
        earlier.wf(),
        0 <= s < begun.slots@.len(),
        begun.slots@[s].seeded,
        in_transaction(earlier, begun, s),
        decode_outcome(done, later, earlier, items),
    ensures
        in_transaction(later, begun, s),
{
    if later != earlier {
        if seeding_failure(earlier, items, items.len()) is Some {
            let (middle, n) = choose|middle: Qwen35BatchAdapter, n: nat|
                #[trigger] stopped_at(later, middle, earlier, items, n);
            let slot = items[n as int].slot_idx;
            assert(slot_after_seeding(middle, earlier, items, n, s));
            assert(middle.slots@[s] == earlier.slots@[s]);
            lemma_same_instance_trans(begun.model, earlier.model, middle.model);
            match middle.slots@[slot as int].snap {
                None => {},
                Some(snap) => {
                    let stopped = choose|stopped: Result<(), String>|
                        stopped is Err && #[trigger] seed_outcome(
                            stopped,
                            later.model,
                            middle.model,
                            slot,
                            snap,
                        );
                    lemma_seed_keeps_instance(stopped, later.model, middle.model, slot, snap);
                    lemma_same_instance_trans(begun.model, middle.model, later.model);
                },
            }
        } else {
            assert(slot_after_seeding(later, earlier, items, items.len(), s));
            lemma_same_instance_trans(begun.model, earlier.model, later.model);
        }
    }
}

/// Running the model, which keeps its instance, stays within a transaction.
pub proof fn law_passes_stay_in_transaction(
    begun: Qwen35BatchAdapter,
    earlier: Qwen35BatchAdapter,
    later: Qwen35BatchAdapter,
    s: int,
)
    requires
        in_transaction(earlier, begun, s),
        later == (Qwen35BatchAdapter { model: later.model, ..earlier }),
        same_instance(earlier.model, later.model),
    ensures
        in_transaction(later, begun, s),
{
    lemma_same_instance_trans(begun.model, earlier.model, later.model);
}

/// Keeping a decode step stays within a transaction.
pub proof fn law_decoding_stays_in_transaction(
    begun: Qwen35BatchAdapter,
    earlier: Qwen35BatchAdapter,
    later: Qwen35BatchAdapter,
    s: int,
    items: Seq<DecodeItem>,
    hidden: Seq<u64>,
    flat: Seq<u32>,
    rows: Result<Vec<Vec<u32>>, String>,
)
    requires
        0 <= s < begun.slots@.len(),
        in_transaction(earlier, begun, s),
        later == (Qwen35BatchAdapter { slots: later.slots, ..earlier }),
        step_kept(rows, later, earlier, items, hidden, flat),
    ensures
        in_transaction(later, begun, s),
{
    let touched = later.slots@[s];
    assert(touched.transaction == earlier.slots@[s].transaction);
}

/// Drafting, in this slot or in another, stays within a transaction.
pub proof fn law_drafting_stays_in_transaction(
    begun: Qwen35BatchAdapter,
    earlier: Qwen35BatchAdapter,
    later: Qwen35BatchAdapter,
    s: int,
    run: DraftRun,
    next: DraftRun,
    row: u64,
    hidden: u64,
    logits: Seq<u32>,
)
    requires
        0 <= s < begun.slots@.len(),
        in_transaction(earlier, begun, s),
        earlier.wf(),
        later == (Qwen35BatchAdapter { mtp: later.mtp, ..earlier }),
        later.mtp is Some,
        drafted(later.mtp->0, next, earlier.mtp->0, run, row, hidden, logits),
    ensures
        in_transaction(later, begun, s),
{
    if run.slot != s {
        assert(later.mtp->0.transactions@[s] == earlier.mtp->0.transactions@[s]);
    }
}

/// Rolling a transaction back succeeds and undoes it: the slot's state in every block,
/// its snapshot and the head's state are what they were when it began, and the slot can
/// begin another. The other slots and the single stream stay as they are.
pub proof fn law_rollback_undoes_transaction(
    before: Qwen35BatchAdapter,
    begun: Qwen35BatchAdapter,
    later: Qwen35BatchAdapter,
    after: Qwen35BatchAdapter,
    slot: usize,
    done: Result<(), String>,
)
    requires
        before.wf(),
        later.wf(),
        begin_failure(before, slot) is None,
        began(begun, before, slot),
        in_transaction(later, begun, slot as int),
        rollback_outcome(done, after, later, slot),
    ensures
        done is Ok,
        model_same_slot(after.model, before.model, slot as int),
        after.slots@[slot as int].snap == before.slots@[slot as int].snap,
        after.slots@[slot as int].transaction is None,
        after.slots@[slot as int].verified@.len() == 0,
        speculative_ready(after, slot as int),
        begin_failure(after, slot) is None,
        after.mtp is Some,
        state_of(after.mtp->0, slot as int) == state_of(before.mtp->0, slot as int),
        saved_state(after.mtp->0, slot as int) is None,
        model_same_stream(after.model, later.model),
        forall|t: int|
            0 <= t < DECODE_BATCH_CAPACITY && t != slot ==> #[trigger] model_same_slot(
                after.model,
                later.model,
                t,
            ),
        forall|t: int|
            0 <= t < before.slots@.len() && t != slot ==> #[trigger] after.slots@[t]
                == later.slots@[t],
{
    let s = slot as int;
    let checkpoint = begun.slots@[s].transaction->0;
    assert(later.slots@[s].transaction == Some(checkpoint));
    let restored = choose|restored: Result<(), String>|
        {
            &&& #[trigger] slot_restore_outcome(restored, after.model, later.model, checkpoint)
            &&& match restored {
                Ok(()) => {
                    &&& done is Ok
                    &&& after.slots@[s].snap == with_position(
                        later.slots@[s],
                        later.slots@[s].snapshot_position,
                    )
                },
                Err(reason) => {
                    &&& done matches Err(msg)
                    &&& msg@ == "target rollback: "@ + reason@
                },
            }
        };
    assert(slot_restore_outcome(restored, after.model, later.model, checkpoint));
    law_checkpoint_brings_slot_back(
        before.model,
        checkpoint,
        slot,
        later.model,
        after.model,
        restored,
    );
    assert forall|t: int|
        0 <= t < DECODE_BATCH_CAPACITY && t != slot implies #[trigger] model_same_slot(
        after.model,
        later.model,
        t,
    ) by {
        assert forall|i: int| 0 <= i < later.model.blocks@.len() implies same_slot(
            #[trigger] after.model.blocks@[i],
            later.model.blocks@[i],
            t,
        ) by {
            assert(same_stream(after.model.blocks@[i], later.model.blocks@[i]));
        }
    }
}

/// Committing ends a transaction: the slot can begin another, and rolling back then
/// leaves model and snapshot alone.
pub proof fn law_commit_ends_transaction(
    before: Qwen35BatchAdapter,
    after: Qwen35BatchAdapter,
    rolled: Qwen35BatchAdapter,
    slot: usize,
    done: Result<(), String>,
)
    requires
        slot < before.slots@.len(),
        commit_outcome(Ok(()), after, before, slot),
        rollback_outcome(done, rolled, after, slot),
    ensures
        before.slots@[slot as int].seeded ==> speculative_ready(after, slot as int),
        before.slots@[slot as int].seeded ==> begin_failure(after, slot) is None,
        done is Ok,
        rolled.model == after.model,
        rolled.slots@[slot as int].snap == after.slots@[slot as int].snap,
        state_of(rolled.mtp->0, slot as int) == state_of(after.mtp->0, slot as int),
{
}

/// A draft goes one token on in its own slot: what it has moved and what it may still move
/// stay the same together, its tokens grow by the one that it goes on with, and the head
/// caches one row more. Drafting keeps the state that the transaction began with.
pub proof fn law_a_draft_goes_one_token_on(
    after: Qwen35Mtp,
    run: DraftRun,
    before: Qwen35Mtp,
    earlier: DraftRun,
    row: u64,
    hidden: u64,
    logits: Seq<u32>,
)
    requires
        drafted(after, run, before, earlier, row, hidden, logits),
        before.wf(),
        earlier.slot < before.slots@.len(),
    ensures
        run.slot == earlier.slot,
        run.position + run.remaining == earlier.position + earlier.remaining,
        run.tokens@.len() + run.remaining == earlier.tokens@.len() + earlier.remaining,
        run.position == earlier.position + 1,
        run.tokens@.last() == run.token,
        run.tokens@.drop_last() == earlier.tokens@,
        run.token < logits.len(),
        run.hidden == hidden,
        saved_state(after, run.slot as int) == saved_state(before, run.slot as int),
        state_of(after, run.slot as int).pending == state_of(before, run.slot as int).pending,
        kept_rows(state_of(after, run.slot as int)) == kept_rows(
            state_of(before, run.slot as int),
        ).push(row),
{
    assert(run.tokens@.drop_last() =~= earlier.tokens@);
    let s = run.slot as int;
    assert(kept_rows(state_of(after, s)) =~= kept_rows(state_of(before, s)).push(row));
}

/// A commit that fails leaves model and slot as they were; where the head was asked, its
/// transaction is over and its state is that of the drafts.
pub proof fn law_failed_commits_change_no_slot(
    msg: String,
    after: Qwen35BatchAdapter,
    before: Qwen35BatchAdapter,
    slot: usize,
)
    requires
        commit_outcome(Err(msg), after, before, slot),
        slot < before.slots@.len(),
    ensures
        after.model == before.model,
        after.slots@.len() == before.slots@.len(),
        forall|t: int| 0 <= t < before.slots@.len() ==> #[trigger] after.slots@[t]
            == before.slots@[t],
        uncommittable(before, slot) is None ==> after.mtp is Some && saved_state(
            after.mtp->0,
            slot as int,
        ) is None && state_of(after.mtp->0, slot as int) == state_of(before.mtp->0, slot as int),
        uncommittable(before, slot) is Some ==> after == before,
{
}

/// A commit that succeeds keeps the slot's snapshot, its media and its seeding, ends the
/// transaction, and touches no other slot and no weight.
pub proof fn law_commits_keep_the_slot(
    after: Qwen35BatchAdapter,
    before: Qwen35BatchAdapter,
    slot: usize,
    t: int,
)
    requires
        commit_outcome(Ok(()), after, before, slot),
        slot < before.slots@.len(),
    ensures
        ({
            let own = before.slots@[slot as int];
            let done = after.slots@[slot as int];
            &&& own.transaction is Some && before.mtp is Some
            &&& done.transaction is None && done.snapshot_position is None
            &&& done.verified@.len() == 0
            &&& done.snap == own.snap && done.seeded == own.seeded
            &&& done.multimodal == own.multimodal && done.rope_delta == own.rope_delta
            &&& done.paged_dirty == own.paged_dirty
        }),
        after.model == before.model,
        0 <= t < before.slots@.len() && t != slot ==> after.slots@[t] == before.slots@[t],
{
}

} // verus!
