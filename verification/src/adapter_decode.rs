//! A decode step over several slots: seeding those that are new, placing the tokens,
//! and keeping what the step leaves.
use crate::adapter::{lemma_slots_stay_usable, slot_usable, AdapterSlot, Qwen35BatchAdapter};
use crate::forward::DecodePlan;
use crate::instance::{
    lemma_same_instance_refl, lemma_same_instance_trans, lemma_seed_failure_same,
    lemma_seed_keeps_instance, lemma_seed_result, seed_failure,
};
use crate::kv_cache::{seeded_slot, DECODE_BATCH_CAPACITY};
use crate::model_laws::{same_instance, same_slot, same_stream};
use crate::model_slots::seed_outcome;
use crate::model_state::{
    agreeing, block_models, slot_seeded, BlockModel, HybridLayerType, ModelWeights, StateSnapshot,
};
use crate::position::{decode_position, rope_position};
use crate::text::{decimal, push_decimal};
use vstd::prelude::*;

verus! {

/// One token of a decode step.
#[derive(Debug, Clone, Copy, PartialEq, Eq, Structural)]
pub struct DecodeItem {
    pub slot_idx: usize,
    pub token: u32,
    pub pos: usize,
}

/// A decode step, ready for the model.
#[derive(Debug)]
pub struct DecodeInputs {
    pub tokens: Vec<u32>,
    pub plan: DecodePlan,
}

/// Whether slot `s` of a block holds a captured state.
pub open spec fn slot_holds(block: HybridLayerType, snap: BlockModel, s: int) -> bool {
    match (block, snap) {
        (HybridLayerType::DeltaNet(d), BlockModel::DeltaNet(data)) => d.cpu_state_batched@[s]@
            == data,
        (HybridLayerType::Attention(a), BlockModel::Attention(kv)) => a.slot(s) == seeded_slot(kv),
        _ => false,
    }
}

/// Whether slot `s` of a model holds a snapshot.
pub open spec fn model_slot_holds(model: ModelWeights, snap: StateSnapshot, s: int) -> bool {
    &&& model.blocks@.len() == snap.blocks@.len()
    &&& forall|i: int|
        0 <= i < model.blocks@.len() ==> slot_holds(
            #[trigger] model.blocks@[i],
            snap.blocks@[i]@,
            s,
        )
}

/// Whether slot `s` is the same in every block of two models.
pub open spec fn model_same_slot(a: ModelWeights, b: ModelWeights, s: int) -> bool {
    &&& a.blocks@.len() == b.blocks@.len()
    &&& forall|i: int|
        0 <= i < b.blocks@.len() ==> same_slot(#[trigger] a.blocks@[i], b.blocks@[i], s)
}

/// Whether the stream is the same in every block of two models.
pub open spec fn model_same_stream(a: ModelWeights, b: ModelWeights) -> bool {
    &&& a.blocks@.len() == b.blocks@.len()
    &&& forall|i: int|
        0 <= i < b.blocks@.len() ==> same_stream(#[trigger] a.blocks@[i], b.blocks@[i])
}

/// Why an item's slot cannot be seeded.
pub open spec fn item_failure(adapter: Qwen35BatchAdapter, item: DecodeItem) -> Option<Seq<char>> {
    let slot = adapter.slots@[item.slot_idx as int];
    if slot.seeded {
        None
    } else {
        match slot.snap {
            None => Some(
                "decode_batch: slot "@ + decimal(item.slot_idx as nat) + " без snapshot"@,
            ),
            Some(snap) => match seed_failure(adapter.model, item.slot_idx, snap) {
                None => None,
                Some(msg) => Some(
                    "decode seed slot "@ + decimal(item.slot_idx as nat) + ": "@ + msg,
                ),
            },
        }
    }
}

/// The failure of the first item whose slot cannot be seeded, of the first `n`.
pub open spec fn seeding_failure(
    adapter: Qwen35BatchAdapter,
    items: Seq<DecodeItem>,
    n: nat,
) -> Option<Seq<char>>
    decreases n,
{
    if n == 0 {
        None
    } else {
        let earlier = seeding_failure(adapter, items, (n - 1) as nat);
        if earlier is Some {
            earlier
        } else {
            item_failure(adapter, items[n - 1])
        }
    }
}

/// The failure of the first item that has no rotary position, of the first `n`.
pub open spec fn placing_failure(
    slots: Seq<AdapterSlot>,
    items: Seq<DecodeItem>,
    n: nat,
) -> Option<Seq<char>>
    decreases n,
{
    if n == 0 {
        None
    } else {
        let earlier = placing_failure(slots, items, (n - 1) as nat);
        if earlier is Some {
            earlier
        } else {
            match decode_position(
                items[n - 1].pos,
                slots[items[n - 1].slot_idx as int].rope_delta,
            ) {
                Ok(_) => None,
                Err(msg) => Some(msg),
            }
        }
    }
}

proof fn lemma_seeding_failure_stays(
    adapter: Qwen35BatchAdapter,
    items: Seq<DecodeItem>,
    k: nat,
    n: nat,
)
    requires
        k <= n,
        seeding_failure(adapter, items, k) is Some,
    ensures
        seeding_failure(adapter, items, n) == seeding_failure(adapter, items, k),
    decreases n,
{
    if k < n {
        lemma_seeding_failure_stays(adapter, items, k, (n - 1) as nat);
    }
}

proof fn lemma_placing_failure_stays(
    slots: Seq<AdapterSlot>,
    items: Seq<DecodeItem>,
    k: nat,
    n: nat,
)
    requires
        k <= n,
        placing_failure(slots, items, k) is Some,
    ensures
        placing_failure(slots, items, n) == placing_failure(slots, items, k),
    decreases n,
{
    if k < n {
        lemma_placing_failure_stays(slots, items, k, (n - 1) as nat);
    }
}

/// Whether one of the first `n` items is for slot `s`.
pub open spec fn in_batch(items: Seq<DecodeItem>, n: nat, s: int) -> bool {
    exists|i: int| 0 <= i < n && (#[trigger] items[i]).slot_idx == s
}

/// Whether a slot is newly seeded by the first `n` items.
pub open spec fn newly_seeded(
    before: Qwen35BatchAdapter,
    items: Seq<DecodeItem>,
    n: nat,
    s: int,
) -> bool {
    in_batch(items, n, s) && !before.slots@[s].seeded
}

/// Whether slot `s` is as the first `n` items leave it: where it was not seeded yet and
/// is in the batch, the batched buffers hold its snapshot now; otherwise nothing
/// changed.
pub open spec fn slot_after_seeding(
    after: Qwen35BatchAdapter,
    before: Qwen35BatchAdapter,
    items: Seq<DecodeItem>,
    n: nat,
    s: int,
) -> bool {
    if newly_seeded(before, items, n, s) {
        &&& after.slots@[s] == (AdapterSlot {
            seeded: true,
            paged_dirty: true,
            ..before.slots@[s]
        })
        &&& before.slots@[s].snap is Some
        &&& model_slot_holds(after.model, before.slots@[s].snap->0, s)
    } else {
        &&& after.slots@[s] == before.slots@[s]
        &&& model_same_slot(after.model, before.model, s)
    }
}

/// Whether an adapter is as seeding for the first `n` items leaves it.
pub open spec fn seeded_for(
    after: Qwen35BatchAdapter,
    before: Qwen35BatchAdapter,
    items: Seq<DecodeItem>,
    n: nat,
) -> bool {
    &&& after == (Qwen35BatchAdapter {
        model: after.model,
        slots: after.slots,
        decode_graph: after.decode_graph,
        ..before
    })
    &&& same_instance(before.model, after.model)
    &&& model_same_stream(after.model, before.model)
    &&& after.slots@.len() == before.slots@.len()
    &&& forall|s: int|
        0 <= s < before.slots@.len() ==> #[trigger] slot_after_seeding(after, before, items, n, s)
    &&& after.decode_graph == (if exists|s: int|
        0 <= s < before.slots@.len() && #[trigger] newly_seeded(before, items, n, s) {
        None
    } else {
        before.decode_graph
    })
}

/// Whether inputs are those of the items.
pub open spec fn inputs_for(
    inputs: DecodeInputs,
    slots: Seq<AdapterSlot>,
    items: Seq<DecodeItem>,
) -> bool {
    &&& inputs.plan.wf()
    &&& inputs.tokens@.len() == items.len()
    &&& inputs.plan.slots@.len() == items.len()
    &&& forall|i: int|
        #![trigger items[i]]
        0 <= i < items.len() ==> {
            &&& inputs.tokens@[i] == items[i].token
            &&& inputs.plan.cache_positions@[i] == items[i].pos
            &&& inputs.plan.slots@[i] == items[i].slot_idx
            &&& decode_position(items[i].pos, slots[items[i].slot_idx as int].rope_delta) == Ok::<
                usize,
                Seq<char>,
            >(inputs.plan.rope_positions@[i])
        }
}

/// Whether every item is for a slot that exists.
pub open spec fn slots_exist(items: Seq<DecodeItem>, n: nat) -> bool {
    forall|i: int| 0 <= i < items.len() ==> (#[trigger] items[i]).slot_idx < n
}

/// Whether an adapter is as a seeding that fails at item `n` leaves it: the slots of the
/// items before it are seeded, and its own slot is seeded as far as the blocks agree.
pub open spec fn stopped_at(
    after: Qwen35BatchAdapter,
    middle: Qwen35BatchAdapter,
    before: Qwen35BatchAdapter,
    items: Seq<DecodeItem>,
    n: nat,
) -> bool {
    let slot = items[n as int].slot_idx;
    &&& n < items.len()
    &&& seeding_failure(before, items, n) is None
    &&& item_failure(before, items[n as int]) is Some
    &&& seeded_for(middle, before, items, n)
    &&& after == (Qwen35BatchAdapter { model: after.model, ..middle })
    &&& seed_stopped(after.model, middle.model, slot, middle.slots@[slot as int].snap)
}

/// Whether a model is as a failed seeding of a slot leaves it.
pub open spec fn seed_stopped(
    after: ModelWeights,
    before: ModelWeights,
    slot: usize,
    snap: Option<StateSnapshot>,
) -> bool {
    match snap {
        None => after == before,
        Some(s) => exists|done: Result<(), String>|
            done is Err && #[trigger] seed_outcome(done, after, before, slot, s),
    }
}

/// Whether an adapter is as a failed seeding leaves it.
pub open spec fn seeding_stopped(
    after: Qwen35BatchAdapter,
    before: Qwen35BatchAdapter,
    items: Seq<DecodeItem>,
) -> bool {
    exists|middle: Qwen35BatchAdapter, n: nat|
        #[trigger] stopped_at(after, middle, before, items, n)
}

/// What preparing a decode step does and returns.
pub open spec fn decode_outcome(
    done: Result<Option<DecodeInputs>, String>,
    after: Qwen35BatchAdapter,
    before: Qwen35BatchAdapter,
    items: Seq<DecodeItem>,
) -> bool {
    if !slots_exist(items, before.slots@.len()) {
        &&& after == before
        &&& done matches Err(msg)
        &&& msg@ == "decode slot is out of range"@
    } else if items.len() == 0 {
        after == before && done == Ok::<Option<DecodeInputs>, String>(None)
    } else if seeding_failure(before, items, items.len()) is Some {
        &&& done matches Err(msg)
        &&& seeding_failure(before, items, items.len()) == Some(msg@)
        &&& seeding_stopped(after, before, items)
    } else {
        &&& seeded_for(after, before, items, items.len())
        &&& match done {
            Ok(inputs) => {
                &&& placing_failure(before.slots@, items, items.len()) is None
                &&& inputs matches Some(i)
                &&& inputs_for(i, before.slots@, items)
            },
            Err(msg) => placing_failure(before.slots@, items, items.len()) == Some(msg@),
        }
    }
}

/// Seeding leaves the stream and the other slots alone, and where it succeeds the slot
/// holds the snapshot.
proof fn lemma_seed_effect(
    done: Result<(), String>,
    after: ModelWeights,
    before: ModelWeights,
    slot: usize,
    snap: StateSnapshot,
)
    requires
        before.wf(),
        seed_outcome(done, after, before, slot, snap),
    ensures
        model_same_stream(after, before),
        forall|t: int|
            0 <= t < DECODE_BATCH_CAPACITY && t != slot ==> #[trigger] model_same_slot(
                after,
                before,
                t,
            ),
        done is Ok ==> model_slot_holds(after, snap, slot as int),
{
    let snaps = block_models(snap.blocks@);
    let own = before.blocks@;
    let proceeds = snap.model_nonce == before.instance_nonce && snaps.len() == own.len() && slot
        < DECODE_BATCH_CAPACITY;
    let m = if proceeds {
        agreeing(own, snaps, own.len()) as int
    } else {
        0
    };
    assert forall|i: int| 0 <= i < own.len() implies same_stream(#[trigger] after.blocks@[i], own[i])
        && (forall|t: int|
        0 <= t < DECODE_BATCH_CAPACITY && t != slot ==> #[trigger] same_slot(
            after.blocks@[i],
            own[i],
            t,
        )) by {
        if i < m {
            assert(slot_seeded(after.blocks@[i], own[i], snaps[i], slot as int));
            assert forall|t: int| 0 <= t < DECODE_BATCH_CAPACITY && t != slot implies #[trigger] same_slot(
                after.blocks@[i],
                own[i],
                t,
            ) by {
                match (after.blocks@[i], own[i]) {
                    (HybridLayerType::Attention(x), HybridLayerType::Attention(y)) => {
                        assert(x.kv_cache_len_batched@[t] == y.kv_cache_len_batched@[t]);
                    },
                    (HybridLayerType::DeltaNet(x), HybridLayerType::DeltaNet(y)) => {
                        assert(x.cpu_state_batched@[t] == y.cpu_state_batched@[t]);
                    },
                    _ => {},
                }
            }
        } else {
            assert(after.blocks@[i] == own[i]);
        }
    }
    assert forall|t: int| 0 <= t < DECODE_BATCH_CAPACITY && t != slot implies #[trigger] model_same_slot(
        after,
        before,
        t,
    ) by {
        assert forall|i: int| 0 <= i < own.len() implies same_slot(
            #[trigger] after.blocks@[i],
            own[i],
            t,
        ) by {
            assert(same_stream(after.blocks@[i], own[i]));
        }
    }
    if done is Ok {
        assert forall|i: int| 0 <= i < after.blocks@.len() implies slot_holds(
            #[trigger] after.blocks@[i],
            snap.blocks@[i]@,
            slot as int,
        ) by {
            assert(slot_seeded(after.blocks@[i], own[i], snaps[i], slot as int));
            assert(snaps[i] == snap.blocks@[i]@);
        }
    }
}

proof fn lemma_same_slot_trans(a: ModelWeights, b: ModelWeights, c: ModelWeights, s: int)
    requires
        model_same_slot(a, b, s),
        model_same_slot(b, c, s),
    ensures
        model_same_slot(a, c, s),
{
    assert forall|i: int| 0 <= i < c.blocks@.len() implies same_slot(#[trigger] a.blocks@[i], c.blocks@[i], s) by {
        assert(same_slot(a.blocks@[i], b.blocks@[i], s));
        assert(same_slot(b.blocks@[i], c.blocks@[i], s));
    }
}

proof fn lemma_slot_holds_stays(a: ModelWeights, b: ModelWeights, snap: StateSnapshot, s: int)
    requires
        model_same_slot(a, b, s),
        model_slot_holds(b, snap, s),
    ensures
        model_slot_holds(a, snap, s),
{
    assert forall|i: int| 0 <= i < a.blocks@.len() implies slot_holds(
        #[trigger] a.blocks@[i],
        snap.blocks@[i]@,
        s,
    ) by {
        assert(same_slot(a.blocks@[i], b.blocks@[i], s));
        assert(slot_holds(b.blocks@[i], snap.blocks@[i]@, s));
    }
}

proof fn lemma_same_stream_trans(a: ModelWeights, b: ModelWeights, c: ModelWeights)
    requires
        model_same_stream(a, b),
        model_same_stream(b, c),
    ensures
        model_same_stream(a, c),
{
    assert forall|i: int| 0 <= i < c.blocks@.len() implies same_stream(#[trigger] a.blocks@[i], c.blocks@[i]) by {
        assert(same_stream(a.blocks@[i], b.blocks@[i]));
        assert(same_stream(b.blocks@[i], c.blocks@[i]));
    }
}

impl Qwen35BatchAdapter {
    fn seed_one(&mut self, s: usize) -> (done: Result<(), String>)
        requires
            old(self).wf(),
            s < old(self).slots@.len(),
        ensures
            final(self).wf(),
            match done {
                Ok(()) => {
                    &&& *final(self) == (Qwen35BatchAdapter {
                        model: final(self).model,
                        slots: final(self).slots,
                        decode_graph: final(self).decode_graph,
                        ..*old(self)
                    })
                    &&& final(self).slots@.len() == old(self).slots@.len()
                    &&& forall|t: int|
                        0 <= t < old(self).slots@.len() && t != s
                            ==> #[trigger] final(self).slots@[t] == old(self).slots@[t]
                    &&& if old(self).slots@[s as int].seeded {
                        &&& final(self).model == old(self).model
                        &&& final(self).slots@[s as int] == old(self).slots@[s as int]
                        &&& final(self).decode_graph == old(self).decode_graph
                    } else {
                        &&& old(self).slots@[s as int].snap matches Some(snap)
                        &&& seed_outcome(
                            Ok(()),
                            final(self).model,
                            old(self).model,
                            s,
                            snap,
                        )
                        &&& final(self).slots@[s as int] == (AdapterSlot {
                            seeded: true,
                            paged_dirty: true,
                            ..old(self).slots@[s as int]
                        })
                        &&& final(self).decode_graph is None
                    }
                },
                Err(msg) => {
                    &&& item_failure(
                        *old(self),
                        DecodeItem { slot_idx: s, token: 0, pos: 0 },
                    ) == Some(msg@)
                    &&& *final(self) == (Qwen35BatchAdapter {
                        model: final(self).model,
                        ..*old(self)
                    })
                    &&& seed_stopped(
                        final(self).model,
                        old(self).model,
                        s,
                        old(self).slots@[s as int].snap,
                    )
                },
            },
            same_instance(old(self).model, final(self).model),
    {
        let ghost before = *self;
        proof {
            lemma_same_instance_refl(self.model);
            assert(slot_usable(self.model, self.slots@[s as int], s as int));
        }
        if self.slots[s].seeded {
            return Ok(());
        }
        let outcome = match &self.slots[s].snap {
            None => {
                let mut msg = "decode_batch: slot ".to_owned();
                push_decimal(&mut msg, s as u64);
                msg.append(" без snapshot");
                return Err(msg);
            },
            Some(snap) => self.model.seed_slot_batched(s, snap),
        };
        proof {
            let snap = before.slots@[s as int].snap->0;
            lemma_seed_keeps_instance(outcome, self.model, before.model, s, snap);
            lemma_seed_result(outcome, self.model, before.model, s, snap);
            lemma_slots_stay_usable(before.model, self.model, before.slots@);
        }
        match outcome {
            Ok(()) => {},
            Err(e) => {
                assert(seed_outcome(
                    Err(e),
                    self.model,
                    before.model,
                    s,
                    before.slots@[s as int].snap->0,
                ));
                let mut msg = "decode seed slot ".to_owned();
                push_decimal(&mut msg, s as u64);
                msg.append(": ");
                msg.append(e.as_str());
                return Err(msg);
            },
        }
        self.slots[s].seeded = true;
        self.slots[s].paged_dirty = true;
        self.decode_graph = None;
        proof {
            assert forall|i: int| 0 <= i < self.slots@.len() implies slot_usable(
                self.model,
                #[trigger] self.slots@[i],
                i,
            ) by {
                assert(slot_usable(self.model, before.slots@[i], i));
            }
        }
        Ok(())
    }

    fn seed_items(&mut self, items: &Vec<DecodeItem>) -> (done: Result<(), String>)
        requires
            old(self).wf(),
            slots_exist(items@, old(self).slots@.len()),
        ensures
            final(self).wf(),
            match done {
                Ok(()) => seeding_failure(*old(self), items@, items@.len()) is None && seeded_for(
                    *final(self),
                    *old(self),
                    items@,
                    items@.len(),
                ),
                Err(msg) => {
                    &&& seeding_failure(*old(self), items@, items@.len()) == Some(msg@)
                    &&& seeding_stopped(*final(self), *old(self), items@)
                },
            },
    {
        let ghost before = *self;
        proof {
            lemma_start(before, items@);
        }
        let mut i: usize = 0;
        while i < items.len()
            invariant
                i <= items@.len(),
                self.wf(),
                before == *old(self),
                before.wf(),
                slots_exist(items@, before.slots@.len()),
                seeding_failure(before, items@, i as nat) is None,
                seeded_for(*self, before, items@, i as nat),
            decreases items@.len() - i,
        {
            let s: usize = items[i].slot_idx;
            assert(items@[i as int].slot_idx < before.slots@.len());
            let ghost middle = *self;
            match self.seed_one(s) {
                Ok(()) => {
                    proof {
                        lemma_seed_step(*self, middle, before, items@, i as nat);
                    }
                },
                Err(msg) => {
                    proof {
                        lemma_refused_step(middle, before, items@, i as nat, msg@);
                        lemma_seeding_failure_stays(before, items@, (i + 1) as nat, items@.len());
                        assert(stopped_at(*self, middle, before, items@, i as nat));
                    }
                    return Err(msg);
                },
            }
            i += 1;
        }
        Ok(())
    }

    /// Prepares a decode step: seeds the slots that are new to the batched buffers and
    /// places every token. An empty step needs no pass.
    pub fn decode_open(&mut self, items: &Vec<DecodeItem>) -> (inputs: Result<
        Option<DecodeInputs>,
        String,
    >)
        requires
            old(self).wf(),
        ensures
            final(self).wf(),
            decode_outcome(inputs, *final(self), *old(self), items@),
    {
        let n: usize = self.slots.len();
        let mut i: usize = 0;
        while i < items.len()
            invariant
                i <= items@.len(),
                n == self.slots@.len(),
                *self == *old(self),
                self.wf(),
                forall|k: int| 0 <= k < i ==> (#[trigger] items@[k]).slot_idx < n,
            decreases items@.len() - i,
        {
            if items[i].slot_idx >= n {
                assert(items@[i as int].slot_idx >= n);
                return Err("decode slot is out of range".to_owned());
            }
            i += 1;
        }
        if items.len() == 0 {
            return Ok(None);
        }
        match self.seed_items(items) {
            Ok(()) => {},
            Err(msg) => return Err(msg),
        }
        proof {
            assert forall|s: int| 0 <= s < n implies (#[trigger] self.slots@[s]).rope_delta == old(
                self,
            ).slots@[s].rope_delta by {
                assert(slot_after_seeding(*self, *old(self), items@, items@.len(), s));
            }
            lemma_placing_same(self.slots@, old(self).slots@, items@, items@.len());
        }
        match self.place_items(items) {
            Ok(inputs) => {
                proof {
                    assert forall|i: int|
                        #![trigger items@[i]]
                        0 <= i < items@.len() implies decode_position(
                        items@[i].pos,
                        old(self).slots@[items@[i].slot_idx as int].rope_delta,
                    ) == Ok::<usize, Seq<char>>(inputs.plan.rope_positions@[i]) by {
                        assert(items@[i].slot_idx < n);
                        assert(self.slots@[items@[i].slot_idx as int].rope_delta == old(
                            self,
                        ).slots@[items@[i].slot_idx as int].rope_delta);
                    }
                }
                Ok(Some(inputs))
            },
            Err(msg) => Err(msg),
        }
    }

    fn place_items(&self, items: &Vec<DecodeItem>) -> (inputs: Result<DecodeInputs, String>)
        requires
            self.wf(),
            slots_exist(items@, self.slots@.len()),
        ensures
            match inputs {
                Ok(i) => placing_failure(self.slots@, items@, items@.len()) is None && inputs_for(
                    i,
                    self.slots@,
                    items@,
                ),
                Err(msg) => placing_failure(self.slots@, items@, items@.len()) == Some(msg@),
            },
    {
        let mut tokens: Vec<u32> = Vec::new();
        let mut cache_positions: Vec<usize> = Vec::new();
        let mut rope_positions: Vec<usize> = Vec::new();
        let mut slots: Vec<u32> = Vec::new();
        let mut i: usize = 0;
        while i < items.len()
            invariant
                i <= items@.len(),
                self.wf(),
                slots_exist(items@, self.slots@.len()),
                placing_failure(self.slots@, items@, i as nat) is None,
                tokens@.len() == i,
                cache_positions@.len() == i,
                rope_positions@.len() == i,
                slots@.len() == i,
                forall|k: int|
                    #![trigger items@[k]]
                    0 <= k < i ==> {
                        &&& tokens@[k] == items@[k].token
                        &&& cache_positions@[k] == items@[k].pos
                        &&& slots@[k] == items@[k].slot_idx
                        &&& decode_position(
                            items@[k].pos,
                            self.slots@[items@[k].slot_idx as int].rope_delta,
                        ) == Ok::<usize, Seq<char>>(rope_positions@[k])
                    },
            decreases items@.len() - i,
        {
            let item = items[i];
            assert(items@[i as int].slot_idx < self.slots@.len());
            match rope_position(item.pos, self.slots[item.slot_idx].rope_delta) {
                Err(msg) => {
                    proof {
                        lemma_placing_failure_stays(
                            self.slots@,
                            items@,
                            (i + 1) as nat,
                            items@.len(),
                        );
                    }
                    return Err(msg);
                },
                Ok(position) => {
                    tokens.push(item.token);
                    cache_positions.push(item.pos);
                    rope_positions.push(position);
                    slots.push(item.slot_idx as u32);
                },
            }
            i += 1;
        }
        Ok(
            DecodeInputs {
                tokens,
                plan: DecodePlan { cache_positions, rope_positions, slots },
            },
        )
    }
}

proof fn lemma_placing_same(
    a: Seq<AdapterSlot>,
    b: Seq<AdapterSlot>,
    items: Seq<DecodeItem>,
    n: nat,
)
    requires
        n <= items.len(),
        a.len() == b.len(),
        slots_exist(items, a.len()),
        forall|s: int| 0 <= s < a.len() ==> (#[trigger] a[s]).rope_delta == b[s].rope_delta,
    ensures
        placing_failure(a, items, n) == placing_failure(b, items, n),
    decreases n,
{
    if n > 0 {
        lemma_placing_same(a, b, items, (n - 1) as nat);
        assert(items[n - 1].slot_idx < a.len());
        assert(a[items[n - 1].slot_idx as int].rope_delta == b[items[n
            - 1].slot_idx as int].rope_delta);
    }
}

proof fn lemma_start(before: Qwen35BatchAdapter, items: Seq<DecodeItem>)
    requires
        before.wf(),
    ensures
        seeded_for(before, before, items, 0),
{
    lemma_same_instance_refl(before.model);
    assert forall|s: int| 0 <= s < before.slots@.len() implies #[trigger] slot_after_seeding(
        before,
        before,
        items,
        0,
        s,
    ) by {
        assert forall|i: int| 0 <= i < before.model.blocks@.len() implies same_slot(
            #[trigger] before.model.blocks@[i],
            before.model.blocks@[i],
            s,
        ) by {}
    }
    assert(model_same_stream(before.model, before.model)) by {
        assert forall|i: int| 0 <= i < before.model.blocks@.len() implies same_stream(
            #[trigger] before.model.blocks@[i],
            before.model.blocks@[i],
        ) by {}
    }
}

proof fn lemma_in_batch_next(items: Seq<DecodeItem>, n: nat, s: int)
    requires
        n < items.len(),
    ensures
        in_batch(items, n + 1, s) == (in_batch(items, n, s) || items[n as int].slot_idx == s),
{
    if in_batch(items, n, s) {
        let k = choose|k: int| 0 <= k < n && (#[trigger] items[k]).slot_idx == s;
        assert(items[k].slot_idx == s);
    }
    if in_batch(items, n + 1, s) {
        let k = choose|k: int| 0 <= k < n + 1 && (#[trigger] items[k]).slot_idx == s;
        assert(items[k].slot_idx == s);
    }
}

proof fn lemma_refused_step(
    middle: Qwen35BatchAdapter,
    before: Qwen35BatchAdapter,
    items: Seq<DecodeItem>,
    n: nat,
    msg: Seq<char>,
)
    requires
        n < items.len(),
        slots_exist(items, before.slots@.len()),
        seeded_for(middle, before, items, n),
        seeding_failure(before, items, n) is None,
        item_failure(middle, DecodeItem { slot_idx: items[n as int].slot_idx, token: 0, pos: 0 })
            == Some(msg),
    ensures
        seeding_failure(before, items, n + 1) == Some(msg),
{
    let s = items[n as int].slot_idx as int;
    assert(items[n as int].slot_idx < before.slots@.len());
    assert(slot_after_seeding(middle, before, items, n, s));
    assert(middle.slots@[s] == before.slots@[s]);
    if before.slots@[s].snap is Some {
        lemma_seed_failure_same(
            before.model,
            middle.model,
            items[n as int].slot_idx,
            before.slots@[s].snap->0,
        );
    }
}

#[verifier::spinoff_prover]
proof fn lemma_seed_step(
    after: Qwen35BatchAdapter,
    middle: Qwen35BatchAdapter,
    before: Qwen35BatchAdapter,
    items: Seq<DecodeItem>,
    n: nat,
)
    requires
        before.wf(),
        middle.wf(),
        n < items.len(),
        slots_exist(items, before.slots@.len()),
        seeded_for(middle, before, items, n),
        seeding_failure(before, items, n) is None,
        after == (Qwen35BatchAdapter {
            model: after.model,
            slots: after.slots,
            decode_graph: after.decode_graph,
            ..middle
        }),
        same_instance(middle.model, after.model),
        after.slots@.len() == middle.slots@.len(),
        forall|t: int|
            0 <= t < middle.slots@.len() && t != items[n as int].slot_idx
                ==> #[trigger] after.slots@[t] == middle.slots@[t],
        ({
            let s = items[n as int].slot_idx as int;
            if middle.slots@[s].seeded {
                &&& after.model == middle.model
                &&& after.slots@[s] == middle.slots@[s]
                &&& after.decode_graph == middle.decode_graph
            } else {
                &&& middle.slots@[s].snap matches Some(snap)
                &&& seed_outcome(
                    Ok(()),
                    after.model,
                    middle.model,
                    items[n as int].slot_idx,
                    snap,
                )
                &&& after.slots@[s] == (AdapterSlot {
                    seeded: true,
                    paged_dirty: true,
                    ..middle.slots@[s]
                })
                &&& after.decode_graph is None
            }
        }),
    ensures
        seeding_failure(before, items, n + 1) is None,
        seeded_for(after, before, items, n + 1),
{
    let s = items[n as int].slot_idx as int;
    assert(items[n as int].slot_idx < before.slots@.len());
    assert(slot_after_seeding(middle, before, items, n, s));
    lemma_same_instance_trans(before.model, middle.model, after.model);
    assert forall|t: int| 0 <= t < before.slots@.len() implies in_batch(items, n + 1, t) == (
    #[trigger] in_batch(items, n, t) || t == s) by {
        lemma_in_batch_next(items, n, t);
    }
    lemma_in_batch_next(items, n, s);
    if middle.slots@[s].seeded {
        assert(before.slots@[s].seeded || newly_seeded(before, items, n, s));
        assert(item_failure(before, items[n as int]) is None) by {
            if !before.slots@[s].seeded {
                lemma_seeded_item_ok(before, items, n, s);
            }
        }
        assert forall|t: int| 0 <= t < before.slots@.len() implies newly_seeded(
            before,
            items,
            n + 1,
            t,
        ) == #[trigger] newly_seeded(before, items, n, t) by {
            lemma_in_batch_next(items, n, t);
        }
        assert forall|t: int| 0 <= t < before.slots@.len() implies #[trigger] slot_after_seeding(
            after,
            before,
            items,
            n + 1,
            t,
        ) by {
            assert(slot_after_seeding(middle, before, items, n, t));
            assert(newly_seeded(before, items, n, t) == newly_seeded(before, items, n + 1, t));
            if t != s {
                assert(after.slots@[t] == middle.slots@[t]);
            }
        }
        assert(after.decode_graph == before.decode_graph || after.decode_graph is None);
        if exists|t: int|
            0 <= t < before.slots@.len() && #[trigger] newly_seeded(before, items, n + 1, t) {
            let t = choose|t: int|
                0 <= t < before.slots@.len() && #[trigger] newly_seeded(before, items, n + 1, t);
            assert(newly_seeded(before, items, n, t));
        }
        if exists|t: int|
            0 <= t < before.slots@.len() && #[trigger] newly_seeded(before, items, n, t) {
            let t = choose|t: int|
                0 <= t < before.slots@.len() && #[trigger] newly_seeded(before, items, n, t);
            assert(newly_seeded(before, items, n + 1, t));
        }
    } else {
        assert(!newly_seeded(before, items, n, s));
        assert(middle.slots@[s] == before.slots@[s]);
        let snap = before.slots@[s].snap->0;
        let slot = items[n as int].slot_idx;
        lemma_seed_result(Ok(()), after.model, middle.model, slot, snap);
        lemma_seed_failure_same(before.model, middle.model, slot, snap);
        lemma_seed_effect(Ok(()), after.model, middle.model, slot, snap);
        lemma_same_stream_trans(after.model, middle.model, before.model);
        assert(newly_seeded(before, items, n + 1, s));
        assert forall|t: int| 0 <= t < before.slots@.len() implies #[trigger] slot_after_seeding(
            after,
            before,
            items,
            n + 1,
            t,
        ) by {
            assert(slot_after_seeding(middle, before, items, n, t));
            lemma_in_batch_next(items, n, t);
            if t != s {
                assert(after.slots@[t] == middle.slots@[t]);
                assert(model_same_slot(after.model, middle.model, t));
                if newly_seeded(before, items, n, t) {
                    lemma_slot_holds_stays(
                        after.model,
                        middle.model,
                        before.slots@[t].snap->0,
                        t,
                    );
                } else {
                    lemma_same_slot_trans(after.model, middle.model, before.model, t);
                }
            }
        }
    }
}

proof fn lemma_seeded_item_ok(
    before: Qwen35BatchAdapter,
    items: Seq<DecodeItem>,
    n: nat,
    s: int,
)
    requires
        seeding_failure(before, items, n) is None,
        in_batch(items, n, s),
        n <= items.len(),
    ensures
        forall|item: DecodeItem| item.slot_idx == s ==> #[trigger] item_failure(before, item) is None,
    decreases n,
{
    if n > 0 {
        if items[n - 1].slot_idx == s {
            assert(item_failure(before, items[n - 1]) is None);
            assert forall|item: DecodeItem| item.slot_idx == s implies #[trigger] item_failure(
                before,
                item,
            ) is None by {
                assert(item_failure(before, item) == item_failure(before, items[n - 1]));
            }
        } else {
            lemma_in_batch_next(items, (n - 1) as nat, s);
            lemma_seeded_item_ok(before, items, (n - 1) as nat, s);
        }
    }
}

proof fn lemma_all_seeded(
    after: Qwen35BatchAdapter,
    before: Qwen35BatchAdapter,
    items: Seq<DecodeItem>,
    n: nat,
)
    requires
        n <= items.len(),
        slots_exist(items, before.slots@.len()),
        seeded_for(after, before, items, items.len()),
    ensures
        seeding_failure(after, items, n) is None,
    decreases n,
{
    if n > 0 {
        lemma_all_seeded(after, before, items, (n - 1) as nat);
        let s = items[n - 1].slot_idx as int;
        assert(items[n - 1].slot_idx < before.slots@.len());
        assert(slot_after_seeding(after, before, items, items.len(), s));
        assert(in_batch(items, items.len(), s));
    }
}

/// Slots are seeded once: a second step over the same slots seeds nothing, so it cannot
/// fail for want of a snapshot, and keeps the captured graph.
pub proof fn law_slots_are_seeded_once(
    before: Qwen35BatchAdapter,
    after: Qwen35BatchAdapter,
    items: Seq<DecodeItem>,
    again: Qwen35BatchAdapter,
)
    requires
        slots_exist(items, before.slots@.len()),
        seeded_for(after, before, items, items.len()),
        seeded_for(again, after, items, items.len()),
    ensures
        seeding_failure(after, items, items.len()) is None,
        forall|s: int|
            0 <= s < before.slots@.len() ==> #[trigger] again.slots@[s] == after.slots@[s],
        forall|s: int|
            0 <= s < before.slots@.len() ==> #[trigger] model_same_slot(again.model, after.model, s),
        again.decode_graph == after.decode_graph,
{
    lemma_all_seeded(after, before, items, items.len());
    assert forall|s: int| 0 <= s < before.slots@.len() implies !#[trigger] newly_seeded(
        after,
        items,
        items.len(),
        s,
    ) by {
        assert(slot_after_seeding(after, before, items, items.len(), s));
    }
    assert forall|s: int| 0 <= s < before.slots@.len() implies #[trigger] again.slots@[s]
        == after.slots@[s] && model_same_slot(again.model, after.model, s) by {
        assert(slot_after_seeding(again, after, items, items.len(), s));
        assert(!newly_seeded(after, items, items.len(), s));
    }
    assert forall|s: int| 0 <= s < before.slots@.len() implies #[trigger] model_same_slot(
        again.model,
        after.model,
        s,
    ) by {
        assert(again.slots@[s] == after.slots@[s]);
    }
}

/// A slot outside the step keeps its state, on the host and in every block.
pub proof fn law_absent_slot_is_untouched(
    before: Qwen35BatchAdapter,
    after: Qwen35BatchAdapter,
    items: Seq<DecodeItem>,
    s: int,
)
    requires
        0 <= s < before.slots@.len(),
        seeded_for(after, before, items, items.len()),
        !in_batch(items, items.len(), s),
    ensures
        after.slots@[s] == before.slots@[s],
        model_same_slot(after.model, before.model, s),
{
    assert(slot_after_seeding(after, before, items, items.len(), s));
}

} // verus!
