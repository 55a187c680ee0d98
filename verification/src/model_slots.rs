//! Per-slot state of the whole model for batched decode.
use crate::delta_state::{data_fits, fresh_data};
use crate::kv_cache::{empty_slot, saved_slot, slot_ok, DECODE_BATCH_CAPACITY};
use crate::model_ops::{lemma_agreeing_stops, same_but_blocks};
use crate::model_state::{
    agreeing, block_fits, block_models, blocks_fit, layer_wf, length_message, length_text,
    nonce_message, nonce_text, same_but_slot_state, seed_mismatch_text, slot_seeded, types_agree,
    BatchedBlockCheckpoint, BatchedStateCheckpoint, BlockModel, BlockStateSnap, DeltaNetLayer,
    HybridLayerType, ModelWeights, StateSnapshot,
};
use crate::text::{decimal, push_decimal};
use vstd::prelude::*;

verus! {

/// Whether slot `s` of the first `m` blocks is as seeding leaves it and all else
/// as it was.
pub open spec fn seeded_up_to(
    after: Seq<HybridLayerType>,
    before: Seq<HybridLayerType>,
    snaps: Seq<BlockModel>,
    s: int,
    m: int,
) -> bool {
    &&& after.len() == before.len()
    &&& forall|i: int| 0 <= i < m ==> slot_seeded(#[trigger] after[i], before[i], snaps[i], s)
    &&& forall|i: int| m <= i < before.len() ==> #[trigger] after[i] == before[i]
}

/// The layer after all slots are reset: the slots are empty, the single stream is
/// as it was.
pub open spec fn slots_cleared(after: HybridLayerType, before: HybridLayerType) -> bool {
    match before {
        HybridLayerType::DeltaNet(b) => {
            &&& after matches HybridLayerType::DeltaNet(a)
            &&& a.state == b.state
            &&& a.on_metal == b.on_metal
            &&& forall|s: int|
                0 <= s < DECODE_BATCH_CAPACITY ==> (#[trigger] a.cpu_state_batched@[s])@
                    == fresh_data(b.state.shape())
        },
        HybridLayerType::Attention(b) => {
            &&& after matches HybridLayerType::Attention(a)
            &&& a.same_but_slots(&b)
            &&& a.kv_cache_cap_batched == 0
            &&& forall|s: int|
                0 <= s < DECODE_BATCH_CAPACITY ==> #[trigger] a.slot(s) == empty_slot()
        },
    }
}

/// The message for a slot beyond the capacity.
pub open spec fn slot_text(intro: Seq<char>, slot: nat) -> Seq<char> {
    intro + decimal(slot) + " >= capacity 4"@
}

/// Whether `saved` is slot `s` of a layer.
pub open spec fn slot_captured(saved: BatchedBlockCheckpoint, layer: HybridLayerType, s: int) -> bool {
    match layer {
        HybridLayerType::DeltaNet(d) => {
            &&& saved matches BatchedBlockCheckpoint::DeltaNet(data)
            &&& data@ == d.cpu_state_batched@[s]@
        },
        HybridLayerType::Attention(a) => {
            &&& saved matches BatchedBlockCheckpoint::Attention { cache, len }
            &&& saved_slot(cache, len) == a.slot(s)
            &&& slot_ok(cache, len, a.format())
        },
    }
}

/// Whether a captured slot is of a layer's type.
pub open spec fn slot_types_agree(layer: HybridLayerType, saved: BatchedBlockCheckpoint) -> bool {
    (layer is DeltaNet) == (saved is DeltaNet)
}

/// Whether a captured slot fits a layer, where the types agree.
pub open spec fn slot_fits(layer: HybridLayerType, saved: BatchedBlockCheckpoint) -> bool {
    match (layer, saved) {
        (HybridLayerType::DeltaNet(d), BatchedBlockCheckpoint::DeltaNet(data)) => data_fits(
            data@,
            d.state.shape(),
        ),
        (
            HybridLayerType::Attention(a),
            BatchedBlockCheckpoint::Attention { cache, len },
        ) => slot_ok(cache, len, a.format()),
        _ => true,
    }
}

/// Whether `after` is `before` with a captured slot put back into slot `s`, and
/// nothing else.
pub open spec fn slot_put_back(
    after: HybridLayerType,
    before: HybridLayerType,
    saved: BatchedBlockCheckpoint,
    s: int,
) -> bool {
    match (before, saved) {
        (HybridLayerType::DeltaNet(b), BatchedBlockCheckpoint::DeltaNet(data)) => {
            &&& after matches HybridLayerType::DeltaNet(a)
            &&& a.cpu_state_batched@[s]@ == data@
            &&& a.cpu_state_batched@[s].shape() == b.cpu_state_batched@[s].shape()
            &&& same_but_slot_state(a, b, s)
        },
        (
            HybridLayerType::Attention(b),
            BatchedBlockCheckpoint::Attention { cache, len },
        ) => {
            &&& after matches HybridLayerType::Attention(a)
            &&& a.slot(s) == saved_slot(cache, len)
            &&& a.same_but_slot(&b, s)
            &&& a.kv_cache_cap_batched == b.kv_cache_cap_batched
        },
        _ => false,
    }
}

/// How many of the first `n` layers agree with the captured slots, up to the
/// first that does not.
pub open spec fn slots_agreeing(
    layers: Seq<HybridLayerType>,
    saved: Seq<BatchedBlockCheckpoint>,
    n: nat,
) -> nat
    decreases n,
{
    if n == 0 {
        0
    } else {
        let k = slots_agreeing(layers, saved, (n - 1) as nat);
        if k == n - 1 && slot_types_agree(layers[n - 1], saved[n - 1]) {
            n
        } else {
            k
        }
    }
}

proof fn lemma_slots_agreeing_stops(
    layers: Seq<HybridLayerType>,
    saved: Seq<BatchedBlockCheckpoint>,
    k: nat,
    n: nat,
)
    requires
        slots_agreeing(layers, saved, k) == k,
        k < n,
        !slot_types_agree(layers[k as int], saved[k as int]),
    ensures
        slots_agreeing(layers, saved, n) == k,
    decreases n,
{
    if k + 1 < n {
        lemma_slots_agreeing_stops(layers, saved, k, (n - 1) as nat);
    }
}

pub proof fn lemma_all_slots_agree(
    layers: Seq<HybridLayerType>,
    saved: Seq<BatchedBlockCheckpoint>,
    n: nat,
)
    requires
        forall|i: int| 0 <= i < n ==> slot_types_agree(#[trigger] layers[i], saved[i]),
    ensures
        slots_agreeing(layers, saved, n) == n,
    decreases n,
{
    if n > 0 {
        lemma_all_slots_agree(layers, saved, (n - 1) as nat);
        assert(slot_types_agree(layers[n - 1], saved[n - 1]));
    }
}

/// Whether slot `s` of the first `m` blocks was put back and all else is as it was.
pub open spec fn put_back_up_to(
    after: Seq<HybridLayerType>,
    before: Seq<HybridLayerType>,
    saved: Seq<BatchedBlockCheckpoint>,
    s: int,
    m: int,
) -> bool {
    &&& after.len() == before.len()
    &&& forall|i: int| 0 <= i < m ==> slot_put_back(#[trigger] after[i], before[i], saved[i], s)
    &&& forall|i: int| m <= i < before.len() ==> #[trigger] after[i] == before[i]
}

/// Whether `checkpoint` is slot `s` of `model`.
pub open spec fn checkpoint_of(
    checkpoint: BatchedStateCheckpoint,
    model: ModelWeights,
    s: usize,
) -> bool {
    &&& checkpoint.model_nonce == model.instance_nonce
    &&& checkpoint.slot == s
    &&& checkpoint.blocks@.len() == model.blocks@.len()
    &&& forall|i: int|
        0 <= i < model.blocks@.len() ==> slot_captured(
            #[trigger] checkpoint.blocks@[i],
            model.blocks@[i],
            s as int,
        )
}

/// Whether a checkpoint can belong to a model.
pub open spec fn checkpoint_compatible(
    checkpoint: BatchedStateCheckpoint,
    model: ModelWeights,
) -> bool {
    &&& checkpoint.model_nonce == model.instance_nonce
    &&& checkpoint.slot < DECODE_BATCH_CAPACITY
    &&& checkpoint.blocks@.len() == model.blocks@.len()
}

/// What restoring a checkpoint does and returns.
pub open spec fn slot_restore_outcome(
    done: Result<(), String>,
    after: ModelWeights,
    before: ModelWeights,
    checkpoint: BatchedStateCheckpoint,
) -> bool {
    let own = before.blocks@;
    let saved = checkpoint.blocks@;
    if !checkpoint_compatible(checkpoint, before) {
        &&& after == before
        &&& done matches Err(msg)
        &&& msg@ == "batched checkpoint is incompatible with model"@
    } else {
        let m = slots_agreeing(own, saved, own.len());
        &&& same_but_blocks(after, before)
        &&& put_back_up_to(after.blocks@, own, saved, checkpoint.slot as int, m as int)
        &&& match done {
            Ok(()) => m == own.len(),
            Err(msg) => m < own.len() && msg@ == "batched checkpoint block type mismatch"@,
        }
    }
}

/// What seeding a slot does and returns.
pub open spec fn seed_outcome(
    done: Result<(), String>,
    after: ModelWeights,
    before: ModelWeights,
    slot: usize,
    snap: StateSnapshot,
) -> bool {
    let snaps = block_models(snap.blocks@);
    let own = before.blocks@;
    if snap.model_nonce != before.instance_nonce {
        &&& after == before
        &&& done matches Err(msg)
        &&& msg@ == nonce_text(
            "seed_slot_batched: model nonce mismatch: snap="@,
            snap.model_nonce,
            before.instance_nonce,
        )
    } else if snaps.len() != own.len() {
        &&& after == before
        &&& done matches Err(msg)
        &&& msg@ == length_text(
            "seed_slot_batched: blocks length mismatch: snap="@,
            snaps.len(),
            own.len(),
        )
    } else if slot >= DECODE_BATCH_CAPACITY {
        &&& after == before
        &&& done matches Err(msg)
        &&& msg@ == slot_text("seed_slot_batched: slot "@, slot as nat)
    } else {
        let m = agreeing(own, snaps, own.len());
        &&& same_but_blocks(after, before)
        &&& seeded_up_to(after.blocks@, own, snaps, slot as int, m as int)
        &&& match done {
            Ok(()) => m == own.len(),
            Err(msg) => m < own.len() && msg@ == seed_mismatch_text(own[m as int], slot as nat),
        }
    }
}

fn slot_message(intro: &str, slot: usize) -> (msg: String)
    ensures
        msg@ == slot_text(intro@, slot as nat),
{
    let mut msg = intro.to_owned();
    push_decimal(&mut msg, slot as u64);
    msg.append(" >= capacity 4");
    msg
}

fn seed_mismatch_message(slot: usize, expected: &str) -> (msg: String)
    ensures
        msg@ == "seed_slot_batched: snapshot variant mismatch at slot "@ + decimal(slot as nat)
            + expected@,
{
    let mut msg = "seed_slot_batched: snapshot variant mismatch at slot ".to_owned();
    push_decimal(&mut msg, slot as u64);
    msg.append(expected);
    msg
}

impl HybridLayerType {
    /// Puts captured single-stream state into slot `slot`, where it is of the
    /// layer's type.
    pub fn seed_slot(&mut self, slot: usize, snap: &BlockStateSnap) -> (done: Result<(), String>)
        requires
            layer_wf(*old(self)),
            snap.wf(),
            block_fits(*old(self), snap@),
            slot < DECODE_BATCH_CAPACITY,
        ensures
            layer_wf(*final(self)),
            match done {
                Ok(()) => types_agree(*old(self), snap@) && slot_seeded(
                    *final(self),
                    *old(self),
                    snap@,
                    slot as int,
                ),
                Err(msg) => !types_agree(*old(self), snap@) && *final(self) == *old(self) && msg@
                    == seed_mismatch_text(*old(self), slot as nat),
            },
    {
        match self {
            HybridLayerType::DeltaNet(d) => match snap {
                BlockStateSnap::DeltaNet(s) => {
                    d.cpu_state_batched[slot].restore_from(s);
                    Ok(())
                },
                BlockStateSnap::Attention(_) => Err(
                    seed_mismatch_message(slot, ": expected DeltaNet"),
                ),
            },
            HybridLayerType::Attention(a) => match snap {
                BlockStateSnap::Attention(s) => {
                    a.seed_slot(slot, s);
                    Ok(())
                },
                BlockStateSnap::DeltaNet(_) => Err(
                    seed_mismatch_message(slot, ": expected Attention"),
                ),
            },
        }
    }

    /// Captures slot `slot`.
    pub fn checkpoint_slot(&self, slot: usize) -> (saved: BatchedBlockCheckpoint)
        requires
            layer_wf(*self),
            slot < DECODE_BATCH_CAPACITY,
        ensures
            slot_captured(saved, *self, slot as int),
    {
        match self {
            HybridLayerType::DeltaNet(d) => BatchedBlockCheckpoint::DeltaNet(
                d.cpu_state_batched[slot].to_snapshot(),
            ),
            HybridLayerType::Attention(a) => {
                let (cache, len) = a.checkpoint_slot(slot);
                BatchedBlockCheckpoint::Attention { cache, len }
            },
        }
    }

    /// Puts a captured slot back, where it is of the layer's type.
    pub fn put_slot_back(&mut self, slot: usize, saved: &BatchedBlockCheckpoint) -> (done: Result<
        (),
        String,
    >)
        requires
            layer_wf(*old(self)),
            slot_fits(*old(self), *saved),
            slot < DECODE_BATCH_CAPACITY,
        ensures
            layer_wf(*final(self)),
            match done {
                Ok(()) => slot_types_agree(*old(self), *saved) && slot_put_back(
                    *final(self),
                    *old(self),
                    *saved,
                    slot as int,
                ),
                Err(msg) => !slot_types_agree(*old(self), *saved) && *final(self) == *old(self)
                    && msg@ == "batched checkpoint block type mismatch"@,
            },
    {
        match self {
            HybridLayerType::DeltaNet(d) => match saved {
                BatchedBlockCheckpoint::DeltaNet(s) => {
                    d.cpu_state_batched[slot].restore_from(s);
                    Ok(())
                },
                BatchedBlockCheckpoint::Attention { cache, len } => Err(
                    "batched checkpoint block type mismatch".to_owned(),
                ),
            },
            HybridLayerType::Attention(a) => match saved {
                BatchedBlockCheckpoint::Attention { cache, len } => {
                    a.restore_slot(slot, cache, *len);
                    Ok(())
                },
                BatchedBlockCheckpoint::DeltaNet(_) => Err(
                    "batched checkpoint block type mismatch".to_owned(),
                ),
            },
        }
    }

    /// Resets all slots.
    pub fn clear_slots(&mut self)
        requires
            layer_wf(*old(self)),
        ensures
            layer_wf(*final(self)),
            slots_cleared(*final(self), *old(self)),
    {
        match self {
            HybridLayerType::DeltaNet(d) => clear_states(d),
            HybridLayerType::Attention(a) => a.clear_slots(),
        }
    }
}

fn clear_states(d: &mut DeltaNetLayer)
    requires
        old(d).wf(),
    ensures
        final(d).wf(),
        final(d).state == old(d).state,
        final(d).on_metal == old(d).on_metal,
        forall|s: int|
            0 <= s < DECODE_BATCH_CAPACITY ==> (#[trigger] final(d).cpu_state_batched@[s])@
                == fresh_data(old(d).state.shape()),
{
    let mut s: usize = 0;
    while s < d.cpu_state_batched.len()
        invariant
            d.wf(),
            d.state == old(d).state,
            d.on_metal == old(d).on_metal,
            s <= d.cpu_state_batched@.len(),
            forall|t: int|
                0 <= t < s ==> (#[trigger] d.cpu_state_batched@[t])@ == fresh_data(
                    old(d).state.shape(),
                ),
        decreases d.cpu_state_batched@.len() - s,
    {
        d.cpu_state_batched[s].clear();
        s += 1;
    }
}

impl ModelWeights {
    /// Puts a snapshot's state into slot `slot` for batched decode. A snapshot of
    /// another instance or of another number of blocks and a slot beyond the capacity
    /// are refused; a block of the wrong type ends the seeding there.
    pub fn seed_slot_batched(&mut self, slot: usize, snap: &StateSnapshot) -> (done: Result<
        (),
        String,
    >)
        requires
            old(self).wf(),
            snap.wf(),
            snap.model_nonce == old(self).instance_nonce && snap.blocks@.len() == old(
                self,
            ).blocks@.len() ==> blocks_fit(old(self).blocks@, block_models(snap.blocks@)),
        ensures
            final(self).wf(),
            seed_outcome(done, *final(self), *old(self), slot, *snap),
    {
        if snap.model_nonce != self.instance_nonce {
            return Err(
                nonce_message(
                    "seed_slot_batched: model nonce mismatch: snap=",
                    snap.model_nonce,
                    self.instance_nonce,
                ),
            );
        }
        if snap.blocks.len() != self.blocks.len() {
            return Err(
                length_message(
                    "seed_slot_batched: blocks length mismatch: snap=",
                    snap.blocks.len(),
                    self.blocks.len(),
                ),
            );
        }
        if slot >= DECODE_BATCH_CAPACITY as usize {
            return Err(slot_message("seed_slot_batched: slot ", slot));
        }
        let ghost snaps = block_models(snap.blocks@);
        let ghost before = self.blocks@;
        let mut i: usize = 0;
        while i < self.blocks.len()
            invariant
                i <= self.blocks@.len(),
                self.wf(),
                snap.wf(),
                slot < DECODE_BATCH_CAPACITY,
                before == old(self).blocks@,
                snaps == block_models(snap.blocks@),
                snap.model_nonce == old(self).instance_nonce,
                snap.blocks@.len() == before.len(),
                self.blocks@.len() == before.len(),
                blocks_fit(before, snaps),
                same_but_blocks(*self, *old(self)),
                seeded_up_to(self.blocks@, before, snaps, slot as int, i as int),
                agreeing(before, snaps, i as nat) == i,
            decreases self.blocks@.len() - i,
        {
            proof {
                assert(self.blocks@[i as int] == before[i as int]);
                assert(block_fits(before[i as int], snaps[i as int]));
                assert(snaps[i as int] == snap.blocks@[i as int]@);
            }
            match self.blocks[i].seed_slot(slot, &snap.blocks[i]) {
                Ok(()) => {},
                Err(msg) => {
                    proof {
                        lemma_agreeing_stops(before, snaps, i as nat, before.len());
                    }
                    return Err(msg);
                },
            }
            i += 1;
        }
        Ok(())
    }

    /// Captures slot `slot` of every layer.
    pub fn checkpoint_slot_batched(&self, slot: usize) -> (checkpoint: Result<
        BatchedStateCheckpoint,
        String,
    >)
        requires
            self.wf(),
        ensures
            match checkpoint {
                Ok(c) => slot < DECODE_BATCH_CAPACITY && checkpoint_of(c, *self, slot),
                Err(msg) => slot >= DECODE_BATCH_CAPACITY && msg@ == slot_text(
                    "checkpoint slot "@,
                    slot as nat,
                ),
            },
    {
        if slot >= DECODE_BATCH_CAPACITY as usize {
            return Err(slot_message("checkpoint slot ", slot));
        }
        let mut blocks: Vec<BatchedBlockCheckpoint> = Vec::new();
        let mut i: usize = 0;
        while i < self.blocks.len()
            invariant
                i <= self.blocks@.len(),
                self.wf(),
                slot < DECODE_BATCH_CAPACITY,
                blocks@.len() == i,
                forall|k: int|
                    0 <= k < i ==> slot_captured(
                        #[trigger] blocks@[k],
                        self.blocks@[k],
                        slot as int,
                    ),
            decreases self.blocks@.len() - i,
        {
            blocks.push(self.blocks[i].checkpoint_slot(slot));
            i += 1;
        }
        Ok(BatchedStateCheckpoint { model_nonce: self.instance_nonce, slot, blocks })
    }

    /// Puts a captured slot back. A checkpoint that cannot belong to this model is
    /// refused; a block of the wrong type ends the restore there.
    pub fn restore_slot_batched(&mut self, checkpoint: &BatchedStateCheckpoint) -> (done: Result<
        (),
        String,
    >)
        requires
            old(self).wf(),
            checkpoint_compatible(*checkpoint, *old(self)) ==> forall|i: int|
                0 <= i < old(self).blocks@.len() ==> slot_fits(
                    #[trigger] old(self).blocks@[i],
                    checkpoint.blocks@[i],
                ),
        ensures
            final(self).wf(),
            slot_restore_outcome(done, *final(self), *old(self), *checkpoint),
    {
        if checkpoint.model_nonce != self.instance_nonce || checkpoint.slot
            >= DECODE_BATCH_CAPACITY as usize || checkpoint.blocks.len() != self.blocks.len() {
            return Err("batched checkpoint is incompatible with model".to_owned());
        }
        let ghost saved = checkpoint.blocks@;
        let ghost before = self.blocks@;
        let slot: usize = checkpoint.slot;
        let mut i: usize = 0;
        while i < self.blocks.len()
            invariant
                i <= self.blocks@.len(),
                self.wf(),
                slot == checkpoint.slot,
                before == old(self).blocks@,
                saved == checkpoint.blocks@,
                checkpoint_compatible(*checkpoint, *old(self)),
                self.blocks@.len() == before.len(),
                forall|k: int|
                    0 <= k < before.len() ==> slot_fits(#[trigger] before[k], saved[k]),
                same_but_blocks(*self, *old(self)),
                put_back_up_to(self.blocks@, before, saved, slot as int, i as int),
                slots_agreeing(before, saved, i as nat) == i,
            decreases self.blocks@.len() - i,
        {
            proof {
                assert(self.blocks@[i as int] == before[i as int]);
            }
            match self.blocks[i].put_slot_back(slot, &checkpoint.blocks[i]) {
                Ok(()) => {},
                Err(msg) => {
                    proof {
                        lemma_slots_agreeing_stops(before, saved, i as nat, before.len());
                    }
                    return Err(msg);
                },
            }
            i += 1;
        }
        Ok(())
    }

    /// Resets every slot of every layer. The single-stream state stays.
    pub fn clear_state_batched(&mut self)
        requires
            old(self).wf(),
        ensures
            final(self).wf(),
            same_but_blocks(*final(self), *old(self)),
            final(self).blocks@.len() == old(self).blocks@.len(),
            forall|i: int|
                0 <= i < old(self).blocks@.len() ==> slots_cleared(
                    #[trigger] final(self).blocks@[i],
                    old(self).blocks@[i],
                ),
    {
        let mut i: usize = 0;
        while i < self.blocks.len()
            invariant
                i <= self.blocks@.len(),
                self.wf(),
                same_but_blocks(*self, *old(self)),
                self.blocks@.len() == old(self).blocks@.len(),
                forall|k: int|
                    0 <= k < i ==> slots_cleared(#[trigger] self.blocks@[k], old(self).blocks@[k]),
                forall|k: int|
                    i <= k < self.blocks@.len() ==> #[trigger] self.blocks@[k] == old(
                        self,
                    ).blocks@[k],
            decreases self.blocks@.len() - i,
        {
            self.blocks[i].clear_slots();
            i += 1;
        }
    }
}

} // verus!
