//! What stays the same through all operations on one model instance, and so keeps its
//! snapshots and checkpoints usable.
use crate::forward::{
    batch_outcome, block_forwarded, BatchAction, BatchInput, BlockAction, BlockInput, DecodePlan,
};
use crate::kv_cache::DECODE_BATCH_CAPACITY;
use crate::model_laws::{alike, same_instance};
use crate::model_ops::{restore_outcome, same_but_blocks, snapshot_of, stream_cleared};
use crate::model_slots::{
    checkpoint_compatible, checkpoint_of, seed_outcome, slot_captured, slot_fits, slot_put_back,
    slot_restore_outcome, slot_text, slots_agreeing, slots_cleared,
};
use crate::model_state::{
    agreeing, block_fits, block_models, block_restored, blocks_fit, captured, layer_wf,
    length_text, nonce_text, seed_mismatch_text, slot_seeded, BatchedStateCheckpoint, BlockModel,
    BlockStateSnap, HybridLayerType, ModelWeights, StateSnapshot,
};
use vstd::prelude::*;

verus! {

/// Whether a snapshot can be handed to a model: its rows are complete, and where it is
/// of this instance its data fits the layers.
pub open spec fn snap_ok(model: ModelWeights, snap: StateSnapshot) -> bool {
    &&& snap.wf()
    &&& snap.model_nonce == model.instance_nonce && snap.blocks@.len() == model.blocks@.len()
        ==> blocks_fit(model.blocks@, block_models(snap.blocks@))
}

/// Whether a checkpoint can be handed to a model: where it is of this instance its data
/// fits the layers.
pub open spec fn checkpoint_ok(model: ModelWeights, checkpoint: BatchedStateCheckpoint) -> bool {
    checkpoint_compatible(checkpoint, model) ==> forall|i: int|
        0 <= i < model.blocks@.len() ==> slot_fits(
            #[trigger] model.blocks@[i],
            checkpoint.blocks@[i],
        )
}

/// A model is an instance of itself.
pub proof fn lemma_same_instance_refl(model: ModelWeights)
    ensures
        same_instance(model, model),
{
}

/// Being states of one instance carries over.
pub proof fn lemma_same_instance_trans(a: ModelWeights, b: ModelWeights, c: ModelWeights)
    requires
        same_instance(a, b),
        same_instance(b, c),
    ensures
        same_instance(a, c),
{
    assert forall|i: int| 0 <= i < a.blocks@.len() implies alike(#[trigger] a.blocks@[i], c.blocks@[i]) by {
        assert(alike(a.blocks@[i], b.blocks@[i]));
        assert(alike(b.blocks@[i], c.blocks@[i]));
    }
}

/// Snapshots and checkpoints of an instance stay usable.
pub proof fn lemma_instance_keeps_captures(
    before: ModelWeights,
    after: ModelWeights,
    snap: StateSnapshot,
    checkpoint: BatchedStateCheckpoint,
)
    requires
        same_instance(before, after),
    ensures
        snap_ok(before, snap) ==> snap_ok(after, snap),
        checkpoint_ok(before, checkpoint) ==> checkpoint_ok(after, checkpoint),
{
    if snap_ok(before, snap) && snap.model_nonce == after.instance_nonce && snap.blocks@.len()
        == after.blocks@.len() {
        let snaps = block_models(snap.blocks@);
        assert forall|i: int| 0 <= i < after.blocks@.len() implies block_fits(
            #[trigger] after.blocks@[i],
            snaps[i],
        ) by {
            assert(alike(before.blocks@[i], after.blocks@[i]));
            assert(block_fits(before.blocks@[i], snaps[i]));
        }
    }
    if checkpoint_ok(before, checkpoint) && checkpoint_compatible(checkpoint, after) {
        assert forall|i: int| 0 <= i < after.blocks@.len() implies slot_fits(
            #[trigger] after.blocks@[i],
            checkpoint.blocks@[i],
        ) by {
            assert(alike(before.blocks@[i], after.blocks@[i]));
            assert(slot_fits(before.blocks@[i], checkpoint.blocks@[i]));
        }
    }
}

/// A snapshot of a model can be handed to it.
pub proof fn lemma_own_snapshot_ok(model: ModelWeights, snap: StateSnapshot, position: usize)
    requires
        model.wf(),
        snap.wf(),
        snapshot_of(snap, model, position),
    ensures
        snap_ok(model, snap),
{
    let snaps = block_models(snap.blocks@);
    assert forall|i: int| 0 <= i < model.blocks@.len() implies block_fits(
        #[trigger] model.blocks@[i],
        snaps[i],
    ) by {
        assert(layer_wf(model.blocks@[i]));
        assert(snaps[i] == captured(model.blocks@[i]));
    }
}

/// A checkpoint of a model can be handed to it.
pub proof fn lemma_own_checkpoint_ok(
    model: ModelWeights,
    checkpoint: BatchedStateCheckpoint,
    slot: usize,
)
    requires
        model.wf(),
        slot < DECODE_BATCH_CAPACITY,
        checkpoint_of(checkpoint, model, slot),
    ensures
        checkpoint_ok(model, checkpoint),
        checkpoint_compatible(checkpoint, model),
{
    assert forall|i: int| 0 <= i < model.blocks@.len() implies slot_fits(
        #[trigger] model.blocks@[i],
        checkpoint.blocks@[i],
    ) by {
        assert(layer_wf(model.blocks@[i]));
        assert(slot_captured(checkpoint.blocks@[i], model.blocks@[i], slot as int));
    }
}

/// Clearing the stream keeps the instance.
pub proof fn lemma_clear_keeps_instance(after: ModelWeights, before: ModelWeights)
    requires
        same_but_blocks(after, before),
        after.blocks@.len() == before.blocks@.len(),
        forall|i: int|
            0 <= i < before.blocks@.len() ==> stream_cleared(
                #[trigger] after.blocks@[i],
                before.blocks@[i],
            ),
    ensures
        same_instance(before, after),
{
    assert forall|i: int| 0 <= i < before.blocks@.len() implies alike(
        #[trigger] before.blocks@[i],
        after.blocks@[i],
    ) by {
        assert(stream_cleared(after.blocks@[i], before.blocks@[i]));
    }
}

/// Clearing the slots keeps the instance.
pub proof fn lemma_clear_slots_keeps_instance(after: ModelWeights, before: ModelWeights)
    requires
        same_but_blocks(after, before),
        after.blocks@.len() == before.blocks@.len(),
        forall|i: int|
            0 <= i < before.blocks@.len() ==> slots_cleared(
                #[trigger] after.blocks@[i],
                before.blocks@[i],
            ),
    ensures
        same_instance(before, after),
{
    assert forall|i: int| 0 <= i < before.blocks@.len() implies alike(
        #[trigger] before.blocks@[i],
        after.blocks@[i],
    ) by {
        assert(slots_cleared(after.blocks@[i], before.blocks@[i]));
    }
}

/// Restoring a snapshot keeps the instance.
pub proof fn lemma_restore_keeps_instance(
    done: Result<(), String>,
    after: ModelWeights,
    before: ModelWeights,
    snap: StateSnapshot,
)
    requires
        restore_outcome(done, after, before, snap),
    ensures
        same_instance(before, after),
{
    let snaps = block_models(snap.blocks@);
    if snap.model_nonce == before.instance_nonce && snaps.len() == before.blocks@.len() {
        let m = agreeing(before.blocks@, snaps, before.blocks@.len());
        assert forall|i: int| 0 <= i < before.blocks@.len() implies alike(
            #[trigger] before.blocks@[i],
            after.blocks@[i],
        ) by {
            if i < m {
                assert(block_restored(after.blocks@[i], before.blocks@[i], snaps[i]));
            } else {
                assert(after.blocks@[i] == before.blocks@[i]);
            }
        }
    }
}

/// Seeding a slot keeps the instance.
pub proof fn lemma_seed_keeps_instance(
    done: Result<(), String>,
    after: ModelWeights,
    before: ModelWeights,
    slot: usize,
    snap: StateSnapshot,
)
    requires
        seed_outcome(done, after, before, slot, snap),
    ensures
        same_instance(before, after),
{
    let snaps = block_models(snap.blocks@);
    if snap.model_nonce == before.instance_nonce && snaps.len() == before.blocks@.len() && slot
        < DECODE_BATCH_CAPACITY {
        let m = agreeing(before.blocks@, snaps, before.blocks@.len());
        assert forall|i: int| 0 <= i < before.blocks@.len() implies alike(
            #[trigger] before.blocks@[i],
            after.blocks@[i],
        ) by {
            if i < m {
                assert(slot_seeded(after.blocks@[i], before.blocks@[i], snaps[i], slot as int));
            } else {
                assert(after.blocks@[i] == before.blocks@[i]);
            }
        }
    }
}

/// Putting a checkpoint back keeps the instance.
pub proof fn lemma_put_back_keeps_instance(
    done: Result<(), String>,
    after: ModelWeights,
    before: ModelWeights,
    checkpoint: BatchedStateCheckpoint,
)
    requires
        slot_restore_outcome(done, after, before, checkpoint),
    ensures
        same_instance(before, after),
{
    let saved = checkpoint.blocks@;
    if checkpoint_compatible(checkpoint, before) {
        let m = slots_agreeing(before.blocks@, saved, before.blocks@.len());
        assert forall|i: int| 0 <= i < before.blocks@.len() implies alike(
            #[trigger] before.blocks@[i],
            after.blocks@[i],
        ) by {
            if i < m {
                assert(slot_put_back(
                    after.blocks@[i],
                    before.blocks@[i],
                    saved[i],
                    checkpoint.slot as int,
                ));
            } else {
                assert(after.blocks@[i] == before.blocks@[i]);
            }
        }
    }
}

/// A pass through a block, of a stream or of a decode batch, keeps the instance: no
/// pass makes earlier snapshots or checkpoints unusable.
pub proof fn law_passes_keep_instance(
    before: ModelWeights,
    after: ModelWeights,
    i: int,
    input: BlockInput,
    action: BlockAction,
    done: Result<BatchAction, String>,
    plan: DecodePlan,
    batch: BatchInput,
)
    requires
        0 <= i < before.blocks@.len(),
        same_but_blocks(after, before),
        after.blocks@.len() == before.blocks@.len(),
        forall|k: int|
            0 <= k < before.blocks@.len() && k != i ==> #[trigger] after.blocks@[k]
                == before.blocks@[k],
        block_forwarded(after.blocks@[i], before.blocks@[i], input, action) || batch_outcome(
            done,
            after.blocks@[i],
            before.blocks@[i],
            plan,
            batch,
        ),
    ensures
        same_instance(before, after),
{
    assert forall|k: int| 0 <= k < before.blocks@.len() implies alike(
        #[trigger] before.blocks@[k],
        after.blocks@[k],
    ) by {
        if k != i {
            assert(after.blocks@[k] == before.blocks@[k]);
        }
    }
}

/// Why a slot cannot be seeded from a snapshot.
pub open spec fn seed_failure(model: ModelWeights, slot: usize, snap: StateSnapshot) -> Option<
    Seq<char>,
> {
    let snaps = block_models(snap.blocks@);
    let own = model.blocks@;
    if snap.model_nonce != model.instance_nonce {
        Some(
            nonce_text(
                "seed_slot_batched: model nonce mismatch: snap="@,
                snap.model_nonce,
                model.instance_nonce,
            ),
        )
    } else if snaps.len() != own.len() {
        Some(
            length_text(
                "seed_slot_batched: blocks length mismatch: snap="@,
                snaps.len(),
                own.len(),
            ),
        )
    } else if slot >= DECODE_BATCH_CAPACITY {
        Some(slot_text("seed_slot_batched: slot "@, slot as nat))
    } else {
        let m = agreeing(own, snaps, own.len());
        if m < own.len() {
            Some(seed_mismatch_text(own[m as int], slot as nat))
        } else {
            None
        }
    }
}

proof fn lemma_agreeing_same(
    a: Seq<HybridLayerType>,
    b: Seq<HybridLayerType>,
    snaps: Seq<BlockModel>,
    n: nat,
)
    requires
        n <= a.len(),
        a.len() == b.len(),
        forall|i: int| 0 <= i < a.len() ==> alike(#[trigger] a[i], b[i]),
    ensures
        agreeing(a, snaps, n) == agreeing(b, snaps, n),
        agreeing(a, snaps, n) <= n,
    decreases n,
{
    if n > 0 {
        lemma_agreeing_same(a, b, snaps, (n - 1) as nat);
        assert(alike(a[n - 1], b[n - 1]));
    }
}

/// Whether a slot can be seeded depends on the instance alone.
pub proof fn lemma_seed_failure_same(
    a: ModelWeights,
    b: ModelWeights,
    slot: usize,
    snap: StateSnapshot,
)
    requires
        same_instance(a, b),
    ensures
        seed_failure(a, slot, snap) == seed_failure(b, slot, snap),
{
    let snaps = block_models(snap.blocks@);
    lemma_agreeing_same(a.blocks@, b.blocks@, snaps, a.blocks@.len());
    let m = agreeing(a.blocks@, snaps, a.blocks@.len());
    if m < a.blocks@.len() {
        assert(alike(a.blocks@[m as int], b.blocks@[m as int]));
    }
}

/// What seeding returns.
pub proof fn lemma_seed_result(
    done: Result<(), String>,
    after: ModelWeights,
    before: ModelWeights,
    slot: usize,
    snap: StateSnapshot,
)
    requires
        seed_outcome(done, after, before, slot, snap),
    ensures
        match done {
            Ok(()) => seed_failure(before, slot, snap) is None,
            Err(msg) => seed_failure(before, slot, snap) == Some(msg@),
        },
{
}

fn block_accepts(layer: &HybridLayerType, snap: &BlockStateSnap) -> (yes: bool)
    requires
        layer_wf(*layer),
    ensures
        yes == block_fits(*layer, snap@),
{
    match (layer, snap) {
        (HybridLayerType::DeltaNet(d), BlockStateSnap::DeltaNet(data)) => data.conv_buf.len()
            == d.state.conv_buf.len() && data.ssm_state.len() == d.state.ssm_state.len(),
        _ => true,
    }
}

fn block_complete(snap: &BlockStateSnap) -> (yes: bool)
    ensures
        yes == snap.wf(),
{
    match snap {
        BlockStateSnap::DeltaNet(_) => true,
        BlockStateSnap::Attention(None) => true,
        BlockStateSnap::Attention(Some(s)) => s.rows.len() == s.cache_len,
    }
}

impl ModelWeights {
    /// Whether a snapshot can be handed to the model.
    pub fn accepts_snapshot(&self, snap: &StateSnapshot) -> (yes: bool)
        requires
            self.wf(),
        ensures
            yes == snap_ok(*self, *snap),
    {
        let mut i: usize = 0;
        while i < snap.blocks.len()
            invariant
                i <= snap.blocks@.len(),
                forall|k: int| 0 <= k < i ==> (#[trigger] snap.blocks@[k]).wf(),
            decreases snap.blocks@.len() - i,
        {
            if !block_complete(&snap.blocks[i]) {
                assert(!snap.blocks@[i as int].wf());
                return false;
            }
            i += 1;
        }
        if snap.model_nonce != self.instance_nonce || snap.blocks.len() != self.blocks.len() {
            return true;
        }
        let ghost snaps = block_models(snap.blocks@);
        let mut j: usize = 0;
        while j < self.blocks.len()
            invariant
                j <= self.blocks@.len(),
                self.wf(),
                snap.blocks@.len() == self.blocks@.len(),
                snap.model_nonce == self.instance_nonce,
                snaps == block_models(snap.blocks@),
                forall|k: int|
                    0 <= k < j ==> block_fits(#[trigger] self.blocks@[k], snaps[k]),
            decreases self.blocks@.len() - j,
        {
            assert(layer_wf(self.blocks@[j as int]));
            if !block_accepts(&self.blocks[j], &snap.blocks[j]) {
                assert(!block_fits(self.blocks@[j as int], snaps[j as int]));
                return false;
            }
            j += 1;
        }
        true
    }
}

} // verus!
