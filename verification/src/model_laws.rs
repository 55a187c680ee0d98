//! What snapshots, checkpoints and seeding promise of the whole model.
use crate::kv_cache::DECODE_BATCH_CAPACITY;
use crate::model_ops::{lemma_all_agree, restore_outcome, snapshot_of, stream_cleared};
use crate::model_slots::{
    checkpoint_of, lemma_all_slots_agree, seed_outcome, slot_captured, slot_fits, slot_put_back,
    slot_restore_outcome, slot_types_agree, slots_agreeing, slots_cleared,
};
use crate::model_state::{
    agreeing, block_fits, block_models, block_restored, blocks_fit, captured, captured_blocks,
    layer_wf, slot_seeded, types_agree, BatchedStateCheckpoint, BlockModel, HybridLayerType,
    ModelWeights, StateSnapshot,
};
use vstd::prelude::*;

verus! {

/// Whether two layers are of one type and shape.
pub open spec fn alike(a: HybridLayerType, b: HybridLayerType) -> bool {
    match (a, b) {
        (HybridLayerType::DeltaNet(x), HybridLayerType::DeltaNet(y)) => x.state.shape()
            == y.state.shape(),
        (HybridLayerType::Attention(x), HybridLayerType::Attention(y)) => x.format() == y.format()
            && x.row_bytes == y.row_bytes,
        _ => false,
    }
}

/// Whether two models are states of one instance.
pub open spec fn same_instance(a: ModelWeights, b: ModelWeights) -> bool {
    &&& a.instance_nonce == b.instance_nonce
    &&& a.blocks@.len() == b.blocks@.len()
    &&& forall|i: int| 0 <= i < a.blocks@.len() ==> alike(#[trigger] a.blocks@[i], b.blocks@[i])
}

/// Whether two layers hold the same single-stream state.
pub open spec fn same_stream(a: HybridLayerType, b: HybridLayerType) -> bool {
    match (a, b) {
        (HybridLayerType::DeltaNet(x), HybridLayerType::DeltaNet(y)) => x.state@ == y.state@,
        (HybridLayerType::Attention(x), HybridLayerType::Attention(y)) => x.stream().rows
            == y.stream().rows,
        _ => false,
    }
}

/// Whether two layers hold the same state in slot `s`.
pub open spec fn same_slot(a: HybridLayerType, b: HybridLayerType, s: int) -> bool {
    match (a, b) {
        (HybridLayerType::DeltaNet(x), HybridLayerType::DeltaNet(y)) => x.cpu_state_batched@[s]@
            == y.cpu_state_batched@[s]@,
        (HybridLayerType::Attention(x), HybridLayerType::Attention(y)) => x.slot(s) == y.slot(s),
        _ => false,
    }
}

/// Whether slot `s` of `a` holds what the single stream of `b` holds.
pub open spec fn slot_holds_stream(a: HybridLayerType, b: HybridLayerType, s: int) -> bool {
    match (a, b) {
        (HybridLayerType::DeltaNet(x), HybridLayerType::DeltaNet(y)) => x.cpu_state_batched@[s]@
            == y.state@,
        (HybridLayerType::Attention(x), HybridLayerType::Attention(y)) => x.slot(s).rows
            == y.stream().rows,
        _ => false,
    }
}

proof fn lemma_snapshot_agrees(model: ModelWeights, later: ModelWeights, snap: StateSnapshot, position: usize)
    requires
        model.wf(),
        later.wf(),
        same_instance(model, later),
        snapshot_of(snap, model, position),
    ensures
        snap.blocks@.len() == later.blocks@.len(),
        blocks_fit(later.blocks@, block_models(snap.blocks@)),
        agreeing(later.blocks@, block_models(snap.blocks@), later.blocks@.len())
            == later.blocks@.len(),
{
    let snaps = block_models(snap.blocks@);
    assert(snaps.len() == model.blocks@.len());
    assert forall|i: int| 0 <= i < later.blocks@.len() implies block_fits(
        #[trigger] later.blocks@[i],
        snaps[i],
    ) by {
        assert(layer_wf(model.blocks@[i]));
        assert(alike(model.blocks@[i], later.blocks@[i]));
        assert(snaps[i] == captured(model.blocks@[i]));
    }
    assert forall|i: int| 0 <= i < later.blocks@.len() implies types_agree(
        #[trigger] later.blocks@[i],
        snaps[i],
    ) by {
        assert(alike(model.blocks@[i], later.blocks@[i]));
        assert(snaps[i] == captured(model.blocks@[i]));
    }
    lemma_all_agree(later.blocks@, snaps, later.blocks@.len());
}

/// A snapshot brings back what the model held when it was taken: restoring it
/// into any later state of the same instance succeeds, gives every layer its
/// single-stream state of that time, and leaves the slots alone.
pub proof fn law_restore_brings_state_back(
    model: ModelWeights,
    snap: StateSnapshot,
    position: usize,
    later: ModelWeights,
    after: ModelWeights,
    done: Result<(), String>,
)
    requires
        model.wf(),
        later.wf(),
        same_instance(model, later),
        snapshot_of(snap, model, position),
        restore_outcome(done, after, later, snap),
    ensures
        blocks_fit(later.blocks@, block_models(snap.blocks@)),
        done is Ok,
        after.blocks@.len() == model.blocks@.len(),
        forall|i: int|
            0 <= i < model.blocks@.len() ==> same_stream(
                #[trigger] after.blocks@[i],
                model.blocks@[i],
            ),
        forall|i: int, s: int|
            0 <= i < model.blocks@.len() && 0 <= s < DECODE_BATCH_CAPACITY
                ==> #[trigger] same_slot(after.blocks@[i], later.blocks@[i], s),
{
    lemma_snapshot_agrees(model, later, snap, position);
    let snaps = block_models(snap.blocks@);
    assert forall|i: int| 0 <= i < model.blocks@.len() implies same_stream(
        #[trigger] after.blocks@[i],
        model.blocks@[i],
    ) by {
        assert(block_restored(after.blocks@[i], later.blocks@[i], snaps[i]));
        assert(snaps[i] == captured(model.blocks@[i]));
        assert(layer_wf(model.blocks@[i]));
        match model.blocks@[i] {
            HybridLayerType::Attention(a) => {
                if a.stream().rows.len() == 0 {
                    assert(a.stream().rows =~= Seq::empty());
                }
            },
            HybridLayerType::DeltaNet(d) => {},
        }
    }
    assert forall|i: int, s: int|
        0 <= i < model.blocks@.len() && 0 <= s < DECODE_BATCH_CAPACITY implies #[trigger] same_slot(
        after.blocks@[i],
        later.blocks@[i],
        s,
    ) by {
        assert(block_restored(after.blocks@[i], later.blocks@[i], snaps[i]));
    }
}

/// Whether the captured caches are such as layers give: none is empty, and their rows have
/// the layer's size.
pub open spec fn caches_own(layers: Seq<HybridLayerType>, snaps: Seq<BlockModel>) -> bool {
    forall|i: int|
        0 <= i < layers.len() ==> match (#[trigger] layers[i], snaps[i]) {
            (HybridLayerType::Attention(a), BlockModel::Attention(Some(kv))) => kv.rows.len() > 0
                && kv.row_bytes == a.row_bytes,
            _ => true,
        }
}

/// Capturing the state again after a snapshot was restored gives the snapshot back, block
/// by block.
pub proof fn law_recapture_gives_snapshot(
    before: ModelWeights,
    snap: StateSnapshot,
    after: ModelWeights,
    again: StateSnapshot,
)
    requires
        before.wf(),
        caches_own(before.blocks@, block_models(snap.blocks@)),
        restore_outcome(Ok(()), after, before, snap),
        snapshot_of(again, after, snap.position),
    ensures
        block_models(again.blocks@) == block_models(snap.blocks@),
        again.model_nonce == snap.model_nonce,
        again.position == snap.position,
{
    let snaps = block_models(snap.blocks@);
    assert forall|i: int| 0 <= i < before.blocks@.len() implies captured(
        #[trigger] after.blocks@[i],
    ) == snaps[i] by {
        assert(block_restored(after.blocks@[i], before.blocks@[i], snaps[i]));
        assert(layer_wf(before.blocks@[i]));
    }
    assert(captured_blocks(after.blocks@) =~= snaps);
}

/// The caches that an instance captures are such as its layers give.
pub proof fn law_own_caches_are_recaptured(
    model: ModelWeights,
    snap: StateSnapshot,
    position: usize,
    later: ModelWeights,
)
    requires
        same_instance(model, later),
        snapshot_of(snap, model, position),
    ensures
        caches_own(later.blocks@, block_models(snap.blocks@)),
{
    let snaps = block_models(snap.blocks@);
    assert forall|i: int| 0 <= i < later.blocks@.len() implies match (
        #[trigger] later.blocks@[i],
        snaps[i],
    ) {
        (HybridLayerType::Attention(a), BlockModel::Attention(Some(kv))) => kv.rows.len() > 0
            && kv.row_bytes == a.row_bytes,
        _ => true,
    } by {
        assert(alike(model.blocks@[i], later.blocks@[i]));
        assert(snaps[i] == captured(model.blocks@[i]));
    }
}

/// A snapshot of another instance is refused and changes nothing.
pub proof fn law_foreign_snapshot_is_refused(
    snap: StateSnapshot,
    before: ModelWeights,
    after: ModelWeights,
    slot: usize,
    done: Result<(), String>,
)
    requires
        snap.model_nonce != before.instance_nonce,
        restore_outcome(done, after, before, snap) || seed_outcome(done, after, before, slot, snap),
    ensures
        done is Err,
        after == before,
{
}

/// A seeded slot continues where the single stream stood: after seeding from a
/// snapshot of the same instance, the slot holds the snapshot's state, and
/// neither the other slots nor the single stream have changed.
pub proof fn law_seeded_slot_continues_stream(
    model: ModelWeights,
    snap: StateSnapshot,
    position: usize,
    later: ModelWeights,
    after: ModelWeights,
    slot: usize,
    done: Result<(), String>,
)
    requires
        model.wf(),
        later.wf(),
        same_instance(model, later),
        snapshot_of(snap, model, position),
        slot < DECODE_BATCH_CAPACITY,
        seed_outcome(done, after, later, slot, snap),
    ensures
        done is Ok,
        after.blocks@.len() == model.blocks@.len(),
        forall|i: int|
            0 <= i < model.blocks@.len() ==> slot_holds_stream(
                #[trigger] after.blocks@[i],
                model.blocks@[i],
                slot as int,
            ) && same_stream(after.blocks@[i], later.blocks@[i]),
        forall|i: int, s: int|
            0 <= i < model.blocks@.len() && 0 <= s < DECODE_BATCH_CAPACITY && s != slot
                ==> #[trigger] same_slot(after.blocks@[i], later.blocks@[i], s),
{
    lemma_snapshot_agrees(model, later, snap, position);
    let snaps = block_models(snap.blocks@);
    assert forall|i: int| 0 <= i < model.blocks@.len() implies slot_holds_stream(
        #[trigger] after.blocks@[i],
        model.blocks@[i],
        slot as int,
    ) && same_stream(after.blocks@[i], later.blocks@[i]) by {
        assert(slot_seeded(after.blocks@[i], later.blocks@[i], snaps[i], slot as int));
        assert(snaps[i] == captured(model.blocks@[i]));
        assert(layer_wf(model.blocks@[i]));
        match model.blocks@[i] {
            HybridLayerType::Attention(a) => {
                if a.stream().rows.len() == 0 {
                    assert(a.stream().rows =~= Seq::empty());
                }
            },
            HybridLayerType::DeltaNet(d) => {},
        }
    }
    assert forall|i: int, s: int|
        0 <= i < model.blocks@.len() && 0 <= s < DECODE_BATCH_CAPACITY && s
            != slot implies #[trigger] same_slot(after.blocks@[i], later.blocks@[i], s) by {
        assert(slot_seeded(after.blocks@[i], later.blocks@[i], snaps[i], slot as int));
        match (after.blocks@[i], later.blocks@[i]) {
            (HybridLayerType::Attention(x), HybridLayerType::Attention(y)) => {
                assert(x.kv_cache_len_batched@[s] == y.kv_cache_len_batched@[s]);
            },
            _ => {},
        }
    }
}

/// A checkpoint brings a slot back: restoring it into any later state of the same
/// instance succeeds, gives the slot its state of that time in every layer, and
/// leaves the other slots and the single stream alone.
pub proof fn law_checkpoint_brings_slot_back(
    model: ModelWeights,
    checkpoint: BatchedStateCheckpoint,
    slot: usize,
    later: ModelWeights,
    after: ModelWeights,
    done: Result<(), String>,
)
    requires
        model.wf(),
        later.wf(),
        same_instance(model, later),
        slot < DECODE_BATCH_CAPACITY,
        checkpoint_of(checkpoint, model, slot),
        slot_restore_outcome(done, after, later, checkpoint),
    ensures
        forall|i: int|
            0 <= i < later.blocks@.len() ==> slot_fits(
                #[trigger] later.blocks@[i],
                checkpoint.blocks@[i],
            ),
        done is Ok,
        after.blocks@.len() == model.blocks@.len(),
        forall|i: int|
            0 <= i < model.blocks@.len() ==> same_slot(
                #[trigger] after.blocks@[i],
                model.blocks@[i],
                slot as int,
            ) && same_stream(after.blocks@[i], later.blocks@[i]),
        forall|i: int, s: int|
            0 <= i < model.blocks@.len() && 0 <= s < DECODE_BATCH_CAPACITY && s != slot
                ==> #[trigger] same_slot(after.blocks@[i], later.blocks@[i], s),
{
    let saved = checkpoint.blocks@;
    assert forall|i: int| 0 <= i < later.blocks@.len() implies slot_fits(
        #[trigger] later.blocks@[i],
        saved[i],
    ) && slot_types_agree(later.blocks@[i], saved[i]) by {
        assert(layer_wf(model.blocks@[i]));
        assert(alike(model.blocks@[i], later.blocks@[i]));
        assert(slot_captured(saved[i], model.blocks@[i], slot as int));
    }
    lemma_all_slots_agree(later.blocks@, saved, later.blocks@.len());
    assert forall|i: int| 0 <= i < model.blocks@.len() implies same_slot(
        #[trigger] after.blocks@[i],
        model.blocks@[i],
        slot as int,
    ) && same_stream(after.blocks@[i], later.blocks@[i]) by {
        assert(slot_put_back(after.blocks@[i], later.blocks@[i], saved[i], slot as int));
        assert(slot_captured(saved[i], model.blocks@[i], slot as int));
    }
    assert forall|i: int, s: int|
        0 <= i < model.blocks@.len() && 0 <= s < DECODE_BATCH_CAPACITY && s
            != slot implies #[trigger] same_slot(after.blocks@[i], later.blocks@[i], s) by {
        assert(slot_put_back(after.blocks@[i], later.blocks@[i], saved[i], slot as int));
        match (after.blocks@[i], later.blocks@[i]) {
            (HybridLayerType::Attention(x), HybridLayerType::Attention(y)) => {
                assert(x.kv_cache_len_batched@[s] == y.kv_cache_len_batched@[s]);
            },
            _ => {},
        }
    }
}

/// Seeding a slot keeps the model and its blocks' number, and where it stops at a block
/// that does not suit the snapshot it leaves that block and all later ones as they are.
pub proof fn law_seeding_keeps_the_model(
    done: Result<(), String>,
    after: ModelWeights,
    before: ModelWeights,
    slot: usize,
    snap: StateSnapshot,
    i: int,
)
    requires
        seed_outcome(done, after, before, slot, snap),
    ensures
        after.instance_nonce == before.instance_nonce,
        after.context_length == before.context_length,
        after.hidden_size == before.hidden_size,
        after.blocks@.len() == before.blocks@.len(),
        slot >= 4 ==> done is Err && after == before,
        snap.blocks@.len() != before.blocks@.len() ==> done is Err && after == before,
        done is Err && snap.blocks@.len() == before.blocks@.len() && agreeing(
            before.blocks@,
            block_models(snap.blocks@),
            before.blocks@.len(),
        ) <= i < before.blocks@.len() ==> after.blocks@[i] == before.blocks@[i],
{
}

/// Putting a slot back keeps the model, is refused for a checkpoint of another model or of
/// a slot that there is not, and where it stops at a block that does not suit the checkpoint
/// it leaves that block and all later ones as they are.
pub proof fn law_putting_back_keeps_the_model(
    done: Result<(), String>,
    after: ModelWeights,
    before: ModelWeights,
    checkpoint: BatchedStateCheckpoint,
    i: int,
)
    requires
        slot_restore_outcome(done, after, before, checkpoint),
    ensures
        after.instance_nonce == before.instance_nonce,
        after.context_length == before.context_length,
        after.hidden_size == before.hidden_size,
        after.blocks@.len() == before.blocks@.len(),
        checkpoint.slot >= 4 || checkpoint.model_nonce != before.instance_nonce
            || checkpoint.blocks@.len() != before.blocks@.len() ==> done is Err && after == before,
        done is Err && slots_agreeing(
            before.blocks@,
            checkpoint.blocks@,
            before.blocks@.len(),
        ) <= i < before.blocks@.len() ==> after.blocks@[i] == before.blocks@[i],
{
}

/// Clearing the slots keeps the stream, and clearing the stream keeps the slots. Cleared
/// slots hold nothing and have no room.
pub proof fn law_stream_and_slots_are_cleared_apart(
    after: HybridLayerType,
    before: HybridLayerType,
    s: int,
)
    requires
        0 <= s < DECODE_BATCH_CAPACITY,
    ensures
        slots_cleared(after, before) ==> same_stream(after, before),
        stream_cleared(after, before) ==> same_slot(after, before, s),
        slots_cleared(after, before) && after is Attention ==> after->Attention_0.slot(
            s,
        ).rows.len() == 0 && after->Attention_0.kv_cache_cap_batched == 0,
        stream_cleared(after, before) && after is Attention
            ==> after->Attention_0.stream().rows.len() == 0,
{
}

} // verus!
