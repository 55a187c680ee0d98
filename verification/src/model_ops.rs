//! Operations on the state of the whole model.
use crate::delta_state::fresh_data;
use crate::kv_cache::{
    capped, empty_stream, reserved, truncated, windowed, GatedAttentionLayer, StreamModel,
};
use crate::model_state::{
    agreeing, block_fits, block_models, block_restored, blocks_fit, captured, captured_blocks,
    layer_wf, length_message, length_text, nonce_message, nonce_text, restore_mismatch_text,
    same_but_state, types_agree, BlockModel, BlockStateSnap, HybridLayerType, ModelWeights,
    StateSnapshot,
};
use vstd::prelude::*;

verus! {

/// A disagreement ends the count.
pub proof fn lemma_agreeing_stops(layers: Seq<HybridLayerType>, snaps: Seq<BlockModel>, k: nat, n: nat)
    requires
        agreeing(layers, snaps, k) == k,
        k < n,
        !types_agree(layers[k as int], snaps[k as int]),
    ensures
        agreeing(layers, snaps, n) == k,
    decreases n,
{
    if k + 1 < n {
        lemma_agreeing_stops(layers, snaps, k, (n - 1) as nat);
    }
}

/// Layers that all agree are all counted.
pub proof fn lemma_all_agree(layers: Seq<HybridLayerType>, snaps: Seq<BlockModel>, n: nat)
    requires
        forall|i: int| 0 <= i < n ==> types_agree(#[trigger] layers[i], snaps[i]),
    ensures
        agreeing(layers, snaps, n) == n,
    decreases n,
{
    if n > 0 {
        lemma_all_agree(layers, snaps, (n - 1) as nat);
        assert(types_agree(layers[n - 1], snaps[n - 1]));
    }
}

/// Whether the first `m` blocks are as a restore leaves them and the others as
/// they were.
pub open spec fn restored_up_to(
    after: Seq<HybridLayerType>,
    before: Seq<HybridLayerType>,
    snaps: Seq<BlockModel>,
    m: int,
) -> bool {
    &&& after.len() == before.len()
    &&& forall|i: int| 0 <= i < m ==> block_restored(#[trigger] after[i], before[i], snaps[i])
    &&& forall|i: int| m <= i < before.len() ==> #[trigger] after[i] == before[i]
}

/// Whether two models differ in their blocks only.
pub open spec fn same_but_blocks(a: ModelWeights, b: ModelWeights) -> bool {
    &&& a.context_length == b.context_length
    &&& a.hidden_size == b.hidden_size
    &&& a.instance_nonce == b.instance_nonce
}

/// The layer after a new conversation begins: the single stream is empty, the
/// slots are as they were.
pub open spec fn stream_cleared(after: HybridLayerType, before: HybridLayerType) -> bool {
    match before {
        HybridLayerType::DeltaNet(b) => {
            &&& after matches HybridLayerType::DeltaNet(a)
            &&& a.state@ == fresh_data(b.state.shape())
            &&& same_but_state(a, b)
        },
        HybridLayerType::Attention(b) => {
            &&& after matches HybridLayerType::Attention(a)
            &&& a.stream() == empty_stream()
            &&& a.same_but_stream(&b)
        },
    }
}

/// Whether `after` is `before` but for a single-stream cache that became `stream`.
pub open spec fn stream_became(
    after: HybridLayerType,
    before: HybridLayerType,
    stream: StreamModel,
) -> bool {
    &&& before is Attention
    &&& after matches HybridLayerType::Attention(a)
    &&& a.stream() == stream
    &&& a.same_but_stream(&before->Attention_0)
}

/// Whether the single-stream caches of the first `n` blocks became what `f` says
/// and everything else is as it was.
pub open spec fn streams_mapped(
    after: Seq<HybridLayerType>,
    before: Seq<HybridLayerType>,
    f: spec_fn(GatedAttentionLayer) -> StreamModel,
    n: int,
) -> bool {
    &&& after.len() == before.len()
    &&& forall|i: int|
        0 <= i < n ==> match before[i] {
            HybridLayerType::DeltaNet(_) => (#[trigger] after[i]) == before[i],
            HybridLayerType::Attention(b) => stream_became(after[i], before[i], f(b)),
        }
    &&& forall|i: int| n <= i < before.len() ==> #[trigger] after[i] == before[i]
}

/// The length of the first attention layer's single-stream cache, looking from
/// block `from` on.
pub open spec fn first_cache_len(blocks: Seq<HybridLayerType>, from: int) -> nat
    decreases blocks.len() - from,
{
    if from < 0 || from >= blocks.len() {
        0
    } else {
        match blocks[from] {
            HybridLayerType::Attention(a) => a.stream().rows.len(),
            HybridLayerType::DeltaNet(_) => first_cache_len(blocks, from + 1),
        }
    }
}

/// How many of the first `n` blocks are DeltaNet layers.
pub open spec fn delta_count(blocks: Seq<HybridLayerType>, n: nat) -> nat
    decreases n,
{
    if n == 0 {
        0
    } else {
        delta_count(blocks, (n - 1) as nat) + (if blocks[n - 1] is DeltaNet {
            1nat
        } else {
            0
        })
    }
}

/// How many of the first `n` blocks are DeltaNet layers on a Metal device.
pub open spec fn metal_count(blocks: Seq<HybridLayerType>, n: nat) -> nat
    decreases n,
{
    if n == 0 {
        0
    } else {
        metal_count(blocks, (n - 1) as nat) + (if blocks[n - 1] matches HybridLayerType::DeltaNet(d)
            && d.on_metal {
            1nat
        } else {
            0
        })
    }
}

impl ModelWeights {
    /// Every layer's state is in order.
    pub open spec fn wf(&self) -> bool {
        forall|i: int| 0 <= i < self.blocks@.len() ==> layer_wf(#[trigger] self.blocks@[i])
    }

    /// Begins a new conversation: clears the single-stream state of every layer.
    /// The slots keep theirs, since others may be decoding.
    pub fn clear_state(&mut self)
        requires
            old(self).wf(),
        ensures
            final(self).wf(),
            same_but_blocks(*final(self), *old(self)),
            final(self).blocks@.len() == old(self).blocks@.len(),
            forall|i: int|
                0 <= i < old(self).blocks@.len() ==> stream_cleared(
                    #[trigger] final(self).blocks@[i],
                    old(self).blocks@[i],
                ),
    {
        let mut i: usize = 0;
        while i < self.blocks.len()
            invariant
                i <= self.blocks@.len(),
                self.wf(),
                same_but_blocks(*self, *old(self)),
                self.blocks@.len() == old(self).blocks@.len(),
                forall|k: int|
                    0 <= k < i ==> stream_cleared(#[trigger] self.blocks@[k], old(self).blocks@[k]),
                forall|k: int|
                    i <= k < self.blocks@.len() ==> #[trigger] self.blocks@[k] == old(
                        self,
                    ).blocks@[k],
            decreases self.blocks@.len() - i,
        {
            match &mut self.blocks[i] {
                HybridLayerType::DeltaNet(d) => d.state.clear(),
                HybridLayerType::Attention(a) => a.clear_stream(),
            }
            i += 1;
        }
    }

    /// Rows in the single-stream cache, by the first attention layer.
    pub fn kv_cache_len(&self) -> (len: usize)
        requires
            self.wf(),
        ensures
            len == first_cache_len(self.blocks@, 0),
    {
        let mut i: usize = 0;
        while i < self.blocks.len()
            invariant
                i <= self.blocks@.len(),
                self.wf(),
                first_cache_len(self.blocks@, 0) == first_cache_len(self.blocks@, i as int),
            decreases self.blocks@.len() - i,
        {
            if let HybridLayerType::Attention(a) = &self.blocks[i] {
                assert(layer_wf(self.blocks@[i as int]));
                return a.kv_cache_len;
            }
            i += 1;
        }
        0
    }

    /// How many DeltaNet layers run on a Metal device, and how many there are.
    pub fn metal_path_status(&self) -> (counts: (usize, usize))
        ensures
            counts.0 == metal_count(self.blocks@, self.blocks@.len()),
            counts.1 == delta_count(self.blocks@, self.blocks@.len()),
    {
        let mut n_metal: usize = 0;
        let mut n_deltanet: usize = 0;
        let mut i: usize = 0;
        while i < self.blocks.len()
            invariant
                i <= self.blocks@.len(),
                n_metal <= i,
                n_deltanet <= i,
                n_metal == metal_count(self.blocks@, i as nat),
                n_deltanet == delta_count(self.blocks@, i as nat),
            decreases self.blocks@.len() - i,
        {
            if let HybridLayerType::DeltaNet(d) = &self.blocks[i] {
                n_deltanet += 1;
                if d.on_metal {
                    n_metal += 1;
                }
            }
            i += 1;
        }
        (n_metal, n_deltanet)
    }

    /// Rolls the single-stream caches back to `new_len` rows. DeltaNet state cannot
    /// be rolled back and stays.
    pub fn truncate_kv_cache(&mut self, new_len: usize)
        requires
            old(self).wf(),
        ensures
            final(self).wf(),
            same_but_blocks(*final(self), *old(self)),
            streams_mapped(
                final(self).blocks@,
                old(self).blocks@,
                |a: GatedAttentionLayer| truncated(a.stream(), new_len as nat),
                old(self).blocks@.len() as int,
            ),
    {
        let ghost f = |a: GatedAttentionLayer| truncated(a.stream(), new_len as nat);
        let mut i: usize = 0;
        while i < self.blocks.len()
            invariant
                i <= self.blocks@.len(),
                self.wf(),
                same_but_blocks(*self, *old(self)),
                f == (|a: GatedAttentionLayer| truncated(a.stream(), new_len as nat)),
                streams_mapped(self.blocks@, old(self).blocks@, f, i as int),
            decreases self.blocks@.len() - i,
        {
            if let HybridLayerType::Attention(a) = &mut self.blocks[i] {
                a.truncate(new_len);
            }
            i += 1;
        }
    }

    /// Cuts the single-stream caches to their windows, as after a long prefill.
    pub fn truncate_kv_cache_to_window(&mut self)
        requires
            old(self).wf(),
        ensures
            final(self).wf(),
            same_but_blocks(*final(self), *old(self)),
            streams_mapped(
                final(self).blocks@,
                old(self).blocks@,
                |a: GatedAttentionLayer| windowed(a.stream(), a.attn_window as nat),
                old(self).blocks@.len() as int,
            ),
    {
        let ghost f = |a: GatedAttentionLayer| windowed(a.stream(), a.attn_window as nat);
        let mut i: usize = 0;
        while i < self.blocks.len()
            invariant
                i <= self.blocks@.len(),
                self.wf(),
                same_but_blocks(*self, *old(self)),
                f == (|a: GatedAttentionLayer| windowed(a.stream(), a.attn_window as nat)),
                streams_mapped(self.blocks@, old(self).blocks@, f, i as int),
            decreases self.blocks@.len() - i,
        {
            if let HybridLayerType::Attention(a) = &mut self.blocks[i] {
                a.truncate_to_window();
            }
            i += 1;
        }
    }

    /// Makes empty single-stream buffers for `total_len` rows, as far as the limits
    /// allow.
    pub fn pre_allocate_kv_cache(&mut self, total_len: usize)
        requires
            old(self).wf(),
        ensures
            final(self).wf(),
            same_but_blocks(*final(self), *old(self)),
            streams_mapped(
                final(self).blocks@,
                old(self).blocks@,
                |a: GatedAttentionLayer| allocated(a, total_len as nat),
                old(self).blocks@.len() as int,
            ),
    {
        let ghost f = |a: GatedAttentionLayer| allocated(a, total_len as nat);
        let mut i: usize = 0;
        while i < self.blocks.len()
            invariant
                i <= self.blocks@.len(),
                self.wf(),
                same_but_blocks(*self, *old(self)),
                f == (|a: GatedAttentionLayer| allocated(a, total_len as nat)),
                streams_mapped(self.blocks@, old(self).blocks@, f, i as int),
            decreases self.blocks@.len() - i,
        {
            if let HybridLayerType::Attention(a) = &mut self.blocks[i] {
                a.pre_allocate(total_len);
            }
            i += 1;
        }
    }

    /// Makes room for `total_len` rows in the single-stream caches and keeps what they
    /// hold.
    pub fn reserve_kv_cache(&mut self, total_len: usize)
        requires
            old(self).wf(),
        ensures
            final(self).wf(),
            same_but_blocks(*final(self), *old(self)),
            streams_mapped(
                final(self).blocks@,
                old(self).blocks@,
                |a: GatedAttentionLayer|
                    reserved(
                        a.stream(),
                        total_len as nat,
                        a.attn_window as nat,
                        a.max_cache_len as nat,
                    ),
                old(self).blocks@.len() as int,
            ),
    {
        let ghost f = |a: GatedAttentionLayer|
                    reserved(
                        a.stream(),
                        total_len as nat,
                        a.attn_window as nat,
                        a.max_cache_len as nat,
                    );
        let mut i: usize = 0;
        while i < self.blocks.len()
            invariant
                i <= self.blocks@.len(),
                self.wf(),
                same_but_blocks(*self, *old(self)),
                f == (|a: GatedAttentionLayer|
                    reserved(
                        a.stream(),
                        total_len as nat,
                        a.attn_window as nat,
                        a.max_cache_len as nat,
                    )),
                streams_mapped(self.blocks@, old(self).blocks@, f, i as int),
            decreases self.blocks@.len() - i,
        {
            if let HybridLayerType::Attention(a) = &mut self.blocks[i] {
                a.reserve(total_len);
            }
            i += 1;
        }
    }

    /// Identity of this instance.
    pub fn instance_nonce(&self) -> (nonce: u64)
        ensures
            nonce == self.instance_nonce,
    {
        self.instance_nonce
    }

    /// Width of the hidden states.
    pub fn hidden_size(&self) -> (n: usize)
        ensures
            n == self.hidden_size,
    {
        self.hidden_size
    }

    /// The longest context.
    pub fn max_context_length(&self) -> (n: usize)
        ensures
            n == self.context_length,
    {
        self.context_length
    }

    /// Captures the single-stream state of every layer, after `position` tokens.
    pub fn snapshot_state(&self, position: usize) -> (snap: StateSnapshot)
        requires
            self.wf(),
        ensures
            snap.wf(),
            snapshot_of(snap, *self, position),
    {
        let mut blocks: Vec<BlockStateSnap> = Vec::new();
        let mut i: usize = 0;
        while i < self.blocks.len()
            invariant
                i <= self.blocks@.len(),
                self.wf(),
                blocks@.len() == i,
                forall|k: int|
                    0 <= k < i ==> (#[trigger] blocks@[k])@ == captured(self.blocks@[k])
                        && blocks@[k].wf(),
            decreases self.blocks@.len() - i,
        {
            blocks.push(self.blocks[i].snapshot_block());
            i += 1;
        }
        assert(block_models(blocks@) =~= captured_blocks(self.blocks@));
        StateSnapshot { model_nonce: self.instance_nonce, position, blocks }
    }

    /// Puts captured state back. A snapshot of another instance or of another number
    /// of blocks is refused; a block of the wrong type ends the restore there.
    pub fn restore_state(&mut self, snap: &StateSnapshot) -> (done: Result<(), String>)
        requires
            old(self).wf(),
            snap.wf(),
            snap.model_nonce == old(self).instance_nonce && snap.blocks@.len() == old(
                self,
            ).blocks@.len() ==> blocks_fit(old(self).blocks@, block_models(snap.blocks@)),
        ensures
            final(self).wf(),
            restore_outcome(done, *final(self), *old(self), *snap),
    {
        if snap.model_nonce != self.instance_nonce {
            return Err(
                nonce_message(
                    "restore_state: model nonce mismatch (snapshot from different model instance): snap=",
                    snap.model_nonce,
                    self.instance_nonce,
                ),
            );
        }
        if snap.blocks.len() != self.blocks.len() {
            return Err(
                length_message(
                    "restore_state: blocks length mismatch: snap=",
                    snap.blocks.len(),
                    self.blocks.len(),
                ),
            );
        }
        let ghost snaps = block_models(snap.blocks@);
        let ghost before = self.blocks@;
        let mut i: usize = 0;
        while i < self.blocks.len()
            invariant
                i <= self.blocks@.len(),
                self.wf(),
                snap.wf(),
                before == old(self).blocks@,
                snaps == block_models(snap.blocks@),
                snap.model_nonce == old(self).instance_nonce,
                snap.blocks@.len() == before.len(),
                self.blocks@.len() == before.len(),
                blocks_fit(before, snaps),
                same_but_blocks(*self, *old(self)),
                restored_up_to(self.blocks@, before, snaps, i as int),
                agreeing(before, snaps, i as nat) == i,
            decreases self.blocks@.len() - i,
        {
            proof {
                assert(self.blocks@[i as int] == before[i as int]);
                assert(block_fits(before[i as int], snaps[i as int]));
                assert(snaps[i as int] == snap.blocks@[i as int]@);
            }
            match self.blocks[i].restore_block(&snap.blocks[i]) {
                Ok(()) => {},
                Err(msg) => {
                    proof {
                        lemma_agreeing_stops(before, snaps, i as nat, before.len());
                        assert(self.blocks@ =~= self.blocks@.update(
                            i as int,
                            before[i as int],
                        ));
                    }
                    return Err(msg);
                },
            }
            i += 1;
        }
        Ok(())
    }
}

/// The room of a freshly made single-stream buffer.
pub open spec fn allocated(a: GatedAttentionLayer, total: nat) -> StreamModel {
    StreamModel {
        rows: Seq::empty(),
        capacity: Some(capped(total, a.attn_window as nat, a.max_cache_len as nat)),
    }
}

/// Whether `snap` is a snapshot of `model` after `position` tokens.
pub open spec fn snapshot_of(snap: StateSnapshot, model: ModelWeights, position: usize) -> bool {
    &&& snap.model_nonce == model.instance_nonce
    &&& snap.position == position
    &&& block_models(snap.blocks@) == captured_blocks(model.blocks@)
}

/// What restoring a snapshot does and returns.
pub open spec fn restore_outcome(
    done: Result<(), String>,
    after: ModelWeights,
    before: ModelWeights,
    snap: StateSnapshot,
) -> bool {
    let snaps = block_models(snap.blocks@);
    let own = before.blocks@;
    if snap.model_nonce != before.instance_nonce {
        &&& after == before
        &&& done matches Err(msg)
        &&& msg@ == nonce_text(
            "restore_state: model nonce mismatch (snapshot from different model instance): snap="@,
            snap.model_nonce,
            before.instance_nonce,
        )
    } else if snaps.len() != own.len() {
        &&& after == before
        &&& done matches Err(msg)
        &&& msg@ == length_text(
            "restore_state: blocks length mismatch: snap="@,
            snaps.len(),
            own.len(),
        )
    } else {
        let m = agreeing(own, snaps, own.len());
        &&& same_but_blocks(after, before)
        &&& restored_up_to(after.blocks@, own, snaps, m as int)
        &&& match done {
            Ok(()) => m == own.len(),
            Err(msg) => m < own.len() && msg@ == restore_mismatch_text(own[m as int]),
        }
    }
}

/// The model's cached length is that of its first attention layer, and zero where it has
/// none.
pub proof fn law_the_first_attention_layer_counts(blocks: Seq<HybridLayerType>, from: int, i: int)
    requires
        0 <= from <= i <= blocks.len(),
        forall|k: int| from <= k < i ==> (#[trigger] blocks[k]) is DeltaNet,
    ensures
        i < blocks.len() && blocks[i] is Attention ==> first_cache_len(blocks, from)
            == blocks[i]->Attention_0.stream().rows.len(),
        i == blocks.len() ==> first_cache_len(blocks, from) == 0,
    decreases i - from,
{
    if from < i {
        assert(blocks[from] is DeltaNet);
        law_the_first_attention_layer_counts(blocks, from + 1, i);
    }
}

/// Whether a block is a recurrent layer.
pub open spec fn recurrent() -> spec_fn(HybridLayerType) -> bool {
    |b: HybridLayerType| b is DeltaNet
}

/// Whether a block is a recurrent layer that runs on a Metal device.
pub open spec fn recurrent_on_metal() -> spec_fn(HybridLayerType) -> bool {
    |b: HybridLayerType| b is DeltaNet && b->DeltaNet_0.on_metal
}

/// The counts are those of the recurrent layers, and of those among them that run on the
/// Metal device.
pub proof fn law_recurrent_layers_are_counted(blocks: Seq<HybridLayerType>, n: nat)
    requires
        n <= blocks.len(),
    ensures
        delta_count(blocks, n) == blocks.take(n as int).filter(recurrent()).len(),
        metal_count(blocks, n) == blocks.take(n as int).filter(recurrent_on_metal()).len(),
        metal_count(blocks, n) <= delta_count(blocks, n) <= n,
    decreases n,
{
    reveal(Seq::filter);
    let part = blocks.take(n as int);
    if n > 0 {
        law_recurrent_layers_are_counted(blocks, (n - 1) as nat);
        assert(part.drop_last() =~= blocks.take(n - 1));
        assert(part.last() == blocks[n - 1]);
    }
}

/// An operation on the streams leaves recurrent layers and all slots as they are.
pub proof fn law_stream_operations_keep_the_rest(
    after: Seq<HybridLayerType>,
    before: Seq<HybridLayerType>,
    f: spec_fn(GatedAttentionLayer) -> StreamModel,
    i: int,
    s: int,
)
    requires
        streams_mapped(after, before, f, before.len() as int),
        0 <= i < before.len(),
        0 <= s < crate::kv_cache::DECODE_BATCH_CAPACITY,
    ensures
        before[i] is DeltaNet ==> after[i] == before[i],
        before[i] is Attention ==> after[i] is Attention && after[i]->Attention_0.stream() == f(
            before[i]->Attention_0,
        ) && after[i]->Attention_0.slot(s) == before[i]->Attention_0.slot(s),
{
    assert(after[i] == after[i]);
}

/// Room that is allocated anew holds no rows yet, and is neither more than asked for nor
/// more than the window and the cache allow.
pub proof fn law_new_room_is_empty(a: GatedAttentionLayer, total: nat)
    ensures
        allocated(a, total).rows.len() == 0,
        allocated(a, total).capacity == Some(
            capped(total, a.attn_window as nat, a.max_cache_len as nat),
        ),
{
}

} // verus!
