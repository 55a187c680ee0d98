//! State of the whole model: its layers, snapshots for the prompt cache, and
//! per-slot state for batched decode.
use crate::delta_state::{
    data_fits, fresh_data, DeltaData, DeltaNetState, DeltaNetStateSnap, DeltaShape,
};
use crate::kv_cache::{
    restored_stream, seeded_slot, snap_view, snap_wf, stream_snap, BatchedKvCache,
    GatedAttentionLayer, KvCacheSnap, SnapModel, DECODE_BATCH_CAPACITY,
};
use crate::text::{decimal, hexadecimal, push_decimal, push_hexadecimal};
use vstd::prelude::*;

verus! {

/// State of a DeltaNet layer: the single stream's, and one per slot.
#[derive(Debug)]
pub struct DeltaNetLayer {
    pub state: DeltaNetState,
    pub cpu_state_batched: Vec<DeltaNetState>,
    /// Whether the recurrent step runs on a Metal device.
    pub on_metal: bool,
}

impl DeltaNetLayer {
    /// All states have data of one shape, and there is one per slot.
    pub open spec fn wf(&self) -> bool {
        &&& self.state.wf()
        &&& self.cpu_state_batched@.len() == DECODE_BATCH_CAPACITY
        &&& forall|s: int|
            0 <= s < DECODE_BATCH_CAPACITY ==> (#[trigger] self.cpu_state_batched@[s]).wf()
                && self.cpu_state_batched@[s].shape() == self.state.shape()
    }

    /// A layer of zeros.
    pub fn new(
        conv_kernel: usize,
        channels: usize,
        n_v_heads: usize,
        head_v_dim: usize,
        on_metal: bool,
    ) -> (layer: Self)
        requires
            conv_kernel >= 1,
            (conv_kernel - 1) * channels <= usize::MAX,
            n_v_heads * head_v_dim * head_v_dim <= usize::MAX,
        ensures
            layer.wf(),
            layer.on_metal == on_metal,
            layer.state.shape() == (DeltaShape {
                conv_kernel: conv_kernel as nat,
                channels: channels as nat,
                n_v_heads: n_v_heads as nat,
                head_v_dim: head_v_dim as nat,
            }),
            layer.state@ == fresh_data(layer.state.shape()),
            forall|s: int|
                0 <= s < DECODE_BATCH_CAPACITY ==> (#[trigger] layer.cpu_state_batched@[s])@
                    == fresh_data(layer.state.shape()),
    {
        let state = DeltaNetState::new(conv_kernel, channels, n_v_heads, head_v_dim);
        let mut slots: Vec<DeltaNetState> = Vec::new();
        let mut i: usize = 0;
        while i < DECODE_BATCH_CAPACITY as usize
            invariant
                i <= DECODE_BATCH_CAPACITY,
                conv_kernel >= 1,
                (conv_kernel - 1) * channels <= usize::MAX,
                n_v_heads * head_v_dim * head_v_dim <= usize::MAX,
                state.shape() == (DeltaShape {
                    conv_kernel: conv_kernel as nat,
                    channels: channels as nat,
                    n_v_heads: n_v_heads as nat,
                    head_v_dim: head_v_dim as nat,
                }),
                slots@.len() == i,
                forall|s: int|
                    0 <= s < i ==> (#[trigger] slots@[s]).wf() && slots@[s].shape() == state.shape()
                        && slots@[s]@ == fresh_data(state.shape()),
            decreases DECODE_BATCH_CAPACITY - i,
        {
            slots.push(DeltaNetState::new(conv_kernel, channels, n_v_heads, head_v_dim));
            i += 1;
        }
        DeltaNetLayer { state, cpu_state_batched: slots, on_metal }
    }
}

/// Layer types of the hybrid trunk.
#[derive(Debug)]
pub enum HybridLayerType {
    DeltaNet(DeltaNetLayer),
    Attention(GatedAttentionLayer),
}

/// Captured state of one block.
#[derive(Debug)]
pub enum BlockStateSnap {
    DeltaNet(DeltaNetStateSnap),
    Attention(Option<KvCacheSnap>),
}

/// The model of a [`BlockStateSnap`].
pub enum BlockModel {
    DeltaNet(DeltaData),
    Attention(Option<SnapModel>),
}

impl View for BlockStateSnap {
    type V = BlockModel;

    open spec fn view(&self) -> BlockModel {
        match self {
            BlockStateSnap::DeltaNet(s) => BlockModel::DeltaNet(s@),
            BlockStateSnap::Attention(s) => BlockModel::Attention(snap_view(*s)),
        }
    }
}

impl BlockStateSnap {
    /// Captured rows are complete.
    pub open spec fn wf(&self) -> bool {
        match self {
            BlockStateSnap::DeltaNet(_) => true,
            BlockStateSnap::Attention(s) => snap_wf(*s),
        }
    }
}

impl Clone for BlockStateSnap {
    fn clone(&self) -> (copy: Self)
        ensures
            copy@ == self@,
            self.wf() ==> copy.wf(),
    {
        match self {
            BlockStateSnap::DeltaNet(s) => BlockStateSnap::DeltaNet(s.clone()),
            BlockStateSnap::Attention(None) => BlockStateSnap::Attention(None),
            BlockStateSnap::Attention(Some(s)) => BlockStateSnap::Attention(Some(s.clone())),
        }
    }
}

/// Captured state of the whole model for the prompt cache.
#[derive(Debug)]
pub struct StateSnapshot {
    /// The instance that the snapshot was taken of.
    pub model_nonce: u64,
    /// How many tokens the state has seen.
    pub position: usize,
    pub blocks: Vec<BlockStateSnap>,
}

/// The models of captured blocks.
pub open spec fn block_models(blocks: Seq<BlockStateSnap>) -> Seq<BlockModel> {
    Seq::new(blocks.len(), |i: int| blocks[i]@)
}

/// The bytes that a captured block takes.
pub open spec fn block_bytes(block: BlockModel) -> nat {
    match block {
        BlockModel::DeltaNet(data) => data.conv.len() * 4 + data.ssm.len() * 4,
        BlockModel::Attention(None) => 0,
        BlockModel::Attention(Some(kv)) => kv.rows.len() * kv.row_bytes + kv.rows.len()
            * kv.row_bytes,
    }
}

/// The bytes that captured blocks take together.
pub open spec fn blocks_bytes(blocks: Seq<BlockModel>) -> nat
    decreases blocks.len(),
{
    if blocks.len() == 0 {
        0
    } else {
        blocks_bytes(blocks.drop_last()) + block_bytes(blocks.last())
    }
}

proof fn lemma_prefix_bytes(blocks: Seq<BlockModel>, n: int)
    requires
        0 <= n <= blocks.len(),
    ensures
        blocks_bytes(blocks.take(n)) <= blocks_bytes(blocks),
    decreases blocks.len(),
{
    if n < blocks.len() {
        lemma_prefix_bytes(blocks.drop_last(), n);
        assert(blocks.drop_last().take(n) =~= blocks.take(n));
    } else {
        assert(blocks.take(n) =~= blocks);
    }
}

impl StateSnapshot {
    /// Captured rows are complete in every block.
    pub open spec fn wf(&self) -> bool {
        forall|i: int| 0 <= i < self.blocks@.len() ==> (#[trigger] self.blocks@[i]).wf()
    }

    /// Bytes of the captured data, for a cache that is bounded by memory.
    pub fn size_bytes(&self) -> (total: usize)
        requires
            blocks_bytes(block_models(self.blocks@)) <= usize::MAX,
        ensures
            total == blocks_bytes(block_models(self.blocks@)),
    {
        let ghost all = block_models(self.blocks@);
        let mut total: usize = 0;
        let mut i: usize = 0;
        assert(all.take(0) =~= Seq::empty());
        while i < self.blocks.len()
            invariant
                i <= self.blocks@.len(),
                all == block_models(self.blocks@),
                total == blocks_bytes(all.take(i as int)),
                blocks_bytes(all) <= usize::MAX,
            decreases self.blocks@.len() - i,
        {
            proof {
                assert(all.take(i + 1).drop_last() =~= all.take(i as int));
                assert(all.take(i + 1).last() == all[i as int]);
                lemma_prefix_bytes(all, i + 1);
            }
            match &self.blocks[i] {
                BlockStateSnap::DeltaNet(dn) => {
                    let conv: usize = dn.conv_buf.len();
                    let ssm: usize = dn.ssm_state.len();
                    total = total + conv * 4 + ssm * 4;
                },
                BlockStateSnap::Attention(Some(kv)) => {
                    let rows: usize = kv.rows.len();
                    assert(0 <= rows * kv.row_bytes) by (nonlinear_arith)
                        requires
                            rows >= 0,
                            kv.row_bytes >= 0,
                    ;
                    total = total + (rows * kv.row_bytes + rows * kv.row_bytes);
                },
                BlockStateSnap::Attention(None) => {},
            }
            i += 1;
        }
        assert(all.take(all.len() as int) =~= all);
        total
    }
}

impl Clone for StateSnapshot {
    fn clone(&self) -> (copy: Self)
        ensures
            copy.model_nonce == self.model_nonce,
            copy.position == self.position,
            block_models(copy.blocks@) == block_models(self.blocks@),
            self.wf() ==> copy.wf(),
    {
        let mut blocks: Vec<BlockStateSnap> = Vec::new();
        let mut i: usize = 0;
        while i < self.blocks.len()
            invariant
                i <= self.blocks@.len(),
                blocks@.len() == i,
                forall|k: int| 0 <= k < i ==> (#[trigger] blocks@[k])@ == self.blocks@[k]@,
                forall|k: int| 0 <= k < i && self.blocks@[k].wf() ==> (#[trigger] blocks@[k]).wf(),
            decreases self.blocks@.len() - i,
        {
            blocks.push(self.blocks[i].clone());
            i += 1;
        }
        assert(block_models(blocks@) =~= block_models(self.blocks@));
        StateSnapshot { model_nonce: self.model_nonce, position: self.position, blocks }
    }
}

/// Captured slot of one block.
#[derive(Debug)]
pub enum BatchedBlockCheckpoint {
    DeltaNet(DeltaNetStateSnap),
    Attention { cache: Option<BatchedKvCache>, len: usize },
}

/// Captured slot of the whole model.
#[derive(Debug)]
pub struct BatchedStateCheckpoint {
    pub model_nonce: u64,
    pub slot: usize,
    pub blocks: Vec<BatchedBlockCheckpoint>,
}

/// The state of the model.
#[derive(Debug)]
pub struct ModelWeights {
    pub blocks: Vec<HybridLayerType>,
    /// The longest context.
    pub context_length: usize,
    /// Width of the hidden states.
    pub hidden_size: usize,
    /// Identity of this instance.
    pub instance_nonce: u64,
}

/// Whether a layer's state is in order.
pub open spec fn layer_wf(layer: HybridLayerType) -> bool {
    match layer {
        HybridLayerType::DeltaNet(d) => d.wf(),
        HybridLayerType::Attention(a) => a.wf(),
    }
}

/// Whether a layer is of the type that a captured block is of.
pub open spec fn types_agree(layer: HybridLayerType, snap: BlockModel) -> bool {
    (layer is DeltaNet) == (snap is DeltaNet)
}

/// How many of the first `n` layers agree with the captured blocks, up to the
/// first that does not.
pub open spec fn agreeing(
    layers: Seq<HybridLayerType>,
    snaps: Seq<BlockModel>,
    n: nat,
) -> nat
    decreases n,
{
    if n == 0 {
        0
    } else {
        let k = agreeing(layers, snaps, (n - 1) as nat);
        if k == n - 1 && types_agree(layers[n - 1], snaps[n - 1]) {
            n
        } else {
            k
        }
    }
}

/// Whether captured data fits a layer, where the types agree.
pub open spec fn block_fits(layer: HybridLayerType, snap: BlockModel) -> bool {
    match (layer, snap) {
        (HybridLayerType::DeltaNet(d), BlockModel::DeltaNet(data)) => data_fits(
            data,
            d.state.shape(),
        ),
        _ => true,
    }
}

/// Whether captured data fits every layer.
pub open spec fn blocks_fit(layers: Seq<HybridLayerType>, snaps: Seq<BlockModel>) -> bool {
    forall|i: int| 0 <= i < layers.len() ==> block_fits(#[trigger] layers[i], snaps[i])
}

/// What a snapshot captures of a layer.
pub open spec fn captured(layer: HybridLayerType) -> BlockModel {
    match layer {
        HybridLayerType::DeltaNet(d) => BlockModel::DeltaNet(d.state@),
        HybridLayerType::Attention(a) => BlockModel::Attention(
            stream_snap(a.stream(), a.row_bytes as nat),
        ),
    }
}

/// What a snapshot captures of a model.
pub open spec fn captured_blocks(layers: Seq<HybridLayerType>) -> Seq<BlockModel> {
    Seq::new(layers.len(), |i: int| captured(layers[i]))
}

/// Whether two DeltaNet layers differ in the single stream's data only.
pub open spec fn same_but_state(a: DeltaNetLayer, b: DeltaNetLayer) -> bool {
    &&& a.state.shape() == b.state.shape()
    &&& a.cpu_state_batched == b.cpu_state_batched
    &&& a.on_metal == b.on_metal
}

/// Whether two DeltaNet layers differ in the data of slot `s` only.
pub open spec fn same_but_slot_state(a: DeltaNetLayer, b: DeltaNetLayer, s: int) -> bool {
    &&& a.state == b.state
    &&& a.on_metal == b.on_metal
    &&& forall|t: int|
        0 <= t < DECODE_BATCH_CAPACITY && t != s ==> #[trigger] a.cpu_state_batched@[t]
            == b.cpu_state_batched@[t]
}

/// Whether `after` is `before` with a captured block put back, and nothing else.
pub open spec fn block_restored(
    after: HybridLayerType,
    before: HybridLayerType,
    snap: BlockModel,
) -> bool {
    match (before, snap) {
        (HybridLayerType::DeltaNet(b), BlockModel::DeltaNet(data)) => {
            &&& after matches HybridLayerType::DeltaNet(a)
            &&& a.state@ == data
            &&& same_but_state(a, b)
        },
        (HybridLayerType::Attention(b), BlockModel::Attention(kv)) => {
            &&& after matches HybridLayerType::Attention(a)
            &&& a.stream() == restored_stream(kv)
            &&& a.same_but_stream(&b)
        },
        _ => false,
    }
}

/// Whether `after` is `before` with a captured block put into slot `s`, and
/// nothing else.
pub open spec fn slot_seeded(
    after: HybridLayerType,
    before: HybridLayerType,
    snap: BlockModel,
    s: int,
) -> bool {
    match (before, snap) {
        (HybridLayerType::DeltaNet(b), BlockModel::DeltaNet(data)) => {
            &&& after matches HybridLayerType::DeltaNet(a)
            &&& a.cpu_state_batched@[s]@ == data
            &&& a.cpu_state_batched@[s].shape() == b.cpu_state_batched@[s].shape()
            &&& same_but_slot_state(a, b, s)
        },
        (HybridLayerType::Attention(b), BlockModel::Attention(kv)) => {
            &&& after matches HybridLayerType::Attention(a)
            &&& a.slot(s) == seeded_slot(kv)
            &&& a.same_but_slot(&b, s)
            &&& a.kv_cache_cap_batched == b.kv_cache_cap_batched
        },
        _ => false,
    }
}

/// The message for a captured block of the wrong type.
pub open spec fn restore_mismatch_text(layer: HybridLayerType) -> Seq<char> {
    match layer {
        HybridLayerType::DeltaNet(_) => {
            "snapshot variant mismatch: expected DeltaNet, got Attention"@
        },
        HybridLayerType::Attention(_) => {
            "snapshot variant mismatch: expected Attention, got DeltaNet"@
        },
    }
}

/// The message for a captured block of the wrong type when seeding a slot.
pub open spec fn seed_mismatch_text(layer: HybridLayerType, slot: nat) -> Seq<char> {
    "seed_slot_batched: snapshot variant mismatch at slot "@ + decimal(slot) + (match layer {
        HybridLayerType::DeltaNet(_) => ": expected DeltaNet"@,
        HybridLayerType::Attention(_) => ": expected Attention"@,
    })
}

/// The message for a snapshot of another instance.
pub open spec fn nonce_text(intro: Seq<char>, snap: u64, own: u64) -> Seq<char> {
    intro + hexadecimal(snap as nat) + " vs self="@ + hexadecimal(own as nat)
}

/// The message for a snapshot with another number of blocks.
pub open spec fn length_text(intro: Seq<char>, snap: nat, own: nat) -> Seq<char> {
    intro + decimal(snap) + " vs model="@ + decimal(own)
}

pub fn nonce_message(intro: &str, snap: u64, own: u64) -> (msg: String)
    ensures
        msg@ == nonce_text(intro@, snap, own),
{
    let mut msg = intro.to_owned();
    push_hexadecimal(&mut msg, snap);
    msg.append(" vs self=");
    push_hexadecimal(&mut msg, own);
    msg
}

pub fn length_message(intro: &str, snap: usize, own: usize) -> (msg: String)
    ensures
        msg@ == length_text(intro@, snap as nat, own as nat),
{
    let mut msg = intro.to_owned();
    push_decimal(&mut msg, snap as u64);
    msg.append(" vs model=");
    push_decimal(&mut msg, own as u64);
    msg
}

impl HybridLayerType {
    /// Whether the layer is a DeltaNet layer.
    pub fn is_deltanet(&self) -> (yes: bool)
        ensures
            yes == (self is DeltaNet),
    {
        match self {
            HybridLayerType::DeltaNet(_) => true,
            HybridLayerType::Attention(_) => false,
        }
    }

    /// Captures the layer's single-stream state.
    pub fn snapshot_block(&self) -> (snap: BlockStateSnap)
        requires
            layer_wf(*self),
        ensures
            snap@ == captured(*self),
            snap.wf(),
    {
        match self {
            HybridLayerType::DeltaNet(d) => BlockStateSnap::DeltaNet(d.state.to_snapshot()),
            HybridLayerType::Attention(a) => BlockStateSnap::Attention(a.snapshot_kv()),
        }
    }

    /// Puts captured state back, where it is of the layer's type.
    pub fn restore_block(&mut self, snap: &BlockStateSnap) -> (done: Result<(), String>)
        requires
            layer_wf(*old(self)),
            snap.wf(),
            block_fits(*old(self), snap@),
        ensures
            layer_wf(*final(self)),
            match done {
                Ok(()) => types_agree(*old(self), snap@) && block_restored(
                    *final(self),
                    *old(self),
                    snap@,
                ),
                Err(msg) => !types_agree(*old(self), snap@) && *final(self) == *old(self) && msg@
                    == restore_mismatch_text(*old(self)),
            },
    {
        match self {
            HybridLayerType::DeltaNet(d) => match snap {
                BlockStateSnap::DeltaNet(s) => {
                    d.state.restore_from(s);
                    Ok(())
                },
                BlockStateSnap::Attention(_) => {
                    Err("snapshot variant mismatch: expected DeltaNet, got Attention".to_owned())
                },
            },
            HybridLayerType::Attention(a) => match snap {
                BlockStateSnap::Attention(s) => {
                    a.restore_kv(s);
                    Ok(())
                },
                BlockStateSnap::DeltaNet(_) => {
                    Err("snapshot variant mismatch: expected Attention, got DeltaNet".to_owned())
                },
            },
        }
    }
}

/// A snapshot takes as many bytes as its blocks together: four for each number of a
/// recurrent state, and a key row and a value row for each cached token.
pub proof fn law_snapshot_sizes_add_up(a: Seq<BlockModel>, b: Seq<BlockModel>)
    ensures
        blocks_bytes(a + b) == blocks_bytes(a) + blocks_bytes(b),
        b.len() == 1 ==> blocks_bytes(b) == match b[0] {
            BlockModel::DeltaNet(data) => 4 * (data.conv.len() + data.ssm.len()),
            BlockModel::Attention(None) => 0,
            BlockModel::Attention(Some(kv)) => 2 * (kv.rows.len() * kv.row_bytes),
        },
    decreases b.len(),
{
    if b.len() == 0 {
        assert(a + b =~= a);
    } else {
        law_snapshot_sizes_add_up(a, b.drop_last());
        assert((a + b).drop_last() =~= a + b.drop_last());
        assert((a + b).last() == b.last());
        if b.len() == 1 {
            assert(b.drop_last() =~= Seq::empty());
            assert(blocks_bytes(b.drop_last()) == 0);
        }
    }
}

/// A restore goes as far as the kinds of layers and captures agree, and no further.
pub proof fn law_restores_go_as_far_as_kinds_agree(
    layers: Seq<HybridLayerType>,
    snaps: Seq<BlockModel>,
    n: nat,
    i: int,
)
    requires
        n <= layers.len(),
        n <= snaps.len(),
    ensures
        agreeing(layers, snaps, n) <= n,
        0 <= i < agreeing(layers, snaps, n) ==> (layers[i] is DeltaNet <==> snaps[i] is DeltaNet),
        agreeing(layers, snaps, n) < n ==> {
            let stop = agreeing(layers, snaps, n) as int;
            layers[stop] is DeltaNet <==> snaps[stop] is Attention
        },
    decreases n,
{
    if n > 0 {
        law_restores_go_as_far_as_kinds_agree(layers, snaps, (n - 1) as nat, i);
    }
}

} // verus!
