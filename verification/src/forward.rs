//! Passes through the whole model: what a pass does to the state of every block, what
//! is checked before it, and which logits are kept.
use crate::attention::{check_decode_dims, decode_dims_agree};
use crate::delta_layer::{batch_stepped, prompt_stepped, slots_failure, step_fits, tokens_fit};
use crate::kv_batch::{batch_advanced, batch_room, window_serves, SlotStep};
use crate::kv_cache::{
    appended, windowed, GatedAttentionLayer, KvStep, StreamModel, DECODE_BATCH_CAPACITY,
};
use crate::model_ops::{same_but_blocks, streams_mapped};
use crate::model_state::{layer_wf, same_but_state, HybridLayerType, ModelWeights};
use crate::position::{axes_have, axes_match, PlanModel, PositionPlan};
use crate::text::{decimal, push_decimal};
use crate::timings::{no_time, GenTimings};
use vstd::prelude::*;

verus! {

/// Layers between two releases of scratch memory in the pass of a prompt.
pub const SYNC_EVERY: usize = 4;

/// Tokens between two releases of device memory in a pass token by token.
pub const FLUSH_EVERY: usize = 256;

/// What the tensor code hands to a block's state.
#[derive(Debug)]
pub enum BlockInput {
    /// Per token, its queries, keys and values, and the state matrices after it.
    DeltaNet { qkv: Vec<Vec<u32>>, ssm: Vec<Vec<u32>> },
    /// Per token, its cached row.
    Attention { rows: Vec<u64> },
}

/// What the tensor code does to a block's buffers.
#[derive(Debug, Clone, Copy, PartialEq, Eq, Structural)]
pub enum BlockAction {
    DeltaNet,
    Attention(KvStep),
}

/// Whether an input is of a layer's type and sizes.
pub open spec fn input_fits(layer: HybridLayerType, input: BlockInput) -> bool {
    match (layer, input) {
        (HybridLayerType::DeltaNet(d), BlockInput::DeltaNet { qkv, ssm }) => {
            &&& qkv@.len() == ssm@.len()
            &&& forall|i: int|
                0 <= i < qkv@.len() ==> step_fits(d.state, #[trigger] qkv@[i]@, ssm@[i]@)
        },
        (HybridLayerType::Attention(a), BlockInput::Attention { rows }) => {
            &&& a.kv_cache_len + rows@.len() <= usize::MAX
            &&& a.attn_window > 0 || a.kv_cache is None || rows@.len() != 1
        },
        _ => false,
    }
}

/// Whether `after` is `before` moved on by an input, and `action` what the buffers
/// need.
pub open spec fn block_forwarded(
    after: HybridLayerType,
    before: HybridLayerType,
    input: BlockInput,
    action: BlockAction,
) -> bool {
    match (before, input) {
        (HybridLayerType::DeltaNet(b), BlockInput::DeltaNet { qkv, ssm }) => {
            &&& after matches HybridLayerType::DeltaNet(a)
            &&& a.state@ == prompt_stepped(
                b.state@,
                b.state.channels as nat,
                qkv@,
                ssm@,
                qkv@.len(),
            )
            &&& same_but_state(a, b)
            &&& action == BlockAction::DeltaNet
        },
        (HybridLayerType::Attention(b), BlockInput::Attention { rows }) => {
            &&& after matches HybridLayerType::Attention(a)
            &&& action matches BlockAction::Attention(step)
            &&& appended(b.stream(), rows@, b.attn_window as nat, b.max_cache_len as nat) == Ok::<
                (StreamModel, KvStep),
                Seq<char>,
            >((a.stream(), step))
            &&& a.same_but_stream(&b)
        },
        _ => false,
    }
}

/// Why an input cannot be taken: a write beyond an attention layer's buffer.
pub open spec fn block_failure(before: HybridLayerType, input: BlockInput) -> Option<Seq<char>> {
    match (before, input) {
        (HybridLayerType::Attention(b), BlockInput::Attention { rows }) => match appended(
            b.stream(),
            rows@,
            b.attn_window as nat,
            b.max_cache_len as nat,
        ) {
            Ok(_) => None,
            Err(msg) => Some(msg),
        },
        _ => None,
    }
}

impl HybridLayerType {
    /// Moves the single-stream state on by the tokens of a pass.
    pub fn forward(&mut self, input: BlockInput) -> (action: Result<BlockAction, String>)
        requires
            layer_wf(*old(self)),
            input_fits(*old(self), input),
        ensures
            layer_wf(*final(self)),
            match action {
                Ok(a) => block_failure(*old(self), input) is None && block_forwarded(
                    *final(self),
                    *old(self),
                    input,
                    a,
                ),
                Err(msg) => block_failure(*old(self), input) == Some(msg@) && *final(self) == *old(
                    self,
                ),
            },
    {
        match self {
            HybridLayerType::DeltaNet(d) => match input {
                BlockInput::DeltaNet { qkv, ssm } => {
                    d.state.step_prompt(&qkv, &ssm);
                    Ok(BlockAction::DeltaNet)
                },
                BlockInput::Attention { rows } => Ok(BlockAction::DeltaNet),
            },
            HybridLayerType::Attention(a) => match input {
                BlockInput::Attention { rows } => match a.append(rows) {
                    Ok(step) => Ok(BlockAction::Attention(step)),
                    Err(msg) => Err(msg),
                },
                BlockInput::DeltaNet { qkv, ssm } => Ok(BlockAction::DeltaNet),
            },
        }
    }
}

/// What the tensor code hands to a block's slots: one token per batch entry.
#[derive(Debug)]
pub enum BatchInput {
    /// Per entry, its queries, keys and values, and the state matrices after it.
    DeltaNet { qkv: Vec<Vec<u32>>, ssm: Vec<Vec<u32>> },
    /// Per entry, its cached row.
    Attention { rows: Vec<u64> },
}

/// What the tensor code does to a block's slot buffers.
#[derive(Debug)]
pub enum BatchAction {
    DeltaNet,
    Attention(Vec<SlotStep>),
}

/// A decode batch: per entry, its cache position, its rotary position and its slot.
#[derive(Debug)]
pub struct DecodePlan {
    pub cache_positions: Vec<usize>,
    pub rope_positions: Vec<usize>,
    pub slots: Vec<u32>,
}

impl DecodePlan {
    /// Every entry has all three.
    pub open spec fn wf(&self) -> bool {
        &&& self.cache_positions@.len() == self.slots@.len()
        &&& self.rope_positions@.len() == self.slots@.len()
    }
}

/// Whether an input is of a layer's type and a batch's sizes.
pub open spec fn batch_fits(layer: HybridLayerType, plan: DecodePlan, input: BatchInput) -> bool {
    match (layer, input) {
        (HybridLayerType::DeltaNet(d), BatchInput::DeltaNet { qkv, ssm }) => tokens_fit(
            d.state,
            plan.slots@,
            qkv@,
            ssm@,
        ),
        (HybridLayerType::Attention(a), BatchInput::Attention { rows }) => {
            &&& rows@.len() == plan.slots@.len()
            &&& window_serves(a.attn_window, plan.slots@)
        },
        _ => false,
    }
}

/// What a decode batch does to a block and returns.
pub open spec fn batch_outcome(
    done: Result<BatchAction, String>,
    after: HybridLayerType,
    before: HybridLayerType,
    plan: DecodePlan,
    input: BatchInput,
) -> bool {
    match (before, input) {
        (HybridLayerType::DeltaNet(b), BatchInput::DeltaNet { qkv, ssm }) => {
            &&& after matches HybridLayerType::DeltaNet(a)
            &&& a.state == b.state
            &&& a.on_metal == b.on_metal
            &&& forall|s: int|
                0 <= s < DECODE_BATCH_CAPACITY ==> (#[trigger] a.cpu_state_batched@[s])@
                    == batch_stepped(
                    b.cpu_state_batched@[s]@,
                    b.state.channels as nat,
                    plan.slots@,
                    qkv@,
                    ssm@,
                    s,
                    plan.slots@.len(),
                )
            &&& match done {
                Ok(action) => action is DeltaNet && slots_failure(
                    plan.slots@,
                    plan.slots@.len(),
                ) is None,
                Err(msg) => slots_failure(plan.slots@, plan.slots@.len()) == Some(msg@),
            }
        },
        (HybridLayerType::Attention(b), BatchInput::Attention { rows }) => {
            let outcome = batch_advanced(
                b.slots(),
                plan.slots@,
                plan.cache_positions@,
                rows@,
                b.attn_window as nat,
                b.max_cache_len as nat,
                plan.slots@.len(),
            );
            &&& after matches HybridLayerType::Attention(a)
            &&& a.same_but_slots(&b)
            &&& a.slots() == outcome.slots
            &&& a.kv_cache_cap_batched == batch_room(
                b.slots(),
                plan.slots@,
                plan.cache_positions@,
                rows@,
                b.attn_window as nat,
                b.max_cache_len as nat,
                b.kv_cache_cap_batched as nat,
                plan.slots@.len(),
            )
            &&& match done {
                Ok(action) => {
                    &&& outcome.error is None
                    &&& action matches BatchAction::Attention(steps)
                    &&& steps@ == outcome.steps
                },
                Err(msg) => outcome.error == Some(msg@),
            }
        },
        _ => false,
    }
}

impl HybridLayerType {
    /// Moves the slots of a decode batch on, each by its own token. The first that is
    /// refused ends the batch; what came before it stays done.
    pub fn decode(&mut self, plan: &DecodePlan, input: &BatchInput) -> (done: Result<
        BatchAction,
        String,
    >)
        requires
            layer_wf(*old(self)),
            plan.wf(),
            batch_fits(*old(self), *plan, *input),
        ensures
            layer_wf(*final(self)),
            batch_outcome(done, *final(self), *old(self), *plan, *input),
    {
        match self {
            HybridLayerType::DeltaNet(d) => match input {
                BatchInput::DeltaNet { qkv, ssm } => match d.step_batch(
                    1,
                    plan.slots.as_slice(),
                    qkv,
                    ssm,
                ) {
                    Ok(()) => Ok(BatchAction::DeltaNet),
                    Err(msg) => Err(msg),
                },
                BatchInput::Attention { rows } => Ok(BatchAction::DeltaNet),
            },
            HybridLayerType::Attention(a) => match input {
                BatchInput::Attention { rows } => match a.decode_batch(
                    plan.slots.len(),
                    1,
                    plan.cache_positions.as_slice(),
                    plan.rope_positions.as_slice(),
                    plan.slots.as_slice(),
                    rows.as_slice(),
                ) {
                    Ok(steps) => Ok(BatchAction::Attention(steps)),
                    Err(msg) => Err(msg),
                },
                BatchInput::DeltaNet { qkv, ssm } => Ok(BatchAction::DeltaNet),
            },
        }
    }
}

impl ModelWeights {
    /// Moves the slots of block `i` on by a decode batch.
    pub fn decode_block(&mut self, i: usize, plan: &DecodePlan, input: &BatchInput) -> (done: Result<
        BatchAction,
        String,
    >)
        requires
            old(self).wf(),
            i < old(self).blocks@.len(),
            plan.wf(),
            batch_fits(old(self).blocks@[i as int], *plan, *input),
        ensures
            final(self).wf(),
            same_but_blocks(*final(self), *old(self)),
            final(self).blocks@.len() == old(self).blocks@.len(),
            forall|k: int|
                0 <= k < old(self).blocks@.len() && k != i ==> #[trigger] final(self).blocks@[k]
                    == old(self).blocks@[k],
            batch_outcome(
                done,
                final(self).blocks@[i as int],
                old(self).blocks@[i as int],
                *plan,
                *input,
            ),
    {
        self.blocks[i].decode(plan, input)
    }
}

impl ModelWeights {
    /// Begins a pass: the times of a single-token pass are counted anew.
    pub fn forward_start(&self, timings: &mut GenTimings, seq_len: usize)
        ensures
            *final(timings) == (if seq_len == 1 {
                no_time()
            } else {
                *old(timings)
            }),
    {
        if seq_len == 1 {
            timings.reset();
        }
    }

    /// Moves block `i` on by the tokens of a pass.
    pub fn forward_block(&mut self, i: usize, input: BlockInput) -> (action: Result<
        BlockAction,
        String,
    >)
        requires
            old(self).wf(),
            i < old(self).blocks@.len(),
            input_fits(old(self).blocks@[i as int], input),
        ensures
            final(self).wf(),
            same_but_blocks(*final(self), *old(self)),
            final(self).blocks@.len() == old(self).blocks@.len(),
            forall|k: int|
                0 <= k < old(self).blocks@.len() && k != i ==> #[trigger] final(self).blocks@[k]
                    == old(self).blocks@[k],
            match action {
                Ok(a) => block_failure(old(self).blocks@[i as int], input) is None
                    && block_forwarded(
                    final(self).blocks@[i as int],
                    old(self).blocks@[i as int],
                    input,
                    a,
                ),
                Err(msg) => block_failure(old(self).blocks@[i as int], input) == Some(msg@)
                    && final(self).blocks@[i as int] == old(self).blocks@[i as int],
            },
    {
        self.blocks[i].forward(input)
    }

    /// Ends a pass: after a prompt the caches are cut to their windows.
    pub fn forward_finish(&mut self, seq_len: usize)
        requires
            old(self).wf(),
        ensures
            final(self).wf(),
            same_but_blocks(*final(self), *old(self)),
            if seq_len > 1 {
                streams_mapped(
                    final(self).blocks@,
                    old(self).blocks@,
                    |a: GatedAttentionLayer| windowed(a.stream(), a.attn_window as nat),
                    old(self).blocks@.len() as int,
                )
            } else {
                *final(self) == *old(self)
            },
    {
        if seq_len > 1 {
            self.truncate_kv_cache_to_window();
        }
    }

    /// Checks the width of embeddings that come from outside.
    pub fn check_embeds(&self, hidden: usize) -> (checked: Result<(), String>)
        ensures
            match checked {
                Ok(()) => hidden == self.hidden_size,
                Err(msg) => hidden != self.hidden_size && msg@ == embeds_text(
                    hidden as nat,
                    self.hidden_size as nat,
                ),
            },
    {
        if hidden != self.hidden_size {
            let mut msg = "forward_embeds: hidden mismatch — embeds ".to_owned();
            push_decimal(&mut msg, hidden as u64);
            msg.append(", model ");
            push_decimal(&mut msg, self.hidden_size as u64);
            return Err(msg);
        }
        Ok(())
    }

    /// Checks that a position plan covers exactly the tokens of a pass, and that there
    /// is a layer that uses it.
    pub fn check_mrope(&self, plan: &PositionPlan, seq_len: usize) -> (checked: Result<(), String>)
        ensures
            match checked {
                Ok(()) => mrope_failure(*self, plan@, seq_len as nat) is None,
                Err(msg) => mrope_failure(*self, plan@, seq_len as nat) == Some(msg@),
            },
    {
        if !axes_match(plan, seq_len) {
            return Err("MRoPE position count does not match embedding sequence".to_owned());
        }
        let mut i: usize = 0;
        while i < self.blocks.len()
            invariant
                i <= self.blocks@.len(),
                axes_have(plan@, seq_len as nat),
                forall|k: int| 0 <= k < i ==> (#[trigger] self.blocks@[k]) is DeltaNet,
            decreases self.blocks@.len() - i,
        {
            if !self.blocks[i].is_deltanet() {
                assert(self.blocks@[i as int] is Attention);
                return Ok(());
            }
            i += 1;
        }
        Err("model has no attention block".to_owned())
    }

    /// Checks the parts of a decode batch before any block sees it.
    pub fn check_decode_batch(
        &self,
        b: usize,
        seq_len: usize,
        cache_positions: &[usize],
        rope_positions: &[usize],
        slots: &[u32],
    ) -> (checked: Result<(), String>)
        ensures
            match checked {
                Ok(()) => decode_dims_agree(
                    b,
                    seq_len,
                    cache_positions@.len(),
                    rope_positions@.len(),
                    slots@.len(),
                ),
                Err(msg) => !decode_dims_agree(
                    b,
                    seq_len,
                    cache_positions@.len(),
                    rope_positions@.len(),
                    slots@.len(),
                ) && msg@ == "invalid batched decode dimensions"@,
            },
    {
        check_decode_dims(b, seq_len, cache_positions, rope_positions, slots)
    }
}

/// The message for embeddings of another width.
pub open spec fn embeds_text(embeds: nat, model: nat) -> Seq<char> {
    "forward_embeds: hidden mismatch — embeds "@ + decimal(embeds) + ", model "@ + decimal(model)
}

/// Why a pass with three-axis positions cannot start.
pub open spec fn mrope_failure(model: ModelWeights, plan: PlanModel, seq_len: nat) -> Option<
    Seq<char>,
> {
    if !axes_have(plan, seq_len) {
        Some("MRoPE position count does not match embedding sequence"@)
    } else if forall|k: int| 0 <= k < model.blocks@.len() ==> (#[trigger] model.blocks@[k]) is DeltaNet {
        Some("model has no attention block"@)
    } else {
        None
    }
}

/// Whether scratch memory is released behind layer `i` of a prompt's pass.
pub fn releases_scratch(i: usize) -> (yes: bool)
    requires
        i < usize::MAX,
    ensures
        yes == ((i + 1) % SYNC_EVERY as int == 0),
{
    (i + 1) % SYNC_EVERY == 0
}

/// Whether device memory is released behind token `i` of a pass token by token.
pub fn releases_device(i: usize, on_metal: bool) -> (yes: bool)
    ensures
        yes == (on_metal && i > 0 && i % FLUSH_EVERY == 0),
{
    on_metal && i > 0 && i % FLUSH_EVERY == 0
}

/// Logits of chosen tokens of a pass token by token. The others are never kept.
#[derive(Debug)]
pub struct BoundaryLogits {
    pub positions: Vec<usize>,
    /// Per position, its logits once they are there.
    pub collected: Vec<Option<Vec<u32>>>,
}

impl BoundaryLogits {
    /// There is a place for the logits of each position.
    pub open spec fn wf(&self) -> bool {
        self.collected@.len() == self.positions@.len()
    }

    /// What is there for the position at place `k`.
    pub open spec fn at(&self, k: int) -> Option<Seq<u32>> {
        match self.collected@[k] {
            Some(v) => Some(v@),
            None => None,
        }
    }

    /// Nothing collected yet.
    pub fn new(positions: &[usize]) -> (logits: Self)
        ensures
            logits.wf(),
            logits.positions@ == positions@,
            forall|k: int| 0 <= k < positions@.len() ==> #[trigger] logits.at(k) is None,
    {
        let mut own: Vec<usize> = Vec::new();
        let mut collected: Vec<Option<Vec<u32>>> = Vec::new();
        let mut i: usize = 0;
        while i < positions.len()
            invariant
                i <= positions@.len(),
                own@ == positions@.take(i as int),
                collected@.len() == i,
                forall|k: int| 0 <= k < i ==> (#[trigger] collected@[k]) is None,
            decreases positions@.len() - i,
        {
            own.push(positions[i]);
            collected.push(None);
            assert(own@ =~= positions@.take(i + 1));
            i += 1;
        }
        assert(positions@.take(positions@.len() as int) =~= positions@);
        BoundaryLogits { positions: own, collected }
    }

    /// Whether the logits of token `i` are wanted.
    pub fn wants(&self, i: usize) -> (yes: bool)
        ensures
            yes == self.positions@.contains(i),
    {
        let mut k: usize = 0;
        while k < self.positions.len()
            invariant
                k <= self.positions@.len(),
                forall|j: int| 0 <= j < k ==> #[trigger] self.positions@[j] != i,
            decreases self.positions@.len() - k,
        {
            if self.positions[k] == i {
                assert(self.positions@[k as int] == i);
                return true;
            }
            k += 1;
        }
        false
    }

    /// Takes the logits of token `i`.
    pub fn collect(&mut self, i: usize, logits: &Vec<u32>)
        requires
            old(self).wf(),
        ensures
            final(self).wf(),
            final(self).positions@ == old(self).positions@,
            forall|k: int|
                0 <= k < old(self).positions@.len() ==> #[trigger] final(self).at(k) == (if old(
                    self,
                ).positions@[k] == i {
                    Some(logits@)
                } else {
                    old(self).at(k)
                }),
    {
        let ghost start = *self;
        let mut k: usize = 0;
        while k < self.positions.len()
            invariant
                k <= self.positions@.len(),
                self.wf(),
                start.wf(),
                self.positions@ == start.positions@,
                forall|j: int|
                    0 <= j < k ==> #[trigger] self.at(j) == (if start.positions@[j] == i {
                        Some(logits@)
                    } else {
                        start.at(j)
                    }),
                forall|j: int|
                    k <= j < start.positions@.len() ==> #[trigger] self.collected@[j]
                        == start.collected@[j],
            decreases self.positions@.len() - k,
        {
            let ghost before = *self;
            if self.positions[k] == i {
                let copy = crate::delta_state::copy_bits(logits);
                self.collected.set(k, Some(copy));
            }
            assert forall|j: int| 0 <= j < k implies #[trigger] self.at(j) == before.at(j) by {}
            k += 1;
        }
    }

    /// The logits in the order of the positions, empty where there are none.
    pub fn finish(&self) -> (all: Vec<Vec<u32>>)
        requires
            self.wf(),
        ensures
            all@.len() == self.positions@.len(),
            forall|k: int|
                0 <= k < all@.len() ==> (#[trigger] all@[k])@ == (match self.at(k) {
                    Some(v) => v,
                    None => Seq::empty(),
                }),
    {
        let mut all: Vec<Vec<u32>> = Vec::new();
        let mut i: usize = 0;
        while i < self.collected.len()
            invariant
                i <= self.collected@.len(),
                self.wf(),
                all@.len() == i,
                forall|k: int|
                    0 <= k < i ==> (#[trigger] all@[k])@ == (match self.at(k) {
                        Some(v) => v,
                        None => Seq::empty(),
                    }),
            decreases self.collected@.len() - i,
        {
            match &self.collected[i] {
                Some(v) => {
                    all.push(crate::delta_state::copy_bits(v));
                },
                None => {
                    all.push(Vec::new());
                },
            }
            i += 1;
        }
        all
    }
}

/// Feeding a prompt to an attention layer in two pieces leaves the same rows as in one,
/// where each piece is longer than one token and no write is refused.
pub proof fn law_prompt_rows_join(
    stream: StreamModel,
    first: Seq<u64>,
    second: Seq<u64>,
    window: nat,
    limit: nat,
)
    requires
        first.len() > 1,
        second.len() > 1,
        stream.capacity is None ==> stream.rows.len() == 0,
        appended(stream, first, window, limit) is Ok,
        appended(
            appended(stream, first, window, limit)->Ok_0.0,
            second,
            window,
            limit,
        ) is Ok,
        appended(stream, first + second, window, limit) is Ok,
    ensures
        appended(
            appended(stream, first, window, limit)->Ok_0.0,
            second,
            window,
            limit,
        )->Ok_0.0.rows == appended(stream, first + second, window, limit)->Ok_0.0.rows,
{
    let once = appended(stream, first, window, limit)->Ok_0.0;
    let twice = appended(once, second, window, limit)->Ok_0.0;
    let whole = appended(stream, first + second, window, limit)->Ok_0.0;
    assert(once.rows =~= stream.rows + first);
    assert(twice.rows =~= (stream.rows + first) + second);
    assert(whole.rows =~= stream.rows + (first + second));
    assert(twice.rows =~= whole.rows);
}

/// Scratch memory is released behind every fourth layer, and device memory at every 256th
/// token but the first.
pub proof fn law_memory_is_released_in_turn(i: int)
    requires
        0 <= i,
    ensures
        (i + 1) % SYNC_EVERY as int == 0 <==> i % 4 == 3,
        i % FLUSH_EVERY as int == 0 <==> i % 256 == 0,
{
}

/// A pass with planned positions is checked: each axis has a position for every token, and
/// there is an attention layer to use them.
pub proof fn law_planned_passes_are_checked(
    model: ModelWeights,
    plan: PlanModel,
    seq_len: nat,
    i: int,
)
    ensures
        mrope_failure(model, plan, seq_len) is None ==> plan.time.len() == seq_len
            && plan.height.len() == seq_len && plan.width.len() == seq_len,
        plan.time.len() == seq_len && plan.height.len() == seq_len && plan.width.len() == seq_len
            && 0 <= i < model.blocks@.len() && model.blocks@[i] is Attention ==> mrope_failure(
            model,
            plan,
            seq_len,
        ) is None,
        (forall|k: int| 0 <= k < model.blocks@.len() ==> (#[trigger] model.blocks@[k]) is DeltaNet)
            ==> mrope_failure(model, plan, seq_len) is Some,
{
    if 0 <= i < model.blocks@.len() && model.blocks@[i] is Attention {
        assert(!(model.blocks@[i] is DeltaNet));
    }
}

/// A decode batch has one token for each of its rows, with a cache position, a rotary
/// position and a slot.
pub proof fn law_decode_batches_have_one_of_each(
    b: usize,
    seq_len: usize,
    cache_positions: nat,
    rope_positions: nat,
    slots: nat,
)
    ensures
        decode_dims_agree(b, seq_len, cache_positions, rope_positions, slots) <==> seq_len == 1
            && cache_positions == b && rope_positions == b && slots == b,
{
}

/// A pass through an attention layer leaves every slot as it is, and a pass through a
/// recurrent layer too.
pub proof fn law_passes_leave_slots_alone(
    after: HybridLayerType,
    before: HybridLayerType,
    input: BlockInput,
    action: BlockAction,
    s: int,
)
    requires
        block_forwarded(after, before, input, action),
        0 <= s < DECODE_BATCH_CAPACITY,
    ensures
        crate::model_laws::same_slot(after, before, s),
{
}

/// A decode step leaves the stream as it is.
pub proof fn law_decode_steps_leave_the_stream_alone(
    done: Result<BatchAction, String>,
    after: HybridLayerType,
    before: HybridLayerType,
    plan: DecodePlan,
    input: BatchInput,
)
    requires
        batch_outcome(done, after, before, plan, input),
    ensures
        crate::model_laws::same_stream(after, before),
{
}

} // verus!
