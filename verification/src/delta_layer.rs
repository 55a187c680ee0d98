//! Bookkeeping of the DeltaNet layers: which device computes a pass, how projections
//! are cut into the parts of one token, how key heads serve value heads, and which
//! slot's state each token of a decode batch moves on.
use crate::delta_state::{DeltaData, DeltaNetState};
use crate::kv_cache::DECODE_BATCH_CAPACITY;
use crate::model_state::DeltaNetLayer;
use crate::moe::text_view;
use crate::table::same_text;
use crate::text::{decimal, push_decimal};
use vstd::prelude::*;

verus! {

/// Who computes a pass.
#[derive(Debug, Clone, Copy, PartialEq, Eq, Structural)]
pub enum DeltaPath {
    /// Metal kernels.
    Metal,
    /// CUDA kernels.
    Cuda,
    /// The fused Metal kernels over a whole prompt.
    FusedMetal,
    /// The fused CUDA kernels over a whole prompt.
    FusedCuda,
    /// CUDA kernels, token by token.
    CudaPerToken,
    /// The processor.
    Cpu,
}

/// What a layer has on its devices.
#[derive(Debug, Clone, Copy, PartialEq, Eq, Structural)]
pub struct DeltaContexts {
    pub metal: bool,
    /// Whether the fused Metal kernels were built.
    pub metal_fused: bool,
    pub cuda: bool,
}

/// Whether a switch is exactly `1`.
pub open spec fn is_one(value: Option<Seq<char>>) -> bool {
    value == Some("1"@)
}

fn holds_one(value: Option<&str>) -> (yes: bool)
    ensures
        yes == is_one(text_view(value)),
{
    match value {
        Some(text) => same_text(text, "1"),
        None => false,
    }
}

/// Who computes the pass of a single token, or of a decode batch.
pub open spec fn token_path(contexts: DeltaContexts) -> DeltaPath {
    if contexts.metal {
        DeltaPath::Metal
    } else if contexts.cuda {
        DeltaPath::Cuda
    } else {
        DeltaPath::Cpu
    }
}

/// Chooses who computes the pass of a single token, or of a decode batch.
pub fn choose_token_path(contexts: DeltaContexts) -> (path: DeltaPath)
    ensures
        path == token_path(contexts),
{
    if contexts.metal {
        DeltaPath::Metal
    } else if contexts.cuda {
        DeltaPath::Cuda
    } else {
        DeltaPath::Cpu
    }
}

/// Who computes the pass of a prompt.
pub open spec fn prompt_path(
    contexts: DeltaContexts,
    metal_switch: Option<Seq<char>>,
    cuda_switch: Option<Seq<char>>,
) -> DeltaPath {
    if contexts.metal && contexts.metal_fused && !is_one(metal_switch) {
        DeltaPath::FusedMetal
    } else if contexts.cuda {
        if is_one(cuda_switch) {
            DeltaPath::CudaPerToken
        } else {
            DeltaPath::FusedCuda
        }
    } else {
        DeltaPath::Cpu
    }
}

/// Chooses who computes the pass of a prompt. The switches turn the fused kernels off.
pub fn choose_prompt_path(
    contexts: DeltaContexts,
    metal_switch: Option<&str>,
    cuda_switch: Option<&str>,
) -> (path: DeltaPath)
    ensures
        path == prompt_path(contexts, text_view(metal_switch), text_view(cuda_switch)),
{
    if contexts.metal && contexts.metal_fused && !holds_one(metal_switch) {
        return DeltaPath::FusedMetal;
    }
    if contexts.cuda {
        return if holds_one(cuda_switch) {
            DeltaPath::CudaPerToken
        } else {
            DeltaPath::FusedCuda
        };
    }
    DeltaPath::Cpu
}

/// Whether the processor's state has to be copied to the Metal device after a prompt:
/// the device computes the tokens that follow.
pub fn needs_metal_sync(contexts: DeltaContexts, path: DeltaPath) -> (yes: bool)
    ensures
        yes == (contexts.metal && path == DeltaPath::Cpu),
{
    contexts.metal && path == DeltaPath::Cpu
}

/// Sizes of a DeltaNet layer.
#[derive(Debug, Clone, Copy, PartialEq, Eq, Structural)]
pub struct DeltaDims {
    pub n_k_heads: usize,
    pub n_v_heads: usize,
    pub head_k_dim: usize,
    pub head_v_dim: usize,
    /// Width of all key heads.
    pub key_dim: usize,
    /// Width of all value heads.
    pub value_dim: usize,
}

impl DeltaDims {
    /// The widths are those of the heads.
    pub open spec fn wf(&self) -> bool {
        &&& self.n_k_heads > 0
        &&& self.key_dim == self.n_k_heads * self.head_k_dim
        &&& self.value_dim == self.n_v_heads * self.head_v_dim
        &&& self.n_v_heads * self.head_k_dim <= usize::MAX
        &&& 2 * self.key_dim + 2 * self.value_dim + 2 * self.n_v_heads <= usize::MAX
    }

    /// Width of queries, keys and values together.
    pub open spec fn qkv_len(&self) -> nat {
        (2 * self.key_dim + self.value_dim) as nat
    }
}

/// Where the parts of one token lie in the joined projections: queries, keys and
/// values, then output gates, then the write strengths, then the decay inputs.
#[derive(Debug, Clone, Copy, PartialEq, Eq, Structural)]
pub struct JoinedParts {
    pub z: usize,
    pub beta: usize,
    pub alpha: usize,
    pub end: usize,
}

/// Finds the parts of one token in the joined projections.
pub fn joined_parts(dims: &DeltaDims) -> (parts: JoinedParts)
    requires
        dims.wf(),
    ensures
        parts.z == dims.qkv_len(),
        parts.beta == parts.z + dims.value_dim,
        parts.alpha == parts.beta + dims.n_v_heads,
        parts.end == parts.alpha + dims.n_v_heads,
{
    let z: usize = dims.key_dim * 2 + dims.value_dim;
    let beta: usize = z + dims.value_dim;
    let alpha: usize = beta + dims.n_v_heads;
    JoinedParts { z, beta, alpha, end: alpha + dims.n_v_heads }
}

/// Takes the part of item `index` out of a run of parts of `width` elements each.
pub fn part_of(all: &Vec<u32>, index: usize, width: usize) -> (part: Vec<u32>)
    requires
        (index + 1) * width <= all@.len(),
    ensures
        part@ == all@.subrange(index * width, index * width + width),
{
    let len: usize = all.len();
    proof {
        assert(index * width + width == (index + 1) * width) by (nonlinear_arith);
        assert(0 <= index * width) by (nonlinear_arith)
            requires
                index >= 0,
                width >= 0,
        ;
    }
    let start: usize = index * width;
    let mut part: Vec<u32> = Vec::new();
    let mut i: usize = 0;
    while i < width
        invariant
            i <= width,
            start == index * width,
            len == all@.len(),
            start + width <= len,
            part@ == all@.subrange(start as int, start + i),
        decreases width - i,
    {
        part.push(all[start + i]);
        assert(part@ =~= all@.subrange(start as int, start + i + 1));
        i += 1;
    }
    part
}

/// The parts of consecutive items lie one after the other and do not overlap.
pub proof fn law_parts_are_disjoint(a: nat, b: nat, width: nat)
    requires
        a < b,
    ensures
        a * width + width <= b * width,
{
    assert(a * width + width <= b * width) by (nonlinear_arith)
        requires
            a + 1 <= b,
    ;
}

/// Element `i` of the key heads as the value heads see them: value head `h` reads key
/// head `h % n_k_heads`.
pub open spec fn tiled_element(heads: Seq<u32>, n_k: nat, width: nat, i: int) -> u32 {
    heads[((i / width as int) % n_k as int) * width + i % width as int]
}

/// Repeats the key heads so that every value head has one. Where there are as many of
/// both, nothing changes.
pub fn tile_heads(heads: &Vec<u32>, dims: &DeltaDims) -> (tiled: Vec<u32>)
    requires
        dims.wf(),
        heads@.len() == dims.key_dim,
    ensures
        tiled@.len() == dims.n_v_heads * dims.head_k_dim,
        forall|i: int|
            0 <= i < tiled@.len() ==> #[trigger] tiled@[i] == tiled_element(
                heads@,
                dims.n_k_heads as nat,
                dims.head_k_dim as nat,
                i,
            ),
{
    let width: usize = dims.head_k_dim;
    let n_k: usize = dims.n_k_heads;
    let mut tiled: Vec<u32> = Vec::new();
    let mut dst: usize = 0;
    while dst < dims.n_v_heads
        invariant
            dst <= dims.n_v_heads,
            dims.wf(),
            width == dims.head_k_dim,
            n_k == dims.n_k_heads,
            heads@.len() == dims.key_dim,
            tiled@.len() == dst * width,
            forall|i: int|
                0 <= i < tiled@.len() ==> #[trigger] tiled@[i] == tiled_element(
                    heads@,
                    n_k as nat,
                    width as nat,
                    i,
                ),
        decreases dims.n_v_heads - dst,
    {
        let src: usize = dst % n_k;
        proof {
            assert((src + 1) * width <= n_k * width) by (nonlinear_arith)
                requires
                    src + 1 <= n_k,
            ;
        }
        let head = part_of(heads, src, width);
        proof {
            assert(src * width + width == (src + 1) * width) by (nonlinear_arith);
            assert(0 <= src * width) by (nonlinear_arith)
                requires
                    src >= 0,
                    width >= 0,
            ;
        }
        let mut j: usize = 0;
        while j < width
            invariant
                j <= width,
                dst < dims.n_v_heads,
                n_k > 0,
                src == dst as int % n_k as int,
                head@ == heads@.subrange(src * width, src * width + width),
                0 <= src * width,
                src * width + width <= heads@.len(),
                tiled@.len() == dst * width + j,
                forall|i: int|
                    0 <= i < tiled@.len() ==> #[trigger] tiled@[i] == tiled_element(
                        heads@,
                        n_k as nat,
                        width as nat,
                        i,
                    ),
            decreases width - j,
        {
            proof {
                vstd::arithmetic::div_mod::lemma_fundamental_div_mod_converse(
                    dst * width + j,
                    width as int,
                    dst as int,
                    j as int,
                );
                assert(head@[j as int] == heads@[src * width + j]);
            }
            tiled.push(head[j]);
            j += 1;
        }
        proof {
            assert(dst * width + width == (dst + 1) * width) by (nonlinear_arith);
        }
        dst += 1;
    }
    tiled
}

/// With as many key heads as value heads, each value head reads its own.
pub proof fn law_equal_heads_are_kept(heads: Seq<u32>, n: nat, width: nat, i: int)
    requires
        n > 0,
        heads.len() == n * width,
        0 <= i < heads.len(),
    ensures
        tiled_element(heads, n, width, i) == heads[i],
{
    if width == 0 {
        assert(n * width == 0) by (nonlinear_arith)
            requires
                width == 0,
        ;
    } else {
        let q = i / width as int;
        vstd::arithmetic::div_mod::lemma_fundamental_div_mod(i, width as int);
        vstd::arithmetic::div_mod::lemma_mod_bound(i, width as int);
        vstd::arithmetic::div_mod::lemma_div_pos_is_pos(i, width as int);
        assert(q < n) by (nonlinear_arith)
            requires
                i == width * q + i % width as int,
                i % width as int >= 0,
                i < n * width,
                width > 0,
        ;
        vstd::arithmetic::div_mod::lemma_small_mod(q as nat, n);
        assert(q * width + i % width as int == i) by (nonlinear_arith)
            requires
                i == width * q + i % width as int,
        ;
    }
}

/// Why a decode batch cannot be computed on the processor: the first slot that does
/// not exist.
pub open spec fn slots_failure(slots: Seq<u32>, n: nat) -> Option<Seq<char>>
    decreases n,
{
    if n == 0 {
        None
    } else {
        let earlier = slots_failure(slots, (n - 1) as nat);
        if earlier is Some {
            earlier
        } else if slots[n - 1] >= DECODE_BATCH_CAPACITY {
            Some(
                "forward_decode_batch CPU: slot "@ + decimal(slots[n - 1] as nat)
                    + " >= cpu_state_batched len 4"@,
            )
        } else {
            None
        }
    }
}

/// What one token does to a state: the convolution window moves on by the token's
/// queries, keys and values, and the state matrices become what the step computed.
pub open spec fn stepped(data: DeltaData, channels: nat, qkv: Seq<u32>, ssm: Seq<u32>) -> DeltaData {
    DeltaData { conv: data.conv.skip(channels as int) + qkv, ssm }
}

/// Whether a token and its outcome have the sizes of a state.
pub open spec fn step_fits(state: DeltaNetState, qkv: Seq<u32>, ssm: Seq<u32>) -> bool {
    &&& state.conv_kernel >= 2
    &&& qkv.len() == state.channels
    &&& ssm.len() == state.shape().ssm_len()
}

/// Whether the tokens of a decode batch that are served have the sizes of the states: those
/// in front of the first slot that does not exist.
pub open spec fn tokens_fit(
    state: DeltaNetState,
    slots: Seq<u32>,
    qkv: Seq<Vec<u32>>,
    ssm: Seq<Vec<u32>>,
) -> bool {
    &&& qkv.len() == slots.len()
    &&& ssm.len() == slots.len()
    &&& forall|i: int|
        0 <= i < slots.len() && slots_failure(slots, (i + 1) as nat) is None ==> step_fits(
            state,
            (#[trigger] qkv[i])@,
            ssm[i]@,
        )
}

impl DeltaNetState {
    /// Moves the state on by one token.
    pub fn step(&mut self, qkv: &[u32], ssm: &Vec<u32>)
        requires
            old(self).wf(),
            step_fits(*old(self), qkv@, ssm@),
        ensures
            final(self).wf(),
            final(self).shape() == old(self).shape(),
            final(self)@ == stepped(old(self)@, old(self).channels as nat, qkv@, ssm@),
    {
        self.push_input(qkv);
        self.ssm_state = crate::delta_state::copy_bits(ssm);
    }
}

impl DeltaNetLayer {
    /// Moves the state of one slot on by one token.
    pub fn step_slot(&mut self, slot: u32, qkv: &[u32], ssm: &Vec<u32>)
        requires
            old(self).wf(),
            slot < DECODE_BATCH_CAPACITY,
            step_fits(old(self).cpu_state_batched@[slot as int], qkv@, ssm@),
        ensures
            final(self).wf(),
            final(self).state == old(self).state,
            final(self).on_metal == old(self).on_metal,
            final(self).cpu_state_batched@[slot as int]@ == stepped(
                old(self).cpu_state_batched@[slot as int]@,
                old(self).state.channels as nat,
                qkv@,
                ssm@,
            ),
            forall|t: int|
                0 <= t < DECODE_BATCH_CAPACITY && t != slot
                    ==> #[trigger] final(self).cpu_state_batched@[t] == old(
                    self,
                ).cpu_state_batched@[t],
    {
        self.cpu_state_batched[slot as usize].step(qkv, ssm);
    }

    /// Moves the states of a decode batch on, each slot by its own token. A slot that does
    /// not exist ends the batch; what came before it stays done.
    pub fn step_batch(
        &mut self,
        seq_len: usize,
        slots: &[u32],
        qkv: &Vec<Vec<u32>>,
        ssm: &Vec<Vec<u32>>,
    ) -> (done: Result<(), String>)
        requires
            old(self).wf(),
            seq_len == 1 ==> tokens_fit(old(self).state, slots@, qkv@, ssm@),
        ensures
            final(self).wf(),
            final(self).state == old(self).state,
            final(self).on_metal == old(self).on_metal,
            if seq_len != 1 {
                &&& *final(self) == *old(self)
                &&& done matches Err(msg)
                &&& msg@ == "forward_decode_batch: seq_len должен быть 1 (decode), got "@ + decimal(
                    seq_len as nat,
                )
            } else {
                &&& forall|s: int|
                    0 <= s < DECODE_BATCH_CAPACITY
                        ==> (#[trigger] final(self).cpu_state_batched@[s])@ == batch_stepped(
                        old(self).cpu_state_batched@[s]@,
                        old(self).state.channels as nat,
                        slots@,
                        qkv@,
                        ssm@,
                        s,
                        slots@.len(),
                    )
                &&& match done {
                    Ok(()) => slots_failure(slots@, slots@.len()) is None,
                    Err(msg) => slots_failure(slots@, slots@.len()) == Some(msg@),
                }
            },
    {
        if seq_len != 1 {
            let mut msg =
                "forward_decode_batch: seq_len должен быть 1 (decode), got ".to_owned();
            push_decimal(&mut msg, seq_len as u64);
            return Err(msg);
        }
        let ghost channels = self.state.channels as nat;
        let ghost start = self.cpu_state_batched@;
        let mut i: usize = 0;
        while i < slots.len()
            invariant
                i <= slots@.len(),
                seq_len == 1,
                self.wf(),
                self.state == old(self).state,
                self.on_metal == old(self).on_metal,
                channels == self.state.channels,
                start == old(self).cpu_state_batched@,
                tokens_fit(old(self).state, slots@, qkv@, ssm@),
                slots_failure(slots@, i as nat) is None,
                forall|s: int|
                    0 <= s < DECODE_BATCH_CAPACITY ==> (#[trigger] self.cpu_state_batched@[s])@
                        == batch_stepped(start[s]@, channels, slots@, qkv@, ssm@, s, i as nat),
            decreases slots@.len() - i,
        {
            let slot: u32 = slots[i];
            if slot as usize >= self.cpu_state_batched.len() {
                let mut msg = "forward_decode_batch CPU: slot ".to_owned();
                push_decimal(&mut msg, slot as u64);
                msg.append(" >= cpu_state_batched len 4");
                proof {
                    lemma_slots_failure_stays(slots@, (i + 1) as nat, slots@.len());
                    assert forall|s: int| 0 <= s < DECODE_BATCH_CAPACITY implies batch_stepped(
                        #[trigger] start[s]@,
                        channels,
                        slots@,
                        qkv@,
                        ssm@,
                        s,
                        slots@.len(),
                    ) == batch_stepped(start[s]@, channels, slots@, qkv@, ssm@, s, i as nat) by {
                        lemma_failure_ends_batch(
                            start[s]@,
                            channels,
                            slots@,
                            qkv@,
                            ssm@,
                            s,
                            (i + 1) as nat,
                            slots@.len(),
                        );
                    }
                }
                return Err(msg);
            }
            proof {
                assert(slots_failure(slots@, (i + 1) as nat) is None);
                assert(self.cpu_state_batched@[slot as int].shape() == self.state.shape());
                assert(step_fits(old(self).state, qkv@[i as int]@, ssm@[i as int]@));
            }
            self.step_slot(slot, qkv[i].as_slice(), &ssm[i]);
            i += 1;
        }
        Ok(())
    }
}

/// The state after the first `n` tokens of a prompt.
pub open spec fn prompt_stepped(
    data: DeltaData,
    channels: nat,
    qkv: Seq<Vec<u32>>,
    ssm: Seq<Vec<u32>>,
    n: nat,
) -> DeltaData
    decreases n,
{
    if n == 0 {
        data
    } else {
        stepped(
            prompt_stepped(data, channels, qkv, ssm, (n - 1) as nat),
            channels,
            qkv[n - 1]@,
            ssm[n - 1]@,
        )
    }
}

impl DeltaNetState {
    /// Moves the state on by the tokens of a prompt, one after the other.
    pub fn step_prompt(&mut self, qkv: &Vec<Vec<u32>>, ssm: &Vec<Vec<u32>>)
        requires
            old(self).wf(),
            ssm@.len() == qkv@.len(),
            forall|i: int|
                0 <= i < qkv@.len() ==> step_fits(*old(self), #[trigger] qkv@[i]@, ssm@[i]@),
        ensures
            final(self).wf(),
            final(self).shape() == old(self).shape(),
            final(self)@ == prompt_stepped(
                old(self)@,
                old(self).channels as nat,
                qkv@,
                ssm@,
                qkv@.len(),
            ),
    {
        let ghost start = *self;
        let mut i: usize = 0;
        while i < qkv.len()
            invariant
                i <= qkv@.len(),
                self.wf(),
                self.shape() == start.shape(),
                ssm@.len() == qkv@.len(),
                forall|k: int|
                    0 <= k < qkv@.len() ==> step_fits(start, #[trigger] qkv@[k]@, ssm@[k]@),
                self@ == prompt_stepped(start@, start.channels as nat, qkv@, ssm@, i as nat),
            decreases qkv@.len() - i,
        {
            assert(step_fits(start, qkv@[i as int]@, ssm@[i as int]@));
            self.step(qkv[i].as_slice(), &ssm[i]);
            i += 1;
        }
    }
}

/// A prompt in two pieces does to the state what it does in one.
pub proof fn law_prompt_pieces_compose(
    data: DeltaData,
    channels: nat,
    qkv: Seq<Vec<u32>>,
    ssm: Seq<Vec<u32>>,
    first: nat,
    n: nat,
)
    requires
        first <= n <= qkv.len(),
        ssm.len() == qkv.len(),
    ensures
        prompt_stepped(
            prompt_stepped(data, channels, qkv, ssm, first),
            channels,
            qkv.skip(first as int),
            ssm.skip(first as int),
            (n - first) as nat,
        ) == prompt_stepped(data, channels, qkv, ssm, n),
    decreases n,
{
    if first < n {
        law_prompt_pieces_compose(data, channels, qkv, ssm, first, (n - 1) as nat);
        let k = (n - first) as int;
        assert(qkv.skip(first as int)[k - 1] == qkv[n - 1]);
        assert(ssm.skip(first as int)[k - 1] == ssm[n - 1]);
    }
}

/// The first slot that does not exist is reported, however many tokens follow.
pub proof fn lemma_slots_failure_stays(slots: Seq<u32>, k: nat, n: nat)
    requires
        k <= n,
        slots_failure(slots, k) is Some,
    ensures
        slots_failure(slots, n) == slots_failure(slots, k),
    decreases n,
{
    if k < n {
        lemma_slots_failure_stays(slots, k, (n - 1) as nat);
    }
}

/// A slot that does not exist ends the batch: later tokens change nothing.
proof fn lemma_failure_ends_batch(
    data: DeltaData,
    channels: nat,
    slots: Seq<u32>,
    qkv: Seq<Vec<u32>>,
    ssm: Seq<Vec<u32>>,
    s: int,
    k: nat,
    n: nat,
)
    requires
        k <= n,
        slots_failure(slots, k) is Some,
    ensures
        batch_stepped(data, channels, slots, qkv, ssm, s, n) == batch_stepped(
            data,
            channels,
            slots,
            qkv,
            ssm,
            s,
            k,
        ),
    decreases n,
{
    if k < n {
        lemma_slots_failure_stays(slots, k, (n - 1) as nat);
        lemma_failure_ends_batch(data, channels, slots, qkv, ssm, s, k, (n - 1) as nat);
    }
}

/// The state of slot `s` after the first `n` tokens of a decode batch, or after those in
/// front of the first slot that does not exist.
pub open spec fn batch_stepped(
    data: DeltaData,
    channels: nat,
    slots: Seq<u32>,
    qkv: Seq<Vec<u32>>,
    ssm: Seq<Vec<u32>>,
    s: int,
    n: nat,
) -> DeltaData
    decreases n,
{
    if n == 0 {
        data
    } else {
        let before = batch_stepped(data, channels, slots, qkv, ssm, s, (n - 1) as nat);
        if slots_failure(slots, (n - 1) as nat) is None && slots[n - 1] == s {
            stepped(before, channels, qkv[n - 1]@, ssm[n - 1]@)
        } else {
            before
        }
    }
}

/// A slot that is not in the batch keeps its state.
pub proof fn law_absent_slot_keeps_state(
    data: DeltaData,
    channels: nat,
    slots: Seq<u32>,
    qkv: Seq<Vec<u32>>,
    ssm: Seq<Vec<u32>>,
    s: int,
    n: nat,
)
    requires
        n <= slots.len(),
        forall|i: int| 0 <= i < n ==> #[trigger] slots[i] != s,
    ensures
        batch_stepped(data, channels, slots, qkv, ssm, s, n) == data,
    decreases n,
{
    if n > 0 {
        law_absent_slot_keeps_state(data, channels, slots, qkv, ssm, s, (n - 1) as nat);
    }
}

/// A slot that is in the batch once, in front of any that does not exist, moves on exactly
/// as it would alone, wherever in the batch it stands and whatever else the batch holds.
pub proof fn law_batched_slot_matches_single(
    data: DeltaData,
    channels: nat,
    slots: Seq<u32>,
    qkv: Seq<Vec<u32>>,
    ssm: Seq<Vec<u32>>,
    s: int,
    at: nat,
    n: nat,
)
    requires
        at < n <= slots.len(),
        slots[at as int] == s,
        slots_failure(slots, at) is None,
        forall|i: int| 0 <= i < n && i != at ==> #[trigger] slots[i] != s,
    ensures
        batch_stepped(data, channels, slots, qkv, ssm, s, n) == stepped(
            data,
            channels,
            qkv[at as int]@,
            ssm[at as int]@,
        ),
    decreases n,
{
    if n == at + 1 {
        law_absent_slot_keeps_state(data, channels, slots, qkv, ssm, s, at);
    } else {
        law_batched_slot_matches_single(
            data,
            channels,
            slots,
            qkv,
            ssm,
            s,
            at,
            (n - 1) as nat,
        );
    }
}

/// One token moves the convolution window on by one row: the oldest row leaves, the token's
/// queries, keys and values come last, and the matrices are the token's.
pub proof fn law_a_token_moves_the_window(
    data: DeltaData,
    kernel: nat,
    channels: nat,
    qkv: Seq<u32>,
    ssm: Seq<u32>,
    row: int,
    c: int,
)
    requires
        kernel >= 2,
        data.conv.len() == (kernel - 1) * channels,
        qkv.len() == channels,
        0 <= row < kernel - 1,
        0 <= c < channels,
    ensures
        ({
            let next = stepped(data, channels, qkv, ssm);
            &&& next.conv.len() == data.conv.len()
            &&& row + 1 < kernel - 1 ==> next.conv[row * channels + c] == data.conv[(row + 1)
                * channels + c]
            &&& row + 1 == kernel - 1 ==> next.conv[row * channels + c] == qkv[c]
            &&& next.ssm == ssm
        }),
{
    let n = channels as int;
    assert((kernel - 1) * n == (kernel - 2) * n + n) by (nonlinear_arith);
    assert(0 <= (kernel - 2) * n) by (nonlinear_arith)
        requires
            kernel >= 2,
            n >= 0,
    ;
    assert((row + 1) * n == row * n + n) by (nonlinear_arith);
    assert(0 <= row * n) by (nonlinear_arith)
        requires
            row >= 0,
            n >= 0,
    ;
    if row + 1 < kernel - 1 {
        assert((row + 1) * n <= (kernel - 2) * n) by (nonlinear_arith)
            requires
                row + 1 <= kernel - 2,
                n >= 0,
        ;
    } else {
        assert(row * n == (kernel - 2) * n) by (nonlinear_arith)
            requires
                row == kernel - 2,
        ;
    }
}

/// All inputs of the first `n` tokens of a prompt, one after the other.
pub open spec fn joined_inputs(qkv: Seq<Vec<u32>>, n: nat) -> Seq<u32>
    decreases n,
{
    if n == 0 {
        Seq::empty()
    } else {
        joined_inputs(qkv, (n - 1) as nat) + qkv[n - 1]@
    }
}

/// Whatever the length of a prompt, the window behind it holds the last inputs that there
/// were, oldest first, and the matrices are those of its last token.
pub proof fn law_a_prompt_leaves_its_last_inputs(
    data: DeltaData,
    channels: nat,
    qkv: Seq<Vec<u32>>,
    ssm: Seq<Vec<u32>>,
    n: nat,
)
    requires
        n <= qkv.len(),
        ssm.len() == qkv.len(),
        channels <= data.conv.len(),
        forall|i: int| 0 <= i < qkv.len() ==> (#[trigger] qkv[i])@.len() == channels,
    ensures
        ({
            let after = prompt_stepped(data, channels, qkv, ssm, n);
            let all = data.conv + joined_inputs(qkv, n);
            &&& after.conv.len() == data.conv.len()
            &&& after.conv == all.skip(all.len() - data.conv.len())
            &&& n == 0 ==> after == data
            &&& n > 0 ==> after.ssm == ssm[n - 1]@
        }),
    decreases n,
{
    let all = data.conv + joined_inputs(qkv, n);
    if n == 0 {
        assert(all.skip(0) =~= data.conv);
    } else {
        law_a_prompt_leaves_its_last_inputs(data, channels, qkv, ssm, (n - 1) as nat);
        let before = prompt_stepped(data, channels, qkv, ssm, (n - 1) as nat);
        let seen = data.conv + joined_inputs(qkv, (n - 1) as nat);
        assert(all =~= seen + qkv[n - 1]@);
        assert(before.conv.skip(channels as int) + qkv[n - 1]@ =~= all.skip(
            all.len() - data.conv.len(),
        ));
    }
}

/// A slot's token moves its state on as the same token moves a stream's.
pub proof fn law_slots_step_like_a_stream(
    data: DeltaData,
    channels: nat,
    slots: Seq<u32>,
    qkv: Seq<Vec<u32>>,
    ssm: Seq<Vec<u32>>,
    s: int,
    at: nat,
)
    requires
        at < slots.len(),
        qkv.len() == slots.len(),
        ssm.len() == slots.len(),
        slots[at as int] == s,
        slots_failure(slots, slots.len()) is None,
        forall|i: int| 0 <= i < slots.len() && i != at ==> #[trigger] slots[i] != s,
    ensures
        batch_stepped(data, channels, slots, qkv, ssm, s, slots.len()) == prompt_stepped(
            data,
            channels,
            qkv.subrange(at as int, at as int + 1),
            ssm.subrange(at as int, at as int + 1),
            1,
        ),
{
    if slots_failure(slots, at) is Some {
        lemma_slots_failure_stays(slots, at, slots.len());
    }
    law_batched_slot_matches_single(data, channels, slots, qkv, ssm, s, at, slots.len());
    let one = qkv.subrange(at as int, at as int + 1);
    let own = ssm.subrange(at as int, at as int + 1);
    assert(one[0] == qkv[at as int]);
    assert(own[0] == ssm[at as int]);
    reveal_with_fuel(prompt_stepped, 2);
}

/// A batch is refused exactly where it names a slot that does not exist, and the refusal
/// names the first such slot.
pub proof fn law_missing_slots_are_refused(slots: Seq<u32>, n: nat)
    requires
        n <= slots.len(),
    ensures
        slots_failure(slots, n) is None <==> forall|i: int|
            0 <= i < n ==> (#[trigger] slots[i]) < 4,
        forall|i: int|
            0 <= i < n && (#[trigger] slots[i]) >= 4 && (forall|j: int|
                0 <= j < i ==> (#[trigger] slots[j]) < 4) ==> slots_failure(slots, n) == Some(
                "forward_decode_batch CPU: slot "@ + decimal(slots[i] as nat)
                    + " >= cpu_state_batched len 4"@,
            ),
    decreases n,
{
    if n > 0 {
        law_missing_slots_are_refused(slots, (n - 1) as nat);
        if slots[n - 1] >= 4 && (forall|j: int| 0 <= j < n - 1 ==> (#[trigger] slots[j]) < 4) {
            assert(slots_failure(slots, (n - 1) as nat) is None);
        }
    }
}

/// Value head `h` reads key head `h % n_k`, element by element.
pub proof fn law_value_heads_read_key_heads(heads: Seq<u32>, n_k: nat, width: nat, h: int, d: int)
    requires
        n_k > 0,
        0 <= h,
        0 <= d < width,
    ensures
        tiled_element(heads, n_k, width, h * width + d) == heads[(h % n_k as int) * width + d],
        tiled_element(heads, n_k, width, (h + n_k) * width + d) == tiled_element(
            heads,
            n_k,
            width,
            h * width + d,
        ),
{
    vstd::arithmetic::div_mod::lemma_fundamental_div_mod_converse(
        h * width + d,
        width as int,
        h,
        d,
    );
    vstd::arithmetic::div_mod::lemma_fundamental_div_mod_converse(
        (h + n_k) * width + d,
        width as int,
        h + n_k,
        d,
    );
    vstd::arithmetic::div_mod::lemma_mod_add_multiples_vanish(h, n_k as int);
    assert(n_k + h == h + n_k);
}

/// The joined projections of a token fall into four parts without gap: queries, keys and
/// values; output gates; write strengths; decay inputs.
pub proof fn law_joined_parts_fill_the_row(dims: DeltaDims, parts: JoinedParts)
    requires
        dims.wf(),
        parts.z == dims.qkv_len(),
        parts.beta == parts.z + dims.value_dim,
        parts.alpha == parts.beta + dims.n_v_heads,
        parts.end == parts.alpha + dims.n_v_heads,
    ensures
        parts.z == dims.key_dim + dims.key_dim + dims.value_dim,
        parts.end == dims.key_dim + dims.key_dim + 2 * dims.value_dim + 2 * dims.n_v_heads,
{
}

/// Metal comes before CUDA and both before the processor, for single tokens; for prompts
/// the fused kernels come first, unless their switch is exactly `1`.
pub proof fn law_devices_are_preferred(
    contexts: DeltaContexts,
    metal_switch: Option<Seq<char>>,
    cuda_switch: Option<Seq<char>>,
)
    ensures
        token_path(contexts) == DeltaPath::Metal <==> contexts.metal,
        token_path(contexts) == DeltaPath::Cuda <==> !contexts.metal && contexts.cuda,
        token_path(contexts) == DeltaPath::Cpu <==> !contexts.metal && !contexts.cuda,
        prompt_path(contexts, metal_switch, cuda_switch) == DeltaPath::FusedMetal <==> (
        contexts.metal && contexts.metal_fused && metal_switch != Some("1"@)),
        prompt_path(contexts, metal_switch, cuda_switch) == DeltaPath::FusedCuda <==> (
        contexts.cuda && cuda_switch != Some("1"@) && !(contexts.metal && contexts.metal_fused
            && metal_switch != Some("1"@))),
        prompt_path(contexts, metal_switch, cuda_switch) == DeltaPath::CudaPerToken <==> (
        contexts.cuda && cuda_switch == Some("1"@) && !(contexts.metal && contexts.metal_fused
            && metal_switch != Some("1"@))),
        prompt_path(contexts, metal_switch, cuda_switch) == DeltaPath::Cpu <==> !contexts.cuda && !(
        contexts.metal && contexts.metal_fused && metal_switch != Some("1"@)),
{
}

} // verus!
