//! Sizes and launch shapes of the device kernels, and the layout of the device buffers
//! that hold one DeltaNet state per slot.
use crate::delta_state::{zero_bits, zeros, DeltaShape};
use crate::model_dims::ModelDims;
use crate::text::{decimal, push_decimal};
use vstd::prelude::*;

verus! {

/// Threads of a block that works channel by channel.
pub const CHANNEL_BLOCK: u32 = 256;

/// Width of a head in the fused kernels.
pub const HEAD_V_DIM: usize = 128;

/// State rows per thread in the fused recurrent kernel.
pub const NSG: usize = 4;

/// Threads of a SIMD group.
pub const SIMD_WIDTH: usize = 32;

/// Sizes of a DeltaNet layer as the kernels take them. The two floats are held by
/// their bits.
#[derive(Debug, Clone, Copy, PartialEq, Eq, Structural)]
pub struct DeltaParams {
    pub n_k_heads: u32,
    pub n_v_heads: u32,
    pub head_k_dim: u32,
    pub head_v_dim: u32,
    pub key_dim: u32,
    pub value_dim: u32,
    pub channels: u32,
    pub conv_kernel: u32,
    pub q_scale_bits: u32,
    pub rms_norm_eps_bits: u32,
    pub heads_per_kv: u32,
    /// Slots that are active.
    pub batch_size: u32,
}

/// Whether the sizes of a model fit the kernels' parameters.
pub open spec fn params_fit(dims: ModelDims) -> bool {
    &&& dims.sound()
    &&& dims.n_k_heads > 0
    &&& dims.n_k_heads <= u32::MAX
    &&& dims.n_v_heads <= u32::MAX
    &&& dims.state_size <= u32::MAX
    &&& dims.inner_size <= u32::MAX
    &&& dims.conv_kernel <= u32::MAX
    &&& dims.conv_channels() <= u32::MAX
}

impl DeltaParams {
    /// The parameters of a model's DeltaNet layers.
    pub fn of_model(dims: &ModelDims, q_scale_bits: u32, batch_size: u32) -> (params: Self)
        requires
            params_fit(*dims),
        ensures
            params.n_k_heads == dims.n_k_heads,
            params.n_v_heads == dims.n_v_heads,
            params.head_k_dim == dims.state_size,
            params.head_v_dim == dims.head_v_dim(),
            params.key_dim == dims.key_dim(),
            params.value_dim == dims.inner_size,
            params.channels == dims.conv_channels(),
            params.conv_kernel == dims.conv_kernel,
            params.q_scale_bits == q_scale_bits,
            params.rms_norm_eps_bits == dims.rms_norm_eps_bits,
            params.heads_per_kv == dims.n_v_heads / dims.n_k_heads,
            params.batch_size == batch_size,
    {
        proof {
            assert(dims.n_k_heads * dims.state_size >= 0) by (nonlinear_arith);
            vstd::arithmetic::div_mod::lemma_div_is_ordered_by_denominator(
                dims.inner_size as int,
                1,
                dims.n_v_heads as int,
            );
            vstd::arithmetic::div_mod::lemma_div_is_ordered_by_denominator(
                dims.n_v_heads as int,
                1,
                dims.n_k_heads as int,
            );
            vstd::arithmetic::div_mod::lemma_div_basics(dims.inner_size as int);
            vstd::arithmetic::div_mod::lemma_div_basics(dims.n_v_heads as int);
        }
        let key_dim: usize = dims.n_k_heads * dims.state_size;
        let channels: usize = key_dim * 2 + dims.inner_size;
        DeltaParams {
            n_k_heads: dims.n_k_heads as u32,
            n_v_heads: dims.n_v_heads as u32,
            head_k_dim: dims.state_size as u32,
            head_v_dim: (dims.inner_size / dims.n_v_heads) as u32,
            key_dim: key_dim as u32,
            value_dim: dims.inner_size as u32,
            channels: channels as u32,
            conv_kernel: dims.conv_kernel as u32,
            q_scale_bits,
            rms_norm_eps_bits: dims.rms_norm_eps_bits,
            heads_per_kv: (dims.n_v_heads / dims.n_k_heads) as u32,
            batch_size,
        }
    }

    /// Elements of one slot's state matrices.
    pub open spec fn ssm_len(&self) -> nat {
        (self.n_v_heads * self.head_v_dim * self.head_v_dim) as nat
    }

    /// Elements of one slot's convolution window.
    pub open spec fn conv_len(&self) -> nat {
        ((self.conv_kernel - 1) * self.channels) as nat
    }

    /// Elements of the state buffers for `slots` slots: state matrices, windows.
    pub fn state_elems(&self, slots: u32) -> (elems: (usize, usize))
        requires
            self.conv_kernel > 0,
            slots > 0,
            slots * self.ssm_len() <= usize::MAX,
            slots * self.conv_len() <= usize::MAX,
        ensures
            elems.0 == slots * self.ssm_len(),
            elems.1 == slots * self.conv_len(),
    {
        let n_v: usize = self.n_v_heads as usize;
        let hd: usize = self.head_v_dim as usize;
        let rows: usize = (self.conv_kernel - 1) as usize;
        let channels: usize = self.channels as usize;
        proof {
            lemma_factor_fits(slots as nat, self.ssm_len());
            lemma_factor_fits(slots as nat, self.conv_len());
            if hd == 0 {
                assert(n_v * hd == 0) by (nonlinear_arith)
                    requires
                        hd == 0,
                ;
            } else {
                assert(n_v * hd <= n_v * hd * hd) by (nonlinear_arith)
                    requires
                        hd >= 1,
                        n_v >= 0,
                ;
            }
            assert(slots * self.ssm_len() == self.ssm_len() * slots) by (nonlinear_arith);
            assert(slots * self.conv_len() == self.conv_len() * slots) by (nonlinear_arith);
        }
        (n_v * hd * hd * (slots as usize), rows * channels * (slots as usize))
    }
}

proof fn lemma_factor_fits(a: nat, b: nat)
    requires
        a >= 1,
    ensures
        b <= a * b,
{
    assert(b <= a * b) by (nonlinear_arith)
        requires
            a >= 1,
    ;
}

/// Elements of the scratch buffers.
#[derive(Debug, Clone, Copy, PartialEq, Eq, Structural)]
pub struct TempElems {
    pub qkv_conv: usize,
    /// Queries, and as many keys.
    pub q: usize,
    /// Values, and as many outputs of the step.
    pub v: usize,
    /// Write strengths, and as many decays.
    pub beta: usize,
    pub gated_output: usize,
}

/// Elements of the scratch buffers for `slots` slots.
pub fn temp_elems(params: &DeltaParams, slots: u32) -> (elems: TempElems)
    requires
        slots * params.channels <= usize::MAX,
        slots * (params.n_v_heads * params.head_k_dim) <= usize::MAX,
        slots * (params.n_v_heads * params.head_v_dim) <= usize::MAX,
        slots * params.n_v_heads <= usize::MAX,
        slots * params.value_dim <= usize::MAX,
        params.n_v_heads * params.head_k_dim <= usize::MAX,
        params.n_v_heads * params.head_v_dim <= usize::MAX,
    ensures
        elems.qkv_conv == slots * params.channels,
        elems.q == slots * (params.n_v_heads * params.head_k_dim),
        elems.v == slots * (params.n_v_heads * params.head_v_dim),
        elems.beta == slots * params.n_v_heads,
        elems.gated_output == slots * params.value_dim,
{
    let b: usize = slots as usize;
    let n_v: usize = params.n_v_heads as usize;
    TempElems {
        qkv_conv: b * (params.channels as usize),
        q: b * (n_v * (params.head_k_dim as usize)),
        v: b * (n_v * (params.head_v_dim as usize)),
        beta: b * n_v,
        gated_output: b * (params.value_dim as usize),
    }
}

/// A launch: how many blocks along each axis, how many threads per block, and bytes
/// of shared memory.
#[derive(Debug, Clone, Copy, PartialEq, Eq)]
pub struct Launch {
    pub grid: (u32, u32),
    pub block: u32,
    pub shared_bytes: u32,
}

/// Blocks that cover `channels` channels.
pub open spec fn channel_blocks(channels: u32) -> nat {
    (channels as nat + CHANNEL_BLOCK as nat - 1) as nat / CHANNEL_BLOCK as nat
}

/// Counts the blocks that cover `channels` channels.
pub fn count_channel_blocks(channels: u32) -> (n: u32)
    ensures
        n == channel_blocks(channels),
{
    let whole: u32 = channels / CHANNEL_BLOCK;
    if channels % CHANNEL_BLOCK == 0 {
        whole
    } else {
        whole + 1
    }
}

/// Every channel has a thread, and no block is without one.
pub proof fn law_channel_blocks_cover(channels: u32)
    ensures
        channel_blocks(channels) * CHANNEL_BLOCK >= channels,
        channels > 0 ==> (channel_blocks(channels) - 1) * CHANNEL_BLOCK < channels,
{
}

/// The four launches of a step over a batch: convolution, normalisation, recurrence,
/// output gate. The second axis is the slot.
pub open spec fn step_shape(params: DeltaParams) -> Seq<Launch> {
    seq![
        Launch {
            grid: (channel_blocks(params.channels) as u32, params.batch_size),
            block: CHANNEL_BLOCK,
            shared_bytes: 0,
        },
        Launch {
            grid: (params.n_v_heads, params.batch_size),
            block: params.head_k_dim,
            shared_bytes: 0,
        },
        Launch {
            grid: (params.n_v_heads, params.batch_size),
            block: params.head_v_dim,
            shared_bytes: 0,
        },
        Launch {
            grid: (params.n_v_heads, params.batch_size),
            block: params.head_v_dim,
            shared_bytes: 0,
        },
    ]
}

/// Lists the launches of a step over a batch.
pub fn step_launches(params: &DeltaParams) -> (launches: Vec<Launch>)
    ensures
        launches@ == step_shape(*params),
{
    let b: u32 = params.batch_size;
    let mut launches: Vec<Launch> = Vec::new();
    launches.push(
        Launch {
            grid: (count_channel_blocks(params.channels), b),
            block: CHANNEL_BLOCK,
            shared_bytes: 0,
        },
    );
    launches.push(Launch { grid: (params.n_v_heads, b), block: params.head_k_dim, shared_bytes: 0 });
    launches.push(Launch { grid: (params.n_v_heads, b), block: params.head_v_dim, shared_bytes: 0 });
    launches.push(Launch { grid: (params.n_v_heads, b), block: params.head_v_dim, shared_bytes: 0 });
    launches
}

/// A dispatch of Metal thread groups: their number along two axes, and the size of
/// one along two axes.
#[derive(Debug, Clone, Copy, PartialEq, Eq)]
pub struct Dispatch {
    pub groups: (usize, usize),
    pub threads: (usize, usize),
}

/// Threads of a group that works channel by channel.
pub open spec fn channel_threads(channels: usize) -> usize {
    if channels < 256 {
        channels
    } else {
        256
    }
}

/// Threads of a group that works channel by channel.
pub fn count_channel_threads(channels: usize) -> (n: usize)
    ensures
        n == channel_threads(channels),
{
    if channels < 256 {
        channels
    } else {
        256
    }
}

/// The three dispatches of a Metal step behind the convolution, which runs `channels`
/// by `b` single threads in groups of `channel_threads(channels)`.
pub open spec fn metal_step_shape(params: DeltaParams, b: usize) -> Seq<Dispatch> {
    seq![
        Dispatch {
            groups: (params.n_v_heads as usize, b),
            threads: (1, params.head_k_dim as usize),
        },
        Dispatch {
            groups: (params.n_v_heads as usize, b),
            threads: (1, params.head_v_dim as usize),
        },
        Dispatch {
            groups: (params.n_v_heads as usize, b),
            threads: (1, params.head_v_dim as usize),
        },
    ]
}

/// Lists the dispatches of a Metal step.
pub fn metal_step_dispatches(params: &DeltaParams, b: usize) -> (list: Vec<Dispatch>)
    ensures
        list@ == metal_step_shape(*params, b),
{
    let n_v: usize = params.n_v_heads as usize;
    let mut list: Vec<Dispatch> = Vec::new();
    list.push(Dispatch { groups: (n_v, b), threads: (1, params.head_k_dim as usize) });
    list.push(Dispatch { groups: (n_v, b), threads: (1, params.head_v_dim as usize) });
    list.push(Dispatch { groups: (n_v, b), threads: (1, params.head_v_dim as usize) });
    list
}

/// Elements of the fused kernels' buffers over a prompt.
#[derive(Debug, Clone, Copy, PartialEq, Eq, Structural)]
pub struct FusedElems {
    pub qkv_conv: usize,
    /// Queries, and as many keys, values, outputs of the step and gated outputs.
    pub values: usize,
    /// Write strengths, and as many decays.
    pub beta: usize,
}

/// Elements of the fused kernels' buffers over a prompt of `n_tokens` tokens.
pub fn fused_elems(params: &DeltaParams, n_tokens: usize) -> (elems: FusedElems)
    requires
        n_tokens * params.channels <= usize::MAX,
        n_tokens * params.value_dim <= usize::MAX,
        n_tokens * params.n_v_heads <= usize::MAX,
    ensures
        elems.qkv_conv == n_tokens * params.channels,
        elems.values == n_tokens * params.value_dim,
        elems.beta == n_tokens * params.n_v_heads,
{
    FusedElems {
        qkv_conv: n_tokens * (params.channels as usize),
        values: n_tokens * (params.value_dim as usize),
        beta: n_tokens * (params.n_v_heads as usize),
    }
}

/// The dispatches of the fused kernels over a prompt, behind the convolution:
/// normalisation, recurrence, output gate.
pub fn fused_dispatches(n_tokens: usize, n_v_heads: usize) -> (list: Result<Vec<Dispatch>, String>)
    ensures
        match list {
            Ok(l) => n_tokens > 0 && l@ == seq![
                Dispatch { groups: (n_v_heads, n_tokens), threads: (1, HEAD_V_DIM) },
                Dispatch {
                    groups: ((HEAD_V_DIM / NSG) as usize, n_v_heads),
                    threads: (SIMD_WIDTH, NSG),
                },
                Dispatch { groups: (n_v_heads, n_tokens), threads: (1, HEAD_V_DIM) },
            ],
            Err(msg) => n_tokens == 0 && msg@ == "dispatch_gdn_fused: n_tokens == 0"@,
        },
{
    if n_tokens == 0 {
        return Err("dispatch_gdn_fused: n_tokens == 0".to_owned());
    }
    let mut list: Vec<Dispatch> = Vec::new();
    list.push(Dispatch { groups: (n_v_heads, n_tokens), threads: (1, HEAD_V_DIM) });
    list.push(
        Dispatch { groups: (HEAD_V_DIM / NSG, n_v_heads), threads: (SIMD_WIDTH, NSG) },
    );
    list.push(Dispatch { groups: (n_v_heads, n_tokens), threads: (1, HEAD_V_DIM) });
    Ok(list)
}

/// The message for projections of another batch size.
pub open spec fn batch_text(on_metal: bool, qkv: nat, z: nat, beta: nat, alpha: nat, b: nat) -> Seq<char> {
    "dispatch_delta_rule_batched: input batch mismatch: qkv="@ + decimal(qkv) + " z="@ + decimal(z)
        + " beta="@ + decimal(beta) + " alpha="@ + decimal(alpha) + (if on_metal {
        " vs params.batch_size="@
    } else {
        " vs batch_size="@
    }) + decimal(b)
}

/// Checks that all projections are of the active batch.
pub fn check_batch(on_metal: bool, qkv: usize, z: usize, beta: usize, alpha: usize, b: usize) -> (checked:
    Result<(), String>)
    ensures
        match checked {
            Ok(()) => qkv == b && z == b && beta == b && alpha == b,
            Err(msg) => !(qkv == b && z == b && beta == b && alpha == b) && msg@ == batch_text(
                on_metal,
                qkv as nat,
                z as nat,
                beta as nat,
                alpha as nat,
                b as nat,
            ),
        },
{
    if qkv != b || z != b || beta != b || alpha != b {
        let mut msg = "dispatch_delta_rule_batched: input batch mismatch: qkv=".to_owned();
        push_decimal(&mut msg, qkv as u64);
        msg.append(" z=");
        push_decimal(&mut msg, z as u64);
        msg.append(" beta=");
        push_decimal(&mut msg, beta as u64);
        msg.append(" alpha=");
        push_decimal(&mut msg, alpha as u64);
        if on_metal {
            msg.append(" vs params.batch_size=");
        } else {
            msg.append(" vs batch_size=");
        }
        push_decimal(&mut msg, b as u64);
        return Err(msg);
    }
    Ok(())
}

/// The slot numbers that lie on the device.
#[derive(Debug)]
pub struct SlotIdCache {
    pub ids: Option<Vec<u32>>,
}

impl SlotIdCache {
    /// The numbers on the device, where there are some.
    pub open spec fn held(&self) -> Option<Seq<u32>> {
        match self.ids {
            Some(ids) => Some(ids@),
            None => None,
        }
    }

    /// Nothing on the device yet.
    pub fn new() -> (cache: Self)
        ensures
            cache.held() is None,
    {
        SlotIdCache { ids: None }
    }

    /// Makes the device hold these slot numbers. They are copied only where it holds
    /// others or none.
    pub fn refresh(&mut self, slot_ids: &[u32]) -> (copy: bool)
        ensures
            copy == (old(self).held() != Some(slot_ids@)),
            final(self).held() == Some(slot_ids@),
    {
        let same = match &self.ids {
            Some(ids) => same_ids(ids, slot_ids),
            None => false,
        };
        if same {
            return false;
        }
        let mut ids: Vec<u32> = Vec::new();
        let mut i: usize = 0;
        while i < slot_ids.len()
            invariant
                i <= slot_ids@.len(),
                ids@ == slot_ids@.take(i as int),
            decreases slot_ids@.len() - i,
        {
            ids.push(slot_ids[i]);
            assert(ids@ =~= slot_ids@.take(i + 1));
            i += 1;
        }
        assert(slot_ids@.take(slot_ids@.len() as int) =~= slot_ids@);
        self.ids = Some(ids);
        true
    }
}

/// Compares slot numbers.
pub fn same_ids(a: &Vec<u32>, b: &[u32]) -> (same: bool)
    ensures
        same == (a@ == b@),
{
    let n: usize = a.len();
    if n != b.len() {
        return false;
    }
    let mut i: usize = 0;
    while i < n
        invariant
            i <= n,
            n == a@.len(),
            n == b@.len(),
            forall|k: int| 0 <= k < i ==> #[trigger] a@[k] == b@[k],
        decreases n - i,
    {
        if a[i] != b[i] {
            return false;
        }
        i += 1;
    }
    assert(a@ =~= b@);
    true
}

/// The pieces that flash decoding splits the keys into: about a thousand keys each,
/// between 8 and 64.
pub open spec fn key_splits(kv_len: u32) -> nat {
    let n = (kv_len as nat + 1023) / 1024;
    if n < 8 {
        8
    } else if n > 64 {
        64
    } else {
        n
    }
}

/// Counts the pieces that flash decoding splits the keys into.
pub fn count_key_splits(kv_len: u32) -> (n: u32)
    ensures
        n == key_splits(kv_len),
        8 <= n <= 64,
{
    let whole: u32 = kv_len / 1024;
    let n: u32 = if kv_len % 1024 == 0 {
        whole
    } else {
        whole + 1
    };
    if n < 8 {
        8
    } else if n > 64 {
        64
    } else {
        n
    }
}

/// Elements of flash decoding's partial results: per head and piece, four groups of a
/// maximum, a sum and a row.
pub fn partial_elems(n_head: usize, splits: u32, head_dim: usize) -> (n: usize)
    requires
        head_dim + 2 <= usize::MAX,
        n_head * splits * 4 * (2 + head_dim) <= usize::MAX,
    ensures
        n == n_head * splits * 4 * (2 + head_dim),
{
    proof {
        assert(n_head * splits >= 0) by (nonlinear_arith)
            requires
                n_head >= 0,
                splits >= 0,
        ;
        assert(n_head * splits * 4 <= n_head * splits * 4 * (2 + head_dim)) by (nonlinear_arith)
            requires
                n_head * splits >= 0,
                head_dim >= 0,
        ;
    }
    n_head * (splits as usize) * 4 * (2 + head_dim)
}

/// The launch of the expert selection: a block per token, with a float and a byte of
/// shared memory per expert.
pub fn topk_launch(n_tokens: u32, n_experts: u32) -> (launch: Launch)
    requires
        n_experts * 5 <= u32::MAX,
    ensures
        launch == (Launch {
            grid: (n_tokens, 1),
            block: 256,
            shared_bytes: (n_experts * 5) as u32,
        }),
{
    Launch { grid: (n_tokens, 1), block: 256, shared_bytes: n_experts * 4 + n_experts }
}

/// Device buffers that hold one DeltaNet state per slot, slot by slot.
#[derive(Debug)]
pub struct BatchedBuffers {
    pub ssm_state: Vec<u32>,
    pub conv_state: Vec<u32>,
    pub capacity_b: u32,
}

/// The saved region of one slot.
#[derive(Debug)]
pub struct SlotCheckpoint {
    pub ssm_state: Vec<u32>,
    pub conv_state: Vec<u32>,
}

/// The region of slot `s` in a buffer of `len` elements per slot.
pub open spec fn region(buffer: Seq<u32>, s: int, len: int) -> Seq<u32> {
    buffer.subrange(s * len, s * len + len)
}

/// `n` copies of `data`, one after the other.
pub open spec fn copies(data: Seq<u32>, n: nat) -> Seq<u32>
    decreases n,
{
    if n == 0 {
        Seq::empty()
    } else {
        copies(data, (n - 1) as nat) + data
    }
}

/// Writes `data` from `at` on.
pub(crate) fn write_region(buffer: &mut Vec<u32>, at: usize, data: &Vec<u32>)
    requires
        at + data@.len() <= old(buffer)@.len(),
    ensures
        final(buffer)@ == old(buffer)@.take(at as int) + data@ + old(buffer)@.skip(
            at + data@.len(),
        ),
{
    let ghost start = buffer@;
    let len: usize = buffer.len();
    let mut i: usize = 0;
    while i < data.len()
        invariant
            i <= data@.len(),
            len == start.len(),
            at + data@.len() <= len,
            buffer@.len() == len,
            forall|k: int| 0 <= k < i ==> #[trigger] buffer@[at + k] == data@[k],
            forall|k: int|
                0 <= k < len && (k < at || k >= at + i) ==> #[trigger] buffer@[k] == start[k],
        decreases data@.len() - i,
    {
        buffer.set(at + i, data[i]);
        i += 1;
    }
    assert(buffer@ =~= start.take(at as int) + data@ + start.skip(at + data@.len())) by {
        let want = start.take(at as int) + data@ + start.skip(at + data@.len());
        assert(want.len() == buffer@.len());
        assert forall|k: int| 0 <= k < buffer@.len() implies buffer@[k] == want[k] by {
            if k < at {
                assert(want[k] == start[k]);
            } else if k < at + data@.len() {
                assert(buffer@[at + (k - at)] == data@[k - at]);
            } else {
                assert(want[k] == start[k]);
            }
        }
    }
}

/// Reads `len` elements from `at` on.
pub(crate) fn read_region(buffer: &Vec<u32>, at: usize, len: usize) -> (data: Vec<u32>)
    requires
        at + len <= buffer@.len(),
    ensures
        data@ == buffer@.subrange(at as int, at + len),
{
    let size: usize = buffer.len();
    let mut data: Vec<u32> = Vec::new();
    let mut i: usize = 0;
    while i < len
        invariant
            i <= len,
            size == buffer@.len(),
            at + len <= size,
            data@ == buffer@.subrange(at as int, at + i),
        decreases len - i,
    {
        data.push(buffer[at + i]);
        assert(data@ =~= buffer@.subrange(at as int, at + i + 1));
        i += 1;
    }
    data
}

fn repeat(data: &Vec<u32>, n: u32) -> (all: Vec<u32>)
    ensures
        all@ == copies(data@, n as nat),
{
    let mut all: Vec<u32> = Vec::new();
    let mut i: u32 = 0;
    while i < n
        invariant
            i <= n,
            all@ == copies(data@, i as nat),
        decreases n - i,
    {
        let ghost before = all@;
        let mut j: usize = 0;
        while j < data.len()
            invariant
                j <= data@.len(),
                all@ == before + data@.take(j as int),
            decreases data@.len() - j,
        {
            all.push(data[j]);
            assert(all@ =~= before + data@.take(j + 1));
            j += 1;
        }
        assert(data@.take(data@.len() as int) =~= data@);
        i += 1;
    }
    all
}

/// The message for a slot beyond the capacity.
pub open spec fn beyond_capacity(intro: Seq<char>, slot: nat, capacity: nat) -> Seq<char> {
    intro + decimal(slot) + " >= capacity "@ + decimal(capacity)
}

fn capacity_message(intro: &str, slot: usize, capacity: usize) -> (msg: String)
    ensures
        msg@ == beyond_capacity(intro@, slot as nat, capacity as nat),
{
    let mut msg = intro.to_owned();
    push_decimal(&mut msg, slot as u64);
    msg.append(" >= capacity ");
    push_decimal(&mut msg, capacity as u64);
    msg
}

/// Why a saved slot cannot be put back.
pub open spec fn put_back_failure(buffers: BatchedBuffers, slot: nat, saved: SlotCheckpoint) -> Option<
    Seq<char>,
> {
    if slot >= buffers.capacity_b {
        Some(beyond_capacity("restore slot "@, slot, buffers.capacity_b as nat))
    } else if saved.ssm_state@.len() != buffers.ssm_len() || saved.conv_state@.len()
        != buffers.conv_len() {
        Some("Metal slot checkpoint shape mismatch"@)
    } else {
        None
    }
}

proof fn lemma_region_inside(slot: nat, capacity: nat, len: nat)
    requires
        slot < capacity,
    ensures
        0 <= slot * len,
        slot * len + len <= capacity * len,
{
    assert(0 <= slot * len) by (nonlinear_arith);
    assert(slot * len + len <= capacity * len) by (nonlinear_arith)
        requires
            slot + 1 <= capacity,
    ;
}

impl BatchedBuffers {
    /// Elements of one slot's state matrices.
    pub open spec fn ssm_len(&self) -> nat {
        self.ssm_state@.len() / self.capacity_b as nat
    }

    /// Elements of one slot's convolution window.
    pub open spec fn conv_len(&self) -> nat {
        self.conv_state@.len() / self.capacity_b as nat
    }

    /// Both buffers consist of one region per slot.
    pub open spec fn wf(&self) -> bool {
        &&& self.capacity_b > 0
        &&& self.ssm_state@.len() == self.capacity_b * self.ssm_len()
        &&& self.conv_state@.len() == self.capacity_b * self.conv_len()
    }

    /// The state of slot `s`: its matrices and its window.
    pub open spec fn slot(&self, s: int) -> (Seq<u32>, Seq<u32>) {
        (
            region(self.ssm_state@, s, self.ssm_len() as int),
            region(self.conv_state@, s, self.conv_len() as int),
        )
    }

    /// Buffers of zeros.
    pub fn new(ssm_len: usize, conv_len: usize, capacity_b: u32) -> (buffers: Self)
        requires
            capacity_b > 0,
            capacity_b * ssm_len <= usize::MAX,
            capacity_b * conv_len <= usize::MAX,
        ensures
            buffers.wf(),
            buffers.capacity_b == capacity_b,
            buffers.ssm_len() == ssm_len,
            buffers.conv_len() == conv_len,
            buffers.ssm_state@ == zero_bits((capacity_b * ssm_len) as nat),
            buffers.conv_state@ == zero_bits((capacity_b * conv_len) as nat),
    {
        proof {
            vstd::arithmetic::div_mod::lemma_div_multiples_vanish(
                ssm_len as int,
                capacity_b as int,
            );
            vstd::arithmetic::div_mod::lemma_div_multiples_vanish(
                conv_len as int,
                capacity_b as int,
            );
        }
        BatchedBuffers {
            ssm_state: zeros((capacity_b as usize) * ssm_len),
            conv_state: zeros((capacity_b as usize) * conv_len),
            capacity_b,
        }
    }

    /// Saves the region of one slot.
    pub fn checkpoint_slot(&self, slot: usize) -> (saved: Result<SlotCheckpoint, String>)
        requires
            self.wf(),
        ensures
            match saved {
                Ok(c) => slot < self.capacity_b && c.ssm_state@ == self.slot(slot as int).0
                    && c.conv_state@ == self.slot(slot as int).1,
                Err(msg) => slot >= self.capacity_b && msg@ == beyond_capacity(
                    "checkpoint slot "@,
                    slot as nat,
                    self.capacity_b as nat,
                ),
            },
    {
        let capacity: usize = self.capacity_b as usize;
        if slot >= capacity {
            return Err(capacity_message("checkpoint slot ", slot, capacity));
        }
        let ssm_len: usize = self.ssm_state.len() / capacity;
        let conv_len: usize = self.conv_state.len() / capacity;
        proof {
            lemma_region_inside(slot as nat, capacity as nat, ssm_len as nat);
            lemma_region_inside(slot as nat, capacity as nat, conv_len as nat);
        }
        Ok(
            SlotCheckpoint {
                ssm_state: read_region(&self.ssm_state, slot * ssm_len, ssm_len),
                conv_state: read_region(&self.conv_state, slot * conv_len, conv_len),
            },
        )
    }

    /// Puts a saved region back.
    pub fn restore_slot_checkpoint(&mut self, slot: usize, saved: &SlotCheckpoint) -> (done: Result<
        (),
        String,
    >)
        requires
            old(self).wf(),
        ensures
            final(self).wf(),
            match done {
                Ok(()) => put_back_failure(*old(self), slot as nat, *saved) is None && slot_written(
                    *final(self),
                    *old(self),
                    slot as int,
                    saved.ssm_state@,
                    saved.conv_state@,
                ),
                Err(msg) => put_back_failure(*old(self), slot as nat, *saved) == Some(msg@)
                    && *final(self) == *old(self),
            },
    {
        let capacity: usize = self.capacity_b as usize;
        if slot >= capacity {
            return Err(capacity_message("restore slot ", slot, capacity));
        }
        let ssm_len: usize = self.ssm_state.len() / capacity;
        let conv_len: usize = self.conv_state.len() / capacity;
        if saved.ssm_state.len() != ssm_len || saved.conv_state.len() != conv_len {
            return Err("Metal slot checkpoint shape mismatch".to_owned());
        }
        self.restore_slot_state(slot, &saved.ssm_state, &saved.conv_state);
        Ok(())
    }

    /// Writes the state of one slot; the others keep theirs.
    pub fn restore_slot_state(&mut self, slot: usize, ssm: &Vec<u32>, conv: &Vec<u32>)
        requires
            old(self).wf(),
            slot < old(self).capacity_b,
            ssm@.len() == old(self).ssm_len(),
            conv@.len() == old(self).conv_len(),
        ensures
            final(self).wf(),
            slot_written(*final(self), *old(self), slot as int, ssm@, conv@),
    {
        let ssm_len: usize = ssm.len();
        let conv_len: usize = conv.len();
        let ghost before = *self;
        let ghost capacity = self.capacity_b as nat;
        let ssm_size: usize = self.ssm_state.len();
        let conv_size: usize = self.conv_state.len();
        proof {
            lemma_region_inside(slot as nat, capacity, ssm_len as nat);
            lemma_region_inside(slot as nat, capacity, conv_len as nat);
        }
        write_region(&mut self.ssm_state, slot * ssm_len, ssm);
        write_region(&mut self.conv_state, slot * conv_len, conv);
        proof {
            lemma_written_region(before.ssm_state@, slot as nat, capacity, ssm@);
            lemma_written_region(before.conv_state@, slot as nat, capacity, conv@);
        }
    }

    /// Gives every slot the same state.
    pub fn write_batched_state(&mut self, ssm: &Vec<u32>, conv: &Vec<u32>)
        requires
            old(self).wf(),
            ssm@.len() == old(self).ssm_len(),
            conv@.len() == old(self).conv_len(),
        ensures
            final(self).wf(),
            final(self).capacity_b == old(self).capacity_b,
            forall|s: int|
                0 <= s < old(self).capacity_b ==> #[trigger] final(self).slot(s) == (ssm@, conv@),
    {
        let n: u32 = self.capacity_b;
        self.ssm_state = repeat(ssm, n);
        self.conv_state = repeat(conv, n);
        proof {
            lemma_copies_len(ssm@, n as nat);
            lemma_copies_len(conv@, n as nat);
            vstd::arithmetic::div_mod::lemma_div_multiples_vanish(ssm@.len() as int, n as int);
            vstd::arithmetic::div_mod::lemma_div_multiples_vanish(conv@.len() as int, n as int);
            assert forall|s: int| 0 <= s < n implies #[trigger] self.slot(s) == (ssm@, conv@) by {
                lemma_copies_region(ssm@, n as nat, s as nat);
                lemma_copies_region(conv@, n as nat, s as nat);
            }
        }
    }

    /// Sets every slot to zeros.
    pub fn clear(&mut self)
        requires
            old(self).wf(),
        ensures
            final(self).wf(),
            final(self).capacity_b == old(self).capacity_b,
            final(self).ssm_state@ == zero_bits(old(self).ssm_state@.len()),
            final(self).conv_state@ == zero_bits(old(self).conv_state@.len()),
    {
        self.ssm_state = zeros(self.ssm_state.len());
        self.conv_state = zeros(self.conv_state.len());
    }
}

/// Whether slot `s` became the given state and the others are as they were.
pub open spec fn slot_written(
    after: BatchedBuffers,
    before: BatchedBuffers,
    s: int,
    ssm: Seq<u32>,
    conv: Seq<u32>,
) -> bool {
    &&& after.capacity_b == before.capacity_b
    &&& after.ssm_len() == before.ssm_len()
    &&& after.conv_len() == before.conv_len()
    &&& after.slot(s) == (ssm, conv)
    &&& forall|t: int|
        0 <= t < before.capacity_b && t != s ==> #[trigger] after.slot(t) == before.slot(t)
}

proof fn lemma_written_region(buffer: Seq<u32>, slot: nat, capacity: nat, data: Seq<u32>)
    requires
        slot < capacity,
        buffer.len() == capacity * data.len(),
    ensures
        ({
            let len = data.len() as int;
            let after = buffer.take(slot * len) + data + buffer.skip(slot * len + len);
            &&& after.len() == buffer.len()
            &&& region(after, slot as int, len) == data
            &&& forall|t: int|
                0 <= t < capacity && t != slot ==> #[trigger] region(after, t, len) == region(
                    buffer,
                    t,
                    len,
                )
        }),
{
    let len = data.len() as int;
    lemma_region_inside(slot, capacity, data.len());
    let after = buffer.take(slot * len) + data + buffer.skip(slot * len + len);
    assert(region(after, slot as int, len) =~= data);
    assert forall|t: int| 0 <= t < capacity && t != slot implies #[trigger] region(after, t, len)
        == region(buffer, t, len) by {
        lemma_region_inside(t as nat, capacity, data.len());
        if t < slot {
            assert(t * len + len <= slot * len) by (nonlinear_arith)
                requires
                    t + 1 <= slot,
                    len >= 0,
            ;
        } else {
            assert(slot * len + len <= t * len) by (nonlinear_arith)
                requires
                    slot + 1 <= t,
                    len >= 0,
            ;
        }
        assert(region(after, t, len) =~= region(buffer, t, len));
    }
}

proof fn lemma_copies_len(data: Seq<u32>, n: nat)
    ensures
        copies(data, n).len() == n * data.len(),
    decreases n,
{
    if n > 0 {
        lemma_copies_len(data, (n - 1) as nat);
        assert((n - 1) * data.len() + data.len() == n * data.len()) by (nonlinear_arith);
    } else {
        assert(0 * data.len() == 0) by (nonlinear_arith);
    }
}

proof fn lemma_copies_region(data: Seq<u32>, n: nat, s: nat)
    requires
        s < n,
    ensures
        region(copies(data, n), s as int, data.len() as int) == data,
    decreases n,
{
    let len = data.len() as int;
    lemma_copies_len(data, (n - 1) as nat);
    lemma_copies_len(data, n);
    lemma_region_inside(s, n, data.len());
    if s < n - 1 {
        lemma_copies_region(data, (n - 1) as nat, s);
        lemma_region_inside(s, (n - 1) as nat, data.len());
        assert(region(copies(data, n), s as int, len) =~= region(
            copies(data, (n - 1) as nat),
            s as int,
            len,
        ));
    } else {
        assert(region(copies(data, n), s as int, len) =~= data);
    }
}

/// Saving a slot and putting it back, whatever was written to it in between, brings its
/// state back and leaves the other slots alone.
pub proof fn law_device_checkpoint_round_trip(
    before: BatchedBuffers,
    later: BatchedBuffers,
    after: BatchedBuffers,
    s: int,
    saved: SlotCheckpoint,
)
    requires
        before.wf(),
        0 <= s < before.capacity_b,
        saved.ssm_state@ == before.slot(s).0,
        saved.conv_state@ == before.slot(s).1,
        later.capacity_b == before.capacity_b,
        later.ssm_len() == before.ssm_len(),
        later.conv_len() == before.conv_len(),
        slot_written(after, later, s, saved.ssm_state@, saved.conv_state@),
    ensures
        put_back_failure(later, s as nat, saved) is None,
        after.slot(s) == before.slot(s),
        forall|t: int|
            0 <= t < before.capacity_b && t != s ==> #[trigger] after.slot(t) == later.slot(t),
{
    lemma_region_inside(s as nat, before.capacity_b as nat, before.ssm_len());
    lemma_region_inside(s as nat, before.capacity_b as nat, before.conv_len());
}

/// Why a captured state does not fit a layer's buffers.
pub open spec fn restore_failure(params: DeltaParams, ssm: nat, conv: nat) -> Option<Seq<char>> {
    if ssm != params.ssm_len() {
        Some(
            "restore_metal_state: ssm size mismatch: snap="@ + decimal(ssm) + " vs logical="@
                + decimal(params.ssm_len()),
        )
    } else if conv != params.conv_len() {
        Some(
            "restore_metal_state: conv size mismatch: snap="@ + decimal(conv) + " vs logical="@
                + decimal(params.conv_len()),
        )
    } else {
        None
    }
}

/// Checks that a captured state fits a layer's buffers.
pub fn check_restore(params: &DeltaParams, ssm: usize, conv: usize) -> (checked: Result<(), String>)
    requires
        params.conv_kernel > 0,
        params.ssm_len() <= usize::MAX,
        params.conv_len() <= usize::MAX,
    ensures
        match checked {
            Ok(()) => restore_failure(*params, ssm as nat, conv as nat) is None,
            Err(msg) => restore_failure(*params, ssm as nat, conv as nat) == Some(msg@),
        },
{
    let (ssm_len, conv_len) = params.state_elems(1);
    if ssm != ssm_len {
        let mut msg = "restore_metal_state: ssm size mismatch: snap=".to_owned();
        push_decimal(&mut msg, ssm as u64);
        msg.append(" vs logical=");
        push_decimal(&mut msg, ssm_len as u64);
        return Err(msg);
    }
    if conv != conv_len {
        let mut msg = "restore_metal_state: conv size mismatch: snap=".to_owned();
        push_decimal(&mut msg, conv as u64);
        msg.append(" vs logical=");
        push_decimal(&mut msg, conv_len as u64);
        return Err(msg);
    }
    Ok(())
}

/// In a step every channel of every row has a thread of the convolution, and every element
/// of every head of every row one of each later launch.
pub proof fn law_steps_have_a_thread_per_element(params: DeltaParams, i: int)
    requires
        0 <= i < step_shape(params).len(),
    ensures
        step_shape(params).len() == 4,
        step_shape(params)[i].grid.1 == params.batch_size,
        step_shape(params)[i].shared_bytes == 0,
        256 * step_shape(params)[0].grid.0 >= params.channels,
        256 * step_shape(params)[0].grid.0 < params.channels + 256,
        step_shape(params)[0].block == 256,
        i > 0 ==> step_shape(params)[i].grid.0 == params.n_v_heads,
        step_shape(params)[1].block == params.head_k_dim,
        i > 1 ==> step_shape(params)[i].block == params.head_v_dim,
{
}

/// Behind the convolution, a step is cut up on both devices alike.
pub proof fn law_devices_cut_steps_alike(params: DeltaParams, i: int)
    requires
        0 <= i < 3,
    ensures
        metal_step_shape(params, params.batch_size as usize).len() + 1 == step_shape(params).len(),
        ({
            let own = metal_step_shape(params, params.batch_size as usize)[i];
            let other = step_shape(params)[i + 1];
            &&& own.groups.0 == other.grid.0
            &&& own.groups.1 == other.grid.1
            &&& own.threads.0 == 1
            &&& own.threads.1 == other.block
        }),
{
}

/// A group has a thread per channel, but never more than 256.
pub proof fn law_channel_threads_are_bounded(channels: usize)
    ensures
        channel_threads(channels) <= channels,
        channel_threads(channels) <= 256,
        channel_threads(channels) == channels || channel_threads(channels) == 256,
{
}

/// The tiles of the fused recurrence cover a head exactly, and a SIMD group reads a head's
/// row in four steps.
pub proof fn law_fused_tiles_cover_a_head()
    ensures
        (HEAD_V_DIM / NSG) * NSG == 128,
        HEAD_V_DIM == 4 * SIMD_WIDTH,
        SIMD_WIDTH * NSG == 128,
{
}

/// A slot on the device has the state of a layer of these sizes.
pub proof fn law_device_states_have_the_layers_sizes(params: DeltaParams)
    requires
        params.conv_kernel > 0,
    ensures
        ({
            let shape = DeltaShape {
                conv_kernel: params.conv_kernel as nat,
                channels: params.channels as nat,
                n_v_heads: params.n_v_heads as nat,
                head_v_dim: params.head_v_dim as nat,
            };
            params.ssm_len() == shape.ssm_len() && params.conv_len() == shape.conv_len()
        }),
{
    assert((params.conv_kernel - 1) * params.channels >= 0) by (nonlinear_arith)
        requires
            params.conv_kernel > 0,
    ;
    assert(params.n_v_heads * params.head_v_dim >= 0) by (nonlinear_arith);
    assert(params.n_v_heads * params.head_v_dim * params.head_v_dim >= 0) by (nonlinear_arith)
        requires
            params.n_v_heads * params.head_v_dim >= 0,
    ;
}

/// The keys are split into pieces of at most 1024, but into no fewer than eight pieces and
/// no more than 64. More keys never make fewer pieces.
pub proof fn law_key_splits(kv_len: u32, more: u32)
    requires
        kv_len <= more,
    ensures
        8 <= key_splits(kv_len) <= 64,
        kv_len <= 65536 ==> 1024 * key_splits(kv_len) >= kv_len,
        key_splits(kv_len) > 8 ==> 1024 * (key_splits(kv_len) - 1) < kv_len,
        kv_len > 64512 ==> key_splits(kv_len) == 64,
        key_splits(kv_len) <= key_splits(more),
{
}

/// A slot's region is its own stretch of the buffer, behind those of the slots before it.
pub proof fn law_regions_are_stretches(buffer: Seq<u32>, s: int, len: int, k: int)
    requires
        0 <= s,
        0 <= k < len,
        s * len + len <= buffer.len(),
    ensures
        region(buffer, s, len).len() == len,
        region(buffer, s, len)[k] == buffer[s * len + k],
{
    assert(0 <= s * len) by (nonlinear_arith)
        requires
            0 <= s,
            0 <= len,
    ;
}

/// Copies lie one behind the other, each of them whole.
pub proof fn law_copies_are_whole(data: Seq<u32>, n: nat, s: nat, k: int)
    requires
        s < n,
        0 <= k < data.len(),
    ensures
        copies(data, n).len() == n * data.len(),
        copies(data, n)[s * data.len() + k] == data[k],
{
    lemma_copies_len(data, n);
    lemma_copies_region(data, n, s);
    lemma_region_inside(s, n, data.len());
    assert(region(copies(data, n), s as int, data.len() as int)[k] == data[k]);
}

/// A checkpoint is put back exactly into a slot that there is, where it has the slot's
/// sizes. A state is restored exactly where it has the layer's.
pub proof fn law_states_of_the_right_size_are_put_back(
    buffers: BatchedBuffers,
    slot: nat,
    saved: SlotCheckpoint,
    params: DeltaParams,
    ssm: nat,
    conv: nat,
)
    ensures
        put_back_failure(buffers, slot, saved) is None <==> slot < buffers.capacity_b
            && saved.ssm_state@.len() == buffers.ssm_len() && saved.conv_state@.len()
            == buffers.conv_len(),
        restore_failure(params, ssm, conv) is None <==> ssm == params.ssm_len() && conv
            == params.conv_len(),
{
}

} // verus!
