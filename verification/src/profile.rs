//! The immutable model profile that is read and validated before any tensor is
//! loaded.
use crate::architecture::{
    declared_architecture, fingerprint_text, manifest, prefix_text, Architecture, ModelFingerprint,
};
use crate::gguf::{GgmlDType, GgufIndex, IndexModel, MetaModel, TensorModel};
use crate::table::{has_name, name_position};
use crate::text::{decimal, lemma_concat_assoc, lemma_concat_contains, push_decimal};
use crate::validation::{
    bool_at, concat2, float_bits_at, float_errors, has_dtype, md_bool_opt, md_float_opt,
    md_float_req, md_u32, md_u32_opt, missing_key_text, report_text, require_tensor, tensor_errors,
    u32_at, u32_errors, value_or, ValidationErrors,
};
use vstd::prelude::*;

verus! {

/// Immutable model profile. Floating-point values are held by the bits of the
/// 32-bit value in the file.
#[derive(Debug)]
pub struct ModelProfile {
    pub architecture: Architecture,
    pub block_count: usize,
    pub hidden_size: usize,
    pub context_length: usize,
    pub full_attention_interval: usize,
    pub feed_forward_length: usize,
    pub attention_head_count: usize,
    pub attention_head_count_kv: usize,
    pub attention_key_length: usize,
    pub attention_value_length: usize,
    pub rope_freq_base_bits: u32,
    pub rms_norm_eps_bits: u32,
    /// MoE-specific fields (`None` for dense).
    pub routed_experts: Option<usize>,
    pub experts_per_token: Option<usize>,
    pub routed_intermediate: Option<usize>,
    pub shared_intermediate: Option<usize>,
    pub shared_expert_count: Option<usize>,
    pub router_norm_topk: Option<bool>,
    /// Distinct formats of the tensors, each once.
    pub quant_set: Vec<GgmlDType>,
    pub fingerprint: ModelFingerprint,
}

/// The bits of 10000.0.
pub const DEFAULT_ROPE_FREQ_BASE_BITS: u32 = 0x461c_4000;

/// Whether a layer is a full-attention layer of the hybrid trunk.
pub open spec fn is_attention_layer(layer: nat, interval: nat) -> bool {
    (layer + 1) % interval == 0
}

/// `n`, but at least one.
pub open spec fn at_least_one(n: usize) -> usize {
    if n == 0 {
        1
    } else {
        n
    }
}

/// The tensors of a full-attention mixer.
pub open spec fn attention_errors(t: Map<Seq<char>, TensorModel>, p: Seq<char>) -> Seq<Seq<char>> {
    tensor_errors(t, p + ".attn_q.weight"@) + tensor_errors(t, p + ".attn_k.weight"@)
        + tensor_errors(t, p + ".attn_v.weight"@) + tensor_errors(t, p + ".attn_output.weight"@)
}

/// The tensors of a DeltaNet mixer.
pub open spec fn delta_errors(t: Map<Seq<char>, TensorModel>, p: Seq<char>) -> Seq<Seq<char>> {
    tensor_errors(t, p + ".attn_qkv.weight"@) + tensor_errors(t, p + ".attn_gate.weight"@)
        + tensor_errors(t, p + ".ssm_beta.weight"@) + tensor_errors(t, p + ".ssm_alpha.weight"@)
        + tensor_errors(t, p + ".ssm_out.weight"@) + tensor_errors(t, p + ".ssm_dt.bias"@)
        + tensor_errors(t, p + ".ssm_a"@) + tensor_errors(t, p + ".ssm_conv1d.weight"@)
        + tensor_errors(t, p + ".ssm_norm.weight"@)
}

/// The tensors of a feed-forward network.
pub open spec fn ffn_errors(
    t: Map<Seq<char>, TensorModel>,
    arch: Architecture,
    p: Seq<char>,
) -> Seq<Seq<char>> {
    match arch {
        Architecture::DenseQwen35 => tensor_errors(t, p + ".ffn_gate.weight"@) + tensor_errors(
            t,
            p + ".ffn_up.weight"@,
        ) + tensor_errors(t, p + ".ffn_down.weight"@),
        Architecture::Qwen35Moe => tensor_errors(t, p + ".ffn_gate_inp.weight"@) + tensor_errors(
            t,
            p + ".ffn_gate_exps.weight"@,
        ) + tensor_errors(t, p + ".ffn_up_exps.weight"@) + tensor_errors(
            t,
            p + ".ffn_down_exps.weight"@,
        ) + tensor_errors(t, p + ".ffn_gate_shexp.weight"@) + tensor_errors(
            t,
            p + ".ffn_up_shexp.weight"@,
        ) + tensor_errors(t, p + ".ffn_down_shexp.weight"@),
    }
}

/// What is missing of a block.
#[verifier::opaque]
pub open spec fn block_errors(
    t: Map<Seq<char>, TensorModel>,
    arch: Architecture,
    layer: nat,
    interval: nat,
) -> Seq<Seq<char>> {
    let p = "blk."@ + decimal(layer);
    tensor_errors(t, p + ".attn_norm.weight"@) + tensor_errors(t, p + ".post_attention_norm.weight"@)
        + (if is_attention_layer(layer, interval) {
        attention_errors(t, p)
    } else {
        delta_errors(t, p)
    }) + ffn_errors(t, arch, p)
}

/// What is missing of the first `n` blocks.
pub open spec fn blocks_errors(
    t: Map<Seq<char>, TensorModel>,
    arch: Architecture,
    n: nat,
    interval: nat,
) -> Seq<Seq<char>>
    decreases n,
{
    if n == 0 {
        seq![]
    } else {
        blocks_errors(t, arch, (n - 1) as nat, interval) + block_errors(
            t,
            arch,
            (n - 1) as nat,
            interval,
        )
    }
}

fn require_suffix(index: &GgufIndex, prefix: &str, suffix: &str, errs: &mut ValidationErrors)
    requires
        index.wf(),
    ensures
        final(errs)@ == old(errs)@ + tensor_errors(index@.tensor_infos, prefix@ + suffix@),
{
    let name = concat2(prefix, suffix);
    require_tensor(index, name.as_str(), errs);
}

/// Checks the tensors of one block. Tensor names carry no architecture prefix;
/// DeltaNet blocks interleave with full-attention blocks every
/// `full_attention_interval`.
pub fn require_block_tensors(
    index: &GgufIndex,
    arch: Architecture,
    layer: usize,
    full_attention_interval: usize,
    errs: &mut ValidationErrors,
)
    requires
        index.wf(),
        layer < usize::MAX,
    ensures
        final(errs)@ == old(errs)@ + block_errors(
            index@.tensor_infos,
            arch,
            layer as nat,
            at_least_one(full_attention_interval) as nat,
        ),
{
    reveal(block_errors);
    let ghost t = index@.tensor_infos;
    let mut prefix = "blk.".to_owned();
    push_decimal(&mut prefix, layer as u64);
    let p = prefix.as_str();
    require_suffix(index, p, ".attn_norm.weight", errs);
    require_suffix(index, p, ".post_attention_norm.weight", errs);
    let ghost norms = errs@;
    let interval: usize = if full_attention_interval == 0 {
        1
    } else {
        full_attention_interval
    };
    if (layer + 1) % interval == 0 {
        require_suffix(index, p, ".attn_q.weight", errs);
        require_suffix(index, p, ".attn_k.weight", errs);
        require_suffix(index, p, ".attn_v.weight", errs);
        require_suffix(index, p, ".attn_output.weight", errs);
        assert(errs@ == norms + attention_errors(t, p@)) by {
    broadcast use lemma_concat_assoc;
}
    } else {
        require_suffix(index, p, ".attn_qkv.weight", errs);
        require_suffix(index, p, ".attn_gate.weight", errs);
        require_suffix(index, p, ".ssm_beta.weight", errs);
        require_suffix(index, p, ".ssm_alpha.weight", errs);
        require_suffix(index, p, ".ssm_out.weight", errs);
        require_suffix(index, p, ".ssm_dt.bias", errs);
        require_suffix(index, p, ".ssm_a", errs);
        require_suffix(index, p, ".ssm_conv1d.weight", errs);
        require_suffix(index, p, ".ssm_norm.weight", errs);
        assert(errs@ == norms + delta_errors(t, p@)) by {
    broadcast use lemma_concat_assoc;
}
    }
    let ghost mixers = errs@;
    match arch {
        Architecture::DenseQwen35 => {
            require_suffix(index, p, ".ffn_gate.weight", errs);
            require_suffix(index, p, ".ffn_up.weight", errs);
            require_suffix(index, p, ".ffn_down.weight", errs);
            assert(errs@ == mixers + ffn_errors(t, arch, p@)) by {
    broadcast use lemma_concat_assoc;
}
        },
        Architecture::Qwen35Moe => {
            require_suffix(index, p, ".ffn_gate_inp.weight", errs);
            require_suffix(index, p, ".ffn_gate_exps.weight", errs);
            require_suffix(index, p, ".ffn_up_exps.weight", errs);
            require_suffix(index, p, ".ffn_down_exps.weight", errs);
            require_suffix(index, p, ".ffn_gate_shexp.weight", errs);
            require_suffix(index, p, ".ffn_up_shexp.weight", errs);
            require_suffix(index, p, ".ffn_down_shexp.weight", errs);
            assert(errs@ == mixers + ffn_errors(t, arch, p@)) by {
    broadcast use lemma_concat_assoc;
}
        },
    }
    assert(errs@ == old(errs)@ + block_errors(t, arch, layer as nat, interval as nat)) by {
    broadcast use lemma_concat_assoc;
}
}

/// The first of three keys that holds a 32-bit unsigned integer.
pub open spec fn first_u32(
    md: Map<Seq<char>, MetaModel>,
    a: Seq<char>,
    b: Seq<char>,
    c: Seq<char>,
) -> Option<usize> {
    if u32_at(md, a) is Some {
        u32_at(md, a)
    } else if u32_at(md, b) is Some {
        u32_at(md, b)
    } else {
        u32_at(md, c)
    }
}

fn find_u32(index: &GgufIndex, a: &str, b: &str, c: &str) -> (n: Option<usize>)
    requires
        index.wf(),
    ensures
        n == first_u32(index@.metadata, a@, b@, c@),
{
    match md_u32_opt(index, a) {
        Some(n) => Some(n),
        None => match md_u32_opt(index, b) {
            Some(n) => Some(n),
            None => md_u32_opt(index, c),
        },
    }
}

/// Width of the routed experts, under any of the names that file builders use.
pub open spec fn routed_width(md: Map<Seq<char>, MetaModel>) -> Option<usize> {
    first_u32(
        md,
        "qwen35moe.feed_forward_length.experts"@,
        "qwen35moe.intermediate_size_experts"@,
        "qwen35moe.expert_feed_forward_length"@,
    )
}

/// Width of the shared expert, under any of the names that file builders use.
pub open spec fn shared_width(md: Map<Seq<char>, MetaModel>) -> Option<usize> {
    first_u32(
        md,
        "qwen35moe.feed_forward_length.shared_expert"@,
        "qwen35moe.intermediate_size_shared_expert"@,
        "qwen35moe.expert_shared_feed_forward_length"@,
    )
}

/// What is wrong with the metadata that both architectures need.
pub open spec fn common_errors(arch: Architecture, md: Map<Seq<char>, MetaModel>) -> Seq<Seq<char>> {
    let p = prefix_text(arch);
    u32_errors(md, p + ".block_count"@) + u32_errors(md, p + ".embedding_length"@) + u32_errors(
        md,
        p + ".context_length"@,
    ) + (match arch {
        Architecture::DenseQwen35 => u32_errors(md, p + ".feed_forward_length"@),
        Architecture::Qwen35Moe => seq![],
    }) + u32_errors(md, p + ".attention.head_count"@) + u32_errors(
        md,
        p + ".attention.head_count_kv"@,
    ) + u32_errors(md, p + ".attention.key_length"@) + u32_errors(
        md,
        p + ".attention.value_length"@,
    ) + float_errors(md, p + ".attention.layer_norm_rms_epsilon"@) + u32_errors(
        md,
        p + ".full_attention_interval"@,
    )
}

/// What is wrong with the metadata of the experts.
pub open spec fn expert_errors(md: Map<Seq<char>, MetaModel>) -> Seq<Seq<char>> {
    let routed: Seq<Seq<char>> = if routed_width(md) is None {
        seq![missing_key_text("qwen35moe.expert_feed_forward_length"@)]
    } else {
        seq![]
    };
    let shared: Seq<Seq<char>> = if shared_width(md) is None {
        seq![missing_key_text("qwen35moe.expert_shared_feed_forward_length"@)]
    } else {
        seq![]
    };
    u32_errors(md, "qwen35moe.expert_count"@) + u32_errors(md, "qwen35moe.expert_used_count"@)
        + routed + shared
}

/// What is wrong with the counts of the mixture-of-experts model.
pub open spec fn expert_count_errors(
    experts: Option<usize>,
    used: Option<usize>,
) -> Seq<Seq<char>> {
    if experts is Some && used is Some {
        let total = experts->0;
        let picked = used->0;
        let too_many: Seq<Seq<char>> = if picked > total {
            seq![
                "expert_used_count ("@ + decimal(picked as nat) + ") > expert_count ("@ + decimal(
                    total as nat,
                ) + ")"@,
            ]
        } else {
            seq![]
        };
        let not_eight: Seq<Seq<char>> = if picked != 8 {
            seq![
                "expert_used_count="@ + decimal(picked as nat)
                    + ", expected 8 for Qwen3.6 35B-A3B"@,
            ]
        } else {
            seq![]
        };
        too_many + not_eight
    } else {
        seq![]
    }
}

/// What is wrong with the number of blocks.
pub open spec fn block_count_errors(arch: Architecture, blocks: usize) -> Seq<Seq<char>> {
    if arch == Architecture::Qwen35Moe && blocks != 40 {
        seq!["block_count="@ + decimal(blocks as nat) + ", expected 40 for Qwen3.6 35B-A3B"@]
    } else {
        seq![]
    }
}

/// What is missing of the blocks that are looked at: the first and the last,
/// and all of them in a mixture-of-experts model of up to 48 blocks.
pub open spec fn sampled_block_errors(
    t: Map<Seq<char>, TensorModel>,
    arch: Architecture,
    blocks: nat,
    interval: nat,
) -> Seq<Seq<char>> {
    if blocks == 0 {
        seq![]
    } else {
        let ends = block_errors(t, arch, 0, interval) + block_errors(
            t,
            arch,
            (blocks - 1) as nat,
            interval,
        );
        if arch == Architecture::Qwen35Moe && blocks <= 48 {
            ends + blocks_errors(t, arch, blocks, interval)
        } else {
            ends
        }
    }
}

/// The number of blocks that the metadata declares.
pub open spec fn declared_blocks(arch: Architecture, md: Map<Seq<char>, MetaModel>) -> usize {
    value_or(u32_at(md, prefix_text(arch) + ".block_count"@), 0)
}

/// The interval of full-attention layers that the metadata declares.
pub open spec fn declared_interval(arch: Architecture, md: Map<Seq<char>, MetaModel>) -> usize {
    value_or(u32_at(md, prefix_text(arch) + ".full_attention_interval"@), 4)
}

/// Every problem of an index of architecture `arch`, in the order in which they
/// are reported.
pub open spec fn trunk_errors(arch: Architecture, index: IndexModel) -> Seq<Seq<char>> {
    let md = index.metadata;
    let t = index.tensor_infos;
    let experts: Seq<Seq<char>> = match arch {
        Architecture::Qwen35Moe => expert_errors(md) + expert_count_errors(
            u32_at(md, "qwen35moe.expert_count"@),
            u32_at(md, "qwen35moe.expert_used_count"@),
        ),
        Architecture::DenseQwen35 => seq![],
    };
    common_errors(arch, md) + experts + block_count_errors(arch, declared_blocks(arch, md))
        + tensor_errors(t, "token_embd.weight"@) + tensor_errors(t, "output_norm.weight"@)
        + sampled_block_errors(
        t,
        arch,
        declared_blocks(arch, md) as nat,
        at_least_one(declared_interval(arch, md)) as nat,
    )
}

/// Every problem of an index. Without an architecture nothing else is looked at.
pub open spec fn profile_errors(index: IndexModel) -> Seq<Seq<char>> {
    match declared_architecture(index.metadata) {
        Err(msg) => seq![msg],
        Ok(arch) => trunk_errors(arch, index),
    }
}

/// Whether `quants` lists each format of `tensors` once, and no other.
pub open spec fn lists_formats(quants: Seq<GgmlDType>, tensors: Map<Seq<char>, TensorModel>) -> bool {
    &&& quants.no_duplicates()
    &&& forall|d: GgmlDType| #[trigger]
        quants.contains(d) <==> exists|name: Seq<char>| #[trigger]
            tensors.dom().contains(name) && tensors[name].ggml_dtype == d
}

/// Collects the formats of the tensors, each once.
pub fn collect_formats(index: &GgufIndex) -> (quants: Vec<GgmlDType>)
    requires
        index.wf(),
    ensures
        lists_formats(quants@, index@.tensor_infos),
{
    let mut quants: Vec<GgmlDType> = Vec::new();
    let ghost entries = index.tensor_infos.entries@;
    let mut i: usize = 0;
    while i < index.tensor_infos.entries.len()
        invariant
            entries == index.tensor_infos.entries@,
            i <= entries.len(),
            quants@.no_duplicates(),
            forall|k: int| 0 <= k < i ==> quants@.contains((#[trigger] entries[k]).1.ggml_dtype),
            forall|d: GgmlDType| #[trigger]
                quants@.contains(d) ==> exists|k: int|
                    0 <= k < i && (#[trigger] entries[k]).1.ggml_dtype == d,
        decreases entries.len() - i,
    {
        let dtype = index.tensor_infos.entries[i].1.ggml_dtype;
        if !has_dtype(quants.as_slice(), dtype) {
            let ghost before = quants@;
            quants.push(dtype);
            proof {
                assert(quants@[before.len() as int] == dtype);
                assert forall|d: GgmlDType| before.contains(d) implies #[trigger] quants@.contains(
                    d,
                ) by {
                    let k = choose|k: int| 0 <= k < before.len() && before[k] == d;
                    assert(quants@[k] == d);
                }
                assert forall|d: GgmlDType| #[trigger] quants@.contains(d) implies exists|k: int|
                    0 <= k < i + 1 && (#[trigger] entries[k]).1.ggml_dtype == d by {
                    if d == dtype {
                        assert(entries[i as int].1.ggml_dtype == d);
                    } else {
                        let j = choose|j: int| 0 <= j < quants@.len() && quants@[j] == d;
                        assert(before[j] == d);
                        assert(before.contains(d));
                    }
                }
            }
        }
        i += 1;
    }
    proof {
        let tensors = index@.tensor_infos;
        assert forall|d: GgmlDType| #[trigger]
            quants@.contains(d) <==> exists|name: Seq<char>| #[trigger]
                tensors.dom().contains(name) && tensors[name].ggml_dtype == d by {
            if quants@.contains(d) {
                let k = choose|k: int|
                    0 <= k < entries.len() && (#[trigger] entries[k]).1.ggml_dtype == d;
                crate::table::lemma_entry_position(entries, k);
                assert(tensors.dom().contains(entries[k].0@));
            }
            if exists|name: Seq<char>| #[trigger]
                tensors.dom().contains(name) && tensors[name].ggml_dtype == d {
                let name = choose|name: Seq<char>| #[trigger]
                    tensors.dom().contains(name) && tensors[name].ggml_dtype == d;
                assert(has_name(entries, name));
                let k = name_position(entries, name);
                assert(entries[k].1.ggml_dtype == d);
            }
        }
    }
    quants
}

/// What a profile of architecture `arch` holds for an index.
pub open spec fn describes(
    profile: ModelProfile,
    arch: Architecture,
    index: GgufIndex,
    file_size: u64,
) -> bool {
    let md = index@.metadata;
    let p = prefix_text(arch);
    let moe = arch == Architecture::Qwen35Moe;
    &&& profile.architecture == arch
    &&& profile.block_count == declared_blocks(arch, md)
    &&& profile.hidden_size == value_or(u32_at(md, p + ".embedding_length"@), 0)
    &&& profile.context_length == value_or(u32_at(md, p + ".context_length"@), 0)
    &&& profile.full_attention_interval == declared_interval(arch, md)
    &&& profile.feed_forward_length == value_or(u32_at(md, p + ".feed_forward_length"@), 0)
    &&& profile.attention_head_count == value_or(u32_at(md, p + ".attention.head_count"@), 0)
    &&& profile.attention_head_count_kv == value_or(u32_at(md, p + ".attention.head_count_kv"@), 0)
    &&& profile.attention_key_length == value_or(u32_at(md, p + ".attention.key_length"@), 0)
    &&& profile.attention_value_length == value_or(u32_at(md, p + ".attention.value_length"@), 0)
    &&& profile.rope_freq_base_bits == value_or(
        float_bits_at(md, p + ".rope.freq_base"@),
        DEFAULT_ROPE_FREQ_BASE_BITS,
    )
    &&& profile.rms_norm_eps_bits == value_or(
        float_bits_at(md, p + ".attention.layer_norm_rms_epsilon"@),
        0,
    )
    &&& profile.routed_experts == (if moe {
        u32_at(md, "qwen35moe.expert_count"@)
    } else {
        None
    })
    &&& profile.experts_per_token == (if moe {
        u32_at(md, "qwen35moe.expert_used_count"@)
    } else {
        None
    })
    &&& profile.routed_intermediate == (if moe {
        routed_width(md)
    } else {
        None
    })
    &&& profile.shared_intermediate == (if moe {
        shared_width(md)
    } else {
        None
    })
    &&& profile.shared_expert_count == (if moe {
        Some(value_or(u32_at(md, "qwen35moe.shared_expert_count"@), 1))
    } else {
        None
    })
    &&& profile.router_norm_topk == (if moe {
        bool_at(md, "qwen35moe.router_norm_topk"@)
    } else {
        None
    })
    &&& lists_formats(profile.quant_set@, index@.tensor_infos)
    &&& profile.fingerprint.hash@ == fingerprint_text(
        arch,
        md,
        manifest(index.tensor_infos.entries@),
        file_size,
    )
}

fn md_prefixed(index: &GgufIndex, prefix: &str, suffix: &str, errs: &mut ValidationErrors) -> (n:
    Option<usize>)
    requires
        index.wf(),
    ensures
        n == u32_at(index@.metadata, prefix@ + suffix@),
        final(errs)@ == old(errs)@ + u32_errors(index@.metadata, prefix@ + suffix@),
{
    let key = concat2(prefix, suffix);
    md_u32(index, key.as_str(), errs)
}

fn check_expert_counts(experts: Option<usize>, used: Option<usize>, errs: &mut ValidationErrors)
    ensures
        final(errs)@ == old(errs)@ + expert_count_errors(experts, used),
{
    if let (Some(total), Some(picked)) = (experts, used) {
        if picked > total {
            let mut msg = "expert_used_count (".to_owned();
            push_decimal(&mut msg, picked as u64);
            msg.append(") > expert_count (");
            push_decimal(&mut msg, total as u64);
            msg.append(")");
            errs.push(msg);
        }
        if picked != 8 {
            let mut msg = "expert_used_count=".to_owned();
            push_decimal(&mut msg, picked as u64);
            msg.append(", expected 8 for Qwen3.6 35B-A3B");
            errs.push(msg);
        }
    }
    assert(errs@ =~= old(errs)@ + expert_count_errors(experts, used));
}

fn check_block_count(arch: Architecture, blocks: usize, errs: &mut ValidationErrors)
    ensures
        final(errs)@ == old(errs)@ + block_count_errors(arch, blocks),
{
    if arch == Architecture::Qwen35Moe && blocks != 40 {
        let mut msg = "block_count=".to_owned();
        push_decimal(&mut msg, blocks as u64);
        msg.append(", expected 40 for Qwen3.6 35B-A3B");
        errs.push(msg);
    }
    assert(errs@ =~= old(errs)@ + block_count_errors(arch, blocks));
}

fn check_blocks(
    index: &GgufIndex,
    arch: Architecture,
    blocks: usize,
    interval: usize,
    errs: &mut ValidationErrors,
)
    requires
        index.wf(),
        interval > 0,
    ensures
        final(errs)@ == old(errs)@ + sampled_block_errors(
            index@.tensor_infos,
            arch,
            blocks as nat,
            interval as nat,
        ),
{
    let ghost t = index@.tensor_infos;
    let ghost start = errs@;
    if blocks > 0 {
        require_block_tensors(index, arch, 0, interval, errs);
        require_block_tensors(index, arch, blocks - 1, interval, errs);
        let ghost ends = errs@;
        if arch == Architecture::Qwen35Moe && blocks <= 48 {
            let mut layer: usize = 0;
            assert(ends + Seq::<Seq<char>>::empty() =~= ends);
            while layer < blocks
                invariant
                    index.wf(),
                    t == index@.tensor_infos,
                    interval > 0,
                    layer <= blocks <= 48,
                    errs@ == ends + blocks_errors(t, arch, layer as nat, interval as nat),
                decreases blocks - layer,
            {
                require_block_tensors(index, arch, layer, interval, errs);
                proof {
                    lemma_concat_assoc(
                        ends,
                        blocks_errors(t, arch, layer as nat, interval as nat),
                        block_errors(t, arch, layer as nat, interval as nat),
                    );
                }
                layer += 1;
            }
        }
    }
    assert(start + Seq::<Seq<char>>::empty() =~= start);
    assert(errs@ == start + sampled_block_errors(t, arch, blocks as nat, interval as nat)) by {
        broadcast use lemma_concat_assoc;
    }
}

impl ModelProfile {
    /// Reads and validates a GGUF index before any tensor is loaded: the profile,
    /// or one message that lists every problem.
    pub fn read_and_validate(index: &GgufIndex, file_size: u64) -> (profile: Result<Self, String>)
        requires
            index.wf(),
        ensures
            match profile {
                Ok(p) => profile_errors(index@).len() == 0 && declared_architecture(index@.metadata)
                    == Ok::<Architecture, Seq<char>>(p.architecture) && describes(
                    p,
                    p.architecture,
                    *index,
                    file_size,
                ),
                Err(msg) => profile_errors(index@).len() > 0 && msg@ == report_text(
                    profile_errors(index@),
                ),
            },
    {
        let mut errs = ValidationErrors::default();
        let ghost md = index@.metadata;
        let architecture = match Architecture::from_metadata(index) {
            Ok(a) => a,
            Err(msg) => {
                errs.push(msg);
                assert(errs@ =~= profile_errors(index@));
                match errs.into_result() {
                    Ok(()) => return Err(String::new()),
                    Err(report) => return Err(report),
                }
            },
        };
        Self::read_trunk(index, architecture, file_size, errs)
    }

    /// Reads and validates an index of a known architecture.
    fn read_trunk(
        index: &GgufIndex,
        architecture: Architecture,
        file_size: u64,
        errs: ValidationErrors,
    ) -> (profile: Result<Self, String>)
        requires
            index.wf(),
            errs@ == Seq::<Seq<char>>::empty(),
        ensures
            match profile {
                Ok(p) => trunk_errors(architecture, index@).len() == 0 && describes(
                    p,
                    architecture,
                    *index,
                    file_size,
                ),
                Err(msg) => trunk_errors(architecture, index@).len() > 0 && msg@ == report_text(
                    trunk_errors(architecture, index@),
                ),
            },
    {
        let mut errs = errs;
        let ghost md = index@.metadata;
        let ghost t = index@.tensor_infos;
        let prefix = architecture.metadata_prefix();
        let moe = architecture == Architecture::Qwen35Moe;
        assert forall|s: Seq<Seq<char>>| #[trigger] (Seq::<Seq<char>>::empty() + s) == s by {
            assert(Seq::<Seq<char>>::empty() + s =~= s);
        }
        let block_count = md_prefixed(index, prefix, ".block_count", &mut errs).unwrap_or(0);
        let hidden_size = md_prefixed(index, prefix, ".embedding_length", &mut errs).unwrap_or(0);
        let context_length = md_prefixed(index, prefix, ".context_length", &mut errs).unwrap_or(0);
        let feed_forward_length = if moe {
            let key = concat2(prefix, ".feed_forward_length");
            md_u32_opt(index, key.as_str()).unwrap_or(0)
        } else {
            md_prefixed(index, prefix, ".feed_forward_length", &mut errs).unwrap_or(0)
        };
        let attention_head_count = md_prefixed(
            index,
            prefix,
            ".attention.head_count",
            &mut errs,
        ).unwrap_or(0);
        let attention_head_count_kv = md_prefixed(
            index,
            prefix,
            ".attention.head_count_kv",
            &mut errs,
        ).unwrap_or(0);
        let attention_key_length = md_prefixed(
            index,
            prefix,
            ".attention.key_length",
            &mut errs,
        ).unwrap_or(0);
        let attention_value_length = md_prefixed(
            index,
            prefix,
            ".attention.value_length",
            &mut errs,
        ).unwrap_or(0);
        let eps_key = concat2(prefix, ".attention.layer_norm_rms_epsilon");
        let rms_norm_eps_bits = md_float_req(index, eps_key.as_str(), &mut errs).unwrap_or(0);
        let rope_key = concat2(prefix, ".rope.freq_base");
        let rope_freq_base_bits = md_float_opt(
            index,
            rope_key.as_str(),
            DEFAULT_ROPE_FREQ_BASE_BITS,
        );
        let full_attention_interval = md_prefixed(
            index,
            prefix,
            ".full_attention_interval",
            &mut errs,
        ).unwrap_or(4);
        assert(errs@ == common_errors(architecture, md)) by {
    broadcast use lemma_concat_assoc;
}

        let mut routed_experts: Option<usize> = None;
        let mut experts_per_token: Option<usize> = None;
        let mut routed_intermediate: Option<usize> = None;
        let mut shared_intermediate: Option<usize> = None;
        let mut shared_expert_count: Option<usize> = None;
        let mut router_norm_topk: Option<bool> = None;
        let ghost common = errs@;
        if moe {
            routed_experts = md_u32(index, "qwen35moe.expert_count", &mut errs);
            experts_per_token = md_u32(index, "qwen35moe.expert_used_count", &mut errs);
            routed_intermediate =
            find_u32(
                index,
                "qwen35moe.feed_forward_length.experts",
                "qwen35moe.intermediate_size_experts",
                "qwen35moe.expert_feed_forward_length",
            );
            if routed_intermediate.is_none() {
                errs.push_missing("qwen35moe.expert_feed_forward_length");
            }
            shared_intermediate =
            find_u32(
                index,
                "qwen35moe.feed_forward_length.shared_expert",
                "qwen35moe.intermediate_size_shared_expert",
                "qwen35moe.expert_shared_feed_forward_length",
            );
            if shared_intermediate.is_none() {
                errs.push_missing("qwen35moe.expert_shared_feed_forward_length");
            }
            assert(errs@ == common + expert_errors(md)) by {
    broadcast use lemma_concat_assoc;
}
            shared_expert_count =
            Some(md_u32_opt(index, "qwen35moe.shared_expert_count").unwrap_or(1));
            router_norm_topk = md_bool_opt(index, "qwen35moe.router_norm_topk");
        }
        check_expert_counts(routed_experts, experts_per_token, &mut errs);
        check_block_count(architecture, block_count, &mut errs);
        require_tensor(index, "token_embd.weight", &mut errs);
        require_tensor(index, "output_norm.weight", &mut errs);
        let interval: usize = if full_attention_interval == 0 {
            1
        } else {
            full_attention_interval
        };
        check_blocks(index, architecture, block_count, interval, &mut errs);
        assert(errs@ == trunk_errors(architecture, index@)) by {
    broadcast use lemma_concat_assoc;
}

        let quant_set = collect_formats(index);
        let fingerprint = ModelFingerprint::compute(architecture, index, file_size);
        match errs.into_result() {
            Err(report) => Err(report),
            Ok(()) => Ok(
                ModelProfile {
                    architecture,
                    block_count,
                    hidden_size,
                    context_length,
                    full_attention_interval,
                    feed_forward_length,
                    attention_head_count,
                    attention_head_count_kv,
                    attention_key_length,
                    attention_value_length,
                    rope_freq_base_bits,
                    rms_norm_eps_bits,
                    routed_experts,
                    experts_per_token,
                    routed_intermediate,
                    shared_intermediate,
                    shared_expert_count,
                    router_norm_topk,
                    quant_set,
                    fingerprint,
                },
            ),
        }
    }
}

/// The metadata keys without which a model of architecture `arch` is refused.
pub open spec fn is_required_key(arch: Architecture, key: Seq<char>) -> bool {
    let p = prefix_text(arch);
    ||| key == p + ".block_count"@
    ||| key == p + ".embedding_length"@
    ||| key == p + ".context_length"@
    ||| arch == Architecture::DenseQwen35 && key == p + ".feed_forward_length"@
    ||| key == p + ".attention.head_count"@
    ||| key == p + ".attention.head_count_kv"@
    ||| key == p + ".attention.key_length"@
    ||| key == p + ".attention.value_length"@
    ||| key == p + ".attention.layer_norm_rms_epsilon"@
    ||| key == p + ".full_attention_interval"@
    ||| arch == Architecture::Qwen35Moe && key == "qwen35moe.expert_count"@
    ||| arch == Architecture::Qwen35Moe && key == "qwen35moe.expert_used_count"@
}

/// Problems are reported all at once: whatever else is wrong with a model of a
/// known architecture, each required key that it lacks is among the errors.
pub proof fn law_every_missing_key_is_reported(
    index: IndexModel,
    arch: Architecture,
    key: Seq<char>,
)
    requires
        declared_architecture(index.metadata) == Ok::<Architecture, Seq<char>>(arch),
        is_required_key(arch, key),
        !index.metadata.dom().contains(key),
    ensures
        profile_errors(index).contains(missing_key_text(key)),
{
    broadcast use lemma_concat_contains;

    let msg = missing_key_text(key);
    assert(seq![msg][0] == msg);
    assert(seq![msg].contains(msg));
    assert(u32_errors(index.metadata, key).contains(msg));
    assert(float_errors(index.metadata, key).contains(msg));
    if key == "qwen35moe.expert_count"@ || key == "qwen35moe.expert_used_count"@ {
        if arch == Architecture::Qwen35Moe {
            assert(expert_errors(index.metadata).contains(msg));
        }
    }
    if !(arch == Architecture::Qwen35Moe && (key == "qwen35moe.expert_count"@ || key
        == "qwen35moe.expert_used_count"@)) {
        assert(common_errors(arch, index.metadata).contains(msg));
    }
    assert(trunk_errors(arch, index).contains(msg));
}

/// Each required tensor that a model of a known architecture lacks is among the
/// errors: the embeddings and the final norm.
pub proof fn law_every_missing_tensor_is_reported(
    index: IndexModel,
    arch: Architecture,
    name: Seq<char>,
)
    requires
        declared_architecture(index.metadata) == Ok::<Architecture, Seq<char>>(arch),
        name == "token_embd.weight"@ || name == "output_norm.weight"@,
        !index.tensor_infos.dom().contains(name),
    ensures
        profile_errors(index).contains(crate::validation::missing_tensor_text(name)),
{
    broadcast use lemma_concat_contains;

    let msg = crate::validation::missing_tensor_text(name);
    assert(seq![msg][0] == msg);
    assert(tensor_errors(index.tensor_infos, name).contains(msg));
    assert(trunk_errors(arch, index).contains(msg));
}

proof fn lemma_block_checked(
    t: Map<Seq<char>, TensorModel>,
    arch: Architecture,
    n: nat,
    interval: nat,
    layer: nat,
)
    requires
        layer < n,
        blocks_errors(t, arch, n, interval).len() == 0,
    ensures
        block_errors(t, arch, layer, interval).len() == 0,
    decreases n,
{
    if layer < n - 1 {
        lemma_block_checked(t, arch, (n - 1) as nat, interval, layer);
    }
}

/// An accepted mixture-of-experts model has 40 blocks, routes each token to 8 of
/// at least 8 experts, and lacks no tensor of any block.
pub proof fn law_accepted_moe_is_complete(index: IndexModel, layer: nat)
    requires
        declared_architecture(index.metadata) == Ok::<Architecture, Seq<char>>(
            Architecture::Qwen35Moe,
        ),
        profile_errors(index).len() == 0,
        layer < 40,
    ensures
        declared_blocks(Architecture::Qwen35Moe, index.metadata) == 40,
        u32_at(index.metadata, "qwen35moe.expert_used_count"@) == Some(8usize),
        u32_at(index.metadata, "qwen35moe.expert_count"@) is Some,
        u32_at(index.metadata, "qwen35moe.expert_count"@)->0 >= 8,
        block_errors(
            index.tensor_infos,
            Architecture::Qwen35Moe,
            layer,
            at_least_one(declared_interval(Architecture::Qwen35Moe, index.metadata)) as nat,
        ).len() == 0,
{
    let arch = Architecture::Qwen35Moe;
    let md = index.metadata;
    let interval = at_least_one(declared_interval(arch, md)) as nat;
    assert(block_count_errors(arch, declared_blocks(arch, md)).len() == 0);
    assert(expert_errors(md).len() == 0);
    assert(u32_errors(md, "qwen35moe.expert_count"@).len() == 0);
    assert(u32_errors(md, "qwen35moe.expert_used_count"@).len() == 0);
    assert(expert_count_errors(
        u32_at(md, "qwen35moe.expert_count"@),
        u32_at(md, "qwen35moe.expert_used_count"@),
    ).len() == 0);
    assert(sampled_block_errors(index.tensor_infos, arch, 40, interval).len() == 0);
    lemma_block_checked(index.tensor_infos, arch, 40, interval, layer);
}

} // verus!
