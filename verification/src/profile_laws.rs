//! What an accepted file holds: its keys, its tensors and their shapes, for the trunk, the
//! vision tower and the drafting head.
use crate::architecture::{declared_architecture, prefix_text, Architecture};
use crate::gguf::{GgmlDType, IndexModel, KindModel, MetaModel, TensorModel};
use crate::head_load::{head_file_failure, head_prefix, head_suffixes};
use crate::loader::lemma_first_missing;
use crate::profile::{
    at_least_one, block_errors, blocks_errors, common_errors, declared_blocks, declared_interval,
    expert_count_errors, expert_errors, profile_errors, routed_width, sampled_block_errors,
    shared_width, trunk_errors,
};
use crate::text::decimal;
use crate::validation::u32_at;
use crate::vision_profile::{
    declared, down_formats, layer_matrix_errors, layer_vector_errors, matrix_formats,
    sensitive_formats, tensor_count_errors, vector_formats, vision_global_errors,
    vision_layers_errors, vision_metadata_errors, vision_outcome, VisionProfile,
};
use vstd::prelude::*;

verus! {

/// Whether a file has a tensor of this name behind a prefix.
pub open spec fn has(t: Map<Seq<char>, TensorModel>, p: Seq<char>, suffix: Seq<char>) -> bool {
    t.dom().contains(p + suffix)
}

/// Whether a file has the tensors of an attention mixer behind a prefix.
pub open spec fn has_attention(t: Map<Seq<char>, TensorModel>, p: Seq<char>) -> bool {
    &&& has(t, p, ".attn_q.weight"@)
    &&& has(t, p, ".attn_k.weight"@)
    &&& has(t, p, ".attn_v.weight"@)
    &&& has(t, p, ".attn_output.weight"@)
}

/// Whether a file has the tensors of a recurrent mixer behind a prefix.
pub open spec fn has_recurrence(t: Map<Seq<char>, TensorModel>, p: Seq<char>) -> bool {
    &&& has(t, p, ".attn_qkv.weight"@)
    &&& has(t, p, ".attn_gate.weight"@)
    &&& has(t, p, ".ssm_beta.weight"@)
    &&& has(t, p, ".ssm_alpha.weight"@)
    &&& has(t, p, ".ssm_out.weight"@)
    &&& has(t, p, ".ssm_dt.bias"@)
    &&& has(t, p, ".ssm_a"@)
    &&& has(t, p, ".ssm_conv1d.weight"@)
    &&& has(t, p, ".ssm_norm.weight"@)
}

/// Whether a file has the tensors of a dense feed-forward part behind a prefix.
pub open spec fn has_dense_ffn(t: Map<Seq<char>, TensorModel>, p: Seq<char>) -> bool {
    &&& has(t, p, ".ffn_gate.weight"@)
    &&& has(t, p, ".ffn_up.weight"@)
    &&& has(t, p, ".ffn_down.weight"@)
}

/// Whether a file has the tensors of a mixture of experts behind a prefix.
pub open spec fn has_experts(t: Map<Seq<char>, TensorModel>, p: Seq<char>) -> bool {
    &&& has(t, p, ".ffn_gate_inp.weight"@)
    &&& has(t, p, ".ffn_gate_exps.weight"@)
    &&& has(t, p, ".ffn_up_exps.weight"@)
    &&& has(t, p, ".ffn_down_exps.weight"@)
    &&& has(t, p, ".ffn_gate_shexp.weight"@)
    &&& has(t, p, ".ffn_up_shexp.weight"@)
    &&& has(t, p, ".ffn_down_shexp.weight"@)
}

/// A block passes exactly where it has its norms, the tensors of its mixer and those of its
/// feed-forward part.
pub proof fn law_blocks_pass_with_their_tensors(
    t: Map<Seq<char>, TensorModel>,
    arch: Architecture,
    layer: nat,
    interval: nat,
)
    ensures
        ({
            let p = "blk."@ + decimal(layer);
            block_errors(t, arch, layer, interval).len() == 0 <==> {
                &&& has(t, p, ".attn_norm.weight"@)
                &&& has(t, p, ".post_attention_norm.weight"@)
                &&& (layer + 1) % interval == 0 ==> has_attention(t, p)
                &&& (layer + 1) % interval != 0 ==> has_recurrence(t, p)
                &&& arch == Architecture::DenseQwen35 ==> has_dense_ffn(t, p)
                &&& arch == Architecture::Qwen35Moe ==> has_experts(t, p)
            }
        }),
{
    reveal(block_errors);
}

proof fn lemma_blocks_pass(t: Map<Seq<char>, TensorModel>, arch: Architecture, n: nat, interval: nat)
    requires
        forall|i: nat| i < n ==> #[trigger] block_errors(t, arch, i, interval).len() == 0,
    ensures
        blocks_errors(t, arch, n, interval).len() == 0,
    decreases n,
{
    if n > 0 {
        lemma_blocks_pass(t, arch, (n - 1) as nat, interval);
        assert(block_errors(t, arch, (n - 1) as nat, interval).len() == 0);
    }
}

/// Whether the metadata holds a 32-bit unsigned integer under a key.
pub open spec fn has_number(md: Map<Seq<char>, MetaModel>, key: Seq<char>) -> bool {
    md.dom().contains(key) && md[key].kind is U32
}

/// Whether the metadata holds the values that both architectures need.
pub open spec fn has_common_values(md: Map<Seq<char>, MetaModel>, p: Seq<char>) -> bool {
    &&& has_number(md, p + ".block_count"@)
    &&& has_number(md, p + ".embedding_length"@)
    &&& has_number(md, p + ".context_length"@)
    &&& has_number(md, p + ".attention.head_count"@)
    &&& has_number(md, p + ".attention.head_count_kv"@)
    &&& has_number(md, p + ".attention.key_length"@)
    &&& has_number(md, p + ".attention.value_length"@)
    &&& has_number(md, p + ".full_attention_interval"@)
    &&& md.dom().contains(p + ".attention.layer_norm_rms_epsilon"@)
    &&& md[p + ".attention.layer_norm_rms_epsilon"@].kind is F32Bits
}

/// A dense file is accepted exactly where it holds the values that it needs, the tensors
/// of the trunk's ends and those of its first and its last block.
pub proof fn law_dense_files_are_accepted(index: IndexModel)
    requires
        declared_architecture(index.metadata) == Ok::<Architecture, Seq<char>>(
            Architecture::DenseQwen35,
        ),
    ensures
        ({
            let md = index.metadata;
            let t = index.tensor_infos;
            let arch = Architecture::DenseQwen35;
            let n = declared_blocks(arch, md) as nat;
            let interval = at_least_one(declared_interval(arch, md)) as nat;
            profile_errors(index).len() == 0 <==> {
                &&& has_common_values(md, "qwen35"@)
                &&& has_number(md, "qwen35"@ + ".feed_forward_length"@)
                &&& t.dom().contains("token_embd.weight"@)
                &&& t.dom().contains("output_norm.weight"@)
                &&& n > 0 ==> block_errors(t, arch, 0, interval).len() == 0
                &&& n > 0 ==> block_errors(t, arch, (n - 1) as nat, interval).len() == 0
            }
        }),
{
    let md = index.metadata;
    let p = "qwen35"@;
    assert(trunk_errors(Architecture::DenseQwen35, index) == profile_errors(index));
    assert(has_common_values(md, p) && has_number(md, p + ".feed_forward_length"@)
        <==> common_errors(Architecture::DenseQwen35, md).len() == 0);
}

/// Whether a file names one of three keys with a number.
pub open spec fn names_one(
    md: Map<Seq<char>, MetaModel>,
    a: Seq<char>,
    b: Seq<char>,
    c: Seq<char>,
) -> bool {
    has_number(md, a) || has_number(md, b) || has_number(md, c)
}

/// A mixture-of-experts file is accepted where it holds the values that it needs, uses
/// eight of at least eight experts, has forty blocks, and has the tensors of the trunk's
/// ends and of every block.
pub proof fn law_complete_moe_files_are_accepted(index: IndexModel)
    requires
        declared_architecture(index.metadata) == Ok::<Architecture, Seq<char>>(
            Architecture::Qwen35Moe,
        ),
        has_common_values(index.metadata, "qwen35moe"@),
        declared_blocks(Architecture::Qwen35Moe, index.metadata) == 40,
        index.tensor_infos.dom().contains("token_embd.weight"@),
        index.tensor_infos.dom().contains("output_norm.weight"@),
        has_number(index.metadata, "qwen35moe.expert_count"@),
        index.metadata["qwen35moe.expert_count"@].kind->U32_0 >= 8,
        has_number(index.metadata, "qwen35moe.expert_used_count"@),
        index.metadata["qwen35moe.expert_used_count"@].kind->U32_0 == 8,
        names_one(
            index.metadata,
            "qwen35moe.feed_forward_length.experts"@,
            "qwen35moe.intermediate_size_experts"@,
            "qwen35moe.expert_feed_forward_length"@,
        ),
        names_one(
            index.metadata,
            "qwen35moe.feed_forward_length.shared_expert"@,
            "qwen35moe.intermediate_size_shared_expert"@,
            "qwen35moe.expert_shared_feed_forward_length"@,
        ),
        forall|i: nat|
            i < 40 ==> #[trigger] block_errors(
                index.tensor_infos,
                Architecture::Qwen35Moe,
                i,
                at_least_one(declared_interval(Architecture::Qwen35Moe, index.metadata)) as nat,
            ).len() == 0,
    ensures
        profile_errors(index).len() == 0,
{
    let md = index.metadata;
    let t = index.tensor_infos;
    let arch = Architecture::Qwen35Moe;
    let interval = at_least_one(declared_interval(arch, md)) as nat;
    lemma_blocks_pass(t, arch, 40, interval);
    assert(block_errors(t, arch, 0, interval).len() == 0);
    assert(block_errors(t, arch, 39, interval).len() == 0);
    assert(common_errors(arch, md).len() == 0);
    assert(expert_errors(md).len() == 0);
    assert(expert_count_errors(
        u32_at(md, "qwen35moe.expert_count"@),
        u32_at(md, "qwen35moe.expert_used_count"@),
    ).len() == 0);
    assert(sampled_block_errors(t, arch, 40, interval).len() == 0);
    assert(trunk_errors(arch, index).len() == 0);
}

/// Where the experts' width is named several times over, the first of its keys counts.
pub proof fn law_the_first_width_counts(md: Map<Seq<char>, MetaModel>, n: usize)
    requires
        n <= u32::MAX,
    ensures
        md.dom().contains("qwen35moe.feed_forward_length.experts"@)
            && md["qwen35moe.feed_forward_length.experts"@].kind == KindModel::U32(n as u32)
            ==> routed_width(md) == Some(n),
        !has_number(md, "qwen35moe.feed_forward_length.experts"@) && md.dom().contains(
            "qwen35moe.intermediate_size_experts"@,
        ) && md["qwen35moe.intermediate_size_experts"@].kind == KindModel::U32(n as u32)
            ==> routed_width(md) == Some(n),
        !has_number(md, "qwen35moe.feed_forward_length.experts"@) && !has_number(
            md,
            "qwen35moe.intermediate_size_experts"@,
        ) && md.dom().contains("qwen35moe.expert_feed_forward_length"@)
            && md["qwen35moe.expert_feed_forward_length"@].kind == KindModel::U32(n as u32)
            ==> routed_width(md) == Some(n),
        md.dom().contains("qwen35moe.feed_forward_length.shared_expert"@)
            && md["qwen35moe.feed_forward_length.shared_expert"@].kind == KindModel::U32(n as u32)
            ==> shared_width(md) == Some(n),
        !has_number(md, "qwen35moe.feed_forward_length.shared_expert"@) && md.dom().contains(
            "qwen35moe.intermediate_size_shared_expert"@,
        ) && md["qwen35moe.intermediate_size_shared_expert"@].kind == KindModel::U32(n as u32)
            ==> shared_width(md) == Some(n),
        !has_number(md, "qwen35moe.feed_forward_length.shared_expert"@) && !has_number(
            md,
            "qwen35moe.intermediate_size_shared_expert"@,
        ) && md.dom().contains("qwen35moe.expert_shared_feed_forward_length"@)
            && md["qwen35moe.expert_shared_feed_forward_length"@].kind == KindModel::U32(n as u32)
            ==> shared_width(md) == Some(n),
{
}

/// A file is taken for what it says it is, and only where it says so with one of the two
/// known names.
pub proof fn law_architectures_have_their_names(md: Map<Seq<char>, MetaModel>)
    ensures
        ({
            let key = "general.architecture"@;
            let named = md.dom().contains(key) && md[key].kind is Text;
            let name = md[key].kind->Text_0;
            &&& declared_architecture(md) == Ok::<Architecture, Seq<char>>(
                Architecture::DenseQwen35,
            ) <==> named && name == "qwen35"@
            &&& declared_architecture(md) == Ok::<Architecture, Seq<char>>(
                Architecture::Qwen35Moe,
            ) <==> named && name == "qwen35moe"@
            &&& declared_architecture(md) is Ok ==> name == prefix_text(
                declared_architecture(md)->Ok_0,
            )
        }),
{
    reveal_strlit("qwen35");
    reveal_strlit("qwen35moe");
    assert("qwen35"@.len() != "qwen35moe"@.len());
}

/// Whether a file has a tensor of this shape, in one of these formats.
pub open spec fn has_shape(
    t: Map<Seq<char>, TensorModel>,
    name: Seq<char>,
    shape: Seq<usize>,
    dtypes: Seq<GgmlDType>,
) -> bool {
    t.dom().contains(name) && t[name].dims == shape && dtypes.contains(t[name].ggml_dtype)
}

/// The accepted vision tower's tensors outside its layers have the shapes that follow from
/// its sizes: square patches of three colours, one position per patch of the whole image,
/// and a projection of the features that are merged into one.
pub proof fn law_vision_tensors_follow_the_sizes(
    profile: VisionProfile,
    index: IndexModel,
    production_q8: bool,
)
    requires
        vision_outcome(Ok(profile), index, production_q8),
    ensures
        ({
            let t = index.tensor_infos;
            let hidden = profile.hidden_size;
            let patch = profile.patch_size;
            let merged = (profile.hidden_size * profile.spatial_merge_size
                * profile.spatial_merge_size) as usize;
            let plain = seq![GgmlDType::F32];
            &&& has_shape(
                t,
                "v.patch_embd.weight"@,
                seq![hidden, 3, patch, patch],
                matrix_formats(),
            )
            &&& has_shape(
                t,
                "v.patch_embd.weight.1"@,
                seq![hidden, 3, patch, patch],
                matrix_formats(),
            )
            &&& has_shape(t, "v.patch_embd.bias"@, seq![hidden], plain)
            &&& has_shape(
                t,
                "v.position_embd.weight"@,
                seq![profile.position_embeddings, hidden],
                matrix_formats(),
            )
            &&& has_shape(t, "v.post_ln.weight"@, seq![hidden], plain)
            &&& has_shape(t, "v.post_ln.bias"@, seq![hidden], plain)
            &&& has_shape(
                t,
                "mm.0.weight"@,
                seq![merged, merged],
                sensitive_formats(production_q8),
            )
            &&& has_shape(t, "mm.0.bias"@, seq![merged], plain)
            &&& has_shape(
                t,
                "mm.2.weight"@,
                seq![profile.projection_dim, merged],
                sensitive_formats(production_q8),
            )
            &&& has_shape(t, "mm.2.bias"@, seq![profile.projection_dim], plain)
            &&& t.dom().len() == 10 + 12 * profile.block_count
        }),
{
    let t = index.tensor_infos;
    assert(vision_global_errors(t, production_q8).len() == 0);
    assert(tensor_count_errors(t.dom().len()).len() == 0);
}

proof fn lemma_vision_layer(t: Map<Seq<char>, TensorModel>, q8: bool, n: nat, layer: nat)
    requires
        layer < n,
        vision_layers_errors(t, q8, n).len() == 0,
    ensures
        layer_matrix_errors(t, q8, layer).len() == 0,
        layer_vector_errors(t, layer).len() == 0,
    decreases n,
{
    if layer < n - 1 {
        lemma_vision_layer(t, q8, (n - 1) as nat, layer);
    }
}

/// Each layer of the accepted vision tower has its tensors, and their shapes follow from
/// the tower's sizes: queries, keys and values are projected together, and the two
/// feed-forward matrices are each the other's shape turned round.
pub proof fn law_vision_layers_follow_the_sizes(
    profile: VisionProfile,
    index: IndexModel,
    production_q8: bool,
    layer: nat,
)
    requires
        vision_outcome(Ok(profile), index, production_q8),
        layer < profile.block_count,
    ensures
        ({
            let t = index.tensor_infos;
            let p = "v.blk."@ + decimal(layer);
            let hidden = profile.hidden_size;
            let wide = profile.intermediate_size;
            let all = (3 * profile.hidden_size) as usize;
            let plain = seq![GgmlDType::F32];
            let formats = sensitive_formats(production_q8);
            &&& has_shape(t, p + ".attn_qkv.weight"@, seq![all, hidden], formats)
            &&& has_shape(t, p + ".attn_out.weight"@, seq![hidden, hidden], formats)
            &&& has_shape(t, p + ".ffn_up.weight"@, seq![wide, hidden], formats)
            &&& has_shape(
                t,
                p + ".ffn_down.weight"@,
                seq![hidden, wide],
                down_formats(production_q8, layer),
            )
            &&& has_shape(t, p + ".attn_qkv.bias"@, seq![all], plain)
            &&& has_shape(t, p + ".attn_out.bias"@, seq![hidden], plain)
            &&& has_shape(t, p + ".ffn_up.bias"@, seq![wide], plain)
            &&& has_shape(t, p + ".ffn_down.bias"@, seq![hidden], plain)
            &&& has_shape(t, p + ".ln1.weight"@, seq![hidden], plain)
            &&& has_shape(t, p + ".ln1.bias"@, seq![hidden], plain)
            &&& has_shape(t, p + ".ln2.weight"@, seq![hidden], plain)
            &&& has_shape(t, p + ".ln2.bias"@, seq![hidden], plain)
        }),
{
    let t = index.tensor_infos;
    let n = declared(index.metadata, "clip.vision.block_count"@);
    law_vision_sizes_are_the_files(profile, index, production_q8);
    assert(vision_layers_errors(t, production_q8, n).len() == 0);
    lemma_vision_layer(t, production_q8, n, layer);
}

/// The accepted vision tower's sizes are those that the file names, and the file calls
/// itself a vision file.
pub proof fn law_vision_sizes_are_the_files(
    profile: VisionProfile,
    index: IndexModel,
    production_q8: bool,
)
    requires
        vision_outcome(Ok(profile), index, production_q8),
    ensures
        ({
            let md = index.metadata;
            &&& u32_at(md, "clip.vision.block_count"@) == Some(profile.block_count)
            &&& u32_at(md, "clip.vision.embedding_length"@) == Some(profile.hidden_size)
            &&& u32_at(md, "clip.vision.feed_forward_length"@) == Some(profile.intermediate_size)
            &&& u32_at(md, "clip.vision.attention.head_count"@) == Some(profile.head_count)
            &&& u32_at(md, "clip.vision.projection_dim"@) == Some(profile.projection_dim)
            &&& u32_at(md, "clip.vision.patch_size"@) == Some(profile.patch_size)
            &&& u32_at(md, "clip.vision.spatial_merge_size"@) == Some(profile.spatial_merge_size)
            &&& u32_at(md, "clip.vision.image_size"@) matches Some(image)
            &&& (image / profile.patch_size) * (image / profile.patch_size)
                == profile.position_embeddings
            &&& md.dom().contains("general.architecture"@)
            &&& md["general.architecture"@].kind == KindModel::Text("clip"@)
        }),
{
    let md = index.metadata;
    assert(vision_metadata_errors(md).len() == 0);
    assert(crate::vision_profile::vision_value_errors(md).len() == 0);
}

/// Matrices may be stored in four formats. In production the sensitive ones may not be
/// quantized, and the inner layers' downward matrices must be.
pub proof fn law_vision_formats(dtype: GgmlDType, layer: nat)
    ensures
        vector_formats().contains(dtype) <==> dtype == GgmlDType::F32,
        matrix_formats().contains(dtype) <==> dtype == GgmlDType::Q8_0 || dtype == GgmlDType::F32
            || dtype == GgmlDType::F16 || dtype == GgmlDType::BF16,
        sensitive_formats(false).contains(dtype) <==> matrix_formats().contains(dtype),
        sensitive_formats(true).contains(dtype) <==> dtype == GgmlDType::BF16 || dtype
            == GgmlDType::F32,
        down_formats(false, layer).contains(dtype) <==> matrix_formats().contains(dtype),
        1 <= layer <= 19 ==> (down_formats(true, layer).contains(dtype) <==> dtype
            == GgmlDType::Q8_0),
        layer == 0 || layer >= 20 ==> (down_formats(true, layer).contains(dtype)
            <==> sensitive_formats(true).contains(dtype)),
{
    let v = vector_formats();
    let m = matrix_formats();
    let s = sensitive_formats(true);
    assert(v[0] == GgmlDType::F32);
    assert(m[0] == GgmlDType::Q8_0 && m[1] == GgmlDType::F32 && m[2] == GgmlDType::F16 && m[3]
        == GgmlDType::BF16);
    assert(s[0] == GgmlDType::BF16 && s[1] == GgmlDType::F32);
    if 1 <= layer < 20 {
        assert(down_formats(true, layer)[0] == GgmlDType::Q8_0);
    }
}

/// The drafting head's file has the tensors of a dense attention block and those that join
/// the head to the trunk, all of block 32.
pub proof fn law_the_head_is_a_dense_attention_block(
    index: IndexModel,
    refusal: Option<Seq<char>>,
)
    requires
        head_file_failure(index, refusal) is None,
    ensures
        ({
            let t = index.tensor_infos;
            let p = "blk.32"@;
            &&& refusal is None
            &&& has_attention(t, p)
            &&& has_dense_ffn(t, p)
            &&& has(t, p, ".attn_norm.weight"@)
            &&& has(t, p, ".post_attention_norm.weight"@)
            &&& has(t, p, ".attn_q_norm.weight"@)
            &&& has(t, p, ".attn_k_norm.weight"@)
            &&& has(t, p, ".nextn.hnorm.weight"@)
            &&& has(t, p, ".nextn.enorm.weight"@)
            &&& has(t, p, ".nextn.eh_proj.weight"@)
            &&& has(t, p, ".nextn.shared_head_norm.weight"@)
        }),
{
    let t = index.tensor_infos;
    let p = head_prefix();
    let names = head_suffixes();
    lemma_first_missing(t, p, names, 0);
    assert(t.dom().contains(p + names[0]) && t.dom().contains(p + names[1]));
    assert(t.dom().contains(p + names[2]) && t.dom().contains(p + names[3]));
    assert(t.dom().contains(p + names[4]) && t.dom().contains(p + names[5]));
    assert(t.dom().contains(p + names[6]) && t.dom().contains(p + names[7]));
    assert(t.dom().contains(p + names[8]) && t.dom().contains(p + names[9]));
    assert(t.dom().contains(p + names[10]) && t.dom().contains(p + names[11]));
    assert(t.dom().contains(p + names[12]) && t.dom().contains(p + names[13]));
    assert(t.dom().contains(p + names[14]));
}

} // verus!
