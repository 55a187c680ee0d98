//! What the sizes of a model have to do with the file that they are read from, with its
//! validated profile and with its layers.
use crate::architecture::{declared_architecture, prefix_text, Architecture};
use crate::gguf::{GgufIndex, KindModel, MetaModel, TensorModel};
use crate::loader::{
    first_suffixes, kv_choice, layer_failure, layer_prefix, lemma_first_missing, mixer_suffixes,
};
use crate::model_dims::{
    context_in_use, dims_failure, dims_values, key_prefix, moe_file, ModelDims,
};
use crate::profile::{
    attention_errors, block_errors, delta_errors, describes, ffn_errors, is_attention_layer,
    profile_errors, ModelProfile,
};
use crate::validation::tensor_errors;
use vstd::prelude::*;

verus! {

/// Whether the metadata holds a 32-bit unsigned integer under a key.
pub open spec fn holds_number(md: Map<Seq<char>, MetaModel>, key: Seq<char>, n: usize) -> bool {
    md.dom().contains(key) && md[key].kind == KindModel::U32(n as u32) && n <= u32::MAX
}

/// Whether the metadata holds a 32-bit float of these bits under a key.
pub open spec fn holds_float(md: Map<Seq<char>, MetaModel>, key: Seq<char>, bits: u32) -> bool {
    md.dom().contains(key) && md[key].kind == KindModel::F32Bits(bits)
}

/// Whether the metadata holds no 32-bit unsigned integer under a key.
pub open spec fn names_no_number(md: Map<Seq<char>, MetaModel>, key: Seq<char>) -> bool {
    !md.dom().contains(key) || !(md[key].kind is U32)
}

/// Whether the file says that it holds a mixture-of-experts model.
pub open spec fn says_moe(md: Map<Seq<char>, MetaModel>) -> bool {
    md.dom().contains("general.architecture"@) && md["general.architecture"@].kind
        == KindModel::Text("qwen35moe"@)
}

proof fn lemma_dense_keys()
    ensures
        "qwen35"@ + ".block_count"@ == "qwen35.block_count"@,
        "qwen35"@ + ".embedding_length"@ == "qwen35.embedding_length"@,
        "qwen35"@ + ".feed_forward_length"@ == "qwen35.feed_forward_length"@,
        "qwen35"@ + ".attention.head_count"@ == "qwen35.attention.head_count"@,
        "qwen35"@ + ".attention.head_count_kv"@ == "qwen35.attention.head_count_kv"@,
        "qwen35"@ + ".attention.key_length"@ == "qwen35.attention.key_length"@,
        "qwen35"@ + ".ssm.conv_kernel"@ == "qwen35.ssm.conv_kernel"@,
        "qwen35"@ + ".ssm.inner_size"@ == "qwen35.ssm.inner_size"@,
        "qwen35"@ + ".ssm.state_size"@ == "qwen35.ssm.state_size"@,
        "qwen35"@ + ".ssm.time_step_rank"@ == "qwen35.ssm.time_step_rank"@,
        "qwen35"@ + ".ssm.group_count"@ == "qwen35.ssm.group_count"@,
        "qwen35"@ + ".full_attention_interval"@ == "qwen35.full_attention_interval"@,
        "qwen35"@ + ".context_length"@ == "qwen35.context_length"@,
        "qwen35"@ + ".attention.layer_norm_rms_epsilon"@ == "qwen35.attention.layer_norm_rms_epsilon"@,
        "qwen35"@ + ".rope.freq_base"@ == "qwen35.rope.freq_base"@,
{
    reveal_strlit("qwen35");
    assert("qwen35"@ + ".block_count"@ =~= "qwen35.block_count"@) by {
        reveal_strlit(".block_count");
        reveal_strlit("qwen35.block_count");
    }
    assert("qwen35"@ + ".embedding_length"@ =~= "qwen35.embedding_length"@) by {
        reveal_strlit(".embedding_length");
        reveal_strlit("qwen35.embedding_length");
    }
    assert("qwen35"@ + ".feed_forward_length"@ =~= "qwen35.feed_forward_length"@) by {
        reveal_strlit(".feed_forward_length");
        reveal_strlit("qwen35.feed_forward_length");
    }
    assert("qwen35"@ + ".attention.head_count"@ =~= "qwen35.attention.head_count"@) by {
        reveal_strlit(".attention.head_count");
        reveal_strlit("qwen35.attention.head_count");
    }
    assert("qwen35"@ + ".attention.head_count_kv"@ =~= "qwen35.attention.head_count_kv"@) by {
        reveal_strlit(".attention.head_count_kv");
        reveal_strlit("qwen35.attention.head_count_kv");
    }
    assert("qwen35"@ + ".attention.key_length"@ =~= "qwen35.attention.key_length"@) by {
        reveal_strlit(".attention.key_length");
        reveal_strlit("qwen35.attention.key_length");
    }
    assert("qwen35"@ + ".ssm.conv_kernel"@ =~= "qwen35.ssm.conv_kernel"@) by {
        reveal_strlit(".ssm.conv_kernel");
        reveal_strlit("qwen35.ssm.conv_kernel");
    }
    assert("qwen35"@ + ".ssm.inner_size"@ =~= "qwen35.ssm.inner_size"@) by {
        reveal_strlit(".ssm.inner_size");
        reveal_strlit("qwen35.ssm.inner_size");
    }
    assert("qwen35"@ + ".ssm.state_size"@ =~= "qwen35.ssm.state_size"@) by {
        reveal_strlit(".ssm.state_size");
        reveal_strlit("qwen35.ssm.state_size");
    }
    assert("qwen35"@ + ".ssm.time_step_rank"@ =~= "qwen35.ssm.time_step_rank"@) by {
        reveal_strlit(".ssm.time_step_rank");
        reveal_strlit("qwen35.ssm.time_step_rank");
    }
    assert("qwen35"@ + ".ssm.group_count"@ =~= "qwen35.ssm.group_count"@) by {
        reveal_strlit(".ssm.group_count");
        reveal_strlit("qwen35.ssm.group_count");
    }
    assert("qwen35"@ + ".full_attention_interval"@ =~= "qwen35.full_attention_interval"@) by {
        reveal_strlit(".full_attention_interval");
        reveal_strlit("qwen35.full_attention_interval");
    }
    assert("qwen35"@ + ".context_length"@ =~= "qwen35.context_length"@) by {
        reveal_strlit(".context_length");
        reveal_strlit("qwen35.context_length");
    }
    assert("qwen35"@ + ".attention.layer_norm_rms_epsilon"@ =~= "qwen35.attention.layer_norm_rms_epsilon"@) by {
        reveal_strlit(".attention.layer_norm_rms_epsilon");
        reveal_strlit("qwen35.attention.layer_norm_rms_epsilon");
    }
    assert("qwen35"@ + ".rope.freq_base"@ =~= "qwen35.rope.freq_base"@) by {
        reveal_strlit(".rope.freq_base");
        reveal_strlit("qwen35.rope.freq_base");
    }
}

proof fn lemma_moe_keys()
    ensures
        "qwen35moe"@ + ".block_count"@ == "qwen35moe.block_count"@,
        "qwen35moe"@ + ".embedding_length"@ == "qwen35moe.embedding_length"@,
        "qwen35moe"@ + ".feed_forward_length"@ == "qwen35moe.feed_forward_length"@,
        "qwen35moe"@ + ".attention.head_count"@ == "qwen35moe.attention.head_count"@,
        "qwen35moe"@ + ".attention.head_count_kv"@ == "qwen35moe.attention.head_count_kv"@,
        "qwen35moe"@ + ".attention.key_length"@ == "qwen35moe.attention.key_length"@,
        "qwen35moe"@ + ".ssm.conv_kernel"@ == "qwen35moe.ssm.conv_kernel"@,
        "qwen35moe"@ + ".ssm.inner_size"@ == "qwen35moe.ssm.inner_size"@,
        "qwen35moe"@ + ".ssm.state_size"@ == "qwen35moe.ssm.state_size"@,
        "qwen35moe"@ + ".ssm.time_step_rank"@ == "qwen35moe.ssm.time_step_rank"@,
        "qwen35moe"@ + ".ssm.group_count"@ == "qwen35moe.ssm.group_count"@,
        "qwen35moe"@ + ".full_attention_interval"@ == "qwen35moe.full_attention_interval"@,
        "qwen35moe"@ + ".context_length"@ == "qwen35moe.context_length"@,
        "qwen35moe"@ + ".attention.layer_norm_rms_epsilon"@ == "qwen35moe.attention.layer_norm_rms_epsilon"@,
        "qwen35moe"@ + ".rope.freq_base"@ == "qwen35moe.rope.freq_base"@,
{
    reveal_strlit("qwen35moe");
    assert("qwen35moe"@ + ".block_count"@ =~= "qwen35moe.block_count"@) by {
        reveal_strlit(".block_count");
        reveal_strlit("qwen35moe.block_count");
    }
    assert("qwen35moe"@ + ".embedding_length"@ =~= "qwen35moe.embedding_length"@) by {
        reveal_strlit(".embedding_length");
        reveal_strlit("qwen35moe.embedding_length");
    }
    assert("qwen35moe"@ + ".feed_forward_length"@ =~= "qwen35moe.feed_forward_length"@) by {
        reveal_strlit(".feed_forward_length");
        reveal_strlit("qwen35moe.feed_forward_length");
    }
    assert("qwen35moe"@ + ".attention.head_count"@ =~= "qwen35moe.attention.head_count"@) by {
        reveal_strlit(".attention.head_count");
        reveal_strlit("qwen35moe.attention.head_count");
    }
    assert("qwen35moe"@ + ".attention.head_count_kv"@ =~= "qwen35moe.attention.head_count_kv"@) by {
        reveal_strlit(".attention.head_count_kv");
        reveal_strlit("qwen35moe.attention.head_count_kv");
    }
    assert("qwen35moe"@ + ".attention.key_length"@ =~= "qwen35moe.attention.key_length"@) by {
        reveal_strlit(".attention.key_length");
        reveal_strlit("qwen35moe.attention.key_length");
    }
    assert("qwen35moe"@ + ".ssm.conv_kernel"@ =~= "qwen35moe.ssm.conv_kernel"@) by {
        reveal_strlit(".ssm.conv_kernel");
        reveal_strlit("qwen35moe.ssm.conv_kernel");
    }
    assert("qwen35moe"@ + ".ssm.inner_size"@ =~= "qwen35moe.ssm.inner_size"@) by {
        reveal_strlit(".ssm.inner_size");
        reveal_strlit("qwen35moe.ssm.inner_size");
    }
    assert("qwen35moe"@ + ".ssm.state_size"@ =~= "qwen35moe.ssm.state_size"@) by {
        reveal_strlit(".ssm.state_size");
        reveal_strlit("qwen35moe.ssm.state_size");
    }
    assert("qwen35moe"@ + ".ssm.time_step_rank"@ =~= "qwen35moe.ssm.time_step_rank"@) by {
        reveal_strlit(".ssm.time_step_rank");
        reveal_strlit("qwen35moe.ssm.time_step_rank");
    }
    assert("qwen35moe"@ + ".ssm.group_count"@ =~= "qwen35moe.ssm.group_count"@) by {
        reveal_strlit(".ssm.group_count");
        reveal_strlit("qwen35moe.ssm.group_count");
    }
    assert("qwen35moe"@ + ".full_attention_interval"@ =~= "qwen35moe.full_attention_interval"@) by {
        reveal_strlit(".full_attention_interval");
        reveal_strlit("qwen35moe.full_attention_interval");
    }
    assert("qwen35moe"@ + ".context_length"@ =~= "qwen35moe.context_length"@) by {
        reveal_strlit(".context_length");
        reveal_strlit("qwen35moe.context_length");
    }
    assert("qwen35moe"@ + ".attention.layer_norm_rms_epsilon"@ =~= "qwen35moe.attention.layer_norm_rms_epsilon"@) by {
        reveal_strlit(".attention.layer_norm_rms_epsilon");
        reveal_strlit("qwen35moe.attention.layer_norm_rms_epsilon");
    }
    assert("qwen35moe"@ + ".rope.freq_base"@ =~= "qwen35moe.rope.freq_base"@) by {
        reveal_strlit(".rope.freq_base");
        reveal_strlit("qwen35moe.rope.freq_base");
    }
}

/// A size that the file of a dense model names is the size in use, whichever it is.
pub proof fn law_dense_files_name_their_sizes(md: Map<Seq<char>, MetaModel>, n: usize, bits: u32)
    requires
        !says_moe(md),
    ensures
        holds_number(md, "qwen35.block_count"@, n) ==> dims_values(md).block_count == n,
        holds_number(md, "qwen35.embedding_length"@, n) ==> dims_values(md).embedding_length == n,
        holds_number(md, "qwen35.feed_forward_length"@, n) ==> dims_values(md).feed_forward_length == n,
        holds_number(md, "qwen35.attention.head_count"@, n) ==> dims_values(md).head_count == n,
        holds_number(md, "qwen35.attention.head_count_kv"@, n) ==> dims_values(md).head_count_kv == n,
        holds_number(md, "qwen35.attention.key_length"@, n) ==> dims_values(md).head_dim == n,
        holds_number(md, "qwen35.ssm.conv_kernel"@, n) ==> dims_values(md).conv_kernel == n,
        holds_number(md, "qwen35.ssm.inner_size"@, n) ==> dims_values(md).inner_size == n,
        holds_number(md, "qwen35.ssm.state_size"@, n) ==> dims_values(md).state_size == n,
        holds_number(md, "qwen35.ssm.time_step_rank"@, n) ==> dims_values(md).n_v_heads == n,
        holds_number(md, "qwen35.ssm.group_count"@, n) ==> dims_values(md).n_k_heads == n,
        holds_number(md, "qwen35.full_attention_interval"@, n) ==> dims_values(md).full_attention_interval == n,
        holds_number(md, "qwen35.context_length"@, n) ==> dims_values(md).model_context_length == n,
        holds_float(md, "qwen35.attention.layer_norm_rms_epsilon"@, bits) ==> dims_values(md).rms_norm_eps_bits == bits,
        holds_float(md, "qwen35.rope.freq_base"@, bits) ==> dims_values(md).rope_freq_base_bits == bits,
        dims_values(md).is_moe == says_moe(md),
        dims_values(md).n_experts == 0,
        dims_values(md).n_experts_per_tok == 0,
{
    lemma_dense_keys();
}

/// What the file of a dense model may leave out has a value all the same: heads of 256,
/// a kernel of four, an attention layer in four, 32768 tokens, a rotary base of 10000.
pub proof fn law_dense_sizes_have_defaults(md: Map<Seq<char>, MetaModel>)
    requires
        !says_moe(md),
    ensures
        names_no_number(md, "qwen35.attention.key_length"@) ==> dims_values(md).head_dim == 256,
        names_no_number(md, "qwen35.ssm.conv_kernel"@) ==> dims_values(md).conv_kernel == 4,
        names_no_number(md, "qwen35.full_attention_interval"@) ==> dims_values(md).full_attention_interval == 4,
        names_no_number(md, "qwen35.context_length"@) ==> dims_values(md).model_context_length == 32768,
        names_no_number(md, "qwen35.feed_forward_length"@) ==> dims_values(md).feed_forward_length == 0,
        !md.dom().contains("qwen35.rope.freq_base"@) ==> dims_values(md).rope_freq_base_bits
            == 0x461c_4000,
{
    lemma_dense_keys();
}

/// The sizes of a dense model are read from exactly the files that hold what is required.
pub proof fn law_dense_sizes_need_their_keys(md: Map<Seq<char>, MetaModel>)
    requires
        !says_moe(md),
    ensures
        dims_failure(md) is None <==> {
            &&& !names_no_number(md, "qwen35.block_count"@)
            &&& !names_no_number(md, "qwen35.embedding_length"@)
            &&& !names_no_number(md, "qwen35.attention.head_count"@)
            &&& !names_no_number(md, "qwen35.attention.head_count_kv"@)
            &&& !names_no_number(md, "qwen35.ssm.inner_size"@)
            &&& !names_no_number(md, "qwen35.ssm.state_size"@)
            &&& !names_no_number(md, "qwen35.ssm.time_step_rank"@)
            &&& !names_no_number(md, "qwen35.ssm.group_count"@)
            &&& md.dom().contains("qwen35.attention.layer_norm_rms_epsilon"@)
            &&& md["qwen35.attention.layer_norm_rms_epsilon"@].kind is F32Bits
        },
{
    lemma_dense_keys();
}

/// A size that the file of a mixture-of-experts model names is the size in use, whichever it is.
pub proof fn law_moe_files_name_their_sizes(md: Map<Seq<char>, MetaModel>, n: usize, bits: u32, flag: bool)
    requires
        says_moe(md),
    ensures
        holds_number(md, "qwen35moe.block_count"@, n) ==> dims_values(md).block_count == n,
        holds_number(md, "qwen35moe.embedding_length"@, n) ==> dims_values(md).embedding_length == n,
        holds_number(md, "qwen35moe.feed_forward_length"@, n) ==> dims_values(md).feed_forward_length == n,
        holds_number(md, "qwen35moe.attention.head_count"@, n) ==> dims_values(md).head_count == n,
        holds_number(md, "qwen35moe.attention.head_count_kv"@, n) ==> dims_values(md).head_count_kv == n,
        holds_number(md, "qwen35moe.attention.key_length"@, n) ==> dims_values(md).head_dim == n,
        holds_number(md, "qwen35moe.ssm.conv_kernel"@, n) ==> dims_values(md).conv_kernel == n,
        holds_number(md, "qwen35moe.ssm.inner_size"@, n) ==> dims_values(md).inner_size == n,
        holds_number(md, "qwen35moe.ssm.state_size"@, n) ==> dims_values(md).state_size == n,
        holds_number(md, "qwen35moe.ssm.time_step_rank"@, n) ==> dims_values(md).n_v_heads == n,
        holds_number(md, "qwen35moe.ssm.group_count"@, n) ==> dims_values(md).n_k_heads == n,
        holds_number(md, "qwen35moe.full_attention_interval"@, n) ==> dims_values(md).full_attention_interval == n,
        holds_number(md, "qwen35moe.context_length"@, n) ==> dims_values(md).model_context_length == n,
        holds_float(md, "qwen35moe.attention.layer_norm_rms_epsilon"@, bits) ==> dims_values(md).rms_norm_eps_bits == bits,
        holds_float(md, "qwen35moe.rope.freq_base"@, bits) ==> dims_values(md).rope_freq_base_bits == bits,
        dims_values(md).is_moe == says_moe(md),
        holds_number(md, "qwen35moe.expert_count"@, n) ==> dims_values(md).n_experts == n,
        holds_number(md, "qwen35moe.expert_used_count"@, n) ==> dims_values(md).n_experts_per_tok == n,
        holds_number(md, "qwen35moe.shared_expert_count"@, n) ==> dims_values(md).shared_expert_count == n,
        holds_number(md, "qwen35moe.feed_forward_length.experts"@, n) ==> dims_values(md).routed_intermediate == n,
        holds_number(md, "qwen35moe.feed_forward_length.shared_expert"@, n) ==> dims_values(md).shared_intermediate == n,
        names_no_number(md, "qwen35moe.feed_forward_length.experts"@) && holds_number(md, "qwen35moe.intermediate_size_experts"@, n)
            ==> dims_values(md).routed_intermediate == n,
        names_no_number(md, "qwen35moe.feed_forward_length.experts"@) && names_no_number(
            md,
            "qwen35moe.intermediate_size_experts"@,
        ) && holds_number(md, "qwen35moe.expert_feed_forward_length"@, n) ==> dims_values(md).routed_intermediate == n,
        names_no_number(md, "qwen35moe.feed_forward_length.shared_expert"@) && holds_number(md, "qwen35moe.intermediate_size_shared_expert"@, n)
            ==> dims_values(md).shared_intermediate == n,
        names_no_number(md, "qwen35moe.feed_forward_length.shared_expert"@) && names_no_number(
            md,
            "qwen35moe.intermediate_size_shared_expert"@,
        ) && holds_number(md, "qwen35moe.expert_shared_feed_forward_length"@, n) ==> dims_values(md).shared_intermediate == n,
        md.dom().contains("qwen35moe.router_norm_topk"@) && md["qwen35moe.router_norm_topk"@].kind
            == KindModel::Bool(flag) ==> dims_values(md).norm_topk == flag,
{
    lemma_moe_keys();
}

/// What the file of a mixture-of-experts model may leave out has a value all the same: heads of 256,
/// a kernel of four, an attention layer in four, 32768 tokens, a rotary base of 10000.
pub proof fn law_moe_sizes_have_defaults(md: Map<Seq<char>, MetaModel>)
    requires
        says_moe(md),
    ensures
        names_no_number(md, "qwen35moe.attention.key_length"@) ==> dims_values(md).head_dim == 256,
        names_no_number(md, "qwen35moe.ssm.conv_kernel"@) ==> dims_values(md).conv_kernel == 4,
        names_no_number(md, "qwen35moe.full_attention_interval"@) ==> dims_values(md).full_attention_interval == 4,
        names_no_number(md, "qwen35moe.context_length"@) ==> dims_values(md).model_context_length == 32768,
        names_no_number(md, "qwen35moe.feed_forward_length"@) ==> dims_values(md).feed_forward_length == 0,
        !md.dom().contains("qwen35moe.rope.freq_base"@) ==> dims_values(md).rope_freq_base_bits
            == 0x461c_4000,
        names_no_number(md, "qwen35moe.shared_expert_count"@) ==> dims_values(
            md,
        ).shared_expert_count == 1,
        !md.dom().contains("qwen35moe.router_norm_topk"@) ==> dims_values(md).norm_topk,
{
    lemma_moe_keys();
}

/// The sizes of a mixture-of-experts model are read from exactly the files that hold what is required.
pub proof fn law_moe_sizes_need_their_keys(md: Map<Seq<char>, MetaModel>)
    requires
        says_moe(md),
    ensures
        dims_failure(md) is None <==> {
            &&& !names_no_number(md, "qwen35moe.block_count"@)
            &&& !names_no_number(md, "qwen35moe.embedding_length"@)
            &&& !names_no_number(md, "qwen35moe.attention.head_count"@)
            &&& !names_no_number(md, "qwen35moe.attention.head_count_kv"@)
            &&& !names_no_number(md, "qwen35moe.ssm.inner_size"@)
            &&& !names_no_number(md, "qwen35moe.ssm.state_size"@)
            &&& !names_no_number(md, "qwen35moe.ssm.time_step_rank"@)
            &&& !names_no_number(md, "qwen35moe.ssm.group_count"@)
            &&& md.dom().contains("qwen35moe.attention.layer_norm_rms_epsilon"@)
            &&& md["qwen35moe.attention.layer_norm_rms_epsilon"@].kind is F32Bits
            &&& !names_no_number(md, "qwen35moe.expert_count"@)
            &&& !names_no_number(md, "qwen35moe.expert_used_count"@)
        },
{
    lemma_moe_keys();
}

/// A failure to read the sizes names a key that is missing, or shows a value of another
/// type.
pub proof fn law_a_failed_read_says_which_key(md: Map<Seq<char>, MetaModel>)
    requires
        dims_failure(md) is Some,
    ensures
        exists|key: Seq<char>| {
            ||| !(#[trigger] md.dom().contains(key)) && dims_failure(md) == Some(
                "cannot find "@ + key + " in metadata"@,
            )
            ||| md.dom().contains(key) && dims_failure(md) == Some("not a u32 "@ + md[key].debug)
            ||| md.dom().contains(key) && dims_failure(md) == Some("not a f32 "@ + md[key].debug)
        },
{
    let p = key_prefix(moe_file(md));
    let keys = seq![
        p + ".block_count"@,
        p + ".embedding_length"@,
        p + ".attention.layer_norm_rms_epsilon"@,
        p + ".attention.head_count"@,
        p + ".attention.head_count_kv"@,
        p + ".ssm.inner_size"@,
        p + ".ssm.state_size"@,
        p + ".ssm.time_step_rank"@,
        p + ".ssm.group_count"@,
        "qwen35moe.expert_count"@,
        "qwen35moe.expert_used_count"@,
    ];
    assert(md.dom().contains(keys[0]) || !md.dom().contains(keys[0]));
    assert(md.dom().contains(keys[1]) || !md.dom().contains(keys[1]));
    assert(md.dom().contains(keys[2]) || !md.dom().contains(keys[2]));
    assert(md.dom().contains(keys[3]) || !md.dom().contains(keys[3]));
    assert(md.dom().contains(keys[4]) || !md.dom().contains(keys[4]));
    assert(md.dom().contains(keys[5]) || !md.dom().contains(keys[5]));
    assert(md.dom().contains(keys[6]) || !md.dom().contains(keys[6]));
    assert(md.dom().contains(keys[7]) || !md.dom().contains(keys[7]));
    assert(md.dom().contains(keys[8]) || !md.dom().contains(keys[8]));
    assert(md.dom().contains(keys[9]) || !md.dom().contains(keys[9]));
    assert(md.dom().contains(keys[10]) || !md.dom().contains(keys[10]));
}

/// The sizes that a model is planned with are those of its validated profile.
pub proof fn law_sizes_agree_with_the_profile(
    profile: ModelProfile,
    index: GgufIndex,
    file_size: u64,
)
    requires
        declared_architecture(index@.metadata) == Ok::<Architecture, Seq<char>>(
            profile.architecture,
        ),
        profile_errors(index@).len() == 0,
        describes(profile, profile.architecture, index, file_size),
    ensures
        ({
            let dims = dims_values(index@.metadata);
            &&& dims.is_moe == (profile.architecture == Architecture::Qwen35Moe)
            &&& dims.block_count == profile.block_count
            &&& dims.embedding_length == profile.hidden_size
            &&& dims.feed_forward_length == profile.feed_forward_length
            &&& dims.model_context_length == profile.context_length
            &&& dims.full_attention_interval == profile.full_attention_interval
            &&& dims.head_count == profile.attention_head_count
            &&& dims.head_count_kv == profile.attention_head_count_kv
            &&& dims.head_dim == profile.attention_key_length
            &&& dims.rope_freq_base_bits == profile.rope_freq_base_bits
            &&& dims.rms_norm_eps_bits == profile.rms_norm_eps_bits
            &&& dims.is_moe ==> {
                &&& profile.routed_experts == Some(dims.n_experts)
                &&& profile.experts_per_token == Some(dims.n_experts_per_tok)
                &&& profile.routed_intermediate == Some(dims.routed_intermediate)
                &&& profile.shared_intermediate == Some(dims.shared_intermediate)
                &&& profile.shared_expert_count == Some(dims.shared_expert_count)
            }
        }),
{
    reveal_strlit("qwen35");
    reveal_strlit("qwen35moe");
    assert("qwen35"@.len() != "qwen35moe"@.len());
    let arch = profile.architecture;
    assert(prefix_text(arch) == key_prefix(moe_file(index@.metadata)));
}

/// The profile counts a layer among the attention layers exactly where the model does not
/// count it among the others.
pub proof fn law_layer_kinds_agree(dims: ModelDims, layer: nat)
    requires
        dims.full_attention_interval > 0,
    ensures
        is_attention_layer(layer, dims.full_attention_interval as nat) <==> !dims.deltanet_layer(
            layer,
        ),
        !dims.deltanet_layer((dims.full_attention_interval - 1) as nat),
        forall|i: nat| i < dims.full_attention_interval - 1 ==> #[trigger] dims.deltanet_layer(i),
        dims.deltanet_layer(layer + dims.full_attention_interval as nat) == dims.deltanet_layer(
            layer,
        ),
{
    let k = dims.full_attention_interval as int;
    vstd::arithmetic::div_mod::lemma_mod_self_0(k);
    assert forall|i: nat| i < k - 1 implies #[trigger] dims.deltanet_layer(i) by {
        vstd::arithmetic::div_mod::lemma_small_mod(i + 1, k as nat);
    }
    vstd::arithmetic::div_mod::lemma_mod_add_multiples_vanish(layer as int + 1, k);
    assert(layer + k + 1 == k + (layer + 1));
}

/// The widths of a DeltaNet layer: the value heads share the inner width, the key heads
/// have the state's width each, and a token's queries, keys and values lie side by side.
pub proof fn law_delta_widths_add_up(dims: ModelDims)
    requires
        dims.n_v_heads > 0,
    ensures
        dims.head_v_dim() * dims.n_v_heads <= dims.inner_size,
        dims.inner_size < (dims.head_v_dim() + 1) * dims.n_v_heads,
        dims.key_dim() == dims.state_size * dims.n_k_heads,
        dims.conv_channels() == dims.key_dim() + dims.key_dim() + dims.inner_size,
        4 * dims.rope_dim() <= dims.head_dim < 4 * dims.rope_dim() + 4,
{
    let a = dims.inner_size as int;
    let n = dims.n_v_heads as int;
    vstd::arithmetic::div_mod::lemma_fundamental_div_mod(a, n);
    vstd::arithmetic::div_mod::lemma_mod_bound(a, n);
    let q = a / n;
    assert(q * n <= a && a < (q + 1) * n) by (nonlinear_arith)
        requires
            a == n * q + a % n,
            0 <= a % n < n,
    ;
    assert(dims.n_k_heads * dims.state_size == dims.state_size * dims.n_k_heads)
        by (nonlinear_arith);
    assert(dims.n_k_heads * dims.state_size >= 0) by (nonlinear_arith);
}

/// The context in use is the smaller of the model's and the limit, which is 81920 tokens
/// where the environment names no number.
pub proof fn law_context_is_the_smaller(model: usize, limit: Option<Seq<char>>, n: usize)
    ensures
        limit is None ==> context_in_use(model, limit) == (if model <= 81920 {
            model
        } else {
            81920
        }),
        limit is Some && crate::env_text::parsed(limit->0) == Some(n) ==> context_in_use(model, limit)
            == (if model <= n {
            model
        } else {
            n
        }),
        limit is Some && crate::env_text::parsed(limit->0) is None ==> context_in_use(model, limit)
            == context_in_use(model, None),
{
}

/// Caches stay compact unless half precision is asked for by its name; other names are
/// refused.
pub proof fn law_caches_follow_the_request(text: Seq<char>)
    ensures
        kv_choice(None) == Ok::<bool, Seq<char>>(false),
        kv_choice(Some("q8"@)) == Ok::<bool, Seq<char>>(false),
        kv_choice(Some("q8_f16"@)) == Ok::<bool, Seq<char>>(true),
        kv_choice(Some(text)) is Ok ==> text == "q8"@ || text == "q8_f16"@,
{
    reveal_strlit("q8");
    reveal_strlit("q8_f16");
    assert("q8"@.len() != "q8_f16"@.len());
}

/// A layer that can be planned lacks no tensor that validation asks for, of its kind and
/// of its architecture.
pub proof fn law_planned_layers_pass_validation(
    t: Map<Seq<char>, TensorModel>,
    dims: ModelDims,
    layer: nat,
    requested: Option<Seq<char>>,
    is_cuda: bool,
)
    requires
        dims.full_attention_interval > 0,
        layer_failure(t, dims, layer, requested, is_cuda) is None,
    ensures
        block_errors(
            t,
            if dims.is_moe {
                Architecture::Qwen35Moe
            } else {
                Architecture::DenseQwen35
            },
            layer,
            dims.full_attention_interval as nat,
        ).len() == 0,
        !dims.deltanet_layer(layer) ==> t.dom().contains(
            layer_prefix(layer) + ".attn_q_norm.weight"@,
        ) && t.dom().contains(layer_prefix(layer) + ".attn_k_norm.weight"@),
        dims.is_moe ==> t.dom().contains(layer_prefix(layer) + ".ffn_gate_inp_shexp.weight"@),
{
    let p = layer_prefix(layer);
    lemma_first_missing(t, p, first_suffixes(dims.is_moe), 0);
    lemma_first_missing(t, p, mixer_suffixes(dims.deltanet_layer(layer)), 0);
    let first = first_suffixes(dims.is_moe);
    let mixer = mixer_suffixes(dims.deltanet_layer(layer));
    assert(t.dom().contains(p + first[0]) && t.dom().contains(p + first[1]));
    assert(t.dom().contains(p + first[2]) && t.dom().contains(p + first[3]));
    assert(t.dom().contains(p + first[4]));
    if dims.is_moe {
        assert(t.dom().contains(p + first[5]) && t.dom().contains(p + first[6]));
        assert(t.dom().contains(p + first[7]) && t.dom().contains(p + first[8]));
        assert(t.dom().contains(p + first[9]));
    }
    assert(t.dom().contains(p + mixer[0]) && t.dom().contains(p + mixer[1]));
    assert(t.dom().contains(p + mixer[2]) && t.dom().contains(p + mixer[3]));
    assert(t.dom().contains(p + mixer[4]) && t.dom().contains(p + mixer[5]));
    if dims.deltanet_layer(layer) {
        assert(t.dom().contains(p + mixer[6]) && t.dom().contains(p + mixer[7]));
        assert(t.dom().contains(p + mixer[8]));
        assert(delta_errors(t, p).len() == 0);
    } else {
        assert(attention_errors(t, p).len() == 0);
    }
    if dims.is_moe {
        assert(ffn_errors(t, Architecture::Qwen35Moe, p).len() == 0);
    } else {
        assert(ffn_errors(t, Architecture::DenseQwen35, p).len() == 0);
    }
    law_layer_kinds_agree(dims, layer);
    assert(tensor_errors(t, p + ".attn_norm.weight"@).len() == 0);
    assert(tensor_errors(t, p + ".post_attention_norm.weight"@).len() == 0);
    let interval = dims.full_attention_interval as nat;
    reveal(block_errors);
    assert(is_attention_layer(layer, interval) <==> !dims.deltanet_layer(layer));
}

/// A dense model has no experts, and a mixture whose file names no width for its experts
/// has none for them.
pub proof fn law_unnamed_experts_have_no_width(md: Map<Seq<char>, MetaModel>)
    ensures
        !says_moe(md) ==> {
            let dims = dims_values(md);
            &&& dims.n_experts == 0 && dims.n_experts_per_tok == 0 && dims.shared_expert_count == 0
            &&& dims.routed_intermediate == 0 && dims.shared_intermediate == 0 && !dims.norm_topk
            &&& !dims.is_moe
        },
        names_no_number(md, "qwen35moe.feed_forward_length.experts"@) && names_no_number(
            md,
            "qwen35moe.intermediate_size_experts"@,
        ) && names_no_number(md, "qwen35moe.expert_feed_forward_length"@) ==> dims_values(
            md,
        ).routed_intermediate == 0,
        names_no_number(md, "qwen35moe.feed_forward_length.shared_expert"@) && names_no_number(
            md,
            "qwen35moe.intermediate_size_shared_expert"@,
        ) && names_no_number(md, "qwen35moe.expert_shared_feed_forward_length"@) ==> dims_values(
            md,
        ).shared_intermediate == 0,
{
}

} // verus!
