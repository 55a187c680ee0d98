//! The sizes of a model as its file's metadata gives them.
use crate::env_text::{parse_number, parsed};
use crate::gguf::{GgufIndex, MetaModel};
use crate::moe::text_view;
use crate::profile::{routed_width, shared_width, DEFAULT_ROPE_FREQ_BASE_BITS};
use crate::table::same_text;
use crate::validation::{
    bool_at, concat2, float_bits_at, md_bool_opt, md_float_opt, md_u32_opt, u32_at, value_or,
};
use vstd::prelude::*;

verus! {

/// Context length of a file that names none.
pub const DEFAULT_CONTEXT_LENGTH: usize = 32768;

/// Upper limit of the context length where the environment names none.
pub const DEFAULT_CONTEXT_LIMIT: usize = 81920;

/// What the metadata says of a model.
#[derive(Debug, Clone, Copy, PartialEq, Eq, Structural)]
pub struct ModelDims {
    pub is_moe: bool,
    pub block_count: usize,
    pub embedding_length: usize,
    pub feed_forward_length: usize,
    pub rms_norm_eps_bits: u32,
    pub rope_freq_base_bits: u32,
    pub head_count: usize,
    pub head_count_kv: usize,
    pub head_dim: usize,
    pub conv_kernel: usize,
    pub inner_size: usize,
    pub state_size: usize,
    pub n_v_heads: usize,
    pub n_k_heads: usize,
    pub full_attention_interval: usize,
    pub n_experts: usize,
    pub n_experts_per_tok: usize,
    pub routed_intermediate: usize,
    pub shared_intermediate: usize,
    pub shared_expert_count: usize,
    pub norm_topk: bool,
    pub model_context_length: usize,
}

/// Whether the file holds a mixture-of-experts model.
pub open spec fn moe_file(md: Map<Seq<char>, MetaModel>) -> bool {
    md.dom().contains("general.architecture"@) && md["general.architecture"@].as_text() == Some(
        "qwen35moe"@,
    )
}

/// Name space of a file's keys.
pub open spec fn key_prefix(is_moe: bool) -> Seq<char> {
    if is_moe {
        "qwen35moe"@
    } else {
        "qwen35"@
    }
}

/// Why `key` does not give a 32-bit unsigned integer.
pub open spec fn u32_failure(md: Map<Seq<char>, MetaModel>, key: Seq<char>) -> Option<Seq<char>> {
    if !md.dom().contains(key) {
        Some("cannot find "@ + key + " in metadata"@)
    } else if md[key].as_u32() is None {
        Some("not a u32 "@ + md[key].debug)
    } else {
        None
    }
}

/// Why `key` does not give a 32-bit float.
pub open spec fn float_failure(md: Map<Seq<char>, MetaModel>, key: Seq<char>) -> Option<Seq<char>> {
    if !md.dom().contains(key) {
        Some("cannot find "@ + key + " in metadata"@)
    } else if md[key].as_float_bits() is None {
        Some("not a f32 "@ + md[key].debug)
    } else {
        None
    }
}

/// The first of two failures.
pub open spec fn or_failure(a: Option<Seq<char>>, b: Option<Seq<char>>) -> Option<Seq<char>> {
    if a is Some {
        a
    } else {
        b
    }
}

/// The first required key that fails, in the order in which they are read.
pub open spec fn dims_failure(md: Map<Seq<char>, MetaModel>) -> Option<Seq<char>> {
    let p = key_prefix(moe_file(md));
    or_failure(
        or_failure(
            or_failure(
                u32_failure(md, p + ".block_count"@),
                u32_failure(md, p + ".embedding_length"@),
            ),
            or_failure(
                float_failure(md, p + ".attention.layer_norm_rms_epsilon"@),
                or_failure(
                    u32_failure(md, p + ".attention.head_count"@),
                    u32_failure(md, p + ".attention.head_count_kv"@),
                ),
            ),
        ),
        or_failure(
            or_failure(
                or_failure(
                    u32_failure(md, p + ".ssm.inner_size"@),
                    u32_failure(md, p + ".ssm.state_size"@),
                ),
                or_failure(
                    u32_failure(md, p + ".ssm.time_step_rank"@),
                    u32_failure(md, p + ".ssm.group_count"@),
                ),
            ),
            if moe_file(md) {
                or_failure(
                    u32_failure(md, "qwen35moe.expert_count"@),
                    u32_failure(md, "qwen35moe.expert_used_count"@),
                )
            } else {
                None
            },
        ),
    )
}

/// `value` in a mixture-of-experts model, `dense` in a dense one.
pub open spec fn moe_or<T>(is_moe: bool, value: T, dense: T) -> T {
    if is_moe {
        value
    } else {
        dense
    }
}

/// The sizes that the metadata gives, with the defaults for what may be missing.
pub open spec fn dims_values(md: Map<Seq<char>, MetaModel>) -> ModelDims {
    let moe = moe_file(md);
    let p = key_prefix(moe);
    ModelDims {
        is_moe: moe,
        block_count: value_or(u32_at(md, p + ".block_count"@), 0),
        embedding_length: value_or(u32_at(md, p + ".embedding_length"@), 0),
        feed_forward_length: value_or(u32_at(md, p + ".feed_forward_length"@), 0),
        rms_norm_eps_bits: value_or(
            float_bits_at(md, p + ".attention.layer_norm_rms_epsilon"@),
            0,
        ),
        rope_freq_base_bits: value_or(
            float_bits_at(md, p + ".rope.freq_base"@),
            DEFAULT_ROPE_FREQ_BASE_BITS,
        ),
        head_count: value_or(u32_at(md, p + ".attention.head_count"@), 0),
        head_count_kv: value_or(u32_at(md, p + ".attention.head_count_kv"@), 0),
        head_dim: value_or(u32_at(md, p + ".attention.key_length"@), 256),
        conv_kernel: value_or(u32_at(md, p + ".ssm.conv_kernel"@), 4),
        inner_size: value_or(u32_at(md, p + ".ssm.inner_size"@), 0),
        state_size: value_or(u32_at(md, p + ".ssm.state_size"@), 0),
        n_v_heads: value_or(u32_at(md, p + ".ssm.time_step_rank"@), 0),
        n_k_heads: value_or(u32_at(md, p + ".ssm.group_count"@), 0),
        full_attention_interval: value_or(u32_at(md, p + ".full_attention_interval"@), 4),
        n_experts: moe_or(moe, value_or(u32_at(md, "qwen35moe.expert_count"@), 0), 0),
        n_experts_per_tok: moe_or(
            moe,
            value_or(u32_at(md, "qwen35moe.expert_used_count"@), 0),
            0,
        ),
        routed_intermediate: moe_or(moe, value_or(routed_width(md), 0), 0),
        shared_intermediate: moe_or(moe, value_or(shared_width(md), 0), 0),
        shared_expert_count: moe_or(
            moe,
            value_or(u32_at(md, "qwen35moe.shared_expert_count"@), 1),
            0,
        ),
        norm_topk: moe_or(
            moe,
            value_or(bool_at(md, "qwen35moe.router_norm_topk"@), true),
            false,
        ),
        model_context_length: value_or(u32_at(md, p + ".context_length"@), DEFAULT_CONTEXT_LENGTH),
    }
}

/// Whether a file holds a mixture-of-experts model.
pub fn is_moe_file(index: &GgufIndex) -> (moe: bool)
    requires
        index.wf(),
    ensures
        moe == moe_file(index@.metadata),
{
    match index.meta("general.architecture") {
        None => false,
        Some(value) => match value.to_text() {
            None => false,
            Some(text) => same_text(text, "qwen35moe"),
        },
    }
}

fn need_u32(index: &GgufIndex, key: &str) -> (n: Result<usize, String>)
    requires
        index.wf(),
    ensures
        match n {
            Ok(n) => u32_failure(index@.metadata, key@) is None && u32_at(index@.metadata, key@)
                == Some(n),
            Err(msg) => u32_failure(index@.metadata, key@) == Some(msg@),
        },
{
    match index.meta(key) {
        None => {
            let mut msg = concat2("cannot find ", key);
            msg.append(" in metadata");
            Err(msg)
        },
        Some(value) => match value.to_u32() {
            None => Err(concat2("not a u32 ", value.debug.as_str())),
            Some(n) => Ok(n as usize),
        },
    }
}

fn need_float(index: &GgufIndex, key: &str) -> (bits: Result<u32, String>)
    requires
        index.wf(),
    ensures
        match bits {
            Ok(n) => float_failure(index@.metadata, key@) is None && float_bits_at(
                index@.metadata,
                key@,
            ) == Some(n),
            Err(msg) => float_failure(index@.metadata, key@) == Some(msg@),
        },
{
    match index.meta(key) {
        None => {
            let mut msg = concat2("cannot find ", key);
            msg.append(" in metadata");
            Err(msg)
        },
        Some(value) => match value.to_float_bits() {
            None => Err(concat2("not a f32 ", value.debug.as_str())),
            Some(n) => Ok(n),
        },
    }
}

fn u32_or(index: &GgufIndex, prefix: &str, suffix: &str, default: usize) -> (n: usize)
    requires
        index.wf(),
    ensures
        n == value_or(u32_at(index@.metadata, prefix@ + suffix@), default),
{
    let key = concat2(prefix, suffix);
    match md_u32_opt(index, key.as_str()) {
        Some(n) => n,
        None => default,
    }
}

fn first_of(index: &GgufIndex, a: &str, b: &str, c: &str) -> (n: usize)
    requires
        index.wf(),
    ensures
        n == value_or(crate::profile::first_u32(index@.metadata, a@, b@, c@), 0),
{
    match md_u32_opt(index, a) {
        Some(n) => n,
        None => match md_u32_opt(index, b) {
            Some(n) => n,
            None => match md_u32_opt(index, c) {
                Some(n) => n,
                None => 0,
            },
        },
    }
}

impl ModelDims {
    /// Reads the sizes from a file's metadata.
    pub fn read(index: &GgufIndex) -> (dims: Result<Self, String>)
        requires
            index.wf(),
        ensures
            match dims {
                Ok(d) => dims_failure(index@.metadata) is None && d == dims_values(index@.metadata),
                Err(msg) => dims_failure(index@.metadata) == Some(msg@),
            },
    {
        let is_moe = is_moe_file(index);
        let p: &str = if is_moe {
            "qwen35moe"
        } else {
            "qwen35"
        };
        let block_count: usize = match need_u32(index, concat2(p, ".block_count").as_str()) {
            Ok(n) => n,
            Err(msg) => return Err(msg),
        };
        let embedding_length: usize = match need_u32(
            index,
            concat2(p, ".embedding_length").as_str(),
        ) {
            Ok(n) => n,
            Err(msg) => return Err(msg),
        };
        let rms_norm_eps_bits: u32 = match need_float(
            index,
            concat2(p, ".attention.layer_norm_rms_epsilon").as_str(),
        ) {
            Ok(n) => n,
            Err(msg) => return Err(msg),
        };
        let head_count: usize = match need_u32(index, concat2(p, ".attention.head_count").as_str()) {
            Ok(n) => n,
            Err(msg) => return Err(msg),
        };
        let head_count_kv: usize = match need_u32(
            index,
            concat2(p, ".attention.head_count_kv").as_str(),
        ) {
            Ok(n) => n,
            Err(msg) => return Err(msg),
        };
        let inner_size: usize = match need_u32(index, concat2(p, ".ssm.inner_size").as_str()) {
            Ok(n) => n,
            Err(msg) => return Err(msg),
        };
        let state_size: usize = match need_u32(index, concat2(p, ".ssm.state_size").as_str()) {
            Ok(n) => n,
            Err(msg) => return Err(msg),
        };
        let n_v_heads: usize = match need_u32(index, concat2(p, ".ssm.time_step_rank").as_str()) {
            Ok(n) => n,
            Err(msg) => return Err(msg),
        };
        let n_k_heads: usize = match need_u32(index, concat2(p, ".ssm.group_count").as_str()) {
            Ok(n) => n,
            Err(msg) => return Err(msg),
        };
        let (n_experts, n_experts_per_tok): (usize, usize) = if is_moe {
            let total: usize = match need_u32(index, "qwen35moe.expert_count") {
                Ok(n) => n,
                Err(msg) => return Err(msg),
            };
            let used: usize = match need_u32(index, "qwen35moe.expert_used_count") {
                Ok(n) => n,
                Err(msg) => return Err(msg),
            };
            (total, used)
        } else {
            (0, 0)
        };
        let routed_intermediate: usize = if is_moe {
            first_of(
                index,
                "qwen35moe.feed_forward_length.experts",
                "qwen35moe.intermediate_size_experts",
                "qwen35moe.expert_feed_forward_length",
            )
        } else {
            0
        };
        let shared_intermediate: usize = if is_moe {
            first_of(
                index,
                "qwen35moe.feed_forward_length.shared_expert",
                "qwen35moe.intermediate_size_shared_expert",
                "qwen35moe.expert_shared_feed_forward_length",
            )
        } else {
            0
        };
        let shared_expert_count: usize = if is_moe {
            match md_u32_opt(index, "qwen35moe.shared_expert_count") {
                Some(n) => n,
                None => 1,
            }
        } else {
            0
        };
        let norm_topk: bool = if is_moe {
            match md_bool_opt(index, "qwen35moe.router_norm_topk") {
                Some(b) => b,
                None => true,
            }
        } else {
            false
        };
        let dims = ModelDims {
            is_moe,
            block_count,
            embedding_length,
            feed_forward_length: u32_or(index, p, ".feed_forward_length", 0),
            rms_norm_eps_bits,
            rope_freq_base_bits: md_float_opt(
                index,
                concat2(p, ".rope.freq_base").as_str(),
                DEFAULT_ROPE_FREQ_BASE_BITS,
            ),
            head_count,
            head_count_kv,
            head_dim: u32_or(index, p, ".attention.key_length", 256),
            conv_kernel: u32_or(index, p, ".ssm.conv_kernel", 4),
            inner_size,
            state_size,
            n_v_heads,
            n_k_heads,
            full_attention_interval: u32_or(index, p, ".full_attention_interval", 4),
            n_experts,
            n_experts_per_tok,
            routed_intermediate,
            shared_intermediate,
            shared_expert_count,
            norm_topk,
            model_context_length: u32_or(index, p, ".context_length", DEFAULT_CONTEXT_LENGTH),
        };
        Ok(dims)
    }

    /// Whether the widths that all layers share exist: nothing is divided by zero, and
    /// every product fits.
    pub open spec fn widths_exist(&self) -> bool {
        &&& self.n_v_heads > 0
        &&& 2 * (self.n_k_heads * self.state_size) + self.inner_size <= usize::MAX
    }

    /// Whether the sizes of a DeltaNet layer's state exist.
    pub open spec fn delta_sizes_exist(&self) -> bool {
        &&& self.conv_kernel > 0
        &&& (self.conv_kernel - 1) * self.conv_channels() <= usize::MAX
        &&& self.n_v_heads * self.head_v_dim() * self.head_v_dim() <= usize::MAX
    }

    /// Whether the size of an attention layer's cached rows exists.
    pub open spec fn row_size_exists(&self) -> bool {
        2 * (self.head_count_kv * self.head_dim) <= usize::MAX
    }

    /// Whether the sizes of a layer exist.
    pub open spec fn layer_sizes_exist(&self, layer: nat) -> bool {
        if self.deltanet_layer(layer) {
            self.delta_sizes_exist()
        } else {
            self.row_size_exists()
        }
    }

    /// Whether every size that is derived for the model exists.
    pub open spec fn sound(&self) -> bool {
        &&& self.widths_exist()
        &&& self.block_count > 0 ==> self.full_attention_interval > 0
        &&& self.has_deltanet() ==> self.delta_sizes_exist()
        &&& self.has_attention() ==> self.row_size_exists()
    }

    /// Whether some layer is of the DeltaNet kind.
    pub open spec fn has_deltanet(&self) -> bool {
        self.block_count > 0 && self.full_attention_interval != 1
    }

    /// Whether some layer is of the attention kind.
    pub open spec fn has_attention(&self) -> bool {
        0 < self.full_attention_interval <= self.block_count
    }

    /// A layer's kind occurs in the model.
    pub proof fn lemma_layer_kinds(&self, layer: nat)
        requires
            layer < self.block_count,
            self.full_attention_interval > 0,
        ensures
            self.deltanet_layer(layer) ==> self.has_deltanet(),
            !self.deltanet_layer(layer) ==> self.has_attention(),
    {
        if layer + 1 < self.full_attention_interval {
            vstd::arithmetic::div_mod::lemma_small_mod(
                layer + 1,
                self.full_attention_interval as nat,
            );
        }
    }

    /// Width of one value head.
    pub open spec fn head_v_dim(&self) -> nat {
        (self.inner_size / self.n_v_heads) as nat
    }

    /// Width of all key heads.
    pub open spec fn key_dim(&self) -> nat {
        (self.n_k_heads * self.state_size) as nat
    }

    /// Width of queries, keys and values together.
    pub open spec fn conv_channels(&self) -> nat {
        2 * self.key_dim() + self.inner_size as nat
    }

    /// Whether a layer is of the DeltaNet kind.
    pub open spec fn deltanet_layer(&self, layer: nat) -> bool {
        (layer + 1) % self.full_attention_interval as nat != 0
    }

    /// A model whose layers' sizes all exist is sound.
    pub proof fn lemma_sound(&self)
        requires
            self.widths_exist(),
            self.block_count > 0 ==> self.full_attention_interval > 0,
            forall|i: nat| i < self.block_count ==> #[trigger] self.layer_sizes_exist(i),
        ensures
            self.sound(),
    {
        if self.has_deltanet() {
            vstd::arithmetic::div_mod::lemma_small_mod(1, self.full_attention_interval as nat);
            assert(self.layer_sizes_exist(0));
        }
        if self.has_attention() {
            let last = (self.full_attention_interval - 1) as nat;
            vstd::arithmetic::div_mod::lemma_mod_self_0(self.full_attention_interval as int);
            assert(self.layer_sizes_exist(last));
        }
    }

    /// Tests whether the widths that all layers share exist.
    pub fn has_widths(&self) -> (yes: bool)
        ensures
            yes == self.widths_exist(),
    {
        if self.n_v_heads == 0 {
            return false;
        }
        match self.n_k_heads.checked_mul(self.state_size) {
            None => false,
            Some(key_dim) => match key_dim.checked_mul(2) {
                None => false,
                Some(both) => both.checked_add(self.inner_size).is_some(),
            },
        }
    }

    /// Tests whether the sizes of a layer exist.
    pub fn has_layer_sizes(&self, is_deltanet: bool) -> (yes: bool)
        requires
            self.widths_exist(),
        ensures
            yes == (if is_deltanet {
                self.delta_sizes_exist()
            } else {
                self.row_size_exists()
            }),
    {
        if !is_deltanet {
            return match self.head_count_kv.checked_mul(self.head_dim) {
                None => false,
                Some(row) => row.checked_mul(2).is_some(),
            };
        }
        proof {
            assert(self.n_k_heads * self.state_size >= 0) by (nonlinear_arith);
        }
        let channels: usize = self.n_k_heads * self.state_size * 2 + self.inner_size;
        if self.conv_kernel == 0 || (self.conv_kernel - 1).checked_mul(channels).is_none() {
            return false;
        }
        let head_v_dim: usize = self.inner_size / self.n_v_heads;
        let heads: usize = match self.n_v_heads.checked_mul(head_v_dim) {
            Some(n) => n,
            None => {
                proof {
                    assert(self.n_v_heads * self.head_v_dim() <= self.inner_size)
                        by (nonlinear_arith)
                        requires
                            self.n_v_heads > 0,
                            self.head_v_dim() == self.inner_size / self.n_v_heads,
                    ;
                }
                return false;
            },
        };
        heads.checked_mul(head_v_dim).is_some()
    }

    /// Width of the part of a head that is rotated by position: a quarter.
    pub open spec fn rope_dim(&self) -> nat {
        self.head_dim as nat / 4
    }
}

/// The context length in use: the model's, within the environment's limit.
pub open spec fn context_in_use(model: usize, limit: Option<Seq<char>>) -> usize {
    let most = value_or(
        match limit {
            Some(text) => parsed(text),
            None => None,
        },
        DEFAULT_CONTEXT_LIMIT,
    );
    if model <= most {
        model
    } else {
        most
    }
}

/// Limits the context length.
pub fn limit_context(model: usize, limit: Option<&str>) -> (n: usize)
    ensures
        n == context_in_use(model, text_view(limit)),
{
    let most: usize = match limit {
        Some(text) => match parse_number(text) {
            Some(n) => n,
            None => DEFAULT_CONTEXT_LIMIT,
        },
        None => DEFAULT_CONTEXT_LIMIT,
    };
    if model <= most {
        model
    } else {
        most
    }
}

/// The context in use never exceeds what the model was trained for.
pub proof fn law_context_within_model(model: usize, limit: Option<Seq<char>>)
    ensures
        context_in_use(model, limit) <= model,
{
}

} // verus!
