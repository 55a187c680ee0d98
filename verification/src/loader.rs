//! Planning the load of a model: which tensors each layer needs, in which order
//! they are read, and what state the layers start with.
use crate::delta_state::{fresh_data, DeltaShape};
use crate::embedding::{bounds_text, check_sizes, rank_text, row_bytes, sizes_fit, QuantizedEmbedding};
use crate::gguf::{GgmlDType, GgufIndex, IndexModel, TensorModel};
use crate::kv_cache::{GatedAttentionLayer, SlotModel, StreamModel, DECODE_BATCH_CAPACITY};
use crate::model_dims::{
    context_in_use, dims_failure, dims_values, limit_context, or_failure, ModelDims,
};
use crate::model_state::{layer_wf, DeltaNetLayer, HybridLayerType, ModelWeights};
use crate::moe::{chosen_backend, select_backend, text_view, MoeBackend};
use crate::table::same_text;
use crate::text::{debug_notation, debug_text, decimal, push_decimal};
use crate::validation::concat2;
use vstd::prelude::*;

verus! {

/// What the environment and the device say about a load.
#[derive(Debug)]
pub struct LoadSettings<'a> {
    /// Upper limit of the context length.
    pub context_limit: Option<&'a str>,
    /// Requested backend of the routed experts.
    pub moe_backend: Option<&'a str>,
    /// Format of the batched key/value caches.
    pub kv_cache_dtype: Option<&'a str>,
    /// Whether the model runs on a CUDA device.
    pub is_cuda: bool,
    /// Whether the output projection could be loaded, where the file has one.
    pub output_loads: bool,
}

/// What is planned for one layer.
#[derive(Debug, Clone, Copy, PartialEq, Eq, Structural)]
pub struct LayerPlan {
    pub is_deltanet: bool,
    /// Backend of the routed experts, where the model has some.
    pub backend: Option<MoeBackend>,
}

/// What is planned for a model.
#[derive(Debug)]
pub struct ModelPlan {
    pub dims: ModelDims,
    pub context_length: usize,
    pub head_v_dim: usize,
    pub key_dim: usize,
    pub conv_channels: usize,
    pub rope_dim: usize,
    pub embedding: QuantizedEmbedding,
    /// Whether the embedding table serves as the output projection too.
    pub output_tied: bool,
    pub use_q8_f16_kv_cache: bool,
    pub layers: Vec<LayerPlan>,
}

/// The views of some texts.
pub open spec fn str_views(texts: Seq<&str>) -> Seq<Seq<char>> {
    Seq::new(texts.len(), |i: int| texts[i]@)
}

/// Norms of a layer and then its feed-forward tensors, in reading order.
pub open spec fn first_suffixes(is_moe: bool) -> Seq<Seq<char>> {
    if is_moe {
        seq![
            ".attn_norm.weight"@,
            ".post_attention_norm.weight"@,
            ".ffn_gate_inp.weight"@,
            ".ffn_gate_exps.weight"@,
            ".ffn_up_exps.weight"@,
            ".ffn_down_exps.weight"@,
            ".ffn_gate_inp_shexp.weight"@,
            ".ffn_gate_shexp.weight"@,
            ".ffn_up_shexp.weight"@,
            ".ffn_down_shexp.weight"@,
        ]
    } else {
        seq![
            ".attn_norm.weight"@,
            ".post_attention_norm.weight"@,
            ".ffn_gate.weight"@,
            ".ffn_down.weight"@,
            ".ffn_up.weight"@,
        ]
    }
}

/// Tensors of a layer's mixer, in reading order.
pub open spec fn mixer_suffixes(is_deltanet: bool) -> Seq<Seq<char>> {
    if is_deltanet {
        seq![
            ".attn_qkv.weight"@,
            ".attn_gate.weight"@,
            ".ssm_beta.weight"@,
            ".ssm_alpha.weight"@,
            ".ssm_out.weight"@,
            ".ssm_dt.bias"@,
            ".ssm_a"@,
            ".ssm_conv1d.weight"@,
            ".ssm_norm.weight"@,
        ]
    } else {
        seq![
            ".attn_q.weight"@,
            ".attn_k.weight"@,
            ".attn_v.weight"@,
            ".attn_output.weight"@,
            ".attn_q_norm.weight"@,
            ".attn_k_norm.weight"@,
        ]
    }
}

/// The names of a layer's norms and feed-forward tensors.
pub fn first_names(is_moe: bool) -> (names: Vec<&'static str>)
    ensures
        str_views(names@) == first_suffixes(is_moe),
{
    let names: Vec<&'static str> = if is_moe {
        vec![
            ".attn_norm.weight",
            ".post_attention_norm.weight",
            ".ffn_gate_inp.weight",
            ".ffn_gate_exps.weight",
            ".ffn_up_exps.weight",
            ".ffn_down_exps.weight",
            ".ffn_gate_inp_shexp.weight",
            ".ffn_gate_shexp.weight",
            ".ffn_up_shexp.weight",
            ".ffn_down_shexp.weight",
        ]
    } else {
        vec![
            ".attn_norm.weight",
            ".post_attention_norm.weight",
            ".ffn_gate.weight",
            ".ffn_down.weight",
            ".ffn_up.weight",
        ]
    };
    assert(str_views(names@) =~= first_suffixes(is_moe));
    names
}

/// The names of a mixer's tensors.
pub fn mixer_names(is_deltanet: bool) -> (names: Vec<&'static str>)
    ensures
        str_views(names@) == mixer_suffixes(is_deltanet),
{
    let names: Vec<&'static str> = if is_deltanet {
        vec![
            ".attn_qkv.weight",
            ".attn_gate.weight",
            ".ssm_beta.weight",
            ".ssm_alpha.weight",
            ".ssm_out.weight",
            ".ssm_dt.bias",
            ".ssm_a",
            ".ssm_conv1d.weight",
            ".ssm_norm.weight",
        ]
    } else {
        vec![
            ".attn_q.weight",
            ".attn_k.weight",
            ".attn_v.weight",
            ".attn_output.weight",
            ".attn_q_norm.weight",
            ".attn_k_norm.weight",
        ]
    };
    assert(str_views(names@) =~= mixer_suffixes(is_deltanet));
    names
}

/// Name of the tensors of a layer up to their suffix.
pub open spec fn layer_prefix(layer: nat) -> Seq<char> {
    "blk."@ + decimal(layer)
}

/// What is said of a tensor that the file does not have.
pub open spec fn missing_text(name: Seq<char>) -> Seq<char> {
    "cannot find tensor info for "@ + name
}

/// What is said of the first tensor that is missing, of those from `from` on.
pub open spec fn first_missing(
    t: Map<Seq<char>, TensorModel>,
    prefix: Seq<char>,
    suffixes: Seq<Seq<char>>,
    from: nat,
) -> Option<Seq<char>>
    decreases suffixes.len() - from,
{
    if from >= suffixes.len() {
        None
    } else if !t.dom().contains(prefix + suffixes[from as int]) {
        Some(missing_text(prefix + suffixes[from as int]))
    } else {
        first_missing(t, prefix, suffixes, from + 1)
    }
}

/// Looks for the first missing tensor.
pub(crate) fn find_missing(index: &GgufIndex, prefix: &str, names: &Vec<&'static str>) -> (msg:
    Option<String>)
    requires
        index.wf(),
    ensures
        match msg {
            Some(m) => first_missing(index@.tensor_infos, prefix@, str_views(names@), 0) == Some(m@),
            None => first_missing(index@.tensor_infos, prefix@, str_views(names@), 0) is None,
        },
{
    let mut i: usize = 0;
    while i < names.len()
        invariant
            i <= names@.len(),
            index.wf(),
            first_missing(index@.tensor_infos, prefix@, str_views(names@), 0) == first_missing(
                index@.tensor_infos,
                prefix@,
                str_views(names@),
                i as nat,
            ),
        decreases names@.len() - i,
    {
        let name = concat2(prefix, names[i]);
        if index.tensor(name.as_str()).is_none() {
            return Some(concat2("cannot find tensor info for ", name.as_str()));
        }
        i += 1;
    }
    None
}

/// The first missing tensor is reported, and nothing is where all are there.
pub proof fn lemma_first_missing(
    t: Map<Seq<char>, TensorModel>,
    prefix: Seq<char>,
    suffixes: Seq<Seq<char>>,
    from: nat,
)
    requires
        first_missing(t, prefix, suffixes, from) is None,
    ensures
        forall|i: int|
            from <= i < suffixes.len() ==> t.dom().contains(prefix + #[trigger] suffixes[i]),
    decreases suffixes.len() - from,
{
    if from < suffixes.len() {
        lemma_first_missing(t, prefix, suffixes, from + 1);
    }
}

/// Formats of a layer's routed experts.
pub open spec fn routed_dtypes(t: Map<Seq<char>, TensorModel>, p: Seq<char>) -> (
    GgmlDType,
    GgmlDType,
    GgmlDType,
) {
    (
        t[p + ".ffn_gate_exps.weight"@].ggml_dtype,
        t[p + ".ffn_up_exps.weight"@].ggml_dtype,
        t[p + ".ffn_down_exps.weight"@].ggml_dtype,
    )
}

/// The backend of a layer's routed experts, or why there is none.
pub open spec fn layer_backend(
    t: Map<Seq<char>, TensorModel>,
    p: Seq<char>,
    requested: Option<Seq<char>>,
    is_cuda: bool,
) -> Result<MoeBackend, Seq<char>> {
    let dtypes = routed_dtypes(t, p);
    chosen_backend(requested, is_cuda, dtypes.0, dtypes.1, dtypes.2)
}

/// Why a layer cannot be loaded.
pub open spec fn layer_failure(
    t: Map<Seq<char>, TensorModel>,
    dims: ModelDims,
    layer: nat,
    requested: Option<Seq<char>>,
    is_cuda: bool,
) -> Option<Seq<char>> {
    let p = layer_prefix(layer);
    or_failure(
        first_missing(t, p, first_suffixes(dims.is_moe), 0),
        or_failure(
            if dims.is_moe {
                match layer_backend(t, p, requested, is_cuda) {
                    Ok(_) => None,
                    Err(msg) => Some(msg),
                }
            } else {
                None
            },
            first_missing(t, p, mixer_suffixes(dims.deltanet_layer(layer)), 0),
        ),
    )
}

/// What is planned for a layer that can be loaded.
pub open spec fn layer_plan(
    t: Map<Seq<char>, TensorModel>,
    dims: ModelDims,
    layer: nat,
    requested: Option<Seq<char>>,
    is_cuda: bool,
) -> LayerPlan {
    LayerPlan {
        is_deltanet: dims.deltanet_layer(layer),
        backend: if dims.is_moe {
            match layer_backend(t, layer_prefix(layer), requested, is_cuda) {
                Ok(b) => Some(b),
                Err(_) => None,
            }
        } else {
            None
        },
    }
}

/// Plans one layer.
pub fn plan_layer(
    index: &GgufIndex,
    dims: &ModelDims,
    layer: usize,
    requested: Option<&str>,
    is_cuda: bool,
) -> (plan: Result<LayerPlan, String>)
    requires
        index.wf(),
        dims.full_attention_interval > 0,
        layer < dims.block_count,
    ensures
        match plan {
            Ok(p) => layer_failure(
                index@.tensor_infos,
                *dims,
                layer as nat,
                text_view(requested),
                is_cuda,
            ) is None && p == layer_plan(
                index@.tensor_infos,
                *dims,
                layer as nat,
                text_view(requested),
                is_cuda,
            ),
            Err(msg) => layer_failure(
                index@.tensor_infos,
                *dims,
                layer as nat,
                text_view(requested),
                is_cuda,
            ) == Some(msg@),
        },
{
    let ghost t = index@.tensor_infos;
    let mut prefix = "blk.".to_owned();
    push_decimal(&mut prefix, layer as u64);
    let p = prefix.as_str();
    let first = first_names(dims.is_moe);
    match find_missing(index, p, &first) {
        Some(msg) => return Err(msg),
        None => {},
    }
    let backend = if dims.is_moe {
        proof {
            lemma_first_missing(t, p@, first_suffixes(true), 0);
            assert(t.dom().contains(p@ + first_suffixes(true)[3]));
            assert(t.dom().contains(p@ + first_suffixes(true)[4]));
            assert(t.dom().contains(p@ + first_suffixes(true)[5]));
        }
        let gate_name = concat2(p, ".ffn_gate_exps.weight");
        let up_name = concat2(p, ".ffn_up_exps.weight");
        let down_name = concat2(p, ".ffn_down_exps.weight");
        match (
            index.tensor(gate_name.as_str()),
            index.tensor(up_name.as_str()),
            index.tensor(down_name.as_str()),
        ) {
            (Some(gate), Some(up), Some(down)) => match select_backend(
                requested,
                is_cuda,
                gate.ggml_dtype,
                up.ggml_dtype,
                down.ggml_dtype,
            ) {
                Ok(b) => Some(b),
                Err(msg) => return Err(msg),
            },
            _ => {
                assert(false);
                None
            },
        }
    } else {
        None
    };
    let is_deltanet = (layer + 1) % dims.full_attention_interval != 0;
    let mixer = mixer_names(is_deltanet);
    match find_missing(index, p, &mixer) {
        Some(msg) => return Err(msg),
        None => {},
    }
    Ok(LayerPlan { is_deltanet, backend })
}

/// Whether the batched caches hold their rows in half precision, or what is wrong with
/// the request. Without a request they stay compact.
pub open spec fn kv_choice(requested: Option<Seq<char>>) -> Result<bool, Seq<char>> {
    match requested {
        None => Ok(false),
        Some(text) => if text == "q8"@ {
            Ok(false)
        } else if text == "q8_f16"@ {
            Ok(true)
        } else {
            Err("QWEN36_KV_CACHE_DTYPE must be q8 or q8_f16, got "@ + debug_notation(text))
        },
    }
}

/// Chooses the format of the batched caches.
pub fn choose_kv_format(requested: Option<&str>) -> (choice: Result<bool, String>)
    ensures
        match choice {
            Ok(b) => kv_choice(text_view(requested)) == Ok::<bool, Seq<char>>(b),
            Err(msg) => kv_choice(text_view(requested)) == Err::<bool, Seq<char>>(msg@),
        },
{
    match requested {
        None => Ok(false),
        Some(text) => {
            if same_text(text, "q8") {
                Ok(false)
            } else if same_text(text, "q8_f16") {
                Ok(true)
            } else {
                let shown = debug_text(text);
                Err(concat2("QWEN36_KV_CACHE_DTYPE must be q8 or q8_f16, got ", shown.as_str()))
            }
        },
    }
}

/// Why the embedding table of a file cannot be used.
pub open spec fn embedding_failure(index: IndexModel, file_len: usize) -> Option<Seq<char>> {
    let name = "token_embd.weight"@;
    if !index.tensor_infos.dom().contains(name) {
        Some(missing_text(name))
    } else {
        let info = index.tensor_infos[name];
        if info.dims.len() != 2 {
            Some(rank_text(info.dims))
        } else {
            let from = (index.tensor_data_offset + info.offset) as nat;
            let to = from + info.dims[0] as nat * row_bytes(info.ggml_dtype, info.dims[1] as nat);
            if to > file_len {
                Some(bounds_text(from, to, file_len as nat))
            } else {
                None
            }
        }
    }
}

/// Why a file cannot be loaded up to its layers.
pub open spec fn head_failure(
    index: IndexModel,
    file_len: usize,
    kv_cache_dtype: Option<Seq<char>>,
) -> Option<Seq<char>> {
    or_failure(
        or_failure(dims_failure(index.metadata), embedding_failure(index, file_len)),
        or_failure(
            if index.tensor_infos.dom().contains("output_norm.weight"@) {
                None
            } else {
                Some(missing_text("output_norm.weight"@))
            },
            match kv_choice(kv_cache_dtype) {
                Ok(_) => None,
                Err(msg) => Some(msg),
            },
        ),
    )
}

/// The failure of the first layer that cannot be loaded, of those from `from` on.
pub open spec fn layers_failure(
    t: Map<Seq<char>, TensorModel>,
    dims: ModelDims,
    from: nat,
    requested: Option<Seq<char>>,
    is_cuda: bool,
) -> Option<Seq<char>>
    decreases dims.block_count - from,
{
    if from >= dims.block_count {
        None
    } else {
        or_failure(
            layer_failure(t, dims, from, requested, is_cuda),
            layers_failure(t, dims, from + 1, requested, is_cuda),
        )
    }
}

/// Why a file cannot be loaded.
pub open spec fn load_failure(
    index: IndexModel,
    file_len: usize,
    settings: LoadSettings<'_>,
) -> Option<Seq<char>> {
    or_failure(
        head_failure(index, file_len, text_view(settings.kv_cache_dtype)),
        layers_failure(
            index.tensor_infos,
            dims_values(index.metadata),
            0,
            text_view(settings.moe_backend),
            settings.is_cuda,
        ),
    )
}

/// Whether the layers from `from` on are all planned, or one is refused, before a layer
/// comes whose sizes do not exist.
pub open spec fn layers_plannable(
    t: Map<Seq<char>, TensorModel>,
    dims: ModelDims,
    from: nat,
    requested: Option<Seq<char>>,
    is_cuda: bool,
) -> bool
    decreases dims.block_count - from,
{
    if from >= dims.block_count {
        true
    } else {
        layer_failure(t, dims, from, requested, is_cuda) is Some || (dims.layer_sizes_exist(from)
            && layers_plannable(t, dims, from + 1, requested, is_cuda))
    }
}

/// Whether a file is planned, or refused, before a size is met that does not exist. The
/// sizes are met in this order: the widths, the embedding table's place, the spacing of
/// the attention layers, and those of each layer behind its tensors.
pub open spec fn plannable(
    index: IndexModel,
    file_len: usize,
    settings: LoadSettings<'_>,
) -> bool {
    let dims = dims_values(index.metadata);
    dims_failure(index.metadata) is Some || {
        &&& dims.widths_exist()
        &&& index.tensor_infos.dom().contains("token_embd.weight"@) ==> sizes_fit(
            index.tensor_infos["token_embd.weight"@],
            index.tensor_data_offset,
        )
        &&& head_failure(index, file_len, text_view(settings.kv_cache_dtype)) is Some || {
            &&& dims.block_count > 0 ==> dims.full_attention_interval > 0
            &&& layers_plannable(
                index.tensor_infos,
                dims,
                0,
                text_view(settings.moe_backend),
                settings.is_cuda,
            )
        }
    }
}

proof fn lemma_planned_sizes_exist(
    t: Map<Seq<char>, TensorModel>,
    dims: ModelDims,
    from: nat,
    requested: Option<Seq<char>>,
    is_cuda: bool,
)
    requires
        layers_plannable(t, dims, from, requested, is_cuda),
        layers_failure(t, dims, from, requested, is_cuda) is None,
    ensures
        forall|i: nat|
            from <= i < dims.block_count ==> #[trigger] dims.layer_sizes_exist(i),
    decreases dims.block_count - from,
{
    if from < dims.block_count {
        lemma_planned_sizes_exist(t, dims, from + 1, requested, is_cuda);
    }
}

impl ModelPlan {
    /// What the parts of a plan have to do with each other.
    pub open spec fn wf(&self) -> bool {
        &&& self.dims.sound()
        &&& self.head_v_dim == self.dims.head_v_dim()
        &&& self.key_dim == self.dims.key_dim()
        &&& self.conv_channels == self.dims.conv_channels()
        &&& self.rope_dim == self.dims.rope_dim()
        &&& self.embedding.wf()
        &&& self.layers@.len() == self.dims.block_count
        &&& forall|i: int|
            0 <= i < self.layers@.len() ==> (#[trigger] self.layers@[i]).is_deltanet
                == self.dims.deltanet_layer(i as nat)
    }

    /// Whether a plan is the one for a file.
    pub open spec fn is_for(
        &self,
        index: IndexModel,
        file_len: usize,
        settings: LoadSettings<'_>,
    ) -> bool {
        let info = index.tensor_infos["token_embd.weight"@];
        &&& self.dims == dims_values(index.metadata)
        &&& self.context_length == context_in_use(
            self.dims.model_context_length,
            text_view(settings.context_limit),
        )
        &&& self.embedding.n_rows == info.dims[0]
        &&& self.embedding.n_cols == info.dims[1]
        &&& self.embedding.ggml_dtype == info.ggml_dtype
        &&& self.embedding.data_offset == index.tensor_data_offset + info.offset
        &&& self.embedding.data_offset + self.embedding.data_len <= file_len
        &&& self.output_tied == !(settings.output_loads && index.tensor_infos.dom().contains(
            "output.weight"@,
        ))
        &&& kv_choice(text_view(settings.kv_cache_dtype)) == Ok::<bool, Seq<char>>(
            self.use_q8_f16_kv_cache,
        )
        &&& forall|i: int|
            0 <= i < self.layers@.len() ==> #[trigger] self.layers@[i] == layer_plan(
                index.tensor_infos,
                self.dims,
                i as nat,
                text_view(settings.moe_backend),
                settings.is_cuda,
            )
    }

    /// Plans the load of a file of `file_len` bytes.
    pub fn build(index: &GgufIndex, file_len: usize, settings: &LoadSettings<'_>) -> (plan: Result<
        Self,
        String,
    >)
        requires
            index.wf(),
            plannable(index@, file_len, *settings),
        ensures
            match plan {
                Ok(p) => load_failure(index@, file_len, *settings) is None && p.wf() && p.is_for(
                    index@,
                    file_len,
                    *settings,
                ),
                Err(msg) => load_failure(index@, file_len, *settings) == Some(msg@),
            },
    {
        match ModelPlan::try_build(index, file_len, settings) {
            Ok(Some(plan)) => Ok(plan),
            Ok(None) => {
                assert(false);
                Err(String::new())
            },
            Err(msg) => Err(msg),
        }
    }

    /// Plans the load of a file of `file_len` bytes. There is no plan where a size is met
    /// that does not exist.
    pub fn try_build(index: &GgufIndex, file_len: usize, settings: &LoadSettings<'_>) -> (plan:
        Result<Option<Self>, String>)
        requires
            index.wf(),
        ensures
            match plan {
                Ok(Some(p)) => {
                    &&& plannable(index@, file_len, *settings)
                    &&& load_failure(index@, file_len, *settings) is None
                    &&& p.wf()
                    &&& p.is_for(index@, file_len, *settings)
                },
                Ok(None) => !plannable(index@, file_len, *settings),
                Err(msg) => plannable(index@, file_len, *settings) && load_failure(
                    index@,
                    file_len,
                    *settings,
                ) == Some(msg@),
            },
    {
        let ghost t = index@.tensor_infos;
        let dims = match ModelDims::read(index) {
            Ok(d) => d,
            Err(msg) => return Err(msg),
        };
        if !dims.has_widths() {
            return Ok(None);
        }
        let head_v_dim: usize = dims.inner_size / dims.n_v_heads;
        proof {
            assert(dims.n_k_heads * dims.state_size >= 0) by (nonlinear_arith);
        }
        let key_dim: usize = dims.n_k_heads * dims.state_size;
        let conv_channels: usize = key_dim * 2 + dims.inner_size;
        let context_length: usize = limit_context(dims.model_context_length, settings.context_limit);
        let embedding = match index.tensor("token_embd.weight") {
            None => {
                return Err(concat2("cannot find tensor info for ", "token_embd.weight"));
            },
            Some(info) => {
                if !check_sizes(info, index.tensor_data_offset) {
                    return Ok(None);
                }
                match QuantizedEmbedding::from_mmap(info, index.tensor_data_offset, file_len) {
                    Ok(e) => e,
                    Err(msg) => return Err(msg),
                }
            },
        };
        if index.tensor("output_norm.weight").is_none() {
            return Err(concat2("cannot find tensor info for ", "output_norm.weight"));
        }
        let output_tied = !settings.output_loads || index.tensor("output.weight").is_none();
        let use_q8_f16_kv_cache = match choose_kv_format(settings.kv_cache_dtype) {
            Ok(b) => b,
            Err(msg) => return Err(msg),
        };
        assert(head_failure(index@, file_len, text_view(settings.kv_cache_dtype)) is None);
        if dims.block_count > 0 && dims.full_attention_interval == 0 {
            return Ok(None);
        }
        let layers = match plan_layers(index, &dims, settings.moe_backend, settings.is_cuda) {
            Ok(Some(l)) => l,
            Ok(None) => return Ok(None),
            Err(msg) => return Err(msg),
        };
        proof {
            lemma_planned_sizes_exist(
                t,
                dims,
                0,
                text_view(settings.moe_backend),
                settings.is_cuda,
            );
            dims.lemma_sound();
        }
        Ok(
            Some(
                ModelPlan {
                    dims,
                    context_length,
                    head_v_dim,
                    key_dim,
                    conv_channels,
                    rope_dim: dims.head_dim / 4,
                    embedding,
                    output_tied,
                    use_q8_f16_kv_cache,
                    layers,
                },
            ),
        )
    }
}

fn plan_layers(
    index: &GgufIndex,
    dims: &ModelDims,
    requested: Option<&str>,
    is_cuda: bool,
) -> (plans: Result<Option<Vec<LayerPlan>>, String>)
    requires
        index.wf(),
        dims.widths_exist(),
        dims.block_count > 0 ==> dims.full_attention_interval > 0,
    ensures
        ({
            let t = index@.tensor_infos;
            let failure = layers_failure(t, *dims, 0, text_view(requested), is_cuda);
            let all = layers_plannable(t, *dims, 0, text_view(requested), is_cuda);
            match plans {
                Ok(Some(l)) => {
                    &&& all && failure is None
                    &&& l@.len() == dims.block_count
                    &&& forall|i: int|
                        0 <= i < l@.len() ==> #[trigger] l@[i] == layer_plan(
                            t,
                            *dims,
                            i as nat,
                            text_view(requested),
                            is_cuda,
                        )
                },
                Ok(None) => !all,
                Err(msg) => all && failure == Some(msg@),
            }
        }),
{
    let ghost t = index@.tensor_infos;
    let mut layers: Vec<LayerPlan> = Vec::new();
    let mut i: usize = 0;
    while i < dims.block_count
        invariant
            i <= dims.block_count,
            index.wf(),
            dims.widths_exist(),
            dims.block_count > 0 ==> dims.full_attention_interval > 0,
            t == index@.tensor_infos,
            layers@.len() == i,
            forall|k: int|
                0 <= k < i ==> #[trigger] layers@[k] == layer_plan(
                    t,
                    *dims,
                    k as nat,
                    text_view(requested),
                    is_cuda,
                ),
            layers_failure(t, *dims, 0, text_view(requested), is_cuda) == layers_failure(
                t,
                *dims,
                i as nat,
                text_view(requested),
                is_cuda,
            ),
            layers_plannable(t, *dims, 0, text_view(requested), is_cuda) == layers_plannable(
                t,
                *dims,
                i as nat,
                text_view(requested),
                is_cuda,
            ),
        decreases dims.block_count - i,
    {
        let plan = match plan_layer(index, dims, i, requested, is_cuda) {
            Ok(p) => p,
            Err(msg) => return Err(msg),
        };
        if !dims.has_layer_sizes(plan.is_deltanet) {
            return Ok(None);
        }
        layers.push(plan);
        i += 1;
    }
    Ok(Some(layers))
}

/// A random number from `rand::random`, the identity of a model instance. Nothing is
/// stated of the result: it depends on chance alone.
#[verifier::external_body]
fn random_nonce() -> (nonce: u64) {
    rand::random::<u64>()
}

/// Whether a layer is the one that a plan calls for, with no state yet.
pub open spec fn starts_fresh(layer: HybridLayerType, plan: ModelPlan, i: int) -> bool {
    match layer {
        HybridLayerType::DeltaNet(d) => {
            &&& plan.layers@[i].is_deltanet
            &&& d.state.shape() == (DeltaShape {
                conv_kernel: plan.dims.conv_kernel as nat,
                channels: plan.conv_channels as nat,
                n_v_heads: plan.dims.n_v_heads as nat,
                head_v_dim: plan.head_v_dim as nat,
            })
            &&& d.state@ == fresh_data(d.state.shape())
            &&& forall|s: int|
                0 <= s < DECODE_BATCH_CAPACITY ==> (#[trigger] d.cpu_state_batched@[s])@
                    == fresh_data(d.state.shape())
        },
        HybridLayerType::Attention(a) => {
            &&& !plan.layers@[i].is_deltanet
            &&& a.attn_window == plan.context_length
            &&& a.max_cache_len == plan.context_length
            &&& a.use_q8_f16_kv_cache == plan.use_q8_f16_kv_cache
            &&& a.row_bytes == 2 * (plan.dims.head_count_kv * plan.dims.head_dim)
            &&& a.stream() == (StreamModel { rows: Seq::empty(), capacity: None })
            &&& forall|s: int|
                0 <= s < DECODE_BATCH_CAPACITY ==> #[trigger] a.slot(s) == (SlotModel {
                    rows: Seq::empty(),
                    capacity: None,
                })
        },
    }
}

impl ModelWeights {
    /// A model in its initial state, under the given identity.
    pub fn with_nonce(plan: &ModelPlan, on_metal: bool, nonce: u64) -> (model: Self)
        requires
            plan.wf(),
        ensures
            model.wf(),
            model.instance_nonce == nonce,
            model.context_length == plan.context_length,
            model.hidden_size == plan.embedding.n_cols,
            model.blocks@.len() == plan.dims.block_count,
            forall|i: int|
                0 <= i < model.blocks@.len() ==> starts_fresh(#[trigger] model.blocks@[i], *plan, i),
    {
        let mut blocks: Vec<HybridLayerType> = Vec::new();
        let mut i: usize = 0;
        while i < plan.layers.len()
            invariant
                i <= plan.layers@.len(),
                plan.wf(),
                blocks@.len() == i,
                forall|k: int|
                    0 <= k < i ==> layer_wf(#[trigger] blocks@[k]) && starts_fresh(
                        blocks@[k],
                        *plan,
                        k,
                    ),
            decreases plan.layers@.len() - i,
        {
            proof {
                plan.dims.lemma_layer_kinds(i as nat);
            }
            let layer = if plan.layers[i].is_deltanet {
                HybridLayerType::DeltaNet(
                    DeltaNetLayer::new(
                        plan.dims.conv_kernel,
                        plan.conv_channels,
                        plan.dims.n_v_heads,
                        plan.head_v_dim,
                        on_metal,
                    ),
                )
            } else {
                let row_bytes: usize = (plan.dims.head_count_kv * plan.dims.head_dim) * 2;
                HybridLayerType::Attention(
                    GatedAttentionLayer::new(
                        plan.context_length,
                        plan.use_q8_f16_kv_cache,
                        row_bytes,
                    ),
                )
            };
            blocks.push(layer);
            i += 1;
        }
        ModelWeights {
            blocks,
            context_length: plan.context_length,
            hidden_size: plan.embedding.n_cols,
            instance_nonce: nonce,
        }
    }

    /// A model in its initial state, under an identity of its own.
    pub fn from_plan(plan: &ModelPlan, on_metal: bool) -> (model: Self)
        requires
            plan.wf(),
        ensures
            model.wf(),
            model.context_length == plan.context_length,
            model.hidden_size == plan.embedding.n_cols,
            model.blocks@.len() == plan.dims.block_count,
            forall|i: int|
                0 <= i < model.blocks@.len() ==> starts_fresh(#[trigger] model.blocks@[i], *plan, i),
    {
        let nonce: u64 = random_nonce();
        ModelWeights::with_nonce(plan, on_metal, nonce)
    }
}

proof fn lemma_layers_load(
    t: Map<Seq<char>, TensorModel>,
    dims: ModelDims,
    from: nat,
    layer: nat,
    requested: Option<Seq<char>>,
    is_cuda: bool,
)
    requires
        layers_failure(t, dims, from, requested, is_cuda) is None,
        from <= layer < dims.block_count,
    ensures
        layer_failure(t, dims, layer, requested, is_cuda) is None,
    decreases dims.block_count - from,
{
    if from < layer {
        lemma_layers_load(t, dims, from + 1, layer, requested, is_cuda);
    }
}

/// A file that a plan is made for has every tensor of every layer.
pub proof fn law_planned_file_is_complete(
    index: IndexModel,
    file_len: usize,
    settings: LoadSettings<'_>,
    layer: nat,
    i: int,
)
    requires
        load_failure(index, file_len, settings) is None,
        layer < dims_values(index.metadata).block_count,
    ensures
        0 <= i < first_suffixes(dims_values(index.metadata).is_moe).len()
            ==> index.tensor_infos.dom().contains(
            layer_prefix(layer) + first_suffixes(dims_values(index.metadata).is_moe)[i],
        ),
        0 <= i < mixer_suffixes(dims_values(index.metadata).deltanet_layer(layer)).len()
            ==> index.tensor_infos.dom().contains(
            layer_prefix(layer) + mixer_suffixes(
                dims_values(index.metadata).deltanet_layer(layer),
            )[i],
        ),
{
    let dims = dims_values(index.metadata);
    let t = index.tensor_infos;
    lemma_layers_load(t, dims, 0, layer, text_view(settings.moe_backend), settings.is_cuda);
    lemma_first_missing(t, layer_prefix(layer), first_suffixes(dims.is_moe), 0);
    lemma_first_missing(
        t,
        layer_prefix(layer),
        mixer_suffixes(dims.deltanet_layer(layer)),
        0,
    );
}

/// How many of the first `n` layers are attention layers.
pub open spec fn attention_layers(dims: ModelDims, n: nat) -> nat
    decreases n,
{
    if n == 0 {
        0
    } else if dims.deltanet_layer((n - 1) as nat) {
        attention_layers(dims, (n - 1) as nat)
    } else {
        attention_layers(dims, (n - 1) as nat) + 1
    }
}

/// One layer of every `full_attention_interval` is an attention layer.
pub proof fn law_attention_layers_are_spaced(dims: ModelDims, n: nat)
    requires
        dims.full_attention_interval > 0,
    ensures
        attention_layers(dims, n) == n / dims.full_attention_interval as nat,
    decreases n,
{
    let k = dims.full_attention_interval as int;
    if n == 0 {
        vstd::arithmetic::div_mod::lemma_div_of0(k);
    } else {
        law_attention_layers_are_spaced(dims, (n - 1) as nat);
        let m = n - 1;
        vstd::arithmetic::div_mod::lemma_fundamental_div_mod(m, k);
        vstd::arithmetic::div_mod::lemma_fundamental_div_mod(n as int, k);
        vstd::arithmetic::div_mod::lemma_mod_bound(m, k);
        vstd::arithmetic::div_mod::lemma_mod_bound(n as int, k);
        let q = m / k;
        let r = m % k;
        if r == k - 1 {
            assert(n == k * (q + 1)) by (nonlinear_arith)
                requires
                    n == k * q + r + 1,
                    r == k - 1,
            ;
            vstd::arithmetic::div_mod::lemma_fundamental_div_mod_converse(n as int, k, q + 1, 0);
        } else {
            vstd::arithmetic::div_mod::lemma_fundamental_div_mod_converse(n as int, k, q, r + 1);
        }
    }
}

proof fn lemma_layers_fail(
    t: Map<Seq<char>, TensorModel>,
    dims: ModelDims,
    from: nat,
    layer: nat,
    requested: Option<Seq<char>>,
    is_cuda: bool,
)
    requires
        from <= layer < dims.block_count,
        layer_failure(t, dims, layer, requested, is_cuda) is Some,
        forall|i: nat|
            from <= i < layer ==> #[trigger] layer_failure(t, dims, i, requested, is_cuda) is None,
    ensures
        layers_failure(t, dims, from, requested, is_cuda) == layer_failure(
            t,
            dims,
            layer,
            requested,
            is_cuda,
        ),
    decreases layer - from,
{
    if from < layer {
        assert(layer_failure(t, dims, from, requested, is_cuda) is None);
        lemma_layers_fail(t, dims, from + 1, layer, requested, is_cuda);
    }
}

proof fn lemma_layers_pass(
    t: Map<Seq<char>, TensorModel>,
    dims: ModelDims,
    from: nat,
    requested: Option<Seq<char>>,
    is_cuda: bool,
)
    requires
        forall|i: nat|
            from <= i < dims.block_count ==> #[trigger] layer_failure(
                t,
                dims,
                i,
                requested,
                is_cuda,
            ) is None,
    ensures
        layers_failure(t, dims, from, requested, is_cuda) is None,
    decreases dims.block_count - from,
{
    if from < dims.block_count {
        assert(layer_failure(t, dims, from, requested, is_cuda) is None);
        lemma_layers_pass(t, dims, from + 1, requested, is_cuda);
    }
}

/// Loading fails at the first layer that cannot be planned, and says why that one cannot.
pub proof fn law_the_first_bad_layer_is_named(
    index: IndexModel,
    file_len: usize,
    settings: LoadSettings<'_>,
    layer: nat,
)
    requires
        head_failure(index, file_len, text_view(settings.kv_cache_dtype)) is None,
        layer < dims_values(index.metadata).block_count,
        layer_failure(
            index.tensor_infos,
            dims_values(index.metadata),
            layer,
            text_view(settings.moe_backend),
            settings.is_cuda,
        ) is Some,
        forall|i: nat|
            i < layer ==> #[trigger] layer_failure(
                index.tensor_infos,
                dims_values(index.metadata),
                i,
                text_view(settings.moe_backend),
                settings.is_cuda,
            ) is None,
    ensures
        load_failure(index, file_len, settings) == layer_failure(
            index.tensor_infos,
            dims_values(index.metadata),
            layer,
            text_view(settings.moe_backend),
            settings.is_cuda,
        ),
{
    lemma_layers_fail(
        index.tensor_infos,
        dims_values(index.metadata),
        0,
        layer,
        text_view(settings.moe_backend),
        settings.is_cuda,
    );
}

/// A file loads where its sizes can be read, its embedding table has two dimensions and
/// lies inside the file, its last norm is there, the cache format is known, and every layer
/// can be planned.
pub proof fn law_complete_files_load(
    index: IndexModel,
    file_len: usize,
    settings: LoadSettings<'_>,
)
    ensures
        ({
            let t = index.tensor_infos;
            let name = "token_embd.weight"@;
            let info = t[name];
            let end = index.tensor_data_offset + info.offset + info.dims[0] * row_bytes(
                info.ggml_dtype,
                info.dims[1] as nat,
            );
            head_failure(index, file_len, text_view(settings.kv_cache_dtype)) is None <==> {
                &&& dims_failure(index.metadata) is None
                &&& t.dom().contains(name)
                &&& info.dims.len() == 2
                &&& end <= file_len
                &&& t.dom().contains("output_norm.weight"@)
                &&& kv_choice(text_view(settings.kv_cache_dtype)) is Ok
            }
        }),
        head_failure(index, file_len, text_view(settings.kv_cache_dtype)) is None && (forall|
            i: nat,
        |
            i < dims_values(index.metadata).block_count ==> #[trigger] layer_failure(
                index.tensor_infos,
                dims_values(index.metadata),
                i,
                text_view(settings.moe_backend),
                settings.is_cuda,
            ) is None) ==> load_failure(index, file_len, settings) is None,
        load_failure(index, file_len, settings) is None ==> head_failure(
            index,
            file_len,
            text_view(settings.kv_cache_dtype),
        ) is None,
{
    let dims = dims_values(index.metadata);
    if forall|i: nat|
        i < dims.block_count ==> #[trigger] layer_failure(
            index.tensor_infos,
            dims,
            i,
            text_view(settings.moe_backend),
            settings.is_cuda,
        ) is None {
        lemma_layers_pass(
            index.tensor_infos,
            dims,
            0,
            text_view(settings.moe_backend),
            settings.is_cuda,
        );
    }
}

/// A plan reads the embedding table where the file puts it, ties the output to it where
/// there is no output matrix that loads, and plans each layer for what it is: its experts'
/// backend suits the formats of the layer's own gate, up and down matrices, and a dense
/// layer has none.
pub proof fn law_plans_follow_the_file(
    plan: ModelPlan,
    index: IndexModel,
    file_len: usize,
    settings: LoadSettings<'_>,
    i: int,
)
    requires
        plan.wf(),
        plan.is_for(index, file_len, settings),
        load_failure(index, file_len, settings) is None,
        0 <= i < plan.layers@.len(),
    ensures
        ({
            let t = index.tensor_infos;
            let p = "blk."@ + decimal(i as nat);
            let info = t["token_embd.weight"@];
            let interval = plan.dims.full_attention_interval as int;
            &&& plan.layers@.len() == dims_values(index.metadata).block_count
            &&& plan.embedding.data_offset == index.tensor_data_offset + info.offset
            &&& plan.embedding.n_rows == info.dims[0] && plan.embedding.n_cols == info.dims[1]
            &&& plan.output_tied <==> !settings.output_loads || !t.dom().contains(
                "output.weight"@,
            )
            &&& plan.context_length <= plan.dims.model_context_length
            &&& interval > 0 ==> (plan.layers@[i].is_deltanet <==> (i + 1) % interval != 0)
            &&& plan.dims.is_moe <==> plan.layers@[i].backend is Some
            &&& plan.dims.is_moe ==> chosen_backend(
                text_view(settings.moe_backend),
                settings.is_cuda,
                t[p + ".ffn_gate_exps.weight"@].ggml_dtype,
                t[p + ".ffn_up_exps.weight"@].ggml_dtype,
                t[p + ".ffn_down_exps.weight"@].ggml_dtype,
            ) == Ok::<MoeBackend, Seq<char>>(plan.layers@[i].backend->0)
        }),
{
    let t = index.tensor_infos;
    let dims = dims_values(index.metadata);
    lemma_layers_load(
        t,
        dims,
        0,
        i as nat,
        text_view(settings.moe_backend),
        settings.is_cuda,
    );
    assert(plan.layers@[i] == layer_plan(
        t,
        plan.dims,
        i as nat,
        text_view(settings.moe_backend),
        settings.is_cuda,
    ));
}

/// A model starts from nothing: no row is cached, in the stream or in a slot, and every
/// recurrent state is zero. Attention looks back as far as the context reaches, and a cached
/// row has a key and a value for each head.
pub proof fn law_models_start_from_nothing(
    layer: HybridLayerType,
    plan: ModelPlan,
    i: int,
    s: int,
)
    requires
        starts_fresh(layer, plan, i),
        0 <= s < DECODE_BATCH_CAPACITY,
    ensures
        match layer {
            HybridLayerType::Attention(a) => {
                &&& a.stream().rows.len() == 0 && a.slot(s).rows.len() == 0
                &&& a.stream().capacity is None && a.slot(s).capacity is None
                &&& a.attn_window == plan.context_length && a.max_cache_len == plan.context_length
                &&& a.row_bytes == plan.dims.head_count_kv * plan.dims.head_dim
                    + plan.dims.head_count_kv * plan.dims.head_dim
            },
            HybridLayerType::DeltaNet(d) => {
                &&& d.cpu_state_batched@[s]@ == d.state@
                &&& forall|k: int| 0 <= k < d.state@.conv.len() ==> #[trigger] d.state@.conv[k] == 0
                &&& forall|k: int| 0 <= k < d.state@.ssm.len() ==> #[trigger] d.state@.ssm[k] == 0
                &&& d.state@.ssm.len() == plan.dims.n_v_heads * plan.head_v_dim * plan.head_v_dim
                &&& d.state@.conv.len() == (plan.dims.conv_kernel - 1) * plan.conv_channels
                    || plan.dims.conv_kernel == 0
            },
        },
{
    if layer is DeltaNet {
        if plan.dims.conv_kernel > 0 {
            assert((plan.dims.conv_kernel - 1) * plan.conv_channels >= 0) by (nonlinear_arith)
                requires
                    plan.dims.conv_kernel > 0,
            ;
        }
    }
}

} // verus!
