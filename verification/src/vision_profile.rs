//! The immutable contract of the vision component.
use crate::gguf::{GgmlDType, GgufIndex, IndexModel, MetaModel, TensorModel};
use crate::profile::{collect_formats, lists_formats};
use crate::table::same_text;
use crate::text::{decimal, lemma_concat_assoc, push_decimal};
use crate::validation::{
    concat2, contract_errors, md_u32, missing_key_text, report_text, require_tensor_contract,
    u32_at, u32_errors, value_or, ValidationErrors,
};
use vstd::prelude::*;

verus! {

/// What the vision component is, once validated.
#[derive(Debug)]
pub struct VisionProfile {
    pub block_count: usize,
    pub hidden_size: usize,
    pub intermediate_size: usize,
    pub head_count: usize,
    pub projection_dim: usize,
    pub patch_size: usize,
    pub spatial_merge_size: usize,
    pub position_embeddings: usize,
    /// Distinct formats of the tensors, each once.
    pub quant_set: Vec<GgmlDType>,
}

/// A declared number, or zero.
pub open spec fn declared(md: Map<Seq<char>, MetaModel>, key: Seq<char>) -> nat {
    value_or(u32_at(md, key), 0) as nat
}

/// How many position embeddings an image of the declared size needs.
pub open spec fn declared_positions(md: Map<Seq<char>, MetaModel>) -> nat {
    let patch = declared(md, "clip.vision.patch_size"@);
    let side = declared(md, "clip.vision.image_size"@) / (if patch == 0 {
        1
    } else {
        patch
    });
    side * side
}

/// What is wrong with the declared architecture.
pub open spec fn clip_errors(md: Map<Seq<char>, MetaModel>) -> Seq<Seq<char>> {
    if !md.dom().contains("general.architecture"@) {
        seq![missing_key_text("general.architecture"@)]
    } else if md["general.architecture"@].as_text() == Some("clip"@) {
        seq![]
    } else {
        seq![
            "general.architecture="@ + md["general.architecture"@].debug
                + ", expected clip for Qwen3.5 Vision"@,
        ]
    }
}

/// What is wrong with a number that has one accepted value.
pub open spec fn value_errors(name: Seq<char>, actual: nat, expected: nat) -> Seq<Seq<char>> {
    if actual == expected {
        seq![]
    } else {
        seq!["Vision "@ + name + "="@ + decimal(actual) + ", expected "@ + decimal(expected)]
    }
}

/// What is wrong with the number of tensors.
pub open spec fn tensor_count_errors(count: nat) -> Seq<Seq<char>> {
    if count == 298 {
        seq![]
    } else {
        seq!["Vision tensor count="@ + decimal(count) + ", expected 298"@]
    }
}

/// Formats of vectors: biases and norms.
pub open spec fn vector_formats() -> Seq<GgmlDType> {
    seq![GgmlDType::F32]
}

/// Formats of any matrix.
pub open spec fn matrix_formats() -> Seq<GgmlDType> {
    seq![GgmlDType::Q8_0, GgmlDType::F32, GgmlDType::F16, GgmlDType::BF16]
}

/// Formats of a matrix that must not lose precision in production.
pub open spec fn sensitive_formats(production_q8: bool) -> Seq<GgmlDType> {
    if production_q8 {
        seq![GgmlDType::BF16, GgmlDType::F32]
    } else {
        matrix_formats()
    }
}

/// Formats of a layer's down projection: layers 1 to 19 are quantized in production.
pub open spec fn down_formats(production_q8: bool, layer: nat) -> Seq<GgmlDType> {
    if production_q8 && 1 <= layer < 20 {
        seq![GgmlDType::Q8_0]
    } else {
        sensitive_formats(production_q8)
    }
}

/// What is wrong with the metadata.
pub open spec fn vision_metadata_errors(md: Map<Seq<char>, MetaModel>) -> Seq<Seq<char>> {
    clip_errors(md) + u32_errors(md, "clip.vision.block_count"@) + u32_errors(
        md,
        "clip.vision.embedding_length"@,
    ) + u32_errors(md, "clip.vision.feed_forward_length"@) + u32_errors(
        md,
        "clip.vision.attention.head_count"@,
    ) + u32_errors(md, "clip.vision.projection_dim"@) + u32_errors(md, "clip.vision.patch_size"@)
        + u32_errors(md, "clip.vision.spatial_merge_size"@) + u32_errors(
        md,
        "clip.vision.image_size"@,
    )
}

/// Which declared numbers differ from the supported model.
pub open spec fn vision_value_errors(md: Map<Seq<char>, MetaModel>) -> Seq<Seq<char>> {
    value_errors("block_count"@, declared(md, "clip.vision.block_count"@), 24) + value_errors(
        "hidden_size"@,
        declared(md, "clip.vision.embedding_length"@),
        1024,
    ) + value_errors(
        "intermediate_size"@,
        declared(md, "clip.vision.feed_forward_length"@),
        4096,
    ) + value_errors("head_count"@, declared(md, "clip.vision.attention.head_count"@), 16)
        + value_errors("projection_dim"@, declared(md, "clip.vision.projection_dim"@), 2560)
        + value_errors("patch_size"@, declared(md, "clip.vision.patch_size"@), 16) + value_errors(
        "spatial_merge_size"@,
        declared(md, "clip.vision.spatial_merge_size"@),
        2,
    ) + value_errors("position_embeddings"@, declared_positions(md), 2304)
}

/// What is wrong with the tensors outside the layers.
pub open spec fn vision_global_errors(
    t: Map<Seq<char>, TensorModel>,
    production_q8: bool,
) -> Seq<Seq<char>> {
    let patch: Seq<usize> = seq![1024, 3, 16, 16];
    let hidden: Seq<usize> = seq![1024];
    let wide: Seq<usize> = seq![4096];
    let out: Seq<usize> = seq![2560];
    contract_errors(t, "v.patch_embd.weight"@, patch, matrix_formats()) + contract_errors(
        t,
        "v.patch_embd.weight.1"@,
        patch,
        matrix_formats(),
    ) + contract_errors(t, "v.patch_embd.bias"@, hidden, vector_formats()) + contract_errors(
        t,
        "v.position_embd.weight"@,
        seq![2304, 1024],
        matrix_formats(),
    ) + contract_errors(t, "v.post_ln.weight"@, hidden, vector_formats()) + contract_errors(
        t,
        "v.post_ln.bias"@,
        hidden,
        vector_formats(),
    ) + contract_errors(
        t,
        "mm.0.weight"@,
        seq![4096, 4096],
        sensitive_formats(production_q8),
    ) + contract_errors(t, "mm.0.bias"@, wide, vector_formats()) + contract_errors(
        t,
        "mm.2.weight"@,
        seq![2560, 4096],
        sensitive_formats(production_q8),
    ) + contract_errors(t, "mm.2.bias"@, out, vector_formats())
}

/// What is wrong with the matrices of a layer.
pub open spec fn layer_matrix_errors(
    t: Map<Seq<char>, TensorModel>,
    production_q8: bool,
    layer: nat,
) -> Seq<Seq<char>> {
    let p = "v.blk."@ + decimal(layer);
    contract_errors(
        t,
        p + ".attn_qkv.weight"@,
        seq![3072, 1024],
        sensitive_formats(production_q8),
    ) + contract_errors(
        t,
        p + ".attn_out.weight"@,
        seq![1024, 1024],
        sensitive_formats(production_q8),
    ) + contract_errors(
        t,
        p + ".ffn_up.weight"@,
        seq![4096, 1024],
        sensitive_formats(production_q8),
    ) + contract_errors(
        t,
        p + ".ffn_down.weight"@,
        seq![1024, 4096],
        down_formats(production_q8, layer),
    )
}

/// What is wrong with the vectors of a layer.
pub open spec fn layer_vector_errors(
    t: Map<Seq<char>, TensorModel>,
    layer: nat,
) -> Seq<Seq<char>> {
    let p = "v.blk."@ + decimal(layer);
    contract_errors(t, p + ".attn_qkv.bias"@, seq![3072], vector_formats()) + contract_errors(
        t,
        p + ".attn_out.bias"@,
        seq![1024],
        vector_formats(),
    ) + contract_errors(t, p + ".ffn_up.bias"@, seq![4096], vector_formats()) + contract_errors(
        t,
        p + ".ffn_down.bias"@,
        seq![1024],
        vector_formats(),
    ) + contract_errors(t, p + ".ln1.weight"@, seq![1024], vector_formats()) + contract_errors(
        t,
        p + ".ln1.bias"@,
        seq![1024],
        vector_formats(),
    ) + contract_errors(t, p + ".ln2.weight"@, seq![1024], vector_formats()) + contract_errors(
        t,
        p + ".ln2.bias"@,
        seq![1024],
        vector_formats(),
    )
}

/// What is wrong with the first `n` layers.
pub open spec fn vision_layers_errors(
    t: Map<Seq<char>, TensorModel>,
    production_q8: bool,
    n: nat,
) -> Seq<Seq<char>>
    decreases n,
{
    if n == 0 {
        seq![]
    } else {
        vision_layers_errors(t, production_q8, (n - 1) as nat) + layer_matrix_errors(
            t,
            production_q8,
            (n - 1) as nat,
        ) + layer_vector_errors(t, (n - 1) as nat)
    }
}

/// Every problem of a vision index, in the order in which they are reported.
pub open spec fn vision_errors(index: IndexModel, production_q8: bool) -> Seq<Seq<char>> {
    let md = index.metadata;
    let t = index.tensor_infos;
    vision_metadata_errors(md) + vision_value_errors(md) + tensor_count_errors(t.dom().len())
        + vision_global_errors(t, production_q8) + vision_layers_errors(
        t,
        production_q8,
        declared(md, "clip.vision.block_count"@),
    )
}

fn check_clip(index: &GgufIndex, errs: &mut ValidationErrors)
    requires
        index.wf(),
    ensures
        final(errs)@ == old(errs)@ + clip_errors(index@.metadata),
{
    match index.meta("general.architecture") {
        None => {
            errs.push_missing("general.architecture");
        },
        Some(value) => {
            let is_clip = match value.to_text() {
                Some(text) => same_text(text, "clip"),
                None => false,
            };
            if !is_clip {
                let mut msg = concat2("general.architecture=", value.debug.as_str());
                msg.append(", expected clip for Qwen3.5 Vision");
                errs.push(msg);
            }
        },
    }
    assert(errs@ =~= old(errs)@ + clip_errors(index@.metadata));
}

fn check_value(name: &str, actual: u64, expected: u64, errs: &mut ValidationErrors)
    ensures
        final(errs)@ == old(errs)@ + value_errors(name@, actual as nat, expected as nat),
{
    if actual != expected {
        let mut msg = concat2("Vision ", name);
        msg.append("=");
        push_decimal(&mut msg, actual);
        msg.append(", expected ");
        push_decimal(&mut msg, expected);
        errs.push(msg);
    }
    assert(errs@ =~= old(errs)@ + value_errors(name@, actual as nat, expected as nat));
}

fn check_tensor_count(index: &GgufIndex, errs: &mut ValidationErrors)
    requires
        index.wf(),
    ensures
        final(errs)@ == old(errs)@ + tensor_count_errors(index@.tensor_infos.dom().len()),
{
    let count = index.tensor_infos.len();
    assert(index@.tensor_infos.dom() =~= index.tensor_infos@.dom());
    if count != 298 {
        let mut msg = "Vision tensor count=".to_owned();
        push_decimal(&mut msg, count as u64);
        msg.append(", expected 298");
        errs.push(msg);
    }
    assert(errs@ =~= old(errs)@ + tensor_count_errors(index@.tensor_infos.dom().len()));
}

fn require_matrix(
    index: &GgufIndex,
    name: &str,
    rows: usize,
    cols: usize,
    dtypes: &Vec<GgmlDType>,
    errs: &mut ValidationErrors,
)
    requires
        index.wf(),
    ensures
        final(errs)@ == old(errs)@ + contract_errors(
            index@.tensor_infos,
            name@,
            seq![rows, cols],
            dtypes@,
        ),
{
    let shape: Vec<usize> = vec![rows, cols];
    assert(shape@ =~= seq![rows, cols]);
    require_tensor_contract(index, name, shape.as_slice(), dtypes.as_slice(), errs);
}

fn require_vector(index: &GgufIndex, name: &str, size: usize, errs: &mut ValidationErrors)
    requires
        index.wf(),
    ensures
        final(errs)@ == old(errs)@ + contract_errors(
            index@.tensor_infos,
            name@,
            seq![size],
            vector_formats(),
        ),
{
    let shape: Vec<usize> = vec![size];
    let dtypes: Vec<GgmlDType> = vec![GgmlDType::F32];
    assert(shape@ =~= seq![size]);
    assert(dtypes@ =~= vector_formats());
    require_tensor_contract(index, name, shape.as_slice(), dtypes.as_slice(), errs);
}

fn any_matrix() -> (dtypes: Vec<GgmlDType>)
    ensures
        dtypes@ == matrix_formats(),
{
    let dtypes: Vec<GgmlDType> = vec![
        GgmlDType::Q8_0,
        GgmlDType::F32,
        GgmlDType::F16,
        GgmlDType::BF16,
    ];
    assert(dtypes@ =~= matrix_formats());
    dtypes
}

fn sensitive_matrix(production_q8: bool) -> (dtypes: Vec<GgmlDType>)
    ensures
        dtypes@ == sensitive_formats(production_q8),
{
    if production_q8 {
        let dtypes: Vec<GgmlDType> = vec![GgmlDType::BF16, GgmlDType::F32];
        assert(dtypes@ =~= sensitive_formats(production_q8));
        dtypes
    } else {
        any_matrix()
    }
}

fn check_globals(index: &GgufIndex, production_q8: bool, errs: &mut ValidationErrors)
    requires
        index.wf(),
    ensures
        final(errs)@ == old(errs)@ + vision_global_errors(index@.tensor_infos, production_q8),
{
    let matrix = any_matrix();
    let sensitive = sensitive_matrix(production_q8);
    let patch: Vec<usize> = vec![1024, 3, 16, 16];
    let ghost patch_dims: Seq<usize> = seq![1024, 3, 16, 16];
    assert(patch@ =~= patch_dims);
    let p = patch.as_slice();
    require_tensor_contract(index, "v.patch_embd.weight", p, matrix.as_slice(), errs);
    require_tensor_contract(index, "v.patch_embd.weight.1", p, matrix.as_slice(), errs);
    require_vector(index, "v.patch_embd.bias", 1024, errs);
    require_matrix(index, "v.position_embd.weight", 2304, 1024, &matrix, errs);
    require_vector(index, "v.post_ln.weight", 1024, errs);
    require_vector(index, "v.post_ln.bias", 1024, errs);
    require_matrix(index, "mm.0.weight", 4096, 4096, &sensitive, errs);
    require_vector(index, "mm.0.bias", 4096, errs);
    require_matrix(index, "mm.2.weight", 2560, 4096, &sensitive, errs);
    require_vector(index, "mm.2.bias", 2560, errs);
    assert(errs@ == old(errs)@ + vision_global_errors(index@.tensor_infos, production_q8)) by {
        broadcast use lemma_concat_assoc;
    }
}

fn layer_matrix(
    index: &GgufIndex,
    prefix: &str,
    suffix: &str,
    rows: usize,
    cols: usize,
    dtypes: &Vec<GgmlDType>,
    errs: &mut ValidationErrors,
)
    requires
        index.wf(),
    ensures
        final(errs)@ == old(errs)@ + contract_errors(
            index@.tensor_infos,
            prefix@ + suffix@,
            seq![rows, cols],
            dtypes@,
        ),
{
    let name = concat2(prefix, suffix);
    require_matrix(index, name.as_str(), rows, cols, dtypes, errs);
}

fn layer_vector(
    index: &GgufIndex,
    prefix: &str,
    suffix: &str,
    size: usize,
    errs: &mut ValidationErrors,
)
    requires
        index.wf(),
    ensures
        final(errs)@ == old(errs)@ + contract_errors(
            index@.tensor_infos,
            prefix@ + suffix@,
            seq![size],
            vector_formats(),
        ),
{
    let name = concat2(prefix, suffix);
    require_vector(index, name.as_str(), size, errs);
}

fn check_layer(
    index: &GgufIndex,
    production_q8: bool,
    layer: usize,
    errs: &mut ValidationErrors,
)
    requires
        index.wf(),
    ensures
        final(errs)@ == old(errs)@ + layer_matrix_errors(
            index@.tensor_infos,
            production_q8,
            layer as nat,
        ) + layer_vector_errors(index@.tensor_infos, layer as nat),
{
    let sensitive = sensitive_matrix(production_q8);
    let down = if production_q8 && 1 <= layer && layer < 20 {
        let dtypes: Vec<GgmlDType> = vec![GgmlDType::Q8_0];
        assert(dtypes@ =~= seq![GgmlDType::Q8_0]);
        dtypes
    } else {
        sensitive_matrix(production_q8)
    };
    let mut prefix = "v.blk.".to_owned();
    push_decimal(&mut prefix, layer as u64);
    let p = prefix.as_str();
    layer_matrix(index, p, ".attn_qkv.weight", 3072, 1024, &sensitive, errs);
    layer_matrix(index, p, ".attn_out.weight", 1024, 1024, &sensitive, errs);
    layer_matrix(index, p, ".ffn_up.weight", 4096, 1024, &sensitive, errs);
    layer_matrix(index, p, ".ffn_down.weight", 1024, 4096, &down, errs);
    assert(errs@ == old(errs)@ + layer_matrix_errors(
        index@.tensor_infos,
        production_q8,
        layer as nat,
    )) by {
        broadcast use lemma_concat_assoc;
    }
    let ghost matrices = errs@;
    layer_vector(index, p, ".attn_qkv.bias", 3072, errs);
    layer_vector(index, p, ".attn_out.bias", 1024, errs);
    layer_vector(index, p, ".ffn_up.bias", 4096, errs);
    layer_vector(index, p, ".ffn_down.bias", 1024, errs);
    layer_vector(index, p, ".ln1.weight", 1024, errs);
    layer_vector(index, p, ".ln1.bias", 1024, errs);
    layer_vector(index, p, ".ln2.weight", 1024, errs);
    layer_vector(index, p, ".ln2.bias", 1024, errs);
    assert(errs@ == matrices + layer_vector_errors(index@.tensor_infos, layer as nat)) by {
        broadcast use lemma_concat_assoc;
    }
}

fn check_layers(
    index: &GgufIndex,
    production_q8: bool,
    layers: usize,
    errs: &mut ValidationErrors,
)
    requires
        index.wf(),
    ensures
        final(errs)@ == old(errs)@ + vision_layers_errors(
            index@.tensor_infos,
            production_q8,
            layers as nat,
        ),
{
    let ghost t = index@.tensor_infos;
    let ghost start = errs@;
    let mut layer: usize = 0;
    assert(start + Seq::<Seq<char>>::empty() =~= start);
    while layer < layers
        invariant
            index.wf(),
            t == index@.tensor_infos,
            layer <= layers,
            errs@ == start + vision_layers_errors(t, production_q8, layer as nat),
        decreases layers - layer,
    {
        check_layer(index, production_q8, layer, errs);
        assert(errs@ == start + vision_layers_errors(t, production_q8, (layer + 1) as nat)) by {
            broadcast use lemma_concat_assoc;
        }
        layer += 1;
    }
}

fn md_or_zero(index: &GgufIndex, key: &str, errs: &mut ValidationErrors) -> (n: u32)
    requires
        index.wf(),
    ensures
        n == declared(index@.metadata, key@),
        final(errs)@ == old(errs)@ + u32_errors(index@.metadata, key@),
{
    match md_u32(index, key, errs) {
        Some(n) => n as u32,
        None => 0,
    }
}

impl VisionProfile {
    /// Validates the index of a production component, whose down projections of
    /// layers 1 to 19 are quantized and whose other layer matrices are not.
    pub fn read_and_validate(index: &GgufIndex) -> (profile: Result<Self, String>)
        requires
            index.wf(),
        ensures
            vision_outcome(profile, index@, true),
    {
        Self::read_and_validate_with_policy(index, true)
    }

    /// Validates the index of a reference component, in any matrix format.
    pub fn read_reference(index: &GgufIndex) -> (profile: Result<Self, String>)
        requires
            index.wf(),
        ensures
            vision_outcome(profile, index@, false),
    {
        Self::read_and_validate_with_policy(index, false)
    }

    fn read_and_validate_with_policy(index: &GgufIndex, production_q8: bool) -> (profile: Result<
        Self,
        String,
    >)
        requires
            index.wf(),
        ensures
            vision_outcome(profile, index@, production_q8),
    {
        let mut errs = ValidationErrors::default();
        let ghost md = index@.metadata;
        assert forall|s: Seq<Seq<char>>| #[trigger] (Seq::<Seq<char>>::empty() + s) == s by {
            assert(Seq::<Seq<char>>::empty() + s =~= s);
        }
        check_clip(index, &mut errs);
        let block_count = md_or_zero(index, "clip.vision.block_count", &mut errs);
        let hidden_size = md_or_zero(index, "clip.vision.embedding_length", &mut errs);
        let intermediate_size = md_or_zero(index, "clip.vision.feed_forward_length", &mut errs);
        let head_count = md_or_zero(index, "clip.vision.attention.head_count", &mut errs);
        let projection_dim = md_or_zero(index, "clip.vision.projection_dim", &mut errs);
        let patch_size = md_or_zero(index, "clip.vision.patch_size", &mut errs);
        let spatial_merge_size = md_or_zero(index, "clip.vision.spatial_merge_size", &mut errs);
        let image_size = md_or_zero(index, "clip.vision.image_size", &mut errs);
        assert(errs@ == vision_metadata_errors(md));
        let patch: u64 = if patch_size == 0 {
            1
        } else {
            patch_size as u64
        };
        let side: u64 = image_size as u64 / patch;
        assert(side <= u32::MAX) by (nonlinear_arith)
            requires
                patch >= 1,
                side == image_size as u64 / patch,
        ;
        assert(side * side <= u64::MAX) by (nonlinear_arith)
            requires
                side <= u32::MAX,
        ;
        let position_embeddings: u64 = side * side;

        let ghost metadata = errs@;
        check_value("block_count", block_count as u64, 24, &mut errs);
        check_value("hidden_size", hidden_size as u64, 1024, &mut errs);
        check_value("intermediate_size", intermediate_size as u64, 4096, &mut errs);
        check_value("head_count", head_count as u64, 16, &mut errs);
        check_value("projection_dim", projection_dim as u64, 2560, &mut errs);
        check_value("patch_size", patch_size as u64, 16, &mut errs);
        check_value("spatial_merge_size", spatial_merge_size as u64, 2, &mut errs);
        check_value("position_embeddings", position_embeddings, 2304, &mut errs);
        assert(errs@ == metadata + vision_value_errors(md)) by {
            broadcast use lemma_concat_assoc;
        }
        check_tensor_count(index, &mut errs);
        check_globals(index, production_q8, &mut errs);
        check_layers(index, production_q8, block_count as usize, &mut errs);
        let quant_set = collect_formats(index);
        match errs.into_result() {
            Err(report) => Err(report),
            Ok(()) => {
                proof {
                    lemma_accepted_values(index@, production_q8);
                }
                Ok(
                    VisionProfile {
                        block_count: block_count as usize,
                        hidden_size: hidden_size as usize,
                        intermediate_size: intermediate_size as usize,
                        head_count: head_count as usize,
                        projection_dim: projection_dim as usize,
                        patch_size: patch_size as usize,
                        spatial_merge_size: spatial_merge_size as usize,
                        position_embeddings: position_embeddings as usize,
                        quant_set,
                    },
                )
            },
        }
    }
}

/// An index without problems declares exactly the supported numbers.
proof fn lemma_accepted_values(index: IndexModel, production_q8: bool)
    requires
        vision_errors(index, production_q8).len() == 0,
    ensures
        declared(index.metadata, "clip.vision.block_count"@) == 24,
        declared(index.metadata, "clip.vision.embedding_length"@) == 1024,
        declared(index.metadata, "clip.vision.feed_forward_length"@) == 4096,
        declared(index.metadata, "clip.vision.attention.head_count"@) == 16,
        declared(index.metadata, "clip.vision.projection_dim"@) == 2560,
        declared(index.metadata, "clip.vision.patch_size"@) == 16,
        declared(index.metadata, "clip.vision.spatial_merge_size"@) == 2,
        declared_positions(index.metadata) == 2304,
{
    let values = vision_value_errors(index.metadata);
    assert(values.len() == 0);
}

/// What validating a vision index gives: the supported model, where nothing is
/// wrong with it, and otherwise the report on everything that is.
pub open spec fn vision_outcome(
    profile: Result<VisionProfile, String>,
    index: IndexModel,
    production_q8: bool,
) -> bool {
    match profile {
        Ok(p) => {
            &&& vision_errors(index, production_q8).len() == 0
            &&& p.block_count == 24
            &&& p.hidden_size == 1024
            &&& p.intermediate_size == 4096
            &&& p.head_count == 16
            &&& p.projection_dim == 2560
            &&& p.patch_size == 16
            &&& p.spatial_merge_size == 2
            &&& p.position_embeddings == 2304
            &&& lists_formats(p.quant_set@, index.tensor_infos)
        },
        Err(msg) => {
            &&& vision_errors(index, production_q8).len() > 0
            &&& msg@ == report_text(vision_errors(index, production_q8))
        },
    }
}

proof fn lemma_wider_formats(
    t: Map<Seq<char>, TensorModel>,
    name: Seq<char>,
    shape: Seq<usize>,
    strict: Seq<GgmlDType>,
)
    requires
        contract_errors(t, name, shape, strict).len() == 0,
        forall|i: int|
            0 <= i < strict.len() ==> matrix_formats().contains(#[trigger] strict[i]),
    ensures
        contract_errors(t, name, shape, matrix_formats()).len() == 0,
{
    let dtype = t[name].ggml_dtype;
    assert(strict.contains(dtype));
    let i = choose|i: int| 0 <= i < strict.len() && strict[i] == dtype;
    assert(matrix_formats().contains(strict[i]));
}

proof fn lemma_formats_are_matrix_formats(layer: nat)
    ensures
        forall|i: int|
            0 <= i < sensitive_formats(true).len() ==> matrix_formats().contains(
                #[trigger] sensitive_formats(true)[i],
            ),
        forall|i: int|
            0 <= i < down_formats(true, layer).len() ==> matrix_formats().contains(
                #[trigger] down_formats(true, layer)[i],
            ),
{
    let wide = matrix_formats();
    assert(wide[0] == GgmlDType::Q8_0);
    assert(wide[1] == GgmlDType::F32);
    assert(wide[3] == GgmlDType::BF16);
}

proof fn lemma_layers_load_as_reference(t: Map<Seq<char>, TensorModel>, n: nat)
    requires
        vision_layers_errors(t, true, n).len() == 0,
    ensures
        vision_layers_errors(t, false, n).len() == 0,
    decreases n,
{
    if n > 0 {
        let layer = (n - 1) as nat;
        let p = "v.blk."@ + decimal(layer);
        lemma_layers_load_as_reference(t, layer);
        lemma_formats_are_matrix_formats(layer);
        let strict = sensitive_formats(true);
        lemma_wider_formats(t, p + ".attn_qkv.weight"@, seq![3072, 1024], strict);
        lemma_wider_formats(t, p + ".attn_out.weight"@, seq![1024, 1024], strict);
        lemma_wider_formats(t, p + ".ffn_up.weight"@, seq![4096, 1024], strict);
        lemma_wider_formats(
            t,
            p + ".ffn_down.weight"@,
            seq![1024, 4096],
            down_formats(true, layer),
        );
    }
}

/// What is accepted as a production component is accepted as a reference component too.
pub proof fn law_production_loads_as_reference(index: IndexModel)
    requires
        vision_errors(index, true).len() == 0,
    ensures
        vision_errors(index, false).len() == 0,
{
    let t = index.tensor_infos;
    lemma_formats_are_matrix_formats(0);
    let strict = sensitive_formats(true);
    lemma_wider_formats(t, "mm.0.weight"@, seq![4096, 4096], strict);
    lemma_wider_formats(t, "mm.2.weight"@, seq![2560, 4096], strict);
    lemma_layers_load_as_reference(t, declared(index.metadata, "clip.vision.block_count"@));
}

} // verus!
