//! Validating model files and planning their load.
use qwen35_batch::architecture::{Architecture, ModelFingerprint};
use qwen35_batch::arena::{
    align_to_pages, next_power, round_mb, scratch_widths, slot_sizes, unified_capacity, MEGABYTE,
};
use qwen35_batch::gguf::{GgmlDType, GgufIndex, MetaKind, MetaValue, TensorInfo};
use qwen35_batch::kernels::DeltaParams;
use qwen35_batch::loader::{
    choose_kv_format, first_names, mixer_names, LoadSettings, ModelPlan,
};
use qwen35_batch::model_dims::{is_moe_file, limit_context, ModelDims};
use qwen35_batch::model_state::{HybridLayerType, ModelWeights};
use qwen35_batch::moe::MoeBackend;
use qwen35_batch::profile::{collect_formats, require_block_tensors, ModelProfile};
use qwen35_batch::validation::{require_tensor_contract, ValidationErrors};
use qwen35_batch::vision_profile::VisionProfile;

fn number(n: u32) -> MetaValue {
    MetaValue { kind: MetaKind::U32(n), debug: format!("U32({n})") }
}

fn float(x: f32) -> MetaValue {
    MetaValue { kind: MetaKind::F32Bits(x.to_bits()), debug: format!("F32({x:?})") }
}

fn text(s: &str) -> MetaValue {
    MetaValue { kind: MetaKind::Text(s.to_string()), debug: format!("String({s:?})") }
}

fn tensor(dtype: GgmlDType, dims: &[usize]) -> TensorInfo {
    TensorInfo { ggml_dtype: dtype, dims: dims.to_vec(), offset: 0 }
}

fn put(index: &mut GgufIndex, key: &str, value: MetaValue) {
    index.set_meta(key.to_string(), value);
}

fn common(index: &mut GgufIndex, p: &str, blocks: u32) {
    put(index, "general.architecture", text(p));
    put(index, &format!("{p}.block_count"), number(blocks));
    put(index, &format!("{p}.embedding_length"), number(64));
    put(index, &format!("{p}.context_length"), number(4096));
    put(index, &format!("{p}.attention.head_count"), number(4));
    put(index, &format!("{p}.attention.head_count_kv"), number(2));
    put(index, &format!("{p}.attention.key_length"), number(32));
    put(index, &format!("{p}.attention.value_length"), number(32));
    put(index, &format!("{p}.attention.layer_norm_rms_epsilon"), float(1e-6));
    put(index, &format!("{p}.full_attention_interval"), number(4));
    put(index, &format!("{p}.ssm.conv_kernel"), number(4));
    put(index, &format!("{p}.ssm.inner_size"), number(64));
    put(index, &format!("{p}.ssm.state_size"), number(8));
    put(index, &format!("{p}.ssm.time_step_rank"), number(4));
    put(index, &format!("{p}.ssm.group_count"), number(2));
    index.set_tensor("token_embd.weight".to_string(), tensor(GgmlDType::F32, &[10, 64]));
    index.set_tensor("output_norm.weight".to_string(), tensor(GgmlDType::F32, &[64]));
}

fn layers(index: &mut GgufIndex, blocks: u32, is_moe: bool, dtype: GgmlDType) {
    for layer in 0..blocks {
        let deltanet = (layer + 1) % 4 != 0;
        for name in first_names(is_moe).iter().chain(mixer_names(deltanet).iter()) {
            index.set_tensor(format!("blk.{layer}{name}"), tensor(dtype, &[64, 64]));
        }
    }
}

fn dense() -> GgufIndex {
    let mut index = GgufIndex::empty();
    common(&mut index, "qwen35", 4);
    put(&mut index, "qwen35.feed_forward_length", number(128));
    layers(&mut index, 4, false, GgmlDType::Q4K);
    index
}

fn mixture() -> GgufIndex {
    let mut index = GgufIndex::empty();
    common(&mut index, "qwen35moe", 40);
    put(&mut index, "qwen35moe.expert_count", number(256));
    put(&mut index, "qwen35moe.expert_used_count", number(8));
    put(&mut index, "qwen35moe.expert_feed_forward_length", number(512));
    put(&mut index, "qwen35moe.expert_shared_feed_forward_length", number(512));
    layers(&mut index, 40, true, GgmlDType::Q4K);
    index
}

fn settings() -> LoadSettings<'static> {
    LoadSettings {
        context_limit: None,
        moe_backend: None,
        kv_cache_dtype: None,
        is_cuda: false,
        output_loads: true,
    }
}

#[test]
fn test_missing_architecture_fails() {
    let index = GgufIndex::empty();
    let result = ModelProfile::read_and_validate(&index, 0);
    assert!(result.is_err());
    let msg = result.unwrap_err();
    assert!(msg.contains("general.architecture"));
}

#[test]
fn test_unsupported_architecture_fails() {
    let mut index = GgufIndex::empty();
    put(&mut index, "general.architecture", text("llama"));
    let result = ModelProfile::read_and_validate(&index, 0);
    assert!(result.is_err());
    let msg = result.unwrap_err();
    assert!(msg.contains("unsupported architecture"));
}

#[test]
fn test_dense_missing_metadata_aggregates_errors() {
    let mut index = GgufIndex::empty();
    put(&mut index, "general.architecture", text("qwen35"));
    let result = ModelProfile::read_and_validate(&index, 0);
    assert!(result.is_err());
    let msg = result.unwrap_err();
    assert!(msg.contains("qwen35.block_count"));
    assert!(msg.contains("qwen35.embedding_length"));
    assert!(msg.contains("multiple") || msg.contains("error(s)"));
}

#[test]
fn architectures_are_recognised() {
    assert_eq!(Architecture::from_metadata(&dense()).unwrap(), Architecture::DenseQwen35);
    assert_eq!(Architecture::from_metadata(&mixture()).unwrap(), Architecture::Qwen35Moe);
    assert_eq!(Architecture::DenseQwen35.metadata_prefix(), "qwen35");
    assert_eq!(Architecture::Qwen35Moe.metadata_prefix(), "qwen35moe");
    let mut odd = GgufIndex::empty();
    assert_eq!(
        Architecture::from_metadata(&odd).unwrap_err(),
        "missing general.architecture"
    );
    put(&mut odd, "general.architecture", number(3));
    assert_eq!(
        Architecture::from_metadata(&odd).unwrap_err(),
        "general.architecture not a string"
    );
    put(&mut odd, "general.architecture", text("llama"));
    assert_eq!(
        Architecture::from_metadata(&odd).unwrap_err(),
        "unsupported architecture: 'llama' — supported: qwen35, qwen35moe"
    );
}

#[test]
fn a_complete_dense_file_is_accepted() {
    let index = dense();
    let profile = ModelProfile::read_and_validate(&index, 1000).unwrap();
    assert_eq!(profile.architecture, Architecture::DenseQwen35);
    assert_eq!(profile.block_count, 4);
    assert_eq!(profile.hidden_size, 64);
    assert_eq!(profile.context_length, 4096);
    assert_eq!(profile.feed_forward_length, 128);
    assert_eq!(profile.attention_head_count_kv, 2);
    assert_eq!(profile.rope_freq_base_bits, 10000.0f32.to_bits());
    assert_eq!(profile.rms_norm_eps_bits, 1e-6f32.to_bits());
    assert_eq!(profile.routed_experts, None);
    assert_eq!(profile.quant_set, collect_formats(&index));
    assert!(profile.quant_set.contains(&GgmlDType::Q4K));
    assert!(profile.fingerprint.hash.starts_with("qwen35-profile-"));
}

#[test]
fn a_complete_mixture_is_accepted() {
    let profile = ModelProfile::read_and_validate(&mixture(), 1).unwrap();
    assert_eq!(profile.architecture, Architecture::Qwen35Moe);
    assert_eq!(profile.routed_experts, Some(256));
    assert_eq!(profile.experts_per_token, Some(8));
    assert_eq!(profile.routed_intermediate, Some(512));
    assert_eq!(profile.shared_intermediate, Some(512));
    assert_eq!(profile.shared_expert_count, Some(1));
    assert_eq!(profile.router_norm_topk, None);
}

#[test]
fn every_missing_tensor_is_named() {
    let mut index = GgufIndex::empty();
    common(&mut index, "qwen35", 4);
    put(&mut index, "qwen35.feed_forward_length", number(128));
    let msg = ModelProfile::read_and_validate(&index, 0).unwrap_err();
    for name in ["blk.0.attn_norm.weight", "blk.0.attn_qkv.weight", "blk.3.attn_q.weight", "blk.3.ffn_down.weight"] {
        assert!(msg.contains(name), "{name}");
    }
    assert!(!msg.contains("blk.3.attn_qkv.weight"));
    assert!(!msg.contains("blk.0.attn_q.weight"));
    let mut errs = ValidationErrors::default();
    require_block_tensors(&index, Architecture::DenseQwen35, 0, 4, &mut errs);
    assert_eq!(errs.errors.len(), 14);
}

#[test]
fn odd_mixtures_are_refused() {
    let mut index = mixture();
    put(&mut index, "qwen35moe.expert_used_count", number(9));
    let msg = ModelProfile::read_and_validate(&index, 0).unwrap_err();
    assert!(msg.contains("expert_used_count=9, expected 8 for Qwen3.6 35B-A3B"), "{msg}");
    put(&mut index, "qwen35moe.expert_used_count", number(300));
    let msg = ModelProfile::read_and_validate(&index, 0).unwrap_err();
    assert!(msg.contains("expert_used_count (300) > expert_count (256)"), "{msg}");
    let mut index = mixture();
    put(&mut index, "qwen35moe.block_count", number(39));
    let msg = ModelProfile::read_and_validate(&index, 0).unwrap_err();
    assert!(msg.contains("block_count=39, expected 40 for Qwen3.6 35B-A3B"), "{msg}");
}

#[test]
fn errors_are_collected_and_joined() {
    let mut errs = ValidationErrors::default();
    assert!(errs.is_empty());
    errs.push_missing("a.b");
    errs.push_tensor_missing("t");
    errs.push("third".to_string());
    assert!(!errs.is_empty());
    assert_eq!(errs.errors[2], "third");
    let msg = errs.into_result().unwrap_err();
    assert!(msg.contains("a.b") && msg.contains("third") && msg.contains('3'), "{msg}");
    assert!(ValidationErrors::default().into_result().is_ok());
    let mut errs = ValidationErrors::default();
    require_tensor_contract(&dense(), "token_embd.weight", &[10, 64], &[GgmlDType::F32], &mut errs);
    assert!(errs.is_empty());
    require_tensor_contract(&dense(), "token_embd.weight", &[11, 64], &[GgmlDType::F16], &mut errs);
    assert_eq!(errs.errors.len(), 2);
}

#[test]
fn fingerprints_depend_on_contents_not_order() {
    let a = ModelFingerprint::compute(Architecture::DenseQwen35, &dense(), 10);
    let b = ModelFingerprint::compute(Architecture::DenseQwen35, &dense(), 10);
    assert_eq!(a.hash, b.hash);
    let mut forward = GgufIndex::empty();
    let mut backward = GgufIndex::empty();
    for i in 0..5 {
        forward.set_tensor(format!("t{i}"), tensor(GgmlDType::F32, &[i]));
        backward.set_tensor(format!("t{}", 4 - i), tensor(GgmlDType::F32, &[4 - i]));
    }
    assert_eq!(
        ModelFingerprint::compute(Architecture::DenseQwen35, &forward, 1).hash,
        ModelFingerprint::compute(Architecture::DenseQwen35, &backward, 1).hash
    );
    let mut moved = dense();
    put(&mut moved, "general.description", text("elsewhere"));
    moved.set_tensor(
        "token_embd.weight".to_string(),
        TensorInfo { offset: 64, ..tensor(GgmlDType::F32, &[10, 64]) },
    );
    moved.tensor_data_offset = 96;
    assert_eq!(ModelFingerprint::compute(Architecture::DenseQwen35, &moved, 10).hash, a.hash);
    let other = ModelFingerprint::compute(Architecture::DenseQwen35, &dense(), 11);
    assert_ne!(a.hash, other.hash);
    assert_eq!(a.hash.len(), "qwen35-profile-".len() + 16);
}

#[test]
fn dimensions_are_read() {
    let dims = ModelDims::read(&dense()).unwrap();
    assert!(!dims.is_moe);
    assert_eq!(dims.n_v_heads, 4);
    assert_eq!(dims.head_dim, 32);
    assert_eq!(dims.shared_expert_count, 0);
    assert!(dims.has_widths());
    assert!(dims.has_layer_sizes(true));
    assert!(dims.has_layer_sizes(false));
    assert!(is_moe_file(&mixture()));
    let mut index = dense();
    put(&mut index, "qwen35.ssm.inner_size", text("wide"));
    assert_eq!(ModelDims::read(&index).unwrap_err(), "not a u32 String(\"wide\")");
    put(&mut index, "qwen35.attention.layer_norm_rms_epsilon", number(1));
    assert_eq!(ModelDims::read(&index).unwrap_err(), "not a f32 U32(1)");
    assert_eq!(
        ModelDims::read(&GgufIndex::empty()).unwrap_err(),
        "cannot find qwen35.block_count in metadata"
    );
    let mut flat = ModelDims::read(&dense()).unwrap();
    flat.conv_kernel = 0;
    assert!(!flat.has_layer_sizes(true));
    assert!(flat.has_layer_sizes(false));
    flat.n_v_heads = 0;
    assert!(!flat.has_widths());
}

#[test]
fn contexts_are_limited() {
    assert_eq!(limit_context(262144, None), 81920);
    assert_eq!(limit_context(262144, Some("100000")), 100000);
    assert_eq!(limit_context(4096, Some("100000")), 4096);
    assert_eq!(limit_context(262144, Some("many")), 81920);
}

#[test]
fn a_load_is_planned() {
    let index = dense();
    let plan = ModelPlan::build(&index, 10 * 64 * 4, &settings()).unwrap();
    assert_eq!(plan.context_length, 4096);
    assert_eq!(plan.head_v_dim, 16);
    assert_eq!(plan.key_dim, 16);
    assert_eq!(plan.conv_channels, 96);
    assert_eq!(plan.rope_dim, 8);
    assert!(plan.output_tied);
    assert!(!plan.use_q8_f16_kv_cache);
    let kinds: Vec<bool> = plan.layers.iter().map(|l| l.is_deltanet).collect();
    assert_eq!(kinds, vec![true, true, true, false]);
    let model = ModelWeights::with_nonce(&plan, false, 77);
    assert_eq!(model.instance_nonce(), 77);
    assert_eq!(model.blocks.len(), 4);
    match (&model.blocks[0], &model.blocks[3]) {
        (HybridLayerType::DeltaNet(d), HybridLayerType::Attention(a)) => {
            assert_eq!(d.state.conv_buf.len(), 3 * 96);
            assert_eq!(d.state.ssm_state.len(), 4 * 16 * 16);
            assert_eq!(a.max_cache_len, 4096);
        }
        _ => panic!("wrong layer kinds"),
    }
    let params = DeltaParams::of_model(&plan.dims, 5, 2);
    assert_eq!(params.channels, 96);
    assert_eq!(params.heads_per_kv, 2);
    assert_eq!(params.batch_size, 2);
    assert_eq!(params.state_elems(4), (4 * 4 * 16 * 16, 4 * 3 * 96));
}

#[test]
fn loads_that_cannot_work_are_refused() {
    let index = dense();
    assert_eq!(
        ModelPlan::build(&index, 100, &settings()).unwrap_err(),
        "QuantizedEmbedding: data out of bounds 0..2560 vs len 100"
    );
    let odd = LoadSettings { kv_cache_dtype: Some("f8"), ..settings() };
    assert_eq!(
        ModelPlan::build(&index, 4096, &odd).unwrap_err(),
        "QWEN36_KV_CACHE_DTYPE must be q8 or q8_f16, got \"f8\""
    );
    let mut bare = GgufIndex::empty();
    common(&mut bare, "qwen35", 4);
    assert_eq!(
        ModelPlan::build(&bare, 4096, &settings()).unwrap_err(),
        "cannot find tensor info for blk.0.attn_norm.weight"
    );
    let mut wide = dense();
    put(&mut wide, "qwen35.ssm.time_step_rank", number(0));
    assert!(ModelPlan::try_build(&wide, 4096, &settings()).unwrap().is_none());
}

#[test]
fn sizes_count_where_a_layer_needs_them() {
    let mut none = GgufIndex::empty();
    common(&mut none, "qwen35", 0);
    put(&mut none, "qwen35.full_attention_interval", number(0));
    put(&mut none, "qwen35.ssm.conv_kernel", number(0));
    let plan = ModelPlan::build(&none, 4096, &settings()).unwrap();
    assert!(plan.layers.is_empty());
    assert!(ModelWeights::with_nonce(&plan, false, 1).blocks.is_empty());
    let mut all = dense();
    put(&mut all, "qwen35.full_attention_interval", number(1));
    put(&mut all, "qwen35.ssm.conv_kernel", number(0));
    for layer in 0..4 {
        for name in mixer_names(false) {
            all.set_tensor(format!("blk.{layer}{name}"), tensor(GgmlDType::Q4K, &[64, 64]));
        }
    }
    let plan = ModelPlan::build(&all, 4096, &settings()).unwrap();
    assert!(plan.layers.iter().all(|l| !l.is_deltanet));
    let mut zero = dense();
    put(&mut zero, "qwen35.ssm.conv_kernel", number(0));
    assert!(ModelPlan::try_build(&zero, 4096, &settings()).unwrap().is_none());
    put(&mut zero, "qwen35.ssm.conv_kernel", number(4));
    put(&mut zero, "qwen35.full_attention_interval", number(0));
    assert!(ModelPlan::try_build(&zero, 4096, &settings()).unwrap().is_none());
}

#[test]
fn refusals_come_before_sizes_that_do_not_exist() {
    let tried = |index: &GgufIndex, asked: &LoadSettings<'_>| {
        ModelPlan::try_build(index, 4096, asked).map(|plan| plan.is_some())
    };
    let mut index = dense();
    put(&mut index, "qwen35.full_attention_interval", number(0));
    let odd = LoadSettings { kv_cache_dtype: Some("f8"), ..settings() };
    assert_eq!(
        tried(&index, &odd).unwrap_err(),
        "QWEN36_KV_CACHE_DTYPE must be q8 or q8_f16, got \"f8\""
    );
    assert_eq!(tried(&index, &settings()), Ok(false));
    let mut bare = GgufIndex::empty();
    common(&mut bare, "qwen35", 4);
    put(&mut bare, "qwen35.ssm.conv_kernel", number(0));
    assert_eq!(
        tried(&bare, &settings()).unwrap_err(),
        "cannot find tensor info for blk.0.attn_norm.weight"
    );
    let mut late = GgufIndex::empty();
    common(&mut late, "qwen35", 4);
    put(&mut late, "qwen35.ssm.conv_kernel", number(0));
    for name in first_names(false).into_iter().chain(mixer_names(true)) {
        late.set_tensor(format!("blk.0{name}"), tensor(GgmlDType::Q4K, &[64, 64]));
    }
    assert_eq!(tried(&late, &settings()), Ok(false));
    put(&mut late, "qwen35.ssm.conv_kernel", number(4));
    assert_eq!(
        tried(&late, &settings()).unwrap_err(),
        "cannot find tensor info for blk.1.attn_norm.weight"
    );
}

#[test]
fn an_output_that_does_not_load_is_tied() {
    let mut index = dense();
    assert!(ModelPlan::build(&index, 4096, &settings()).unwrap().output_tied);
    index.set_tensor("output.weight".to_string(), tensor(GgmlDType::F32, &[10, 64]));
    assert!(!ModelPlan::build(&index, 4096, &settings()).unwrap().output_tied);
    let failed = LoadSettings { output_loads: false, ..settings() };
    assert!(ModelPlan::build(&index, 4096, &failed).unwrap().output_tied);
}

#[test]
fn compact_caches_are_the_default() {
    let formats = |dtype: Option<&'static str>| -> Vec<bool> {
        let asked = LoadSettings { kv_cache_dtype: dtype, ..settings() };
        let plan = ModelPlan::build(&dense(), 4096, &asked).unwrap();
        let model = ModelWeights::with_nonce(&plan, false, 1);
        let mut list = Vec::new();
        for block in &model.blocks {
            if let HybridLayerType::Attention(a) = block {
                list.push(a.use_q8_f16_kv_cache);
            }
        }
        list
    };
    assert_eq!(formats(None), vec![false]);
    assert_eq!(formats(Some("q8")), vec![false]);
    assert_eq!(formats(Some("q8_f16")), vec![true]);
}

#[test]
fn mixtures_choose_their_backend() {
    let index = mixture();
    let plan = ModelPlan::build(&index, 4096, &settings()).unwrap();
    assert_eq!(plan.layers[0].backend, Some(MoeBackend::Reference));
    assert!(!plan.use_q8_f16_kv_cache);
    let cuda = LoadSettings { is_cuda: true, ..settings() };
    let plan = ModelPlan::build(&index, 4096, &cuda).unwrap();
    assert_eq!(plan.layers[39].backend, Some(MoeBackend::Ptx));
    let wrong = LoadSettings { moe_backend: Some("ptx"), ..settings() };
    assert_eq!(
        ModelPlan::build(&index, 4096, &wrong).unwrap_err(),
        "QWEN36_MOE_BACKEND=ptx requires CUDA"
    );
    assert_eq!(choose_kv_format(Some("q8_f16")), Ok(true));
    assert_eq!(choose_kv_format(Some("q8")), Ok(false));
    assert_eq!(choose_kv_format(None), Ok(false));
}

#[test]
fn test_instance_nonce_uniqueness() {
    let plan = ModelPlan::build(&dense(), 4096, &settings()).unwrap();
    let n1 = ModelWeights::from_plan(&plan, false).instance_nonce();
    let n2 = ModelWeights::from_plan(&plan, false).instance_nonce();
    let n3 = ModelWeights::from_plan(&plan, false).instance_nonce();
    assert_ne!(n1, n2, "rand::random<u64> collision (extremely unlikely)");
    assert_ne!(n2, n3, "rand::random<u64> collision (extremely unlikely)");
}

#[test]
fn scratch_memory_is_sized() {
    assert_eq!(next_power(0), 1);
    assert_eq!(next_power(1), 1);
    assert_eq!(next_power(9), 16);
    assert_eq!(round_mb(0), 8 * MEGABYTE);
    assert_eq!(round_mb(8 * MEGABYTE), 8 * MEGABYTE);
    assert_eq!(round_mb(8 * MEGABYTE + 1), 16 * MEGABYTE);
    let widths = scratch_widths(&dense());
    assert_eq!(widths, (64, 128));
    let sizes = slot_sizes(2560, 9216);
    assert_eq!(sizes.len(), 18);
    assert!(sizes.iter().all(|s| s % MEGABYTE == 0 && (s / MEGABYTE).is_power_of_two()));
    assert!(unified_capacity(2560, 9216) >= sizes.iter().sum::<u64>());
    assert_eq!(align_to_pages(1, 4096), 4096);
    assert_eq!(align_to_pages(4096, 4096), 4096);
    assert_eq!(align_to_pages(4097, 4096), 8192);
}

#[test]
fn vision_files_are_checked() {
    let msg = VisionProfile::read_and_validate(&GgufIndex::empty()).unwrap_err();
    assert!(msg.contains("general.architecture"));
    assert!(msg.contains("clip.vision.block_count"));
    let mut index = GgufIndex::empty();
    put(&mut index, "general.architecture", text("llama"));
    put(&mut index, "clip.vision.block_count", number(12));
    let msg = VisionProfile::read_reference(&index).unwrap_err();
    assert!(
        msg.contains("general.architecture=String(\"llama\"), expected clip for Qwen3.5 Vision"),
        "{msg}"
    );
    assert!(msg.contains("Vision block_count=12, expected 24"), "{msg}");
}
