//! The batching adapter: loading, prefill, decoding, speculation and captured graphs.
use candle_core::quantized::gguf_file;
use candle_core::quantized::{GgmlDType as CandleDType, QTensor};
use candle_core::{DType, Device, Tensor};
use qwen35_batch::adapter::{
    check_slot_count, choose_graphs, read_eos, read_vocab, Qwen35BatchAdapter,
};
use qwen35_batch::adapter_decode::DecodeItem;
use qwen35_batch::adapter_keep::{logits_fit, split_logits};
use qwen35_batch::adapter_load::LoadRequest;
use qwen35_batch::adapter_prefill::{PrefillChunk, PrefillPass};
use qwen35_batch::architecture::{Architecture, ModelFingerprint};
use qwen35_batch::forward::{BatchInput, BlockInput, DecodePlan};
use qwen35_batch::gguf::{GgmlDType, GgufIndex, MetaKind, MetaValue, TensorInfo};
use qwen35_batch::graph::{GraphStep, Migration, PagedDecode};
use qwen35_batch::head_load::{head_block, head_names, read_head};
use qwen35_batch::loader::{first_names, mixer_names, LoadSettings};
use qwen35_batch::kv_cache::{GatedAttentionLayer, DECODE_BATCH_CAPACITY};
use qwen35_batch::model_state::{DeltaNetLayer, HybridLayerType, ModelWeights};
use qwen35_batch::mtp::{argmax, Qwen35Mtp, HIDDEN};
use qwen35_batch::multimodal::{
    check_payload, count_features, count_media, feature_runs, FeatureRun, GridThw,
    MultimodalPrefill,
};
use qwen35_batch::profile::ModelProfile;
use qwen35_batch::vision_load::read_vision;

fn profile() -> ModelProfile {
    ModelProfile {
        architecture: Architecture::DenseQwen35,
        block_count: 2,
        hidden_size: 16,
        context_length: 4096,
        full_attention_interval: 2,
        feed_forward_length: 32,
        attention_head_count: 2,
        attention_head_count_kv: 1,
        attention_key_length: 8,
        attention_value_length: 8,
        rope_freq_base_bits: 0,
        rms_norm_eps_bits: 0,
        routed_experts: None,
        experts_per_token: None,
        routed_intermediate: None,
        shared_intermediate: None,
        shared_expert_count: None,
        router_norm_topk: None,
        quant_set: Vec::new(),
        fingerprint: ModelFingerprint { hash: "qwen35-profile-0".to_string() },
    }
}

fn weights(nonce: u64) -> ModelWeights {
    ModelWeights {
        blocks: vec![
            HybridLayerType::DeltaNet(DeltaNetLayer::new(3, 2, 1, 2, false)),
            HybridLayerType::Attention(GatedAttentionLayer::new(4096, true, 64)),
        ],
        context_length: 4096,
        hidden_size: 16,
        instance_nonce: nonce,
    }
}

fn request() -> LoadRequest<'static> {
    LoadRequest {
        num_slots: 2,
        settings: LoadSettings {
            context_limit: None,
            moe_backend: None,
            kv_cache_dtype: None,
            is_cuda: false,
            output_loads: true,
        },
        on_metal: false,
        graphs: Some("1"),
        free_bytes: 0,
    }
}

fn model_file(context: u32) -> Vec<u8> {
    let value = |n: u32| gguf_file::Value::U32(n);
    let p = "qwen35";
    let mut metadata = vec![
        ("general.architecture".to_string(), gguf_file::Value::String(p.to_string())),
        ("tokenizer.ggml.eos_token_id".to_string(), value(5)),
        (format!("{p}.attention.layer_norm_rms_epsilon"), gguf_file::Value::F32(1e-6)),
    ];
    for (key, n) in [
        ("block_count", 2),
        ("embedding_length", 32),
        ("context_length", context),
        ("feed_forward_length", 32),
        ("attention.head_count", 2),
        ("attention.head_count_kv", 1),
        ("attention.key_length", 16),
        ("attention.value_length", 16),
        ("full_attention_interval", 2),
        ("ssm.conv_kernel", 4),
        ("ssm.inner_size", 32),
        ("ssm.state_size", 8),
        ("ssm.time_step_rank", 4),
        ("ssm.group_count", 2),
    ] {
        metadata.push((format!("{p}.{key}"), value(n)));
    }
    let flat = Tensor::zeros((7, 32), DType::F32, &Device::Cpu).unwrap();
    let tensor = QTensor::quantize(&flat, CandleDType::F32).unwrap();
    let mut names = vec!["token_embd.weight".to_string(), "output_norm.weight".to_string()];
    for layer in 0..2 {
        for name in first_names(false).iter().chain(mixer_names(layer == 0).iter()) {
            names.push(format!("blk.{layer}{name}"));
        }
    }
    let metadata: Vec<(&str, &gguf_file::Value)> =
        metadata.iter().map(|(k, v)| (k.as_str(), v)).collect();
    let tensors: Vec<(&str, &QTensor)> = names.iter().map(|n| (n.as_str(), &tensor)).collect();
    let mut file = std::io::Cursor::new(Vec::new());
    gguf_file::write(&mut file, &metadata, &tensors).unwrap();
    file.into_inner()
}

fn adapter(slots: usize) -> Qwen35BatchAdapter {
    Qwen35BatchAdapter::new(weights(7), profile(), slots, 2, 3, true).unwrap()
}

fn chunk(slot: usize, start: usize, tokens: Vec<u32>, reset: bool, last: bool) -> PrefillChunk {
    PrefillChunk { slot_idx: slot, start_pos: start, tokens, reset_first: reset, is_final: last }
}

fn run(model: &mut ModelWeights, tokens: &[u32]) {
    let qkv: Vec<Vec<u32>> = tokens.iter().map(|t| vec![*t; 2]).collect();
    let ssm: Vec<Vec<u32>> = tokens.iter().map(|t| vec![*t; 4]).collect();
    model.forward_block(0, BlockInput::DeltaNet { qkv, ssm }).unwrap();
    let rows: Vec<u64> = tokens.iter().map(|t| *t as u64).collect();
    model.forward_block(1, BlockInput::Attention { rows }).unwrap();
}

fn prefill(a: &mut Qwen35BatchAdapter, c: PrefillChunk) {
    a.prefill_open(&c).unwrap();
    run(&mut a.model, &c.tokens);
    a.prefill_close(&c);
}

fn step(model: &mut ModelWeights, plan: &DecodePlan, tokens: &[u32]) {
    let qkv: Vec<Vec<u32>> = tokens.iter().map(|t| vec![*t; 2]).collect();
    let ssm: Vec<Vec<u32>> = tokens.iter().map(|t| vec![*t; 4]).collect();
    model.decode_block(0, plan, &BatchInput::DeltaNet { qkv, ssm }).unwrap();
    let rows: Vec<u64> = tokens.iter().map(|t| *t as u64).collect();
    model.decode_block(1, plan, &BatchInput::Attention { rows }).unwrap();
}

fn item(slot: usize, token: u32, pos: usize) -> DecodeItem {
    DecodeItem { slot_idx: slot, token, pos }
}

fn decode(a: &mut Qwen35BatchAdapter, items: Vec<DecodeItem>, hidden: Vec<u64>) -> Vec<Vec<u32>> {
    let inputs = a.decode_open(&items).unwrap().unwrap();
    step(&mut a.model, &inputs.plan, &inputs.tokens);
    let flat: Vec<u32> = (0..items.len() as u32 * 3).collect();
    a.decode_close(&items, &hidden, &flat).unwrap()
}

fn rows_of(a: &Qwen35BatchAdapter, slot: usize) -> Vec<u64> {
    match &a.model.blocks[1] {
        HybridLayerType::Attention(layer) => {
            let (cache, len) = layer.checkpoint_slot(slot);
            cache.map(|c| c.rows[0..len].to_vec()).unwrap_or_default()
        }
        HybridLayerType::DeltaNet(_) => panic!("not an attention layer"),
    }
}

fn conv_of(a: &Qwen35BatchAdapter, slot: usize) -> Vec<u32> {
    match &a.model.blocks[0] {
        HybridLayerType::DeltaNet(layer) => layer.cpu_state_batched[slot].conv_buf.clone(),
        HybridLayerType::Attention(_) => panic!("not a DeltaNet layer"),
    }
}

fn payload() -> MultimodalPrefill {
    MultimodalPrefill {
        token_ids: vec![9, 100, 100, 100, 100, 8],
        mm_token_types: vec![0, 1, 1, 1, 1, 0],
        rope_positions: [vec![0, 1, 1, 1, 1, 3], vec![0, 1, 1, 2, 2, 3], vec![0, 1, 2, 1, 2, 3]],
        decode_rope_delta: -2,
        media_grids: vec![GridThw { t: 1, h: 4, w: 4 }],
        patch_value_count: 32,
        patch_rows: 16,
        patch_width: 2,
    }
}

#[test]
fn load_rejects_excess_slots_before_opening_gguf() {
    let request = LoadRequest { num_slots: DECODE_BATCH_CAPACITY as usize + 1, ..request() };
    let error = match Qwen35BatchAdapter::load(b"this is no model file", &request) {
        Ok(_) => panic!("excess slots unexpectedly accepted"),
        Err(error) => error,
    };
    assert_eq!(
        error,
        format!(
            "num_slots {} exceeds decode capacity {DECODE_BATCH_CAPACITY}",
            DECODE_BATCH_CAPACITY + 1
        )
    );
    check_slot_count(4).unwrap();
    assert!(Qwen35BatchAdapter::new(weights(1), profile(), 5, 0, 0, false).is_err());
}

#[test]
fn a_model_file_is_loaded() {
    let bytes = model_file(128);
    let a = Qwen35BatchAdapter::load(&bytes, &request()).unwrap().unwrap();
    assert_eq!(a.slots.len(), 2);
    assert_eq!(a.eos(), 5);
    assert_eq!(a.vocab_size(), 7);
    assert!(a.graphs_enabled);
    assert_eq!(a.profile().hidden_size, 32);
    assert_eq!(a.model().max_context_length(), 128);
    assert_eq!(a.model().blocks.len(), 2);
    assert!(a.model().blocks[0].is_deltanet());
    assert!(!a.model().blocks[1].is_deltanet());
    let given = Qwen35BatchAdapter::load_with_vocab(&bytes, &request(), 9).unwrap().unwrap();
    assert_eq!(given.vocab_size(), 9);
    assert_ne!(given.model().instance_nonce(), a.model().instance_nonce());
}

#[test]
fn files_that_cannot_be_loaded_are_refused() {
    let error = Qwen35BatchAdapter::load(b"nothing", &request()).unwrap_err();
    assert!(error.starts_with("read GGUF: "), "{error}");
    let name = gguf_file::Value::String("llama".to_string());
    let mut file = std::io::Cursor::new(Vec::new());
    gguf_file::write(&mut file, &[("general.architecture", &name)], &[]).unwrap();
    let error = Qwen35BatchAdapter::load(file.get_ref(), &request()).unwrap_err();
    assert_eq!(
        error,
        "GGUF validation failed: GGUF validation failed (1 error(s)): unsupported architecture: \
         'llama' — supported: qwen35, qwen35moe"
    );
    let mut odd = request();
    odd.settings.kv_cache_dtype = Some("f8");
    let error = Qwen35BatchAdapter::load(&model_file(128), &odd).unwrap_err();
    assert_eq!(
        error,
        "load weights: QWEN36_KV_CACHE_DTYPE must be q8 or q8_f16, got \"f8\""
    );
}

#[test]
fn a_file_without_context_is_loaded() {
    let a = Qwen35BatchAdapter::load(&model_file(0), &request()).unwrap().unwrap();
    assert_eq!(a.model().max_context_length(), 0);
    match &a.model().blocks[1] {
        HybridLayerType::Attention(layer) => {
            assert_eq!(layer.attn_window, 0);
            assert!(!layer.use_q8_f16_kv_cache);
        }
        _ => panic!("the second block attends"),
    }
    let mut limited = request();
    limited.settings.context_limit = Some("0");
    let a = Qwen35BatchAdapter::load(&model_file(128), &limited).unwrap().unwrap();
    assert_eq!(a.model().max_context_length(), 0);
}

#[test]
fn an_adapter_starts_empty() {
    let mut a = adapter(3);
    assert_eq!(a.slots.len(), 3);
    assert_eq!(a.eos(), 2);
    assert_eq!(a.vocab_size(), 3);
    a.set_vocab(0);
    assert_eq!(a.vocab_size(), 151943);
    assert_eq!(a.model().instance_nonce(), 7);
    assert_eq!(a.profile().block_count, 2);
    assert!(a.slot_snapshot(0).is_none());
    let mut index = GgufIndex::empty();
    assert_eq!(read_eos(&index), 151645);
    assert_eq!(read_vocab(&index), 0);
    index.set_meta(
        "tokenizer.ggml.eos_token_id".to_string(),
        MetaValue { kind: MetaKind::U32(11), debug: "U32(11)".to_string() },
    );
    index.set_tensor(
        "token_embd.weight".to_string(),
        TensorInfo { ggml_dtype: GgmlDType::F32, dims: vec![500, 16], offset: 0 },
    );
    assert_eq!(read_eos(&index), 11);
    assert_eq!(read_vocab(&index), 500);
    assert!(choose_graphs(Some("1"), false, 0));
    assert!(!choose_graphs(Some("1"), true, 1_342_177_279));
    assert!(choose_graphs(Some("1"), true, 1_342_177_280));
    assert!(!choose_graphs(None, false, 0));
}

#[test]
fn chunks_continue_where_the_last_ended() {
    let mut a = adapter(2);
    prefill(&mut a, chunk(0, 0, vec![1, 2, 3], true, false));
    assert!(!a.slots[0].seeded);
    assert_eq!(a.slot_snapshot(0).unwrap().position, 3);
    prefill(&mut a, chunk(1, 0, vec![50, 51], true, true));
    prefill(&mut a, chunk(0, 3, vec![4, 5], false, true));
    assert!(a.slots[0].seeded);
    assert_eq!(a.slot_snapshot(0).unwrap().position, 5);
    assert_eq!(rows_of(&a, 0), vec![1, 2, 3, 4, 5]);
    assert_eq!(rows_of(&a, 1), vec![50, 51]);
    assert_eq!(conv_of(&a, 0), vec![4, 4, 5, 5]);
}

#[test]
fn chunks_that_cannot_start_are_refused() {
    let mut a = adapter(1);
    let out = "prefill slot is out of range or chunk is empty";
    assert_eq!(a.prefill_open(&chunk(1, 0, vec![1], true, true)).unwrap_err(), out);
    assert_eq!(a.prefill_open(&chunk(0, 0, vec![], true, true)).unwrap_err(), out);
    assert_eq!(
        a.prefill_open(&chunk(0, 0, vec![1], false, true)).unwrap_err(),
        "prefill_chunk: slot 0 без snapshot и не reset"
    );
    let foreign = weights(9).snapshot_state(4);
    assert!(a.model().accepts_snapshot(&foreign));
    a.inject_slot_snapshot(0, foreign);
    assert_eq!(
        a.prefill_open(&chunk(0, 4, vec![1], false, true)).unwrap_err(),
        "prefill restore: restore_state: model nonce mismatch (snapshot from different model \
         instance): snap=0x9 vs self=0x7"
    );
}

#[test]
fn slots_decode_together() {
    let mut a = adapter(3);
    prefill(&mut a, chunk(0, 0, vec![1, 2], true, true));
    prefill(&mut a, chunk(2, 0, vec![7], true, true));
    let untouched = conv_of(&a, 1);
    let rows = decode(&mut a, vec![item(2, 8, 1), item(0, 3, 2)], vec![0, 0]);
    assert_eq!(rows, vec![vec![0, 1, 2], vec![3, 4, 5]]);
    assert_eq!(rows_of(&a, 0), vec![1, 2, 3]);
    assert_eq!(rows_of(&a, 2), vec![7, 8]);
    assert_eq!(conv_of(&a, 1), untouched);
    assert_eq!(a.slot_snapshot(0).unwrap().position, 3);
    assert_eq!(a.slot_snapshot(2).unwrap().position, 2);
    decode(&mut a, vec![item(2, 9, 2)], vec![0]);
    assert_eq!(rows_of(&a, 2), vec![7, 8, 9]);
    assert_eq!(rows_of(&a, 0), vec![1, 2, 3]);
}

#[test]
fn new_slots_are_seeded_once() {
    let mut a = adapter(2);
    prefill(&mut a, chunk(0, 0, vec![1, 2], true, true));
    let snap = a.slot_snapshot(0).unwrap();
    a.inject_slot_snapshot(1, snap);
    assert!(!a.slots[1].seeded);
    a.slots[1].paged_dirty = false;
    decode(&mut a, vec![item(1, 3, 2)], vec![0]);
    assert!(a.slots[1].seeded);
    assert!(a.slots[1].paged_dirty);
    assert_eq!(rows_of(&a, 1), vec![1, 2, 3]);
    a.slots[1].paged_dirty = false;
    decode(&mut a, vec![item(1, 4, 3)], vec![0]);
    assert!(!a.slots[1].paged_dirty);
    assert_eq!(rows_of(&a, 1), vec![1, 2, 3, 4]);
}

#[test]
fn steps_that_cannot_run_are_refused() {
    let mut a = adapter(2);
    assert_eq!(
        a.decode_open(&vec![item(2, 1, 0)]).unwrap_err(),
        "decode slot is out of range"
    );
    assert!(a.decode_open(&Vec::new()).unwrap().is_none());
    assert_eq!(
        a.decode_open(&vec![item(1, 1, 0)]).unwrap_err(),
        "decode_batch: slot 1 без snapshot"
    );
    a.inject_slot_snapshot(1, weights(9).snapshot_state(0));
    assert_eq!(
        a.decode_open(&vec![item(1, 1, 0)]).unwrap_err(),
        "decode seed slot 1: seed_slot_batched: model nonce mismatch: snap=0x9 vs self=0x7"
    );
    prefill(&mut a, chunk(0, 0, vec![1], true, true));
    a.slots[0].rope_delta = -5;
    assert_eq!(
        a.decode_open(&vec![item(0, 1, 1)]).unwrap_err(),
        "negative decode RoPE position"
    );
    a.slots[0].rope_delta = 0;
    let items = vec![item(0, 2, 1)];
    let inputs = a.decode_open(&items).unwrap().unwrap();
    assert_eq!(inputs.tokens, vec![2]);
    assert_eq!(
        a.decode_close(&items, &vec![0], &vec![1, 2]).unwrap_err(),
        "decode_batch logits length 2 != batch 1 * vocab 3"
    );
    assert_eq!(a.slot_snapshot(0).unwrap().position, 1);
    assert!(logits_fit(6, 2, 3));
    assert!(!logits_fit(6, usize::MAX, 3));
    assert_eq!(split_logits(&vec![1, 2, 3, 4], 2, 2), vec![vec![1, 2], vec![3, 4]]);
}

/// A file with the first `n` tensors of a prediction head.
fn head_file(n: usize) -> Vec<u8> {
    let part = Tensor::zeros((1, 32), DType::F32, &Device::Cpu).unwrap();
    let part = QTensor::quantize(&part, CandleDType::F32).unwrap();
    let names: Vec<String> =
        head_names().iter().take(n).map(|name| format!("{}{name}", head_block())).collect();
    let tensors: Vec<(&str, &QTensor)> = names.iter().map(|name| (name.as_str(), &part)).collect();
    let mut file = std::io::Cursor::new(Vec::new());
    gguf_file::write(&mut file, &[], &tensors).unwrap();
    file.into_inner()
}

#[test]
fn a_head_is_loaded_from_its_file() {
    assert_eq!(head_names().len(), 15);
    assert_eq!(head_block(), "blk.32");
    let index = read_head(&head_file(15), None).unwrap();
    assert_eq!(index.tensor("blk.32.nextn.eh_proj.weight").unwrap().dims, vec![1, 32]);
    let mut a = adapter(2);
    a.load_mtp(&head_file(15), None).unwrap();
    let head = a.mtp.as_ref().unwrap();
    assert_eq!(head.slots.len(), 2);
    assert!(head.slots.iter().all(|slot| slot.kv.is_none()));
    assert!(head.slots.iter().all(|slot| slot.pending_target_hidden.is_none()));
    assert!(head.transactions.iter().all(|saved| saved.is_none()));
    assert_eq!(Qwen35Mtp::load(&head_file(15), None, 3).unwrap().slots.len(), 3);
}

#[test]
fn heads_that_cannot_be_loaded_are_refused() {
    let mut a = ready();
    for (n, name) in head_names().iter().enumerate() {
        assert_eq!(
            a.load_mtp(&head_file(n), None).unwrap_err(),
            format!("load MTP component: cannot find tensor info for blk.32{name}")
        );
    }
    assert_eq!(
        a.load_mtp(&head_file(3), Some("wrong hidden size")).unwrap_err(),
        "load MTP component: wrong hidden size"
    );
    assert_eq!(
        Qwen35Mtp::load(&head_file(15), Some("no head"), 1).unwrap_err(),
        "no head"
    );
    let error = a.load_mtp(b"nothing", Some("wrong hidden size")).unwrap_err();
    assert!(error.starts_with("load MTP component: "), "{error}");
    assert!(!error.contains("wrong"), "{error}");
    let zero = gguf_file::Value::U32(0);
    let mut file = std::io::Cursor::new(Vec::new());
    gguf_file::write(&mut file, &[("general.alignment", &zero)], &[]).unwrap();
    assert_eq!(
        a.load_mtp(file.get_ref(), None).unwrap_err(),
        "load MTP component: gguf: alignment is zero"
    );
    let head = a.mtp.as_ref().unwrap();
    assert_eq!(head.slots[0].pending_target_hidden, Some(502));
}

fn ready() -> Qwen35BatchAdapter {
    let mut a = adapter(2);
    a.load_mtp(&head_file(15), None).unwrap();
    let c = chunk(0, 0, vec![1, 2], true, true);
    match a.prefill_open(&c).unwrap() {
        PrefillPass::WithHidden => {}
        _ => panic!("the head needs hidden states"),
    }
    run(&mut a.model, &c.tokens);
    let inputs = a.head_inputs(&c, HIDDEN, HIDDEN, &vec![501, 502]).unwrap().unwrap();
    assert_eq!(inputs, vec![None, Some(501)]);
    a.head_caught_up(0, &vec![601, 602], &vec![501, 502]);
    a.prefill_close(&c);
    a
}

#[test]
fn a_rollback_undoes_a_transaction() {
    let mut a = ready();
    let conv = conv_of(&a, 0);
    assert!(a.speculative_available(0));
    a.speculative_begin(0).unwrap();
    assert!(!a.speculative_available(0));
    let mut run = a.speculative_draft(0, 3, 2, 2, 2).unwrap();
    assert_eq!(run.hidden, 502);
    a.speculative_step(&mut run, 603, 503, &[0, 5.0f32.to_bits(), 1]);
    a.speculative_step(&mut run, 604, 504, &[7.0f32.to_bits(), 1, 1]);
    assert_eq!(run.tokens, vec![1, 0]);
    assert_eq!(run.position, 4);
    decode(&mut a, vec![item(0, 3, 2)], vec![901]);
    decode(&mut a, vec![item(0, 1, 3)], vec![902]);
    assert_eq!(a.slots[0].verified, vec![901, 902]);
    assert_eq!(a.slot_snapshot(0).unwrap().position, 4);
    a.speculative_rollback(0).unwrap();
    assert_eq!(rows_of(&a, 0), vec![1, 2]);
    assert_eq!(conv_of(&a, 0), conv);
    assert_eq!(a.slot_snapshot(0).unwrap().position, 2);
    assert!(a.slots[0].verified.is_empty());
    let head = a.mtp.as_ref().unwrap();
    assert_eq!(head.slots[0].kv.as_ref().unwrap().len, 2);
    assert_eq!(head.slots[0].pending_target_hidden, Some(502));
    assert!(a.speculative_available(0));
}

#[test]
fn a_commit_keeps_what_was_verified() {
    let mut a = ready();
    a.speculative_begin(0).unwrap();
    let mut run = a.speculative_draft(0, 3, 2, 2, 3).unwrap();
    for (row, hidden) in [(603, 503), (604, 504), (605, 505)] {
        a.speculative_step(&mut run, row, hidden, &[1, 2, 3]);
    }
    decode(&mut a, vec![item(0, 3, 2)], vec![901]);
    decode(&mut a, vec![item(0, 2, 3)], vec![902]);
    a.speculative_commit(0).unwrap();
    let head = a.mtp.as_ref().unwrap();
    let kv = head.slots[0].kv.as_ref().unwrap();
    assert_eq!(kv.rows[0..kv.len], [601, 602, 603, 604]);
    assert_eq!(head.slots[0].pending_target_hidden, Some(902));
    assert_eq!(rows_of(&a, 0), vec![1, 2, 3, 2]);
    assert!(a.speculative_available(0));
    a.speculative_rollback(0).unwrap();
    assert_eq!(rows_of(&a, 0), vec![1, 2, 3, 2]);
}

#[test]
fn speculation_says_why_it_fails() {
    let mut a = ready();
    assert_eq!(a.speculative_begin(1).unwrap_err(), "MTP is unavailable for slot 1");
    assert_eq!(a.speculative_begin(9).unwrap_err(), "MTP is unavailable for slot 9");
    assert_eq!(
        a.speculative_commit(0).unwrap_err(),
        "MTP transaction is not active for slot 0"
    );
    assert_eq!(
        a.speculative_rollback(9).unwrap_err(),
        "MTP rollback slot 9 is out of range"
    );
    assert_eq!(
        a.speculative_draft(0, 1, 2, 3, 1).unwrap_err(),
        "MTP cache/RoPE position mismatch"
    );
    assert_eq!(
        a.speculative_draft(0, 1, 2, 2, 1).unwrap_err(),
        "MTP draft: MTP draft requires active transaction"
    );
    assert_eq!(
        a.speculative_draft(9, 1, 2, 2, 1).unwrap_err(),
        "MTP draft: MTP slot 9 is out of range"
    );
    assert_eq!(
        a.speculative_draft(0, 1, usize::MAX, usize::MAX, 2).unwrap_err(),
        "MTP draft: MTP draft requires active transaction"
    );
    a.mtp.as_mut().unwrap().begin(0).unwrap();
    assert_eq!(
        a.speculative_begin(0).unwrap_err(),
        "MTP begin: MTP transaction already active for slot 0"
    );
    a.mtp.as_mut().unwrap().rollback(0).unwrap();
    a.speculative_begin(0).unwrap();
    assert_eq!(
        a.load_mtp(&head_file(15), None).unwrap_err(),
        "cannot load MTP during active transaction"
    );
    assert_eq!(
        a.unload_mtp().unwrap_err(),
        "cannot unload MTP during active transaction"
    );
    a.slots[0].verified.push(1);
    a.slots[0].verified.push(2);
    a.slots[0].verified.push(3);
    assert_eq!(
        a.speculative_commit(0).unwrap_err(),
        "MTP commit: MTP committed length exceeds draft KV"
    );
    assert!(!a.speculative_available(0));
    a.speculative_rollback(0).unwrap();
    assert!(a.speculative_available(0));
    a.unload_mtp().unwrap();
    assert_eq!(
        a.speculative_draft(0, 1, 2, 2, 1).unwrap_err(),
        "MTP component is not loaded"
    );
    let c = chunk(0, 0, vec![1], true, true);
    assert_eq!(a.head_inputs(&c, HIDDEN, HIDDEN, &vec![1]).unwrap(), None);
    a.load_mtp(&head_file(15), None).unwrap();
    assert_eq!(
        a.head_inputs(&c, HIDDEN, 1, &vec![1]).unwrap_err(),
        "MTP prefill catch-up: MTP catch-up shape mismatch"
    );
}

#[test]
fn heads_track_their_slots() {
    let mut head = Qwen35Mtp::new(2);
    assert_eq!(head.reset_slot(2).unwrap_err(), "MTP slot 2 is out of range");
    head.append_rows(1, &vec![5, 6]);
    head.begin(1).unwrap();
    head.append_rows(1, &vec![7]);
    assert_eq!(head.slots[1].kv.as_ref().unwrap().rows, vec![5, 6, 7]);
    head.commit(1, &Vec::new()).unwrap();
    assert_eq!(head.slots[1].kv.as_ref().unwrap().len, 2);
    assert_eq!(head.commit(1, &vec![1]).unwrap_err(), "MTP transaction is not active");
    head.begin(0).unwrap();
    assert_eq!(head.commit(0, &vec![1]).unwrap_err(), "MTP draft produced no KV state");
    head.reset_slot(1).unwrap();
    assert!(head.slots[1].kv.is_none());
    head.begin(1).unwrap();
    assert_eq!(
        head.draft_start(1).unwrap_err(),
        "MTP target hidden is not initialized"
    );
    assert_eq!(argmax(&[1.0f32.to_bits(), 3.0f32.to_bits(), 3.0f32.to_bits()]), 2);
    assert_eq!(argmax(&[(-1.0f32).to_bits(), (-2.0f32).to_bits()]), 0);
}

#[test]
fn slots_are_reset_and_cleared() {
    let mut a = ready();
    a.speculative_begin(0).unwrap();
    a.reset_slot(0).unwrap();
    assert!(a.slots[0].snap.is_none());
    assert!(!a.slots[0].seeded);
    assert!(a.slots[0].transaction.is_none());
    assert!(a.mtp.as_ref().unwrap().slots[0].kv.is_none());
    assert_eq!(a.reset_slot(2).unwrap_err(), "reset slot 2 is out of range");
    prefill(&mut a, chunk(1, 0, vec![5], true, true));
    a.clear_all_state();
    assert!(a.mtp.is_none());
    assert!(a.slots[1].snap.is_none());
    assert!(rows_of(&a, 1).is_empty());
    assert_eq!(a.model.kv_cache_len(), 0);
}

fn put_text(bytes: &mut Vec<u8>, text: &str) {
    bytes.extend((text.len() as u64).to_le_bytes());
    bytes.extend(text.as_bytes());
}

/// The index of a vision component, without the data of its tensors.
fn vision_file(production_q8: bool) -> Vec<u8> {
    let mut tensors: Vec<(String, Vec<u64>, u32)> = Vec::new();
    let (single, quantized, half) = (0, 8, 1);
    let sensitive = if production_q8 { single } else { half };
    for (name, dims, dtype) in [
        ("v.patch_embd.weight", vec![1024, 3, 16, 16], half),
        ("v.patch_embd.weight.1", vec![1024, 3, 16, 16], half),
        ("v.patch_embd.bias", vec![1024], single),
        ("v.position_embd.weight", vec![2304, 1024], quantized),
        ("v.post_ln.weight", vec![1024], single),
        ("v.post_ln.bias", vec![1024], single),
        ("mm.0.weight", vec![4096, 4096], sensitive),
        ("mm.0.bias", vec![4096], single),
        ("mm.2.weight", vec![2560, 4096], sensitive),
        ("mm.2.bias", vec![2560], single),
    ] {
        tensors.push((name.to_string(), dims, dtype));
    }
    for layer in 0..24 {
        let down = if (1..20).contains(&layer) { quantized } else { sensitive };
        for (name, dims, dtype) in [
            ("attn_qkv.weight", vec![3072, 1024], sensitive),
            ("attn_out.weight", vec![1024, 1024], sensitive),
            ("ffn_up.weight", vec![4096, 1024], sensitive),
            ("ffn_down.weight", vec![1024, 4096], down),
            ("attn_qkv.bias", vec![3072], single),
            ("attn_out.bias", vec![1024], single),
            ("ffn_up.bias", vec![4096], single),
            ("ffn_down.bias", vec![1024], single),
            ("ln1.weight", vec![1024], single),
            ("ln1.bias", vec![1024], single),
            ("ln2.weight", vec![1024], single),
            ("ln2.bias", vec![1024], single),
        ] {
            tensors.push((format!("v.blk.{layer}.{name}"), dims, dtype));
        }
    }
    let numbers = [
        ("clip.vision.block_count", 24u32),
        ("clip.vision.embedding_length", 1024),
        ("clip.vision.feed_forward_length", 4096),
        ("clip.vision.attention.head_count", 16),
        ("clip.vision.projection_dim", 2560),
        ("clip.vision.patch_size", 16),
        ("clip.vision.spatial_merge_size", 2),
        ("clip.vision.image_size", 768),
    ];
    let mut bytes = b"GGUF".to_vec();
    bytes.extend(3u32.to_le_bytes());
    bytes.extend((tensors.len() as u64).to_le_bytes());
    bytes.extend((numbers.len() as u64 + 1).to_le_bytes());
    put_text(&mut bytes, "general.architecture");
    bytes.extend(8u32.to_le_bytes());
    put_text(&mut bytes, "clip");
    for (key, number) in numbers {
        put_text(&mut bytes, key);
        bytes.extend(4u32.to_le_bytes());
        bytes.extend(number.to_le_bytes());
    }
    for (name, dims, dtype) in tensors {
        put_text(&mut bytes, &name);
        bytes.extend((dims.len() as u32).to_le_bytes());
        for dim in dims.iter().rev() {
            bytes.extend(dim.to_le_bytes());
        }
        bytes.extend(u32::to_le_bytes(dtype));
        bytes.extend(0u64.to_le_bytes());
    }
    bytes
}

#[test]
fn a_vision_component_is_loaded_from_its_file() {
    let production = vision_file(true);
    let profile = read_vision(&production, true).unwrap();
    assert_eq!(profile.block_count, 24);
    assert_eq!(profile.projection_dim, 2560);
    assert!(read_vision(&production, false).is_ok());
    let mut a = adapter(1);
    a.load_vision(&production, None).unwrap();
    assert!(a.vision);
    let mut a = adapter(1);
    let reference = vision_file(false);
    let error = a.load_vision(&reference, None).unwrap_err();
    assert!(
        error.starts_with("load Vision component: GGUF validation failed (79 error(s)): tensor "),
        "{error}"
    );
    assert!(!a.vision);
    a.load_vision_reference(&reference, None).unwrap();
    assert!(a.vision);
}

#[test]
fn vision_components_that_cannot_be_loaded_are_refused() {
    let mut a = adapter(1);
    let error = a.load_vision(b"nothing", Some("no tensors")).unwrap_err();
    assert!(error.starts_with("load Vision component: "), "{error}");
    assert!(!error.contains("no tensors"), "{error}");
    let error = a.load_vision_reference(b"nothing", None).unwrap_err();
    assert!(error.starts_with("load reference Vision component: "), "{error}");
    assert_eq!(
        a.load_vision(&vision_file(true), Some("no tensors")).unwrap_err(),
        "load Vision component: no tensors"
    );
    let error = a.load_vision(&head_file(15), Some("no tensors")).unwrap_err();
    assert!(error.contains("Vision tensor count=15, expected 298"), "{error}");
    assert!(!a.vision);
}

#[test]
fn prompts_with_media_are_installed_and_run() {
    let mut a = adapter(1);
    assert_eq!(
        a.install_multimodal(0, payload()).unwrap_err(),
        "Vision component is not loaded"
    );
    a.load_vision(&vision_file(true), None).unwrap();
    assert_eq!(
        a.install_multimodal(1, payload()).unwrap_err(),
        "multimodal slot 1 is out of range"
    );
    a.install_multimodal(0, payload()).unwrap();
    assert_eq!(a.slots[0].rope_delta, -2);
    let first = chunk(0, 0, vec![9, 100, 100], true, false);
    match a.prefill_open(&first).unwrap() {
        PrefillPass::Media { runs, plan, needs_vision } => {
            assert_eq!(runs, vec![FeatureRun { feature: 0, at: 1, len: 2 }]);
            assert_eq!(plan.text_positions, vec![0, 1, 2]);
            assert_eq!(plan.rope_positions[2], vec![0, 1, 2]);
            assert!(needs_vision);
        }
        _ => panic!("media expected"),
    }
    a.features_ready(0);
    run(&mut a.model, &first.tokens);
    a.prefill_close(&first);
    assert_eq!(a.slots[0].rope_delta, -2);
    let second = chunk(0, 3, vec![100, 100, 8], false, true);
    match a.prefill_open(&second).unwrap() {
        PrefillPass::Media { runs, plan, needs_vision } => {
            assert_eq!(runs, vec![FeatureRun { feature: 2, at: 0, len: 2 }]);
            assert_eq!(plan.text_positions, vec![3, 4, 5]);
            assert!(!needs_vision);
        }
        _ => panic!("media expected"),
    }
    run(&mut a.model, &second.tokens);
    a.prefill_close(&second);
    let inputs = a.decode_open(&vec![item(0, 1, 6)]).unwrap().unwrap();
    assert_eq!(inputs.plan.cache_positions, vec![6]);
    assert_eq!(inputs.plan.rope_positions, vec![4]);
    assert_eq!(
        a.prefill_open(&chunk(0, 0, vec![9, 9], true, false)).unwrap_err(),
        "multimodal prefill tokens differ from installed prompt"
    );
    assert_eq!(
        a.prefill_open(&chunk(0, usize::MAX, vec![9, 9], true, false)).unwrap_err(),
        "prefill range overflow"
    );
    a.unload_vision();
    assert!(a.slots[0].multimodal.is_none());
}

#[test]
fn media_payloads_are_checked() {
    check_payload(&payload()).unwrap();
    let mut p = payload();
    p.rope_positions[1].pop();
    assert_eq!(
        check_payload(&p).unwrap_err(),
        "multimodal token/position lengths differ or contain no media"
    );
    let mut p = payload();
    p.mm_token_types[0] = 3;
    assert!(check_payload(&p).is_err());
    let mut p = payload();
    p.patch_width = 3;
    assert_eq!(check_payload(&p).unwrap_err(), "multimodal patch value count mismatch");
    p.patch_width = usize::MAX;
    assert_eq!(check_payload(&p).unwrap_err(), "multimodal patch size overflow");
    let mut p = payload();
    p.media_grids[0].h = 3;
    assert_eq!(
        check_payload(&p).unwrap_err(),
        "multimodal grid is not divisible by merge size"
    );
    let mut p = payload();
    p.media_grids.push(GridThw { t: 1, h: 2, w: 2 });
    assert_eq!(
        check_payload(&p).unwrap_err(),
        "multimodal feature/grid count 5 != placeholder count 4"
    );
    assert_eq!(
        count_features(&vec![GridThw { t: usize::MAX, h: 4, w: 2 }]).unwrap_err(),
        "multimodal grid overflow"
    );
    let half = GridThw { t: usize::MAX / 2 + 1, h: 2, w: 2 };
    assert_eq!(
        count_features(&vec![half, half]).unwrap_err(),
        "multimodal feature count overflow"
    );
    assert_eq!(count_media(&vec![0, 1, 2, 0], 3), 2);
    assert_eq!(
        feature_runs(&vec![1, 0, 1, 1, 0, 2], 2, 4),
        vec![FeatureRun { feature: 1, at: 0, len: 2 }, FeatureRun { feature: 3, at: 3, len: 1 }]
    );
}

#[test]
fn graphs_are_captured_then_replayed() {
    let mut a = adapter(2);
    prefill(&mut a, chunk(0, 0, vec![1, 2], true, true));
    prefill(&mut a, chunk(1, 0, vec![3], true, true));
    assert!(a.graph_allowed(true));
    assert!(!a.graph_allowed(false));
    let mut ctx = PagedDecode { window: 8, max_blocks: 3, kv_len_host: vec![0, 0] };
    let items = vec![item(1, 4, 1), item(0, 5, 2)];
    let inputs = a.decode_open(&items).unwrap().unwrap();
    let slots = inputs.plan.slots.clone();
    assert_eq!(a.next_migration(&ctx, &slots, 0), Migration::Slot(0));
    assert!(a.migrated(&mut ctx, 1, 1));
    assert_eq!(a.next_migration(&ctx, &slots, 1), Migration::Slot(1));
    assert!(a.migrated(&mut ctx, 0, 2));
    assert_eq!(a.next_migration(&ctx, &slots, 2), Migration::Done);
    assert_eq!(ctx.kv_len_host, vec![2, 1]);
    match a.graph_step(&ctx, &slots, &inputs.plan.cache_positions) {
        GraphStep::Capture(table) => assert_eq!(table, vec![3, 4, 5, 0, 1, 2]),
        _ => panic!("a first step captures"),
    }
    ctx.count_rows(&slots);
    assert_eq!(ctx.kv_len_host, vec![3, 2]);
    let rows = a.graph_captured(&items, slots.clone(), &vec![1, 2, 3, 4, 5, 6], true).unwrap();
    assert_eq!(rows, vec![vec![1, 2, 3], vec![4, 5, 6]]);
    assert_eq!(a.slot_snapshot(0).unwrap().position, 3);
    let items = vec![item(1, 4, 2), item(0, 5, 3)];
    let inputs = a.decode_open(&items).unwrap().unwrap();
    match a.graph_step(&ctx, &inputs.plan.slots, &inputs.plan.cache_positions) {
        GraphStep::Replay(table) => assert_eq!(table.len(), 6),
        _ => panic!("the same slots replay"),
    }
    ctx.count_rows(&inputs.plan.slots);
    a.graph_replayed(&items, &vec![0; 6]).unwrap();
    assert_eq!(a.slot_snapshot(1).unwrap().position, 3);
    match a.graph_step(&ctx, &vec![0], &vec![4]) {
        GraphStep::Capture(_) => {}
        _ => panic!("other slots capture anew"),
    }
    assert!(a.decode_graph.is_none());
}

#[test]
fn graphs_give_way_to_plain_steps() {
    let mut a = adapter(2);
    prefill(&mut a, chunk(0, 0, vec![1, 2], true, true));
    let mut ctx = PagedDecode { window: 3, max_blocks: 1, kv_len_host: vec![0, 0] };
    assert_eq!(a.next_migration(&ctx, &vec![7], 0), Migration::Eager);
    assert!(!a.migrated(&mut ctx, 0, 4));
    assert!(a.slots[0].paged_dirty);
    assert!(a.migrated(&mut ctx, 0, 2));
    match a.graph_step(&ctx, &vec![0], &vec![1]) {
        GraphStep::Eager => {}
        _ => panic!("another position cannot run as a graph"),
    }
    ctx.kv_len_host[0] = 3;
    match a.graph_step(&ctx, &vec![0], &vec![3]) {
        GraphStep::Eager => {}
        _ => panic!("a full window cannot run as a graph"),
    }
    let none = PagedDecode { window: 0, max_blocks: 1, kv_len_host: vec![0, 0] };
    assert_eq!(a.next_migration(&none, &vec![0], 0), Migration::Eager);
    match a.graph_step(&none, &vec![0], &vec![0]) {
        GraphStep::Eager => {}
        _ => panic!("without a pool there is no graph"),
    }
    let items = vec![item(0, 3, 2)];
    assert_eq!(
        a.graph_captured(&items, vec![0], &vec![1], true).unwrap_err(),
        "graphed logits length mismatch"
    );
    assert!(!a.graphs_enabled);
    assert!(!a.graph_allowed(true));
    a.graphs_enabled = true;
    a.graph_captured(&items, vec![0], &vec![1, 2, 3], false).unwrap();
    assert!(!a.graphs_enabled);
    assert_eq!(
        a.graph_replayed(&items, &vec![]).unwrap_err(),
        "graph logits length mismatch"
    );
    a.graphs_enabled = true;
    a.load_mtp(&head_file(15), None).unwrap();
    a.speculative_begin(0).unwrap();
    assert!(!a.graph_allowed(true));
}
