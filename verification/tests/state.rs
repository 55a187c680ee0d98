//! State of the layers and of the whole model: snapshots, caches and slots.
use qwen35_batch::delta_state::{copy_bits, zeros, DeltaNetState, DeltaNetStateSnap};
use qwen35_batch::forward::{
    releases_device, releases_scratch, BatchAction, BatchInput, BlockAction, BlockInput,
    BoundaryLogits, DecodePlan,
};
use qwen35_batch::kv_batch::SlotStep;
use qwen35_batch::kv_cache::{BatchedKvCache, GatedAttentionLayer, KvCacheSnap, KvFormat, KvStep};
use qwen35_batch::model_state::{
    BlockStateSnap, DeltaNetLayer, HybridLayerType, ModelWeights, StateSnapshot,
};
use qwen35_batch::position::PositionPlan;
use qwen35_batch::timings::GenTimings;

fn bits(values: &[f32]) -> Vec<u32> {
    values.iter().map(|x| x.to_bits()).collect()
}

fn attention(context: usize) -> GatedAttentionLayer {
    GatedAttentionLayer::new(context, true, 64)
}

fn model(nonce: u64) -> ModelWeights {
    let mut window = attention(4096);
    window.attn_window = 8;
    ModelWeights {
        blocks: vec![
            HybridLayerType::DeltaNet(DeltaNetLayer::new(3, 2, 1, 2, false)),
            HybridLayerType::Attention(window),
        ],
        context_length: 4096,
        hidden_size: 16,
        instance_nonce: nonce,
    }
}

fn feed(model: &mut ModelWeights, first: u64, n: u64) {
    let qkv: Vec<Vec<u32>> = (0..n).map(|i| vec![(first + i) as u32; 2]).collect();
    let ssm: Vec<Vec<u32>> = (0..n).map(|i| vec![(first + i) as u32 * 10; 4]).collect();
    model.forward_block(0, BlockInput::DeltaNet { qkv, ssm }).unwrap();
    let rows: Vec<u64> = (first..first + n).collect();
    model.forward_block(1, BlockInput::Attention { rows }).unwrap();
}

fn delta(model: &ModelWeights) -> &DeltaNetLayer {
    match &model.blocks[0] {
        HybridLayerType::DeltaNet(d) => d,
        HybridLayerType::Attention(_) => panic!("not a DeltaNet layer"),
    }
}

fn gated(model: &ModelWeights) -> &GatedAttentionLayer {
    match &model.blocks[1] {
        HybridLayerType::Attention(a) => a,
        HybridLayerType::DeltaNet(_) => panic!("not an attention layer"),
    }
}

fn decode(model: &mut ModelWeights, slots: Vec<u32>, positions: Vec<usize>, first: u64) {
    let n = slots.len() as u64;
    let plan = DecodePlan { cache_positions: positions.clone(), rope_positions: positions, slots };
    let qkv: Vec<Vec<u32>> = (0..n).map(|i| vec![(first + i) as u32; 2]).collect();
    let ssm: Vec<Vec<u32>> = (0..n).map(|i| vec![(first + i) as u32 * 10; 4]).collect();
    match model.decode_block(0, &plan, &BatchInput::DeltaNet { qkv, ssm }).unwrap() {
        BatchAction::DeltaNet => {}
        BatchAction::Attention(_) => panic!("wrong action"),
    }
    let rows: Vec<u64> = (first..first + n).collect();
    model.decode_block(1, &plan, &BatchInput::Attention { rows }).unwrap();
}

#[test]
fn test_delta_net_state_snapshot_roundtrip() {
    let conv_kernel = 4;
    let channels = 64;
    let n_v_heads = 8;
    let head_v_dim = 16;
    let mut state = DeltaNetState::new(conv_kernel, channels, n_v_heads, head_v_dim);
    for (i, x) in state.conv_buf.iter_mut().enumerate() {
        *x = ((i as f32) * 0.1 + 1.0).to_bits();
    }
    for (i, x) in state.ssm_state.iter_mut().enumerate() {
        *x = ((i as f32) * 0.01 - 5.0).to_bits();
    }
    let snap = state.to_snapshot();
    let expected_conv = state.conv_buf.clone();
    let expected_ssm = state.ssm_state.clone();

    state.clear();
    assert!(state.conv_buf.iter().all(|&x| f32::from_bits(x) == 0.0));
    assert!(state.ssm_state.iter().all(|&x| f32::from_bits(x) == 0.0));

    state.restore_from(&snap);
    assert_eq!(state.conv_buf, expected_conv);
    assert_eq!(state.ssm_state, expected_ssm);

    let mut state2 = state;
    state2.conv_buf[0] = 999.0f32.to_bits();
    state2.ssm_state[0] = 999.0f32.to_bits();
    assert_ne!(f32::from_bits(snap.conv_buf[0]), 999.0, "snapshot leaked storage with state");
    assert_ne!(f32::from_bits(snap.ssm_state[0]), 999.0, "snapshot leaked storage with state");
}

#[test]
fn test_delta_net_state_two_snapshots_independent() {
    let mut state = DeltaNetState::new(4, 32, 4, 8);
    state.conv_buf.iter_mut().enumerate().for_each(|(i, x)| *x = (i as f32).to_bits());
    let snap1 = state.to_snapshot();
    state.conv_buf.iter_mut().enumerate().for_each(|(i, x)| *x = ((i + 1000) as f32).to_bits());
    let snap2 = state.to_snapshot();

    state.restore_from(&snap1);
    for (i, &v) in state.conv_buf.iter().enumerate() {
        assert_eq!(f32::from_bits(v), i as f32);
    }
    for (i, &v) in snap2.conv_buf.iter().enumerate() {
        assert_eq!(f32::from_bits(v), (i + 1000) as f32);
    }
}

#[test]
fn test_kv_cache_snap_deep_clone_isolation() {
    let data: Vec<u64> = (0..4).collect();
    let snap = KvCacheSnap { rows: data.clone(), cache_len: 4, row_bytes: 64 };
    let mut restored = snap.clone();
    assert_eq!(restored.rows, data);
    restored.rows[0] += 1;
    assert_eq!(restored.rows[0], data[0] + 1);
    assert_eq!(snap.rows, data, "snapshot rows were changed through the copy");
    assert_eq!(snap.cache_len, 4);
}

#[test]
fn test_block_state_snap_variant_mismatch_error_paths() {
    let dn_snap = BlockStateSnap::DeltaNet(DeltaNetStateSnap {
        conv_buf: bits(&[0.0; 3 * 32]),
        ssm_state: bits(&[0.0; 4 * 8 * 8]),
    });
    let attn_snap = BlockStateSnap::Attention(None);
    let _ = dn_snap.clone();
    let _ = attn_snap.clone();

    let mut layer = HybridLayerType::DeltaNet(DeltaNetLayer::new(4, 32, 4, 8, false));
    assert!(layer.restore_block(&attn_snap).is_err());
    assert!(layer.restore_block(&dn_snap).is_ok());
    let mut layer = HybridLayerType::Attention(attention(128));
    assert!(layer.restore_block(&dn_snap).is_err());
    assert!(layer.restore_block(&attn_snap).is_ok());
}

#[test]
fn test_state_snapshot_construction_and_clone() {
    let snap = StateSnapshot {
        model_nonce: 0xDEADBEEF_CAFEBABE,
        position: 1234,
        blocks: vec![
            BlockStateSnap::DeltaNet(DeltaNetStateSnap {
                conv_buf: bits(&[1.0, 2.0, 3.0]),
                ssm_state: bits(&[4.0, 5.0, 6.0, 7.0]),
            }),
            BlockStateSnap::Attention(None),
            BlockStateSnap::DeltaNet(DeltaNetStateSnap {
                conv_buf: bits(&[10.0]),
                ssm_state: bits(&[20.0, 30.0]),
            }),
        ],
    };
    assert_eq!(snap.model_nonce, 0xDEADBEEF_CAFEBABE);
    assert_eq!(snap.position, 1234);
    assert_eq!(snap.blocks.len(), 3);
    let cloned = snap.clone();
    assert_eq!(cloned.model_nonce, snap.model_nonce);
    assert_eq!(cloned.position, snap.position);
    assert_eq!(cloned.blocks.len(), snap.blocks.len());
    match &cloned.blocks[1] {
        BlockStateSnap::Attention(None) => (),
        _ => panic!("expected Attention(None) at index 1"),
    }
    assert_eq!(snap.size_bytes(), (3 + 4 + 1 + 2) * 4);
}

#[test]
fn the_window_holds_the_last_inputs() {
    let mut state = DeltaNetState::new(3, 2, 1, 1);
    state.push_input(&[1, 2]);
    state.push_input(&[3, 4]);
    state.push_input(&[5, 6]);
    assert_eq!(state.window_at(0, 0), 3);
    assert_eq!(state.window_at(0, 1), 4);
    assert_eq!(state.window_at(1, 0), 5);
    assert_eq!(state.window_at(1, 1), 6);
    state.step(&[7, 8], &vec![42]);
    assert_eq!(state.conv_buf, vec![5, 6, 7, 8]);
    assert_eq!(state.ssm_state, vec![42]);
    assert_eq!(zeros(3), vec![0, 0, 0]);
    assert_eq!(copy_bits(&vec![1, 2]), vec![1, 2]);
}

#[test]
fn a_stream_fills_appends_grows_and_evicts() {
    let mut layer = attention(600);
    assert_eq!(layer.append(vec![1, 2, 3]).unwrap(), KvStep::Fill);
    assert_eq!(
        layer.append(vec![4]).unwrap(),
        KvStep::Grow { capacity: 516, at: 3 }
    );
    assert_eq!(layer.append(vec![5]).unwrap(), KvStep::Append { at: 4 });
    assert_eq!(layer.kv_cache_len, 5);
    layer.attn_window = 5;
    assert_eq!(layer.append(vec![6]).unwrap(), KvStep::Evict { keep: 4 });
    let snap = layer.snapshot_kv().unwrap();
    assert_eq!(snap.rows, vec![2, 3, 4, 5, 6]);
    layer.truncate(2);
    assert_eq!(layer.snapshot_kv().unwrap().rows, vec![2, 3]);
    layer.restore_kv(&Some(snap));
    assert_eq!(layer.kv_cache_len, 5);
    layer.attn_window = 3;
    layer.truncate_to_window();
    assert_eq!(layer.snapshot_kv().unwrap().rows, vec![4, 5, 6]);
    layer.clear_stream();
    assert!(layer.snapshot_kv().is_none());
}

#[test]
fn a_stream_refuses_more_than_the_context() {
    let mut layer = attention(4);
    layer.append(vec![1, 2, 3]).unwrap();
    assert_eq!(
        layer.append(vec![4, 5]).unwrap_err(),
        "shape mismatch on target dim, dst: 4, src: 2 + 3"
    );
    assert_eq!(layer.kv_cache_len, 3);
}

#[test]
fn reserving_avoids_growth() {
    let mut layer = attention(4096);
    layer.reserve(100);
    assert_eq!(layer.append(vec![1; 90]).unwrap(), KvStep::Append { at: 0 });
    assert_eq!(layer.append(vec![2; 10]).unwrap(), KvStep::Append { at: 90 });
    assert_eq!(
        layer.append(vec![3]).unwrap(),
        KvStep::Grow { capacity: 613, at: 100 }
    );
    let mut layer = attention(64);
    layer.pre_allocate(1000);
    assert_eq!(layer.kv_cache.as_ref().unwrap().len(), 64);
}

#[test]
fn slots_are_decoded_one_by_one() {
    let mut layer = attention(4096);
    layer.attn_window = 3;
    assert_eq!(
        layer.decode_slot(1, 10, 0).unwrap(),
        SlotStep { opened: Some(3), step: KvStep::Append { at: 0 } }
    );
    assert_eq!(
        layer.decode_slot(1, 11, 2).unwrap_err(),
        "decode cache position 2 is incompatible with slot 1 cache length 1"
    );
    layer.decode_slot(1, 11, 1).unwrap();
    layer.decode_slot(1, 12, 2).unwrap();
    assert_eq!(
        layer.decode_slot(1, 13, 3).unwrap(),
        SlotStep { opened: None, step: KvStep::Evict { keep: 2 } }
    );
    let (cache, len) = layer.checkpoint_slot(1);
    assert_eq!(len, 3);
    assert_eq!(cache.unwrap().rows[0..3], [11, 12, 13]);
    assert_eq!(
        layer.decode_batch(2, 1, &[0], &[0, 0], &[0, 2], &[1, 2]).unwrap_err(),
        "invalid batched decode dimensions"
    );
    assert_eq!(
        layer.decode_batch(1, 1, &[0], &[0], &[4], &[1]).unwrap_err(),
        "decode slot 4 is out of range"
    );
    let steps = layer.decode_batch(2, 1, &[0, 4], &[0, 4], &[0, 1], &[20, 14]).unwrap();
    assert_eq!(steps.len(), 2);
    assert_eq!(steps[1].step, KvStep::Evict { keep: 2 });
    assert_eq!(layer.kv_cache_cap_batched, 3);
    layer.attn_window = 1000;
    layer.decode_batch(2, 1, &[3, 0], &[3, 0], &[1, 2], &[15, 30]).unwrap();
    assert_eq!(layer.kv_cache_cap_batched, 512);
    layer.decode_batch(2, 1, &[1, 4], &[1, 4], &[0, 1], &[21, 16]).unwrap();
    assert_eq!(layer.kv_cache_cap_batched, 512);
    layer.decode_batch(2, 1, &[2, 3], &[2, 3], &[0, 0], &[22, 23]).unwrap();
    assert_eq!(layer.kv_cache_cap_batched, 516);
    layer.clear_slots();
    assert_eq!(layer.kv_cache_cap_batched, 0);
    assert_eq!(layer.checkpoint_slot(1).1, 0);
}

#[test]
fn a_layer_without_window_takes_a_prompt() {
    let mut layer = attention(0);
    assert_eq!(layer.append(vec![1, 2]).unwrap(), KvStep::Fill);
    assert_eq!(layer.kv_cache_len, 2);
    assert_eq!(
        layer.decode_batch(1, 1, &[0], &[0], &[9], &[1]).unwrap_err(),
        "decode slot 9 is out of range"
    );
    assert!(layer.decode_batch(0, 1, &[], &[], &[], &[]).unwrap().is_empty());
}

#[test]
fn slot_caches_copy_shift_and_check_formats() {
    let mut cache = BatchedKvCache { format: KvFormat::Q8, rows: vec![1, 2, 3] };
    assert_eq!(cache.capacity(), 3);
    let mut wide = cache.empty_like(5);
    assert_eq!(wide.rows, vec![0; 5]);
    cache.copy_prefix_to(&mut wide, 2).unwrap();
    assert_eq!(wide.rows, vec![1, 2, 0, 0, 0]);
    wide.set_row(9, KvFormat::Q8, 4).unwrap();
    assert_eq!(wide.rows[4], 9);
    assert!(wide.set_row(9, KvFormat::F16, 4).is_err());
    cache.shift_and_append(7, KvFormat::Q8, 2).unwrap();
    assert_eq!(cache.rows, vec![2, 3, 7]);
    assert!(cache.shift_and_append(7, KvFormat::F16, 2).is_err());
    let mut long = BatchedKvCache { format: KvFormat::Q8, rows: vec![1, 2, 3, 4, 5] };
    long.shift_and_append(7, KvFormat::Q8, 2).unwrap();
    assert_eq!(long.rows, vec![2, 3, 7, 4, 5]);
    let mut other = BatchedKvCache { format: KvFormat::F16, rows: vec![0; 3] };
    assert!(cache.copy_prefix_to(&mut other, 1).is_err());
}

#[test]
fn a_snapshot_brings_the_stream_back() {
    let mut m = model(7);
    feed(&mut m, 1, 5);
    let snap = m.snapshot_state(5);
    assert_eq!(snap.position, 5);
    assert!(m.accepts_snapshot(&snap));
    let conv = delta(&m).state.conv_buf.clone();
    feed(&mut m, 6, 2);
    assert_eq!(m.kv_cache_len(), 7);
    m.restore_state(&snap).unwrap();
    assert_eq!(m.kv_cache_len(), 5);
    assert_eq!(delta(&m).state.conv_buf, conv);
    let again = m.snapshot_state(snap.position);
    assert_eq!(format!("{again:?}"), format!("{snap:?}"));
    m.clear_state();
    assert_eq!(m.kv_cache_len(), 0);
    assert_eq!(
        model(8).restore_state(&snap).unwrap_err(),
        "restore_state: model nonce mismatch (snapshot from different model instance): snap=0x7 vs self=0x8"
    );
}

#[test]
fn wrong_snapshots_are_refused() {
    let mut m = model(7);
    let mut short = m.snapshot_state(0);
    short.blocks.pop();
    assert!(m.restore_state(&short).unwrap_err().contains("length mismatch"));
    let mut swapped = m.snapshot_state(0);
    swapped.blocks.swap(0, 1);
    assert!(m.restore_state(&swapped).is_err());
    let mut damaged = m.snapshot_state(0);
    damaged.blocks[0] = BlockStateSnap::DeltaNet(DeltaNetStateSnap {
        conv_buf: vec![0; 3],
        ssm_state: vec![0; 4],
    });
    assert!(!m.accepts_snapshot(&damaged));
    damaged.blocks[0] = BlockStateSnap::DeltaNet(DeltaNetStateSnap {
        conv_buf: vec![0; 4],
        ssm_state: vec![0; 4],
    });
    assert!(m.accepts_snapshot(&damaged));
    let torn = KvCacheSnap { rows: vec![1], cache_len: 2, row_bytes: 64 };
    damaged.blocks[1] = BlockStateSnap::Attention(Some(torn));
    assert!(!m.accepts_snapshot(&damaged));
}

#[test]
fn a_seeded_slot_continues_the_stream() {
    let mut m = model(7);
    feed(&mut m, 1, 4);
    let snap = m.snapshot_state(4);
    m.seed_slot_batched(2, &snap).unwrap();
    assert_eq!(delta(&m).cpu_state_batched[2].conv_buf, delta(&m).state.conv_buf);
    assert_eq!(gated(&m).checkpoint_slot(2).1, 4);
    assert_eq!(gated(&m).checkpoint_slot(1).1, 0);
    decode(&mut m, vec![2], vec![4], 5);
    assert_eq!(gated(&m).checkpoint_slot(2).0.unwrap().rows[0..5], [1, 2, 3, 4, 5]);
    assert_eq!(m.kv_cache_len(), 4);
    assert!(m.seed_slot_batched(4, &snap).unwrap_err().contains("slot 4 >= capacity 4"));
    let foreign = model(9).snapshot_state(0);
    assert!(m.seed_slot_batched(0, &foreign).unwrap_err().contains("nonce mismatch"));
}

#[test]
fn a_checkpoint_brings_a_slot_back() {
    let mut m = model(7);
    decode(&mut m, vec![0, 3], vec![0, 0], 1);
    let checkpoint = m.checkpoint_slot_batched(3).unwrap();
    let before = delta(&m).cpu_state_batched[3].conv_buf.clone();
    decode(&mut m, vec![3, 0], vec![1, 1], 10);
    let other = delta(&m).cpu_state_batched[0].conv_buf.clone();
    m.restore_slot_batched(&checkpoint).unwrap();
    assert_eq!(delta(&m).cpu_state_batched[3].conv_buf, before);
    assert_eq!(delta(&m).cpu_state_batched[0].conv_buf, other);
    assert_eq!(gated(&m).checkpoint_slot(3).1, 1);
    assert_eq!(gated(&m).checkpoint_slot(0).1, 2);
    assert!(m.checkpoint_slot_batched(4).is_err());
    assert_eq!(
        model(8).restore_slot_batched(&checkpoint).unwrap_err(),
        "batched checkpoint is incompatible with model"
    );
    m.clear_state_batched();
    assert_eq!(gated(&m).checkpoint_slot(0).1, 0);
}

#[test]
fn a_batched_slot_matches_the_single_stream() {
    let mut single = model(1);
    let mut batched = model(1);
    for i in 0..12u64 {
        feed(&mut single, i + 1, 1);
        decode(&mut batched, vec![2], vec![i as usize], i + 1);
    }
    assert_eq!(delta(&batched).cpu_state_batched[2].conv_buf, delta(&single).state.conv_buf);
    assert_eq!(delta(&batched).cpu_state_batched[2].ssm_state, delta(&single).state.ssm_state);
    let rows = gated(&single).snapshot_kv().unwrap().rows;
    let (cache, len) = gated(&batched).checkpoint_slot(2);
    assert_eq!(cache.unwrap().rows[0..len], rows[..]);
    assert_eq!(rows, (5..=12).collect::<Vec<u64>>());
}

#[test]
fn a_prompt_in_pieces_leaves_the_same_state() {
    let mut whole = model(1);
    let mut pieces = model(1);
    feed(&mut whole, 1, 6);
    feed(&mut pieces, 1, 2);
    feed(&mut pieces, 3, 4);
    assert_eq!(delta(&whole).state.conv_buf, delta(&pieces).state.conv_buf);
    assert_eq!(
        gated(&whole).snapshot_kv().unwrap().rows,
        gated(&pieces).snapshot_kv().unwrap().rows
    );
    feed(&mut whole, 7, 4);
    whole.forward_finish(4);
    assert_eq!(whole.kv_cache_len(), 8);
    assert_eq!(gated(&whole).snapshot_kv().unwrap().rows, (3..=10).collect::<Vec<u64>>());
}

#[test]
fn model_numbers_and_checks() {
    let m = model(5);
    assert_eq!(m.instance_nonce(), 5);
    assert_eq!(m.hidden_size(), 16);
    assert_eq!(m.max_context_length(), 4096);
    assert_eq!(m.metal_path_status(), (0, 1));
    m.check_embeds(16).unwrap();
    assert_eq!(
        m.check_embeds(8).unwrap_err(),
        "forward_embeds: hidden mismatch — embeds 8, model 16"
    );
    let plan = PositionPlan {
        text_positions: vec![0, 1],
        rope_positions: [vec![0, 1], vec![0, 1], vec![0, 1]],
        decode_rope_delta: 0,
    };
    m.check_mrope(&plan, 2).unwrap();
    assert_eq!(
        m.check_mrope(&plan, 3).unwrap_err(),
        "MRoPE position count does not match embedding sequence"
    );
    let mut linear = model(5);
    linear.blocks.pop();
    assert_eq!(linear.check_mrope(&plan, 2).unwrap_err(), "model has no attention block");
    assert_eq!(
        m.check_decode_batch(1, 2, &[0], &[0], &[0]).unwrap_err(),
        "invalid batched decode dimensions"
    );
    m.check_decode_batch(1, 1, &[0], &[0], &[0]).unwrap();
}

#[test]
fn caches_of_a_model_are_cut_and_reserved() {
    let mut m = model(5);
    m.pre_allocate_kv_cache(20);
    assert_eq!(gated(&m).kv_cache.as_ref().unwrap().len(), 8);
    feed(&mut m, 1, 6);
    m.truncate_kv_cache(4);
    assert_eq!(m.kv_cache_len(), 4);
    m.reserve_kv_cache(6);
    assert_eq!(gated(&m).snapshot_kv().unwrap().rows, vec![1, 2, 3, 4]);
    m.truncate_kv_cache_to_window();
    assert_eq!(m.kv_cache_len(), 4);
}

#[test]
fn wanted_logits_are_kept_in_order() {
    let mut logits = BoundaryLogits::new(&[3, 0, 3]);
    for i in 0..4 {
        if logits.wants(i) {
            logits.collect(i, &vec![i as u32]);
        }
    }
    assert_eq!(logits.finish(), vec![vec![3], vec![0], vec![3]]);
    let missing = BoundaryLogits::new(&[9]);
    assert_eq!(missing.finish(), vec![Vec::<u32>::new()]);
    assert!(releases_scratch(3));
    assert!(!releases_scratch(4));
    assert!(releases_device(256, true));
    assert!(!releases_device(0, true));
    assert!(!releases_device(256, false));
}

#[test]
fn times_add_up() {
    let mut t = GenTimings::default();
    t.delta_proj_us = 1;
    t.delta_transfer_us = 2;
    t.delta_prep_us = 3;
    t.delta_norm_us = 4;
    t.delta_rule_us = 5;
    t.delta_rms_gate_us = 6;
    t.delta_out_proj_us = 7;
    t.attn_proj_us = 10;
    t.attn_reshape_us = 20;
    t.attn_kv_cache_us = 30;
    t.attn_sdpa_us = 40;
    t.attn_gate_out_us = 50;
    t.norm_us = 1000;
    assert_eq!(t.total_delta_us(), 28);
    assert_eq!(t.total_attn_us(), 150);
    let m = model(1);
    m.forward_start(&mut t, 2);
    assert_eq!(t.total_delta_us(), 28);
    m.forward_start(&mut t, 1);
    assert_eq!(t.total_delta_us(), 0);
    assert_eq!(t.norm_us, 0);
}

#[test]
fn actions_say_what_buffers_need() {
    let mut m = model(1);
    let action = m.forward_block(1, BlockInput::Attention { rows: vec![1, 2] }).unwrap();
    assert_eq!(action, BlockAction::Attention(KvStep::Fill));
    let plan = DecodePlan { cache_positions: vec![0], rope_positions: vec![0], slots: vec![9] };
    let error = m
        .decode_block(0, &plan, &BatchInput::DeltaNet { qkv: vec![vec![0; 2]], ssm: vec![vec![0; 4]] })
        .unwrap_err();
    assert_eq!(error, "forward_decode_batch CPU: slot 9 >= cpu_state_batched len 4");
}

#[test]
fn a_slot_that_does_not_exist_ends_a_batch() {
    let mut m = model(1);
    let plan = DecodePlan {
        cache_positions: vec![0; 4],
        rope_positions: vec![0; 4],
        slots: vec![2, 0, 4, 1],
    };
    let qkv: Vec<Vec<u32>> = (1..5).map(|i| vec![i; 2]).collect();
    let ssm = vec![vec![10; 4], vec![20; 4], Vec::new(), Vec::new()];
    let error = m.decode_block(0, &plan, &BatchInput::DeltaNet { qkv, ssm }).unwrap_err();
    assert_eq!(error, "forward_decode_batch CPU: slot 4 >= cpu_state_batched len 4");
    let states = &delta(&m).cpu_state_batched;
    assert_eq!(states[2].conv_buf, vec![0, 0, 1, 1]);
    assert_eq!(states[2].ssm_state, vec![10; 4]);
    assert_eq!(states[0].conv_buf, vec![0, 0, 2, 2]);
    assert_eq!(states[0].ssm_state, vec![20; 4]);
    assert_eq!(states[1].conv_buf, vec![0; 4]);
    assert_eq!(states[3].ssm_state, vec![0; 4]);
    let mut layer = DeltaNetLayer::new(3, 2, 1, 2, false);
    assert_eq!(
        layer.step_batch(2, &[0], &vec![], &vec![]).unwrap_err(),
        "forward_decode_batch: seq_len должен быть 1 (decode), got 2"
    );
}
