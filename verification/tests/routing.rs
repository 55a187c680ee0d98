//! Routing of experts, kernel choices and launch sizes.
use qwen35_batch::batch_step::{plan_cuda_step, plan_metal_step, ProjectionRows, StepRoom};
use qwen35_batch::device_state::{
    clear_metal_state, restore_metal_state, snapshot_metal_state, LayerBuffers,
};
use qwen35_batch::gguf::GgmlDType;
use qwen35_batch::kernels::{
    check_batch, check_restore, count_channel_blocks, count_channel_threads, count_key_splits,
    fused_dispatches, fused_elems, metal_step_dispatches, partial_elems, same_ids, step_launches,
    temp_elems, topk_launch, BatchedBuffers, DeltaParams, Dispatch, Launch, SlotIdCache,
};
use qwen35_batch::metal_pool::{choose_cleanup, missing_settings, Cleanup};
use qwen35_batch::moe::{
    flatten_routes, group_by_expert, is_float_greater, is_routed_format, packed_width,
    select_backend, top_experts, MoeBackend, MoeRouter, Qwen35MoeConfig,
};
use qwen35_batch::moe_block::{PackedExperts, Qwen35MoeBlock, RoutedPath};
use qwen35_batch::q4k::{
    dispatch_q4k_matmul, q4k_kernel_is_v2, q4k_kernel_is_v2_effective, q4k_kernel_variant,
    q4k_kernel_variant_effective, set_q4k_kernel_v2, set_q4k_kernel_variant, variant_from_i8,
    variant_to_i8, ProductOperands, Q4KKernelChoice, Q4KKernelVariant,
};

const GATE: GgmlDType = GgmlDType::IQ2XXS;
const DOWN: GgmlDType = GgmlDType::IQ2S;

#[test]
fn cuda_defaults_to_ptx_for_supported_dtypes() {
    assert_eq!(select_backend(None, true, GATE, GATE, DOWN).unwrap(), MoeBackend::Ptx);
}

#[test]
fn reference_override_and_non_cuda_default_work() {
    assert_eq!(
        select_backend(Some("reference"), true, GATE, GATE, DOWN).unwrap(),
        MoeBackend::Reference
    );
    assert_eq!(
        select_backend(None, false, GATE, GATE, DOWN).unwrap(),
        MoeBackend::Reference
    );
}

#[test]
fn required_quant_matrix_is_supported() {
    for (gate, down) in [
        (GgmlDType::IQ2XXS, GgmlDType::IQ3XXS),
        (GgmlDType::IQ2S, GgmlDType::IQ4XS),
        (GgmlDType::IQ2XS, GgmlDType::IQ3XXS),
        (GgmlDType::IQ3XXS, GgmlDType::IQ4XS),
        (GgmlDType::Q4K, GgmlDType::Q5K),
        (GgmlDType::Q4K, GgmlDType::Q6K),
    ] {
        assert_eq!(
            select_backend(Some("ptx"), true, gate, gate, down).unwrap(),
            MoeBackend::Ptx
        );
    }
}

#[test]
fn explicit_ptx_rejects_non_cuda_or_unsupported_dtypes() {
    assert!(select_backend(Some("ptx"), false, GATE, GATE, DOWN).is_err());
    assert!(select_backend(Some("ptx"), true, GATE, GgmlDType::IQ2S, DOWN).is_err());
    assert!(select_backend(Some("unknown"), true, GATE, GATE, DOWN).is_err());
}

#[test]
fn backend_refusals_say_why() {
    assert_eq!(
        select_backend(Some("gp\"u"), true, GATE, GATE, DOWN).unwrap_err(),
        "invalid QWEN36_MOE_BACKEND=\"gp\\\"u\"; expected ptx or reference"
    );
    assert_eq!(
        select_backend(None, true, GATE, GATE, GgmlDType::F16).unwrap_err(),
        "PTX MoE does not support routed dtypes gate=IQ2XXS up=IQ2XXS down=F16"
    );
    assert!(is_routed_format(GgmlDType::Q5K));
    assert!(!is_routed_format(GgmlDType::F32));
}

#[test]
fn routing_matches_a_stable_sort() {
    let n_experts = 256usize;
    let router = MoeRouter::new(n_experts, 8, true);
    let rows: Vec<Vec<u32>> = (0..4usize)
        .map(|token| {
            (0..n_experts)
                .map(|expert| {
                    let x = (((expert * 73 + token * 29) % 997) as f32 - 498.0) / 37.0;
                    x.exp().to_bits()
                })
                .collect()
        })
        .collect();
    let plan = router.route_topk(&rows);
    for (token, row) in rows.iter().enumerate() {
        let mut expected: Vec<usize> = (0..n_experts).collect();
        expected.sort_by(|a, b| {
            f32::from_bits(row[*b]).partial_cmp(&f32::from_bits(row[*a])).unwrap()
        });
        expected.truncate(8);
        assert_eq!(plan.experts[token], expected);
        let probs: Vec<u32> = expected.iter().map(|e| row[*e]).collect();
        assert_eq!(plan.probs[token], probs);
    }
}

#[test]
fn ties_go_to_the_lower_expert() {
    let half = 0.5f32.to_bits();
    let (experts, _) = top_experts(&[half, 0.7f32.to_bits(), half, half], 3);
    assert_eq!(experts, vec![1, 0, 2]);
    let nan = f32::NAN.to_bits();
    let (experts, probs) = top_experts(&[nan, 0.1f32.to_bits()], 1);
    assert_eq!(experts, vec![1]);
    assert_eq!(probs, vec![0.1f32.to_bits()]);
    let few = MoeRouter::new(2, 8, false);
    let plan = few.route_topk(&vec![vec![half, 0.6f32.to_bits()]]);
    assert_eq!(plan.experts[0], vec![1, 0]);
}

#[test]
fn comparisons_follow_the_numbers() {
    let samples = [
        0.0f32, -0.0, 1.0, -1.0, f32::INFINITY, f32::NEG_INFINITY, f32::NAN, 1e-40, -1e-40, 3.5,
    ];
    for a in samples {
        for b in samples {
            assert_eq!(is_float_greater(a.to_bits(), b.to_bits()), a > b, "{a} {b}");
        }
    }
}

#[test]
fn tokens_are_grouped_by_expert() {
    let experts = vec![vec![2, 0], vec![0, 1], vec![2, 1]];
    let groups = group_by_expert(&experts, 4);
    assert_eq!(groups[0], vec![(0, 1), (1, 0)]);
    assert_eq!(groups[1], vec![(1, 1), (2, 1)]);
    assert_eq!(groups[2], vec![(0, 0), (2, 0)]);
    assert!(groups[3].is_empty());
    assert_eq!(flatten_routes(&experts), (2, vec![2, 0, 0, 1, 2, 1]));
    assert_eq!(flatten_routes(&Vec::new()), (0, Vec::new()));
}

#[test]
fn packed_shapes_give_the_width() {
    assert_eq!(packed_width(&[256, 512, 2048], &[256, 2048, 512]), Ok(512));
    assert_eq!(
        packed_width(&[256, 512], &[256, 2048, 512]).unwrap_err(),
        "reference_routed_swiglu: unexpected gate rank [256, 512]"
    );
    assert_eq!(
        packed_width(&[1, 2, 3], &[4]).unwrap_err(),
        "reference_routed_swiglu: unexpected down rank [4]"
    );
    assert_eq!(
        packed_width(&[1, 2, 3], &[1, 3, 4]).unwrap_err(),
        "reference_routed_swiglu: n_ff mismatch gate 2 vs down 4"
    );
}

fn block(backend: MoeBackend, down: GgmlDType) -> Qwen35MoeBlock {
    let cfg = Qwen35MoeConfig {
        hidden_size: 2048,
        n_experts: 256,
        n_experts_per_tok: 8,
        routed_intermediate: 512,
        shared_intermediate: 512,
        norm_topk_prob: true,
    };
    let routed = PackedExperts {
        gate: GgmlDType::Q4K,
        up: GgmlDType::Q4K,
        down,
        gate_dims: vec![256, 512, 2048],
        down_dims: vec![256, 2048, 512],
        n_experts: 256,
    };
    Qwen35MoeBlock::new(cfg, MoeRouter::new(256, 8, true), routed, backend)
}

#[test]
fn blocks_take_the_path_of_their_backend() {
    let ptx = block(MoeBackend::Ptx, GgmlDType::Q6K);
    assert_eq!(ptx.choose_path(true, true), Ok(RoutedPath::Fused));
    assert_eq!(ptx.choose_path(true, false), Ok(RoutedPath::Indexed));
    assert_eq!(
        ptx.choose_path(false, false).unwrap_err(),
        "PTX MoE backend requires cuda feature"
    );
    assert_eq!(
        block(MoeBackend::Ptx, GgmlDType::F16).choose_path(true, false),
        Ok(RoutedPath::Reference)
    );
    let reference = block(MoeBackend::Reference, GgmlDType::Q6K);
    assert_eq!(reference.choose_path(true, true), Ok(RoutedPath::Reference));
    assert_eq!(reference.width(), Ok(512));
    assert_eq!(reference.config().n_experts, 256);
}

#[test]
fn kernel_variants_have_numbers() {
    for v in [
        Q4KKernelVariant::V1Fast,
        Q4KKernelVariant::V2Opt,
        Q4KKernelVariant::V3ThreadgroupCache,
        Q4KKernelVariant::V4FullHalf,
    ] {
        assert_eq!(variant_from_i8(variant_to_i8(v)), v);
    }
    assert_eq!(variant_from_i8(-1), Q4KKernelVariant::V2Opt);
    assert_eq!(variant_from_i8(9), Q4KKernelVariant::V2Opt);
}

#[test]
fn kernel_choices_are_remembered_and_overridden() {
    let mut choice = Q4KKernelChoice::default();
    assert_eq!(q4k_kernel_variant(&mut choice, Some("V3")), Q4KKernelVariant::V3ThreadgroupCache);
    assert_eq!(q4k_kernel_variant(&mut choice, Some("v1")), Q4KKernelVariant::V3ThreadgroupCache);
    assert!(q4k_kernel_is_v2(&mut choice, None));
    set_q4k_kernel_v2(&mut choice, false);
    assert_eq!(q4k_kernel_variant_effective(&mut choice, None), Q4KKernelVariant::V1Fast);
    assert!(!q4k_kernel_is_v2_effective(&mut choice, None));
    assert!(q4k_kernel_is_v2(&mut choice, None));
    set_q4k_kernel_variant(&mut choice, Q4KKernelVariant::V4FullHalf);
    assert_eq!(q4k_kernel_variant_effective(&mut choice, None), Q4KKernelVariant::V4FullHalf);
    let mut fresh = Q4KKernelChoice::default();
    assert_eq!(q4k_kernel_variant_effective(&mut fresh, None), Q4KKernelVariant::V2Opt);
}

#[test]
fn products_fall_back_to_the_general_kernel() {
    let ops = ProductOperands { packed: true, f32_input: true, n: 1, m: 64 };
    let bare = ProductOperands { packed: false, ..ops };
    assert_eq!(
        dispatch_q4k_matmul(Q4KKernelVariant::V2Opt, bare),
        Q4KKernelVariant::V1Fast
    );
    assert_eq!(
        dispatch_q4k_matmul(Q4KKernelVariant::V1Fast, ops),
        Q4KKernelVariant::V1Fast
    );
}

fn params() -> DeltaParams {
    DeltaParams {
        n_k_heads: 2,
        n_v_heads: 4,
        head_k_dim: 8,
        head_v_dim: 16,
        key_dim: 16,
        value_dim: 64,
        channels: 300,
        conv_kernel: 4,
        q_scale_bits: 0,
        rms_norm_eps_bits: 0,
        heads_per_kv: 2,
        batch_size: 3,
    }
}

#[test]
fn launches_cover_channels_and_heads() {
    assert_eq!(count_channel_blocks(256), 1);
    assert_eq!(count_channel_blocks(257), 2);
    assert_eq!(count_channel_blocks(0), 0);
    let launches = step_launches(&params());
    assert_eq!(launches[0], Launch { grid: (2, 3), block: 256, shared_bytes: 0 });
    assert_eq!(launches[1], Launch { grid: (4, 3), block: 8, shared_bytes: 0 });
    assert_eq!(launches[2], launches[3]);
    assert_eq!(count_channel_threads(100), 100);
    assert_eq!(count_channel_threads(1000), 256);
    let list = metal_step_dispatches(&params(), 3);
    assert_eq!(list[0], Dispatch { groups: (4, 3), threads: (1, 8) });
    let elems = temp_elems(&params(), 2);
    assert_eq!(elems.qkv_conv, 600);
    assert_eq!(elems.q, 64);
    assert_eq!(elems.v, 128);
    assert_eq!(elems.beta, 8);
    assert_eq!(elems.gated_output, 128);
    assert_eq!(topk_launch(7, 256), Launch { grid: (7, 1), block: 256, shared_bytes: 1280 });
}

#[test]
fn fused_passes_and_splits_are_sized() {
    let elems = fused_elems(&params(), 10);
    assert_eq!((elems.qkv_conv, elems.values, elems.beta), (3000, 640, 40));
    let list = fused_dispatches(10, 4).unwrap();
    assert_eq!(list[1], Dispatch { groups: (32, 4), threads: (32, 4) });
    assert_eq!(fused_dispatches(0, 4).unwrap_err(), "dispatch_gdn_fused: n_tokens == 0");
    assert_eq!(count_key_splits(1), 8);
    assert_eq!(count_key_splits(20000), 20);
    assert_eq!(count_key_splits(1_000_000), 64);
    assert_eq!(partial_elems(16, 8, 256), 16 * 8 * 4 * 258);
    check_batch(false, 3, 3, 3, 3, 3).unwrap();
    assert_eq!(
        check_batch(false, 3, 2, 3, 3, 3).unwrap_err(),
        "dispatch_delta_rule_batched: input batch mismatch: qkv=3 z=2 beta=3 alpha=3 vs batch_size=3"
    );
}

#[test]
fn slot_numbers_are_copied_once() {
    let mut cache = SlotIdCache::new();
    assert!(cache.refresh(&[0, 2]));
    assert!(!cache.refresh(&[0, 2]));
    assert!(cache.refresh(&[2, 0]));
    assert!(same_ids(&vec![1, 2], &[1, 2]));
    assert!(!same_ids(&vec![1, 2], &[1]));
}

#[test]
fn device_slots_are_saved_and_brought_back() {
    let mut buffers = BatchedBuffers::new(2, 1, 4);
    buffers.restore_slot_state(1, &vec![7, 8], &vec![9]);
    let saved = buffers.checkpoint_slot(1).unwrap();
    buffers.clear();
    assert_eq!(buffers.ssm_state, vec![0; 8]);
    buffers.restore_slot_checkpoint(1, &saved).unwrap();
    assert_eq!(buffers.ssm_state, vec![0, 0, 7, 8, 0, 0, 0, 0]);
    assert_eq!(buffers.conv_state, vec![0, 9, 0, 0]);
    buffers.write_batched_state(&vec![1, 2], &vec![3]);
    assert_eq!(buffers.conv_state[0], 3);
    assert!(buffers.checkpoint_slot(4).is_err());
    assert!(buffers.restore_slot_checkpoint(4, &saved).is_err());
    check_restore(&params(), 4 * 16 * 16, 3 * 300).unwrap();
    assert!(check_restore(&params(), 1, 3 * 300).is_err());
}

#[test]
fn test_metal_state_snapshot_restore_roundtrip() {
    let test_params = DeltaParams {
        n_k_heads: 16,
        n_v_heads: 32,
        head_k_dim: 16,
        head_v_dim: 16,
        key_dim: 256,
        value_dim: 512,
        channels: 256,
        conv_kernel: 4,
        q_scale_bits: 0.0f32.to_bits(),
        rms_norm_eps_bits: 0.0f32.to_bits(),
        heads_per_kv: 2,
        batch_size: 1,
    };
    let ssm_data: Vec<u32> = (0..32 * 16 * 16).map(|i| (i as f32 * 0.01).to_bits()).collect();
    let conv_data: Vec<u32> =
        (0..3 * 256).map(|i| (i as f32 * 0.1 + 100.0).to_bits()).collect();
    let mut layer_state =
        LayerBuffers { ssm_state: ssm_data.clone(), conv_state: conv_data.clone() };

    let (ssm_snap, conv_snap) = snapshot_metal_state(&layer_state, &test_params);
    assert_eq!(ssm_snap, ssm_data, "snapshot ssm mismatch");
    assert_eq!(conv_snap, conv_data, "snapshot conv mismatch");

    clear_metal_state(&mut layer_state);
    assert!(
        layer_state.ssm_state.iter().all(|&x| f32::from_bits(x) == 0.0),
        "ssm not zeroed after clear"
    );
    assert!(
        layer_state.conv_state.iter().all(|&x| f32::from_bits(x) == 0.0),
        "conv not zeroed after clear"
    );

    restore_metal_state(&mut layer_state, &test_params, &ssm_snap, &conv_snap).unwrap();
    assert_eq!(layer_state.ssm_state, ssm_data, "ssm not restored correctly");
    assert_eq!(layer_state.conv_state, conv_data, "conv not restored correctly");

    clear_metal_state(&mut layer_state);
    assert_eq!(ssm_snap[0], ssm_data[0], "snapshot CPU data leaked into GPU");
    assert_eq!(conv_snap[0], conv_data[0], "snapshot CPU data leaked into GPU");

    let bad_ssm: Vec<u32> = vec![0.0f32.to_bits(); 1];
    let err = restore_metal_state(&mut layer_state, &test_params, &bad_ssm, &conv_data);
    assert!(err.is_err(), "expected size mismatch error");
}

#[test]
fn longer_buffers_keep_their_tail() {
    let mut small = params();
    small.n_v_heads = 1;
    small.head_v_dim = 2;
    small.channels = 1;
    small.conv_kernel = 3;
    let mut layer = LayerBuffers { ssm_state: vec![9; 6], conv_state: vec![9; 3] };
    restore_metal_state(&mut layer, &small, &vec![1, 2, 3, 4], &vec![5, 6]).unwrap();
    assert_eq!(layer.ssm_state, vec![1, 2, 3, 4, 9, 9]);
    assert_eq!(layer.conv_state, vec![5, 6, 9]);
    assert_eq!(
        restore_metal_state(&mut layer, &small, &vec![0; 4], &vec![0; 3]).unwrap_err(),
        "restore_metal_state: conv size mismatch: snap=3 vs logical=2"
    );
    assert_eq!(snapshot_metal_state(&layer, &small), (vec![1, 2, 3, 4], vec![5, 6]));
}

#[test]
fn steps_are_planned_after_their_checks() {
    let room = StepRoom { state: 4, temp: 4 };
    let rows = ProjectionRows { qkv: 3, z: 3, beta: 3, alpha: 3 };
    let mut cache = SlotIdCache::new();
    let step = plan_cuda_step(&params(), room, rows, &[2, 0, 1], &mut cache).unwrap();
    assert!(step.copy_ids);
    assert_eq!(step.launches, step_launches(&params()));
    let step = plan_cuda_step(&params(), room, rows, &[2, 0, 1], &mut cache).unwrap();
    assert!(!step.copy_ids);
    let list = plan_metal_step(&params(), room, rows, &[2, 0, 1]).unwrap();
    assert_eq!(list, metal_step_dispatches(&params(), 3));
    let odd = ProjectionRows { beta: 2, ..rows };
    assert_eq!(
        plan_cuda_step(&params(), room, odd, &[1], &mut cache).unwrap_err(),
        "dispatch_delta_rule_batched: input batch mismatch: qkv=3 z=3 beta=2 alpha=3 vs batch_size=3"
    );
    assert_eq!(cache.ids, Some(vec![2, 0, 1]));
    assert_eq!(
        plan_metal_step(&params(), room, odd, &[1]).unwrap_err(),
        "dispatch_delta_rule_batched: input batch mismatch: qkv=3 z=3 beta=2 alpha=3 vs \
         params.batch_size=3"
    );
}

#[test]
fn pools_are_purged_beyond_the_threshold() {
    assert_eq!(choose_cleanup(false, Some(100), 1), Cleanup::Wait);
    assert_eq!(choose_cleanup(true, Some(100), 99), Cleanup::Purge);
    assert_eq!(choose_cleanup(true, Some(100), 100), Cleanup::Flush);
    assert_eq!(choose_cleanup(true, None, 0), Cleanup::Flush);
    let all = missing_settings(false, false);
    assert_eq!(all[0].name, "CANDLE_METAL_COMPUTE_PER_BUFFER");
    assert_eq!(all[0].value, "15");
    assert_eq!(all[1].name, "CANDLE_METAL_COMMAND_POOL_SIZE");
    assert_eq!(all[1].value, "1");
    assert_eq!(missing_settings(true, false).len(), 1);
    assert!(missing_settings(true, true).is_empty());
}
