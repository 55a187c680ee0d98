//! Positions, attention decisions and the work lists of the kernels.
use qwen35_batch::attention::{
    causal_mask, check_decode_dims, check_rope_tables, choose_slot_kernel, choose_stream_kernel,
    key_head_of, query_pieces, shared_position, split_head, AttentionKernel, DeviceKind,
};
use qwen35_batch::delta_layer::{
    choose_prompt_path, choose_token_path, joined_parts, needs_metal_sync, part_of, tile_heads,
    DeltaContexts, DeltaDims, DeltaPath, JoinedParts,
};
use qwen35_batch::position::{
    axes_match, mrope_positions, rope_position, slice_position_plan, PositionPlan,
};

fn plan(n: u32) -> PositionPlan {
    PositionPlan {
        text_positions: (0..n).collect(),
        rope_positions: [(0..n).collect(), (10..10 + n).collect(), (20..20 + n).collect()],
        decode_rope_delta: -1,
    }
}

#[test]
fn multimodal_position_plan_slices_fail_closed() {
    let plan = PositionPlan {
        text_positions: vec![0, 1, 2],
        rope_positions: [vec![0, 1, 2], vec![0, 1, 2], vec![0, 1, 2]],
        decode_rope_delta: -1,
    };
    let slice = slice_position_plan(&plan, 1, 2).unwrap();
    assert_eq!(slice.text_positions, vec![1, 2]);
    assert_eq!(slice.rope_positions[0], vec![1, 2]);
    assert!(slice_position_plan(&plan, 2, 2).is_err());
}

#[test]
fn slices_say_why_they_fail() {
    let p = plan(3);
    assert_eq!(
        slice_position_plan(&p, 2, 2).unwrap_err(),
        "position-plan range is out of bounds"
    );
    assert_eq!(
        slice_position_plan(&p, usize::MAX, 2).unwrap_err(),
        "position-plan range overflow"
    );
    let mut torn = plan(3);
    torn.rope_positions[2].pop();
    assert!(slice_position_plan(&torn, 0, 3).is_err());
    assert!(slice_position_plan(&torn, 0, 2).is_ok());
    assert!(axes_match(&p, 3));
    assert!(!axes_match(&torn, 3));
}

#[test]
fn slices_of_slices_are_slices() {
    let p = plan(10);
    let outer = slice_position_plan(&p, 2, 6).unwrap();
    let inner = slice_position_plan(&outer, 1, 3).unwrap();
    let direct = slice_position_plan(&p, 3, 3).unwrap();
    assert_eq!(inner.text_positions, direct.text_positions);
    assert_eq!(inner.rope_positions, direct.rope_positions);
    assert_eq!(inner.decode_rope_delta, -1);
}

#[test]
fn rotary_positions_follow_the_axes() {
    let p = plan(2);
    let table = mrope_positions(&p, &[0, 1, 2, 0], 8).unwrap();
    assert_eq!(table, vec![0, 10, 20, 0, 1, 11, 21, 1]);
    assert!(mrope_positions(&p, &[0, 1], 8).is_err());
    assert_eq!(rope_position(5, -2).unwrap(), 3);
    assert_eq!(rope_position(5, 0).unwrap(), 5);
    assert_eq!(rope_position(1, -2).unwrap_err(), "negative decode RoPE position");
    assert_eq!(
        rope_position(1, i64::MAX).unwrap_err(),
        "decode RoPE position overflow"
    );
}

#[test]
fn kernels_are_chosen_by_device() {
    assert_eq!(
        choose_stream_kernel(1, DeviceKind::Cpu, false, false),
        AttentionKernel::Sdpa
    );
    assert_eq!(
        choose_stream_kernel(1, DeviceKind::Cuda, true, false),
        AttentionKernel::SingleQuery
    );
    assert_eq!(
        choose_stream_kernel(9, DeviceKind::Cuda, true, false),
        AttentionKernel::Flash
    );
    assert_eq!(
        choose_stream_kernel(9, DeviceKind::Cuda, true, true),
        AttentionKernel::ChunkedSingle
    );
    assert_eq!(
        choose_stream_kernel(9, DeviceKind::Metal, false, false),
        AttentionKernel::ChunkedHalf
    );
    assert_eq!(
        choose_slot_kernel(4096, DeviceKind::Cuda, true, Some("1")).unwrap(),
        AttentionKernel::SplitKeys
    );
    assert_eq!(
        choose_slot_kernel(2047, DeviceKind::Cuda, true, Some("1")).unwrap(),
        AttentionKernel::Flash
    );
    assert_eq!(
        choose_slot_kernel(4096, DeviceKind::Cuda, true, None).unwrap(),
        AttentionKernel::Flash
    );
    assert_eq!(
        choose_slot_kernel(4096, DeviceKind::Metal, false, None).unwrap(),
        AttentionKernel::Sdpa
    );
    assert_eq!(
        choose_slot_kernel(1, DeviceKind::Cuda, false, None).unwrap_err(),
        "attention decode: no kernel for this backend"
    );
}

#[test]
fn a_prompt_is_cut_into_pieces() {
    assert_eq!(query_pieces(1), vec![(0, 1)]);
    assert_eq!(query_pieces(256), vec![(0, 256)]);
    assert_eq!(query_pieces(600), vec![(0, 256), (256, 256), (512, 88)]);
}

#[test]
fn pieces_see_what_the_whole_sees() {
    let whole = causal_mask(2, 0, 4, 6);
    assert_eq!(
        whole[0..6],
        [true, true, true, false, false, false]
    );
    assert_eq!(whole[18..24], [true, true, true, true, true, true]);
    let first = causal_mask(2, 0, 2, 6);
    let second = causal_mask(2, 2, 2, 6);
    assert_eq!([first, second].concat(), whole);
}

#[test]
fn heads_and_tables_are_checked() {
    assert_eq!(split_head(64, 256), (64, 192));
    assert_eq!(split_head(256, 256), (256, 0));
    assert_eq!(key_head_of(0, 16, 4), 0);
    assert_eq!(key_head_of(7, 16, 4), 1);
    assert_eq!(key_head_of(15, 16, 4), 3);
    check_rope_tables(&[3, 32], &[3, 32], 3, 64).unwrap();
    assert!(check_rope_tables(&[3, 16], &[3, 32], 3, 64).is_err());
    assert_eq!(shared_position(&[4, 4, 4]), Some(4));
    assert_eq!(shared_position(&[4, 5]), None);
    check_decode_dims(2, 1, &[0, 0], &[0, 0], &[0, 1]).unwrap();
    assert_eq!(
        check_decode_dims(2, 1, &[0, 0], &[0], &[0, 1]).unwrap_err(),
        "invalid batched decode dimensions"
    );
}

#[test]
fn passes_are_computed_where_contexts_are() {
    let none = DeltaContexts { metal: false, metal_fused: false, cuda: false };
    let metal = DeltaContexts { metal: true, metal_fused: true, cuda: false };
    let plain = DeltaContexts { metal: true, metal_fused: false, cuda: false };
    let cuda = DeltaContexts { metal: false, metal_fused: false, cuda: true };
    assert_eq!(choose_token_path(none), DeltaPath::Cpu);
    assert_eq!(choose_token_path(metal), DeltaPath::Metal);
    assert_eq!(choose_token_path(cuda), DeltaPath::Cuda);
    assert_eq!(choose_prompt_path(metal, None, None), DeltaPath::FusedMetal);
    assert_eq!(choose_prompt_path(metal, Some("1"), None), DeltaPath::Cpu);
    assert_eq!(choose_prompt_path(plain, None, None), DeltaPath::Cpu);
    assert_eq!(choose_prompt_path(cuda, None, None), DeltaPath::FusedCuda);
    assert_eq!(choose_prompt_path(cuda, None, Some("1")), DeltaPath::CudaPerToken);
    assert!(needs_metal_sync(plain, DeltaPath::Cpu));
    assert!(!needs_metal_sync(metal, DeltaPath::FusedMetal));
    assert!(!needs_metal_sync(none, DeltaPath::Cpu));
}

#[test]
fn projections_are_cut_and_heads_repeated() {
    let dims = DeltaDims {
        n_k_heads: 2,
        n_v_heads: 4,
        head_k_dim: 2,
        head_v_dim: 3,
        key_dim: 4,
        value_dim: 12,
    };
    assert_eq!(
        joined_parts(&dims),
        JoinedParts { z: 20, beta: 32, alpha: 36, end: 40 }
    );
    assert_eq!(part_of(&vec![1, 2, 3, 4, 5, 6], 1, 2), vec![3, 4]);
    assert_eq!(tile_heads(&vec![1, 2, 3, 4], &dims), vec![1, 2, 3, 4, 1, 2, 3, 4]);
    let equal = DeltaDims { n_v_heads: 2, value_dim: 6, ..dims };
    assert_eq!(tile_heads(&vec![1, 2, 3, 4], &equal), vec![1, 2, 3, 4]);
}
