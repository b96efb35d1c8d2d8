use strided_jit::alias::{decide_alias_binary, decide_alias_unary, AliasDecision};
use strided_jit::client::ComputeClient;
use strided_jit::descriptor::{
    broadcast_shape, contiguous_strides, copy_dims, numel, vec_eq_usize, ElemKind, LaunchError,
    TensorDesc,
};
use strided_jit::grid::{ceil_div, elemwise_grid, make_elemwise_plan, GroupSize};
use strided_jit::projection::project_offset_exec;
use strided_jit::template::build_info;
use strided_jit::vectorize::{tensor_vectorization_factor, vectorization_factor_binary};

fn desc(shape: Vec<usize>, strides: Vec<usize>, buffer: usize, elem: ElemKind) -> TensorDesc {
    TensorDesc { shape, strides, buffer, device: 0, elem }
}

#[test]
fn contiguous_strides_row_major() {
    let s = contiguous_strides(&vec![2, 3, 4]);
    assert_eq!(s, vec![12, 4, 1]);
    assert_eq!(numel(&vec![2, 3, 4]), 24);
    assert_eq!(numel(&vec![]), 1);
    assert_eq!(numel(&vec![5, 0, 7]), 0);
}

#[test]
fn elem_kind_bytes() {
    assert_eq!(ElemKind::Float32.bytes(), 4);
    assert_eq!(ElemKind::UInt32.bytes(), 4);
    assert_eq!(ElemKind::Int64.bytes(), 8);
}

#[test]
fn projection_identity_on_contiguous_layout() {
    // the projection through a contiguous layout onto itself is the
    // identity, so the contiguous fast path and the projected path agree
    let shape = vec![2usize, 3, 4];
    let strides = contiguous_strides(&shape);
    for i in 0..24usize {
        let off = project_offset_exec(i, &strides, &shape, &strides);
        assert_eq!(off, i);
    }
}

#[test]
fn projection_clamps_broadcast_dimensions() {
    // a source extent of 1 under a wider output contributes no offset
    let out_strides = vec![1usize];
    let src_shape = vec![1usize];
    let src_strides = vec![1usize];
    for i in 0..5usize {
        assert_eq!(project_offset_exec(i, &out_strides, &src_shape, &src_strides), 0);
    }
}

#[test]
fn projection_through_transposed_layout() {
    // output is a contiguous [2, 3]; source is its transpose-in-memory
    // (strides [1, 2]); logical element (r, c) sits at c * 2 + r
    let out_strides = vec![3usize, 1];
    let src_shape = vec![2usize, 3];
    let src_strides = vec![1usize, 2];
    assert_eq!(project_offset_exec(0, &out_strides, &src_shape, &src_strides), 0);
    assert_eq!(project_offset_exec(1, &out_strides, &src_shape, &src_strides), 2);
    assert_eq!(project_offset_exec(2, &out_strides, &src_shape, &src_strides), 4);
    assert_eq!(project_offset_exec(3, &out_strides, &src_shape, &src_strides), 1);
    assert_eq!(project_offset_exec(4, &out_strides, &src_shape, &src_strides), 3);
    assert_eq!(project_offset_exec(5, &out_strides, &src_shape, &src_strides), 5);
}

#[test]
fn broadcast_shape_is_elementwise_max() {
    let r = broadcast_shape(&vec![4, 1, 3], &vec![1, 5, 3]).unwrap();
    assert_eq!(r, vec![4, 5, 3]);
}

#[test]
fn broadcast_shape_rejects_incompatible_extents() {
    let e = broadcast_shape(&vec![4, 2], &vec![4, 3]).unwrap_err();
    assert_eq!(e, LaunchError::ShapeMismatch);
    let e2 = broadcast_shape(&vec![4], &vec![4, 4]).unwrap_err();
    assert_eq!(e2, LaunchError::ShapeMismatch);
}

#[test]
fn vectorization_picks_widest_admissible_width() {
    let candidates = vec![4u8, 2u8];
    assert_eq!(tensor_vectorization_factor(&candidates, &vec![2, 8], &vec![8, 1], 1), 4);
    assert_eq!(tensor_vectorization_factor(&candidates, &vec![2, 6], &vec![6, 1], 1), 2);
    // a strided trailing dimension forces the scalar path
    assert_eq!(tensor_vectorization_factor(&candidates, &vec![2, 8], &vec![16, 2], 1), 1);
    // an odd extent admits no candidate
    assert_eq!(tensor_vectorization_factor(&candidates, &vec![2, 5], &vec![5, 1], 1), 1);
}

#[test]
fn vectorization_binary_takes_the_intersection() {
    let candidates = vec![4u8, 2u8];
    // widths 4 and 2 meet at 2, which still divides both trailing extents
    let w = vectorization_factor_binary(
        &candidates,
        &vec![2, 8],
        &vec![8, 1],
        &vec![2, 6],
        &vec![6, 1],
        1,
    );
    assert_eq!(w, 2);
    assert_eq!(8 % (w as usize), 0);
    assert_eq!(6 % (w as usize), 0);
}

#[test]
fn ceil_division_covers() {
    assert_eq!(ceil_div(0, 256), 0);
    assert_eq!(ceil_div(1, 256), 1);
    assert_eq!(ceil_div(256, 256), 1);
    assert_eq!(ceil_div(257, 256), 2);
}

#[test]
fn elemwise_grid_counts_groups() {
    let g = GroupSize::default_plane();
    let counts = elemwise_grid(1000, g, 65535);
    assert_eq!((counts.x, counts.y, counts.z), (4, 1, 1));
    // 4 groups of 256 units cover 1000 work units
    assert!(4 * 256 >= 1000);
}

#[test]
fn elemwise_grid_folds_excess_into_second_dimension() {
    let g = GroupSize::default_plane();
    let n: u64 = 256 * 70000;
    let counts = elemwise_grid(n, g, 65535);
    assert_eq!((counts.x, counts.y, counts.z), (65535, 2, 1));
    assert!(65535u64 * 2 * 256 >= n);
}

#[test]
fn launch_plans_are_deterministic() {
    let a = make_elemwise_plan(12345, 2);
    let b = make_elemwise_plan(12345, 2);
    assert_eq!(a, b);
    let c = make_elemwise_plan(12345, 4);
    assert_ne!(a, c);
    let d = make_elemwise_plan(999_999, 2);
    assert_ne!(a, d);
}

#[test]
fn alias_decision_requires_uniqueness_and_matching_layout() {
    let out_shape = vec![2usize, 2];
    let lhs = desc(vec![2, 2], vec![2, 1], 0, ElemKind::UInt32);
    let rhs = desc(vec![2, 2], vec![2, 1], 1, ElemKind::UInt32);
    // unique and laid out like the output: left operand wins
    let d = decide_alias_binary(&lhs, true, &rhs, true, &out_shape, ElemKind::UInt32);
    assert_eq!(d, AliasDecision::MayAliasIfUnique(0));
    // left not unique: right wins
    let d = decide_alias_binary(&lhs, false, &rhs, true, &out_shape, ElemKind::UInt32);
    assert_eq!(d, AliasDecision::MayAliasIfUnique(1));
    // neither unique: fresh allocation
    let d = decide_alias_binary(&lhs, false, &rhs, false, &out_shape, ElemKind::UInt32);
    assert_eq!(d, AliasDecision::MustCopy);
    // a byte-width change forbids aliasing even for a unique operand
    let wide = desc(vec![2, 2], vec![2, 1], 0, ElemKind::Int64);
    let d = decide_alias_binary(&wide, true, &rhs, false, &out_shape, ElemKind::UInt32);
    assert_eq!(d, AliasDecision::MustCopy);
    // a non-contiguous unique operand cannot serve as the fresh output
    let strided = desc(vec![2, 2], vec![1, 2], 0, ElemKind::UInt32);
    let d = decide_alias_binary(&strided, true, &rhs, false, &out_shape, ElemKind::UInt32);
    assert_eq!(d, AliasDecision::MustCopy);
}

#[test]
fn unary_alias_decision_checks_byte_width_only() {
    let t = desc(vec![4], vec![2], 0, ElemKind::Int32);
    assert_eq!(decide_alias_unary(&t, true, ElemKind::UInt32), AliasDecision::MayAliasIfUnique(0));
    assert_eq!(decide_alias_unary(&t, false, ElemKind::UInt32), AliasDecision::MustCopy);
    let wide = desc(vec![4], vec![1], 0, ElemKind::Float64);
    assert_eq!(decide_alias_unary(&wide, true, ElemKind::UInt32), AliasDecision::MustCopy);
}

#[test]
fn client_uniqueness_follows_live_references() {
    let mut client = ComputeClient::new(0);
    let b = client.allocate(4);
    assert!(client.is_unique(b));
    client.retain(b);
    assert!(!client.is_unique(b));
    client.release(b);
    assert!(client.is_unique(b));
}

#[test]
fn build_info_lays_out_rank_strides_then_shapes() {
    let a = desc(vec![2, 3], vec![3, 1], 0, ElemKind::Float32);
    let b = desc(vec![1, 3], vec![3, 1], 1, ElemKind::Float32);
    let tensors = vec![&a, &b];
    let info = build_info(&tensors, 2);
    assert_eq!(info, vec![2, 3, 1, 3, 1, 2, 3, 1, 3]);
}

#[test]
fn dimension_vector_helpers() {
    let v = vec![3usize, 1, 4];
    assert_eq!(copy_dims(&v), v);
    assert!(vec_eq_usize(&v, &vec![3, 1, 4]));
    assert!(!vec_eq_usize(&v, &vec![3, 1]));
    assert!(!vec_eq_usize(&v, &vec![3, 1, 5]));
}

struct GreeterKernel;

impl strided_jit::template::KernelSource for GreeterKernel {
    fn source(&self) -> String {
        String::from("kernel body")
    }

    fn id(&self) -> strided_jit::comptime::KernelKey {
        strided_jit::comptime::KernelKey::BoolCast
    }
}

#[test]
fn source_kernel_wraps_a_template() {
    let k = strided_jit::template::SourceKernel {
        kernel_source: GreeterKernel,
        group_size: GroupSize::default_plane(),
    };
    let compiled = k.compile();
    assert_eq!(compiled.source, "kernel body");
    assert_eq!(compiled.shared_mem_bytes, 0);
    assert_eq!(compiled.group_size, GroupSize::default_plane());
    assert_eq!(k.id(), strided_jit::comptime::KernelKey::BoolCast);
}
