use strided_jit::cast::bool_cast;
use strided_jit::client::ComputeClient;
use strided_jit::comparison::{
    equal, equal_elem, greater, greater_elem, greater_equal, greater_equal_elem, lower,
    lower_elem, lower_equal, lower_equal_elem,
};
use strided_jit::comptime::KernelKey;
use strided_jit::descriptor::{contiguous_strides, ElemKind, TensorDesc};
use strided_jit::projection::into_contiguous;
use strided_jit::select::select;
use strided_jit::slice::{slice, slice_on_output};

fn tensor(client: &mut ComputeClient, shape: Vec<usize>, vals: Vec<i64>, elem: ElemKind) -> TensorDesc {
    let strides = contiguous_strides(&shape);
    let b = client.allocate(vals.len());
    client.install(b, vals);
    TensorDesc { shape, strides, buffer: b, device: 0, elem }
}

fn values(client: &ComputeClient, t: &TensorDesc) -> Vec<i64> {
    client.buffer(t.buffer).clone()
}

#[test]
fn equal_compares_elementwise() {
    let mut client = ComputeClient::new(0);
    let lhs = tensor(&mut client, vec![2, 2], vec![1, 2, 3, 4], ElemKind::Int64);
    let rhs = tensor(&mut client, vec![2, 2], vec![1, 5, 3, 0], ElemKind::Int64);
    let out = equal(&mut client, lhs, rhs).unwrap();
    assert_eq!(values(&client, &out), vec![1, 0, 1, 0]);
    assert_eq!(out.elem, ElemKind::UInt32);
}

#[test]
fn comparison_broadcasts_to_elementwise_maximum_shape() {
    let mut client = ComputeClient::new(0);
    let lhs = tensor(&mut client, vec![2, 2], vec![1, 2, 3, 4], ElemKind::Int64);
    let rhs = tensor(&mut client, vec![1, 2], vec![2, 2], ElemKind::Int64);
    let out = greater(&mut client, lhs, rhs).unwrap();
    assert_eq!(out.shape, vec![2, 2]);
    // [1, 2, 3, 4] > [2, 2] broadcast over the rows
    assert_eq!(values(&client, &out), vec![0, 0, 1, 1]);
}

#[test]
fn comparison_rejects_incompatible_shapes() {
    let mut client = ComputeClient::new(0);
    let lhs = tensor(&mut client, vec![2, 2], vec![1, 2, 3, 4], ElemKind::Int64);
    let rhs = tensor(&mut client, vec![2, 3], vec![0, 0, 0, 0, 0, 0], ElemKind::Int64);
    assert!(lower(&mut client, lhs, rhs).is_err());
}

#[test]
fn all_five_predicates() {
    let mut client = ComputeClient::new(0);
    let mk = |client: &mut ComputeClient| {
        (
            tensor(client, vec![3], vec![1, 2, 3], ElemKind::Int64),
            tensor(client, vec![3], vec![2, 2, 2], ElemKind::Int64),
        )
    };
    let (l, r) = mk(&mut client);
    let out = greater_equal(&mut client, l, r).unwrap();
    assert_eq!(values(&client, &out), vec![0, 1, 1]);
    let (l, r) = mk(&mut client);
    let out = lower_equal(&mut client, l, r).unwrap();
    assert_eq!(values(&client, &out), vec![1, 1, 0]);
    let (l, r) = mk(&mut client);
    let out = lower(&mut client, l, r).unwrap();
    assert_eq!(values(&client, &out), vec![1, 0, 0]);
}

#[test]
fn unique_boolean_operand_is_overwritten_in_place() {
    let mut client = ComputeClient::new(0);
    let lhs = tensor(&mut client, vec![2], vec![1, 7], ElemKind::UInt32);
    let rhs = tensor(&mut client, vec![2], vec![1, 3], ElemKind::UInt32);
    let lhs_buffer = lhs.buffer;
    let out = equal(&mut client, lhs, rhs).unwrap();
    // the left operand was unique, boolean-kind and contiguous: aliased
    assert_eq!(out.buffer, lhs_buffer);
    assert_eq!(values(&client, &out), vec![1, 0]);
}

#[test]
fn outstanding_reference_forces_fresh_allocation() {
    let mut client = ComputeClient::new(0);
    let lhs = tensor(&mut client, vec![2], vec![1, 7], ElemKind::UInt32);
    let rhs = tensor(&mut client, vec![2], vec![1, 3], ElemKind::UInt32);
    let lhs_buffer = lhs.buffer;
    let rhs_buffer = rhs.buffer;
    // a second live descriptor over each operand's buffer
    client.retain(lhs_buffer);
    client.retain(rhs_buffer);
    let out = equal(&mut client, lhs, rhs).unwrap();
    assert_ne!(out.buffer, lhs_buffer);
    assert_ne!(out.buffer, rhs_buffer);
    // the operands' contents were not overwritten
    assert_eq!(client.buffer(lhs_buffer), &vec![1, 7]);
    assert_eq!(client.buffer(rhs_buffer), &vec![1, 3]);
    assert_eq!(values(&client, &out), vec![1, 0]);
}

#[test]
fn scalar_comparisons() {
    let mut client = ComputeClient::new(0);
    let t = tensor(&mut client, vec![4], vec![1, 2, 3, 4], ElemKind::Int64);
    let out = greater_elem(&mut client, t, 2);
    assert_eq!(values(&client, &out), vec![0, 0, 1, 1]);
    let t = tensor(&mut client, vec![4], vec![1, 2, 3, 4], ElemKind::Int64);
    let out = lower_elem(&mut client, t, 2);
    assert_eq!(values(&client, &out), vec![1, 0, 0, 0]);
    let t = tensor(&mut client, vec![4], vec![1, 2, 3, 4], ElemKind::Int64);
    let out = equal_elem(&mut client, t, 3);
    assert_eq!(values(&client, &out), vec![0, 0, 1, 0]);
    let t = tensor(&mut client, vec![4], vec![1, 2, 3, 4], ElemKind::Int64);
    let out = greater_equal_elem(&mut client, t, 3);
    assert_eq!(values(&client, &out), vec![0, 0, 1, 1]);
    let t = tensor(&mut client, vec![4], vec![1, 2, 3, 4], ElemKind::Int64);
    let out = lower_equal_elem(&mut client, t, 3);
    assert_eq!(values(&client, &out), vec![1, 1, 1, 0]);
}

#[test]
fn scalar_comparison_aliases_word_sized_unique_operand() {
    let mut client = ComputeClient::new(0);
    let t = tensor(&mut client, vec![3], vec![5, 6, 7], ElemKind::Int32);
    let buffer = t.buffer;
    let out = greater_elem(&mut client, t, 5);
    assert_eq!(out.buffer, buffer);
    assert_eq!(values(&client, &out), vec![0, 1, 1]);
    // a wider element kind never aliases into the boolean unit
    let t = tensor(&mut client, vec![3], vec![5, 6, 7], ElemKind::Int64);
    let buffer = t.buffer;
    let out = greater_elem(&mut client, t, 5);
    assert_ne!(out.buffer, buffer);
}

#[test]
fn identical_launches_share_one_cache_key() {
    let mut client = ComputeClient::new(0);
    let l1 = tensor(&mut client, vec![2], vec![1, 2], ElemKind::Int64);
    let r1 = tensor(&mut client, vec![2], vec![3, 4], ElemKind::Int64);
    let l2 = tensor(&mut client, vec![2], vec![5, 6], ElemKind::Int64);
    let r2 = tensor(&mut client, vec![2], vec![7, 8], ElemKind::Int64);
    equal(&mut client, l1, r1).unwrap();
    equal(&mut client, l2, r2).unwrap();
    let n = client.launches.len();
    assert_eq!(n, 2);
    assert_eq!(client.launches[n - 2].key, client.launches[n - 1].key);
    // a different specialization yields a different key
    let l3 = tensor(&mut client, vec![2, 1], vec![5, 6], ElemKind::Int64);
    let r3 = tensor(&mut client, vec![2, 1], vec![7, 8], ElemKind::Int64);
    equal(&mut client, l3, r3).unwrap();
    assert_ne!(client.launches[n - 1].key, client.launches[n].key);
    assert!(matches!(client.launches[n].key, KernelKey::Cmp { rank: 2, .. }));
}

#[test]
fn bool_cast_normalizes_truth_words() {
    let mut client = ComputeClient::new(0);
    let t = tensor(&mut client, vec![4], vec![0, 1, 5, -3], ElemKind::UInt32);
    let out = bool_cast(&mut client, t, ElemKind::Float32);
    assert_eq!(values(&client, &out), vec![0, 1, 1, 0]);
    assert_eq!(out.elem, ElemKind::Float32);
}

#[test]
fn slice_translates_ranges() {
    // rank-2 [4, 4] with values i * 4 + j, rows 1..3 and cols 0..2
    let mut client = ComputeClient::new(0);
    let vals: Vec<i64> = (0..16).map(|k| k as i64).collect();
    let t = tensor(&mut client, vec![4, 4], vals, ElemKind::Int64);
    let out = slice(&mut client, t, &vec![1, 0], &vec![3, 2]);
    assert_eq!(out.shape, vec![2, 2]);
    assert_eq!(values(&client, &out), vec![4, 5, 8, 9]);
}

#[test]
fn slice_takes_trailing_dimensions_whole() {
    let mut client = ComputeClient::new(0);
    let vals: Vec<i64> = (0..12).map(|k| k as i64).collect();
    let t = tensor(&mut client, vec![3, 4], vals, ElemKind::Int64);
    let out = slice(&mut client, t, &vec![2], &vec![3]);
    assert_eq!(out.shape, vec![1, 4]);
    assert_eq!(values(&client, &out), vec![8, 9, 10, 11]);
}

#[test]
fn slice_on_output_fills_a_given_descriptor() {
    let mut client = ComputeClient::new(0);
    let vals: Vec<i64> = (0..16).map(|k| k as i64).collect();
    let t = tensor(&mut client, vec![4, 4], vals, ElemKind::Int64);
    let output = tensor(&mut client, vec![2, 2], vec![0, 0, 0, 0], ElemKind::Int64);
    let out = slice_on_output(&mut client, t, output, &vec![1, 0]);
    assert_eq!(values(&client, &out), vec![4, 5, 8, 9]);
}

#[test]
fn select_gathers_along_the_axis() {
    let mut client = ComputeClient::new(0);
    let t = tensor(&mut client, vec![4], vec![10, 20, 30, 40], ElemKind::Int64);
    let indices = tensor(&mut client, vec![4], vec![3, 0, 0, 2], ElemKind::Int32);
    let out = select(&mut client, t, 0, indices);
    assert_eq!(out.shape, vec![4]);
    assert_eq!(values(&client, &out), vec![40, 10, 10, 30]);
}

#[test]
fn select_on_an_inner_axis() {
    let mut client = ComputeClient::new(0);
    let vals: Vec<i64> = (0..6).map(|k| k as i64).collect();
    let t = tensor(&mut client, vec![2, 3], vals, ElemKind::Int64);
    let indices = tensor(&mut client, vec![2], vec![2, 0], ElemKind::Int32);
    let out = select(&mut client, t, 1, indices);
    assert_eq!(out.shape, vec![2, 2]);
    assert_eq!(values(&client, &out), vec![2, 0, 5, 3]);
}

#[test]
fn into_contiguous_materializes_transposed_views() {
    let mut client = ComputeClient::new(0);
    // a [2, 3] view with column-major strides over [0, 1, 2, 3, 4, 5]:
    // logical rows are [0, 2, 4] and [1, 3, 5]
    let b = client.allocate(6);
    client.install(b, vec![0, 1, 2, 3, 4, 5]);
    let t = TensorDesc {
        shape: vec![2, 3],
        strides: vec![1, 2],
        buffer: b,
        device: 0,
        elem: ElemKind::Int64,
    };
    let out = into_contiguous(&mut client, t);
    assert_eq!(out.strides, vec![3, 1]);
    assert_ne!(out.buffer, b);
    assert_eq!(values(&client, &out), vec![0, 2, 4, 1, 3, 5]);
    // an already contiguous tensor passes through untouched
    let t2 = tensor(&mut client, vec![2, 2], vec![9, 8, 7, 6], ElemKind::Int64);
    let buffer = t2.buffer;
    let out2 = into_contiguous(&mut client, t2);
    assert_eq!(out2.buffer, buffer);
}

#[test]
fn comparison_projects_non_contiguous_operands() {
    let mut client = ComputeClient::new(0);
    // a transposed [2, 2] view: logical rows are [1, 2] and [3, 4]
    let b = client.allocate(4);
    client.install(b, vec![1, 3, 2, 4]);
    let lhs = TensorDesc {
        shape: vec![2, 2],
        strides: vec![1, 2],
        buffer: b,
        device: 0,
        elem: ElemKind::Int64,
    };
    let rhs = tensor(&mut client, vec![2, 2], vec![1, 2, 3, 4], ElemKind::Int64);
    let out = equal(&mut client, lhs, rhs).unwrap();
    assert_eq!(values(&client, &out), vec![1, 1, 1, 1]);
}

#[test]
fn comparison_records_its_vectorization() {
    let mut client = ComputeClient::new(0);
    let lhs = tensor(&mut client, vec![8], vec![0; 8], ElemKind::Int64);
    let rhs = tensor(&mut client, vec![8], vec![0; 8], ElemKind::Int64);
    equal(&mut client, lhs, rhs).unwrap();
    let rec = client.launches.last().unwrap();
    assert!(matches!(rec.key, KernelKey::Cmp { vectorization: 4, .. }));
    assert_eq!(rec.plan.vectorization_factor, 4);
    // eight elements packed four per unit leave two work units
    assert_eq!(rec.plan.group_count.x, 1);
}
