use strided_jit::client::ComputeClient;
use strided_jit::comptime::KernelKey;
use strided_jit::conv::{calculate_conv_output_size, conv3d, ConvOptions};
use strided_jit::descriptor::{contiguous_strides, ElemKind, TensorDesc};
use strided_jit::pool::{adaptive_avg_pool2d, pool2d, Pool2dOptions, PoolKind};

fn tensor(client: &mut ComputeClient, shape: Vec<usize>, vals: Vec<i64>, elem: ElemKind) -> TensorDesc {
    let strides = contiguous_strides(&shape);
    let b = client.allocate(vals.len());
    client.install(b, vals);
    TensorDesc { shape, strides, buffer: b, device: 0, elem }
}

fn values(client: &ComputeClient, t: &TensorDesc) -> Vec<i64> {
    client.buffer(t.buffer).clone()
}

fn unit_options() -> ConvOptions {
    ConvOptions {
        stride_0: 1,
        stride_1: 1,
        stride_2: 1,
        dilation_0: 1,
        dilation_1: 1,
        dilation_2: 1,
        padding_0: 0,
        padding_1: 0,
        padding_2: 0,
        groups: 1,
    }
}

#[test]
fn conv_output_size_formula() {
    // extent 10, kernel 3, stride 1, padding 1, dilation 1 keeps the extent
    assert_eq!(calculate_conv_output_size(3, 1, 1, 1, 10), 10);
    // extent 5, kernel 3, stride 2, padding 0, dilation 1 halves and floors
    assert_eq!(calculate_conv_output_size(3, 2, 0, 1, 5), 2);
    // dilation widens the window
    assert_eq!(calculate_conv_output_size(3, 1, 0, 2, 7), 3);
    // a unit kernel is the identity extent
    assert_eq!(calculate_conv_output_size(1, 1, 0, 1, 9), 9);
}

#[test]
fn conv3d_pointwise_weight_scales_the_input() {
    let mut client = ComputeClient::new(0);
    let input = tensor(&mut client, vec![1, 1, 1, 1, 3], vec![1, 2, 3], ElemKind::Int64);
    let weight = tensor(&mut client, vec![1, 1, 1, 1, 1], vec![2], ElemKind::Int64);
    let out = conv3d(&mut client, input, weight, None, unit_options());
    assert_eq!(out.shape, vec![1, 1, 1, 1, 3]);
    assert_eq!(values(&client, &out), vec![2, 4, 6]);
    assert!(matches!(
        client.launches.last().unwrap().key,
        KernelKey::Conv3d { kernel_size_0: Some(1), kernel_size_1: Some(1), kernel_size_2: Some(1) }
    ));
}

#[test]
fn conv3d_bias_feeds_the_accumulator() {
    let mut client = ComputeClient::new(0);
    let input = tensor(&mut client, vec![1, 1, 1, 1, 3], vec![1, 2, 3], ElemKind::Int64);
    let weight = tensor(&mut client, vec![1, 1, 1, 1, 1], vec![2], ElemKind::Int64);
    let bias = tensor(&mut client, vec![1], vec![10], ElemKind::Int64);
    let out = conv3d(&mut client, input, weight, Some(bias), unit_options());
    assert_eq!(values(&client, &out), vec![12, 14, 16]);
}

#[test]
fn conv3d_padding_skips_out_of_bounds_positions() {
    // a window of three ones over [1, 2, 3] with one padded position at
    // each border: sums [1+2, 1+2+3, 2+3]
    let mut client = ComputeClient::new(0);
    let input = tensor(&mut client, vec![1, 1, 1, 1, 3], vec![1, 2, 3], ElemKind::Int64);
    let weight = tensor(&mut client, vec![1, 1, 1, 1, 3], vec![1, 1, 1], ElemKind::Int64);
    let mut o = unit_options();
    o.padding_2 = 1;
    let out = conv3d(&mut client, input, weight, None, o);
    assert_eq!(out.shape, vec![1, 1, 1, 1, 3]);
    assert_eq!(values(&client, &out), vec![3, 6, 5]);
}

#[test]
fn conv3d_grouped_channels_stay_in_their_block() {
    // two input channels, two output channels, two groups: each output
    // channel sees only its own input channel
    let mut client = ComputeClient::new(0);
    let input = tensor(&mut client, vec![1, 2, 1, 1, 2], vec![1, 2, 10, 20], ElemKind::Int64);
    let weight = tensor(&mut client, vec![2, 1, 1, 1, 1], vec![3, 5], ElemKind::Int64);
    let mut o = unit_options();
    o.groups = 2;
    let out = conv3d(&mut client, input, weight, None, o);
    assert_eq!(out.shape, vec![1, 2, 1, 1, 2]);
    assert_eq!(values(&client, &out), vec![3, 6, 50, 100]);
}

fn plain_window(kernel_h: usize, kernel_w: usize) -> Pool2dOptions {
    Pool2dOptions {
        kernel_h,
        kernel_w,
        stride_h: 1,
        stride_w: 1,
        dilation_h: 1,
        dilation_w: 1,
        padding_h: 0,
        padding_w: 0,
    }
}

#[test]
fn max_pooling_keeps_the_largest_window_value() {
    let mut client = ComputeClient::new(0);
    let input = tensor(&mut client, vec![1, 1, 2, 2], vec![1, 3, 2, 0], ElemKind::Int64);
    let (out, indices) = pool2d(&mut client, input, PoolKind::Max, plain_window(2, 2));
    assert_eq!(out.shape, vec![1, 1, 1, 1]);
    assert_eq!(values(&client, &out), vec![3]);
    assert!(indices.is_none());
}

#[test]
fn max_pooling_reports_winning_indices() {
    let mut client = ComputeClient::new(0);
    let input = tensor(&mut client, vec![1, 1, 2, 2], vec![1, 3, 2, 0], ElemKind::Int64);
    let (out, indices) = pool2d(&mut client, input, PoolKind::MaxWithIndices, plain_window(2, 2));
    assert_eq!(values(&client, &out), vec![3]);
    let ix = indices.unwrap();
    // the winner sits at row 0 column 1 of the input plane
    assert_eq!(values(&client, &ix), vec![1]);
}

#[test]
fn average_pooling_normalizes_by_in_bounds_count() {
    // a 2 x 2 window with one row of padding: the border output averages
    // only the two in-bounds elements
    let mut client = ComputeClient::new(0);
    let input = tensor(&mut client, vec![1, 1, 2, 2], vec![4, 8, 2, 6], ElemKind::Int64);
    let mut o = plain_window(2, 2);
    o.padding_h = 1;
    let (out, _) = pool2d(&mut client, input, PoolKind::Avg, o);
    assert_eq!(out.shape, vec![1, 1, 3, 1]);
    // windows: [4, 8], [4, 8, 2, 6], [2, 6] averaged over 2, 4, 2
    assert_eq!(values(&client, &out), vec![6, 5, 4]);
}

#[test]
fn adaptive_average_pooling_of_ones_stays_ones() {
    // a 1 x 1 x 4 x 4 input of all ones adaptively pooled to 2 x 2 yields
    // all ones: every window is normalized by its own element count
    let mut client = ComputeClient::new(0);
    let input = tensor(&mut client, vec![1, 1, 4, 4], vec![1; 16], ElemKind::Int64);
    let out = adaptive_avg_pool2d(&mut client, input, 2, 2);
    assert_eq!(out.shape, vec![1, 1, 2, 2]);
    assert_eq!(values(&client, &out), vec![1, 1, 1, 1]);
}

#[test]
fn adaptive_average_pooling_with_non_divisible_boundaries() {
    // extent 3 pooled to 2: windows [0..2) and [1..3) along each axis
    let mut client = ComputeClient::new(0);
    let vals: Vec<i64> = (0..9).map(|k| k as i64).collect();
    let input = tensor(&mut client, vec![1, 1, 3, 3], vals, ElemKind::Int64);
    let out = adaptive_avg_pool2d(&mut client, input, 2, 2);
    assert_eq!(out.shape, vec![1, 1, 2, 2]);
    // rows 0..2 x cols 0..2 avg 2, rows 0..2 x cols 1..3 avg 3, then 5, 6
    assert_eq!(values(&client, &out), vec![2, 3, 5, 6]);
}

#[test]
fn pooling_kernel_identity_carries_the_strategy_and_window() {
    let mut client = ComputeClient::new(0);
    let input = tensor(&mut client, vec![1, 1, 2, 2], vec![1, 3, 2, 0], ElemKind::Int64);
    pool2d(&mut client, input, PoolKind::Max, plain_window(2, 2));
    assert!(matches!(
        client.launches.last().unwrap().key,
        KernelKey::Pool2d { strategy: PoolKind::Max, window_h: 2, window_w: 2 }
    ));
    let input = tensor(&mut client, vec![1, 1, 4, 4], vec![1; 16], ElemKind::Int64);
    adaptive_avg_pool2d(&mut client, input, 2, 2);
    assert!(matches!(client.launches.last().unwrap().key, KernelKey::AdaptiveAvgPool2d));
}

#[test]
fn conv3d_full_window_over_all_three_axes() {
    let mut client = ComputeClient::new(0);
    let input = tensor(&mut client, vec![1, 1, 2, 2, 2], vec![1; 8], ElemKind::Int64);
    let weight = tensor(&mut client, vec![1, 1, 2, 2, 2], vec![1; 8], ElemKind::Int64);
    let out = conv3d(&mut client, input, weight, None, unit_options());
    assert_eq!(out.shape, vec![1, 1, 1, 1, 1]);
    assert_eq!(values(&client, &out), vec![8]);
}

#[test]
fn conv3d_same_padding_keeps_the_extent() {
    // extent 10, kernel 3, stride 1, padding 1, dilation 1 keeps extent 10
    let mut client = ComputeClient::new(0);
    let input = tensor(&mut client, vec![1, 1, 1, 1, 10], vec![1; 10], ElemKind::Int64);
    let weight = tensor(&mut client, vec![1, 1, 1, 1, 3], vec![1, 1, 1], ElemKind::Int64);
    let mut o = unit_options();
    o.padding_2 = 1;
    let out = conv3d(&mut client, input, weight, None, o);
    assert_eq!(out.shape, vec![1, 1, 1, 1, 10]);
}

#[test]
fn conv3d_strided_window() {
    // extent 5, kernel 3, stride 2: two output positions
    let mut client = ComputeClient::new(0);
    let input = tensor(&mut client, vec![1, 1, 1, 1, 5], vec![1, 2, 3, 4, 5], ElemKind::Int64);
    let weight = tensor(&mut client, vec![1, 1, 1, 1, 3], vec![1, 1, 1], ElemKind::Int64);
    let mut o = unit_options();
    o.stride_2 = 2;
    let out = conv3d(&mut client, input, weight, None, o);
    assert_eq!(out.shape, vec![1, 1, 1, 1, 2]);
    assert_eq!(values(&client, &out), vec![6, 12]);
}

#[test]
fn dilated_pooling_window_skips_between_taps() {
    // a 1 x 2 window with dilation 2 reads columns 0 and 2
    let mut client = ComputeClient::new(0);
    let input = tensor(&mut client, vec![1, 1, 1, 3], vec![1, 5, 2], ElemKind::Int64);
    let mut o = plain_window(1, 2);
    o.dilation_w = 2;
    let (out, _) = pool2d(&mut client, input, PoolKind::Max, o);
    assert_eq!(out.shape, vec![1, 1, 1, 1]);
    assert_eq!(values(&client, &out), vec![2]);
}

#[test]
fn conv3d_grouped_blocks_with_several_channels_per_group() {
    // four output channels over two groups: channels 0 and 1 accumulate
    // from input block 0, channels 2 and 3 from input block 1
    let mut client = ComputeClient::new(0);
    let input = tensor(&mut client, vec![1, 4, 1, 1, 1], vec![1, 2, 3, 4], ElemKind::Int64);
    let weight = tensor(&mut client, vec![4, 2, 1, 1, 1], vec![1; 8], ElemKind::Int64);
    let mut o = unit_options();
    o.groups = 2;
    let out = conv3d(&mut client, input, weight, None, o);
    assert_eq!(out.shape, vec![1, 4, 1, 1, 1]);
    assert_eq!(values(&client, &out), vec![3, 3, 7, 7]);
}

#[test]
fn conv3d_materializes_non_contiguous_operands() {
    // a width-reversed-looking view: shape [1,1,1,1,3] whose trailing
    // stride walks a plane of a larger buffer, made contiguous internally
    let mut client = ComputeClient::new(0);
    let b = client.allocate(6);
    client.install(b, vec![1, 9, 2, 9, 3, 9]);
    let input = TensorDesc {
        shape: vec![1, 1, 1, 1, 3],
        strides: vec![6, 6, 6, 6, 2],
        buffer: b,
        device: 0,
        elem: ElemKind::Int64,
    };
    let weight = tensor(&mut client, vec![1, 1, 1, 1, 1], vec![10], ElemKind::Int64);
    let out = conv3d(&mut client, input, weight, None, unit_options());
    assert_eq!(values(&client, &out), vec![10, 20, 30]);
}
