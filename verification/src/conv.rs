//! 3-D convolution with grouping, dilation and implicit zero padding.
//! Padding is a bounds test in the dilated, strided index space: window
//! positions that fall outside the input contribute nothing and no padded
//! buffer is ever materialized. A missing bias defaults to a zero-filled
//! buffer so one accumulation path serves both cases.

use vstd::prelude::*;

use crate::client::{desc_valid, ComputeClient, LaunchRecord};
use crate::comptime::KernelKey;
use crate::descriptor::{
    all_dims_positive, contiguous_strides, is_contiguous_layout, lemma_contiguous_max_index,
    lemma_positive_dims_numel, lemma_suffix_product_positive, numel, spec_numel, suffix_product,
    TensorDesc,
};
use crate::grid::{make_elemwise_plan, spec_elemwise_plan, MAX_LAUNCH_UNITS};
use crate::projection::{into_contiguous, lemma_contig_strides_canonical, spec_contiguous_vals};

verus! {

/// Strides, dilation, padding and channel grouping of one 3-D convolution.
#[derive(Clone, Copy, PartialEq, Eq, Structural, Debug)]
pub struct ConvOptions {
    pub stride_0: usize,
    pub stride_1: usize,
    pub stride_2: usize,
    pub dilation_0: usize,
    pub dilation_1: usize,
    pub dilation_2: usize,
    pub padding_0: usize,
    pub padding_1: usize,
    pub padding_2: usize,
    pub groups: usize,
}

/// Output spatial extent of one convolution axis:
/// `(in + 2 * padding - dilation * (kernel - 1) - 1) / stride + 1`.
pub open spec fn spec_conv_output_size(
    kernel: int,
    stride: int,
    padding: int,
    dilation: int,
    input: int,
) -> int {
    (input + 2 * padding - dilation * (kernel - 1) - 1) / stride + 1
}

/// Computes the output extent of one convolution axis.
///
/// The formula floors: a window that no longer fits contributes no output
/// position. Inputs on which the dilated window cannot be placed at all
/// (the numerator would be negative) are excluded.
pub fn calculate_conv_output_size(
    kernel: usize,
    stride: usize,
    padding: usize,
    dilation: usize,
    input: usize,
) -> (out: usize)
    requires
        stride >= 1,
        kernel >= 1,
        input + 2 * padding < usize::MAX,
        input + 2 * padding >= dilation * (kernel - 1) + 1,
    ensures
        out == spec_conv_output_size(
            kernel as int,
            stride as int,
            padding as int,
            dilation as int,
            input as int,
        ),
{
    proof {
        assert(dilation * (kernel - 1) >= 0) by {
            vstd::arithmetic::mul::lemma_mul_nonnegative(dilation as int, kernel as int - 1);
        }
        assert(dilation as int * (kernel as int - 1) == dilation * (kernel - 1) as usize) by {
            assert((kernel - 1) as usize as int == kernel as int - 1);
        }
    }
    let numerator = input + 2 * padding - dilation * (kernel - 1) - 1;
    let q = numerator / stride;
    proof {
        assert(q <= numerator as int) by {
            vstd::arithmetic::div_mod::lemma_div_nonincreasing(numerator as int, stride as int);
        }
    }
    q + 1
}

/// Everything one convolution launch reads, bundled for the contracts.
pub ghost struct ConvCtx {
    pub in_vals: Seq<i64>,
    pub w_vals: Seq<i64>,
    pub in_shape: Seq<usize>,
    pub w_shape: Seq<usize>,
    pub opts: ConvOptions,
}

/// Linear offset of input element `[b, ic, id, ih, iw]` in a contiguous
/// rank-5 layout.
pub open spec fn conv_in_offset(in_shape: Seq<usize>, b: int, ic: int, id: int, ih: int, iw: int) -> int {
    b * suffix_product(in_shape, 1) + ic * suffix_product(in_shape, 2) + id * suffix_product(
        in_shape,
        3,
    ) + ih * suffix_product(in_shape, 4) + iw
}

/// Linear offset of weight element `[oc, j, kd, kh, kw]` in a contiguous
/// rank-5 layout.
pub open spec fn conv_w_offset(w_shape: Seq<usize>, oc: int, j: int, kd: int, kh: int, kw: int) -> int {
    oc * suffix_product(w_shape, 1) + j * suffix_product(w_shape, 2) + kd * suffix_product(
        w_shape,
        3,
    ) + kh * suffix_product(w_shape, 4) + kw
}

/// Number of accumulation steps per output element: the input channels of
/// one group times the three kernel extents.
pub open spec fn conv_window_len(c: ConvCtx) -> int {
    c.w_shape[1] * (c.w_shape[2] * (c.w_shape[3] * c.w_shape[4]))
}

/// One accumulation step. `t` linearizes `(j, kd, kh, kw)` with `kw`
/// fastest; the output channel's group (its block index among the evenly
/// divided output channels) selects which input-channel block `j` offsets
/// into, and a window position outside the padded input contributes zero.
pub open spec fn conv_term_at(
    c: ConvCtx,
    b: int,
    oc: int,
    od: int,
    oh: int,
    ow: int,
    t: int,
) -> int {
    let k0 = c.w_shape[2] as int;
    let k1 = c.w_shape[3] as int;
    let k2 = c.w_shape[4] as int;
    let kw = t % k2;
    let kh = (t / k2) % k1;
    let kd = (t / (k2 * k1)) % k0;
    let j = t / (k2 * (k1 * k0));
    let g = oc / (c.w_shape[0] as int / c.opts.groups as int);
    let ic = c.w_shape[1] * g + j;
    let id = od * c.opts.stride_0 + kd * c.opts.dilation_0;
    let ih = oh * c.opts.stride_1 + kh * c.opts.dilation_1;
    let iw = ow * c.opts.stride_2 + kw * c.opts.dilation_2;
    if id >= c.opts.padding_0 && id < c.in_shape[2] + c.opts.padding_0 && ih >= c.opts.padding_1
        && ih < c.in_shape[3] + c.opts.padding_1 && iw >= c.opts.padding_2 && iw < c.in_shape[4]
        + c.opts.padding_2 {
        c.in_vals[conv_in_offset(
            c.in_shape,
            b,
            ic,
            id - c.opts.padding_0,
            ih - c.opts.padding_1,
            iw - c.opts.padding_2,
        )] * c.w_vals[conv_w_offset(c.w_shape, oc, j, kd, kh, kw)]
    } else {
        0
    }
}

/// Partial accumulation over the first `t_n` window steps.
pub open spec fn conv_sum(c: ConvCtx, b: int, oc: int, od: int, oh: int, ow: int, t_n: int) -> int
    decreases t_n,
{
    if t_n <= 0 {
        0
    } else {
        conv_sum(c, b, oc, od, oh, ow, t_n - 1) + conv_term_at(c, b, oc, od, oh, ow, t_n - 1)
    }
}

/// The value one output element of the convolution holds: the bias of its
/// output channel plus the whole window accumulation.
pub open spec fn conv3d_math(
    c: ConvCtx,
    bias: int,
    b: int,
    oc: int,
    od: int,
    oh: int,
    ow: int,
) -> int {
    bias + conv_sum(c, b, oc, od, oh, ow, conv_window_len(c))
}

/// Every element of `s` lies in `[-m, m]`.
pub open spec fn bounded_vals(s: Seq<i64>, m: int) -> bool {
    forall|k: int| 0 <= k < s.len() ==> -m <= #[trigger] s[k] <= m
}

/// Magnitude cap on element values entering a convolution or pooling
/// accumulation; together with the window cap it keeps every intermediate
/// sum inside the element type.
pub const VAL_CAP: i64 = 1048576;

/// Magnitude cap on one accumulation window's step count.
pub const WINDOW_CAP: u64 = 1048576;

/// Magnitude cap on a bias value.
pub const BIAS_CAP: i64 = 4611686018427387904;

/// Shape agreement of one convolution: rank-5 operands, the output
/// channels divided evenly over the groups, the input channels partitioned
/// into `groups` blocks of the weight's channel extent, nonempty kernel
/// window, and value buffers long enough for their layouts.
pub open spec fn conv_ctx_wf(c: ConvCtx) -> bool {
    &&& c.in_shape.len() == 5
    &&& c.w_shape.len() == 5
    &&& c.opts.groups >= 1
    &&& c.w_shape[0] as int % c.opts.groups as int == 0
    &&& c.in_shape[1] == c.w_shape[1] * c.opts.groups
    &&& c.w_shape[1] >= 1
    &&& c.w_shape[2] >= 1
    &&& c.w_shape[3] >= 1
    &&& c.w_shape[4] >= 1
    &&& c.in_vals.len() >= suffix_product(c.in_shape, 0)
    &&& c.w_vals.len() >= suffix_product(c.w_shape, 0)
}

/// Bounded operands give bounded products.
proof fn lemma_product_bound(a: int, b: int, m: int) by (nonlinear_arith)
    requires
        0 <= m,
        -m <= a <= m,
        -m <= b <= m,
    ensures
        -(m * m) <= a * b <= m * m,
{
}

/// A rank-5 offset built from in-range coordinates stays below the element
/// count of the contiguous layout.
proof fn lemma_offset5_in_range(shape: Seq<usize>, c0: int, c1: int, c2: int, c3: int, c4: int)
    requires
        shape.len() == 5,
        0 <= c0 < shape[0],
        0 <= c1 < shape[1],
        0 <= c2 < shape[2],
        0 <= c3 < shape[3],
        0 <= c4 < shape[4],
    ensures
        0 <= c0 * suffix_product(shape, 1) + c1 * suffix_product(shape, 2) + c2 * suffix_product(
            shape,
            3,
        ) + c3 * suffix_product(shape, 4) + c4 < suffix_product(shape, 0),
{
    assert(all_dims_positive(shape));
    lemma_positive_dims_numel(shape, 0);
    lemma_positive_dims_numel(shape, 1);
    lemma_positive_dims_numel(shape, 2);
    lemma_positive_dims_numel(shape, 3);
    lemma_positive_dims_numel(shape, 4);
    let sp1 = suffix_product(shape, 1);
    let sp2 = suffix_product(shape, 2);
    let sp3 = suffix_product(shape, 3);
    let sp4 = suffix_product(shape, 4);
    assert(suffix_product(shape, 5) == 1);
    assert(sp4 == shape[4] * 1);
    assert(c4 <= sp4 - 1);
    assert(c3 * sp4 <= (shape[3] - 1) * sp4) by {
        vstd::arithmetic::mul::lemma_mul_inequality(c3, shape[3] - 1, sp4);
    }
    assert((shape[3] - 1) * sp4 == shape[3] * sp4 - sp4) by {
        vstd::arithmetic::mul::lemma_mul_is_distributive_sub_other_way(sp4, shape[3] as int, 1);
    }
    assert(c2 * sp3 <= (shape[2] - 1) * sp3) by {
        vstd::arithmetic::mul::lemma_mul_inequality(c2, shape[2] - 1, sp3);
    }
    assert((shape[2] - 1) * sp3 == shape[2] * sp3 - sp3) by {
        vstd::arithmetic::mul::lemma_mul_is_distributive_sub_other_way(sp3, shape[2] as int, 1);
    }
    assert(c1 * sp2 <= (shape[1] - 1) * sp2) by {
        vstd::arithmetic::mul::lemma_mul_inequality(c1, shape[1] - 1, sp2);
    }
    assert((shape[1] - 1) * sp2 == shape[1] * sp2 - sp2) by {
        vstd::arithmetic::mul::lemma_mul_is_distributive_sub_other_way(sp2, shape[1] as int, 1);
    }
    assert(c0 * sp1 <= (shape[0] - 1) * sp1) by {
        vstd::arithmetic::mul::lemma_mul_inequality(c0, shape[0] - 1, sp1);
    }
    assert((shape[0] - 1) * sp1 == shape[0] * sp1 - sp1) by {
        vstd::arithmetic::mul::lemma_mul_is_distributive_sub_other_way(sp1, shape[0] as int, 1);
    }
    assert(c0 * sp1 >= 0) by {
        vstd::arithmetic::mul::lemma_mul_nonnegative(c0, sp1);
    }
    assert(c1 * sp2 >= 0) by {
        vstd::arithmetic::mul::lemma_mul_nonnegative(c1, sp2);
    }
    assert(c2 * sp3 >= 0) by {
        vstd::arithmetic::mul::lemma_mul_nonnegative(c2, sp3);
    }
    assert(c3 * sp4 >= 0) by {
        vstd::arithmetic::mul::lemma_mul_nonnegative(c3, sp4);
    }
}

/// The decoded window coordinates of step `t`, with the facts that place
/// every read of the step inside its buffer.
proof fn lemma_conv_step_coords(c: ConvCtx, oc: int, t: int)
    requires
        conv_ctx_wf(c),
        0 <= oc < c.w_shape[0],
        0 <= t < conv_window_len(c),
    ensures
        ({
            let k0 = c.w_shape[2] as int;
            let k1 = c.w_shape[3] as int;
            let k2 = c.w_shape[4] as int;
            let kw = t % k2;
            let kh = (t / k2) % k1;
            let kd = (t / (k2 * k1)) % k0;
            let j = t / (k2 * (k1 * k0));
            let g = oc / (c.w_shape[0] as int / c.opts.groups as int);
            &&& 0 <= kw < k2
            &&& 0 <= kh < k1
            &&& 0 <= kd < k0
            &&& 0 <= j < c.w_shape[1]
            &&& 0 <= g < c.opts.groups
            &&& 0 <= c.w_shape[1] * g + j < c.in_shape[1]
        }),
{
    let k0 = c.w_shape[2] as int;
    let k1 = c.w_shape[3] as int;
    let k2 = c.w_shape[4] as int;
    let w1 = c.w_shape[1] as int;
    let kk = k2 * (k1 * k0);
    vstd::arithmetic::div_mod::lemma_mod_bound(t, k2);
    assert(k2 * k1 >= 1) by {
        vstd::arithmetic::mul::lemma_mul_strictly_positive(k2, k1);
    }
    assert(k1 * k0 >= 1) by {
        vstd::arithmetic::mul::lemma_mul_strictly_positive(k1, k0);
    }
    assert(kk >= 1) by {
        vstd::arithmetic::mul::lemma_mul_strictly_positive(k2, k1 * k0);
    }
    vstd::arithmetic::div_mod::lemma_div_pos_is_pos(t, k2);
    vstd::arithmetic::div_mod::lemma_mod_bound(t / k2, k1);
    vstd::arithmetic::div_mod::lemma_div_pos_is_pos(t, k2 * k1);
    vstd::arithmetic::div_mod::lemma_mod_bound(t / (k2 * k1), k0);
    vstd::arithmetic::div_mod::lemma_div_pos_is_pos(t, kk);
    // j stays below the weight's channel extent
    assert(conv_window_len(c) == w1 * (k0 * (k1 * k2)));
    assert(k0 * (k1 * k2) == kk) by {
        vstd::arithmetic::mul::lemma_mul_is_commutative(k1, k2);
        vstd::arithmetic::mul::lemma_mul_is_associative(k0, k1, k2);
        vstd::arithmetic::mul::lemma_mul_is_commutative(k0, k1 * k2);
        vstd::arithmetic::mul::lemma_mul_is_associative(k1, k2, k0);
        vstd::arithmetic::mul::lemma_mul_is_commutative(k1 * k2, k0);
        vstd::arithmetic::mul::lemma_mul_is_associative(k2, k1, k0);
    }
    assert(t < kk * w1) by {
        vstd::arithmetic::mul::lemma_mul_is_commutative(w1, kk);
    }
    assert(t / kk < w1) by {
        vstd::arithmetic::div_mod::lemma_multiply_divide_lt(t, kk, w1);
    }
    // the output channel's block index stays below the group count
    let cpg = c.w_shape[0] as int / c.opts.groups as int;
    assert(c.w_shape[0] as int == c.opts.groups as int * cpg) by {
        vstd::arithmetic::div_mod::lemma_fundamental_div_mod(
            c.w_shape[0] as int,
            c.opts.groups as int,
        );
    }
    assert(cpg >= 1) by {
        if cpg <= 0 {
            assert(c.opts.groups as int * cpg <= 0) by {
                vstd::arithmetic::mul::lemma_mul_inequality(cpg, 0, c.opts.groups as int);
                vstd::arithmetic::mul::lemma_mul_is_commutative(cpg, c.opts.groups as int);
            }
        }
    }
    let g = oc / cpg;
    assert(0 <= g) by {
        vstd::arithmetic::div_mod::lemma_div_pos_is_pos(oc, cpg);
    }
    assert(g < c.opts.groups) by {
        assert(oc < cpg * c.opts.groups as int) by {
            vstd::arithmetic::mul::lemma_mul_is_commutative(c.opts.groups as int, cpg);
        }
        vstd::arithmetic::div_mod::lemma_multiply_divide_lt(oc, cpg, c.opts.groups as int);
    }
    let j = t / kk;
    assert(w1 * g + j < c.in_shape[1]) by {
        assert(w1 * g + w1 == w1 * (g + 1)) by {
            vstd::arithmetic::mul::lemma_mul_is_distributive_add(w1, g, 1);
        }
        assert(w1 * (g + 1) <= w1 * c.opts.groups as int) by {
            vstd::arithmetic::mul::lemma_mul_inequality(g + 1, c.opts.groups as int, w1);
            vstd::arithmetic::mul::lemma_mul_is_commutative(g + 1, w1);
            vstd::arithmetic::mul::lemma_mul_is_commutative(c.opts.groups as int, w1);
        }
    }
    assert(w1 * g >= 0) by {
        vstd::arithmetic::mul::lemma_mul_nonnegative(w1, g);
    }
}

/// Each window step is a product of capped values, or zero.
proof fn lemma_conv_term_bound(c: ConvCtx, b: int, oc: int, od: int, oh: int, ow: int, t: int)
    requires
        conv_ctx_wf(c),
        bounded_vals(c.in_vals, VAL_CAP as int),
        bounded_vals(c.w_vals, VAL_CAP as int),
        0 <= b < c.in_shape[0],
        0 <= oc < c.w_shape[0],
        0 <= od,
        0 <= oh,
        0 <= ow,
        0 <= t < conv_window_len(c),
    ensures
        -(VAL_CAP as int * VAL_CAP as int) <= conv_term_at(c, b, oc, od, oh, ow, t) <= VAL_CAP
            as int * VAL_CAP as int,
{
    let m = VAL_CAP as int;
    lemma_conv_step_coords(c, oc, t);
    let k0 = c.w_shape[2] as int;
    let k1 = c.w_shape[3] as int;
    let k2 = c.w_shape[4] as int;
    let kw = t % k2;
    let kh = (t / k2) % k1;
    let kd = (t / (k2 * k1)) % k0;
    let j = t / (k2 * (k1 * k0));
    let g = oc / (c.w_shape[0] as int / c.opts.groups as int);
    let ic = c.w_shape[1] * g + j;
    let id = od * c.opts.stride_0 + kd * c.opts.dilation_0;
    let ih = oh * c.opts.stride_1 + kh * c.opts.dilation_1;
    let iw = ow * c.opts.stride_2 + kw * c.opts.dilation_2;
    if id >= c.opts.padding_0 && id < c.in_shape[2] + c.opts.padding_0 && ih >= c.opts.padding_1
        && ih < c.in_shape[3] + c.opts.padding_1 && iw >= c.opts.padding_2 && iw < c.in_shape[4]
        + c.opts.padding_2 {
        lemma_offset5_in_range(
            c.in_shape,
            b,
            ic,
            id - c.opts.padding_0,
            ih - c.opts.padding_1,
            iw - c.opts.padding_2,
        );
        lemma_offset5_in_range(c.w_shape, oc, j, kd, kh, kw);
        let iv = c.in_vals[conv_in_offset(
            c.in_shape,
            b,
            ic,
            id - c.opts.padding_0,
            ih - c.opts.padding_1,
            iw - c.opts.padding_2,
        )];
        let wv = c.w_vals[conv_w_offset(c.w_shape, oc, j, kd, kh, kw)];
        lemma_product_bound(iv as int, wv as int, m);
    }
}

/// The whole accumulation is bounded by the step count times the largest
/// step.
proof fn lemma_conv_sum_bound(c: ConvCtx, b: int, oc: int, od: int, oh: int, ow: int, t_n: int)
    requires
        conv_ctx_wf(c),
        bounded_vals(c.in_vals, VAL_CAP as int),
        bounded_vals(c.w_vals, VAL_CAP as int),
        0 <= b < c.in_shape[0],
        0 <= oc < c.w_shape[0],
        0 <= od,
        0 <= oh,
        0 <= ow,
        0 <= t_n <= conv_window_len(c),
    ensures
        -(t_n * (VAL_CAP as int * VAL_CAP as int)) <= conv_sum(c, b, oc, od, oh, ow, t_n) <= t_n
            * (VAL_CAP as int * VAL_CAP as int),
    decreases t_n,
{
    let mm = VAL_CAP as int * VAL_CAP as int;
    if t_n > 0 {
        lemma_conv_sum_bound(c, b, oc, od, oh, ow, t_n - 1);
        lemma_conv_term_bound(c, b, oc, od, oh, ow, t_n - 1);
        assert((t_n - 1) * mm + mm == t_n * mm) by {
            vstd::arithmetic::mul::lemma_mul_is_distributive_sub_other_way(mm, t_n, 1);
        }
    }
}


/// Caps on the executable arithmetic of one convolution: they keep every
/// index computation inside the machine word and every accumulation inside
/// the element type.
pub open spec fn conv_exec_caps(c: ConvCtx) -> bool {
    &&& c.opts.stride_0 <= 0x100000
    &&& c.opts.stride_1 <= 0x100000
    &&& c.opts.stride_2 <= 0x100000
    &&& c.opts.dilation_0 <= 0x100000
    &&& c.opts.dilation_1 <= 0x100000
    &&& c.opts.dilation_2 <= 0x100000
    &&& c.opts.padding_0 <= 0x10000000000
    &&& c.opts.padding_1 <= 0x10000000000
    &&& c.opts.padding_2 <= 0x10000000000
    &&& c.in_shape[2] <= 0x10000000000
    &&& c.in_shape[3] <= 0x10000000000
    &&& c.in_shape[4] <= 0x10000000000
    &&& c.w_shape[0] <= 0xffff_ffff
    &&& c.w_shape[2] <= 0x100000
    &&& c.w_shape[3] <= 0x100000
    &&& c.w_shape[4] <= 0x100000
    &&& conv_window_len(c) <= WINDOW_CAP
    &&& bounded_vals(c.in_vals, VAL_CAP as int)
    &&& bounded_vals(c.w_vals, VAL_CAP as int)
}

/// One work unit of the convolution kernel: starting from its output
/// channel's bias, walks the kernel window over the grouped input-channel
/// block, skipping positions outside the padded input, and returns the
/// accumulated value.
fn conv3d_unit(
    in_buf: &Vec<i64>,
    w_buf: &Vec<i64>,
    bias_v: i64,
    in_shape: &Vec<usize>,
    in_sp: &Vec<usize>,
    w_shape: &Vec<usize>,
    w_sp: &Vec<usize>,
    opts: ConvOptions,
    b: usize,
    oc: usize,
    od: usize,
    oh: usize,
    ow: usize,
) -> (v: i64)
    requires
        ({
            let c = ConvCtx {
                in_vals: in_buf@,
                w_vals: w_buf@,
                in_shape: in_shape@,
                w_shape: w_shape@,
                opts,
            };
            &&& conv_ctx_wf(c)
            &&& conv_exec_caps(c)
        }),
        is_contiguous_layout(in_shape@, in_sp@),
        is_contiguous_layout(w_shape@, w_sp@),
        b < in_shape@[0],
        oc < w_shape@[0],
        od <= 0x100000,
        oh <= 0x100000,
        ow <= 0x100000,
        -BIAS_CAP <= bias_v <= BIAS_CAP,
    ensures
        v as int == conv3d_math(
            ConvCtx {
                in_vals: in_buf@,
                w_vals: w_buf@,
                in_shape: in_shape@,
                w_shape: w_shape@,
                opts,
            },
            bias_v as int,
            b as int,
            oc as int,
            od as int,
            oh as int,
            ow as int,
        ),
{
    let ghost c = ConvCtx {
        in_vals: in_buf@,
        w_vals: w_buf@,
        in_shape: in_shape@,
        w_shape: w_shape@,
        opts,
    };
    let in_len = in_buf.len();
    let w_len = w_buf.len();
    let k0 = w_shape[2];
    let k1 = w_shape[3];
    let k2 = w_shape[4];
    proof {
        let k0i = k0 as int;
        let k1i = k1 as int;
        let k2i = k2 as int;
        let w1 = w_shape@[1] as int;
        // the window product in every association order, and each partial
        // product bounded by the whole window
        assert(k2i * k1i >= 1 && (k2i * k1i) * k0i >= 1) by {
            vstd::arithmetic::mul::lemma_mul_strictly_positive(k2i, k1i);
            vstd::arithmetic::mul::lemma_mul_strictly_positive(k2i * k1i, k0i);
        }
        assert((k2i * k1i) * k0i == k2i * (k1i * k0i)) by {
            vstd::arithmetic::mul::lemma_mul_is_associative(k2i, k1i, k0i);
        }
        assert(k0i * (k1i * k2i) == k2i * (k1i * k0i)) by {
            vstd::arithmetic::mul::lemma_mul_is_commutative(k1i, k2i);
            vstd::arithmetic::mul::lemma_mul_is_associative(k0i, k1i, k2i);
            vstd::arithmetic::mul::lemma_mul_is_commutative(k0i, k1i * k2i);
            vstd::arithmetic::mul::lemma_mul_is_associative(k1i, k2i, k0i);
            vstd::arithmetic::mul::lemma_mul_is_commutative(k1i * k2i, k0i);
            vstd::arithmetic::mul::lemma_mul_is_associative(k2i, k1i, k0i);
        }
        assert(conv_window_len(c) == w1 * (k0i * (k1i * k2i)));
        assert(w1 * (k2i * (k1i * k0i)) == (k2i * (k1i * k0i)) * w1) by {
            vstd::arithmetic::mul::lemma_mul_is_commutative(w1, k2i * (k1i * k0i));
        }
        // partial products stay below the whole window
        assert((k2i * k1i) * 1 <= (k2i * k1i) * k0i) by {
            vstd::arithmetic::mul::lemma_mul_nonnegative(k2i, k1i);
            vstd::arithmetic::mul::lemma_mul_inequality(1, k0i, k2i * k1i);
            vstd::arithmetic::mul::lemma_mul_is_commutative(1, k2i * k1i);
            vstd::arithmetic::mul::lemma_mul_is_commutative(k0i, k2i * k1i);
        }
        assert((k2i * (k1i * k0i)) * 1 <= (k2i * (k1i * k0i)) * w1) by {
            vstd::arithmetic::mul::lemma_mul_nonnegative(k2i, k1i * k0i);
            vstd::arithmetic::mul::lemma_mul_inequality(1, w1, k2i * (k1i * k0i));
            vstd::arithmetic::mul::lemma_mul_is_commutative(1, k2i * (k1i * k0i));
            vstd::arithmetic::mul::lemma_mul_is_commutative(w1, k2i * (k1i * k0i));
        }
    }
    let k21 = k2 * k1;
    let kk = k21 * k0;
    let win = w_shape[1] * kk;
    let channels_per_group = w_shape[0] / opts.groups;
    proof {
        assert(w_shape@[0] as int == opts.groups as int * channels_per_group as int) by {
            vstd::arithmetic::div_mod::lemma_fundamental_div_mod(
                w_shape@[0] as int,
                opts.groups as int,
            );
        }
        assert(channels_per_group >= 1) by {
            assert(opts.groups as int * 0int == 0);
        }
    }
    let g = oc / channels_per_group;
    proof {
        assert((g as int) < opts.groups as int) by {
            assert((oc as int) < channels_per_group as int * opts.groups as int) by {
                vstd::arithmetic::mul::lemma_mul_is_commutative(
                    opts.groups as int,
                    channels_per_group as int,
                );
            }
            vstd::arithmetic::div_mod::lemma_multiply_divide_lt(
                oc as int,
                channels_per_group as int,
                opts.groups as int,
            );
        }
        assert(w_shape@[1] * (g as int + 1) <= w_shape@[1] * opts.groups as int) by {
            vstd::arithmetic::mul::lemma_mul_inequality(
                g as int + 1,
                opts.groups as int,
                w_shape@[1] as int,
            );
            vstd::arithmetic::mul::lemma_mul_is_commutative(g as int + 1, w_shape@[1] as int);
            vstd::arithmetic::mul::lemma_mul_is_commutative(
                opts.groups as int,
                w_shape@[1] as int,
            );
        }
        assert(w_shape@[1] * (g as int + 1) == w_shape@[1] * g as int + w_shape@[1]) by {
            vstd::arithmetic::mul::lemma_mul_is_distributive_add(
                w_shape@[1] as int,
                g as int,
                1,
            );
        }
        assert(w_shape@[1] * g as int >= 0) by {
            vstd::arithmetic::mul::lemma_mul_nonnegative(w_shape@[1] as int, g as int);
        }
    }
    let ic_start = w_shape[1] * g;
    let mut acc: i64 = bias_v;
    let mut t: usize = 0;
    proof {
        lemma_conv_sum_bound(c, b as int, oc as int, od as int, oh as int, ow as int, 0);
    }
    while t < win
        invariant
            t <= win,
            win == conv_window_len(c),
            conv_ctx_wf(c),
            conv_exec_caps(c),
            c == (ConvCtx {
                in_vals: in_buf@,
                w_vals: w_buf@,
                in_shape: in_shape@,
                w_shape: w_shape@,
                opts,
            }),
            is_contiguous_layout(in_shape@, in_sp@),
            is_contiguous_layout(w_shape@, w_sp@),
            in_len == in_buf@.len(),
            w_len == w_buf@.len(),
            b < in_shape@[0],
            oc < w_shape@[0],
            od <= 0x100000,
            oh <= 0x100000,
            ow <= 0x100000,
            -BIAS_CAP <= bias_v <= BIAS_CAP,
            k0 == w_shape@[2] && k1 == w_shape@[3] && k2 == w_shape@[4],
            k21 == k2 as int * k1 as int,
            k21 >= 1,
            kk == k2 as int * (k1 as int * k0 as int),
            kk >= 1,
            g == oc as int / (c.w_shape[0] as int / c.opts.groups as int),
            ic_start == w_shape@[1] * g as int,
            ic_start + w_shape@[1] <= in_shape@[1],
            acc as int == bias_v + conv_sum(
                c,
                b as int,
                oc as int,
                od as int,
                oh as int,
                ow as int,
                t as int,
            ),
        decreases win - t,
    {
        proof {
            lemma_conv_step_coords(c, oc as int, t as int);
            lemma_conv_term_bound(
                c,
                b as int,
                oc as int,
                od as int,
                oh as int,
                ow as int,
                t as int,
            );
            lemma_conv_sum_bound(
                c,
                b as int,
                oc as int,
                od as int,
                oh as int,
                ow as int,
                t as int,
            );
            lemma_conv_sum_bound(
                c,
                b as int,
                oc as int,
                od as int,
                oh as int,
                ow as int,
                t as int + 1,
            );
            assert(t as int * (VAL_CAP as int * VAL_CAP as int) <= WINDOW_CAP as int * (VAL_CAP
                as int * VAL_CAP as int) && (t as int + 1) * (VAL_CAP as int * VAL_CAP as int)
                <= WINDOW_CAP as int * (VAL_CAP as int * VAL_CAP as int)) by {
                vstd::arithmetic::mul::lemma_mul_inequality(
                    t as int,
                    WINDOW_CAP as int,
                    VAL_CAP as int * VAL_CAP as int,
                );
                vstd::arithmetic::mul::lemma_mul_inequality(
                    t as int + 1,
                    WINDOW_CAP as int,
                    VAL_CAP as int * VAL_CAP as int,
                );
            }
        }
        let kw = t % k2;
        let kh = (t / k2) % k1;
        let kd = (t / k21) % k0;
        let j = t / kk;
        proof {
            // the decoded coordinates are small, so the dilated positions fit
            assert(od as int * opts.stride_0 as int <= 0x100000 * 0x100000 && kd as int
                * opts.dilation_0 as int <= 0x100000 * 0x100000) by {
                vstd::arithmetic::mul::lemma_mul_upper_bound(
                    od as int,
                    0x100000,
                    opts.stride_0 as int,
                    0x100000,
                );
                vstd::arithmetic::mul::lemma_mul_upper_bound(
                    kd as int,
                    0x100000,
                    opts.dilation_0 as int,
                    0x100000,
                );
            }
            assert(oh as int * opts.stride_1 as int <= 0x100000 * 0x100000 && kh as int
                * opts.dilation_1 as int <= 0x100000 * 0x100000) by {
                vstd::arithmetic::mul::lemma_mul_upper_bound(
                    oh as int,
                    0x100000,
                    opts.stride_1 as int,
                    0x100000,
                );
                vstd::arithmetic::mul::lemma_mul_upper_bound(
                    kh as int,
                    0x100000,
                    opts.dilation_1 as int,
                    0x100000,
                );
            }
            assert(ow as int * opts.stride_2 as int <= 0x100000 * 0x100000 && kw as int
                * opts.dilation_2 as int <= 0x100000 * 0x100000) by {
                vstd::arithmetic::mul::lemma_mul_upper_bound(
                    ow as int,
                    0x100000,
                    opts.stride_2 as int,
                    0x100000,
                );
                vstd::arithmetic::mul::lemma_mul_upper_bound(
                    kw as int,
                    0x100000,
                    opts.dilation_2 as int,
                    0x100000,
                );
            }
            vstd::arithmetic::mul::lemma_mul_nonnegative(od as int, opts.stride_0 as int);
            vstd::arithmetic::mul::lemma_mul_nonnegative(kd as int, opts.dilation_0 as int);
            vstd::arithmetic::mul::lemma_mul_nonnegative(oh as int, opts.stride_1 as int);
            vstd::arithmetic::mul::lemma_mul_nonnegative(kh as int, opts.dilation_1 as int);
            vstd::arithmetic::mul::lemma_mul_nonnegative(ow as int, opts.stride_2 as int);
            vstd::arithmetic::mul::lemma_mul_nonnegative(kw as int, opts.dilation_2 as int);
        }
        let ic = ic_start + j;
        let id = od as u64 * opts.stride_0 as u64 + kd as u64 * opts.dilation_0 as u64;
        let ih = oh as u64 * opts.stride_1 as u64 + kh as u64 * opts.dilation_1 as u64;
        let iw = ow as u64 * opts.stride_2 as u64 + kw as u64 * opts.dilation_2 as u64;
        let within = id >= opts.padding_0 as u64 && id < in_shape[2] as u64 + opts.padding_0
            as u64 && ih >= opts.padding_1 as u64 && ih < in_shape[3] as u64 + opts.padding_1
            as u64 && iw >= opts.padding_2 as u64 && iw < in_shape[4] as u64 + opts.padding_2
            as u64;
        let term: i64 = if within {
            proof {
                lemma_offset5_in_range(
                    in_shape@,
                    b as int,
                    ic as int,
                    id as int - opts.padding_0 as int,
                    ih as int - opts.padding_1 as int,
                    iw as int - opts.padding_2 as int,
                );
                lemma_offset5_in_range(
                    w_shape@,
                    oc as int,
                    j as int,
                    kd as int,
                    kh as int,
                    kw as int,
                );
                lemma_conv_offset_terms_nonneg(
                    in_shape@,
                    b as int,
                    ic as int,
                    id as int - opts.padding_0 as int,
                    ih as int - opts.padding_1 as int,
                    iw as int - opts.padding_2 as int,
                );
                lemma_conv_offset_terms_nonneg(
                    w_shape@,
                    oc as int,
                    j as int,
                    kd as int,
                    kh as int,
                    kw as int,
                );
            }
            proof {
                assert(in_sp@[4] == suffix_product(in_shape@, 5));
                assert(in_sp@[4] == 1);
                assert(w_sp@[4] == 1);
            }
            let id_pad = (id - opts.padding_0 as u64) as usize;
            let ih_pad = (ih - opts.padding_1 as u64) as usize;
            let iw_pad = (iw - opts.padding_2 as u64) as usize;
            let ioff = b * in_sp[0] + ic * in_sp[1] + id_pad * in_sp[2] + ih_pad * in_sp[3]
                + iw_pad * in_sp[4];
            let woff = oc * w_sp[0] + j * w_sp[1] + kd * w_sp[2] + kh * w_sp[3] + kw * w_sp[4];
            let iv = in_buf[ioff];
            let wv = w_buf[woff];
            proof {
                lemma_product_bound(iv as int, wv as int, VAL_CAP as int);
            }
            iv * wv
        } else {
            0
        };
        acc = acc + term;
        t = t + 1;
    }
    acc
}

/// Each product of a rank-5 offset is nonnegative.
proof fn lemma_conv_offset_terms_nonneg(shape: Seq<usize>, c0: int, c1: int, c2: int, c3: int, c4: int)
    requires
        shape.len() == 5,
        0 <= c0,
        0 <= c1,
        0 <= c2,
        0 <= c3,
        0 <= c4,
    ensures
        0 <= c0 * suffix_product(shape, 1),
        0 <= c1 * suffix_product(shape, 2),
        0 <= c2 * suffix_product(shape, 3),
        0 <= c3 * suffix_product(shape, 4),
{
    crate::descriptor::lemma_suffix_product_nonneg(shape, 1);
    crate::descriptor::lemma_suffix_product_nonneg(shape, 2);
    crate::descriptor::lemma_suffix_product_nonneg(shape, 3);
    crate::descriptor::lemma_suffix_product_nonneg(shape, 4);
    vstd::arithmetic::mul::lemma_mul_nonnegative(c0, suffix_product(shape, 1));
    vstd::arithmetic::mul::lemma_mul_nonnegative(c1, suffix_product(shape, 2));
    vstd::arithmetic::mul::lemma_mul_nonnegative(c2, suffix_product(shape, 3));
    vstd::arithmetic::mul::lemma_mul_nonnegative(c3, suffix_product(shape, 4));
}



/// Logical coordinate of output element `i` along dimension `d` of a
/// contiguous layout.
pub open spec fn out_coord(shape: Seq<usize>, i: int, d: int) -> int {
    (i / suffix_product(shape, d + 1)) % shape[d] as int
}

/// The value output element `i` of the convolution holds.
pub open spec fn conv3d_output_at(
    c: ConvCtx,
    bias_vals: Seq<i64>,
    out_shape: Seq<usize>,
    i: int,
) -> int {
    conv3d_math(
        c,
        bias_vals[out_coord(out_shape, i, 1)] as int,
        out_coord(out_shape, i, 0),
        out_coord(out_shape, i, 1),
        out_coord(out_shape, i, 2),
        out_coord(out_shape, i, 3),
        out_coord(out_shape, i, 4),
    )
}

/// The convolution kernel: unit `i` decodes its output coordinates from
/// the contiguous output layout and accumulates its window.
#[verifier::rlimit(30)]
fn run_conv3d_kernel(
    in_buf: &Vec<i64>,
    w_buf: &Vec<i64>,
    bias_buf: &Vec<i64>,
    in_shape: &Vec<usize>,
    in_sp: &Vec<usize>,
    w_shape: &Vec<usize>,
    w_sp: &Vec<usize>,
    out_shape: &Vec<usize>,
    out_sp: &Vec<usize>,
    opts: ConvOptions,
    n: usize,
    dest: Vec<i64>,
) -> (out: Vec<i64>)
    requires
        dest@.len() >= n,
        out_shape@.len() == 5,
        is_contiguous_layout(out_shape@, out_sp@),
        is_contiguous_layout(in_shape@, in_sp@),
        is_contiguous_layout(w_shape@, w_sp@),
        n > 0 ==> ({
            let c = ConvCtx {
                in_vals: in_buf@,
                w_vals: w_buf@,
                in_shape: in_shape@,
                w_shape: w_shape@,
                opts,
            };
            &&& conv_ctx_wf(c)
            &&& conv_exec_caps(c)
        }),
        n > 0 ==> n <= spec_numel(out_shape@),
        n > 0 ==> spec_numel(out_shape@) > 0,
        out_shape@[0] == in_shape@[0],
        out_shape@[1] == w_shape@[0],
        out_shape@[2] <= 0x100000,
        out_shape@[3] <= 0x100000,
        out_shape@[4] <= 0x100000,
        bias_buf@.len() >= w_shape@[0],
        forall|k: int| 0 <= k < bias_buf@.len() ==> -BIAS_CAP <= #[trigger] bias_buf@[k] <= BIAS_CAP,
    ensures
        out@.len() == dest@.len(),
        forall|i: int|
            0 <= i < n ==> out@[i] as int == conv3d_output_at(
                ConvCtx {
                    in_vals: in_buf@,
                    w_vals: w_buf@,
                    in_shape: in_shape@,
                    w_shape: w_shape@,
                    opts,
                },
                bias_buf@,
                out_shape@,
                i,
            ),
        forall|i: int| n <= i < dest@.len() ==> out@[i] == dest@[i],
{
    let ghost c = ConvCtx {
        in_vals: in_buf@,
        w_vals: w_buf@,
        in_shape: in_shape@,
        w_shape: w_shape@,
        opts,
    };
    let mut out = dest;
    let mut i: usize = 0;
    proof {
        if n > 0 {
            lemma_suffix_product_positive(out_shape@, 0);
            assert forall|e: int| 0 <= e < 5 implies #[trigger] out_sp@[e] >= 1 by {
                lemma_positive_dims_numel(out_shape@, e + 1);
            }
        }
    }
    while i < n
        invariant
            i <= n,
            out@.len() == dest@.len(),
            n <= dest@.len(),
            out_shape@.len() == 5,
            is_contiguous_layout(out_shape@, out_sp@),
            is_contiguous_layout(in_shape@, in_sp@),
            is_contiguous_layout(w_shape@, w_sp@),
            c == (ConvCtx {
                in_vals: in_buf@,
                w_vals: w_buf@,
                in_shape: in_shape@,
                w_shape: w_shape@,
                opts,
            }),
            n > 0 ==> conv_ctx_wf(c) && conv_exec_caps(c),
            n > 0 ==> forall|e: int| 0 <= e < 5 ==> #[trigger] out_sp@[e] >= 1,
            n > 0 ==> forall|e: int| 0 <= e < 5 ==> #[trigger] out_shape@[e] >= 1,
            out_shape@[0] == in_shape@[0],
            out_shape@[1] == w_shape@[0],
            out_shape@[2] <= 0x100000,
            out_shape@[3] <= 0x100000,
            out_shape@[4] <= 0x100000,
            bias_buf@.len() >= w_shape@[0],
            forall|k: int|
                0 <= k < bias_buf@.len() ==> -BIAS_CAP <= #[trigger] bias_buf@[k] <= BIAS_CAP,
            forall|k: int|
                0 <= k < i ==> out@[k] as int == conv3d_output_at(c, bias_buf@, out_shape@, k),
            forall|k: int| n <= k < dest@.len() ==> out@[k] == dest@[k],
        decreases n - i,
    {
        proof {
            vstd::arithmetic::div_mod::lemma_mod_bound(
                i as int / out_sp@[0] as int,
                out_shape@[0] as int,
            );
            vstd::arithmetic::div_mod::lemma_mod_bound(
                i as int / out_sp@[1] as int,
                out_shape@[1] as int,
            );
            vstd::arithmetic::div_mod::lemma_mod_bound(
                i as int / out_sp@[2] as int,
                out_shape@[2] as int,
            );
            vstd::arithmetic::div_mod::lemma_mod_bound(
                i as int / out_sp@[3] as int,
                out_shape@[3] as int,
            );
            vstd::arithmetic::div_mod::lemma_mod_bound(
                i as int / out_sp@[4] as int,
                out_shape@[4] as int,
            );
        }
        let b = (i / out_sp[0]) % out_shape[0];
        let oc = (i / out_sp[1]) % out_shape[1];
        let od = (i / out_sp[2]) % out_shape[2];
        let oh = (i / out_sp[3]) % out_shape[3];
        let ow = (i / out_sp[4]) % out_shape[4];
        let bias_v = bias_buf[oc];
        let v = conv3d_unit(
            in_buf,
            w_buf,
            bias_v,
            in_shape,
            in_sp,
            w_shape,
            w_sp,
            opts,
            b,
            oc,
            od,
            oh,
            ow,
        );
        out.set(i, v);
        i = i + 1;
    }
    out
}



/// The output shape of one convolution: batch, the weight's output
/// channels, and the three spatial extents given by the output-size
/// formula.
pub open spec fn spec_conv3d_out_shape(
    in_shape: Seq<usize>,
    w_shape: Seq<usize>,
    opts: ConvOptions,
) -> Seq<usize> {
    seq![
        in_shape[0],
        w_shape[0],
        spec_conv_output_size(
            w_shape[2] as int,
            opts.stride_0 as int,
            opts.padding_0 as int,
            opts.dilation_0 as int,
            in_shape[2] as int,
        ) as usize,
        spec_conv_output_size(
            w_shape[3] as int,
            opts.stride_1 as int,
            opts.padding_1 as int,
            opts.dilation_1 as int,
            in_shape[3] as int,
        ) as usize,
        spec_conv_output_size(
            w_shape[4] as int,
            opts.stride_2 as int,
            opts.padding_2 as int,
            opts.dilation_2 as int,
            in_shape[4] as int,
        ) as usize,
    ]
}

/// The bias values a convolution accumulates from: the bias tensor's
/// buffer, or all zeros when no bias was given.
pub open spec fn spec_conv3d_bias_vals(
    bias: Option<TensorDesc>,
    w_shape: Seq<usize>,
    client: ComputeClient,
) -> Seq<i64> {
    match bias {
        Some(bd) => client.buffers@[bd.buffer as int]@,
        None => Seq::new(w_shape[1 - 1] as nat, |k: int| 0i64),
    }
}

/// The context one convolution launch reads: the operands' values in
/// row-major logical order (the buffers themselves when already
/// contiguous, else what materializing them yields) with their shapes and
/// options.
pub open spec fn spec_conv3d_ctx(
    input: TensorDesc,
    weight: TensorDesc,
    opts: ConvOptions,
    client: ComputeClient,
) -> ConvCtx {
    ConvCtx {
        in_vals: spec_contiguous_vals(
            client.buffers@[input.buffer as int]@,
            input.shape@,
            input.strides@,
        ),
        w_vals: spec_contiguous_vals(
            client.buffers@[weight.buffer as int]@,
            weight.shape@,
            weight.strides@,
        ),
        in_shape: input.shape@,
        w_shape: weight.shape@,
        opts,
    }
}

/// The buffers a convolution launch allocates besides its output: one
/// contiguous copy per non-contiguous operand, and one zero-filled bias
/// buffer when no bias was given.
pub open spec fn spec_conv3d_extra_buffers(
    input: TensorDesc,
    weight: TensorDesc,
    bias: Option<TensorDesc>,
) -> int {
    (if input.spec_is_contiguous() {
        0int
    } else {
        1int
    }) + (if weight.spec_is_contiguous() {
        0int
    } else {
        1int
    }) + (match bias {
        Some(_) => 0int,
        None => 1int,
    })
}

/// What a convolution launch asks of its caller: valid rank-5 operands
/// (any layout; non-contiguous ones are materialized internally), the
/// channel extents agreeing with the grouping, a window that fits each
/// axis at least once, and every cap that keeps the machine arithmetic
/// exact.
pub open spec fn conv3d_launch_pre(
    input: TensorDesc,
    weight: TensorDesc,
    bias: Option<TensorDesc>,
    opts: ConvOptions,
    client: ComputeClient,
) -> bool {
    let c = spec_conv3d_ctx(input, weight, opts, client);
    let out_shape = spec_conv3d_out_shape(input.shape@, weight.shape@, opts);
    &&& client.well_formed()
    &&& desc_valid(input, client)
    &&& desc_valid(weight, client)
    &&& input.shape@.len() == 5
    &&& weight.shape@.len() == 5
    &&& conv_ctx_wf(c)
    &&& conv_exec_caps(c)
    &&& opts.stride_0 >= 1
    &&& opts.stride_1 >= 1
    &&& opts.stride_2 >= 1
    &&& input.shape@[2] + 2 * opts.padding_0 < usize::MAX
    &&& input.shape@[3] + 2 * opts.padding_1 < usize::MAX
    &&& input.shape@[4] + 2 * opts.padding_2 < usize::MAX
    &&& input.shape@[2] + 2 * opts.padding_0 >= opts.dilation_0 * (weight.shape@[2] - 1) + 1
    &&& input.shape@[3] + 2 * opts.padding_1 >= opts.dilation_1 * (weight.shape@[3] - 1) + 1
    &&& input.shape@[4] + 2 * opts.padding_2 >= opts.dilation_2 * (weight.shape@[4] - 1) + 1
    &&& out_shape[2] <= 0x100000
    &&& out_shape[3] <= 0x100000
    &&& out_shape[4] <= 0x100000
    &&& forall|d: int| 0 <= d <= 5 ==> suffix_product(out_shape, d) <= usize::MAX
    &&& spec_numel(out_shape) <= MAX_LAUNCH_UNITS
    &&& match bias {
        Some(bd) => {
            &&& desc_valid(bd, client)
            &&& bd.shape@.len() == 1
            &&& bd.shape@[0] == weight.shape@[0]
            &&& bd.spec_is_contiguous()
            &&& forall|k: int|
                0 <= k < client.buffers@[bd.buffer as int]@.len() ==> -BIAS_CAP <= #[trigger] client.buffers@[bd.buffer as int]@[k] <= BIAS_CAP
        },
        None => true,
    }
}

/// Everything a convolution launch promises.
pub open spec fn conv3d_launch_post(
    input: TensorDesc,
    weight: TensorDesc,
    bias: Option<TensorDesc>,
    opts: ConvOptions,
    pre: ComputeClient,
    post: ComputeClient,
    out: TensorDesc,
) -> bool {
    let c = spec_conv3d_ctx(input, weight, opts, pre);
    let extra = spec_conv3d_extra_buffers(input, weight, bias);
    &&& post.well_formed()
    &&& post.device == pre.device
    &&& out.shape@ == spec_conv3d_out_shape(input.shape@, weight.shape@, opts)
    &&& out.elem == input.elem
    &&& out.device == input.device
    &&& is_contiguous_layout(out.shape@, out.strides@)
    &&& desc_valid(out, post)
    // one fresh output buffer, after the contiguous copies and the default
    // bias buffer the launch may have had to allocate
    &&& out.buffer == pre.buffers@.len() + extra
    &&& post.buffers@.len() == pre.buffers@.len() + extra + 1
    &&& post.refs@.len() == pre.refs@.len() + extra + 1
    &&& forall|k: int|
        0 <= k < pre.buffers@.len() ==> post.buffers@[k] == pre.buffers@[k] && post.refs@[k]
            == pre.refs@[k]
    &&& forall|k: int| pre.refs@.len() <= k < post.refs@.len() ==> post.refs@[k] == 1
    &&& post.buffers@[out.buffer as int]@.len() == spec_numel(out.shape@)
    &&& forall|i: int|
        0 <= i < spec_numel(out.shape@) ==> post.buffers@[out.buffer as int]@[i] as int
            == conv3d_output_at(c, spec_conv3d_bias_vals(bias, weight.shape@, pre), out.shape@, i)
    &&& post.launches@ == pre.launches@.push(
        (LaunchRecord {
            key: (KernelKey::Conv3d {
                kernel_size_0: Some(weight.shape@[2]),
                kernel_size_1: Some(weight.shape@[3]),
                kernel_size_2: Some(weight.shape@[4]),
            }),
            plan: spec_elemwise_plan(spec_numel(out.shape@) as int, 1),
        }),
    )
}

/// Launches one 3-D convolution over rank-5 operands
/// `[batch, channels, depth, height, width]`, with grouping, dilation and
/// implicit zero padding. Non-contiguous operands are first materialized
/// as contiguous copies. Each output element accumulates its channel's
/// bias plus the products of input and weight over the kernel window,
/// skipping positions outside the padded input; the three window extents
/// are comptime parameters of the kernel's cache identity, unrolled into
/// the specialized program.
pub fn conv3d(
    client: &mut ComputeClient,
    input: TensorDesc,
    weight: TensorDesc,
    bias: Option<TensorDesc>,
    opts: ConvOptions,
) -> (out: TensorDesc)
    requires
        conv3d_launch_pre(input, weight, bias, opts, *old(client)),
    ensures
        conv3d_launch_post(input, weight, bias, opts, *old(client), *final(client), out),
{
    let ghost orig_input = input;
    let ghost orig_weight = weight;
    let ghost c = spec_conv3d_ctx(input, weight, opts, *old(client));
    let input = into_contiguous(client, input);
    let weight = into_contiguous(client, weight);
    proof {
        // the materialized buffers hold exactly the canonical row-major
        // values the context speaks of
        if !orig_input.spec_is_contiguous() {
            lemma_contig_strides_canonical(orig_input.shape@, input.strides@);
            assert(client.buffers@[input.buffer as int]@ =~= c.in_vals);
        }
        if !orig_weight.spec_is_contiguous() {
            lemma_contig_strides_canonical(orig_weight.shape@, weight.strides@);
            assert(client.buffers@[weight.buffer as int]@ =~= c.w_vals);
        }
        assert(client.buffers@[input.buffer as int]@ == c.in_vals);
        assert(client.buffers@[weight.buffer as int]@ == c.w_vals);
    }
    let out_0 = calculate_conv_output_size(
        weight.shape[2],
        opts.stride_0,
        opts.padding_0,
        opts.dilation_0,
        input.shape[2],
    );
    let out_1 = calculate_conv_output_size(
        weight.shape[3],
        opts.stride_1,
        opts.padding_1,
        opts.dilation_1,
        input.shape[3],
    );
    let out_2 = calculate_conv_output_size(
        weight.shape[4],
        opts.stride_2,
        opts.padding_2,
        opts.dilation_2,
        input.shape[4],
    );
    let mut out_shape: Vec<usize> = Vec::new();
    out_shape.push(input.shape[0]);
    out_shape.push(weight.shape[0]);
    out_shape.push(out_0);
    out_shape.push(out_1);
    out_shape.push(out_2);
    proof {
        assert(out_shape@ =~= spec_conv3d_out_shape(orig_input.shape@, orig_weight.shape@, opts));
    }
    let out_strides = contiguous_strides(&out_shape);
    let n = numel(&out_shape);
    let plan = make_elemwise_plan(n as u64, 1);
    // a missing bias becomes a zero-filled buffer, so the kernel always
    // accumulates from a bias value
    let bias_buffer = match bias {
        Some(ref bd) => bd.buffer,
        None => client.allocate(weight.shape[0]),
    };
    proof {
        if n > 0 {
            lemma_suffix_product_positive(out_shape@, 0);
        }
        match bias {
            Some(bd) => {
                assert(suffix_product(bd.shape@, 1) == 1);
                assert(suffix_product(bd.shape@, 0) == bd.shape@[0] * 1);
                if weight.shape@[0] > 0 {
                    lemma_positive_dims_numel(bd.shape@, 0);
                    lemma_contiguous_max_index(bd.shape@, bd.strides@, 0);
                }
            },
            None => {},
        }
        assert(client.buffers@[bias_buffer as int]@.len() >= weight.shape@[0]);
    }
    let mut dest: Vec<i64> = Vec::new();
    dest.resize(n, 0i64);
    let res = run_conv3d_kernel(
        client.buffer(input.buffer),
        client.buffer(weight.buffer),
        client.buffer(bias_buffer),
        &input.shape,
        &input.strides,
        &weight.shape,
        &weight.strides,
        &out_shape,
        &out_strides,
        opts,
        n,
        dest,
    );
    let b = client.allocate(n);
    client.install(b, res);
    client.submit(
        LaunchRecord {
            key: KernelKey::Conv3d {
                kernel_size_0: Some(weight.shape[2]),
                kernel_size_1: Some(weight.shape[3]),
                kernel_size_2: Some(weight.shape[4]),
            },
            plan,
        },
    );
    let out = TensorDesc {
        shape: out_shape,
        strides: out_strides,
        buffer: b,
        device: input.device,
        elem: input.elem,
    };
    proof {
        if n > 0 {
            lemma_contiguous_max_index(out.shape@, out.strides@, 0);
        }
    }
    out
}


} // verus!
