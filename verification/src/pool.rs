//! Generic windowed pooling over rank-4 tensors, with a pluggable
//! accumulate/finalize strategy drawn from a closed set, and adaptive
//! average pooling whose window bounds are derived per output element.
//! Average pooling divides by the count of in-bounds window elements, not
//! the nominal window size, so border outputs are normalized correctly.

use vstd::prelude::*;

use crate::client::{desc_valid, ComputeClient, LaunchRecord};
use crate::comptime::KernelKey;
use crate::conv::{bounded_vals, calculate_conv_output_size, spec_conv_output_size, VAL_CAP,
    WINDOW_CAP};
use crate::descriptor::{
    contiguous_strides, is_contiguous_layout, lemma_contiguous_max_index,
    lemma_positive_dims_numel, lemma_suffix_product_positive, max_linear_index,
    max_linear_index_from, numel, spec_numel, suffix_product, ElemKind, TensorDesc,
};
use crate::grid::{make_elemwise_plan, spec_elemwise_plan, MAX_LAUNCH_UNITS};

verus! {

/// The pooling strategies, a closed set selected at specialization time.
#[derive(Clone, Copy, PartialEq, Eq, Structural, Debug)]
pub enum PoolKind {
    /// Keep the largest window value.
    Max,
    /// Keep the largest window value and report its source index.
    MaxWithIndices,
    /// Average the window values over the in-bounds element count.
    Avg,
}

impl PoolKind {
    /// Whether the strategy binds a second output buffer of winning source
    /// indices.
    pub open spec fn spec_reports_indices(self) -> bool {
        self is MaxWithIndices
    }

    pub fn reports_indices(self) -> (r: bool)
        ensures
            r == self.spec_reports_indices(),
    {
        match self {
            PoolKind::MaxWithIndices => true,
            _ => false,
        }
    }

    /// The accumulator a window walk starts from.
    pub open spec fn spec_initialize(self) -> (int, int, int) {
        match self {
            PoolKind::Max => (i64::MIN as int, 0, 0),
            PoolKind::MaxWithIndices => (i64::MIN as int, 0, 0),
            PoolKind::Avg => (0, 0, 0),
        }
    }

    /// Folds one in-bounds window element `(v, idx)` into the accumulator
    /// `(value, index, count)`.
    pub open spec fn spec_fold(self, acc: (int, int, int), v: int, idx: int) -> (int, int, int) {
        match self {
            PoolKind::Max => (if v > acc.0 { v } else { acc.0 }, acc.1, acc.2 + 1),
            PoolKind::MaxWithIndices => (
                if v > acc.0 {
                    v
                } else {
                    acc.0
                },
                if v > acc.0 {
                    idx
                } else {
                    acc.1
                },
                acc.2 + 1,
            ),
            PoolKind::Avg => (acc.0 + v, acc.1, acc.2 + 1),
        }
    }

    /// The output value of a finished accumulator: the kept maximum, or the
    /// sum normalized by the in-bounds count.
    pub open spec fn spec_finalize(self, acc: (int, int, int)) -> int {
        match self {
            PoolKind::Max => acc.0,
            PoolKind::MaxWithIndices => acc.0,
            PoolKind::Avg => spec_div_toward_zero(acc.0, acc.2),
        }
    }
}

/// Truncating division with a zero guard: the normalization average
/// pooling applies to its sum.
pub open spec fn spec_div_toward_zero(sum: int, count: int) -> int {
    if count <= 0 {
        0
    } else if sum >= 0 {
        sum / count
    } else {
        -((-sum) / count)
    }
}

/// Everything one pooling launch reads.
pub ghost struct PoolCtx {
    pub in_vals: Seq<i64>,
    pub in_shape: Seq<usize>,
    pub in_strides: Seq<usize>,
    pub kind: PoolKind,
    pub kernel_h: usize,
    pub kernel_w: usize,
    pub stride_h: usize,
    pub stride_w: usize,
    pub dilation_h: usize,
    pub dilation_w: usize,
    pub padding_h: usize,
    pub padding_w: usize,
}

/// Linear offset of input element `[b, ch, ih, iw]` through the input's
/// own strides.
pub open spec fn pool_in_offset(c: PoolCtx, b: int, ch: int, ih: int, iw: int) -> int {
    b * c.in_strides[0] + ch * c.in_strides[1] + ih * c.in_strides[2] + iw * c.in_strides[3]
}

/// The plane-linear index reported for a winning element.
pub open spec fn pool_report_index(c: PoolCtx, ih: int, iw: int) -> int {
    ih * c.in_strides[2] + iw
}

/// Accumulator state after the first `t_n` window steps of output element
/// `(b, ch, oh, ow)`. Step `t` linearizes `(kh, kw)` with `kw` fastest;
/// positions outside the padded input are skipped.
pub open spec fn pool_state(c: PoolCtx, b: int, ch: int, oh: int, ow: int, t_n: int) -> (
    int,
    int,
    int,
)
    decreases t_n,
{
    if t_n <= 0 {
        c.kind.spec_initialize()
    } else {
        let prev = pool_state(c, b, ch, oh, ow, t_n - 1);
        let t = t_n - 1;
        let kh = t / c.kernel_w as int;
        let kw = t % c.kernel_w as int;
        let ih = oh * c.stride_h + kh * c.dilation_h;
        let iw = ow * c.stride_w + kw * c.dilation_w;
        if ih >= c.padding_h && ih < c.in_shape[2] + c.padding_h && iw >= c.padding_w && iw
            < c.in_shape[3] + c.padding_w {
            c.kind.spec_fold(
                prev,
                c.in_vals[pool_in_offset(c, b, ch, ih - c.padding_h, iw - c.padding_w)] as int,
                pool_report_index(c, ih - c.padding_h, iw - c.padding_w),
            )
        } else {
            prev
        }
    }
}

/// The window step count of the fixed-window kernel.
pub open spec fn pool_window_len(c: PoolCtx) -> int {
    c.kernel_h * c.kernel_w
}

/// The value and reported index output element `(b, ch, oh, ow)` receives.
pub open spec fn pool_output_at(c: PoolCtx, b: int, ch: int, oh: int, ow: int) -> (int, int) {
    let acc = pool_state(c, b, ch, oh, ow, pool_window_len(c));
    (c.kind.spec_finalize(acc), acc.1)
}


/// Caps on the executable arithmetic of a pooling kernel.
pub open spec fn pool_exec_caps(c: PoolCtx) -> bool {
    &&& c.in_shape.len() == 4
    &&& c.in_strides.len() == 4
    &&& c.kernel_h <= 0x100000
    &&& c.kernel_w <= 0x100000
    &&& c.stride_h <= 0x100000
    &&& c.stride_w <= 0x100000
    &&& c.dilation_h <= 0x100000
    &&& c.dilation_w <= 0x100000
    &&& c.padding_h <= 0x10000000000
    &&& c.padding_w <= 0x10000000000
    &&& c.in_shape[2] <= 0x100000
    &&& c.in_shape[3] <= 0x100000
    &&& c.in_strides[2] <= 0x10000000000
    &&& pool_window_len(c) <= WINDOW_CAP
    &&& bounded_vals(c.in_vals, VAL_CAP as int)
    &&& max_linear_index(c.in_shape, c.in_strides) < c.in_vals.len()
}

/// A rank-4 offset built from in-range coordinates stays within what the
/// layout addresses.
proof fn lemma_offset4_bound(shape: Seq<usize>, strides: Seq<usize>, c0: int, c1: int, c2: int, c3: int)
    requires
        shape.len() == 4,
        strides.len() == 4,
        0 <= c0 < shape[0],
        0 <= c1 < shape[1],
        0 <= c2 < shape[2],
        0 <= c3 < shape[3],
    ensures
        0 <= c0 * strides[0] + c1 * strides[1] + c2 * strides[2] + c3 * strides[3]
            <= max_linear_index(shape, strides),
        0 <= c0 * strides[0],
        0 <= c1 * strides[1],
        0 <= c2 * strides[2],
        0 <= c3 * strides[3],
{
    assert(max_linear_index_from(shape, strides, 4) == 0);
    assert(max_linear_index_from(shape, strides, 3) == (shape[3] - 1) * strides[3]);
    assert(max_linear_index_from(shape, strides, 2) == (shape[2] - 1) * strides[2]
        + max_linear_index_from(shape, strides, 3));
    assert(max_linear_index_from(shape, strides, 1) == (shape[1] - 1) * strides[1]
        + max_linear_index_from(shape, strides, 2));
    assert(max_linear_index(shape, strides) == (shape[0] - 1) * strides[0]
        + max_linear_index_from(shape, strides, 1));
    vstd::arithmetic::mul::lemma_mul_inequality(c0, shape[0] - 1, strides[0] as int);
    vstd::arithmetic::mul::lemma_mul_inequality(c1, shape[1] - 1, strides[1] as int);
    vstd::arithmetic::mul::lemma_mul_inequality(c2, shape[2] - 1, strides[2] as int);
    vstd::arithmetic::mul::lemma_mul_inequality(c3, shape[3] - 1, strides[3] as int);
    vstd::arithmetic::mul::lemma_mul_nonnegative(c0, strides[0] as int);
    vstd::arithmetic::mul::lemma_mul_nonnegative(c1, strides[1] as int);
    vstd::arithmetic::mul::lemma_mul_nonnegative(c2, strides[2] as int);
    vstd::arithmetic::mul::lemma_mul_nonnegative(c3, strides[3] as int);
}

/// Bounds on the running accumulator: the kept maximum is always an
/// element value or the starting minimum; an average's sum grows by at
/// most one capped value per step; the count never exceeds the step count;
/// the reported index stays below the plane extent.
proof fn lemma_pool_state_bounds(c: PoolCtx, b: int, ch: int, oh: int, ow: int, t_n: int)
    requires
        pool_exec_caps(c),
        0 <= b < c.in_shape[0],
        0 <= ch < c.in_shape[1],
        0 <= oh,
        0 <= ow,
        0 <= t_n,
    ensures
        ({
            let acc = pool_state(c, b, ch, oh, ow, t_n);
            &&& i64::MIN <= acc.0 <= i64::MAX || c.kind is Avg
            &&& (c.kind is Avg ==> -(t_n * VAL_CAP as int) <= acc.0 <= t_n * VAL_CAP as int)
            &&& 0 <= acc.1 <= 0x100000 * 0x10000000000 + 0x100000
            &&& 0 <= acc.2 <= t_n
        }),
    decreases t_n,
{
    if t_n > 0 {
        lemma_pool_state_bounds(c, b, ch, oh, ow, t_n - 1);
        let t = t_n - 1;
        let kh = t / c.kernel_w as int;
        let kw = t % c.kernel_w as int;
        let ih = oh * c.stride_h + kh * c.dilation_h;
        let iw = ow * c.stride_w + kw * c.dilation_w;
        if ih >= c.padding_h && ih < c.in_shape[2] + c.padding_h && iw >= c.padding_w && iw
            < c.in_shape[3] + c.padding_w {
            let ihp = ih - c.padding_h;
            let iwp = iw - c.padding_w;
            assert(0 <= ihp * c.in_strides[2] <= 0x100000 * 0x10000000000) by {
                vstd::arithmetic::mul::lemma_mul_nonnegative(ihp, c.in_strides[2] as int);
                vstd::arithmetic::mul::lemma_mul_upper_bound(
                    ihp,
                    0x100000,
                    c.in_strides[2] as int,
                    0x10000000000,
                );
            }
            if c.kind is Avg {
                // the folded value is an in-range read of a capped buffer
                let off = pool_in_offset(c, b, ch, ihp, iwp);
                assert(0 <= off < c.in_vals.len()) by {
                    lemma_offset4_bound(c.in_shape, c.in_strides, b, ch, ihp, iwp);
                }
                assert((t_n - 1) * VAL_CAP as int + VAL_CAP as int == t_n * VAL_CAP as int) by {
                    vstd::arithmetic::mul::lemma_mul_is_distributive_sub_other_way(
                        VAL_CAP as int,
                        t_n,
                        1,
                    );
                }
            }
        } else {
            if c.kind is Avg {
                assert((t_n - 1) * VAL_CAP as int <= t_n * VAL_CAP as int) by {
                    vstd::arithmetic::mul::lemma_mul_inequality(t_n - 1, t_n, VAL_CAP as int);
                }
                assert(-(t_n * VAL_CAP as int) <= -((t_n - 1) * VAL_CAP as int)) by {
                    vstd::arithmetic::mul::lemma_mul_inequality(t_n - 1, t_n, VAL_CAP as int);
                }
            }
        }
    }
}



/// Window geometry of one fixed-window pooling launch.
#[derive(Clone, Copy, PartialEq, Eq, Structural, Debug)]
pub struct Pool2dOptions {
    pub kernel_h: usize,
    pub kernel_w: usize,
    pub stride_h: usize,
    pub stride_w: usize,
    pub dilation_h: usize,
    pub dilation_w: usize,
    pub padding_h: usize,
    pub padding_w: usize,
}

/// One work unit of the fixed-window pooling kernel: walks its window,
/// folding every in-bounds element with the strategy, and returns the
/// finalized value with the winning index.
fn pool2d_unit(
    in_buf: &Vec<i64>,
    in_shape: &Vec<usize>,
    in_strides: &Vec<usize>,
    kind: PoolKind,
    o: Pool2dOptions,
    b: usize,
    ch: usize,
    oh: usize,
    ow: usize,
) -> (r: (i64, i64))
    requires
        ({
            let c = PoolCtx {
                in_vals: in_buf@,
                in_shape: in_shape@,
                in_strides: in_strides@,
                kind,
                kernel_h: o.kernel_h,
                kernel_w: o.kernel_w,
                stride_h: o.stride_h,
                stride_w: o.stride_w,
                dilation_h: o.dilation_h,
                dilation_w: o.dilation_w,
                padding_h: o.padding_h,
                padding_w: o.padding_w,
            };
            pool_exec_caps(c)
        }),
        b < in_shape@[0],
        ch < in_shape@[1],
        oh <= 0x100000,
        ow <= 0x100000,
    ensures
        ({
            let c = PoolCtx {
                in_vals: in_buf@,
                in_shape: in_shape@,
                in_strides: in_strides@,
                kind,
                kernel_h: o.kernel_h,
                kernel_w: o.kernel_w,
                stride_h: o.stride_h,
                stride_w: o.stride_w,
                dilation_h: o.dilation_h,
                dilation_w: o.dilation_w,
                padding_h: o.padding_h,
                padding_w: o.padding_w,
            };
            &&& r.0 as int == pool_output_at(c, b as int, ch as int, oh as int, ow as int).0
            &&& r.1 as int == pool_output_at(c, b as int, ch as int, oh as int, ow as int).1
        }),
{
    let ghost c = PoolCtx {
        in_vals: in_buf@,
        in_shape: in_shape@,
        in_strides: in_strides@,
        kind,
        kernel_h: o.kernel_h,
        kernel_w: o.kernel_w,
        stride_h: o.stride_h,
        stride_w: o.stride_w,
        dilation_h: o.dilation_h,
        dilation_w: o.dilation_w,
        padding_h: o.padding_h,
        padding_w: o.padding_w,
    };
    let in_len = in_buf.len();
    proof {
        assert(o.kernel_h as int * o.kernel_w as int <= 0x100000 * 0x100000) by {
            vstd::arithmetic::mul::lemma_mul_upper_bound(
                o.kernel_h as int,
                0x100000,
                o.kernel_w as int,
                0x100000,
            );
        }
        vstd::arithmetic::mul::lemma_mul_nonnegative(o.kernel_h as int, o.kernel_w as int);
    }
    let win: u64 = o.kernel_h as u64 * o.kernel_w as u64;
    let mut acc_v: i64 = match kind {
        PoolKind::Avg => 0,
        _ => i64::MIN,
    };
    let mut acc_i: i64 = 0;
    let mut acc_c: u64 = 0;
    let mut t: u64 = 0;
    proof {
        lemma_pool_state_bounds(c, b as int, ch as int, oh as int, ow as int, 0);
    }
    while t < win
        invariant
            t <= win,
            win == pool_window_len(c),
            win <= WINDOW_CAP,
            pool_exec_caps(c),
            c == (PoolCtx {
                in_vals: in_buf@,
                in_shape: in_shape@,
                in_strides: in_strides@,
                kind,
                kernel_h: o.kernel_h,
                kernel_w: o.kernel_w,
                stride_h: o.stride_h,
                stride_w: o.stride_w,
                dilation_h: o.dilation_h,
                dilation_w: o.dilation_w,
                padding_h: o.padding_h,
                padding_w: o.padding_w,
            }),
            in_len == in_buf@.len(),
            b < in_shape@[0],
            ch < in_shape@[1],
            oh <= 0x100000,
            ow <= 0x100000,
            (acc_v as int, acc_i as int, acc_c as int) == pool_state(
                c,
                b as int,
                ch as int,
                oh as int,
                ow as int,
                t as int,
            ),
        decreases win - t,
    {
        proof {
            lemma_pool_state_bounds(c, b as int, ch as int, oh as int, ow as int, t as int);
            lemma_pool_state_bounds(c, b as int, ch as int, oh as int, ow as int, t as int + 1);
            assert(t as int * VAL_CAP as int <= WINDOW_CAP as int * VAL_CAP as int && (t as int
                + 1) * VAL_CAP as int <= WINDOW_CAP as int * VAL_CAP as int) by {
                vstd::arithmetic::mul::lemma_mul_inequality(
                    t as int,
                    WINDOW_CAP as int,
                    VAL_CAP as int,
                );
                vstd::arithmetic::mul::lemma_mul_inequality(
                    t as int + 1,
                    WINDOW_CAP as int,
                    VAL_CAP as int,
                );
            }
            assert(o.kernel_w >= 1) by {
                if o.kernel_w == 0 {
                    assert(pool_window_len(c) == c.kernel_h as int * 0);
                }
            }
            vstd::arithmetic::div_mod::lemma_mod_bound(t as int, o.kernel_w as int);
            vstd::arithmetic::div_mod::lemma_div_pos_is_pos(t as int, o.kernel_w as int);
            assert(t as int / o.kernel_w as int <= t as int) by {
                vstd::arithmetic::div_mod::lemma_div_nonincreasing(
                    t as int,
                    o.kernel_w as int,
                );
            }
        }
        let kh = t / o.kernel_w as u64;
        let kw = t % o.kernel_w as u64;
        proof {
            assert(oh as int * o.stride_h as int <= 0x100000 * 0x100000 && kh as int
                * o.dilation_h as int <= 0x10000000000 * 0x100000) by {
                vstd::arithmetic::mul::lemma_mul_upper_bound(
                    oh as int,
                    0x100000,
                    o.stride_h as int,
                    0x100000,
                );
                vstd::arithmetic::mul::lemma_mul_upper_bound(
                    kh as int,
                    0x10000000000,
                    o.dilation_h as int,
                    0x100000,
                );
            }
            assert(ow as int * o.stride_w as int <= 0x100000 * 0x100000 && kw as int
                * o.dilation_w as int <= 0x10000000000 * 0x100000) by {
                vstd::arithmetic::mul::lemma_mul_upper_bound(
                    ow as int,
                    0x100000,
                    o.stride_w as int,
                    0x100000,
                );
                vstd::arithmetic::mul::lemma_mul_upper_bound(
                    kw as int,
                    0x10000000000,
                    o.dilation_w as int,
                    0x100000,
                );
            }
            vstd::arithmetic::mul::lemma_mul_nonnegative(oh as int, o.stride_h as int);
            vstd::arithmetic::mul::lemma_mul_nonnegative(kh as int, o.dilation_h as int);
            vstd::arithmetic::mul::lemma_mul_nonnegative(ow as int, o.stride_w as int);
            vstd::arithmetic::mul::lemma_mul_nonnegative(kw as int, o.dilation_w as int);
        }
        let ih = oh as u64 * o.stride_h as u64 + kh * o.dilation_h as u64;
        let iw = ow as u64 * o.stride_w as u64 + kw * o.dilation_w as u64;
        let within = ih >= o.padding_h as u64 && ih < in_shape[2] as u64 + o.padding_h as u64
            && iw >= o.padding_w as u64 && iw < in_shape[3] as u64 + o.padding_w as u64;
        if within {
            let ihp = (ih - o.padding_h as u64) as usize;
            let iwp = (iw - o.padding_w as u64) as usize;
            proof {
                lemma_offset4_bound(
                    in_shape@,
                    in_strides@,
                    b as int,
                    ch as int,
                    ihp as int,
                    iwp as int,
                );
                assert(0 <= ihp as int * in_strides@[2] as int <= 0x100000 * 0x10000000000) by {
                    vstd::arithmetic::mul::lemma_mul_nonnegative(
                        ihp as int,
                        in_strides@[2] as int,
                    );
                    vstd::arithmetic::mul::lemma_mul_upper_bound(
                        ihp as int,
                        0x100000,
                        in_strides@[2] as int,
                        0x10000000000,
                    );
                }
            }
            let off = b * in_strides[0] + ch * in_strides[1] + ihp * in_strides[2] + iwp
                * in_strides[3];
            let v = in_buf[off];
            let idx = (ihp as u64 * in_strides[2] as u64 + iwp as u64) as i64;
            match kind {
                PoolKind::Max => {
                    if v > acc_v {
                        acc_v = v;
                    }
                },
                PoolKind::MaxWithIndices => {
                    if v > acc_v {
                        acc_v = v;
                        acc_i = idx;
                    }
                },
                PoolKind::Avg => {
                    acc_v = acc_v + v;
                },
            }
            acc_c = acc_c + 1;
        }
        t = t + 1;
    }
    proof {
        lemma_pool_state_bounds(c, b as int, ch as int, oh as int, ow as int, win as int);
        assert(win as int * VAL_CAP as int <= WINDOW_CAP as int * VAL_CAP as int) by {
            vstd::arithmetic::mul::lemma_mul_inequality(
                win as int,
                WINDOW_CAP as int,
                VAL_CAP as int,
            );
        }
    }
    let out_v: i64 = match kind {
        PoolKind::Avg => div_toward_zero(acc_v, acc_c),
        _ => acc_v,
    };
    (out_v, acc_i)
}

/// Truncating division of a sum by a window count, with a zero guard.
fn div_toward_zero(sum: i64, count: u64) -> (r: i64)
    requires
        count <= i64::MAX,
        sum > i64::MIN,
    ensures
        r as int == spec_div_toward_zero(sum as int, count as int),
{
    if count == 0 {
        0
    } else if sum >= 0 {
        proof {
            vstd::arithmetic::div_mod::lemma_div_nonincreasing(sum as int, count as int);
            vstd::arithmetic::div_mod::lemma_div_pos_is_pos(sum as int, count as int);
        }
        ((sum as u64) / count) as i64
    } else {
        let mag = (-sum) as u64;
        proof {
            vstd::arithmetic::div_mod::lemma_div_nonincreasing(mag as int, count as int);
            vstd::arithmetic::div_mod::lemma_div_pos_is_pos(mag as int, count as int);
        }
        -((mag / count) as i64)
    }
}



/// The output shape of a fixed-window pooling: batch and channels kept,
/// the two spatial extents given by the windowed output-size formula.
pub open spec fn spec_pool2d_out_shape(in_shape: Seq<usize>, o: Pool2dOptions) -> Seq<usize> {
    seq![
        in_shape[0],
        in_shape[1],
        spec_conv_output_size(
            o.kernel_h as int,
            o.stride_h as int,
            o.padding_h as int,
            o.dilation_h as int,
            in_shape[2] as int,
        ) as usize,
        spec_conv_output_size(
            o.kernel_w as int,
            o.stride_w as int,
            o.padding_w as int,
            o.dilation_w as int,
            in_shape[3] as int,
        ) as usize,
    ]
}

/// The pooling context one launch reads, built from the client's state.
pub open spec fn spec_pool_ctx(
    input: TensorDesc,
    kind: PoolKind,
    o: Pool2dOptions,
    client: ComputeClient,
) -> PoolCtx {
    PoolCtx {
        in_vals: client.buffers@[input.buffer as int]@,
        in_shape: input.shape@,
        in_strides: input.strides@,
        kind,
        kernel_h: o.kernel_h,
        kernel_w: o.kernel_w,
        stride_h: o.stride_h,
        stride_w: o.stride_w,
        dilation_h: o.dilation_h,
        dilation_w: o.dilation_w,
        padding_h: o.padding_h,
        padding_w: o.padding_w,
    }
}

/// What a fixed-window pooling launch asks of its caller.
pub open spec fn pool2d_launch_pre(
    input: TensorDesc,
    kind: PoolKind,
    o: Pool2dOptions,
    client: ComputeClient,
) -> bool {
    let out_shape = spec_pool2d_out_shape(input.shape@, o);
    &&& client.well_formed()
    &&& desc_valid(input, client)
    &&& input.shape@.len() == 4
    &&& pool_exec_caps(spec_pool_ctx(input, kind, o, client))
    &&& o.stride_h >= 1
    &&& o.stride_w >= 1
    &&& input.shape@[2] + 2 * o.padding_h < usize::MAX
    &&& input.shape@[3] + 2 * o.padding_w < usize::MAX
    &&& input.shape@[2] + 2 * o.padding_h >= o.dilation_h * (o.kernel_h - 1) + 1
    &&& input.shape@[3] + 2 * o.padding_w >= o.dilation_w * (o.kernel_w - 1) + 1
    &&& o.kernel_h >= 1
    &&& o.kernel_w >= 1
    &&& out_shape[2] <= 0x100000
    &&& out_shape[3] <= 0x100000
    &&& forall|d: int| 0 <= d <= 4 ==> suffix_product(out_shape, d) <= usize::MAX
    &&& spec_numel(out_shape) <= MAX_LAUNCH_UNITS
}

/// Everything a fixed-window pooling launch promises: the windowed output
/// shape, a fresh contiguous value buffer (plus a fresh index buffer when
/// the strategy reports indices), and per element the strategy's fold over
/// the in-bounds window finalized.
pub open spec fn pool2d_launch_post(
    input: TensorDesc,
    kind: PoolKind,
    o: Pool2dOptions,
    pre: ComputeClient,
    post: ComputeClient,
    out: TensorDesc,
    indices: Option<TensorDesc>,
) -> bool {
    let c = spec_pool_ctx(input, kind, o, pre);
    let out_shape = spec_pool2d_out_shape(input.shape@, o);
    let n = spec_numel(out_shape);
    &&& post.well_formed()
    &&& post.device == pre.device
    &&& out.shape@ == out_shape
    &&& out.elem == input.elem
    &&& out.device == input.device
    &&& is_contiguous_layout(out.shape@, out.strides@)
    &&& desc_valid(out, post)
    &&& out.buffer == pre.buffers@.len()
    &&& (match indices {
        Some(ix) => {
            &&& kind.spec_reports_indices()
            &&& ix.buffer == pre.buffers@.len() + 1
            &&& ix.shape@ == out_shape
            &&& ix.device == input.device
            &&& is_contiguous_layout(ix.shape@, ix.strides@)
            &&& desc_valid(ix, post)
            &&& post.buffers@.len() == pre.buffers@.len() + 2
            &&& post.refs@ == pre.refs@.push(1).push(1)
            &&& post.buffers@[ix.buffer as int]@.len() == n
            &&& forall|i: int|
                0 <= i < n ==> post.buffers@[ix.buffer as int]@[i] as int == pool_output_at(
                    c,
                    crate::conv::out_coord(out_shape, i, 0),
                    crate::conv::out_coord(out_shape, i, 1),
                    crate::conv::out_coord(out_shape, i, 2),
                    crate::conv::out_coord(out_shape, i, 3),
                ).1
        },
        None => {
            &&& !kind.spec_reports_indices()
            &&& post.buffers@.len() == pre.buffers@.len() + 1
            &&& post.refs@ == pre.refs@.push(1)
        },
    })
    &&& forall|k: int| 0 <= k < pre.buffers@.len() ==> post.buffers@[k] == pre.buffers@[k]
    &&& post.buffers@[out.buffer as int]@.len() == n
    &&& forall|i: int|
        0 <= i < n ==> post.buffers@[out.buffer as int]@[i] as int == pool_output_at(
            c,
            crate::conv::out_coord(out_shape, i, 0),
            crate::conv::out_coord(out_shape, i, 1),
            crate::conv::out_coord(out_shape, i, 2),
            crate::conv::out_coord(out_shape, i, 3),
        ).0
    &&& post.launches@ == pre.launches@.push(
        (LaunchRecord {
            key: (KernelKey::Pool2d { strategy: kind, window_h: o.kernel_h, window_w: o.kernel_w }),
            plan: spec_elemwise_plan(n as int, 1),
        }),
    )
}

/// Launches one fixed-window pooling over a rank-4 tensor
/// `[batch, channels, height, width]`. Each output element folds the
/// strategy over its window, skipping positions outside the padded input;
/// the strategy and window extents are comptime parameters of the kernel's
/// cache identity. A strategy that reports indices gets a second fresh
/// buffer holding each element's winning plane-linear source index.
pub fn pool2d(client: &mut ComputeClient, input: TensorDesc, kind: PoolKind, o: Pool2dOptions) -> (r: (
    TensorDesc,
    Option<TensorDesc>,
))
    requires
        pool2d_launch_pre(input, kind, o, *old(client)),
    ensures
        pool2d_launch_post(input, kind, o, *old(client), *final(client), r.0, r.1),
{
    let ghost c = spec_pool_ctx(input, kind, o, *old(client));
    let out_h = calculate_conv_output_size(
        o.kernel_h,
        o.stride_h,
        o.padding_h,
        o.dilation_h,
        input.shape[2],
    );
    let out_w = calculate_conv_output_size(
        o.kernel_w,
        o.stride_w,
        o.padding_w,
        o.dilation_w,
        input.shape[3],
    );
    let mut out_shape: Vec<usize> = Vec::new();
    out_shape.push(input.shape[0]);
    out_shape.push(input.shape[1]);
    out_shape.push(out_h);
    out_shape.push(out_w);
    proof {
        assert(out_shape@ =~= spec_pool2d_out_shape(input.shape@, o));
    }
    let out_strides = contiguous_strides(&out_shape);
    let n = numel(&out_shape);
    let plan = make_elemwise_plan(n as u64, 1);
    let in_buf = client.buffer(input.buffer);
    let mut vals: Vec<i64> = Vec::new();
    let mut idxs: Vec<i64> = Vec::new();
    let mut i: usize = 0;
    proof {
        if n > 0 {
            lemma_suffix_product_positive(out_shape@, 0);
            assert forall|e: int| 0 <= e < 4 implies #[trigger] out_strides@[e] >= 1 by {
                lemma_positive_dims_numel(out_shape@, e + 1);
            }
        }
    }
    while i < n
        invariant
            i <= n,
            vals@.len() == i,
            idxs@.len() == i,
            out_shape@.len() == 4,
            out_shape@ == spec_pool2d_out_shape(input.shape@, o),
            is_contiguous_layout(out_shape@, out_strides@),
            c == (PoolCtx {
                in_vals: in_buf@,
                in_shape: input.shape@,
                in_strides: input.strides@,
                kind,
                kernel_h: o.kernel_h,
                kernel_w: o.kernel_w,
                stride_h: o.stride_h,
                stride_w: o.stride_w,
                dilation_h: o.dilation_h,
                dilation_w: o.dilation_w,
                padding_h: o.padding_h,
                padding_w: o.padding_w,
            }),
            pool_exec_caps(c),
            input.shape@.len() == 4,
            n > 0 ==> forall|e: int| 0 <= e < 4 ==> #[trigger] out_strides@[e] >= 1,
            n > 0 ==> forall|e: int| 0 <= e < 4 ==> #[trigger] out_shape@[e] >= 1,
            out_shape@[0] == input.shape@[0],
            out_shape@[1] == input.shape@[1],
            out_shape@[2] <= 0x100000,
            out_shape@[3] <= 0x100000,
            forall|k: int|
                0 <= k < i ==> vals@[k] as int == pool_output_at(
                    c,
                    crate::conv::out_coord(out_shape@, k, 0),
                    crate::conv::out_coord(out_shape@, k, 1),
                    crate::conv::out_coord(out_shape@, k, 2),
                    crate::conv::out_coord(out_shape@, k, 3),
                ).0,
            forall|k: int|
                0 <= k < i ==> idxs@[k] as int == pool_output_at(
                    c,
                    crate::conv::out_coord(out_shape@, k, 0),
                    crate::conv::out_coord(out_shape@, k, 1),
                    crate::conv::out_coord(out_shape@, k, 2),
                    crate::conv::out_coord(out_shape@, k, 3),
                ).1,
        decreases n - i,
    {
        proof {
            vstd::arithmetic::div_mod::lemma_mod_bound(
                i as int / out_strides@[0] as int,
                out_shape@[0] as int,
            );
            vstd::arithmetic::div_mod::lemma_mod_bound(
                i as int / out_strides@[1] as int,
                out_shape@[1] as int,
            );
            vstd::arithmetic::div_mod::lemma_mod_bound(
                i as int / out_strides@[2] as int,
                out_shape@[2] as int,
            );
            vstd::arithmetic::div_mod::lemma_mod_bound(
                i as int / out_strides@[3] as int,
                out_shape@[3] as int,
            );
        }
        let b = (i / out_strides[0]) % out_shape[0];
        let ch = (i / out_strides[1]) % out_shape[1];
        let oh = (i / out_strides[2]) % out_shape[2];
        let ow = (i / out_strides[3]) % out_shape[3];
        let (v, idx) = pool2d_unit(in_buf, &input.shape, &input.strides, kind, o, b, ch, oh, ow);
        vals.push(v);
        idxs.push(idx);
        i = i + 1;
    }
    let out_buffer = client.allocate(n);
    client.install(out_buffer, vals);
    let indices = if kind.reports_indices() {
        let idx_buffer = client.allocate(n);
        client.install(idx_buffer, idxs);
        let idx_strides = contiguous_strides(&out_shape);
        let idx_shape = crate::descriptor::copy_dims(&out_shape);
        proof {
            if n > 0 {
                lemma_contiguous_max_index(idx_shape@, idx_strides@, 0);
            }
        }
        Some(
            TensorDesc {
                shape: idx_shape,
                strides: idx_strides,
                buffer: idx_buffer,
                device: input.device,
                elem: ElemKind::Int32,
            },
        )
    } else {
        None
    };
    client.submit(
        LaunchRecord {
            key: KernelKey::Pool2d { strategy: kind, window_h: o.kernel_h, window_w: o.kernel_w },
            plan,
        },
    );
    let out = TensorDesc {
        shape: out_shape,
        strides: out_strides,
        buffer: out_buffer,
        device: input.device,
        elem: input.elem,
    };
    proof {
        if n > 0 {
            lemma_contiguous_max_index(out.shape@, out.strides@, 0);
        }
    }
    (out, indices)
}



/// Everything one adaptive pooling launch reads.
pub ghost struct AdaptiveCtx {
    pub in_vals: Seq<i64>,
    pub in_shape: Seq<usize>,
    pub in_strides: Seq<usize>,
    pub out_h: usize,
    pub out_w: usize,
}

/// First input position of the adaptive window of output position `o`:
/// `floor(o * in / out)`.
pub open spec fn adaptive_start(o: int, out_size: int, in_size: int) -> int {
    (o * in_size) / out_size
}

/// One-past-last input position of the adaptive window of output position
/// `o`: `ceil((o + 1) * in / out)`, clamped to the input extent.
pub open spec fn adaptive_end(o: int, out_size: int, in_size: int) -> int {
    let e = crate::grid::spec_ceil_div((o + 1) * in_size, out_size);
    if e <= in_size {
        e
    } else {
        in_size
    }
}

/// Linear input offset of `[b, ch, ih, iw]` through the input's strides.
pub open spec fn adaptive_offset(c: AdaptiveCtx, b: int, ch: int, ih: int, iw: int) -> int {
    b * c.in_strides[0] + ch * c.in_strides[1] + ih * c.in_strides[2] + iw * c.in_strides[3]
}

/// Sum of the first `t_n` window elements, the window linearized row by
/// row over a width of `dw`.
pub open spec fn adaptive_sum(
    c: AdaptiveCtx,
    b: int,
    ch: int,
    hs: int,
    ws: int,
    dw: int,
    t_n: int,
) -> int
    decreases t_n,
{
    if t_n <= 0 {
        0
    } else {
        adaptive_sum(c, b, ch, hs, ws, dw, t_n - 1) + c.in_vals[adaptive_offset(
            c,
            b,
            ch,
            hs + (t_n - 1) / dw,
            ws + (t_n - 1) % dw,
        )] as int
    }
}

/// The value output element `(b, ch, oh, ow)` of adaptive average pooling
/// holds: the window sum divided by the window's true element count, so
/// border windows of differing sizes are normalized correctly.
pub open spec fn adaptive_output_at(c: AdaptiveCtx, b: int, ch: int, oh: int, ow: int) -> int {
    let hs = adaptive_start(oh, c.out_h as int, c.in_shape[2] as int);
    let he = adaptive_end(oh, c.out_h as int, c.in_shape[2] as int);
    let ws = adaptive_start(ow, c.out_w as int, c.in_shape[3] as int);
    let we = adaptive_end(ow, c.out_w as int, c.in_shape[3] as int);
    if he <= hs || we <= ws {
        0
    } else {
        let cnt = (he - hs) * (we - ws);
        spec_div_toward_zero(adaptive_sum(c, b, ch, hs, ws, we - ws, cnt), cnt)
    }
}

/// The window sum reads only in-range elements and is bounded by the step
/// count times the value cap.
proof fn lemma_adaptive_sum_bound(
    c: AdaptiveCtx,
    b: int,
    ch: int,
    hs: int,
    he: int,
    ws: int,
    we: int,
    t_n: int,
)
    requires
        c.in_shape.len() == 4,
        c.in_strides.len() == 4,
        bounded_vals(c.in_vals, VAL_CAP as int),
        max_linear_index(c.in_shape, c.in_strides) < c.in_vals.len(),
        0 <= b < c.in_shape[0],
        0 <= ch < c.in_shape[1],
        0 <= hs < he <= c.in_shape[2],
        0 <= ws < we <= c.in_shape[3],
        0 <= t_n <= (he - hs) * (we - ws),
    ensures
        -(t_n * VAL_CAP as int) <= adaptive_sum(c, b, ch, hs, ws, we - ws, t_n) <= t_n * VAL_CAP
            as int,
    decreases t_n,
{
    if t_n > 0 {
        lemma_adaptive_sum_bound(c, b, ch, hs, he, ws, we, t_n - 1);
        let t = t_n - 1;
        let dw = we - ws;
        let dh = he - hs;
        assert(0 <= t % dw < dw) by {
            vstd::arithmetic::div_mod::lemma_mod_bound(t, dw);
        }
        assert(0 <= t / dw) by {
            vstd::arithmetic::div_mod::lemma_div_pos_is_pos(t, dw);
        }
        assert(t / dw < dh) by {
            assert(t < dw * dh) by {
                vstd::arithmetic::mul::lemma_mul_is_commutative(dh, dw);
            }
            vstd::arithmetic::div_mod::lemma_multiply_divide_lt(t, dw, dh);
        }
        lemma_offset4_bound(c.in_shape, c.in_strides, b, ch, hs + t / dw, ws + t % dw);
        assert((t_n - 1) * VAL_CAP as int + VAL_CAP as int == t_n * VAL_CAP as int) by {
            vstd::arithmetic::mul::lemma_mul_is_distributive_sub_other_way(
                VAL_CAP as int,
                t_n,
                1,
            );
        }
    }
}

/// One work unit of the adaptive average pooling kernel: derives its
/// window bounds from its output position, sums the window and divides by
/// the window's element count.
fn adaptive_avg_pool2d_unit(
    in_buf: &Vec<i64>,
    in_shape: &Vec<usize>,
    in_strides: &Vec<usize>,
    out_h: usize,
    out_w: usize,
    b: usize,
    ch: usize,
    oh: usize,
    ow: usize,
) -> (v: i64)
    requires
        in_shape@.len() == 4,
        in_strides@.len() == 4,
        bounded_vals(in_buf@, VAL_CAP as int),
        crate::descriptor::layout_fits(in_shape@, in_strides@, in_buf@.len() as int),
        in_shape@[2] <= 0x100000,
        in_shape@[3] <= 0x100000,
        out_h >= 1,
        out_w >= 1,
        out_h <= 0x100000,
        out_w <= 0x100000,
        oh < out_h,
        ow < out_w,
        b < in_shape@[0],
        ch < in_shape@[1],
    ensures
        ({
            let c = AdaptiveCtx {
                in_vals: in_buf@,
                in_shape: in_shape@,
                in_strides: in_strides@,
                out_h,
                out_w,
            };
            v as int == adaptive_output_at(c, b as int, ch as int, oh as int, ow as int)
        }),
{
    let ghost c = AdaptiveCtx {
        in_vals: in_buf@,
        in_shape: in_shape@,
        in_strides: in_strides@,
        out_h,
        out_w,
    };
    let in_len = in_buf.len();
    proof {
        vstd::arithmetic::mul::lemma_mul_upper_bound(
            oh as int,
            0x100000,
            in_shape@[2] as int,
            0x100000,
        );
        vstd::arithmetic::mul::lemma_mul_upper_bound(
            oh as int + 1,
            0x100001,
            in_shape@[2] as int,
            0x100000,
        );
        vstd::arithmetic::mul::lemma_mul_upper_bound(
            ow as int,
            0x100000,
            in_shape@[3] as int,
            0x100000,
        );
        vstd::arithmetic::mul::lemma_mul_upper_bound(
            ow as int + 1,
            0x100001,
            in_shape@[3] as int,
            0x100000,
        );
        vstd::arithmetic::mul::lemma_mul_nonnegative(oh as int, in_shape@[2] as int);
        vstd::arithmetic::mul::lemma_mul_nonnegative(ow as int, in_shape@[3] as int);
        vstd::arithmetic::mul::lemma_mul_nonnegative(oh as int + 1, in_shape@[2] as int);
        vstd::arithmetic::mul::lemma_mul_nonnegative(ow as int + 1, in_shape@[3] as int);
    }
    let hs64 = (oh as u64 * in_shape[2] as u64) / out_h as u64;
    let he_raw = crate::grid::ceil_div((oh as u64 + 1) * in_shape[2] as u64, out_h as u64);
    let he64 = if he_raw <= in_shape[2] as u64 {
        he_raw
    } else {
        in_shape[2] as u64
    };
    let ws64 = (ow as u64 * in_shape[3] as u64) / out_w as u64;
    let we_raw = crate::grid::ceil_div((ow as u64 + 1) * in_shape[3] as u64, out_w as u64);
    let we64 = if we_raw <= in_shape[3] as u64 {
        we_raw
    } else {
        in_shape[3] as u64
    };
    proof {
        assert(hs64 as int == adaptive_start(oh as int, out_h as int, in_shape@[2] as int));
        assert(he64 as int == adaptive_end(oh as int, out_h as int, in_shape@[2] as int));
        assert(ws64 as int == adaptive_start(ow as int, out_w as int, in_shape@[3] as int));
        assert(we64 as int == adaptive_end(ow as int, out_w as int, in_shape@[3] as int));
        vstd::arithmetic::div_mod::lemma_div_pos_is_pos(
            oh as int * in_shape@[2] as int,
            out_h as int,
        );
        vstd::arithmetic::div_mod::lemma_div_pos_is_pos(
            ow as int * in_shape@[3] as int,
            out_w as int,
        );
    }
    if he64 <= hs64 || we64 <= ws64 {
        return 0;
    }
    let hs = hs64 as usize;
    let he = he64 as usize;
    let ws = ws64 as usize;
    let we = we64 as usize;
    let dh = (he - hs) as u64;
    let dw = (we - ws) as u64;
    proof {
        vstd::arithmetic::mul::lemma_mul_upper_bound(dh as int, 0x100000, dw as int, 0x100000);
        vstd::arithmetic::mul::lemma_mul_strictly_positive(dh as int, dw as int);
    }
    let cnt = dh * dw;
    let mut acc: i64 = 0;
    let mut t: u64 = 0;
    proof {
        assert(in_shape@[0] >= 1 && in_shape@[1] >= 1 && in_shape@[2] >= 1 && in_shape@[3] >= 1);
        lemma_positive_dims_numel(in_shape@, 0);
        lemma_adaptive_sum_bound(
            c,
            b as int,
            ch as int,
            hs as int,
            he as int,
            ws as int,
            we as int,
            0,
        );
    }
    while t < cnt
        invariant
            t <= cnt,
            cnt == dh as int * dw as int,
            cnt <= 0x10000000000,
            dh == he - hs,
            dw == we - ws,
            0 <= hs < he <= in_shape@[2],
            0 <= ws < we <= in_shape@[3],
            in_shape@.len() == 4,
            in_strides@.len() == 4,
            bounded_vals(in_buf@, VAL_CAP as int),
            max_linear_index(in_shape@, in_strides@) < in_buf@.len(),
            in_len == in_buf@.len(),
            b < in_shape@[0],
            ch < in_shape@[1],
            in_shape@[2] <= 0x100000,
            in_shape@[3] <= 0x100000,
            c == (AdaptiveCtx {
                in_vals: in_buf@,
                in_shape: in_shape@,
                in_strides: in_strides@,
                out_h,
                out_w,
            }),
            acc as int == adaptive_sum(
                c,
                b as int,
                ch as int,
                hs as int,
                ws as int,
                dw as int,
                t as int,
            ),
        decreases cnt - t,
    {
        proof {
            lemma_adaptive_sum_bound(
                c,
                b as int,
                ch as int,
                hs as int,
                he as int,
                ws as int,
                we as int,
                t as int,
            );
            lemma_adaptive_sum_bound(
                c,
                b as int,
                ch as int,
                hs as int,
                he as int,
                ws as int,
                we as int,
                t as int + 1,
            );
            assert((t as int + 1) * VAL_CAP as int <= (0x10000000000int) * VAL_CAP as int && t
                as int * VAL_CAP as int <= (0x10000000000int) * VAL_CAP as int) by {
                assert(cnt as int <= 0x10000000000int);
                vstd::arithmetic::mul::lemma_mul_inequality(
                    t as int,
                    0x10000000000int,
                    VAL_CAP as int,
                );
                vstd::arithmetic::mul::lemma_mul_inequality(
                    t as int + 1,
                    0x10000000000int,
                    VAL_CAP as int,
                );
            }
            assert(0 <= (t as int % dw as int) && (t as int % dw as int) < dw as int) by {
                vstd::arithmetic::div_mod::lemma_mod_bound(t as int, dw as int);
            }
            assert(0 <= (t as int / dw as int)) by {
                vstd::arithmetic::div_mod::lemma_div_pos_is_pos(t as int, dw as int);
            }
            assert((t as int / dw as int) < dh as int) by {
                assert((t as int) < (dw as int) * (dh as int)) by {
                    vstd::arithmetic::mul::lemma_mul_is_commutative(dh as int, dw as int);
                }
                vstd::arithmetic::div_mod::lemma_multiply_divide_lt(
                    t as int,
                    dw as int,
                    dh as int,
                );
            }
            lemma_offset4_bound(
                in_shape@,
                in_strides@,
                b as int,
                ch as int,
                hs as int + t as int / dw as int,
                ws as int + t as int % dw as int,
            );
        }
        let ih = hs + (t / dw) as usize;
        let iw = ws + (t % dw) as usize;
        let off = b * in_strides[0] + ch * in_strides[1] + ih * in_strides[2] + iw
            * in_strides[3];
        acc = acc + in_buf[off];
        t = t + 1;
    }
    proof {
        lemma_adaptive_sum_bound(
            c,
            b as int,
            ch as int,
            hs as int,
            he as int,
            ws as int,
            we as int,
            cnt as int,
        );
        assert(cnt as int * VAL_CAP as int <= 0x10000000000int * VAL_CAP as int) by {
            vstd::arithmetic::mul::lemma_mul_inequality(
                cnt as int,
                0x10000000000int,
                VAL_CAP as int,
            );
        }
    }
    div_toward_zero(acc, cnt)
}



/// The adaptive context one launch reads, built from the client's state.
pub open spec fn spec_adaptive_ctx(
    input: TensorDesc,
    out_h: usize,
    out_w: usize,
    client: ComputeClient,
) -> AdaptiveCtx {
    AdaptiveCtx {
        in_vals: client.buffers@[input.buffer as int]@,
        in_shape: input.shape@,
        in_strides: input.strides@,
        out_h,
        out_w,
    }
}

/// The output shape of adaptive pooling: batch and channels kept, the
/// requested spatial extents.
pub open spec fn spec_adaptive_out_shape(in_shape: Seq<usize>, out_h: usize, out_w: usize) -> Seq<
    usize,
> {
    seq![in_shape[0], in_shape[1], out_h, out_w]
}

/// What an adaptive average pooling launch asks of its caller.
pub open spec fn adaptive_pool_launch_pre(
    input: TensorDesc,
    out_h: usize,
    out_w: usize,
    client: ComputeClient,
) -> bool {
    let out_shape = spec_adaptive_out_shape(input.shape@, out_h, out_w);
    &&& client.well_formed()
    &&& desc_valid(input, client)
    &&& input.shape@.len() == 4
    &&& input.shape@[2] <= 0x100000
    &&& input.shape@[3] <= 0x100000
    &&& out_h <= 0x100000
    &&& out_w <= 0x100000
    &&& bounded_vals(client.buffers@[input.buffer as int]@, VAL_CAP as int)
    &&& forall|d: int| 0 <= d <= 4 ==> suffix_product(out_shape, d) <= usize::MAX
    &&& spec_numel(out_shape) <= MAX_LAUNCH_UNITS
}

/// Everything an adaptive average pooling launch promises: a fresh
/// contiguous output whose every element is its own window's sum divided
/// by that window's element count.
pub open spec fn adaptive_pool_launch_post(
    input: TensorDesc,
    out_h: usize,
    out_w: usize,
    pre: ComputeClient,
    post: ComputeClient,
    out: TensorDesc,
) -> bool {
    let c = spec_adaptive_ctx(input, out_h, out_w, pre);
    let out_shape = spec_adaptive_out_shape(input.shape@, out_h, out_w);
    let n = spec_numel(out_shape);
    &&& post.well_formed()
    &&& post.device == pre.device
    &&& out.shape@ == out_shape
    &&& out.elem == input.elem
    &&& out.device == input.device
    &&& is_contiguous_layout(out.shape@, out.strides@)
    &&& desc_valid(out, post)
    &&& out.buffer == pre.buffers@.len()
    &&& post.buffers@.len() == pre.buffers@.len() + 1
    &&& post.refs@ == pre.refs@.push(1)
    &&& forall|k: int| 0 <= k < pre.buffers@.len() ==> post.buffers@[k] == pre.buffers@[k]
    &&& post.buffers@[out.buffer as int]@.len() == n
    &&& forall|i: int|
        0 <= i < n ==> post.buffers@[out.buffer as int]@[i] as int == adaptive_output_at(
            c,
            crate::conv::out_coord(out_shape, i, 0),
            crate::conv::out_coord(out_shape, i, 1),
            crate::conv::out_coord(out_shape, i, 2),
            crate::conv::out_coord(out_shape, i, 3),
        )
    &&& post.launches@ == pre.launches@.push(
        (LaunchRecord {
            key: KernelKey::AdaptiveAvgPool2d,
            plan: spec_elemwise_plan(n as int, 1),
        }),
    )
}

/// Launches adaptive average pooling of a rank-4 tensor to the requested
/// spatial output size. Each output element averages its own window,
/// whose bounds are derived from the output position, over the window's
/// true element count, so windows of differing sizes at non-divisible
/// boundaries are each normalized by their own size.
pub fn adaptive_avg_pool2d(
    client: &mut ComputeClient,
    input: TensorDesc,
    output_size_h: usize,
    output_size_w: usize,
) -> (out: TensorDesc)
    requires
        adaptive_pool_launch_pre(input, output_size_h, output_size_w, *old(client)),
    ensures
        adaptive_pool_launch_post(
            input,
            output_size_h,
            output_size_w,
            *old(client),
            *final(client),
            out,
        ),
{
    let ghost c = spec_adaptive_ctx(input, output_size_h, output_size_w, *old(client));
    let mut out_shape: Vec<usize> = Vec::new();
    out_shape.push(input.shape[0]);
    out_shape.push(input.shape[1]);
    out_shape.push(output_size_h);
    out_shape.push(output_size_w);
    proof {
        assert(out_shape@ =~= spec_adaptive_out_shape(input.shape@, output_size_h, output_size_w));
    }
    let out_strides = contiguous_strides(&out_shape);
    let n = numel(&out_shape);
    let plan = make_elemwise_plan(n as u64, 1);
    let in_buf = client.buffer(input.buffer);
    let mut vals: Vec<i64> = Vec::new();
    let mut i: usize = 0;
    proof {
        if n > 0 {
            lemma_suffix_product_positive(out_shape@, 0);
            assert forall|e: int| 0 <= e < 4 implies #[trigger] out_strides@[e] >= 1 by {
                lemma_positive_dims_numel(out_shape@, e + 1);
            }
        }
    }
    while i < n
        invariant
            i <= n,
            vals@.len() == i,
            out_shape@.len() == 4,
            out_shape@ == spec_adaptive_out_shape(input.shape@, output_size_h, output_size_w),
            is_contiguous_layout(out_shape@, out_strides@),
            c == (AdaptiveCtx {
                in_vals: in_buf@,
                in_shape: input.shape@,
                in_strides: input.strides@,
                out_h: output_size_h,
                out_w: output_size_w,
            }),
            input.shape@.len() == 4,
            input.strides@.len() == 4,
            input.shape@[2] <= 0x100000,
            input.shape@[3] <= 0x100000,
            output_size_h <= 0x100000,
            output_size_w <= 0x100000,
            bounded_vals(in_buf@, VAL_CAP as int),
            crate::descriptor::layout_fits(input.shape@, input.strides@, in_buf@.len() as int),
            n > 0 ==> forall|e: int| 0 <= e < 4 ==> #[trigger] out_strides@[e] >= 1,
            n > 0 ==> forall|e: int| 0 <= e < 4 ==> #[trigger] out_shape@[e] >= 1,
            out_shape@[0] == input.shape@[0],
            out_shape@[1] == input.shape@[1],
            out_shape@[2] == output_size_h,
            out_shape@[3] == output_size_w,
            forall|k: int|
                0 <= k < i ==> vals@[k] as int == adaptive_output_at(
                    c,
                    crate::conv::out_coord(out_shape@, k, 0),
                    crate::conv::out_coord(out_shape@, k, 1),
                    crate::conv::out_coord(out_shape@, k, 2),
                    crate::conv::out_coord(out_shape@, k, 3),
                ),
        decreases n - i,
    {
        proof {
            vstd::arithmetic::div_mod::lemma_mod_bound(
                i as int / out_strides@[0] as int,
                out_shape@[0] as int,
            );
            vstd::arithmetic::div_mod::lemma_mod_bound(
                i as int / out_strides@[1] as int,
                out_shape@[1] as int,
            );
            vstd::arithmetic::div_mod::lemma_mod_bound(
                i as int / out_strides@[2] as int,
                out_shape@[2] as int,
            );
            vstd::arithmetic::div_mod::lemma_mod_bound(
                i as int / out_strides@[3] as int,
                out_shape@[3] as int,
            );
        }
        let b = (i / out_strides[0]) % out_shape[0];
        let ch = (i / out_strides[1]) % out_shape[1];
        let oh = (i / out_strides[2]) % out_shape[2];
        let ow = (i / out_strides[3]) % out_shape[3];
        let v = adaptive_avg_pool2d_unit(
            in_buf,
            &input.shape,
            &input.strides,
            output_size_h,
            output_size_w,
            b,
            ch,
            oh,
            ow,
        );
        vals.push(v);
        i = i + 1;
    }
    let out_buffer = client.allocate(n);
    client.install(out_buffer, vals);
    client.submit(LaunchRecord { key: KernelKey::AdaptiveAvgPool2d, plan });
    let out = TensorDesc {
        shape: out_shape,
        strides: out_strides,
        buffer: out_buffer,
        device: input.device,
        elem: input.elem,
    };
    proof {
        if n > 0 {
            lemma_contiguous_max_index(out.shape@, out.strides@, 0);
        }
    }
    out
}


} // verus!
