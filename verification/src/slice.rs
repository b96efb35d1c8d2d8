//! Strided sub-range copy: a per-dimension start offset is added to each
//! logical coordinate before projecting into the source. Pure index
//! translation, no accumulation.

use vstd::prelude::*;

use crate::client::{desc_valid, ComputeClient, LaunchRecord};
use crate::comptime::KernelKey;
use crate::descriptor::{
    contiguous_strides, copy_vals, is_contiguous_layout, lemma_contiguous_max_index,
    lemma_positive_dims_numel, lemma_suffix_product_monotone, lemma_suffix_product_positive,
    max_linear_index, max_linear_index_from, numel, spec_numel, suffix_product, TensorDesc,
};
use crate::grid::{make_elemwise_plan, spec_elemwise_plan, MAX_LAUNCH_UNITS};

verus! {

/// Linear source offset of output element `i`: per dimension, the logical
/// coordinate recovered from the output layout, advanced by the range
/// start, then projected along the source stride. Summed over dimensions
/// `d..rank`.
pub open spec fn slice_src_offset_from(
    i: int,
    out_strides: Seq<usize>,
    out_shape: Seq<usize>,
    src_strides: Seq<usize>,
    starts: Seq<usize>,
    d: int,
) -> int
    decreases out_shape.len() - d,
{
    if d >= out_shape.len() {
        0
    } else {
        ((i / out_strides[d] as int) % out_shape[d] as int + starts[d]) * src_strides[d]
            + slice_src_offset_from(i, out_strides, out_shape, src_strides, starts, d + 1)
    }
}

/// Linear source offset of output element `i` of a slice.
pub open spec fn slice_src_offset(
    i: int,
    out_strides: Seq<usize>,
    out_shape: Seq<usize>,
    src_strides: Seq<usize>,
    starts: Seq<usize>,
) -> int {
    slice_src_offset_from(i, out_strides, out_shape, src_strides, starts, 0)
}

/// The translated offset stays within what the source layout addresses,
/// provided every range fits its source extent.
proof fn lemma_slice_offset_bounds(
    i: int,
    out_strides: Seq<usize>,
    out_shape: Seq<usize>,
    src_shape: Seq<usize>,
    src_strides: Seq<usize>,
    starts: Seq<usize>,
    d: int,
)
    requires
        0 <= d <= out_shape.len(),
        out_strides.len() == out_shape.len(),
        src_strides.len() == out_shape.len(),
        src_shape.len() == out_shape.len(),
        starts.len() == out_shape.len(),
        all_dims_positive_slice(out_shape, src_shape, starts),
    ensures
        0 <= slice_src_offset_from(i, out_strides, out_shape, src_strides, starts, d)
            <= max_linear_index_from(src_shape, src_strides, d),
    decreases out_shape.len() - d,
{
    if d < out_shape.len() {
        let c = (i / out_strides[d] as int) % out_shape[d] as int + starts[d];
        assert(0 <= c <= src_shape[d] - 1) by {
            vstd::arithmetic::div_mod::lemma_mod_bound(
                i / out_strides[d] as int,
                out_shape[d] as int,
            );
        }
        assert(0 <= c * src_strides[d]) by {
            vstd::arithmetic::mul::lemma_mul_nonnegative(c, src_strides[d] as int);
        }
        assert(c * src_strides[d] <= (src_shape[d] - 1) * src_strides[d]) by {
            vstd::arithmetic::mul::lemma_mul_inequality(
                c,
                src_shape[d] - 1,
                src_strides[d] as int,
            );
        }
        lemma_slice_offset_bounds(i, out_strides, out_shape, src_shape, src_strides, starts, d + 1);
    }
}

/// Every output extent is positive and every range lies inside its source
/// extent.
pub open spec fn all_dims_positive_slice(
    out_shape: Seq<usize>,
    src_shape: Seq<usize>,
    starts: Seq<usize>,
) -> bool {
    forall|d: int|
        0 <= d < out_shape.len() ==> out_shape[d] >= 1 && starts[d] + out_shape[d]
            <= src_shape[d]
}

/// The slice kernel: unit `i` copies the source element whose coordinates
/// are `i`'s output coordinates shifted by the range starts.
fn run_slice_kernel(
    in_buf: &Vec<i64>,
    src_shape: &Vec<usize>,
    src_strides: &Vec<usize>,
    out_shape: &Vec<usize>,
    out_strides: &Vec<usize>,
    starts: &Vec<usize>,
    n: usize,
    dest: Vec<i64>,
) -> (out: Vec<i64>)
    requires
        out_strides@.len() == out_shape@.len(),
        src_strides@.len() == out_shape@.len(),
        src_shape@.len() == out_shape@.len(),
        starts@.len() == out_shape@.len(),
        dest@.len() >= n,
        n > 0 ==> all_dims_positive_slice(out_shape@, src_shape@, starts@),
        n > 0 ==> forall|d: int| 0 <= d < out_strides@.len() ==> out_strides@[d] >= 1,
        n > 0 ==> max_linear_index(src_shape@, src_strides@) < in_buf@.len(),
    ensures
        out@.len() == dest@.len(),
        forall|i: int|
            0 <= i < n ==> out@[i] == in_buf@[slice_src_offset(
                i,
                out_strides@,
                out_shape@,
                src_strides@,
                starts@,
            )],
        forall|i: int| n <= i < dest@.len() ==> out@[i] == dest@[i],
{
    let mut out = dest;
    let mut i: usize = 0;
    while i < n
        invariant
            i <= n,
            out@.len() == dest@.len(),
            n <= dest@.len(),
            out_strides@.len() == out_shape@.len(),
            src_strides@.len() == out_shape@.len(),
            src_shape@.len() == out_shape@.len(),
            starts@.len() == out_shape@.len(),
            n > 0 ==> all_dims_positive_slice(out_shape@, src_shape@, starts@),
            n > 0 ==> forall|d: int| 0 <= d < out_strides@.len() ==> out_strides@[d] >= 1,
            n > 0 ==> max_linear_index(src_shape@, src_strides@) < in_buf@.len(),
            forall|k: int|
                0 <= k < i ==> out@[k] == in_buf@[slice_src_offset(
                    k,
                    out_strides@,
                    out_shape@,
                    src_strides@,
                    starts@,
                )],
            forall|k: int| n <= k < dest@.len() ==> out@[k] == dest@[k],
        decreases n - i,
    {
        let off = slice_offset_exec(i, out_strides, out_shape, src_shape, src_strides, starts, in_buf);
        let v = in_buf[off];
        out.set(i, v);
        i = i + 1;
    }
    out
}

/// Computes the translated source offset of output element `i`.
fn slice_offset_exec(
    i: usize,
    out_strides: &Vec<usize>,
    out_shape: &Vec<usize>,
    src_shape: &Vec<usize>,
    src_strides: &Vec<usize>,
    starts: &Vec<usize>,
    in_buf: &Vec<i64>,
) -> (off: usize)
    requires
        out_strides@.len() == out_shape@.len(),
        src_shape@.len() == out_shape@.len(),
        src_strides@.len() == out_shape@.len(),
        starts@.len() == out_shape@.len(),
        forall|d: int| 0 <= d < out_strides@.len() ==> out_strides@[d] >= 1,
        all_dims_positive_slice(out_shape@, src_shape@, starts@),
        max_linear_index(src_shape@, src_strides@) < in_buf@.len(),
    ensures
        off == slice_src_offset(i as int, out_strides@, out_shape@, src_strides@, starts@),
        off < in_buf@.len(),
{
    // The buffer length is a usize, which bounds every offset it admits.
    let in_len = in_buf.len();
    let ghost src_shape = src_shape@;
    proof {
        lemma_slice_offset_bounds(
            i as int,
            out_strides@,
            out_shape@,
            src_shape,
            src_strides@,
            starts@,
            0,
        );
    }
    let rank = out_shape.len();
    let mut acc: usize = 0;
    let mut d: usize = 0;
    while d < rank
        invariant
            d <= rank,
            rank == out_shape@.len(),
            out_strides@.len() == rank,
            src_strides@.len() == rank,
            starts@.len() == rank,
            forall|e: int| 0 <= e < rank ==> out_strides@[e] >= 1,
            src_shape.len() == rank,
            all_dims_positive_slice(out_shape@, src_shape, starts@),
            max_linear_index(src_shape, src_strides@) < in_buf@.len(),
            in_buf@.len() <= usize::MAX,
            acc + slice_src_offset_from(
                i as int,
                out_strides@,
                out_shape@,
                src_strides@,
                starts@,
                d as int,
            ) == slice_src_offset(i as int, out_strides@, out_shape@, src_strides@, starts@),
            slice_src_offset(i as int, out_strides@, out_shape@, src_strides@, starts@)
                <= max_linear_index(src_shape, src_strides@),
            acc <= max_linear_index(src_shape, src_strides@),
        decreases rank - d,
    {
        proof {
            lemma_slice_offset_bounds(
                i as int,
                out_strides@,
                out_shape@,
                src_shape,
                src_strides@,
                starts@,
                d as int,
            );
            lemma_slice_offset_bounds(
                i as int,
                out_strides@,
                out_shape@,
                src_shape,
                src_strides@,
                starts@,
                d as int + 1,
            );
            vstd::arithmetic::div_mod::lemma_mod_bound(
                i as int / out_strides@[d as int] as int,
                out_shape@[d as int] as int,
            );
        }
        let q = i / out_strides[d];
        let c = q % out_shape[d];
        let shifted = c + starts[d];
        assert(shifted * src_strides@[d as int] <= (src_shape[d as int] - 1) * src_strides@[d as int])
            by {
            vstd::arithmetic::mul::lemma_mul_inequality(
                shifted as int,
                src_shape[d as int] - 1,
                src_strides@[d as int] as int,
            );
        }
        assert(shifted * src_strides@[d as int] >= 0) by {
            vstd::arithmetic::mul::lemma_mul_nonnegative(
                shifted as int,
                src_strides@[d as int] as int,
            );
        }
        acc = acc + shifted * src_strides[d];
        d = d + 1;
    }
    acc
}


/// The shape a slice of `shape` produces: the range length per sliced
/// dimension, the full extent per remaining dimension.
pub open spec fn spec_slice_shape(shape: Seq<usize>, starts: Seq<usize>, ends: Seq<usize>) -> Seq<
    usize,
> {
    Seq::new(
        shape.len(),
        |d: int|
            if d < starts.len() {
                (ends[d] - starts[d]) as usize
            } else {
                shape[d]
            },
    )
}

/// The per-dimension start offsets a slice kernel binds: one scalar per
/// dimension, zero where no range was given.
pub open spec fn spec_slice_starts(rank: int, starts: Seq<usize>) -> Seq<usize> {
    Seq::new(
        rank as nat,
        |d: int|
            if d < starts.len() {
                starts[d]
            } else {
                0
            },
    )
}

/// Everything a slice launch promises. `starts_full` are the bound start
/// scalars; element `i` of the output buffer holds the source element
/// whose coordinates are `i`'s output coordinates shifted by them.
pub open spec fn slice_launch_post(
    tensor: TensorDesc,
    out: TensorDesc,
    starts_full: Seq<usize>,
    pre: ComputeClient,
    post: ComputeClient,
) -> bool {
    &&& post.well_formed()
    &&& post.device == pre.device
    &&& post.buffers@.len() == pre.buffers@.len() + 1
    &&& post.refs@ == pre.refs@.push(1)
    &&& out.buffer == pre.buffers@.len()
    &&& out.device == tensor.device
    &&& out.elem == tensor.elem
    &&& is_contiguous_layout(out.shape@, out.strides@)
    &&& desc_valid(out, post)
    &&& forall|k: int| 0 <= k < pre.buffers@.len() ==> post.buffers@[k] == pre.buffers@[k]
    &&& post.buffers@[out.buffer as int]@.len() == spec_numel(out.shape@)
    &&& forall|i: int|
        0 <= i < spec_numel(out.shape@) ==> post.buffers@[out.buffer as int]@[i]
            == pre.buffers@[tensor.buffer as int]@[slice_src_offset(
            i,
            out.strides@,
            out.shape@,
            tensor.strides@,
            starts_full,
        )]
    &&& post.launches@ == pre.launches@.push(
        (LaunchRecord {
            key: (KernelKey::Slice { rank: tensor.shape@.len() as usize }),
            plan: spec_elemwise_plan(spec_numel(out.shape@) as int, 1),
        }),
    )
}

/// Copies the sub-ranges `starts[k]..ends[k]` of the leading dimensions
/// (trailing dimensions are taken whole) into a fresh contiguous tensor.
/// The output shape is the range length per dimension. Ranges must lie
/// inside the source extents; that validation is the caller's
/// responsibility, documented here rather than checked in the kernel.
pub fn slice(
    client: &mut ComputeClient,
    tensor: TensorDesc,
    starts: &Vec<usize>,
    ends: &Vec<usize>,
) -> (out: TensorDesc)
    requires
        old(client).well_formed(),
        desc_valid(tensor, *old(client)),
        starts@.len() == ends@.len(),
        starts@.len() <= tensor.shape@.len(),
        forall|k: int|
            0 <= k < starts@.len() ==> starts@[k] <= ends@[k] && ends@[k] <= tensor.shape@[k],
        spec_numel(tensor.shape@) <= MAX_LAUNCH_UNITS,
    ensures
        out.shape@ == spec_slice_shape(tensor.shape@, starts@, ends@),
        slice_launch_post(
            tensor,
            out,
            spec_slice_starts(tensor.shape@.len() as int, starts@),
            *old(client),
            *final(client),
        ),
{
    let rank = tensor.shape.len();
    // Output extents: range length where a range was given, full extent
    // elsewhere.
    let mut out_shape: Vec<usize> = Vec::new();
    let mut d: usize = 0;
    while d < rank
        invariant
            d <= rank,
            rank == tensor.shape@.len(),
            starts@.len() == ends@.len(),
            starts@.len() <= rank,
            forall|k: int|
                0 <= k < starts@.len() ==> starts@[k] <= ends@[k] && ends@[k]
                    <= tensor.shape@[k],
            out_shape@.len() == d,
            forall|k: int|
                0 <= k < d ==> out_shape@[k] == spec_slice_shape(tensor.shape@, starts@, ends@)[k],
            forall|k: int| 0 <= k < d ==> out_shape@[k] <= tensor.shape@[k],
        decreases rank - d,
    {
        if d < starts.len() {
            out_shape.push(ends[d] - starts[d]);
        } else {
            out_shape.push(tensor.shape[d]);
        }
        d = d + 1;
    }
    proof {
        assert(out_shape@ =~= spec_slice_shape(tensor.shape@, starts@, ends@));
    }
    // Start scalar per dimension, zero where no range was given.
    let mut starts_full: Vec<usize> = Vec::new();
    let mut d2: usize = 0;
    while d2 < rank
        invariant
            d2 <= rank,
            rank == tensor.shape@.len(),
            starts@.len() <= rank,
            starts_full@.len() == d2,
            forall|k: int|
                0 <= k < d2 ==> starts_full@[k] == spec_slice_starts(rank as int, starts@)[k],
        decreases rank - d2,
    {
        if d2 < starts.len() {
            starts_full.push(starts[d2]);
        } else {
            starts_full.push(0);
        }
        d2 = d2 + 1;
    }
    proof {
        assert(starts_full@ =~= spec_slice_starts(rank as int, starts@));
        assert forall|e: int| 0 <= e <= rank implies #[trigger] suffix_product(out_shape@, e)
            <= usize::MAX by {
            lemma_suffix_product_monotone(out_shape@, tensor.shape@, e);
        }
        lemma_suffix_product_monotone(out_shape@, tensor.shape@, 0);
    }
    let out_strides = contiguous_strides(&out_shape);
    let n = numel(&out_shape);
    let plan = make_elemwise_plan(n as u64, 1);
    proof {
        if n > 0 {
            lemma_suffix_product_positive(out_shape@, 0);
            assert forall|e: int| 0 <= e < rank implies tensor.shape@[e] >= 1 by {
                assert(out_shape@[e] >= 1);
            }
            lemma_positive_dims_numel(tensor.shape@, 0);
            assert forall|e: int| 0 <= e < rank implies out_strides@[e] >= 1 by {
                lemma_positive_dims_numel(out_shape@, e + 1);
            }
        }
    }
    let mut dest: Vec<i64> = Vec::new();
    dest.resize(n, 0i64);
    let res = run_slice_kernel(
        client.buffer(tensor.buffer),
        &tensor.shape,
        &tensor.strides,
        &out_shape,
        &out_strides,
        &starts_full,
        n,
        dest,
    );
    let b = client.allocate(n);
    client.install(b, res);
    client.submit(
        LaunchRecord {
            key: KernelKey::Slice { rank },
            plan,
        },
    );
    let out = TensorDesc {
        shape: out_shape,
        strides: out_strides,
        buffer: b,
        device: tensor.device,
        elem: tensor.elem,
    };
    proof {
        if n > 0 {
            lemma_contiguous_max_index(out.shape@, out.strides@, 0);
        }
    }
    out
}



/// Copies sub-ranges of `tensor` into an already-allocated `output`
/// descriptor: range `k` starts at `starts[k]` (zero where no start is
/// given) and its length is `output`'s extent in that dimension. The
/// kernel fills the first `numel(output)` positions of the output buffer;
/// ranges must lie inside the source extents, which is the caller's
/// responsibility.
pub fn slice_on_output(
    client: &mut ComputeClient,
    tensor: TensorDesc,
    output: TensorDesc,
    starts: &Vec<usize>,
) -> (out: TensorDesc)
    requires
        old(client).well_formed(),
        desc_valid(tensor, *old(client)),
        desc_valid(output, *old(client)),
        output.buffer != tensor.buffer,
        output.shape@.len() == tensor.shape@.len(),
        starts@.len() <= tensor.shape@.len(),
        forall|k: int|
            0 <= k < tensor.shape@.len() ==> spec_slice_starts(tensor.shape@.len() as int, starts@)[k]
                + output.shape@[k] <= tensor.shape@[k],
        forall|d: int| 0 <= d < output.strides@.len() ==> output.strides@[d] >= 1,
        spec_numel(output.shape@) <= old(client).buffers@[output.buffer as int]@.len(),
        spec_numel(output.shape@) <= MAX_LAUNCH_UNITS,
    ensures
        out == output,
        final(client).well_formed(),
        final(client).device == old(client).device,
        final(client).buffers@.len() == old(client).buffers@.len(),
        final(client).refs@ == old(client).refs@,
        forall|k: int|
            0 <= k < old(client).buffers@.len() && k != output.buffer
                ==> final(client).buffers@[k] == old(client).buffers@[k],
        final(client).buffers@[output.buffer as int]@.len() == old(client).buffers@[output.buffer as int]@.len(),
        forall|i: int|
            0 <= i < spec_numel(output.shape@) ==> final(client).buffers@[output.buffer as int]@[i]
                == old(client).buffers@[tensor.buffer as int]@[slice_src_offset(
                i,
                output.strides@,
                output.shape@,
                tensor.strides@,
                spec_slice_starts(tensor.shape@.len() as int, starts@),
            )],
        forall|i: int|
            spec_numel(output.shape@) <= i < old(client).buffers@[output.buffer as int]@.len()
                ==> final(client).buffers@[output.buffer as int]@[i]
                == old(client).buffers@[output.buffer as int]@[i],
        final(client).launches@ == old(client).launches@.push(
            (LaunchRecord {
                key: (KernelKey::Slice { rank: tensor.shape@.len() as usize }),
                plan: spec_elemwise_plan(spec_numel(output.shape@) as int, 1),
            }),
        ),
{
    let rank = tensor.shape.len();
    let mut starts_full: Vec<usize> = Vec::new();
    let mut d: usize = 0;
    while d < rank
        invariant
            d <= rank,
            rank == tensor.shape@.len(),
            starts@.len() <= rank,
            starts_full@.len() == d,
            forall|k: int|
                0 <= k < d ==> starts_full@[k] == spec_slice_starts(rank as int, starts@)[k],
        decreases rank - d,
    {
        if d < starts.len() {
            starts_full.push(starts[d]);
        } else {
            starts_full.push(0);
        }
        d = d + 1;
    }
    proof {
        assert(starts_full@ =~= spec_slice_starts(rank as int, starts@));
    }
    let n = output.numel();
    let plan = make_elemwise_plan(n as u64, 1);
    proof {
        if n > 0 {
            lemma_suffix_product_positive(output.shape@, 0);
            assert forall|e: int| 0 <= e < rank implies tensor.shape@[e] >= 1 by {
                assert(output.shape@[e] >= 1);
                assert(spec_slice_starts(rank as int, starts@)[e] + output.shape@[e]
                    <= tensor.shape@[e]);
            }
            lemma_positive_dims_numel(tensor.shape@, 0);
        }
    }
    let dest = copy_vals(client.buffer(output.buffer));
    let res = run_slice_kernel(
        client.buffer(tensor.buffer),
        &tensor.shape,
        &tensor.strides,
        &output.shape,
        &output.strides,
        &starts_full,
        n,
        dest,
    );
    client.install(output.buffer, res);
    client.submit(
        LaunchRecord {
            key: KernelKey::Slice { rank },
            plan,
        },
    );
    output
}


} // verus!
