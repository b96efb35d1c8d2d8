//! Gather along one axis: each output element's coordinate along the
//! chosen axis is replaced by the value of an index tensor before
//! projecting into the source; all other axes project directly.

use vstd::prelude::*;

use crate::client::{desc_valid, ComputeClient, LaunchRecord};
use crate::comptime::KernelKey;
use crate::descriptor::{
    contiguous_strides, copy_dims, is_contiguous_layout, lemma_contiguous_max_index,
    lemma_positive_dims_numel, lemma_suffix_product_positive, max_linear_index,
    max_linear_index_from, numel, spec_numel, suffix_product, TensorDesc,
};
use crate::grid::{make_elemwise_plan, spec_elemwise_plan, MAX_LAUNCH_UNITS};

verus! {

/// Linear source offset of output element `i` of a gather: along `dim` the
/// logical coordinate indexes the index tensor and the value found there
/// projects along the source stride; every other axis projects directly.
/// Summed over dimensions `d..rank`.
pub open spec fn select_src_offset_from(
    i: int,
    out_strides: Seq<usize>,
    out_shape: Seq<usize>,
    src_strides: Seq<usize>,
    dim: int,
    indices: Seq<i64>,
    d: int,
) -> int
    decreases out_shape.len() - d,
{
    if d >= out_shape.len() {
        0
    } else {
        let coord = (i / out_strides[d] as int) % out_shape[d] as int;
        let advanced: int = if d == dim {
            indices[coord] as int
        } else {
            coord
        };
        advanced * src_strides[d] + select_src_offset_from(
            i,
            out_strides,
            out_shape,
            src_strides,
            dim,
            indices,
            d + 1,
        )
    }
}

/// Linear source offset of output element `i` of a gather.
pub open spec fn select_src_offset(
    i: int,
    out_strides: Seq<usize>,
    out_shape: Seq<usize>,
    src_strides: Seq<usize>,
    dim: int,
    indices: Seq<i64>,
) -> int {
    select_src_offset_from(i, out_strides, out_shape, src_strides, dim, indices, 0)
}

/// Shape agreement and index validity for a gather: away from `dim` the
/// output extent equals the source extent; along `dim` it is the number of
/// gathered positions, each of whose index values names a source
/// coordinate. The index buffer may extend past the gathered count.
pub open spec fn select_dims_ok(
    out_shape: Seq<usize>,
    src_shape: Seq<usize>,
    dim: int,
    indices: Seq<i64>,
) -> bool {
    &&& forall|d: int| 0 <= d < out_shape.len() && d != dim ==> out_shape[d] == src_shape[d]
    &&& out_shape[dim] <= indices.len()
    &&& forall|k: int| 0 <= k < out_shape[dim] ==> 0 <= #[trigger] indices[k] < src_shape[dim]
}

/// The gathered offset stays within what the source layout addresses.
proof fn lemma_select_offset_bounds(
    i: int,
    out_strides: Seq<usize>,
    out_shape: Seq<usize>,
    src_shape: Seq<usize>,
    src_strides: Seq<usize>,
    dim: int,
    indices: Seq<i64>,
    d: int,
)
    requires
        0 <= d <= out_shape.len(),
        out_strides.len() == out_shape.len(),
        src_strides.len() == out_shape.len(),
        src_shape.len() == out_shape.len(),
        0 <= dim < out_shape.len(),
        select_dims_ok(out_shape, src_shape, dim, indices),
        forall|e: int| 0 <= e < out_shape.len() ==> out_shape[e] >= 1,
    ensures
        0 <= select_src_offset_from(i, out_strides, out_shape, src_strides, dim, indices, d)
            <= max_linear_index_from(src_shape, src_strides, d),
    decreases out_shape.len() - d,
{
    if d < out_shape.len() {
        let coord = (i / out_strides[d] as int) % out_shape[d] as int;
        assert(0 <= coord < out_shape[d]) by {
            vstd::arithmetic::div_mod::lemma_mod_bound(
                i / out_strides[d] as int,
                out_shape[d] as int,
            );
        }
        let advanced: int = if d == dim {
            indices[coord] as int
        } else {
            coord
        };
        assert(0 <= advanced <= src_shape[d] - 1);
        assert(0 <= advanced * src_strides[d]) by {
            vstd::arithmetic::mul::lemma_mul_nonnegative(advanced, src_strides[d] as int);
        }
        assert(advanced * src_strides[d] <= (src_shape[d] - 1) * src_strides[d]) by {
            vstd::arithmetic::mul::lemma_mul_inequality(
                advanced,
                src_shape[d] - 1,
                src_strides[d] as int,
            );
        }
        lemma_select_offset_bounds(
            i,
            out_strides,
            out_shape,
            src_shape,
            src_strides,
            dim,
            indices,
            d + 1,
        );
    }
}

/// Computes the gathered source offset of output element `i`.
fn select_offset_exec(
    i: usize,
    out_strides: &Vec<usize>,
    out_shape: &Vec<usize>,
    src_shape: &Vec<usize>,
    src_strides: &Vec<usize>,
    dim: usize,
    indices: &Vec<i64>,
    in_buf: &Vec<i64>,
) -> (off: usize)
    requires
        out_strides@.len() == out_shape@.len(),
        src_shape@.len() == out_shape@.len(),
        src_strides@.len() == out_shape@.len(),
        dim < out_shape@.len(),
        select_dims_ok(out_shape@, src_shape@, dim as int, indices@),
        forall|e: int| 0 <= e < out_shape@.len() ==> out_shape@[e] >= 1,
        forall|e: int| 0 <= e < out_strides@.len() ==> out_strides@[e] >= 1,
        max_linear_index(src_shape@, src_strides@) < in_buf@.len(),
    ensures
        off == select_src_offset(
            i as int,
            out_strides@,
            out_shape@,
            src_strides@,
            dim as int,
            indices@,
        ),
        off < in_buf@.len(),
{
    let in_len = in_buf.len();
    proof {
        lemma_select_offset_bounds(
            i as int,
            out_strides@,
            out_shape@,
            src_shape@,
            src_strides@,
            dim as int,
            indices@,
            0,
        );
    }
    let rank = out_shape.len();
    let mut acc: usize = 0;
    let mut d: usize = 0;
    while d < rank
        invariant
            d <= rank,
            rank == out_shape@.len(),
            out_strides@.len() == rank,
            src_shape@.len() == rank,
            src_strides@.len() == rank,
            dim < rank,
            select_dims_ok(out_shape@, src_shape@, dim as int, indices@),
            forall|e: int| 0 <= e < rank ==> out_shape@[e] >= 1,
            forall|e: int| 0 <= e < rank ==> out_strides@[e] >= 1,
            max_linear_index(src_shape@, src_strides@) < in_buf@.len(),
            in_buf@.len() <= usize::MAX,
            acc + select_src_offset_from(
                i as int,
                out_strides@,
                out_shape@,
                src_strides@,
                dim as int,
                indices@,
                d as int,
            ) == select_src_offset(
                i as int,
                out_strides@,
                out_shape@,
                src_strides@,
                dim as int,
                indices@,
            ),
            select_src_offset(i as int, out_strides@, out_shape@, src_strides@, dim as int, indices@)
                <= max_linear_index(src_shape@, src_strides@),
            acc <= max_linear_index(src_shape@, src_strides@),
        decreases rank - d,
    {
        proof {
            lemma_select_offset_bounds(
                i as int,
                out_strides@,
                out_shape@,
                src_shape@,
                src_strides@,
                dim as int,
                indices@,
                d as int,
            );
            lemma_select_offset_bounds(
                i as int,
                out_strides@,
                out_shape@,
                src_shape@,
                src_strides@,
                dim as int,
                indices@,
                d as int + 1,
            );
            vstd::arithmetic::div_mod::lemma_mod_bound(
                i as int / out_strides@[d as int] as int,
                out_shape@[d as int] as int,
            );
        }
        let q = i / out_strides[d];
        let coord = q % out_shape[d];
        let advanced: usize = if d == dim {
            #[verifier::truncate]
            (indices[coord] as usize)
        } else {
            coord
        };
        assert(advanced * src_strides@[d as int] <= (src_shape@[d as int] - 1) * src_strides@[d as int])
            by {
            vstd::arithmetic::mul::lemma_mul_inequality(
                advanced as int,
                src_shape@[d as int] - 1,
                src_strides@[d as int] as int,
            );
        }
        assert(advanced * src_strides@[d as int] >= 0) by {
            vstd::arithmetic::mul::lemma_mul_nonnegative(
                advanced as int,
                src_strides@[d as int] as int,
            );
        }
        acc = acc + advanced * src_strides[d];
        d = d + 1;
    }
    acc
}

/// The gather kernel: unit `i` copies the source element addressed by
/// `i`'s output coordinates, with the coordinate along `dim` looked up in
/// the index buffer.
fn run_select_kernel(
    in_buf: &Vec<i64>,
    src_shape: &Vec<usize>,
    src_strides: &Vec<usize>,
    out_shape: &Vec<usize>,
    out_strides: &Vec<usize>,
    dim: usize,
    indices: &Vec<i64>,
    n: usize,
    dest: Vec<i64>,
) -> (out: Vec<i64>)
    requires
        out_strides@.len() == out_shape@.len(),
        src_strides@.len() == out_shape@.len(),
        src_shape@.len() == out_shape@.len(),
        dim < out_shape@.len(),
        dest@.len() >= n,
        n > 0 ==> select_dims_ok(out_shape@, src_shape@, dim as int, indices@),
        n > 0 ==> forall|e: int| 0 <= e < out_shape@.len() ==> out_shape@[e] >= 1,
        n > 0 ==> forall|e: int| 0 <= e < out_strides@.len() ==> out_strides@[e] >= 1,
        n > 0 ==> max_linear_index(src_shape@, src_strides@) < in_buf@.len(),
    ensures
        out@.len() == dest@.len(),
        forall|i: int|
            0 <= i < n ==> out@[i] == in_buf@[select_src_offset(
                i,
                out_strides@,
                out_shape@,
                src_strides@,
                dim as int,
                indices@,
            )],
        forall|i: int| n <= i < dest@.len() ==> out@[i] == dest@[i],
{
    let mut out = dest;
    let mut i: usize = 0;
    while i < n
        invariant
            i <= n,
            out@.len() == dest@.len(),
            n <= dest@.len(),
            out_strides@.len() == out_shape@.len(),
            src_strides@.len() == out_shape@.len(),
            src_shape@.len() == out_shape@.len(),
            dim < out_shape@.len(),
            n > 0 ==> select_dims_ok(out_shape@, src_shape@, dim as int, indices@),
            n > 0 ==> forall|e: int| 0 <= e < out_shape@.len() ==> out_shape@[e] >= 1,
            n > 0 ==> forall|e: int| 0 <= e < out_strides@.len() ==> out_strides@[e] >= 1,
            n > 0 ==> max_linear_index(src_shape@, src_strides@) < in_buf@.len(),
            forall|k: int|
                0 <= k < i ==> out@[k] == in_buf@[select_src_offset(
                    k,
                    out_strides@,
                    out_shape@,
                    src_strides@,
                    dim as int,
                    indices@,
                )],
            forall|k: int| n <= k < dest@.len() ==> out@[k] == dest@[k],
        decreases n - i,
    {
        let off = select_offset_exec(
            i,
            out_strides,
            out_shape,
            src_shape,
            src_strides,
            dim,
            indices,
            in_buf,
        );
        let v = in_buf[off];
        out.set(i, v);
        i = i + 1;
    }
    out
}

/// The shape a gather produces: the source shape with the extent along
/// `dim` replaced by the number of indices.
pub open spec fn spec_select_shape(src_shape: Seq<usize>, dim: int, index_count: int) -> Seq<
    usize,
> {
    src_shape.update(dim, index_count as usize)
}

/// Gathers along `dim`: output element `i` is the source element whose
/// coordinate along `dim` is the value the rank-1 integer index tensor
/// holds at `i`'s own coordinate there. Index values are trusted to lie in
/// `[0, source extent)`; validating them is the caller's responsibility,
/// stated here rather than checked in the kernel.
pub fn select(
    client: &mut ComputeClient,
    tensor: TensorDesc,
    dim: usize,
    indices: TensorDesc,
) -> (out: TensorDesc)
    requires
        old(client).well_formed(),
        desc_valid(tensor, *old(client)),
        desc_valid(indices, *old(client)),
        dim < tensor.shape@.len(),
        indices.shape@.len() == 1,
        indices.spec_is_contiguous(),
        forall|k: int|
            0 <= k < indices.shape@[0] ==> 0 <= #[trigger] old(client).buffers@[indices.buffer as int]@[k]
                < tensor.shape@[dim as int],
        indices.shape@[0] <= MAX_LAUNCH_UNITS,
        forall|d: int|
            0 <= d <= tensor.shape@.len() ==> suffix_product(
                spec_select_shape(tensor.shape@, dim as int, indices.shape@[0] as int),
                d,
            ) <= usize::MAX,
        spec_numel(spec_select_shape(tensor.shape@, dim as int, indices.shape@[0] as int))
            <= MAX_LAUNCH_UNITS,
    ensures
        final(client).well_formed(),
        final(client).device == old(client).device,
        out.shape@ == spec_select_shape(tensor.shape@, dim as int, indices.shape@[0] as int),
        out.device == tensor.device,
        out.elem == tensor.elem,
        is_contiguous_layout(out.shape@, out.strides@),
        desc_valid(out, *final(client)),
        out.buffer == old(client).buffers@.len(),
        final(client).buffers@.len() == old(client).buffers@.len() + 1,
        final(client).refs@ == old(client).refs@.push(1),
        forall|k: int|
            0 <= k < old(client).buffers@.len() ==> final(client).buffers@[k] == old(
                client,
            ).buffers@[k],
        final(client).buffers@[out.buffer as int]@.len() == spec_numel(out.shape@),
        forall|i: int|
            0 <= i < spec_numel(out.shape@) ==> final(client).buffers@[out.buffer as int]@[i]
                == old(client).buffers@[tensor.buffer as int]@[select_src_offset(
                i,
                out.strides@,
                out.shape@,
                tensor.strides@,
                dim as int,
                old(client).buffers@[indices.buffer as int]@,
            )],
        final(client).launches@ == old(client).launches@.push(
            (LaunchRecord {
                key: (KernelKey::Select { dim, rank: tensor.shape@.len() as usize }),
                plan: spec_elemwise_plan(spec_numel(out.shape@) as int, 1),
            }),
        ),
{
    let rank = tensor.shape.len();
    let count = indices.shape[0];
    let mut out_shape = copy_dims(&tensor.shape);
    out_shape.set(dim, count);
    proof {
        assert(out_shape@ =~= spec_select_shape(tensor.shape@, dim as int, count as int));
    }
    let out_strides = contiguous_strides(&out_shape);
    let n = numel(&out_shape);
    let plan = make_elemwise_plan(n as u64, 1);
    let idx_buf = client.buffer(indices.buffer);
    proof {
        if n > 0 {
            lemma_suffix_product_positive(out_shape@, 0);
            assert forall|e: int| 0 <= e < rank implies tensor.shape@[e] >= 1 by {
                if e == dim {
                    assert(out_shape@[dim as int] >= 1);
                    assert(out_shape@[dim as int] == count);
                    assert(0 <= old(client).buffers@[indices.buffer as int]@[0]
                        < tensor.shape@[dim as int]);
                } else {
                    assert(out_shape@[e] >= 1);
                }
            }
            lemma_positive_dims_numel(tensor.shape@, 0);
            assert forall|e: int| 0 <= e < rank implies out_strides@[e] >= 1 by {
                lemma_positive_dims_numel(out_shape@, e + 1);
            }
            // the contiguous rank-1 index tensor backs all gathered positions
            assert(suffix_product(indices.shape@, 1) == 1);
            assert(suffix_product(indices.shape@, 0) == indices.shape@[0] * 1);
            lemma_positive_dims_numel(indices.shape@, 0);
            lemma_contiguous_max_index(indices.shape@, indices.strides@, 0);
            assert(count <= idx_buf@.len());
        }
    }
    let mut dest: Vec<i64> = Vec::new();
    dest.resize(n, 0i64);
    let res = run_select_kernel(
        client.buffer(tensor.buffer),
        &tensor.shape,
        &tensor.strides,
        &out_shape,
        &out_strides,
        dim,
        idx_buf,
        n,
        dest,
    );
    let b = client.allocate(n);
    client.install(b, res);
    client.submit(LaunchRecord { key: KernelKey::Select { dim, rank }, plan });
    let out = TensorDesc {
        shape: out_shape,
        strides: out_strides,
        buffer: b,
        device: tensor.device,
        elem: tensor.elem,
    };
    proof {
        if n > 0 {
            lemma_contiguous_max_index(out.shape@, out.strides@, 0);
        }
    }
    out
}


} // verus!
