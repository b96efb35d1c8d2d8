//! The index-projection protocol: mapping the linear id of a work unit,
//! interpreted in the output's layout, to the linear offset of the same
//! logical element inside a differently strided (possibly broadcast)
//! source operand.

use vstd::prelude::*;

use crate::client::{desc_valid, ComputeClient};
use crate::descriptor::{
    all_dims_positive, all_dims_positive_from, contiguous_strides, is_contiguous_layout,
    layout_fits, lemma_contiguous_max_index, lemma_positive_dims_numel,
    lemma_suffix_product_positive, max_linear_index, max_linear_index_from, numel, spec_numel,
    suffix_product, TensorDesc,
};

verus! {

/// Logical coordinate of linear unit `i` along dimension `d`, read through
/// the output layout and clamped by the source extent: a source dimension
/// of 1 under a wider output dimension is a broadcast and contributes
/// coordinate 0.
pub open spec fn coord_in_source(
    i: int,
    out_strides: Seq<usize>,
    src_shape: Seq<usize>,
    d: int,
) -> int {
    (i / out_strides[d] as int) % src_shape[d] as int
}

/// Source offset accumulated over dimensions `d..rank`.
pub open spec fn project_offset_from(
    i: int,
    out_strides: Seq<usize>,
    src_shape: Seq<usize>,
    src_strides: Seq<usize>,
    d: int,
) -> int
    decreases src_shape.len() - d,
{
    if d >= src_shape.len() {
        0
    } else {
        coord_in_source(i, out_strides, src_shape, d) * src_strides[d] + project_offset_from(
            i,
            out_strides,
            src_shape,
            src_strides,
            d + 1,
        )
    }
}

/// Linear offset of logical element `i` of the output inside the source.
pub open spec fn project_offset(
    i: int,
    out_strides: Seq<usize>,
    src_shape: Seq<usize>,
    src_strides: Seq<usize>,
) -> int {
    project_offset_from(i, out_strides, src_shape, src_strides, 0)
}

/// The projected offset never leaves the region the source layout
/// addresses: it is at most `sum((src_shape[e] - 1) * src_strides[e])`.
pub proof fn lemma_project_offset_bounds(
    i: int,
    out_strides: Seq<usize>,
    src_shape: Seq<usize>,
    src_strides: Seq<usize>,
    d: int,
)
    requires
        0 <= d <= src_shape.len(),
        src_strides.len() == src_shape.len(),
        all_dims_positive_from(src_shape, d),
    ensures
        0 <= project_offset_from(i, out_strides, src_shape, src_strides, d)
            <= max_linear_index_from(src_shape, src_strides, d),
    decreases src_shape.len() - d,
{
    if d < src_shape.len() {
        let c = coord_in_source(i, out_strides, src_shape, d);
        assert(0 <= c < src_shape[d] as int) by {
            vstd::arithmetic::div_mod::lemma_mod_bound(
                i / out_strides[d] as int,
                src_shape[d] as int,
            );
        }
        assert(c * src_strides[d] >= 0) by {
            vstd::arithmetic::mul::lemma_mul_nonnegative(c, src_strides[d] as int);
        }
        assert(c * src_strides[d] <= (src_shape[d] - 1) * src_strides[d]) by {
            vstd::arithmetic::mul::lemma_mul_inequality(
                c,
                src_shape[d] - 1,
                src_strides[d] as int,
            );
        }
        lemma_project_offset_bounds(i, out_strides, src_shape, src_strides, d + 1);
    }
}

/// On a contiguous layout, only the residue of the unit id modulo the
/// remaining extent matters: coordinates for dimensions `d..` ignore the
/// higher-order part of the id.
proof fn lemma_project_mod_tail(i: int, shape: Seq<usize>, strides: Seq<usize>, d: int)
    requires
        is_contiguous_layout(shape, strides),
        0 <= d <= shape.len(),
        0 <= i,
        suffix_product(shape, d) >= 1,
    ensures
        project_offset_from(i, strides, shape, strides, d) == project_offset_from(
            i % suffix_product(shape, d),
            strides,
            shape,
            strides,
            d,
        ),
    decreases shape.len() - d,
{
    if d < shape.len() {
        let m = shape[d] as int;
        let c = suffix_product(shape, d + 1);
        let p = suffix_product(shape, d);
        lemma_suffix_product_positive(shape, d);
        assert(p == m * c);
        let j = (i / c) % m;
        assert(i % (c * m) == c * ((i / c) % m) + i % c) by {
            vstd::arithmetic::div_mod::lemma_mod_breakdown(i, c, m);
        }
        assert(c * m == m * c) by {
            vstd::arithmetic::mul::lemma_mul_is_commutative(c, m);
        }
        assert(i % p == c * j + i % c);
        // The coordinate of dimension d is unchanged by reducing i mod p.
        assert(0 <= i % c < c) by {
            vstd::arithmetic::div_mod::lemma_mod_bound(i, c);
        }
        assert(0 <= j < m) by {
            vstd::arithmetic::div_mod::lemma_mod_bound(i / c, m);
        }
        assert((i % c) / c == 0) by {
            vstd::arithmetic::div_mod::lemma_basic_div(i % c, c);
        }
        assert((i % c) / c + j == (i % c + j * c) / c) by {
            vstd::arithmetic::div_mod::lemma_hoist_over_denominator(i % c, j, c as nat);
        }
        assert(j * c == c * j) by {
            vstd::arithmetic::mul::lemma_mul_is_commutative(j, c);
        }
        assert((i % p) / c == j);
        assert(j % m == j) by {
            vstd::arithmetic::div_mod::lemma_small_mod(j as nat, m as nat);
        }
        assert(coord_in_source(i % p, strides, shape, d) == j);
        assert(coord_in_source(i, strides, shape, d) == j);
        // The tail is unchanged as well: reducing mod p and then mod c is
        // the same as reducing mod c alone.
        lemma_project_mod_tail(i, shape, strides, d + 1);
        assert(0 <= i % p) by {
            vstd::arithmetic::div_mod::lemma_mod_bound(i, p);
        }
        lemma_project_mod_tail(i % p, shape, strides, d + 1);
        assert((i % (c * m)) % c == i % c) by {
            vstd::arithmetic::div_mod::lemma_mod_mod(i, c, m);
        }
        assert((i % p) % c == i % c);
    }
}

/// Helper for the identity law, generalized over the starting dimension:
/// on a contiguous layout, projecting a unit id below the remaining extent
/// onto the layout itself returns the id unchanged.
proof fn lemma_projection_identity_from(i: int, shape: Seq<usize>, strides: Seq<usize>, d: int)
    requires
        is_contiguous_layout(shape, strides),
        0 <= d <= shape.len(),
        0 <= i < suffix_product(shape, d),
    ensures
        project_offset_from(i, strides, shape, strides, d) == i,
    decreases shape.len() - d,
{
    lemma_suffix_product_positive(shape, d);
    if d >= shape.len() {
        assert(i == 0);
    } else {
        let m = shape[d] as int;
        let c = suffix_product(shape, d + 1);
        assert(suffix_product(shape, d) == m * c);
        assert(i / c < m) by {
            vstd::arithmetic::div_mod::lemma_multiply_divide_lt(i, c, m);
            vstd::arithmetic::mul::lemma_mul_is_commutative(c, m);
        }
        assert(0 <= i / c) by {
            vstd::arithmetic::div_mod::lemma_div_pos_is_pos(i, c);
        }
        assert((i / c) % m == i / c) by {
            vstd::arithmetic::div_mod::lemma_small_mod((i / c) as nat, m as nat);
        }
        assert(coord_in_source(i, strides, shape, d) == i / c);
        assert(0 <= i % c < c) by {
            vstd::arithmetic::div_mod::lemma_mod_bound(i, c);
        }
        lemma_project_mod_tail(i, shape, strides, d + 1);
        lemma_projection_identity_from(i % c, shape, strides, d + 1);
        assert(i == c * (i / c) + i % c) by {
            vstd::arithmetic::div_mod::lemma_fundamental_div_mod(i, c);
        }
        assert((i / c) * c == c * (i / c)) by {
            vstd::arithmetic::mul::lemma_mul_is_commutative(i / c, c);
        }
    }
}

/// Identity projection: for a descriptor with a contiguous layout, the
/// projection protocol applied to the descriptor's own shape and strides,
/// against itself, maps every unit id `0 <= i < numel` to `i` unchanged.
/// This is why contiguous operands may skip the projection and address the
/// buffer with the unit id directly: both paths agree.
///
/// Contiguity is needed: a layout that leaves gaps (say shape `[2]` with
/// strides `[2]`) addresses offsets outside `0..numel`, and projecting a
/// unit id through it does not return the id.
pub proof fn lemma_projection_identity(i: int, shape: Seq<usize>, strides: Seq<usize>)
    requires
        is_contiguous_layout(shape, strides),
        0 <= i < spec_numel(shape),
    ensures
        project_offset(i, strides, shape, strides) == i,
{
    lemma_projection_identity_from(i, shape, strides, 0);
}

/// Computes the source offset of output element `i`: for each dimension,
/// recover the logical coordinate from the output layout, clamp it by the
/// source extent (broadcast), and advance by the source stride. Contiguous
/// operands may skip this and use `i` directly; `lemma_projection_identity`
/// states that both paths agree.
pub fn project_offset_exec(
    i: usize,
    out_strides: &Vec<usize>,
    src_shape: &Vec<usize>,
    src_strides: &Vec<usize>,
) -> (r: usize)
    requires
        out_strides@.len() == src_shape@.len(),
        src_strides@.len() == src_shape@.len(),
        all_dims_positive(src_shape@),
        forall|d: int| 0 <= d < out_strides@.len() ==> out_strides@[d] >= 1,
        max_linear_index(src_shape@, src_strides@) <= usize::MAX,
    ensures
        r == project_offset(i as int, out_strides@, src_shape@, src_strides@),
{
    let rank = src_shape.len();
    let mut acc: usize = 0;
    let mut d: usize = 0;
    proof {
        lemma_project_offset_bounds(i as int, out_strides@, src_shape@, src_strides@, 0);
    }
    while d < rank
        invariant
            d <= rank,
            rank == src_shape@.len(),
            out_strides@.len() == rank,
            src_strides@.len() == rank,
            all_dims_positive(src_shape@),
            forall|e: int| 0 <= e < rank ==> out_strides@[e] >= 1,
            max_linear_index(src_shape@, src_strides@) <= usize::MAX,
            acc + project_offset_from(i as int, out_strides@, src_shape@, src_strides@, d as int)
                == project_offset(i as int, out_strides@, src_shape@, src_strides@),
            project_offset(i as int, out_strides@, src_shape@, src_strides@)
                <= max_linear_index(src_shape@, src_strides@),
            acc <= max_linear_index(src_shape@, src_strides@),
        decreases rank - d,
    {
        proof {
            lemma_project_offset_bounds(
                i as int,
                out_strides@,
                src_shape@,
                src_strides@,
                d as int,
            );
            lemma_project_offset_bounds(
                i as int,
                out_strides@,
                src_shape@,
                src_strides@,
                d as int + 1,
            );
            vstd::arithmetic::div_mod::lemma_mod_bound(
                i as int / out_strides@[d as int] as int,
                src_shape@[d as int] as int,
            );
        }
        let q = i / out_strides[d];
        let c = q % src_shape[d];
        assert(c * src_strides@[d as int] <= (src_shape@[d as int] - 1) * src_strides@[d as int])
            by {
            vstd::arithmetic::mul::lemma_mul_inequality(
                c as int,
                src_shape@[d as int] - 1,
                src_strides@[d as int] as int,
            );
        }
        assert(c * src_strides@[d as int] >= 0) by {
            vstd::arithmetic::mul::lemma_mul_nonnegative(c as int, src_strides@[d as int] as int);
        }
        acc = acc + c * src_strides[d];
        d = d + 1;
    }
    acc
}


/// Materializes a contiguous copy of a tensor: element `i` of the fresh
/// row-major output is the source element the projection protocol finds
/// for `i`. A tensor that is already contiguous is returned unchanged and
/// nothing is allocated.
pub fn into_contiguous(client: &mut ComputeClient, t: TensorDesc) -> (out: TensorDesc)
    requires
        old(client).well_formed(),
        desc_valid(t, *old(client)),
    ensures
        final(client).well_formed(),
        final(client).device == old(client).device,
        out.shape@ == t.shape@,
        out.elem == t.elem,
        out.device == t.device,
        is_contiguous_layout(out.shape@, out.strides@),
        desc_valid(out, *final(client)),
        t.spec_is_contiguous() ==> out == t && *final(client) == *old(client),
        !t.spec_is_contiguous() ==> {
            &&& out.buffer == old(client).buffers@.len()
            &&& final(client).buffers@.len() == old(client).buffers@.len() + 1
            &&& final(client).refs@ == old(client).refs@.push(1)
            &&& final(client).launches@ == old(client).launches@
            &&& forall|k: int|
                0 <= k < old(client).buffers@.len() ==> final(client).buffers@[k] == old(
                    client,
                ).buffers@[k]
            &&& final(client).buffers@[out.buffer as int]@.len() == spec_numel(t.shape@)
            &&& forall|i: int|
                0 <= i < spec_numel(t.shape@) ==> final(client).buffers@[out.buffer as int]@[i]
                    == old(client).buffers@[t.buffer as int]@[project_offset(
                    i,
                    out.strides@,
                    t.shape@,
                    t.strides@,
                )]
        },
{
    if t.is_contiguous() {
        return t;
    }
    let out_strides = contiguous_strides(&t.shape);
    let n = numel(&t.shape);
    let in_buf = client.buffer(t.buffer);
    let in_len = in_buf.len();
    let mut vals: Vec<i64> = Vec::new();
    let mut i: usize = 0;
    proof {
        if n > 0 {
            lemma_suffix_product_positive(t.shape@, 0);
            assert forall|e: int| 0 <= e < t.shape@.len() implies #[trigger] out_strides@[e]
                >= 1 by {
                lemma_positive_dims_numel(t.shape@, e + 1);
            }
        }
    }
    while i < n
        invariant
            i <= n,
            vals@.len() == i,
            t.well_formed(),
            is_contiguous_layout(t.shape@, out_strides@),
            in_len == in_buf@.len(),
            n == spec_numel(t.shape@),
            n > 0 ==> all_dims_positive(t.shape@),
            n > 0 ==> forall|e: int| 0 <= e < t.shape@.len() ==> #[trigger] out_strides@[e] >= 1,
            n > 0 ==> max_linear_index(t.shape@, t.strides@) < in_buf@.len(),
            forall|k: int|
                0 <= k < i ==> vals@[k] == in_buf@[project_offset(
                    k,
                    out_strides@,
                    t.shape@,
                    t.strides@,
                )],
        decreases n - i,
    {
        let off = project_offset_exec(i, &out_strides, &t.shape, &t.strides);
        proof {
            lemma_project_offset_bounds(i as int, out_strides@, t.shape@, t.strides@, 0);
        }
        vals.push(in_buf[off]);
        i = i + 1;
    }
    let b = client.allocate(n);
    client.install(b, vals);
    let out = TensorDesc {
        shape: t.shape,
        strides: out_strides,
        buffer: b,
        device: t.device,
        elem: t.elem,
    };
    proof {
        if n > 0 {
            lemma_contiguous_max_index(out.shape@, out.strides@, 0);
        }
    }
    out
}



/// The canonical row-major stride sequence of `shape`.
pub open spec fn spec_contig_strides(shape: Seq<usize>) -> Seq<usize> {
    Seq::new(shape.len(), |d: int| suffix_product(shape, d + 1) as usize)
}

/// A contiguous stride vector is the canonical one.
pub proof fn lemma_contig_strides_canonical(shape: Seq<usize>, strides: Seq<usize>)
    requires
        is_contiguous_layout(shape, strides),
    ensures
        strides == spec_contig_strides(shape),
{
    assert(strides =~= spec_contig_strides(shape));
}

/// The element values of a tensor read in row-major logical order: the
/// buffer itself when the layout is already contiguous, else each logical
/// element found by the projection protocol. This is what materializing a
/// contiguous copy yields.
pub open spec fn spec_contiguous_vals(
    vals: Seq<i64>,
    shape: Seq<usize>,
    strides: Seq<usize>,
) -> Seq<i64> {
    if is_contiguous_layout(shape, strides) {
        vals
    } else {
        Seq::new(
            spec_numel(shape) as nat,
            |i: int| vals[project_offset(i, spec_contig_strides(shape), shape, strides)],
        )
    }
}

/// Reading through the projection keeps values inside any magnitude bound
/// on the source buffer, provided the buffer backs the layout.
pub proof fn lemma_contiguous_vals_bounded(
    vals: Seq<i64>,
    shape: Seq<usize>,
    strides: Seq<usize>,
    m: int,
)
    requires
        strides.len() == shape.len(),
        layout_fits(shape, strides, vals.len() as int),
        forall|k: int| 0 <= k < vals.len() ==> -m <= #[trigger] vals[k] <= m,
    ensures
        forall|k: int|
            0 <= k < spec_contiguous_vals(vals, shape, strides).len() ==> -m
                <= #[trigger] spec_contiguous_vals(vals, shape, strides)[k] <= m,
{
    if !is_contiguous_layout(shape, strides) {
        let out = spec_contiguous_vals(vals, shape, strides);
        assert forall|k: int| 0 <= k < out.len() implies -m <= #[trigger] out[k] <= m by {
            crate::descriptor::lemma_suffix_product_nonneg(shape, 0);
            assert(spec_numel(shape) >= 1);
            lemma_suffix_product_positive(shape, 0);
            lemma_project_offset_bounds(k, spec_contig_strides(shape), shape, strides, 0);
        }
    }
}


} // verus!
