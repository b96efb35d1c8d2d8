//! Elementwise comparison kernels, tensor-tensor and tensor-scalar. The
//! output is always boolean-kind (0 or 1 in the smallest unsigned unit);
//! the tensor-tensor variant reconciles the operand shapes by
//! broadcasting, and both variants may write over an operand in place when
//! the aliasing decision allows it.

use vstd::prelude::*;

use crate::alias::{
    alias_eligible, decide_alias_binary, decide_alias_unary, spec_decide_alias_binary,
    AliasDecision,
};
use crate::client::{desc_valid, ComputeClient, LaunchRecord};
use crate::comptime::KernelKey;
use crate::descriptor::{
    all_dims_positive, broadcast_shape, contiguous_strides, copy_dims, copy_vals,
    is_contiguous_layout, lemma_contiguous_max_index, lemma_positive_dims_numel,
    lemma_suffix_product_positive, max_linear_index, numel, shapes_broadcast_compatible,
    spec_broadcast_shape, spec_numel, suffix_product, vec_eq_usize, ElemKind, LaunchError,
    TensorDesc,
};
use crate::grid::{spec_elemwise_plan, MAX_LAUNCH_UNITS};
use crate::projection::{
    lemma_project_offset_bounds, lemma_projection_identity, project_offset, project_offset_exec,
};
use crate::vectorize::{divisibility_chain, vectorization_factor_binary, tensor_vectorization_factor};

verus! {

/// The comparison predicates.
#[derive(Clone, Copy, PartialEq, Eq, Structural, Debug)]
pub enum CmpOp {
    Equal,
    Greater,
    GreaterEqual,
    Lower,
    LowerEqual,
}

/// What each predicate means on element values.
pub open spec fn spec_cmp(op: CmpOp, lhs: i64, rhs: i64) -> bool {
    match op {
        CmpOp::Equal => lhs == rhs,
        CmpOp::Greater => lhs > rhs,
        CmpOp::GreaterEqual => lhs >= rhs,
        CmpOp::Lower => lhs < rhs,
        CmpOp::LowerEqual => lhs <= rhs,
    }
}

/// A truth value in the boolean-kind output unit.
pub open spec fn bool_value(b: bool) -> i64 {
    if b {
        1
    } else {
        0
    }
}

/// Executes one comparison, one element pair per work unit.
pub fn cmp_execute(op: CmpOp, lhs: i64, rhs: i64) -> (r: bool)
    ensures
        r == spec_cmp(op, lhs, rhs),
{
    match op {
        CmpOp::Equal => lhs == rhs,
        CmpOp::Greater => lhs > rhs,
        CmpOp::GreaterEqual => lhs >= rhs,
        CmpOp::Lower => lhs < rhs,
        CmpOp::LowerEqual => lhs <= rhs,
    }
}

fn bool_to_unit(b: bool) -> (r: i64)
    ensures
        r == bool_value(b),
{
    if b {
        1
    } else {
        0
    }
}

/// The tensor-tensor comparison kernel, one output element per work unit:
/// unit `i` reads each operand at the projection of `i` through the output
/// layout (operands already laid out like the output skip the projection;
/// the identity law makes both paths agree) and writes 0 or 1 at `i`.
/// Results land in `dest[..n]`; `dest[n..]` is left untouched.
fn run_cmp_kernel(
    op: CmpOp,
    lhs_buf: &Vec<i64>,
    lhs_shape: &Vec<usize>,
    lhs_strides: &Vec<usize>,
    project_lhs: bool,
    rhs_buf: &Vec<i64>,
    rhs_shape: &Vec<usize>,
    rhs_strides: &Vec<usize>,
    project_rhs: bool,
    out_strides: &Vec<usize>,
    n: usize,
    dest: Vec<i64>,
) -> (out: Vec<i64>)
    requires
        lhs_shape@.len() == lhs_strides@.len(),
        rhs_shape@.len() == rhs_strides@.len(),
        out_strides@.len() == lhs_shape@.len(),
        out_strides@.len() == rhs_shape@.len(),
        dest@.len() >= n,
        n > 0 ==> all_dims_positive(lhs_shape@) && all_dims_positive(rhs_shape@),
        n > 0 ==> forall|d: int| 0 <= d < out_strides@.len() ==> out_strides@[d] >= 1,
        n > 0 ==> max_linear_index(lhs_shape@, lhs_strides@) < lhs_buf@.len(),
        n > 0 ==> max_linear_index(rhs_shape@, rhs_strides@) < rhs_buf@.len(),
        !project_lhs ==> is_contiguous_layout(lhs_shape@, lhs_strides@) && out_strides@
            == lhs_strides@ && n <= spec_numel(lhs_shape@),
        !project_rhs ==> is_contiguous_layout(rhs_shape@, rhs_strides@) && out_strides@
            == rhs_strides@ && n <= spec_numel(rhs_shape@),
    ensures
        out@.len() == dest@.len(),
        forall|i: int|
            0 <= i < n ==> out@[i] == bool_value(
                spec_cmp(
                    op,
                    lhs_buf@[project_offset(i, out_strides@, lhs_shape@, lhs_strides@)],
                    rhs_buf@[project_offset(i, out_strides@, rhs_shape@, rhs_strides@)],
                ),
            ),
        forall|i: int| n <= i < dest@.len() ==> out@[i] == dest@[i],
{
    let mut out = dest;
    let mut i: usize = 0;
    while i < n
        invariant
            i <= n,
            out@.len() == dest@.len(),
            n <= dest@.len(),
            lhs_shape@.len() == lhs_strides@.len(),
            rhs_shape@.len() == rhs_strides@.len(),
            out_strides@.len() == lhs_shape@.len(),
            out_strides@.len() == rhs_shape@.len(),
            n > 0 ==> all_dims_positive(lhs_shape@) && all_dims_positive(rhs_shape@),
            n > 0 ==> forall|d: int| 0 <= d < out_strides@.len() ==> out_strides@[d] >= 1,
            n > 0 ==> max_linear_index(lhs_shape@, lhs_strides@) < lhs_buf@.len(),
            n > 0 ==> max_linear_index(rhs_shape@, rhs_strides@) < rhs_buf@.len(),
            !project_lhs ==> is_contiguous_layout(lhs_shape@, lhs_strides@) && out_strides@
                == lhs_strides@ && n <= spec_numel(lhs_shape@),
            !project_rhs ==> is_contiguous_layout(rhs_shape@, rhs_strides@) && out_strides@
                == rhs_strides@ && n <= spec_numel(rhs_shape@),
            forall|k: int|
                0 <= k < i ==> out@[k] == bool_value(
                    spec_cmp(
                        op,
                        lhs_buf@[project_offset(k, out_strides@, lhs_shape@, lhs_strides@)],
                        rhs_buf@[project_offset(k, out_strides@, rhs_shape@, rhs_strides@)],
                    ),
                ),
            forall|k: int| n <= k < dest@.len() ==> out@[k] == dest@[k],
        decreases n - i,
    {
        let lhs_off = operand_offset(i, out_strides, lhs_shape, lhs_strides, project_lhs, lhs_buf);
        let rhs_off = operand_offset(i, out_strides, rhs_shape, rhs_strides, project_rhs, rhs_buf);
        let v = bool_to_unit(cmp_execute(op, lhs_buf[lhs_off], rhs_buf[rhs_off]));
        out.set(i, v);
        i = i + 1;
    }
    out
}

/// The candidate pack widths every comparison launch tries, widest first.
pub open spec fn cmp_candidates() -> Seq<u8> {
    seq![4u8, 2u8]
}

/// The pack width a tensor-tensor comparison of these operands selects.
pub open spec fn spec_cmp_width(lhs: TensorDesc, rhs: TensorDesc) -> int {
    let dim = lhs.shape@.len() - 1;
    vstd::math::min(
        crate::vectorize::selected_width(cmp_candidates(), lhs.shape@, lhs.strides@, dim) as int,
        crate::vectorize::selected_width(cmp_candidates(), rhs.shape@, rhs.strides@, dim) as int,
    )
}

/// Whether an operand of a comparison needs the index projection: only a
/// layout other than the output's own does.
pub open spec fn spec_needs_projection(desc: TensorDesc, out: TensorDesc) -> bool {
    desc.strides@ != out.strides@ || desc.shape@ != out.shape@
}

/// The value work unit `i` of a comparison launch writes.
pub open spec fn spec_cmp_output_value(
    op: CmpOp,
    lhs: TensorDesc,
    rhs: TensorDesc,
    out: TensorDesc,
    lhs_vals: Seq<i64>,
    rhs_vals: Seq<i64>,
    i: int,
) -> i64 {
    bool_value(
        spec_cmp(
            op,
            lhs_vals[project_offset(i, out.strides@, lhs.shape@, lhs.strides@)],
            rhs_vals[project_offset(i, out.strides@, rhs.shape@, rhs.strides@)],
        ),
    )
}

/// What a tensor-tensor comparison launch asks of its caller: valid
/// descriptors, at least one dimension, no zero extent facing a nonzero
/// one, and a broadcast output that the machine can represent and the
/// device grid can cover.
///
/// The zero-extent restriction is deliberate: the per-dimension-maximum
/// rule would give such a pair a nonempty output, yet every output element
/// would have to read the empty operand, so no defined result exists.
/// Matching zero extents are fine (the output is empty and nothing is
/// read).
pub open spec fn cmp_launch_pre(lhs: TensorDesc, rhs: TensorDesc, client: ComputeClient) -> bool {
    &&& client.well_formed()
    &&& desc_valid(lhs, client)
    &&& desc_valid(rhs, client)
    &&& lhs.shape@.len() >= 1
    &&& forall|d: int|
        0 <= d < lhs.shape@.len() && d < rhs.shape@.len() ==> ((lhs.shape@[d] == 0) <==> (
        rhs.shape@[d] == 0))
    &&& lhs.shape@.len() == rhs.shape@.len() ==> forall|d: int|
        0 <= d <= lhs.shape@.len() ==> suffix_product(
            spec_broadcast_shape(lhs.shape@, rhs.shape@),
            d,
        ) <= usize::MAX
    &&& lhs.shape@.len() == rhs.shape@.len() ==> spec_numel(
        spec_broadcast_shape(lhs.shape@, rhs.shape@),
    ) <= MAX_LAUNCH_UNITS
}

/// Everything a tensor-tensor comparison launch promises; `pre` and `post`
/// are the client states before and after the call.
pub open spec fn cmp_launch_post(
    op: CmpOp,
    lhs: TensorDesc,
    rhs: TensorDesc,
    pre: ComputeClient,
    post: ComputeClient,
    r: Result<TensorDesc, LaunchError>,
) -> bool {
    &&& post.well_formed()
    &&& post.device == pre.device
    &&& match r {
        Ok(out) => {
            &&& shapes_broadcast_compatible(lhs.shape@, rhs.shape@)
            &&& out.shape@ == spec_broadcast_shape(lhs.shape@, rhs.shape@)
            &&& out.elem == ElemKind::UInt32
            &&& out.device == lhs.device
            &&& is_contiguous_layout(out.shape@, out.strides@)
            &&& desc_valid(out, post)
            // where the output landed, and under which uniqueness facts
            &&& (out.buffer == lhs.buffer || out.buffer == rhs.buffer || out.buffer
                == pre.buffers@.len())
            &&& (out.buffer == lhs.buffer ==> pre.refs@[lhs.buffer as int] == 1)
            &&& (out.buffer == rhs.buffer ==> pre.refs@[rhs.buffer as int] == 1)
            &&& (pre.refs@[lhs.buffer as int] != 1 && pre.refs@[rhs.buffer as int] != 1
                ==> out.buffer == pre.buffers@.len())
            // the output's placement follows the aliasing decision exactly:
            // an operand is overwritten in place only when it was unique,
            // already shaped and laid out like the broadcast output, and of
            // the boolean unit's byte width; otherwise the output is fresh
            &&& ({
                let decision = spec_decide_alias_binary(
                    lhs,
                    pre.refs@[lhs.buffer as int] == 1,
                    rhs,
                    pre.refs@[rhs.buffer as int] == 1,
                    spec_broadcast_shape(lhs.shape@, rhs.shape@),
                    ElemKind::UInt32,
                );
                &&& (decision == AliasDecision::MayAliasIfUnique(0) ==> out.buffer == lhs.buffer
                    && out.strides@ == lhs.strides@)
                &&& (decision == AliasDecision::MayAliasIfUnique(1) ==> out.buffer == rhs.buffer
                    && out.strides@ == rhs.strides@)
                &&& (decision == AliasDecision::MustCopy ==> out.buffer == pre.buffers@.len())
            })
            &&& (out.buffer == pre.buffers@.len() ==> post.refs@ == pre.refs@.push(1)
                && post.buffers@.len() == pre.buffers@.len() + 1)
            &&& (out.buffer < pre.buffers@.len() ==> post.refs@ == pre.refs@
                && post.buffers@.len() == pre.buffers@.len())
            // no buffer but the output's changes
            &&& forall|k: int|
                0 <= k < pre.buffers@.len() && k != out.buffer ==> post.buffers@[k]
                    == pre.buffers@[k]
            // the computed contents
            &&& post.buffers@[out.buffer as int]@.len() >= spec_numel(out.shape@)
            &&& forall|i: int|
                0 <= i < spec_numel(out.shape@) ==> post.buffers@[out.buffer as int]@[i]
                    == spec_cmp_output_value(
                    op,
                    lhs,
                    rhs,
                    out,
                    pre.buffers@[lhs.buffer as int]@,
                    pre.buffers@[rhs.buffer as int]@,
                    i,
                )
            // the one launch submitted: its cache key and its grid
            &&& post.launches@ == pre.launches@.push(
                (LaunchRecord {
                    key: (KernelKey::Cmp {
                        op,
                        rank: lhs.shape@.len() as usize,
                        project_lhs: spec_needs_projection(lhs, out),
                        project_rhs: spec_needs_projection(rhs, out),
                        vectorization: spec_cmp_width(lhs, rhs) as u8,
                    }),
                    plan: spec_elemwise_plan(
                        spec_numel(out.shape@) / spec_cmp_width(lhs, rhs),
                        spec_cmp_width(lhs, rhs) as u8,
                    ),
                }),
            )
        },
        Err(e) => {
            &&& e == LaunchError::ShapeMismatch
            &&& !shapes_broadcast_compatible(lhs.shape@, rhs.shape@)
            &&& post == pre
        },
    }
}

/// Launches one tensor-tensor comparison.
///
/// The operand shapes are reconciled by broadcasting (failing fast on a
/// mismatch, before any buffer is allocated); the output shape is the
/// per-dimension maximum of the operand shapes. The output is
/// boolean-kind; it reuses an operand's buffer in place exactly when the
/// aliasing decision allows it (the operand was unique and already laid
/// out like the output), else a fresh contiguous buffer is allocated.
/// Element `i` of the output holds 0 or 1 according to the predicate on
/// the operand elements found by projecting `i` through the output layout.
pub fn launch_cmp(client: &mut ComputeClient, lhs: TensorDesc, rhs: TensorDesc, op: CmpOp) -> (r:
    Result<TensorDesc, LaunchError>)
    requires
        cmp_launch_pre(lhs, rhs, *old(client)),
    ensures
        cmp_launch_post(op, lhs, rhs, *old(client), *final(client), r),
{
    let out_shape = match broadcast_shape(&lhs.shape, &rhs.shape) {
        Ok(s) => s,
        Err(e) => {
            return Err(e);
        },
    };
    let rank = lhs.shape.len();
    let mut candidates: Vec<u8> = Vec::new();
    candidates.push(4);
    candidates.push(2);
    proof {
        assert(candidates@ =~= cmp_candidates());
        assert(divisibility_chain(candidates@)) by {
            assert(candidates@[0] == 4u8 && candidates@[1] == 2u8);
            assert forall|i: int, j: int| 0 <= i <= j < candidates@.len() implies candidates@[i]
                as int % candidates@[j] as int == 0 by {
                assert(4int % 4int == 0 && 4int % 2int == 0 && 2int % 2int == 0);
            }
        }
    }
    let w = vectorization_factor_binary(
        &candidates,
        &lhs.shape,
        &lhs.strides,
        &rhs.shape,
        &rhs.strides,
        rank - 1,
    );
    let n = numel(&out_shape);
    let n_units = n / (w as usize);
    proof {
        assert(n_units <= n) by {
            vstd::arithmetic::div_mod::lemma_div_nonincreasing(n as int, w as int);
        }
    }
    let plan = crate::grid::make_elemwise_plan(n_units as u64, w);
    let lhs_unique = client.is_unique(lhs.buffer);
    let rhs_unique = client.is_unique(rhs.buffer);
    let decision = decide_alias_binary(
        &lhs,
        lhs_unique,
        &rhs,
        rhs_unique,
        &out_shape,
        ElemKind::UInt32,
    );
    proof {
        lemma_cmp_positive_dims(lhs.shape@, rhs.shape@, out_shape@, n as int);
    }
    // Resolve where the output lives: over an eligible operand in place, or
    // in a fresh contiguous buffer.
    let (out_strides, aliased) = match decision {
        AliasDecision::MayAliasIfUnique(idx) => {
            if idx == 0 {
                proof {
                    assert(alias_eligible(lhs, lhs_unique, out_shape@, ElemKind::UInt32));
                }
                (copy_dims(&lhs.strides), Some(lhs.buffer))
            } else {
                proof {
                    assert(alias_eligible(rhs, rhs_unique, out_shape@, ElemKind::UInt32));
                }
                (copy_dims(&rhs.strides), Some(rhs.buffer))
            }
        },
        AliasDecision::MustCopy => (contiguous_strides(&out_shape), None),
    };
    proof {
        assert(is_contiguous_layout(out_shape@, out_strides@));
        if n > 0 {
            assert forall|d: int| 0 <= d < out_strides@.len() implies out_strides@[d] >= 1 by {
                lemma_positive_dims_numel(out_shape@, d + 1);
            }
            lemma_positive_dims_numel(lhs.shape@, 0);
            lemma_positive_dims_numel(rhs.shape@, 0);
        }
    }
    // Comptime flags: an operand laid out exactly like the output skips
    // the index projection inside the kernel.
    let project_lhs = !(vec_eq_usize(&lhs.strides, &out_strides) && vec_eq_usize(
        &lhs.shape,
        &out_shape,
    ));
    let project_rhs = !(vec_eq_usize(&rhs.strides, &out_strides) && vec_eq_usize(
        &rhs.shape,
        &out_shape,
    ));
    proof {
        if !project_lhs {
            assert(is_contiguous_layout(lhs.shape@, lhs.strides@));
        }
        if !project_rhs {
            assert(is_contiguous_layout(rhs.shape@, rhs.strides@));
        }
    }
    let dest = match aliased {
        Some(b) => {
            proof {
                if n > 0 {
                    lemma_contiguous_max_index(out_shape@, out_strides@, 0);
                }
            }
            copy_vals(client.buffer(b))
        },
        None => {
            let mut d: Vec<i64> = Vec::new();
            d.resize(n, 0i64);
            d
        },
    };
    let res = run_cmp_kernel(
        op,
        client.buffer(lhs.buffer),
        &lhs.shape,
        &lhs.strides,
        project_lhs,
        client.buffer(rhs.buffer),
        &rhs.shape,
        &rhs.strides,
        project_rhs,
        &out_strides,
        n,
        dest,
    );
    let out_buffer = match aliased {
        Some(b) => b,
        None => client.allocate(n),
    };
    client.install(out_buffer, res);
    client.submit(
        LaunchRecord {
            key: KernelKey::Cmp { op, rank, project_lhs, project_rhs, vectorization: w },
            plan,
        },
    );
    let out = TensorDesc {
        shape: out_shape,
        strides: out_strides,
        buffer: out_buffer,
        device: lhs.device,
        elem: ElemKind::UInt32,
    };
    proof {
        if n > 0 {
            lemma_contiguous_max_index(out.shape@, out.strides@, 0);
        }
    }
    Ok(out)
}

/// Positive output extents force positive operand extents, given that a
/// zero extent is zero on both sides.
proof fn lemma_cmp_positive_dims(
    lhs_shape: Seq<usize>,
    rhs_shape: Seq<usize>,
    out_shape: Seq<usize>,
    n: int,
)
    requires
        lhs_shape.len() == rhs_shape.len(),
        out_shape == spec_broadcast_shape(lhs_shape, rhs_shape),
        forall|d: int|
            0 <= d < lhs_shape.len() ==> ((lhs_shape[d] == 0) <==> (rhs_shape[d] == 0)),
        n == spec_numel(out_shape),
    ensures
        n > 0 ==> all_dims_positive(lhs_shape) && all_dims_positive(rhs_shape)
            && all_dims_positive(out_shape),
{
    if n > 0 {
        lemma_suffix_product_positive(out_shape, 0);
        assert forall|d: int| 0 <= d < lhs_shape.len() implies lhs_shape[d] >= 1 && rhs_shape[d]
            >= 1 by {
            assert(out_shape[d] >= 1);
        }
    }
}

/// Offset of the operand element work unit `i` reads: the projection of
/// `i` through the output layout, or `i` itself for an operand already
/// laid out like the output.
fn operand_offset(
    i: usize,
    out_strides: &Vec<usize>,
    shape: &Vec<usize>,
    strides: &Vec<usize>,
    project: bool,
    buf: &Vec<i64>,
) -> (off: usize)
    requires
        shape@.len() == strides@.len(),
        out_strides@.len() == shape@.len(),
        all_dims_positive(shape@),
        forall|d: int| 0 <= d < out_strides@.len() ==> out_strides@[d] >= 1,
        max_linear_index(shape@, strides@) < buf@.len(),
        !project ==> is_contiguous_layout(shape@, strides@) && out_strides@ == strides@ && i
            < spec_numel(shape@),
    ensures
        off == project_offset(i as int, out_strides@, shape@, strides@),
        off < buf@.len(),
{
    if project {
        // The buffer length is a usize, which bounds the largest offset the
        // layout may address.
        let buf_len = buf.len();
        let off = project_offset_exec(i, out_strides, shape, strides);
        proof {
            lemma_project_offset_bounds(i as int, out_strides@, shape@, strides@, 0);
        }
        off
    } else {
        proof {
            lemma_projection_identity(i as int, shape@, strides@);
            lemma_positive_dims_numel(shape@, 0);
            lemma_contiguous_max_index(shape@, strides@, 0);
        }
        i
    }
}


/// The pack width a tensor-scalar comparison of this operand selects.
pub open spec fn spec_scalar_cmp_width(t: TensorDesc) -> u8 {
    crate::vectorize::selected_width(cmp_candidates(), t.shape@, t.strides@, t.shape@.len() - 1)
}

/// The tensor-scalar comparison kernel: unit `i` compares element `i` of
/// the operand's storage against the scalar and writes 0 or 1 at `i`. The
/// output inherits the operand's layout, so no projection is needed.
fn run_scalar_cmp_kernel(op: CmpOp, in_buf: &Vec<i64>, scalar: i64, n: usize, dest: Vec<i64>) -> (out: Vec<
    i64,
>)
    requires
        n <= in_buf@.len(),
        dest@.len() >= n,
    ensures
        out@.len() == dest@.len(),
        forall|i: int| 0 <= i < n ==> out@[i] == bool_value(spec_cmp(op, in_buf@[i], scalar)),
        forall|i: int| n <= i < dest@.len() ==> out@[i] == dest@[i],
{
    let mut out = dest;
    let mut i: usize = 0;
    while i < n
        invariant
            i <= n,
            n <= in_buf@.len(),
            out@.len() == dest@.len(),
            n <= dest@.len(),
            forall|k: int| 0 <= k < i ==> out@[k] == bool_value(spec_cmp(op, in_buf@[k], scalar)),
            forall|k: int| n <= k < dest@.len() ==> out@[k] == dest@[k],
        decreases n - i,
    {
        let v = bool_to_unit(cmp_execute(op, in_buf[i], scalar));
        out.set(i, v);
        i = i + 1;
    }
    out
}

/// What a tensor-scalar comparison launch asks: a valid descriptor over
/// dense storage (the kernel walks the first `numel` positions of the
/// buffer and the output keeps the operand's strides), at least one
/// dimension, and a coverable element count.
pub open spec fn scalar_cmp_launch_pre(t: TensorDesc, client: ComputeClient) -> bool {
    &&& client.well_formed()
    &&& desc_valid(t, client)
    &&& t.shape@.len() >= 1
    &&& spec_numel(t.shape@) <= client.buffers@[t.buffer as int]@.len()
    &&& spec_numel(t.shape@) > 0 ==> max_linear_index(t.shape@, t.strides@) < spec_numel(t.shape@)
    &&& spec_numel(t.shape@) <= MAX_LAUNCH_UNITS
}

/// Everything a tensor-scalar comparison launch promises.
pub open spec fn scalar_cmp_launch_post(
    op: CmpOp,
    t: TensorDesc,
    scalar: i64,
    pre: ComputeClient,
    post: ComputeClient,
    out: TensorDesc,
) -> bool {
    &&& post.well_formed()
    &&& post.device == pre.device
    &&& out.shape@ == t.shape@
    &&& out.strides@ == t.strides@
    &&& out.elem == ElemKind::UInt32
    &&& out.device == t.device
    &&& desc_valid(out, post)
    // in-place reuse happens exactly when the operand was unique and its
    // element byte width already matches the boolean unit
    &&& (out.buffer == t.buffer <==> (pre.refs@[t.buffer as int] == 1 && t.elem.spec_bytes()
        == ElemKind::UInt32.spec_bytes()))
    &&& (out.buffer == t.buffer || out.buffer == pre.buffers@.len())
    &&& (out.buffer == pre.buffers@.len() ==> post.refs@ == pre.refs@.push(1)
        && post.buffers@.len() == pre.buffers@.len() + 1)
    &&& (out.buffer < pre.buffers@.len() ==> post.refs@ == pre.refs@ && post.buffers@.len()
        == pre.buffers@.len())
    &&& forall|k: int|
        0 <= k < pre.buffers@.len() && k != out.buffer ==> post.buffers@[k] == pre.buffers@[k]
    &&& post.buffers@[out.buffer as int]@.len() >= spec_numel(t.shape@)
    &&& forall|i: int|
        0 <= i < spec_numel(t.shape@) ==> post.buffers@[out.buffer as int]@[i] == bool_value(
            spec_cmp(op, pre.buffers@[t.buffer as int]@[i], scalar),
        )
    &&& post.launches@ == pre.launches@.push(
        (LaunchRecord {
            key: (KernelKey::CmpScalar { op, vectorization: spec_scalar_cmp_width(t) }),
            plan: spec_elemwise_plan(
                spec_numel(t.shape@) / spec_scalar_cmp_width(t) as int,
                spec_scalar_cmp_width(t),
            ),
        }),
    )
}

/// Launches one tensor-scalar comparison. The output is boolean-kind with
/// the operand's own shape and strides; it reuses the operand's buffer in
/// place exactly when the operand was unique and its element width already
/// matches the boolean unit. Element `i` of the output storage holds 0 or
/// 1 according to the predicate on element `i` of the operand's storage.
pub fn launch_scalar_cmp(client: &mut ComputeClient, tensor: TensorDesc, scalar: i64, op: CmpOp) -> (out:
    TensorDesc)
    requires
        scalar_cmp_launch_pre(tensor, *old(client)),
    ensures
        scalar_cmp_launch_post(op, tensor, scalar, *old(client), *final(client), out),
{
    let rank = tensor.shape.len();
    let mut candidates: Vec<u8> = Vec::new();
    candidates.push(4);
    candidates.push(2);
    proof {
        assert(candidates@ =~= cmp_candidates());
    }
    let w = tensor_vectorization_factor(&candidates, &tensor.shape, &tensor.strides, rank - 1);
    let n = tensor.numel();
    let n_units = n / (w as usize);
    proof {
        assert(n_units <= n) by {
            vstd::arithmetic::div_mod::lemma_div_nonincreasing(n as int, w as int);
        }
    }
    let plan = crate::grid::make_elemwise_plan(n_units as u64, w);
    let unique = client.is_unique(tensor.buffer);
    let decision = decide_alias_unary(&tensor, unique, ElemKind::UInt32);
    let dest = match decision {
        AliasDecision::MayAliasIfUnique(_) => copy_vals(client.buffer(tensor.buffer)),
        AliasDecision::MustCopy => {
            let mut d: Vec<i64> = Vec::new();
            d.resize(n, 0i64);
            d
        },
    };
    let res = run_scalar_cmp_kernel(op, client.buffer(tensor.buffer), scalar, n, dest);
    let out_buffer = match decision {
        AliasDecision::MayAliasIfUnique(_) => tensor.buffer,
        AliasDecision::MustCopy => client.allocate(n),
    };
    client.install(out_buffer, res);
    client.submit(
        LaunchRecord { key: KernelKey::CmpScalar { op, vectorization: w }, plan },
    );
    TensorDesc {
        shape: tensor.shape,
        strides: tensor.strides,
        buffer: out_buffer,
        device: tensor.device,
        elem: ElemKind::UInt32,
    }
}



/// Elementwise equality of two tensors, under broadcasting.
pub fn equal(client: &mut ComputeClient, lhs: TensorDesc, rhs: TensorDesc) -> (r: Result<
    TensorDesc,
    LaunchError,
>)
    requires
        cmp_launch_pre(lhs, rhs, *old(client)),
    ensures
        cmp_launch_post(CmpOp::Equal, lhs, rhs, *old(client), *final(client), r),
{
    launch_cmp(client, lhs, rhs, CmpOp::Equal)
}

/// Elementwise strict greater-than of two tensors, under broadcasting.
pub fn greater(client: &mut ComputeClient, lhs: TensorDesc, rhs: TensorDesc) -> (r: Result<
    TensorDesc,
    LaunchError,
>)
    requires
        cmp_launch_pre(lhs, rhs, *old(client)),
    ensures
        cmp_launch_post(CmpOp::Greater, lhs, rhs, *old(client), *final(client), r),
{
    launch_cmp(client, lhs, rhs, CmpOp::Greater)
}

/// Elementwise greater-or-equal of two tensors, under broadcasting.
pub fn greater_equal(client: &mut ComputeClient, lhs: TensorDesc, rhs: TensorDesc) -> (r: Result<
    TensorDesc,
    LaunchError,
>)
    requires
        cmp_launch_pre(lhs, rhs, *old(client)),
    ensures
        cmp_launch_post(CmpOp::GreaterEqual, lhs, rhs, *old(client), *final(client), r),
{
    launch_cmp(client, lhs, rhs, CmpOp::GreaterEqual)
}

/// Elementwise strict less-than of two tensors, under broadcasting.
pub fn lower(client: &mut ComputeClient, lhs: TensorDesc, rhs: TensorDesc) -> (r: Result<
    TensorDesc,
    LaunchError,
>)
    requires
        cmp_launch_pre(lhs, rhs, *old(client)),
    ensures
        cmp_launch_post(CmpOp::Lower, lhs, rhs, *old(client), *final(client), r),
{
    launch_cmp(client, lhs, rhs, CmpOp::Lower)
}

/// Elementwise less-or-equal of two tensors, under broadcasting.
pub fn lower_equal(client: &mut ComputeClient, lhs: TensorDesc, rhs: TensorDesc) -> (r: Result<
    TensorDesc,
    LaunchError,
>)
    requires
        cmp_launch_pre(lhs, rhs, *old(client)),
    ensures
        cmp_launch_post(CmpOp::LowerEqual, lhs, rhs, *old(client), *final(client), r),
{
    launch_cmp(client, lhs, rhs, CmpOp::LowerEqual)
}

/// Elementwise equality of a tensor against one scalar.
pub fn equal_elem(client: &mut ComputeClient, lhs: TensorDesc, rhs: i64) -> (out: TensorDesc)
    requires
        scalar_cmp_launch_pre(lhs, *old(client)),
    ensures
        scalar_cmp_launch_post(CmpOp::Equal, lhs, rhs, *old(client), *final(client), out),
{
    launch_scalar_cmp(client, lhs, rhs, CmpOp::Equal)
}

/// Elementwise strict greater-than of a tensor against one scalar.
pub fn greater_elem(client: &mut ComputeClient, lhs: TensorDesc, rhs: i64) -> (out: TensorDesc)
    requires
        scalar_cmp_launch_pre(lhs, *old(client)),
    ensures
        scalar_cmp_launch_post(CmpOp::Greater, lhs, rhs, *old(client), *final(client), out),
{
    launch_scalar_cmp(client, lhs, rhs, CmpOp::Greater)
}

/// Elementwise strict less-than of a tensor against one scalar.
pub fn lower_elem(client: &mut ComputeClient, lhs: TensorDesc, rhs: i64) -> (out: TensorDesc)
    requires
        scalar_cmp_launch_pre(lhs, *old(client)),
    ensures
        scalar_cmp_launch_post(CmpOp::Lower, lhs, rhs, *old(client), *final(client), out),
{
    launch_scalar_cmp(client, lhs, rhs, CmpOp::Lower)
}

/// Elementwise greater-or-equal of a tensor against one scalar.
pub fn greater_equal_elem(client: &mut ComputeClient, lhs: TensorDesc, rhs: i64) -> (out: TensorDesc)
    requires
        scalar_cmp_launch_pre(lhs, *old(client)),
    ensures
        scalar_cmp_launch_post(CmpOp::GreaterEqual, lhs, rhs, *old(client), *final(client), out),
{
    launch_scalar_cmp(client, lhs, rhs, CmpOp::GreaterEqual)
}

/// Elementwise less-or-equal of a tensor against one scalar.
pub fn lower_equal_elem(client: &mut ComputeClient, lhs: TensorDesc, rhs: i64) -> (out: TensorDesc)
    requires
        scalar_cmp_launch_pre(lhs, *old(client)),
    ensures
        scalar_cmp_launch_post(CmpOp::LowerEqual, lhs, rhs, *old(client), *final(client), out),
{
    launch_scalar_cmp(client, lhs, rhs, CmpOp::LowerEqual)
}

} // verus!
