//! The in-place aliasing decision: whether an operation may write its
//! result directly into one operand's buffer instead of allocating a fresh
//! one. Eligibility is re-evaluated on every call from the client's
//! current reference counts; it is never cached, because uniqueness is a
//! property of the live reference graph, not of a tensor's identity.

use vstd::prelude::*;

use crate::descriptor::{is_contiguous_layout, vec_eq_usize, ElemKind, TensorDesc};

verus! {

/// Per-operation outcome of the aliasing test.
#[derive(Clone, Copy, PartialEq, Eq, Structural, Debug)]
pub enum AliasDecision {
    /// No operand may be overwritten; allocate a fresh output buffer.
    MustCopy,
    /// The operand with this index was unique and already laid out like the
    /// required output, so the launch may write into its buffer in place.
    MayAliasIfUnique(usize),
}

/// An operand may serve as the output in place only when all of these
/// hold: the caller holds the only live reference to its buffer (no other
/// outstanding reference could read the pre-overwrite values), its shape
/// is already the required output shape, its layout is the row-major
/// layout a fresh output would get, and its element byte width matches the
/// output's (a type-changing operation never aliases).
pub open spec fn alias_eligible(
    desc: TensorDesc,
    unique: bool,
    out_shape: Seq<usize>,
    out_kind: ElemKind,
) -> bool {
    &&& unique
    &&& desc.shape@ == out_shape
    &&& is_contiguous_layout(desc.shape@, desc.strides@)
    &&& desc.elem.spec_bytes() == out_kind.spec_bytes()
}

/// The decision for a binary operation: try the left operand, then the
/// right, then fall back to a fresh allocation.
pub open spec fn spec_decide_alias_binary(
    lhs: TensorDesc,
    lhs_unique: bool,
    rhs: TensorDesc,
    rhs_unique: bool,
    out_shape: Seq<usize>,
    out_kind: ElemKind,
) -> AliasDecision {
    if alias_eligible(lhs, lhs_unique, out_shape, out_kind) {
        AliasDecision::MayAliasIfUnique(0)
    } else if alias_eligible(rhs, rhs_unique, out_shape, out_kind) {
        AliasDecision::MayAliasIfUnique(1)
    } else {
        AliasDecision::MustCopy
    }
}

/// The decision for an operation with one tensor operand. Such an
/// operation writes an output with the operand's own shape and strides, so
/// the layout always matches the required output layout; only uniqueness
/// and the element byte width decide.
pub open spec fn spec_decide_alias_unary(
    input: TensorDesc,
    unique: bool,
    out_kind: ElemKind,
) -> AliasDecision {
    if unique && input.elem.spec_bytes() == out_kind.spec_bytes() {
        AliasDecision::MayAliasIfUnique(0)
    } else {
        AliasDecision::MustCopy
    }
}

/// Executable aliasing test for one operand.
fn operand_eligible(
    desc: &TensorDesc,
    unique: bool,
    out_shape: &Vec<usize>,
    out_kind: ElemKind,
) -> (r: bool)
    requires
        desc.well_formed(),
    ensures
        r == alias_eligible(*desc, unique, out_shape@, out_kind),
{
    unique && vec_eq_usize(&desc.shape, out_shape) && desc.is_contiguous() && desc.elem.bytes()
        == out_kind.bytes()
}

/// Decides whether a binary operation may write over one of its operands.
pub fn decide_alias_binary(
    lhs: &TensorDesc,
    lhs_unique: bool,
    rhs: &TensorDesc,
    rhs_unique: bool,
    out_shape: &Vec<usize>,
    out_kind: ElemKind,
) -> (d: AliasDecision)
    requires
        lhs.well_formed(),
        rhs.well_formed(),
    ensures
        d == spec_decide_alias_binary(*lhs, lhs_unique, *rhs, rhs_unique, out_shape@, out_kind),
{
    if operand_eligible(lhs, lhs_unique, out_shape, out_kind) {
        AliasDecision::MayAliasIfUnique(0)
    } else if operand_eligible(rhs, rhs_unique, out_shape, out_kind) {
        AliasDecision::MayAliasIfUnique(1)
    } else {
        AliasDecision::MustCopy
    }
}

/// Decides whether an operation with a single tensor operand may write
/// over it.
pub fn decide_alias_unary(input: &TensorDesc, unique: bool, out_kind: ElemKind) -> (d:
    AliasDecision)
    ensures
        d == spec_decide_alias_unary(*input, unique, out_kind),
{
    if unique && input.elem.bytes() == out_kind.bytes() {
        AliasDecision::MayAliasIfUnique(0)
    } else {
        AliasDecision::MustCopy
    }
}

/// Aliasing safety: an operand is chosen for in-place reuse only when its
/// uniqueness test held before the call; whenever neither operand is
/// unique (say, two live descriptors share each buffer), the decision
/// falls back to a fresh allocation, so no outstanding reader can race the
/// overwrite.
pub proof fn lemma_alias_requires_uniqueness(
    lhs: TensorDesc,
    lhs_unique: bool,
    rhs: TensorDesc,
    rhs_unique: bool,
    out_shape: Seq<usize>,
    out_kind: ElemKind,
)
    ensures
        spec_decide_alias_binary(lhs, lhs_unique, rhs, rhs_unique, out_shape, out_kind)
            == AliasDecision::MayAliasIfUnique(0) ==> lhs_unique,
        spec_decide_alias_binary(lhs, lhs_unique, rhs, rhs_unique, out_shape, out_kind)
            == AliasDecision::MayAliasIfUnique(1) ==> rhs_unique,
        !lhs_unique && !rhs_unique ==> spec_decide_alias_binary(
            lhs,
            lhs_unique,
            rhs,
            rhs_unique,
            out_shape,
            out_kind,
        ) == AliasDecision::MustCopy,
        spec_decide_alias_unary(lhs, lhs_unique, out_kind) == AliasDecision::MayAliasIfUnique(0)
            ==> lhs_unique,
{
}

} // verus!
