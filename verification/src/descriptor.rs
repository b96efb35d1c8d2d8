//! Strided tensor descriptors: the shape + stride + buffer view over a
//! device buffer, and the layout arithmetic every kernel family builds on.

use vstd::prelude::*;

verus! {

/// Element kind carried by a descriptor. Values held by the model device
/// buffers are plain integers; the kind only decides byte widths and which
/// operands may alias each other.
#[derive(Clone, Copy, PartialEq, Eq, Structural, Debug)]
pub enum ElemKind {
    Float32,
    Int32,
    UInt32,
    Float64,
    Int64,
}

impl ElemKind {
    /// Byte width of one element of this kind.
    pub fn bytes(self) -> (r: usize)
        ensures
            r == self.spec_bytes(),
    {
        match self {
            ElemKind::Float32 => 4,
            ElemKind::Int32 => 4,
            ElemKind::UInt32 => 4,
            ElemKind::Float64 => 8,
            ElemKind::Int64 => 8,
        }
    }

    pub open spec fn spec_bytes(self) -> int {
        match self {
            ElemKind::Float32 => 4,
            ElemKind::Int32 => 4,
            ElemKind::UInt32 => 4,
            ElemKind::Float64 => 8,
            ElemKind::Int64 => 8,
        }
    }
}

/// Product of the dimensions `shape[d..]`; the empty product is 1.
pub open spec fn suffix_product(shape: Seq<usize>, d: int) -> int
    decreases shape.len() - d,
{
    if d >= shape.len() {
        1
    } else {
        shape[d] * suffix_product(shape, d + 1)
    }
}

/// Total element count of a shape.
pub open spec fn spec_numel(shape: Seq<usize>) -> int {
    suffix_product(shape, 0)
}

/// Every dimension of `shape[d..]` is at least 1.
pub open spec fn all_dims_positive_from(shape: Seq<usize>, d: int) -> bool {
    forall|e: int| d <= e < shape.len() ==> shape[e] >= 1
}

/// Every dimension of `shape` is at least 1.
pub open spec fn all_dims_positive(shape: Seq<usize>) -> bool {
    all_dims_positive_from(shape, 0)
}

/// A positive suffix product forces every dimension in the suffix to be
/// positive, and bounds each later suffix product by the earlier one.
pub proof fn lemma_suffix_product_positive(shape: Seq<usize>, d: int)
    requires
        0 <= d,
        suffix_product(shape, d) >= 1,
    ensures
        all_dims_positive_from(shape, d),
        forall|e: int| d <= e <= shape.len() ==> #[trigger] suffix_product(shape, e) >= 1,
        forall|e: int|
            d <= e <= shape.len() ==> #[trigger] suffix_product(shape, e) <= suffix_product(
                shape,
                d,
            ),
    decreases shape.len() - d,
{
    if d < shape.len() {
        let rest = suffix_product(shape, d + 1);
        assert(suffix_product(shape, d) == shape[d] * rest);
        if rest < 1 {
            assert(rest <= 0);
            vstd::arithmetic::mul::lemma_mul_inequality(rest, 0, shape[d] as int);
            vstd::arithmetic::mul::lemma_mul_is_commutative(shape[d] as int, rest);
            assert(shape[d] * rest <= 0);
        }
        lemma_suffix_product_positive(shape, d + 1);
        if shape[d] == 0 {
            assert(shape[d] * rest == 0);
        }
        assert forall|e: int| d <= e <= shape.len() implies #[trigger] suffix_product(shape, e)
            <= suffix_product(shape, d) by {
            if e > d {
                assert(suffix_product(shape, e) <= rest);
                vstd::arithmetic::mul::lemma_mul_inequality(1, shape[d] as int, rest);
                vstd::arithmetic::mul::lemma_mul_is_commutative(shape[d] as int, rest);
            }
        }
    }
}

/// A product of extents is never negative.
pub proof fn lemma_suffix_product_nonneg(shape: Seq<usize>, d: int)
    ensures
        suffix_product(shape, d) >= 0,
    decreases shape.len() - d,
{
    if d < shape.len() {
        lemma_suffix_product_nonneg(shape, d + 1);
        assert(shape[d] * suffix_product(shape, d + 1) >= 0) by {
            vstd::arithmetic::mul::lemma_mul_nonnegative(
                shape[d] as int,
                suffix_product(shape, d + 1),
            );
        }
    }
}

/// Shrinking extents shrinks every suffix product.
pub proof fn lemma_suffix_product_monotone(a: Seq<usize>, b: Seq<usize>, d: int)
    requires
        a.len() == b.len(),
        0 <= d,
        forall|e: int| 0 <= e < a.len() ==> a[e] <= b[e],
    ensures
        suffix_product(a, d) <= suffix_product(b, d),
    decreases a.len() - d,
{
    if d < a.len() {
        lemma_suffix_product_monotone(a, b, d + 1);
        lemma_suffix_product_nonneg(a, d + 1);
        assert(a[d] * suffix_product(a, d + 1) <= b[d] * suffix_product(b, d + 1)) by {
            vstd::arithmetic::mul::lemma_mul_upper_bound(
                a[d] as int,
                b[d] as int,
                suffix_product(a, d + 1),
                suffix_product(b, d + 1),
            );
        }
    }
}

/// Conversely, positive dimensions give a positive product.
pub proof fn lemma_positive_dims_numel(shape: Seq<usize>, d: int)
    requires
        0 <= d,
        all_dims_positive_from(shape, d),
    ensures
        suffix_product(shape, d) >= 1,
    decreases shape.len() - d,
{
    if d < shape.len() {
        lemma_positive_dims_numel(shape, d + 1);
        assert(shape[d] * suffix_product(shape, d + 1) >= 1) by {
            vstd::arithmetic::mul::lemma_mul_inequality(1, shape[d] as int, suffix_product(shape, d + 1));
            vstd::arithmetic::mul::lemma_mul_is_commutative(shape[d] as int, suffix_product(shape, d + 1));
        }
    }
}

/// The strides of a row-major (contiguous) layout of `shape`:
/// `strides[d] == product(shape[d+1..])`.
pub open spec fn is_contiguous_layout(shape: Seq<usize>, strides: Seq<usize>) -> bool {
    &&& strides.len() == shape.len()
    &&& forall|d: int|
        0 <= d < shape.len() ==> strides[d] == suffix_product(shape, d + 1)
}

/// Builds the row-major strides of `shape`.
///
/// The bound on every suffix product is what keeps the running product
/// inside `usize`.
pub fn contiguous_strides(shape: &Vec<usize>) -> (strides: Vec<usize>)
    requires
        forall|d: int| 0 <= d <= shape@.len() ==> suffix_product(shape@, d) <= usize::MAX,
    ensures
        is_contiguous_layout(shape@, strides@),
{
    let rank = shape.len();
    let mut strides: Vec<usize> = Vec::new();
    let mut d = rank;
    let mut acc: usize = 1;
    strides.resize(rank, 0);
    while d > 0
        invariant
            d <= rank,
            rank == shape@.len(),
            strides@.len() == rank,
            acc == suffix_product(shape@, d as int),
            forall|d: int| 0 <= d <= shape@.len() ==> suffix_product(shape@, d) <= usize::MAX,
            forall|e: int| d <= e < rank ==> strides@[e] == suffix_product(shape@, e + 1),
        decreases d,
    {
        d = d - 1;
        strides.set(d, acc);
        assert(suffix_product(shape@, d as int) == shape@[d as int] * acc);
        assert(shape@[d as int] * acc >= 0) by {
            vstd::arithmetic::mul::lemma_mul_nonnegative(shape@[d as int] as int, acc as int);
        }
        acc = shape[d] * acc;
    }
    strides
}

/// Largest linear offset the layout can address, counted from `d` on:
/// `sum((shape[e] - 1) * strides[e])` for `e` in `d..rank`.
pub open spec fn max_linear_index_from(shape: Seq<usize>, strides: Seq<usize>, d: int) -> int
    decreases shape.len() - d,
{
    if d >= shape.len() {
        0
    } else {
        (shape[d] - 1) * strides[d] + max_linear_index_from(shape, strides, d + 1)
    }
}

/// Largest linear offset the layout can address.
pub open spec fn max_linear_index(shape: Seq<usize>, strides: Seq<usize>) -> int {
    max_linear_index_from(shape, strides, 0)
}

/// A buffer of `len` elements backs every element the layout addresses.
/// A shape with no elements addresses nothing and fits any buffer.
pub open spec fn layout_fits(shape: Seq<usize>, strides: Seq<usize>, len: int) -> bool {
    spec_numel(shape) == 0 || max_linear_index(shape, strides) < len
}

/// On a contiguous layout the largest addressable offset is exactly
/// `numel - 1`, so a freshly allocated buffer of `numel` elements fits.
pub proof fn lemma_contiguous_max_index(shape: Seq<usize>, strides: Seq<usize>, d: int)
    requires
        is_contiguous_layout(shape, strides),
        0 <= d <= shape.len(),
        suffix_product(shape, d) >= 1,
    ensures
        max_linear_index_from(shape, strides, d) == suffix_product(shape, d) - 1,
    decreases shape.len() - d,
{
    if d < shape.len() {
        let m = shape[d] as int;
        let c = suffix_product(shape, d + 1);
        lemma_suffix_product_positive(shape, d);
        assert(c >= 1);
        assert(m >= 1);
        lemma_contiguous_max_index(shape, strides, d + 1);
        assert((m - 1) * c == m * c - c) by {
            vstd::arithmetic::mul::lemma_mul_is_distributive_sub_other_way(c, m, 1);
        }
    }
}

/// Why an operation was rejected before any device work was queued.
/// Shape validation happens synchronously at call time, so nothing is
/// allocated or submitted when it fails; device-level launch failures
/// belong to the compute client and never surface here.
#[derive(Clone, Copy, PartialEq, Eq, Structural, Debug)]
pub enum LaunchError {
    /// The operand shapes fail the broadcast or fixed-rank contract.
    ShapeMismatch,
}

/// Immutable view of a logical N-D array over a device buffer: one extent
/// and one stride (in elements) per dimension, the buffer handle, the
/// device the buffer lives on, and the element kind. A stride of 0 is a
/// broadcast dimension: reads repeat, the offset never advances.
pub struct TensorDesc {
    pub shape: Vec<usize>,
    pub strides: Vec<usize>,
    pub buffer: usize,
    pub device: usize,
    pub elem: ElemKind,
}

impl TensorDesc {
    /// Structural well-formedness: one stride per dimension, and every
    /// suffix product of the shape representable, so element counts and
    /// contiguous strides can be computed at all.
    pub open spec fn well_formed(self) -> bool {
        &&& self.strides@.len() == self.shape@.len()
        &&& forall|d: int|
            0 <= d <= self.shape@.len() ==> suffix_product(self.shape@, d) <= usize::MAX
    }

    pub open spec fn spec_rank(self) -> int {
        self.shape@.len() as int
    }

    pub fn rank(&self) -> (r: usize)
        ensures
            r == self.spec_rank(),
    {
        self.shape.len()
    }

    /// Whether this descriptor's layout is the row-major layout of its own
    /// shape, so that logical element `i` lives at linear offset `i`.
    pub open spec fn spec_is_contiguous(self) -> bool {
        is_contiguous_layout(self.shape@, self.strides@)
    }

    pub fn is_contiguous(&self) -> (r: bool)
        requires
            self.well_formed(),
        ensures
            r == self.spec_is_contiguous(),
    {
        let expected = contiguous_strides(&self.shape);
        let r = vec_eq_usize(&self.strides, &expected);
        proof {
            if self.spec_is_contiguous() {
                assert(self.strides@ =~= expected@);
            }
        }
        r
    }

    /// Total element count of the logical view.
    pub fn numel(&self) -> (n: usize)
        requires
            self.well_formed(),
        ensures
            n == spec_numel(self.shape@),
    {
        numel(&self.shape)
    }
}

/// Copies a dimension vector.
pub fn copy_dims(v: &Vec<usize>) -> (r: Vec<usize>)
    ensures
        r@ == v@,
{
    let mut r: Vec<usize> = Vec::new();
    let mut d: usize = 0;
    while d < v.len()
        invariant
            d <= v@.len(),
            r@ == v@.subrange(0, d as int),
        decreases v@.len() - d,
    {
        r.push(v[d]);
        proof {
            assert(r@ =~= v@.subrange(0, d as int + 1));
        }
        d = d + 1;
    }
    proof {
        assert(v@.subrange(0, v@.len() as int) =~= v@);
    }
    r
}

/// Copies a buffer's element values.
pub fn copy_vals(v: &Vec<i64>) -> (r: Vec<i64>)
    ensures
        r@ == v@,
{
    let mut r: Vec<i64> = Vec::new();
    let mut d: usize = 0;
    while d < v.len()
        invariant
            d <= v@.len(),
            r@ == v@.subrange(0, d as int),
        decreases v@.len() - d,
    {
        r.push(v[d]);
        proof {
            assert(r@ =~= v@.subrange(0, d as int + 1));
        }
        d = d + 1;
    }
    proof {
        assert(v@.subrange(0, v@.len() as int) =~= v@);
    }
    r
}

/// Element-for-element equality of two dimension vectors.
pub fn vec_eq_usize(a: &Vec<usize>, b: &Vec<usize>) -> (r: bool)
    ensures
        r == (a@ == b@),
{
    if a.len() != b.len() {
        proof {
            assert(a@ != b@);
        }
        return false;
    }
    let mut d: usize = 0;
    while d < a.len()
        invariant
            d <= a@.len(),
            a@.len() == b@.len(),
            forall|e: int| 0 <= e < d ==> a@[e] == b@[e],
        decreases a@.len() - d,
    {
        if a[d] != b[d] {
            proof {
                assert(a@[d as int] != b@[d as int]);
            }
            return false;
        }
        d = d + 1;
    }
    proof {
        assert(a@ =~= b@);
    }
    true
}

/// Two shapes admit broadcasting: per dimension the extents are equal or
/// one of them is 1.
pub open spec fn shapes_broadcast_compatible(a: Seq<usize>, b: Seq<usize>) -> bool {
    &&& a.len() == b.len()
    &&& forall|d: int| 0 <= d < a.len() ==> (a[d] == b[d] || a[d] == 1 || b[d] == 1)
}

/// The broadcast output shape: the per-dimension maximum of the operands.
pub open spec fn spec_broadcast_shape(a: Seq<usize>, b: Seq<usize>) -> Seq<usize> {
    Seq::new(a.len(), |d: int| if a[d] >= b[d] { a[d] } else { b[d] })
}

/// Reconciles two operand shapes under broadcasting, failing fast (before
/// any buffer is allocated) when they are incompatible. On success the
/// result is exactly the per-dimension maximum of the two shapes.
pub fn broadcast_shape(a: &Vec<usize>, b: &Vec<usize>) -> (r: Result<Vec<usize>, LaunchError>)
    ensures
        match r {
            Ok(s) => shapes_broadcast_compatible(a@, b@) && s@ == spec_broadcast_shape(a@, b@),
            Err(e) => !shapes_broadcast_compatible(a@, b@) && e == LaunchError::ShapeMismatch,
        },
{
    if a.len() != b.len() {
        return Err(LaunchError::ShapeMismatch);
    }
    let mut out: Vec<usize> = Vec::new();
    let mut d: usize = 0;
    while d < a.len()
        invariant
            d <= a@.len(),
            a@.len() == b@.len(),
            out@.len() == d,
            forall|e: int| 0 <= e < d ==> (a@[e] == b@[e] || a@[e] == 1 || b@[e] == 1),
            forall|e: int|
                0 <= e < d ==> out@[e] == (if a@[e] >= b@[e] {
                    a@[e]
                } else {
                    b@[e]
                }),
        decreases a@.len() - d,
    {
        let x = a[d];
        let y = b[d];
        if x != y && x != 1 && y != 1 {
            return Err(LaunchError::ShapeMismatch);
        }
        out.push(if x >= y {
            x
        } else {
            y
        });
        d = d + 1;
    }
    proof {
        assert(out@ =~= spec_broadcast_shape(a@, b@));
    }
    Ok(out)
}

/// Total element count of a shape, as executable code.
pub fn numel(shape: &Vec<usize>) -> (n: usize)
    requires
        forall|d: int| 0 <= d <= shape@.len() ==> suffix_product(shape@, d) <= usize::MAX,
    ensures
        n == spec_numel(shape@),
{
    let rank = shape.len();
    let mut d = rank;
    let mut acc: usize = 1;
    while d > 0
        invariant
            d <= rank,
            rank == shape@.len(),
            acc == suffix_product(shape@, d as int),
            forall|d: int| 0 <= d <= shape@.len() ==> suffix_product(shape@, d) <= usize::MAX,
        decreases d,
    {
        d = d - 1;
        assert(suffix_product(shape@, d as int) == shape@[d as int] * acc);
        assert(shape@[d as int] * acc >= 0) by {
            vstd::arithmetic::mul::lemma_mul_nonnegative(shape@[d as int] as int, acc as int);
        }
        acc = shape[d] * acc;
    }
    acc
}

} // verus!
