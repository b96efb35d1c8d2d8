//! Vectorization-width selection: how many contiguous elements one work
//! unit may pack per memory access, given each operand's trailing-dimension
//! contiguity and extent.

use vstd::prelude::*;

verus! {

/// Width `w` is admissible for an operand: the trailing dimension must be
/// fully contiguous (stride 1) and its extent divisible by `w`, so that a
/// packed access neither straddles a stride gap nor runs past the row end.
pub open spec fn width_admissible(w: u8, shape: Seq<usize>, strides: Seq<usize>, dim: int) -> bool {
    &&& strides[dim] == 1
    &&& shape[dim] as int % w as int == 0
}

/// The width picked from `candidates` (ordered by preference): the first
/// admissible one, or the always-admissible scalar width 1.
pub open spec fn selected_width(
    candidates: Seq<u8>,
    shape: Seq<usize>,
    strides: Seq<usize>,
    dim: int,
) -> u8
    decreases candidates.len(),
{
    if candidates.len() == 0 {
        1
    } else if width_admissible(candidates[0], shape, strides, dim) {
        candidates[0]
    } else {
        selected_width(candidates.drop_first(), shape, strides, dim)
    }
}

/// Candidate widths must be a divisibility chain, widest first (such as
/// `[4, 2]`): each later candidate divides every earlier one. This is what
/// makes the per-operand minimum admissible for every operand at once.
pub open spec fn divisibility_chain(candidates: Seq<u8>) -> bool {
    &&& forall|k: int| 0 <= k < candidates.len() ==> candidates[k] >= 1
    &&& forall|i: int, j: int|
        0 <= i <= j < candidates.len() ==> candidates[i] as int % candidates[j] as int == 0
}

/// Whatever is selected divides the operand's trailing extent and is at
/// least 1; moreover it is 1 or one of the candidates.
pub proof fn lemma_selected_width_divides(
    candidates: Seq<u8>,
    shape: Seq<usize>,
    strides: Seq<usize>,
    dim: int,
)
    requires
        0 <= dim < shape.len(),
        forall|k: int| 0 <= k < candidates.len() ==> candidates[k] >= 1,
    ensures
        selected_width(candidates, shape, strides, dim) >= 1,
        shape[dim] as int % selected_width(candidates, shape, strides, dim) as int == 0,
        selected_width(candidates, shape, strides, dim) == 1 || exists|k: int|
            0 <= k < candidates.len() && candidates[k] == selected_width(
                candidates,
                shape,
                strides,
                dim,
            ),
    decreases candidates.len(),
{
    let s = selected_width(candidates, shape, strides, dim);
    if candidates.len() == 0 {
        assert(shape[dim] as int % 1int == 0) by {
            vstd::arithmetic::div_mod::lemma_mod_bound(shape[dim] as int, 1int);
        }
    } else if width_admissible(candidates[0], shape, strides, dim) {
        assert(candidates[0] == s);
    } else {
        lemma_selected_width_divides(candidates.drop_first(), shape, strides, dim);
        if s != 1 {
            let k = choose|k: int|
                0 <= k < candidates.drop_first().len() && candidates.drop_first()[k] == s;
            assert(candidates[k + 1] == s);
        }
    }
}

/// Divisibility is transitive.
proof fn lemma_divides_transitive(a: int, b: int, c: int) by (nonlinear_arith)
    requires
        a >= 1,
        b >= 1,
        b % a == 0,
        c % b == 0,
    ensures
        c % a == 0,
{
    let kb = b / a;
    let kc = c / b;
    assert(b == a * kb + b % a) by {
        vstd::arithmetic::div_mod::lemma_fundamental_div_mod(b, a);
    }
    assert(c == b * kc + c % b) by {
        vstd::arithmetic::div_mod::lemma_fundamental_div_mod(c, b);
    }
    assert(c == a * (kb * kc));
    assert(c % a == 0) by {
        vstd::arithmetic::div_mod::lemma_mod_multiples_basic(kb * kc, a);
    }
}

/// Picks the widest candidate usable for one operand, or 1.
///
/// `dim` is the dimension whose contiguity decides packing, normally the
/// trailing one.
pub fn tensor_vectorization_factor(
    candidates: &Vec<u8>,
    shape: &Vec<usize>,
    strides: &Vec<usize>,
    dim: usize,
) -> (w: u8)
    requires
        dim < shape@.len(),
        dim < strides@.len(),
        forall|k: int| 0 <= k < candidates@.len() ==> candidates@[k] >= 1,
    ensures
        w == selected_width(candidates@, shape@, strides@, dim as int),
        w >= 1,
        shape@[dim as int] as int % w as int == 0,
{
    proof {
        lemma_selected_width_divides(candidates@, shape@, strides@, dim as int);
        assert(candidates@.skip(0) =~= candidates@);
    }
    let mut k: usize = 0;
    while k < candidates.len()
        invariant
            k <= candidates@.len(),
            dim < shape@.len(),
            dim < strides@.len(),
            forall|j: int| 0 <= j < candidates@.len() ==> candidates@[j] >= 1,
            selected_width(candidates@, shape@, strides@, dim as int) == selected_width(
                candidates@.skip(k as int),
                shape@,
                strides@,
                dim as int,
            ),
        decreases candidates@.len() - k,
    {
        let w = candidates[k];
        proof {
            assert(candidates@.skip(k as int)[0] == candidates@[k as int]);
            assert(candidates@.skip(k as int).drop_first() =~= candidates@.skip(k as int + 1));
        }
        if strides[dim] == 1 && shape[dim] % (w as usize) == 0 {
            assert(width_admissible(w, shape@, strides@, dim as int));
            return w;
        }
        assert(!width_admissible(w, shape@, strides@, dim as int));
        k = k + 1;
    }
    assert(candidates@.skip(k as int) =~= Seq::<u8>::empty());
    1
}

/// The width shared by two operands of one binary operation: the minimum
/// of the per-operand selections. Picking anything wider than an operand's
/// own admissible width would read or write out of bounds on that operand,
/// so the intersection is taken; the result still divides both trailing
/// extents, and 1 (the scalar path) is always accepted.
pub fn vectorization_factor_binary(
    candidates: &Vec<u8>,
    lhs_shape: &Vec<usize>,
    lhs_strides: &Vec<usize>,
    rhs_shape: &Vec<usize>,
    rhs_strides: &Vec<usize>,
    dim: usize,
) -> (w: u8)
    requires
        dim < lhs_shape@.len(),
        dim < lhs_strides@.len(),
        dim < rhs_shape@.len(),
        dim < rhs_strides@.len(),
        divisibility_chain(candidates@),
    ensures
        w == vstd::math::min(
            selected_width(candidates@, lhs_shape@, lhs_strides@, dim as int) as int,
            selected_width(candidates@, rhs_shape@, rhs_strides@, dim as int) as int,
        ),
        w >= 1,
        lhs_shape@[dim as int] as int % w as int == 0,
        rhs_shape@[dim as int] as int % w as int == 0,
{
    let wl = tensor_vectorization_factor(candidates, lhs_shape, lhs_strides, dim);
    let wr = tensor_vectorization_factor(candidates, rhs_shape, rhs_strides, dim);
    let w = if wl <= wr {
        wl
    } else {
        wr
    };
    proof {
        lemma_selected_width_divides(candidates@, lhs_shape@, lhs_strides@, dim as int);
        lemma_selected_width_divides(candidates@, rhs_shape@, rhs_strides@, dim as int);
        lemma_min_selected_divides_both(
            candidates@,
            lhs_shape@,
            lhs_strides@,
            rhs_shape@,
            rhs_strides@,
            dim as int,
        );
    }
    w
}

/// The smaller of two selections from one divisibility chain divides the
/// larger, hence divides both operands' trailing extents.
proof fn lemma_min_selected_divides_both(
    candidates: Seq<u8>,
    lhs_shape: Seq<usize>,
    lhs_strides: Seq<usize>,
    rhs_shape: Seq<usize>,
    rhs_strides: Seq<usize>,
    dim: int,
)
    requires
        0 <= dim < lhs_shape.len(),
        0 <= dim < rhs_shape.len(),
        divisibility_chain(candidates),
    ensures
        ({
            let wl = selected_width(candidates, lhs_shape, lhs_strides, dim);
            let wr = selected_width(candidates, rhs_shape, rhs_strides, dim);
            let w = vstd::math::min(wl as int, wr as int);
            &&& w >= 1
            &&& lhs_shape[dim] as int % w == 0
            &&& rhs_shape[dim] as int % w == 0
        }),
{
    let wl = selected_width(candidates, lhs_shape, lhs_strides, dim);
    let wr = selected_width(candidates, rhs_shape, rhs_strides, dim);
    let w = vstd::math::min(wl as int, wr as int);
    lemma_selected_width_divides(candidates, lhs_shape, lhs_strides, dim);
    lemma_selected_width_divides(candidates, rhs_shape, rhs_strides, dim);
    if w == 1 {
        assert(lhs_shape[dim] as int % 1int == 0) by {
            vstd::arithmetic::div_mod::lemma_mod_bound(lhs_shape[dim] as int, 1int);
        }
        assert(rhs_shape[dim] as int % 1int == 0) by {
            vstd::arithmetic::div_mod::lemma_mod_bound(rhs_shape[dim] as int, 1int);
        }
    } else {
        // Both selections are real candidates; the smaller divides the
        // larger because candidates form a divisibility chain.
        lemma_chain_values_divide(candidates, wl, wr);
        lemma_chain_values_divide(candidates, wr, wl);
        if wl <= wr {
            lemma_divides_transitive(wl as int, wr as int, rhs_shape[dim] as int);
        } else {
            lemma_divides_transitive(wr as int, wl as int, lhs_shape[dim] as int);
        }
    }
}

/// Two values drawn from one divisibility chain divide one another in the
/// direction of the smaller.
proof fn lemma_chain_values_divide(candidates: Seq<u8>, a: u8, b: u8)
    requires
        divisibility_chain(candidates),
        a >= 1,
        b >= 1,
        a == 1 || exists|k: int| 0 <= k < candidates.len() && candidates[k] == a,
        b == 1 || exists|k: int| 0 <= k < candidates.len() && candidates[k] == b,
    ensures
        a <= b ==> b as int % a as int == 0,
{
    if a <= b {
        if a == 1 {
            assert(b as int % 1int == 0) by {
                vstd::arithmetic::div_mod::lemma_mod_bound(b as int, 1int);
            }
        } else {
            let i = choose|k: int| 0 <= k < candidates.len() && candidates[k] == a;
            if b == 1 {
                // a <= b == 1 and a >= 1 force a == 1, handled above.
                assert(b as int % a as int == 0);
            } else {
                let j = choose|k: int| 0 <= k < candidates.len() && candidates[k] == b;
                if j <= i {
                    assert(candidates[j] as int % candidates[i] as int == 0);
                } else {
                    // a sits later in the chain, so b divides a; with
                    // a <= b that forces a == b.
                    assert(candidates[i] as int % candidates[j] as int == 0);
                    assert(a as int % b as int == 0);
                    if a < b {
                        assert(a as int % b as int == a as int) by {
                            vstd::arithmetic::div_mod::lemma_small_mod(a as nat, b as nat);
                        }
                    }
                    assert(a == b);
                    assert(b as int % a as int == 0) by {
                        vstd::arithmetic::div_mod::lemma_mod_self_0(a as int);
                    }
                }
            }
        }
    }
}

} // verus!
