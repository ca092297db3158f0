//! Shapes, row-major strides and linear offsets.
//!
//! A shape is a sequence of dimension sizes. Its volume is the product of the
//! sizes, and the stride of a dimension is the volume of the dimensions after
//! it, so that the last dimension varies fastest.

use vstd::prelude::*;

verus! {

/// Number of elements of an array of the given shape: the product of its
/// dimension sizes. The empty shape is a scalar and holds one element.
pub open spec fn volume(shape: Seq<usize>) -> nat
    decreases shape.len(),
{
    if shape.len() == 0 {
        1
    } else {
        shape[0] as nat * volume(shape.skip(1))
    }
}

/// Row-major strides of a shape: entry `i` is the volume of `shape[i + 1..]`.
pub open spec fn strides(shape: Seq<usize>) -> Seq<nat> {
    Seq::new(shape.len(), |i: int| volume(shape.skip(i + 1)))
}

/// A natural number clamped to the range of `usize`.
pub open spec fn saturate(n: nat) -> usize {
    if n > usize::MAX {
        usize::MAX
    } else {
        n as usize
    }
}

/// The strides as they are stored: each one clamped to `usize::MAX`.
///
/// Clamping only ever happens for a shape that has a zero-sized dimension or
/// whose volume does not fit in `usize` (see `lemma_strides_fit`).
pub open spec fn stored_strides(shape: Seq<usize>) -> Seq<usize> {
    Seq::new(shape.len(), |i: int| saturate(strides(shape)[i]))
}

/// Whether `coords` names an element of an array of the given shape: one
/// coordinate per dimension, each below the size of its dimension.
pub open spec fn in_bounds(shape: Seq<usize>, coords: Seq<usize>) -> bool {
    &&& coords.len() == shape.len()
    &&& forall|i: int| 0 <= i < shape.len() ==> coords[i] < shape[i]
}

/// Sum of `coords[i] * steps[i]` over the indices that both sequences have.
pub open spec fn dot(coords: Seq<usize>, steps: Seq<nat>) -> nat
    decreases coords.len(),
{
    if coords.len() == 0 || steps.len() == 0 {
        0
    } else {
        coords[0] as nat * steps[0] + dot(coords.skip(1), steps.skip(1))
    }
}

/// Linear offset of the element at `coords` in row-major order.
pub open spec fn offset(shape: Seq<usize>, coords: Seq<usize>) -> nat {
    dot(coords, strides(shape))
}

/// The coordinates of the element stored at linear offset `k`: the offset is
/// divided by the volume of the trailing dimensions, and the remainder is
/// decoded in those dimensions.
pub open spec fn coords_of(shape: Seq<usize>, k: nat) -> Seq<usize>
    decreases shape.len(),
{
    if shape.len() == 0 {
        Seq::empty()
    } else {
        let rest = volume(shape.skip(1));
        seq![(k / rest) as usize] + coords_of(shape.skip(1), k % rest)
    }
}

/// The volume of the tail `shape[i..]` is its first size times the volume of
/// `shape[i + 1..]`.
pub proof fn lemma_volume_skip(shape: Seq<usize>, i: int)
    requires
        0 <= i < shape.len(),
    ensures
        volume(shape.skip(i)) == shape[i] as nat * volume(shape.skip(i + 1)),
{
    assert(shape.skip(i).skip(1) =~= shape.skip(i + 1));
}

/// A shape with a zero-sized dimension holds no elements.
pub proof fn lemma_volume_zero(shape: Seq<usize>, i: int)
    requires
        0 <= i < shape.len(),
        shape[i] == 0,
    ensures
        volume(shape) == 0,
    decreases i,
{
    if i > 0 {
        lemma_volume_zero(shape.skip(1), i - 1);
        assert(shape[0] as nat * volume(shape.skip(1)) == 0) by (nonlinear_arith)
            requires
                volume(shape.skip(1)) == 0,
        ;
    } else {
        assert(shape[0] as nat * volume(shape.skip(1)) == 0) by (nonlinear_arith)
            requires
                shape[0] == 0,
        ;
    }
}

/// A two-dimensional shape holds rows times columns elements.
pub proof fn lemma_volume_of_matrix(shape: Seq<usize>)
    requires
        shape.len() == 2,
    ensures
        volume(shape) == shape[0] * shape[1],
{
    assert(shape.skip(1).skip(1) =~= Seq::<usize>::empty());
    assert(volume(shape.skip(1).skip(1)) == 1);
    assert(volume(shape.skip(1)) == shape[1] as nat * 1);
    assert(volume(shape) == shape[0] as nat * (shape[1] as nat * 1));
    assert(shape[0] as nat * (shape[1] as nat * 1) == shape[0] * shape[1]) by (nonlinear_arith);
}

/// Where every dimension before `i` is positive, dropping them does not
/// enlarge the volume.
pub proof fn lemma_volume_tail_le(shape: Seq<usize>, i: int)
    requires
        0 <= i <= shape.len(),
        forall|j: int| 0 <= j < i ==> shape[j] > 0,
    ensures
        volume(shape.skip(i)) <= volume(shape),
    decreases i,
{
    if i == 0 {
        assert(shape.skip(0) =~= shape);
    } else {
        lemma_volume_tail_le(shape, i - 1);
        lemma_volume_skip(shape, i - 1);
        assert(volume(shape.skip(i)) <= shape[i - 1] as nat * volume(shape.skip(i)))
            by (nonlinear_arith)
            requires
                shape[i - 1] > 0,
        ;
    }
}

/// A stride is stored exactly whenever the shape has no zero-sized dimension
/// and its volume fits in `usize`.
pub proof fn lemma_strides_fit(shape: Seq<usize>, i: int)
    requires
        0 <= i < shape.len(),
        forall|j: int| 0 <= j < shape.len() ==> shape[j] > 0,
        volume(shape) <= usize::MAX,
    ensures
        stored_strides(shape)[i] as nat == strides(shape)[i],
{
    lemma_volume_tail_le(shape, i + 1);
}

/// The strides of a tail of a shape are the tail of its strides.
pub proof fn lemma_strides_skip(shape: Seq<usize>, j: int)
    requires
        0 <= j <= shape.len(),
    ensures
        strides(shape).skip(j) == strides(shape.skip(j)),
{
    assert forall|i: int| 0 <= i < shape.len() - j implies strides(shape).skip(j)[i] == strides(
        shape.skip(j),
    )[i] by {
        assert(shape.skip(j).skip(i + 1) =~= shape.skip(j + i + 1));
    }
    assert(strides(shape).skip(j) =~= strides(shape.skip(j)));
}

/// The offset of `coords` splits into the contribution of the first
/// dimension and the offset of the remaining coordinates in the remaining
/// dimensions.
pub proof fn lemma_offset_unfold(shape: Seq<usize>, coords: Seq<usize>)
    requires
        shape.len() > 0,
        coords.len() == shape.len(),
    ensures
        offset(shape, coords) == coords[0] as nat * volume(shape.skip(1)) + offset(
            shape.skip(1),
            coords.skip(1),
        ),
{
    lemma_strides_skip(shape, 1);
}

/// Decoding stays in range: the offset of coordinates that are in bounds is
/// below the volume of the shape.
pub proof fn lemma_offset_in_range(shape: Seq<usize>, coords: Seq<usize>)
    requires
        in_bounds(shape, coords),
    ensures
        offset(shape, coords) < volume(shape),
    decreases shape.len(),
{
    if shape.len() > 0 {
        lemma_offset_unfold(shape, coords);
        lemma_offset_in_range(shape.skip(1), coords.skip(1));
        let rest = volume(shape.skip(1));
        let tail = offset(shape.skip(1), coords.skip(1));
        assert(coords[0] as nat * rest + tail < shape[0] as nat * rest) by (nonlinear_arith)
            requires
                coords[0] < shape[0],
                tail < rest,
        ;
    }
}

/// Decoding is injective: two coordinate sequences in bounds with the same
/// offset are the same sequence.
pub proof fn lemma_offset_injective(shape: Seq<usize>, a: Seq<usize>, b: Seq<usize>)
    requires
        in_bounds(shape, a),
        in_bounds(shape, b),
        offset(shape, a) == offset(shape, b),
    ensures
        a == b,
    decreases shape.len(),
{
    if shape.len() > 0 {
        lemma_offset_unfold(shape, a);
        lemma_offset_unfold(shape, b);
        lemma_offset_in_range(shape.skip(1), a.skip(1));
        lemma_offset_in_range(shape.skip(1), b.skip(1));
        let rest = volume(shape.skip(1));
        let ta = offset(shape.skip(1), a.skip(1));
        let tb = offset(shape.skip(1), b.skip(1));
        assert(a[0] == b[0] && ta == tb) by (nonlinear_arith)
            requires
                a[0] as nat * rest + ta == b[0] as nat * rest + tb,
                ta < rest,
                tb < rest,
        ;
        lemma_offset_injective(shape.skip(1), a.skip(1), b.skip(1));
        assert forall|i: int| 0 <= i < a.len() implies a[i] == b[i] by {
            if i > 0 {
                assert(a[i] == a.skip(1)[i - 1]);
                assert(b[i] == b.skip(1)[i - 1]);
            }
        }
    }
    assert(a =~= b);
}

/// Decoding is onto: every offset below the volume is the offset of
/// `coords_of(shape, k)`, which is in bounds.
pub proof fn lemma_offset_surjective(shape: Seq<usize>, k: nat)
    requires
        k < volume(shape),
    ensures
        in_bounds(shape, coords_of(shape, k)),
        offset(shape, coords_of(shape, k)) == k,
    decreases shape.len(),
{
    let coords = coords_of(shape, k);
    if shape.len() > 0 {
        let rest = volume(shape.skip(1));
        assert(rest > 0 && k / rest < shape[0] && k % rest < rest && (k / rest) * rest + k % rest
            == k) by (nonlinear_arith)
            requires
                k < shape[0] as nat * rest,
        ;
        lemma_offset_surjective(shape.skip(1), k % rest);
        let tail = coords_of(shape.skip(1), k % rest);
        assert(coords.skip(1) =~= tail);
        assert(coords[0] as nat == k / rest);
        assert forall|i: int| 0 <= i < shape.len() implies coords[i] < shape[i] by {
            if i > 0 {
                assert(coords[i] == tail[i - 1]);
                assert(shape[i] == shape.skip(1)[i - 1]);
            }
        }
        lemma_offset_unfold(shape, coords);
    }
}

/// Row-major addressing is a bijection between the coordinates in bounds and
/// the offsets below the volume, with `coords_of` as its inverse.
pub proof fn lemma_offset_bijection(shape: Seq<usize>)
    ensures
        strides(shape).len() == shape.len(),
        forall|c: Seq<usize>| in_bounds(shape, c) ==> #[trigger] offset(shape, c) < volume(shape),
        forall|c: Seq<usize>|
            in_bounds(shape, c) ==> coords_of(shape, #[trigger] offset(shape, c)) == c,
        forall|k: nat|
            k < volume(shape) ==> in_bounds(shape, #[trigger] coords_of(shape, k)) && offset(
                shape,
                coords_of(shape, k),
            ) == k,
{
    assert forall|c: Seq<usize>| in_bounds(shape, c) implies #[trigger] offset(shape, c) < volume(
        shape,
    ) && coords_of(shape, offset(shape, c)) == c by {
        lemma_offset_in_range(shape, c);
        lemma_offset_surjective(shape, offset(shape, c));
        lemma_offset_injective(shape, coords_of(shape, offset(shape, c)), c);
    }
    assert forall|k: nat| k < volume(shape) implies in_bounds(
        shape,
        #[trigger] coords_of(shape, k),
    ) && offset(shape, coords_of(shape, k)) == k by {
        lemma_offset_surjective(shape, k);
    }
}

/// The stored strides decode like the exact ones: for coordinates in bounds
/// of a shape whose volume fits in `usize`, the dot product with the stored
/// strides is the offset.
pub proof fn lemma_stored_strides_decode(shape: Seq<usize>, coords: Seq<usize>)
    requires
        in_bounds(shape, coords),
        volume(shape) <= usize::MAX,
    ensures
        stored_strides(shape).len() == shape.len(),
        dot(coords, stored_strides(shape).map_values(|step: usize| step as nat)) == offset(
            shape,
            coords,
        ),
{
    let stored = stored_strides(shape).map_values(|step: usize| step as nat);
    assert forall|i: int| 0 <= i < shape.len() implies stored[i] == strides(shape)[i] by {
        lemma_strides_fit(shape, i);
    }
    assert(stored =~= strides(shape));
}

/// Clamping a factor before multiplying clamps to the same value as clamping
/// the exact product.
proof fn lemma_saturate_mul(a: usize, p: nat)
    ensures
        saturate(a as nat * saturate(p) as nat) == saturate(a as nat * p),
{
    if p > usize::MAX {
        if a == 0 {
            assert(a as nat * p == 0) by (nonlinear_arith)
                requires
                    a == 0,
            ;
            assert(a as nat * (usize::MAX as nat) == 0) by (nonlinear_arith)
                requires
                    a == 0,
            ;
        } else {
            assert(a as nat * p > usize::MAX) by (nonlinear_arith)
                requires
                    a >= 1,
                    p > usize::MAX,
            ;
            assert(a as nat * (usize::MAX as nat) >= usize::MAX) by (nonlinear_arith)
                requires
                    a >= 1,
            ;
        }
    }
}

/// The product of two sizes, clamped to `usize::MAX`.
fn saturating_product(a: usize, b: usize) -> (p: usize)
    ensures
        p == saturate(a as nat * b as nat),
{
    match a.checked_mul(b) {
        Some(p) => p,
        None => usize::MAX,
    }
}

/// The number of elements of an array of the given shape, or `None` when
/// that number does not fit in `usize`.
pub fn checked_volume(shape: &[usize]) -> (count: Option<usize>)
    ensures
        count == (if volume(shape@) <= usize::MAX {
            Some(volume(shape@) as usize)
        } else {
            None
        }),
{
    let n: usize = shape.len();
    let mut k: usize = 0;
    while k < n
        invariant
            n == shape@.len(),
            k <= n,
            forall|j: int| 0 <= j < k ==> shape@[j] > 0,
        decreases n - k,
    {
        if shape[k] == 0 {
            proof {
                lemma_volume_zero(shape@, k as int);
            }
            return Some(0);
        }
        k = k + 1;
    }
    let mut acc: usize = 1;
    let mut i: usize = n;
    proof {
        assert(shape@.skip(n as int).len() == 0);
    }
    while i > 0
        invariant
            n == shape@.len(),
            i <= n,
            forall|j: int| 0 <= j < n ==> shape@[j] > 0,
            acc as nat == volume(shape@.skip(i as int)),
        decreases i,
    {
        proof {
            lemma_volume_skip(shape@, i - 1);
            lemma_volume_tail_le(shape@, i - 1);
        }
        match shape[i - 1].checked_mul(acc) {
            Some(p) => {
                acc = p;
            },
            None => {
                return None;
            },
        }
        i = i - 1;
    }
    proof {
        assert(shape@.skip(0) =~= shape@);
    }
    Some(acc)
}

/// The strides of a shape ("dim steps"), one per dimension, the last one
/// being 1. A stride that does not fit in `usize` is stored as `usize::MAX`.
pub fn compute_dim_steps(shape: &[usize]) -> (steps: Vec<usize>)
    ensures
        steps@ == stored_strides(shape@),
{
    let n: usize = shape.len();
    let mut steps: Vec<usize> = Vec::new();
    let mut k: usize = 0;
    while k < n
        invariant
            k <= n,
            steps@.len() == k,
            forall|j: int| 0 <= j < k ==> steps@[j] == 1,
        decreases n - k,
    {
        steps.push(1);
        k = k + 1;
    }
    if n == 0 {
        assert(steps@ =~= stored_strides(shape@));
        return steps;
    }
    let mut i: usize = n - 1;
    proof {
        assert(shape@.skip(n as int).len() == 0);
    }
    while i > 0
        invariant
            n == shape@.len(),
            steps@.len() == n,
            i < n,
            forall|j: int| i <= j < n ==> steps@[j] == stored_strides(shape@)[j],
        decreases i,
    {
        proof {
            lemma_volume_skip(shape@, i as int);
            lemma_saturate_mul(shape@[i as int], strides(shape@)[i as int]);
        }
        let step: usize = saturating_product(shape[i], steps[i]);
        steps.set(i - 1, step);
        i = i - 1;
    }
    assert(steps@ =~= stored_strides(shape@));
    steps
}

/// The linear offset of the element at `coords`, computed from the stored
/// strides of the shape, or `None` when `coords` is not in bounds.
pub fn checked_offset(shape: &[usize], steps: &[usize], coords: &[usize]) -> (index: Option<usize>)
    requires
        steps@ == stored_strides(shape@),
        volume(shape@) <= usize::MAX,
    ensures
        index == (if in_bounds(shape@, coords@) {
            Some(offset(shape@, coords@) as usize)
        } else {
            None
        }),
{
    let n: usize = shape.len();
    if coords.len() != n {
        return None;
    }
    let mut k: usize = 0;
    while k < n
        invariant
            n == shape@.len(),
            n == coords@.len(),
            k <= n,
            forall|j: int| 0 <= j < k ==> coords@[j] < shape@[j],
        decreases n - k,
    {
        if coords[k] >= shape[k] {
            return None;
        }
        k = k + 1;
    }
    let mut acc: usize = 0;
    let mut i: usize = n;
    while i > 0
        invariant
            n == shape@.len(),
            i <= n,
            in_bounds(shape@, coords@),
            steps@ == stored_strides(shape@),
            volume(shape@) <= usize::MAX,
            acc as nat == offset(shape@.skip(i as int), coords@.skip(i as int)),
        decreases i,
    {
        proof {
            let tail_shape = shape@.skip(i - 1);
            let tail_coords = coords@.skip(i - 1);
            assert(tail_shape.skip(1) =~= shape@.skip(i as int));
            assert(tail_coords.skip(1) =~= coords@.skip(i as int));
            lemma_offset_unfold(tail_shape, tail_coords);
            lemma_offset_in_range(tail_shape, tail_coords);
            lemma_volume_tail_le(shape@, i - 1);
            lemma_strides_fit(shape@, i - 1);
        }
        let term: usize = coords[i - 1] * steps[i - 1];
        acc = term + acc;
        i = i - 1;
    }
    proof {
        assert(shape@.skip(0) =~= shape@);
        assert(coords@.skip(0) =~= coords@);
    }
    Some(acc)
}

} // verus!
