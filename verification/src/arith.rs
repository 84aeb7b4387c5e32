//! Products of axis sizes, the arithmetic that shapes and strides rest on.

use vstd::prelude::*;

verus! {

/// The product of all entries of `s`; the empty product is 1.
pub open spec fn product(s: Seq<usize>) -> nat
    decreases s.len(),
{
    if s.len() == 0 {
        1
    } else {
        (s[0] as nat) * product(s.skip(1))
    }
}

/// Whether some entry of `s` is zero.
pub open spec fn has_zero(s: Seq<usize>) -> bool {
    exists|i: int| 0 <= i < s.len() && s[i] == 0
}

/// A sequence with a zero entry has product zero.
pub proof fn lemma_product_zero(s: Seq<usize>)
    requires
        has_zero(s),
    ensures
        product(s) == 0,
    decreases s.len(),
{
    let i = choose|i: int| 0 <= i < s.len() && s[i] == 0;
    if i == 0 {
        assert(product(s) == (s[0] as nat) * product(s.skip(1)));
    } else {
        assert(s.skip(1)[i - 1] == 0);
        lemma_product_zero(s.skip(1));
        assert(product(s) == (s[0] as nat) * product(s.skip(1)));
        assert((s[0] as nat) * 0 == 0);
    }
}

/// A sequence without a zero entry has a positive product.
pub proof fn lemma_product_positive(s: Seq<usize>)
    requires
        !has_zero(s),
    ensures
        product(s) >= 1,
    decreases s.len(),
{
    if s.len() > 0 {
        assert(s[0] != 0);
        assert forall|i: int| 0 <= i < s.skip(1).len() implies s.skip(1)[i] != 0 by {
            assert(s[i + 1] != 0);
        }
        lemma_product_positive(s.skip(1));
        assert(product(s) >= 1) by (nonlinear_arith)
            requires
                product(s) == (s[0] as nat) * product(s.skip(1)),
                s[0] >= 1,
                product(s.skip(1)) >= 1,
        ;
    }
}

/// The product of a shape of two axes is the product of the two.
pub proof fn lemma_product_two(shape: Seq<usize>)
    requires
        shape.len() == 2,
    ensures
        product(shape) == shape[0] * shape[1],
{
    reveal_with_fuel(product, 3);
    assert(shape.skip(1).skip(1) =~= Seq::<usize>::empty());
    assert(product(shape.skip(1)) == (shape[1] as nat) * 1);
    assert(product(shape) == (shape[0] as nat) * product(shape.skip(1)));
}

/// The product of a suffix, one step at a time.
pub proof fn lemma_product_skip(s: Seq<usize>, i: int)
    requires
        0 <= i < s.len(),
    ensures
        product(s.skip(i)) == (s[i] as nat) * product(s.skip(i + 1)),
{
    assert(s.skip(i).skip(1) =~= s.skip(i + 1));
}

/// Without a zero entry, no suffix has a larger product than the whole.
pub proof fn lemma_product_suffix_le(s: Seq<usize>, i: int)
    requires
        !has_zero(s),
        0 <= i <= s.len(),
    ensures
        1 <= product(s.skip(i)) <= product(s),
    decreases i,
{
    assert forall|j: int| 0 <= j < s.skip(i).len() implies s.skip(i)[j] != 0 by {
        assert(s[i + j] != 0);
    }
    lemma_product_positive(s.skip(i));
    if i == 0 {
        assert(s.skip(0) =~= s);
    } else {
        lemma_product_suffix_le(s, i - 1);
        lemma_product_skip(s, i - 1);
        assert(s[i - 1] != 0);
        assert(product(s.skip(i)) <= (s[i - 1] as nat) * product(s.skip(i))) by (nonlinear_arith)
            requires
                s[i - 1] >= 1,
        ;
    }
}

/// Whether `idx` is a multi-index into an array of shape `shape`: one
/// component for each axis, each below the size of its axis.
pub open spec fn in_bounds(idx: Seq<usize>, shape: Seq<usize>) -> bool {
    &&& idx.len() == shape.len()
    &&& forall|i: int| 0 <= i < idx.len() ==> idx[i] < shape[i]
}

/// The multi-index of rank `n` whose components are all zero.
pub open spec fn zero_index(n: nat) -> Seq<usize> {
    Seq::new(n, |i: int| 0usize)
}

/// The sum of the products of the components of `idx` and `stride`, axis
/// by axis, over the axes that both have.
pub open spec fn dot(idx: Seq<usize>, stride: Seq<usize>) -> nat
    decreases idx.len(),
{
    if idx.len() == 0 || stride.len() == 0 {
        0
    } else {
        (idx[0] as nat) * (stride[0] as nat) + dot(idx.skip(1), stride.skip(1))
    }
}

/// The position of `idx` when the multi-indices into `shape` are counted
/// in row-major order, the last axis running fastest.
pub open spec fn ravel(idx: Seq<usize>, shape: Seq<usize>) -> nat
    decreases idx.len(),
{
    if idx.len() == 0 || shape.len() == 0 {
        0
    } else {
        (idx[0] as nat) * product(shape.skip(1)) + ravel(idx.skip(1), shape.skip(1))
    }
}

/// The multi-index into `shape` that stands at position `k` in row-major
/// order. Meant for shapes without a zero axis and `k < product(shape)`.
pub open spec fn unravel(k: nat, shape: Seq<usize>) -> Seq<usize>
    decreases shape.len(),
{
    if shape.len() == 0 {
        Seq::empty()
    } else {
        let inner = product(shape.skip(1));
        seq![(k / inner) as usize] + unravel(k % inner, shape.skip(1))
    }
}

/// Whether `stride` is the row-major stride of `shape`: the stride of an
/// axis is the product of the sizes of the axes after it.
pub open spec fn is_row_major(stride: Seq<usize>, shape: Seq<usize>) -> bool {
    &&& stride.len() == shape.len()
    &&& forall|i: int| 0 <= i < shape.len() ==> stride[i] == product(shape.skip(i + 1))
}

/// A shape that has a multi-index in bounds has no zero axis.
pub proof fn lemma_in_bounds_no_zero(idx: Seq<usize>, shape: Seq<usize>)
    requires
        in_bounds(idx, shape),
    ensures
        !has_zero(shape),
{
    assert forall|i: int| 0 <= i < shape.len() implies shape[i] != 0 by {
        assert(idx[i] < shape[i]);
    }
}

/// Dropping the first axis keeps a multi-index in bounds.
pub proof fn lemma_in_bounds_skip(idx: Seq<usize>, shape: Seq<usize>)
    requires
        in_bounds(idx, shape),
        idx.len() > 0,
    ensures
        in_bounds(idx.skip(1), shape.skip(1)),
{
    assert forall|i: int| 0 <= i < idx.skip(1).len() implies idx.skip(1)[i] < shape.skip(1)[i] by {
        assert(idx[i + 1] < shape[i + 1]);
    }
}

/// A multi-index in bounds has a position below the number of elements.
pub proof fn lemma_ravel_bound(idx: Seq<usize>, shape: Seq<usize>)
    requires
        in_bounds(idx, shape),
    ensures
        ravel(idx, shape) < product(shape),
    decreases idx.len(),
{
    if idx.len() > 0 {
        lemma_in_bounds_skip(idx, shape);
        lemma_ravel_bound(idx.skip(1), shape.skip(1));
        let inner = product(shape.skip(1));
        assert((idx[0] as nat) * inner + inner <= (shape[0] as nat) * inner) by (nonlinear_arith)
            requires
                idx[0] < shape[0],
        ;
    }
}

/// The zero multi-index stands at position zero.
pub proof fn lemma_ravel_zero(shape: Seq<usize>)
    ensures
        ravel(zero_index(shape.len()), shape) == 0,
    decreases shape.len(),
{
    if shape.len() > 0 {
        let zeros = zero_index(shape.len());
        assert(zeros.skip(1) =~= zero_index(shape.skip(1).len()));
        lemma_ravel_zero(shape.skip(1));
        assert(zeros[0] == 0);
        assert((zeros[0] as nat) * product(shape.skip(1)) == 0);
    }
}

/// The multi-index whose components are all the largest of their axes
/// stands at the last position.
pub proof fn lemma_ravel_last(idx: Seq<usize>, shape: Seq<usize>)
    requires
        idx.len() == shape.len(),
        forall|i: int| 0 <= i < idx.len() ==> idx[i] + 1 == shape[i],
    ensures
        ravel(idx, shape) + 1 == product(shape),
    decreases idx.len(),
{
    if idx.len() > 0 {
        assert forall|i: int| 0 <= i < idx.skip(1).len() implies idx.skip(1)[i] + 1 == shape.skip(
            1,
        )[i] by {
            assert(idx[i + 1] + 1 == shape[i + 1]);
        }
        lemma_ravel_last(idx.skip(1), shape.skip(1));
        let inner = product(shape.skip(1));
        assert((idx[0] as nat) * inner + inner == (shape[0] as nat) * inner) by (nonlinear_arith)
            requires
                idx[0] + 1 == shape[0],
        ;
    }
}

/// Advancing axis `axis` by one, where every later axis stands at its
/// largest component and falls back to zero, advances the position by one.
pub proof fn lemma_ravel_step(before: Seq<usize>, after: Seq<usize>, shape: Seq<usize>, axis: int)
    requires
        before.len() == shape.len(),
        after.len() == shape.len(),
        0 <= axis < shape.len(),
        forall|i: int| 0 <= i < axis ==> after[i] == before[i],
        after[axis] == before[axis] + 1,
        forall|i: int| axis < i < shape.len() ==> before[i] + 1 == shape[i] && after[i] == 0,
    ensures
        ravel(after, shape) == ravel(before, shape) + 1,
    decreases shape.len(),
{
    let inner = product(shape.skip(1));
    if axis == 0 {
        assert(after.skip(1) =~= zero_index(shape.skip(1).len()));
        lemma_ravel_zero(shape.skip(1));
        assert forall|i: int| 0 <= i < before.skip(1).len() implies before.skip(1)[i] + 1
            == shape.skip(1)[i] by {
            assert(before[i + 1] + 1 == shape[i + 1]);
        }
        lemma_ravel_last(before.skip(1), shape.skip(1));
        assert((after[0] as nat) * inner == (before[0] as nat) * inner + inner)
            by (nonlinear_arith)
            requires
                after[0] == before[0] + 1,
        ;
    } else {
        assert forall|i: int| axis - 1 < i < shape.skip(1).len() implies before.skip(1)[i] + 1
            == shape.skip(1)[i] && after.skip(1)[i] == 0 by {
            assert(before[i + 1] + 1 == shape[i + 1] && after[i + 1] == 0);
        }
        lemma_ravel_step(before.skip(1), after.skip(1), shape.skip(1), axis - 1);
    }
}

/// In a shape without a zero axis, every position below the number of
/// elements is the position of a multi-index in bounds: the one that
/// `unravel` gives.
pub proof fn lemma_unravel(k: nat, shape: Seq<usize>)
    requires
        !has_zero(shape),
        k < product(shape),
    ensures
        in_bounds(unravel(k, shape), shape),
        ravel(unravel(k, shape), shape) == k,
    decreases shape.len(),
{
    if shape.len() > 0 {
        let rest = shape.skip(1);
        let inner = product(rest);
        assert forall|i: int| 0 <= i < rest.len() implies rest[i] != 0 by {
            assert(shape[i + 1] != 0);
        }
        lemma_product_positive(rest);
        let q = k / inner;
        let r = k % inner;
        vstd::arithmetic::div_mod::lemma_fundamental_div_mod(k as int, inner as int);
        vstd::arithmetic::div_mod::lemma_mod_bound(k as int, inner as int);
        vstd::arithmetic::div_mod::lemma_div_pos_is_pos(k as int, inner as int);
        assert(q < shape[0]) by (nonlinear_arith)
            requires
                k == inner * q + r,
                0 <= r,
                k < (shape[0] as nat) * inner,
                inner > 0,
        ;
        lemma_unravel(r, rest);
        let idx = unravel(k, shape);
        assert(idx.skip(1) =~= unravel(r, rest));
        assert(idx[0] == q);
        assert forall|i: int| 0 <= i < idx.len() implies idx[i] < shape[i] by {
            if i > 0 {
                assert(idx[i] == unravel(r, rest)[i - 1]);
                assert(unravel(r, rest)[i - 1] < rest[i - 1]);
            }
        }
        assert(q * inner == inner * q) by (nonlinear_arith);
    }
}

/// A multi-index in bounds is the one that `unravel` gives for its
/// position: no two multi-indices in bounds share a position.
pub proof fn lemma_unravel_ravel(idx: Seq<usize>, shape: Seq<usize>)
    requires
        in_bounds(idx, shape),
    ensures
        unravel(ravel(idx, shape), shape) == idx,
    decreases idx.len(),
{
    if idx.len() == 0 {
        assert(unravel(ravel(idx, shape), shape) =~= idx);
    } else {
        let rest = shape.skip(1);
        let inner = product(rest);
        lemma_in_bounds_skip(idx, shape);
        lemma_in_bounds_no_zero(idx.skip(1), rest);
        lemma_product_positive(rest);
        lemma_ravel_bound(idx.skip(1), rest);
        lemma_unravel_ravel(idx.skip(1), rest);
        let tail = ravel(idx.skip(1), rest);
        let k = ravel(idx, shape);
        vstd::arithmetic::div_mod::lemma_fundamental_div_mod_converse(
            k as int,
            inner as int,
            idx[0] as int,
            tail as int,
        );
        assert(unravel(k, shape) =~= idx);
    }
}

/// The multi-index at the last position is, on every axis, the largest
/// component of the axis.
pub proof fn lemma_unravel_last(shape: Seq<usize>)
    requires
        !has_zero(shape),
    ensures
        product(shape) >= 1,
        unravel((product(shape) - 1) as nat, shape).len() == shape.len(),
        forall|i: int|
            0 <= i < shape.len() ==> #[trigger] unravel((product(shape) - 1) as nat, shape)[i] + 1
                == shape[i],
{
    lemma_product_positive(shape);
    let last = Seq::new(shape.len(), |i: int| (shape[i] - 1) as usize);
    assert forall|i: int| 0 <= i < shape.len() implies last[i] + 1 == shape[i] by {
        assert(shape[i] != 0);
    }
    assert(in_bounds(last, shape));
    lemma_ravel_last(last, shape);
    lemma_unravel_ravel(last, shape);
}

/// The first component of the multi-index at position `k` is the quotient
/// of `k` by the number of elements under one step of the first axis; the
/// other components are those of the remainder in the remaining axes.
pub proof fn lemma_unravel_head(k: nat, shape: Seq<usize>)
    requires
        !has_zero(shape),
        k < product(shape),
        shape.len() > 0,
    ensures
        product(shape.skip(1)) > 0,
        unravel(k, shape)[0] == k / product(shape.skip(1)),
        unravel(k, shape).skip(1) == unravel(k % product(shape.skip(1)), shape.skip(1)),
        k % product(shape.skip(1)) < product(shape.skip(1)),
        !has_zero(shape.skip(1)),
{
    let rest = shape.skip(1);
    let inner = product(rest);
    assert forall|i: int| 0 <= i < rest.len() implies rest[i] != 0 by {
        assert(shape[i + 1] != 0);
    }
    lemma_product_positive(rest);
    vstd::arithmetic::div_mod::lemma_fundamental_div_mod(k as int, inner as int);
    vstd::arithmetic::div_mod::lemma_mod_bound(k as int, inner as int);
    vstd::arithmetic::div_mod::lemma_div_pos_is_pos(k as int, inner as int);
    let q = k / inner;
    let r = k % inner;
    assert(q < shape[0]) by (nonlinear_arith)
        requires
            k == inner * q + r,
            0 <= r,
            k < (shape[0] as nat) * inner,
            inner > 0,
    ;
    assert(unravel(k, shape).skip(1) =~= unravel(r, rest));
}

/// Whether `a` comes before `b` in lexicographic order: at the first axis
/// on which they differ, `a` has the smaller component.
pub open spec fn lex_less(a: Seq<usize>, b: Seq<usize>) -> bool {
    exists|i: int|
        0 <= i < a.len() && i < b.len() && #[trigger] a[i] < b[i] && forall|j: int|
            0 <= j < i ==> a[j] == b[j]
}

/// The row-major traversal runs in lexicographic order: of two positions,
/// the earlier holds the multi-index that comes first.
pub proof fn lemma_unravel_lex(shape: Seq<usize>, j: nat, k: nat)
    requires
        !has_zero(shape),
        j < k < product(shape),
    ensures
        lex_less(unravel(j, shape), unravel(k, shape)),
    decreases shape.len(),
{
    if shape.len() == 0 {
        assert(product(shape) == 1);
    } else {
        let rest = shape.skip(1);
        let inner = product(rest);
        lemma_unravel_head(j, shape);
        lemma_unravel_head(k, shape);
        let a = unravel(j, shape);
        let b = unravel(k, shape);
        vstd::arithmetic::div_mod::lemma_fundamental_div_mod(j as int, inner as int);
        vstd::arithmetic::div_mod::lemma_fundamental_div_mod(k as int, inner as int);
        vstd::arithmetic::div_mod::lemma_div_is_ordered(j as int, k as int, inner as int);
        if j / inner < k / inner {
            assert(a[0] < b[0]);
        } else {
            assert(j / inner == k / inner);
            assert(j % inner < k % inner);
            lemma_unravel_lex(rest, j % inner, k % inner);
            let ra = unravel(j % inner, rest);
            let rb = unravel(k % inner, rest);
            assert(a.skip(1) =~= ra);
            assert(b.skip(1) =~= rb);
            let i = choose|i: int|
                0 <= i < ra.len() && i < rb.len() && #[trigger] ra[i] < rb[i] && forall|m: int|
                    0 <= m < i ==> ra[m] == rb[m];
            assert(a[i + 1] == ra[i]);
            assert(b[i + 1] == rb[i]);
            assert(a[i + 1] < b[i + 1]);
            assert forall|m: int| 0 <= m < i + 1 implies a[m] == b[m] by {
                if m > 0 {
                    assert(a[m] == ra[m - 1]);
                    assert(b[m] == rb[m - 1]);
                }
            }
        }
    }
}

/// No suffix of a dot product exceeds the whole.
pub proof fn lemma_dot_suffix_le(idx: Seq<usize>, stride: Seq<usize>, i: int)
    requires
        0 <= i <= idx.len(),
        i <= stride.len(),
    ensures
        dot(idx.skip(i), stride.skip(i)) <= dot(idx, stride),
    decreases i,
{
    if i == 0 {
        assert(idx.skip(0) =~= idx);
        assert(stride.skip(0) =~= stride);
    } else {
        lemma_dot_suffix_le(idx, stride, i - 1);
        assert(idx.skip(i - 1).skip(1) =~= idx.skip(i));
        assert(stride.skip(i - 1).skip(1) =~= stride.skip(i));
        assert((idx[i - 1] as nat) * (stride[i - 1] as nat) >= 0) by (nonlinear_arith);
    }
}

/// A multi-index that is nowhere larger than another has no larger dot
/// product with a stride.
pub proof fn lemma_dot_monotone(a: Seq<usize>, b: Seq<usize>, stride: Seq<usize>)
    requires
        a.len() == b.len(),
        forall|i: int| 0 <= i < a.len() ==> a[i] <= b[i],
    ensures
        dot(a, stride) <= dot(b, stride),
    decreases a.len(),
{
    if a.len() > 0 && stride.len() > 0 {
        assert forall|i: int| 0 <= i < a.skip(1).len() implies a.skip(1)[i] <= b.skip(1)[i] by {
            assert(a[i + 1] <= b[i + 1]);
        }
        lemma_dot_monotone(a.skip(1), b.skip(1), stride.skip(1));
        assert((a[0] as nat) * (stride[0] as nat) <= (b[0] as nat) * (stride[0] as nat))
            by (nonlinear_arith)
            requires
                a[0] <= b[0],
        ;
    }
}

/// With the row-major stride of `shape`, the dot product of a multi-index
/// of the rank of `shape` and the stride is the row-major position of the
/// multi-index.
pub proof fn lemma_dot_row_major(idx: Seq<usize>, stride: Seq<usize>, shape: Seq<usize>)
    requires
        is_row_major(stride, shape),
        idx.len() == shape.len(),
    ensures
        dot(idx, stride) == ravel(idx, shape),
    decreases idx.len(),
{
    if idx.len() > 0 {
        assert(stride[0] == product(shape.skip(0int + 1)));
        assert forall|i: int| 0 <= i < shape.skip(1).len() implies stride.skip(1)[i] == product(
            shape.skip(1).skip(i + 1),
        ) by {
            assert(shape.skip(1).skip(i + 1) =~= shape.skip(i + 2));
            assert(stride[i + 1] == product(shape.skip(i + 1 + 1)));
        }
        lemma_dot_row_major(idx.skip(1), stride.skip(1), shape.skip(1));
    }
}

/// The product of `s`, or `None` where it does not fit in `usize`.
pub fn checked_product(s: &[usize]) -> (r: Option<usize>)
    ensures
        match r {
            Some(p) => p == product(s@),
            None => product(s@) > usize::MAX,
        },
{
    let n = s.len();
    let mut k: usize = 0;
    while k < n
        invariant
            n == s@.len(),
            0 <= k <= n,
            forall|j: int| 0 <= j < k ==> s@[j] != 0,
        decreases n - k,
    {
        if s[k] == 0 {
            proof {
                lemma_product_zero(s@);
            }
            return Some(0);
        }
        k += 1;
    }
    let mut acc: usize = 1;
    let mut i: usize = n;
    proof {
        assert(s@.skip(n as int) =~= Seq::<usize>::empty());
    }
    while i > 0
        invariant
            n == s@.len(),
            0 <= i <= n,
            !has_zero(s@),
            acc == product(s@.skip(i as int)),
        decreases i,
    {
        proof {
            lemma_product_skip(s@, i - 1);
            lemma_product_suffix_le(s@, i - 1);
        }
        match s[i - 1].checked_mul(acc) {
            Some(p) => {
                acc = p;
            },
            None => {
                return None;
            },
        }
        i -= 1;
    }
    proof {
        assert(s@.skip(0) =~= s@);
    }
    Some(acc)
}

} // verus!
