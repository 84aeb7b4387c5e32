//! Shape requests with at most one axis left open, and their resolution
//! against a known element count.

use vstd::prelude::*;
use vstd::std_specs::convert::FromSpec;
use crate::arith::{checked_product, product};
use crate::error::ShapeError;

verus! {

/// One axis of a requested shape: a known size, or an axis whose size is to
/// be derived from the element count.
#[derive(Clone, Copy, Debug, PartialEq, Eq, Structural)]
pub enum ShapeDim {
    Known(usize),
    Inferred,
}

impl From<isize> for ShapeDim {
    /// A non-negative value is a known size; a negative one leaves the axis open.
    fn from(val: isize) -> (r: Self) {
        if val >= 0 {
            ShapeDim::Known(val as usize)
        } else {
            ShapeDim::Inferred
        }
    }
}

impl vstd::std_specs::convert::FromSpecImpl<isize> for ShapeDim {
    open spec fn obeys_from_spec() -> bool {
        true
    }

    open spec fn from_spec(val: isize) -> Self {
        if val >= 0 {
            ShapeDim::Known(val as usize)
        } else {
            ShapeDim::Inferred
        }
    }
}

impl From<usize> for ShapeDim {
    fn from(val: usize) -> (r: Self) {
        ShapeDim::Known(val)
    }
}

impl vstd::std_specs::convert::FromSpecImpl<usize> for ShapeDim {
    open spec fn obeys_from_spec() -> bool {
        true
    }

    open spec fn from_spec(val: usize) -> Self {
        ShapeDim::Known(val)
    }
}


impl ShapeDim {
    /// The size of a known axis.
    pub fn unwrap_known(&self) -> (r: Option<usize>)
        ensures
            r == self.known(),
    {
        match *self {
            ShapeDim::Known(u) => Some(u),
            ShapeDim::Inferred => None,
        }
    }

    /// The size of a known axis, as a value of specifications.
    pub open spec fn known(&self) -> Option<usize> {
        match *self {
            ShapeDim::Known(u) => Some(u),
            ShapeDim::Inferred => None,
        }
    }

    /// The size of the axis once `inferred` stands in for an open one.
    pub open spec fn resolve(&self, inferred: usize) -> usize {
        match *self {
            ShapeDim::Known(u) => u,
            ShapeDim::Inferred => inferred,
        }
    }
}

/// The request that a list of raw axis values stands for.
pub open spec fn normalized<T>(shape: Seq<T>) -> Seq<ShapeDim> where ShapeDim: From<T> {
    Seq::new(shape.len(), |i: int| <ShapeDim as FromSpec<T>>::from_spec(shape[i]))
}

/// How many axes of `dims` are left to be inferred.
pub open spec fn inferred_count(dims: Seq<ShapeDim>) -> nat
    decreases dims.len(),
{
    if dims.len() == 0 {
        0
    } else {
        inferred_count(dims.skip(1)) + if dims[0] is Inferred {
            1nat
        } else {
            0nat
        }
    }
}

/// The sizes of `dims` with `inferred` in place of every open axis.
pub open spec fn resolved(dims: Seq<ShapeDim>, inferred: usize) -> Seq<usize> {
    Seq::new(dims.len(), |i: int| dims[i].resolve(inferred))
}

/// The product of the known axes of `dims`.
pub open spec fn known_product(dims: Seq<ShapeDim>) -> nat {
    product(resolved(dims, 1))
}

/// What resolving `dims` against `numel` elements yields: the rules are
/// tried in this order, and the first that applies decides.
pub open spec fn infer_shape_spec(dims: Seq<ShapeDim>, numel: usize) -> Result<Seq<usize>, ShapeError> {
    if dims.len() == 0 {
        Err(ShapeError::Empty)
    } else if inferred_count(dims) > 1 {
        Err(ShapeError::MultipleInferred)
    } else if inferred_count(dims) == 0 {
        Ok(resolved(dims, 1))
    } else if known_product(dims) == 0 {
        if numel == 0 {
            Err(ShapeError::AmbiguousEmpty)
        } else {
            Err(ShapeError::ZeroAxis)
        }
    } else if numel as nat % known_product(dims) != 0 {
        Err(ShapeError::NotDivisible { numel })
    } else {
        Ok(resolved(dims, (numel as nat / known_product(dims)) as usize))
    }
}

/// A request without an open axis resolves to the same sizes whatever
/// stands in for the open axis.
pub proof fn lemma_resolved_all_known(dims: Seq<ShapeDim>, a: usize, b: usize)
    requires
        inferred_count(dims) == 0,
    ensures
        resolved(dims, a) == resolved(dims, b),
    decreases dims.len(),
{
    if dims.len() > 0 {
        lemma_resolved_all_known(dims.skip(1), a, b);
        assert forall|i: int| 0 <= i < dims.len() implies resolved(dims, a)[i] == resolved(
            dims,
            b,
        )[i] by {
            if i > 0 {
                assert(resolved(dims.skip(1), a)[i - 1] == resolved(dims.skip(1), b)[i - 1]);
            }
        }
    }
    assert(resolved(dims, a) =~= resolved(dims, b));
}

/// With exactly one open axis, the resolved sizes multiply to the value
/// given to the open axis times the product of the known axes.
pub proof fn lemma_resolved_product(dims: Seq<ShapeDim>, inferred: usize)
    requires
        inferred_count(dims) == 1,
    ensures
        product(resolved(dims, inferred)) == inferred * known_product(dims),
    decreases dims.len(),
{
    let rest = dims.skip(1);
    assert(dims.len() > 0);
    assert(resolved(dims, inferred).skip(1) =~= resolved(rest, inferred));
    assert(resolved(dims, 1).skip(1) =~= resolved(rest, 1));
    match dims[0] {
        ShapeDim::Known(u) => {
            lemma_resolved_product(rest, inferred);
            assert(product(resolved(dims, inferred)) == inferred * known_product(dims))
                by (nonlinear_arith)
                requires
                    product(resolved(dims, inferred)) == (u as nat) * product(
                        resolved(rest, inferred),
                    ),
                    known_product(dims) == (u as nat) * known_product(rest),
                    product(resolved(rest, inferred)) == inferred * known_product(rest),
            ;
        },
        ShapeDim::Inferred => {
            lemma_resolved_all_known(rest, inferred, 1);
            assert(product(resolved(dims, inferred)) == inferred * known_product(dims))
                by (nonlinear_arith)
                requires
                    product(resolved(dims, inferred)) == (inferred as nat) * product(
                        resolved(rest, 1),
                    ),
                    known_product(dims) == 1 * product(resolved(rest, 1)),
            ;
        },
    }
}

/// A resolved shape has one size for each axis of the request, and where
/// an axis was inferred it holds exactly `numel` elements.
pub proof fn lemma_infer_shape_sizes(dims: Seq<ShapeDim>, numel: usize)
    requires
        infer_shape_spec(dims, numel) is Ok,
    ensures
        infer_shape_spec(dims, numel)->Ok_0.len() == dims.len(),
        inferred_count(dims) == 1 ==> product(infer_shape_spec(dims, numel)->Ok_0) == numel,
        forall|i: int|
            0 <= i < dims.len() && dims[i] is Known ==> infer_shape_spec(dims, numel)->Ok_0[i]
                == dims[i]->Known_0,
{
    if inferred_count(dims) == 1 {
        let p = known_product(dims);
        let q = numel as nat / p;
        vstd::arithmetic::div_mod::lemma_fundamental_div_mod(numel as int, p as int);
        vstd::arithmetic::div_mod::lemma_div_pos_is_pos(numel as int, p as int);
        assert(q <= numel) by {
            vstd::arithmetic::div_mod::lemma_div_is_ordered_by_denominator(numel as int, 1, p as int);
            vstd::arithmetic::div_mod::lemma_div_basics(numel as int);
        }
        lemma_resolved_product(dims, q as usize);
        assert(q * p == p * q) by (nonlinear_arith);
    }
}

/// A request that leaves its only axis open resolves to the element count.
pub proof fn lemma_infer_flat(numel: usize)
    ensures
        infer_shape_spec(seq![ShapeDim::Inferred], numel) == Ok::<Seq<usize>, ShapeError>(
            seq![numel],
        ),
{
    let dims = seq![ShapeDim::Inferred];
    reveal_with_fuel(inferred_count, 2);
    reveal_with_fuel(product, 2);
    assert(dims.skip(1) =~= Seq::<ShapeDim>::empty());
    assert(inferred_count(dims) == 1);
    assert(resolved(dims, 1) =~= seq![1usize]);
    let ones = seq![1usize];
    assert(ones.skip(1) =~= Seq::<usize>::empty());
    assert(ones[0] == 1);
    assert(product(ones.skip(1)) == 1);
    assert(product(ones) == (ones[0] as nat) * product(ones.skip(1)));
    assert(resolved(dims, numel) =~= seq![numel]);
}

/// A request for rows of `k` elements, the number of rows left open,
/// resolves to `numel / k` rows where `k` divides `numel`.
pub proof fn lemma_infer_rows(numel: usize, k: usize)
    requires
        k > 0,
        numel % k == 0,
    ensures
        infer_shape_spec(seq![ShapeDim::Inferred, ShapeDim::Known(k)], numel) == Ok::<
            Seq<usize>,
            ShapeError,
        >(seq![(numel / k) as usize, k]),
{
    let dims = seq![ShapeDim::Inferred, ShapeDim::Known(k)];
    reveal_with_fuel(inferred_count, 3);
    assert(dims.skip(1) =~= seq![ShapeDim::Known(k)]);
    assert(dims.skip(1).skip(1) =~= Seq::<ShapeDim>::empty());
    assert(inferred_count(dims.skip(1)) == 0);
    assert(inferred_count(dims) == 1);
    let ones = resolved(dims, 1);
    assert(ones =~= seq![1usize, k]);
    assert(ones.skip(1) =~= seq![k]);
    assert(ones.skip(1).skip(1) =~= Seq::<usize>::empty());
    assert(product(ones.skip(1).skip(1)) == 1);
    assert(product(ones.skip(1)) == k) by (nonlinear_arith)
        requires
            product(ones.skip(1)) == (k as nat) * product(ones.skip(1).skip(1)),
            product(ones.skip(1).skip(1)) == 1,
    ;
    assert(product(ones) == k) by (nonlinear_arith)
        requires
            product(ones) == (1usize as nat) * product(ones.skip(1)),
            product(ones.skip(1)) == k,
    ;
    assert(resolved(dims, (numel / k) as usize) =~= seq![(numel / k) as usize, k]);
}

/// A request with two or more open axes is rejected, whatever the element
/// count and the known axes are.
pub proof fn lemma_infer_two_open_axes(dims: Seq<ShapeDim>, numel: usize)
    requires
        inferred_count(dims) >= 2,
    ensures
        infer_shape_spec(dims, numel) == Err::<Seq<usize>, ShapeError>(
            ShapeError::MultipleInferred,
        ),
{
}

/// Turns raw axis values into a request.
pub fn normalize_shape<T: Copy>(shape: &[T]) -> (dims: Vec<ShapeDim>) where ShapeDim: From<T>
    ensures
        <ShapeDim as FromSpec<T>>::obeys_from_spec() ==> dims@ == normalized(shape@),
        dims@.len() == shape@.len(),
{
    let mut dims: Vec<ShapeDim> = Vec::new();
    let mut i: usize = 0;
    while i < shape.len()
        invariant
            0 <= i <= shape@.len(),
            dims@.len() == i,
            <ShapeDim as FromSpec<T>>::obeys_from_spec() ==> forall|j: int|
                0 <= j < i ==> dims@[j] == <ShapeDim as FromSpec<T>>::from_spec(shape@[j]),
        decreases shape@.len() - i,
    {
        dims.push(ShapeDim::from(shape[i]));
        i += 1;
    }
    proof {
        if <ShapeDim as FromSpec<T>>::obeys_from_spec() {
            assert(dims@ =~= normalized(shape@));
        }
    }
    dims
}


/// The sizes of `dims` with `inferred` in place of every open axis.
fn resolve_dims(dims: &Vec<ShapeDim>, inferred: usize) -> (sizes: Vec<usize>)
    ensures
        sizes@ == resolved(dims@, inferred),
{
    let mut sizes: Vec<usize> = Vec::new();
    let mut i: usize = 0;
    while i < dims.len()
        invariant
            0 <= i <= dims@.len(),
            sizes@.len() == i,
            forall|j: int| 0 <= j < i ==> sizes@[j] == dims@[j].resolve(inferred),
        decreases dims@.len() - i,
    {
        let size = match dims[i].unwrap_known() {
            Some(u) => u,
            None => inferred,
        };
        sizes.push(size);
        i += 1;
    }
    assert(sizes@ =~= resolved(dims@, inferred));
    sizes
}

/// How many axes of `dims` are left to be inferred.
fn count_inferred(dims: &Vec<ShapeDim>) -> (n: usize)
    ensures
        n == inferred_count(dims@),
{
    let len = dims.len();
    let mut n: usize = 0;
    let mut i: usize = len;
    assert(dims@.skip(dims@.len() as int) =~= Seq::<ShapeDim>::empty());
    while i > 0
        invariant
            len == dims@.len(),
            0 <= i <= len,
            n <= len - i,
            n == inferred_count(dims@.skip(i as int)),
        decreases i,
    {
        assert(dims@.skip(i - 1).skip(1) =~= dims@.skip(i as int));
        i -= 1;
        if let ShapeDim::Inferred = dims[i] {
            n += 1;
        }
    }
    assert(dims@.skip(0) =~= dims@);
    n
}

/// Resolves a requested shape against the element count `numel`.
///
/// An empty request and one with more than one open axis are rejected. A
/// request without an open axis is returned as it stands, whatever `numel`
/// is. With one open axis, the product of the known axes must not be zero
/// and must divide `numel`; the open axis then gets the quotient.
pub fn infer_shape<T: Copy>(shape: &[T], numel: usize) -> (r: Result<Vec<usize>, ShapeError>) where
    ShapeDim: From<T>,

    ensures
        <ShapeDim as FromSpec<T>>::obeys_from_spec() ==> match r {
            Ok(sizes) => infer_shape_spec(normalized(shape@), numel) == Ok::<
                Seq<usize>,
                ShapeError,
            >(sizes@),
            Err(e) => infer_shape_spec(normalized(shape@), numel) == Err::<Seq<usize>, ShapeError>(
                e,
            ),
        },
{
    let dims = normalize_shape(shape);
    if dims.len() == 0 {
        return Err(ShapeError::Empty);
    }
    let n_dyn = count_inferred(&dims);
    if n_dyn > 1 {
        return Err(ShapeError::MultipleInferred);
    }
    let known = resolve_dims(&dims, 1);
    if n_dyn == 0 {
        return Ok(known);
    }
    match checked_product(known.as_slice()) {
        Some(product) => {
            if product == 0 {
                if numel == 0 {
                    Err(ShapeError::AmbiguousEmpty)
                } else {
                    Err(ShapeError::ZeroAxis)
                }
            } else if numel % product != 0 {
                Err(ShapeError::NotDivisible { numel })
            } else {
                Ok(resolve_dims(&dims, numel / product))
            }
        },
        None => {
            // The known axes alone ask for more than `usize::MAX` elements.
            proof {
                vstd::arithmetic::div_mod::lemma_small_mod(numel as nat, known_product(dims@));
                vstd::arithmetic::div_mod::lemma_basic_div(
                    numel as int,
                    known_product(dims@) as int,
                );
            }
            if numel != 0 {
                Err(ShapeError::NotDivisible { numel })
            } else {
                Ok(resolve_dims(&dims, 0))
            }
        },
    }
}

} // verus!
