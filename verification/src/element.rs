//! The element types that an array can hold: the primitive integers, with
//! their zero and an addition that reports what does not fit.

use vstd::prelude::*;

verus! {

/// A type whose values can fill an array and be added element by element.
pub trait Element: Copy {
    /// The number that the element stands for.
    spec fn value(self) -> int;

    /// Whether the type has an element that stands for `v`.
    spec fn representable(v: int) -> bool;

    /// No two elements stand for the same number.
    proof fn lemma_value_determines(a: Self, b: Self)
        requires
            a.value() == b.value(),
        ensures
            a == b,
    ;

    /// The number that an element stands for is one that the type can
    /// hold.
    proof fn lemma_value_representable(a: Self)
        ensures
            Self::representable(a.value()),
    ;

    /// The additive identity of the type.
    fn zero() -> (z: Self)
        ensures
            z.value() == 0,
    ;

    /// The sum of two elements, or `None` where the type cannot hold it.
    fn checked_sum(self, rhs: Self) -> (r: Option<Self>)
        ensures
            match r {
                Some(sum) => {
                    &&& Self::representable(self.value() + rhs.value())
                    &&& sum.value() == self.value() + rhs.value()
                },
                None => !Self::representable(self.value() + rhs.value()),
            },
    ;
}

/// Zero is the identity of the checked sum: added to an element, on
/// either side, it gives the element back.
pub proof fn lemma_zero_is_identity<T: Element>(zero: T, a: T, sum: Option<T>)
    requires
        zero.value() == 0,
        T::checked_sum.ensures((zero, a), sum) || T::checked_sum.ensures((a, zero), sum),
    ensures
        sum == Some(a),
{
    T::lemma_value_representable(a);
    T::lemma_value_determines(sum->Some_0, a);
}

/// `<u8 as num_traits::Zero>::zero`: the additive identity of `u8`,
/// which the crate defines as the literal 0.
#[verifier::external_body]
fn zero_u8() -> (z: u8)
    ensures
        z == 0,
{
    <u8 as num_traits::Zero>::zero()
}

impl Element for u8 {
    open spec fn value(self) -> int {
        self as int
    }

    open spec fn representable(v: int) -> bool {
        u8::MIN <= v <= u8::MAX
    }

    proof fn lemma_value_determines(a: Self, b: Self) {
    }

    proof fn lemma_value_representable(a: Self) {
    }

    fn zero() -> (z: Self) {
        zero_u8()
    }

    fn checked_sum(self, rhs: Self) -> (r: Option<Self>) {
        self.checked_add(rhs)
    }
}

/// `<u16 as num_traits::Zero>::zero`: the additive identity of `u16`,
/// which the crate defines as the literal 0.
#[verifier::external_body]
fn zero_u16() -> (z: u16)
    ensures
        z == 0,
{
    <u16 as num_traits::Zero>::zero()
}

impl Element for u16 {
    open spec fn value(self) -> int {
        self as int
    }

    open spec fn representable(v: int) -> bool {
        u16::MIN <= v <= u16::MAX
    }

    proof fn lemma_value_determines(a: Self, b: Self) {
    }

    proof fn lemma_value_representable(a: Self) {
    }

    fn zero() -> (z: Self) {
        zero_u16()
    }

    fn checked_sum(self, rhs: Self) -> (r: Option<Self>) {
        self.checked_add(rhs)
    }
}

/// `<u32 as num_traits::Zero>::zero`: the additive identity of `u32`,
/// which the crate defines as the literal 0.
#[verifier::external_body]
fn zero_u32() -> (z: u32)
    ensures
        z == 0,
{
    <u32 as num_traits::Zero>::zero()
}

impl Element for u32 {
    open spec fn value(self) -> int {
        self as int
    }

    open spec fn representable(v: int) -> bool {
        u32::MIN <= v <= u32::MAX
    }

    proof fn lemma_value_determines(a: Self, b: Self) {
    }

    proof fn lemma_value_representable(a: Self) {
    }

    fn zero() -> (z: Self) {
        zero_u32()
    }

    fn checked_sum(self, rhs: Self) -> (r: Option<Self>) {
        self.checked_add(rhs)
    }
}

/// `<u64 as num_traits::Zero>::zero`: the additive identity of `u64`,
/// which the crate defines as the literal 0.
#[verifier::external_body]
fn zero_u64() -> (z: u64)
    ensures
        z == 0,
{
    <u64 as num_traits::Zero>::zero()
}

impl Element for u64 {
    open spec fn value(self) -> int {
        self as int
    }

    open spec fn representable(v: int) -> bool {
        u64::MIN <= v <= u64::MAX
    }

    proof fn lemma_value_determines(a: Self, b: Self) {
    }

    proof fn lemma_value_representable(a: Self) {
    }

    fn zero() -> (z: Self) {
        zero_u64()
    }

    fn checked_sum(self, rhs: Self) -> (r: Option<Self>) {
        self.checked_add(rhs)
    }
}

/// `<u128 as num_traits::Zero>::zero`: the additive identity of `u128`,
/// which the crate defines as the literal 0.
#[verifier::external_body]
fn zero_u128() -> (z: u128)
    ensures
        z == 0,
{
    <u128 as num_traits::Zero>::zero()
}

impl Element for u128 {
    open spec fn value(self) -> int {
        self as int
    }

    open spec fn representable(v: int) -> bool {
        u128::MIN <= v <= u128::MAX
    }

    proof fn lemma_value_determines(a: Self, b: Self) {
    }

    proof fn lemma_value_representable(a: Self) {
    }

    fn zero() -> (z: Self) {
        zero_u128()
    }

    fn checked_sum(self, rhs: Self) -> (r: Option<Self>) {
        self.checked_add(rhs)
    }
}

/// `<usize as num_traits::Zero>::zero`: the additive identity of `usize`,
/// which the crate defines as the literal 0.
#[verifier::external_body]
fn zero_usize() -> (z: usize)
    ensures
        z == 0,
{
    <usize as num_traits::Zero>::zero()
}

impl Element for usize {
    open spec fn value(self) -> int {
        self as int
    }

    open spec fn representable(v: int) -> bool {
        usize::MIN <= v <= usize::MAX
    }

    proof fn lemma_value_determines(a: Self, b: Self) {
    }

    proof fn lemma_value_representable(a: Self) {
    }

    fn zero() -> (z: Self) {
        zero_usize()
    }

    fn checked_sum(self, rhs: Self) -> (r: Option<Self>) {
        self.checked_add(rhs)
    }
}

/// `<i8 as num_traits::Zero>::zero`: the additive identity of `i8`,
/// which the crate defines as the literal 0.
#[verifier::external_body]
fn zero_i8() -> (z: i8)
    ensures
        z == 0,
{
    <i8 as num_traits::Zero>::zero()
}

impl Element for i8 {
    open spec fn value(self) -> int {
        self as int
    }

    open spec fn representable(v: int) -> bool {
        i8::MIN <= v <= i8::MAX
    }

    proof fn lemma_value_determines(a: Self, b: Self) {
    }

    proof fn lemma_value_representable(a: Self) {
    }

    fn zero() -> (z: Self) {
        zero_i8()
    }

    fn checked_sum(self, rhs: Self) -> (r: Option<Self>) {
        self.checked_add(rhs)
    }
}

/// `<i16 as num_traits::Zero>::zero`: the additive identity of `i16`,
/// which the crate defines as the literal 0.
#[verifier::external_body]
fn zero_i16() -> (z: i16)
    ensures
        z == 0,
{
    <i16 as num_traits::Zero>::zero()
}

impl Element for i16 {
    open spec fn value(self) -> int {
        self as int
    }

    open spec fn representable(v: int) -> bool {
        i16::MIN <= v <= i16::MAX
    }

    proof fn lemma_value_determines(a: Self, b: Self) {
    }

    proof fn lemma_value_representable(a: Self) {
    }

    fn zero() -> (z: Self) {
        zero_i16()
    }

    fn checked_sum(self, rhs: Self) -> (r: Option<Self>) {
        self.checked_add(rhs)
    }
}

/// `<i32 as num_traits::Zero>::zero`: the additive identity of `i32`,
/// which the crate defines as the literal 0.
#[verifier::external_body]
fn zero_i32() -> (z: i32)
    ensures
        z == 0,
{
    <i32 as num_traits::Zero>::zero()
}

impl Element for i32 {
    open spec fn value(self) -> int {
        self as int
    }

    open spec fn representable(v: int) -> bool {
        i32::MIN <= v <= i32::MAX
    }

    proof fn lemma_value_determines(a: Self, b: Self) {
    }

    proof fn lemma_value_representable(a: Self) {
    }

    fn zero() -> (z: Self) {
        zero_i32()
    }

    fn checked_sum(self, rhs: Self) -> (r: Option<Self>) {
        self.checked_add(rhs)
    }
}

/// `<i64 as num_traits::Zero>::zero`: the additive identity of `i64`,
/// which the crate defines as the literal 0.
#[verifier::external_body]
fn zero_i64() -> (z: i64)
    ensures
        z == 0,
{
    <i64 as num_traits::Zero>::zero()
}

impl Element for i64 {
    open spec fn value(self) -> int {
        self as int
    }

    open spec fn representable(v: int) -> bool {
        i64::MIN <= v <= i64::MAX
    }

    proof fn lemma_value_determines(a: Self, b: Self) {
    }

    proof fn lemma_value_representable(a: Self) {
    }

    fn zero() -> (z: Self) {
        zero_i64()
    }

    fn checked_sum(self, rhs: Self) -> (r: Option<Self>) {
        self.checked_add(rhs)
    }
}

/// `<i128 as num_traits::Zero>::zero`: the additive identity of `i128`,
/// which the crate defines as the literal 0.
#[verifier::external_body]
fn zero_i128() -> (z: i128)
    ensures
        z == 0,
{
    <i128 as num_traits::Zero>::zero()
}

impl Element for i128 {
    open spec fn value(self) -> int {
        self as int
    }

    open spec fn representable(v: int) -> bool {
        i128::MIN <= v <= i128::MAX
    }

    proof fn lemma_value_determines(a: Self, b: Self) {
    }

    proof fn lemma_value_representable(a: Self) {
    }

    fn zero() -> (z: Self) {
        zero_i128()
    }

    fn checked_sum(self, rhs: Self) -> (r: Option<Self>) {
        self.checked_add(rhs)
    }
}

/// `<isize as num_traits::Zero>::zero`: the additive identity of `isize`,
/// which the crate defines as the literal 0.
#[verifier::external_body]
fn zero_isize() -> (z: isize)
    ensures
        z == 0,
{
    <isize as num_traits::Zero>::zero()
}

impl Element for isize {
    open spec fn value(self) -> int {
        self as int
    }

    open spec fn representable(v: int) -> bool {
        isize::MIN <= v <= isize::MAX
    }

    proof fn lemma_value_determines(a: Self, b: Self) {
    }

    proof fn lemma_value_representable(a: Self) {
    }

    fn zero() -> (z: Self) {
        zero_isize()
    }

    fn checked_sum(self, rhs: Self) -> (r: Option<Self>) {
        self.checked_add(rhs)
    }
}

} // verus!
