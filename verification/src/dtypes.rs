use vstd::prelude::*;

verus! {

/// A numeric element of a tensor: a set of values with a zero, a sum and a product.
///
/// The kernels are written against this interface alone. Their contracts are stated over
/// [`Dtype::sum`] and [`Dtype::product`], so a result is pinned down in the arithmetic of
/// the element type itself, whatever that arithmetic is.
pub trait Dtype: Copy {
    /// The additive identity that a fresh gradient buffer is filled with.
    spec fn zero_value() -> Self;

    /// The sum of two elements.
    spec fn sum(self, rhs: Self) -> Self;

    /// The product of two elements.
    spec fn product(self, rhs: Self) -> Self;

    fn zero() -> (z: Self)
        ensures
            z == Self::zero_value(),
    ;

    fn plus(self, rhs: Self) -> (r: Self)
        ensures
            r == self.sum(rhs),
    ;

    fn times(self, rhs: Self) -> (r: Self)
        ensures
            r == self.product(rhs),
    ;
}

/// 8-bit signed integers with wrapping arithmetic: the integers modulo `2^8`.
impl Dtype for i8 {
    open spec fn zero_value() -> i8 {
        0i8
    }

    open spec fn sum(self, rhs: i8) -> i8 {
        self.wrapping_add(rhs)
    }

    open spec fn product(self, rhs: i8) -> i8 {
        self.wrapping_mul(rhs)
    }

    fn zero() -> (z: i8) {
        0
    }

    fn plus(self, rhs: i8) -> (r: i8) {
        self.wrapping_add(rhs)
    }

    fn times(self, rhs: i8) -> (r: i8) {
        self.wrapping_mul(rhs)
    }
}

/// 16-bit signed integers with wrapping arithmetic: the integers modulo `2^16`.
impl Dtype for i16 {
    open spec fn zero_value() -> i16 {
        0i16
    }

    open spec fn sum(self, rhs: i16) -> i16 {
        self.wrapping_add(rhs)
    }

    open spec fn product(self, rhs: i16) -> i16 {
        self.wrapping_mul(rhs)
    }

    fn zero() -> (z: i16) {
        0
    }

    fn plus(self, rhs: i16) -> (r: i16) {
        self.wrapping_add(rhs)
    }

    fn times(self, rhs: i16) -> (r: i16) {
        self.wrapping_mul(rhs)
    }
}

/// 32-bit signed integers with wrapping arithmetic: the integers modulo `2^32`.
impl Dtype for i32 {
    open spec fn zero_value() -> i32 {
        0i32
    }

    open spec fn sum(self, rhs: i32) -> i32 {
        self.wrapping_add(rhs)
    }

    open spec fn product(self, rhs: i32) -> i32 {
        self.wrapping_mul(rhs)
    }

    fn zero() -> (z: i32) {
        0
    }

    fn plus(self, rhs: i32) -> (r: i32) {
        self.wrapping_add(rhs)
    }

    fn times(self, rhs: i32) -> (r: i32) {
        self.wrapping_mul(rhs)
    }
}

/// 64-bit signed integers with wrapping arithmetic: the integers modulo `2^64`.
impl Dtype for i64 {
    open spec fn zero_value() -> i64 {
        0i64
    }

    open spec fn sum(self, rhs: i64) -> i64 {
        self.wrapping_add(rhs)
    }

    open spec fn product(self, rhs: i64) -> i64 {
        self.wrapping_mul(rhs)
    }

    fn zero() -> (z: i64) {
        0
    }

    fn plus(self, rhs: i64) -> (r: i64) {
        self.wrapping_add(rhs)
    }

    fn times(self, rhs: i64) -> (r: i64) {
        self.wrapping_mul(rhs)
    }
}

/// Signed integers of the width of a pointer, with wrapping arithmetic.
impl Dtype for isize {
    open spec fn zero_value() -> isize {
        0isize
    }

    open spec fn sum(self, rhs: isize) -> isize {
        self.wrapping_add(rhs)
    }

    open spec fn product(self, rhs: isize) -> isize {
        self.wrapping_mul(rhs)
    }

    fn zero() -> (z: isize) {
        0
    }

    fn plus(self, rhs: isize) -> (r: isize) {
        self.wrapping_add(rhs)
    }

    fn times(self, rhs: isize) -> (r: isize) {
        self.wrapping_mul(rhs)
    }
}

/// 8-bit unsigned integers with wrapping arithmetic: the integers modulo `2^8`.
impl Dtype for u8 {
    open spec fn zero_value() -> u8 {
        0u8
    }

    open spec fn sum(self, rhs: u8) -> u8 {
        self.wrapping_add(rhs)
    }

    open spec fn product(self, rhs: u8) -> u8 {
        self.wrapping_mul(rhs)
    }

    fn zero() -> (z: u8) {
        0
    }

    fn plus(self, rhs: u8) -> (r: u8) {
        self.wrapping_add(rhs)
    }

    fn times(self, rhs: u8) -> (r: u8) {
        self.wrapping_mul(rhs)
    }
}

/// 16-bit unsigned integers with wrapping arithmetic: the integers modulo `2^16`.
impl Dtype for u16 {
    open spec fn zero_value() -> u16 {
        0u16
    }

    open spec fn sum(self, rhs: u16) -> u16 {
        self.wrapping_add(rhs)
    }

    open spec fn product(self, rhs: u16) -> u16 {
        self.wrapping_mul(rhs)
    }

    fn zero() -> (z: u16) {
        0
    }

    fn plus(self, rhs: u16) -> (r: u16) {
        self.wrapping_add(rhs)
    }

    fn times(self, rhs: u16) -> (r: u16) {
        self.wrapping_mul(rhs)
    }
}

/// 32-bit unsigned integers with wrapping arithmetic: the integers modulo `2^32`.
impl Dtype for u32 {
    open spec fn zero_value() -> u32 {
        0u32
    }

    open spec fn sum(self, rhs: u32) -> u32 {
        self.wrapping_add(rhs)
    }

    open spec fn product(self, rhs: u32) -> u32 {
        self.wrapping_mul(rhs)
    }

    fn zero() -> (z: u32) {
        0
    }

    fn plus(self, rhs: u32) -> (r: u32) {
        self.wrapping_add(rhs)
    }

    fn times(self, rhs: u32) -> (r: u32) {
        self.wrapping_mul(rhs)
    }
}

/// 64-bit unsigned integers with wrapping arithmetic: the integers modulo `2^64`.
impl Dtype for u64 {
    open spec fn zero_value() -> u64 {
        0u64
    }

    open spec fn sum(self, rhs: u64) -> u64 {
        self.wrapping_add(rhs)
    }

    open spec fn product(self, rhs: u64) -> u64 {
        self.wrapping_mul(rhs)
    }

    fn zero() -> (z: u64) {
        0
    }

    fn plus(self, rhs: u64) -> (r: u64) {
        self.wrapping_add(rhs)
    }

    fn times(self, rhs: u64) -> (r: u64) {
        self.wrapping_mul(rhs)
    }
}

/// Unsigned integers of the width of a pointer, with wrapping arithmetic.
impl Dtype for usize {
    open spec fn zero_value() -> usize {
        0usize
    }

    open spec fn sum(self, rhs: usize) -> usize {
        self.wrapping_add(rhs)
    }

    open spec fn product(self, rhs: usize) -> usize {
        self.wrapping_mul(rhs)
    }

    fn zero() -> (z: usize) {
        0
    }

    fn plus(self, rhs: usize) -> (r: usize) {
        self.wrapping_add(rhs)
    }

    fn times(self, rhs: usize) -> (r: usize) {
        self.wrapping_mul(rhs)
    }
}

} // verus!
