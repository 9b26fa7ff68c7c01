//! Sample and coefficient abstractions: an 8- or 16-bit unsigned sample type
//! paired with a signed coefficient type of matching width, plus the cast
//! helpers the kernels use to move between widths.

use vstd::prelude::*;

verus! {

/// Identifies the sample width at run time.
#[derive(Debug, Clone, Copy, PartialEq, Eq, Structural)]
pub enum PixelType {
    U8,
    U16,
}

/// Conversion from a primitive, with the exact truncating semantics of `as`.
pub trait CastFromPrimitive<T>: Sized {
    /// What the conversion returns, stated per implementation.
    spec fn cast_spec(v: T) -> Self;

    fn cast_from(v: T) -> (r: Self)
        ensures
            r == Self::cast_spec(v),
    ;
}

impl CastFromPrimitive<u8> for i16 {
    open spec fn cast_spec(v: u8) -> i16 {
        v as i16
    }

    fn cast_from(v: u8) -> (r: i16) {
        v as i16
    }
}

impl CastFromPrimitive<i32> for u16 {
    open spec fn cast_spec(v: i32) -> u16 {
        v as u16
    }

    fn cast_from(v: i32) -> (r: u16) {
        v as u16
    }
}

impl CastFromPrimitive<i32> for u8 {
    open spec fn cast_spec(v: i32) -> u8 {
        v as u8
    }

    fn cast_from(v: i32) -> (r: u8) {
        v as u8
    }
}

impl CastFromPrimitive<u8> for i32 {
    open spec fn cast_spec(v: u8) -> i32 {
        v as i32
    }

    fn cast_from(v: u8) -> (r: i32) {
        v as i32
    }
}

impl CastFromPrimitive<u16> for i32 {
    open spec fn cast_spec(v: u16) -> i32 {
        v as i32
    }

    fn cast_from(v: u16) -> (r: i32) {
        v as i32
    }
}

impl CastFromPrimitive<usize> for i16 {
    open spec fn cast_spec(v: usize) -> i16 {
        v as i16
    }

    fn cast_from(v: usize) -> (r: i16) {
        v as i16
    }
}

impl CastFromPrimitive<i32> for i16 {
    open spec fn cast_spec(v: i32) -> i16 {
        v as i16
    }

    fn cast_from(v: i32) -> (r: i16) {
        v as i16
    }
}

impl CastFromPrimitive<usize> for i32 {
    open spec fn cast_spec(v: usize) -> i32 {
        v as i32
    }

    fn cast_from(v: usize) -> (r: i32) {
        v as i32
    }
}

impl CastFromPrimitive<i32> for i32 {
    open spec fn cast_spec(v: i32) -> i32 {
        v
    }

    fn cast_from(v: i32) -> (r: i32) {
        v
    }
}

impl CastFromPrimitive<i16> for i32 {
    open spec fn cast_spec(v: i16) -> i32 {
        v as i32
    }

    fn cast_from(v: i16) -> (r: i32) {
        v as i32
    }
}

impl CastFromPrimitive<i16> for u32 {
    open spec fn cast_spec(v: i16) -> u32 {
        v as u32
    }

    fn cast_from(v: i16) -> (r: u32) {
        v as u32
    }
}

impl CastFromPrimitive<i32> for u32 {
    open spec fn cast_spec(v: i32) -> u32 {
        v as u32
    }

    fn cast_from(v: i32) -> (r: u32) {
        v as u32
    }
}

impl CastFromPrimitive<u8> for u32 {
    open spec fn cast_spec(v: u8) -> u32 {
        v as u32
    }

    fn cast_from(v: u8) -> (r: u32) {
        v as u32
    }
}

impl CastFromPrimitive<u16> for u32 {
    open spec fn cast_spec(v: u16) -> u32 {
        v as u32
    }

    fn cast_from(v: u16) -> (r: u32) {
        v as u32
    }
}

impl CastFromPrimitive<u16> for i16 {
    open spec fn cast_spec(v: u16) -> i16 {
        v as i16
    }

    fn cast_from(v: u16) -> (r: i16) {
        v as i16
    }
}

/// An unsigned sample of 8 or 16 bits. The paired `Coeff` type is the signed
/// coefficient width that transforms use for this sample width.
pub trait Pixel: Copy + Sized + CastFromPrimitive<i32> {
    type Coeff;

    /// The sample value as a mathematical integer.
    spec fn pix(self) -> int;

    /// Which width this implementation has.
    spec fn spec_type() -> PixelType;

    /// What narrowing to `i16` returns for this width.
    spec fn to_i16_spec(self) -> i16;

    fn type_enum() -> (r: PixelType)
        ensures
            r == Self::spec_type(),
    ;

    fn to_i32(self) -> (r: i32)
        ensures
            r as int == self.pix(),
    ;

    fn to_i16(self) -> (r: i16)
        ensures
            r == self.to_i16_spec(),
    ;

    fn to_u16(self) -> (r: u16)
        ensures
            r as int == self.pix(),
    ;

    fn to_u32(self) -> (r: u32)
        ensures
            r as int == self.pix(),
    ;

    fn to_asm_stride(stride: usize) -> (r: isize)
        ensures
            r == stride as isize,
    ;
}

impl Pixel for u8 {
    type Coeff = i16;

    open spec fn pix(self) -> int {
        self as int
    }

    open spec fn spec_type() -> PixelType {
        PixelType::U8
    }

    open spec fn to_i16_spec(self) -> i16 {
        self as i16
    }

    fn type_enum() -> (r: PixelType) {
        PixelType::U8
    }

    fn to_i32(self) -> (r: i32) {
        self as i32
    }

    fn to_i16(self) -> (r: i16) {
        self as i16
    }

    fn to_u16(self) -> (r: u16) {
        self as u16
    }

    fn to_u32(self) -> (r: u32) {
        self as u32
    }

    fn to_asm_stride(stride: usize) -> (r: isize) {
        stride as isize
    }
}

impl Pixel for u16 {
    type Coeff = i32;

    open spec fn pix(self) -> int {
        self as int
    }

    open spec fn spec_type() -> PixelType {
        PixelType::U16
    }

    open spec fn to_i16_spec(self) -> i16 {
        self as i16
    }

    fn type_enum() -> (r: PixelType) {
        PixelType::U16
    }

    fn to_i32(self) -> (r: i32) {
        self as i32
    }

    fn to_i16(self) -> (r: i16) {
        self as i16
    }

    fn to_u16(self) -> (r: u16) {
        self
    }

    fn to_u32(self) -> (r: u32) {
        self as u32
    }

    fn to_asm_stride(stride: usize) -> (r: isize) {
        stride as isize
    }
}

/// A signed transform coefficient of 16 or 32 bits.
pub trait Coefficient: Copy + Sized + CastFromPrimitive<i32> + CastFromPrimitive<usize> {
    type Pixel;

    /// The coefficient value as a mathematical integer.
    spec fn coeff(self) -> int;

    /// What reinterpreting as `u32` returns for this width.
    spec fn to_u32_spec(self) -> u32;

    /// What narrowing to `i16` returns for this width.
    spec fn to_i16_spec(self) -> i16;

    /// What narrowing to `u8` returns for this width.
    spec fn as_u8_spec(self) -> u8;

    fn to_u32(self) -> (r: u32)
        ensures
            r == self.to_u32_spec(),
    ;

    fn to_i32(self) -> (r: i32)
        ensures
            r as int == self.coeff(),
    ;

    fn to_i16(self) -> (r: i16)
        ensures
            r == self.to_i16_spec(),
    ;

    fn as_u8(self) -> (r: u8)
        ensures
            r == self.as_u8_spec(),
    ;
}

impl Coefficient for i16 {
    type Pixel = u8;

    open spec fn coeff(self) -> int {
        self as int
    }

    open spec fn to_u32_spec(self) -> u32 {
        self as u32
    }

    open spec fn to_i16_spec(self) -> i16 {
        self
    }

    open spec fn as_u8_spec(self) -> u8 {
        self as u8
    }

    fn to_u32(self) -> (r: u32) {
        self as u32
    }

    fn to_i32(self) -> (r: i32) {
        self as i32
    }

    fn to_i16(self) -> (r: i16) {
        self
    }

    fn as_u8(self) -> (r: u8) {
        self as u8
    }
}

impl Coefficient for i32 {
    type Pixel = u16;

    open spec fn coeff(self) -> int {
        self as int
    }

    open spec fn to_u32_spec(self) -> u32 {
        self as u32
    }

    open spec fn to_i16_spec(self) -> i16 {
        self as i16
    }

    open spec fn as_u8_spec(self) -> u8 {
        self as u8
    }

    fn to_u32(self) -> (r: u32) {
        self as u32
    }

    fn to_i32(self) -> (r: i32) {
        self
    }

    fn to_i16(self) -> (r: i16) {
        self as i16
    }

    fn as_u8(self) -> (r: u8) {
        self as u8
    }
}

} // verus!
