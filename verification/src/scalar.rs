//! Numbers and small vectors as the scene stores them.
//!
//! Positions, angles and matrix entries are single-precision IEEE 754 numbers.
//! The library stores them, lays them out and compares them, all of which is
//! exact on the bit pattern, so a number is held as its 32 bits. It does no
//! arithmetic on them.

use vstd::prelude::*;

verus! {

/// A single-precision IEEE 754 number, held as its bit pattern.
#[derive(Clone, Copy, PartialEq, Eq, Debug, Structural)]
pub struct Scalar {
    pub bits: u32,
}

/// Bit pattern of `0.0`.
pub const ZERO_BITS: u32 = 0x0000_0000;

/// Bit pattern of `1.0`.
pub const ONE_BITS: u32 = 0x3F80_0000;

/// Bit pattern of `2.0`.
pub const TWO_BITS: u32 = 0x4000_0000;

/// Bit pattern of `-1.0`.
pub const MINUS_ONE_BITS: u32 = 0xBF80_0000;

/// Bit pattern of the greatest finite number.
pub const GREATEST_BITS: u32 = 0x7F7F_FFFF;

impl Scalar {
    /// The number with the given bit pattern.
    pub open spec fn spec_from_bits(bits: u32) -> Scalar {
        Scalar { bits }
    }

    /// The number with the given bit pattern.
    #[verifier::when_used_as_spec(spec_from_bits)]
    pub fn from_bits(bits: u32) -> (r: Scalar)
        ensures
            r == Scalar::spec_from_bits(bits),
    {
        Scalar { bits }
    }

    /// The bit pattern of the number.
    pub fn to_bits(self) -> (bits: u32)
        ensures
            bits == self.bits,
    {
        self.bits
    }

    /// The bits below the sign bit: exponent and fraction.
    pub open spec fn magnitude(self) -> int {
        self.bits as int % 0x8000_0000
    }

    /// Whether the sign bit is set.
    pub open spec fn is_negative(self) -> bool {
        self.bits >= 0x8000_0000
    }

    /// Whether the pattern is that of no number: all exponent bits set and a
    /// fraction other than 0.
    pub open spec fn is_nan(self) -> bool {
        self.magnitude() > 0x7F80_0000
    }

    /// Where the number stands among all numbers: numbers other than NaN are
    /// ordered as their magnitudes are, taken with their signs. Both zeros
    /// stand at 0.
    pub open spec fn rank(self) -> int {
        if self.is_negative() {
            -self.magnitude()
        } else {
            self.magnitude()
        }
    }

    /// Whether the number is less than `other`. A NaN is neither less nor
    /// greater than anything.
    pub open spec fn spec_lt(self, other: Scalar) -> bool {
        !self.is_nan() && !other.is_nan() && self.rank() < other.rank()
    }

    /// Whether the number is less than `other`, as single-precision numbers
    /// compare.
    #[verifier::when_used_as_spec(spec_lt)]
    pub fn lt(self, other: Scalar) -> (less: bool)
        ensures
            less == self.spec_lt(other),
    {
        let a = self.bits % 0x8000_0000;
        let b = other.bits % 0x8000_0000;
        if a > 0x7F80_0000 || b > 0x7F80_0000 {
            false
        } else if self.bits >= 0x8000_0000 {
            if other.bits >= 0x8000_0000 {
                b < a
            } else {
                a > 0 || b > 0
            }
        } else {
            other.bits < 0x8000_0000 && a < b
        }
    }
}

/// A direction or offset in the plane; for the camera, `x` is yaw and `y` is pitch.
#[derive(Clone, Copy, PartialEq, Eq, Debug, Structural)]
pub struct Vector2 {
    pub x: Scalar,
    pub y: Scalar,
}

/// A direction or a triple of factors in space.
#[derive(Clone, Copy, PartialEq, Eq, Debug, Structural)]
pub struct Vector3 {
    pub x: Scalar,
    pub y: Scalar,
    pub z: Scalar,
}

/// A point in world space.
#[derive(Clone, Copy, PartialEq, Eq, Debug, Structural)]
pub struct Point3 {
    pub x: Scalar,
    pub y: Scalar,
    pub z: Scalar,
}

/// One column of a 4x4 matrix.
#[derive(Clone, Copy, PartialEq, Eq, Debug, Structural)]
pub struct Vector4 {
    pub x: Scalar,
    pub y: Scalar,
    pub z: Scalar,
    pub w: Scalar,
}

/// A 4x4 matrix given by its columns `x`, `y`, `z` and `w`.
#[derive(Clone, Copy, PartialEq, Eq, Debug, Structural)]
pub struct Matrix4 {
    pub x: Vector4,
    pub y: Vector4,
    pub z: Vector4,
    pub w: Vector4,
}

impl Vector4 {
    /// The four entries, `x` first.
    pub open spec fn entries(self) -> Seq<Scalar> {
        seq![self.x, self.y, self.z, self.w]
    }
}

impl Matrix4 {
    /// Column `i` of the matrix, counted from 0; the last column for any
    /// `i` from 3 on.
    pub open spec fn spec_column(self, i: int) -> Vector4 {
        if i == 0 {
            self.x
        } else if i == 1 {
            self.y
        } else if i == 2 {
            self.z
        } else {
            self.w
        }
    }

    /// Column `i` of the matrix.
    pub open spec fn spec_column_at(&self, i: usize) -> Vector4 {
        self.spec_column(i as int)
    }

    /// The sixteen entries, column after column.
    pub open spec fn entries(self) -> Seq<Scalar> {
        Seq::new(16, |k: int| self.spec_column(k / 4).entries()[k % 4])
    }

    /// Column `i` of the matrix.
    #[verifier::when_used_as_spec(spec_column_at)]
    pub fn column(&self, i: usize) -> (c: Vector4)
        ensures
            c == self.spec_column(i as int),
    {
        if i == 0 {
            self.x
        } else if i == 1 {
            self.y
        } else if i == 2 {
            self.z
        } else {
            self.w
        }
    }

    /// The sixteen entries in column-major order, as a shading stage reads a `mat4`.
    pub fn to_array(&self) -> (a: [Scalar; 16])
        ensures
            a@ == self.entries(),
    {
        let a = [
            self.x.x, self.x.y, self.x.z, self.x.w,
            self.y.x, self.y.y, self.y.z, self.y.w,
            self.z.x, self.z.y, self.z.z, self.z.w,
            self.w.x, self.w.y, self.w.z, self.w.w,
        ];
        assert(a@ =~= self.entries());
        a
    }
}

} // verus!
