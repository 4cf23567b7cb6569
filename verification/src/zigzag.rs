//! The zig-zag transform: a bijection between the signed and the unsigned
//! integers of one width that orders by absolute magnitude, interleaving
//! positive and negative values.  A non-negative `x` maps to `2 * x`; a
//! negative `x` maps to `-2 * x - 1`.  Small magnitudes therefore map to
//! small unsigned values, which the varint codec encodes compactly.

use vstd::prelude::*;

verus! {

/// Zig-zag encoding: maps a signed integer onto the unsigned integer of the
/// same width, ordering by absolute magnitude.
pub trait ZigZag {
    /// The unsigned integer type of the same width
    type Target;

    /// What `zigzag` returns: `2 * x` for `x >= 0`, `-2 * x - 1` for `x < 0`
    spec fn spec_zigzag(&self) -> Self::Target;

    /// Encodes this value into `Self::Target`
    fn zigzag(&self) -> (r: Self::Target)
        ensures
            r == self.spec_zigzag(),
    ;
}

/// Zig-zag decoding: the inverse of [`ZigZag`], from the unsigned integer of
/// a width back to the signed one.
pub trait ZagZig {
    /// The signed integer type of the same width
    type Target;

    /// What `zagzig` returns: `u / 2` for even `u`, `-1 - u / 2` for odd `u`
    spec fn spec_zagzig(&self) -> Self::Target;

    /// Decodes this value into `Self::Target`
    fn zagzig(&self) -> (r: Self::Target)
        ensures
            r == self.spec_zagzig(),
    ;
}

impl ZigZag for i8 {
    type Target = u8;

    open spec fn spec_zigzag(&self) -> u8 {
        if *self >= 0 {
            (2 * *self) as u8
        } else {
            ((-2) * *self - 1) as u8
        }
    }

    fn zigzag(&self) -> (r: u8) {
        let x: i8 = *self;
        let u: u8 = (#[verifier::truncate] (x as u8)) << 1u8;
        proof {
            assert(x >= 0 ==> ((x as u8) << 1u8) == 2 * x) by (bit_vector);
            assert(x < 0 ==> !((x as u8) << 1u8) == (-2) * x - 1) by (bit_vector);
        }
        if x < 0 {
            !u
        } else {
            u
        }
    }
}

impl ZigZag for i16 {
    type Target = u16;

    open spec fn spec_zigzag(&self) -> u16 {
        if *self >= 0 {
            (2 * *self) as u16
        } else {
            ((-2) * *self - 1) as u16
        }
    }

    fn zigzag(&self) -> (r: u16) {
        let x: i16 = *self;
        let u: u16 = (#[verifier::truncate] (x as u16)) << 1u16;
        proof {
            assert(x >= 0 ==> ((x as u16) << 1u16) == 2 * x) by (bit_vector);
            assert(x < 0 ==> !((x as u16) << 1u16) == (-2) * x - 1) by (bit_vector);
        }
        if x < 0 {
            !u
        } else {
            u
        }
    }
}

impl ZigZag for i32 {
    type Target = u32;

    open spec fn spec_zigzag(&self) -> u32 {
        if *self >= 0 {
            (2 * *self) as u32
        } else {
            ((-2) * *self - 1) as u32
        }
    }

    fn zigzag(&self) -> (r: u32) {
        let x: i32 = *self;
        let u: u32 = (#[verifier::truncate] (x as u32)) << 1u32;
        proof {
            assert(x >= 0 ==> ((x as u32) << 1u32) == 2 * x) by (bit_vector);
            assert(x < 0 ==> !((x as u32) << 1u32) == (-2) * x - 1) by (bit_vector);
        }
        if x < 0 {
            !u
        } else {
            u
        }
    }
}

impl ZigZag for i64 {
    type Target = u64;

    open spec fn spec_zigzag(&self) -> u64 {
        if *self >= 0 {
            (2 * *self) as u64
        } else {
            ((-2) * *self - 1) as u64
        }
    }

    fn zigzag(&self) -> (r: u64) {
        let x: i64 = *self;
        let u: u64 = (#[verifier::truncate] (x as u64)) << 1u64;
        proof {
            assert(x >= 0 ==> ((x as u64) << 1u64) == 2 * x) by (bit_vector);
            assert(x < 0 ==> !((x as u64) << 1u64) == (-2) * x - 1) by (bit_vector);
        }
        if x < 0 {
            !u
        } else {
            u
        }
    }
}

impl ZigZag for i128 {
    type Target = u128;

    open spec fn spec_zigzag(&self) -> u128 {
        if *self >= 0 {
            (2 * *self) as u128
        } else {
            ((-2) * *self - 1) as u128
        }
    }

    fn zigzag(&self) -> (r: u128) {
        let x: i128 = *self;
        let u: u128 = (#[verifier::truncate] (x as u128)) << 1u128;
        proof {
            assert(x >= 0 ==> ((x as u128) << 1u128) == 2 * x) by (bit_vector);
            assert(x < 0 ==> !((x as u128) << 1u128) == (-2) * x - 1) by (bit_vector);
        }
        if x < 0 {
            !u
        } else {
            u
        }
    }
}

impl ZagZig for u8 {
    type Target = i8;

    open spec fn spec_zagzig(&self) -> i8 {
        if *self % 2 == 0 {
            (*self / 2) as i8
        } else {
            (-1 - *self / 2) as i8
        }
    }

    fn zagzig(&self) -> (r: i8) {
        let u: u8 = *self;
        let h: u8 = u >> 1u8;
        proof {
            assert(u & 1u8 == 0 <==> u % 2 == 0) by (bit_vector);
            assert((u >> 1u8) == u / 2) by (bit_vector);
            assert(u % 2 != 0 ==> (!(u >> 1u8)) as i8 == -1 - u / 2) by (bit_vector);
            assert(u % 2 == 0 ==> ((u >> 1u8)) as i8 == u / 2) by (bit_vector);
        }
        if u & 1u8 == 0 {
            h as i8
        } else {
            #[verifier::truncate] ((!h) as i8)
        }
    }
}

impl ZagZig for u16 {
    type Target = i16;

    open spec fn spec_zagzig(&self) -> i16 {
        if *self % 2 == 0 {
            (*self / 2) as i16
        } else {
            (-1 - *self / 2) as i16
        }
    }

    fn zagzig(&self) -> (r: i16) {
        let u: u16 = *self;
        let h: u16 = u >> 1u16;
        proof {
            assert(u & 1u16 == 0 <==> u % 2 == 0) by (bit_vector);
            assert((u >> 1u16) == u / 2) by (bit_vector);
            assert(u % 2 != 0 ==> (!(u >> 1u16)) as i16 == -1 - u / 2) by (bit_vector);
            assert(u % 2 == 0 ==> ((u >> 1u16)) as i16 == u / 2) by (bit_vector);
        }
        if u & 1u16 == 0 {
            h as i16
        } else {
            #[verifier::truncate] ((!h) as i16)
        }
    }
}

impl ZagZig for u32 {
    type Target = i32;

    open spec fn spec_zagzig(&self) -> i32 {
        if *self % 2 == 0 {
            (*self / 2) as i32
        } else {
            (-1 - *self / 2) as i32
        }
    }

    fn zagzig(&self) -> (r: i32) {
        let u: u32 = *self;
        let h: u32 = u >> 1u32;
        proof {
            assert(u & 1u32 == 0 <==> u % 2 == 0) by (bit_vector);
            assert((u >> 1u32) == u / 2) by (bit_vector);
            assert(u % 2 != 0 ==> (!(u >> 1u32)) as i32 == -1 - u / 2) by (bit_vector);
            assert(u % 2 == 0 ==> ((u >> 1u32)) as i32 == u / 2) by (bit_vector);
        }
        if u & 1u32 == 0 {
            h as i32
        } else {
            #[verifier::truncate] ((!h) as i32)
        }
    }
}

impl ZagZig for u64 {
    type Target = i64;

    open spec fn spec_zagzig(&self) -> i64 {
        if *self % 2 == 0 {
            (*self / 2) as i64
        } else {
            (-1 - *self / 2) as i64
        }
    }

    fn zagzig(&self) -> (r: i64) {
        let u: u64 = *self;
        let h: u64 = u >> 1u64;
        proof {
            assert(u & 1u64 == 0 <==> u % 2 == 0) by (bit_vector);
            assert((u >> 1u64) == u / 2) by (bit_vector);
            assert(u % 2 != 0 ==> (!(u >> 1u64)) as i64 == -1 - u / 2) by (bit_vector);
            assert(u % 2 == 0 ==> ((u >> 1u64)) as i64 == u / 2) by (bit_vector);
        }
        if u & 1u64 == 0 {
            h as i64
        } else {
            #[verifier::truncate] ((!h) as i64)
        }
    }
}

impl ZagZig for u128 {
    type Target = i128;

    open spec fn spec_zagzig(&self) -> i128 {
        if *self % 2 == 0 {
            (*self / 2) as i128
        } else {
            (-1 - *self / 2) as i128
        }
    }

    fn zagzig(&self) -> (r: i128) {
        let u: u128 = *self;
        let h: u128 = u >> 1u128;
        proof {
            assert(u & 1u128 == 0 <==> u % 2 == 0) by (bit_vector);
            assert((u >> 1u128) == u / 2) by (bit_vector);
            assert(u % 2 != 0 ==> (!(u >> 1u128)) as i128 == -1 - u / 2) by (bit_vector);
            assert(u % 2 == 0 ==> ((u >> 1u128)) as i128 == u / 2) by (bit_vector);
        }
        if u & 1u128 == 0 {
            h as i128
        } else {
            #[verifier::truncate] ((!h) as i128)
        }
    }
}

/// Zig-zag is its own exact inverse on 8-bit values: decoding an encoded
/// value gives the value back.
pub proof fn lemma_zigzag_roundtrip_i8(x: i8)
    ensures
        x.spec_zigzag().spec_zagzig() == x,
{
}

/// Zig-zag is its own exact inverse on 16-bit values: decoding an encoded
/// value gives the value back.
pub proof fn lemma_zigzag_roundtrip_i16(x: i16)
    ensures
        x.spec_zigzag().spec_zagzig() == x,
{
}

/// Zig-zag is its own exact inverse on 32-bit values: decoding an encoded
/// value gives the value back.
pub proof fn lemma_zigzag_roundtrip_i32(x: i32)
    ensures
        x.spec_zigzag().spec_zagzig() == x,
{
}

/// Zig-zag is its own exact inverse on 64-bit values: decoding an encoded
/// value gives the value back.
pub proof fn lemma_zigzag_roundtrip_i64(x: i64)
    ensures
        x.spec_zigzag().spec_zagzig() == x,
{
}

/// Zig-zag is its own exact inverse on 128-bit values: decoding an encoded
/// value gives the value back.
pub proof fn lemma_zigzag_roundtrip_i128(x: i128)
    ensures
        x.spec_zigzag().spec_zagzig() == x,
{
}

/// The converse round trip on 8-bit values: encoding a decoded value gives
/// the value back, so zig-zag is a bijection.
pub proof fn lemma_zagzig_roundtrip_u8(u: u8)
    ensures
        u.spec_zagzig().spec_zigzag() == u,
{
}

/// The converse round trip on 16-bit values: encoding a decoded value gives
/// the value back, so zig-zag is a bijection.
pub proof fn lemma_zagzig_roundtrip_u16(u: u16)
    ensures
        u.spec_zagzig().spec_zigzag() == u,
{
}

/// The converse round trip on 32-bit values: encoding a decoded value gives
/// the value back, so zig-zag is a bijection.
pub proof fn lemma_zagzig_roundtrip_u32(u: u32)
    ensures
        u.spec_zagzig().spec_zigzag() == u,
{
}

/// The converse round trip on 64-bit values: encoding a decoded value gives
/// the value back, so zig-zag is a bijection.
pub proof fn lemma_zagzig_roundtrip_u64(u: u64)
    ensures
        u.spec_zagzig().spec_zigzag() == u,
{
}

/// The converse round trip on 128-bit values: encoding a decoded value gives
/// the value back, so zig-zag is a bijection.
pub proof fn lemma_zagzig_roundtrip_u128(u: u128)
    ensures
        u.spec_zagzig().spec_zigzag() == u,
{
}

} // verus!
