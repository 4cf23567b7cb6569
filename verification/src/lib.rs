//! Variable-length integer encoding (varint) for 64-bit integers, together
//! with the zig-zag transform that maps signed integers onto unsigned ones so
//! that values of small magnitude stay small.

pub mod varint;
pub mod zigzag;

pub use crate::varint::get_i64;
pub use crate::varint::get_u64;
pub use crate::varint::put_i64;
pub use crate::varint::put_u64;
pub use crate::varint::ErrorKind;
pub use crate::varint::MAX_VARINT_LEN_U16;
pub use crate::varint::MAX_VARINT_LEN_U32;
pub use crate::varint::MAX_VARINT_LEN_U64;
pub use crate::zigzag::ZagZig;
pub use crate::zigzag::ZigZag;
