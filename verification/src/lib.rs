//! Fixed-point decimal numbers: an integer mantissa scaled by a fixed power
//! of ten, with an exact decimal-text codec.
//!
//! A value of `FixedDecimal<T, SCALE>` denotes `mantissa / 10^SCALE`
//! exactly, for any of the ten primitive integer kinds `T`. Formatting and
//! parsing are exact and total: they never panic, handle the two's
//! complement minimum of every signed kind, and carry contracts stating
//! the precise text produced and the precise mantissa or failure parsed.

pub mod buffer;
pub mod digits;
pub mod error;
pub mod fixed_decimal;
pub mod num_kind;
pub mod num_kind_signed;
pub mod num_kind_unsigned;
pub mod parse;
pub mod render;
pub mod round_trip;

pub use error::Error;
pub use fixed_decimal::FixedDecimal;
pub use parse::ParseError;

use vstd::prelude::*;

verus! {

pub type FixedDecimalI128<const E: u8> = FixedDecimal<i128, E>;

pub type FixedDecimalU128<const E: u8> = FixedDecimal<u128, E>;

pub type FixedDecimalI64<const E: u8> = FixedDecimal<i64, E>;

pub type FixedDecimalU64<const E: u8> = FixedDecimal<u64, E>;

pub type FixedDecimalI32<const E: u8> = FixedDecimal<i32, E>;

pub type FixedDecimalU32<const E: u8> = FixedDecimal<u32, E>;

pub type FixedDecimalI16<const E: u8> = FixedDecimal<i16, E>;

pub type FixedDecimalU16<const E: u8> = FixedDecimal<u16, E>;

pub type FixedDecimalI8<const E: u8> = FixedDecimal<i8, E>;

pub type FixedDecimalU8<const E: u8> = FixedDecimal<u8, E>;

} // verus!
