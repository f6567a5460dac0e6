//! 128-bit decimal floating point numbers: delegation of arithmetic to a
//! decimal128 codec, and verified textual formatting.

pub mod codec;
pub mod decimal128;
pub mod format;

pub use decimal128::Decimal128;
pub use format::{Alignment, FormatSpec, format_text};
