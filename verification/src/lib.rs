//! A four-component integer vector value type.
//!
//! The central type is [`Vector4i`]: four named signed 32-bit components
//! addressed by name or through the [`Vector4iAxis`] enumeration. The crate
//! provides element-wise arithmetic with verified overflow bounds, a
//! lexicographic total order, lossless conversion to and from the SIMD-lane
//! representation [`glam::IVec4`], canonical text rendering, and a structured
//! JSON-shaped encoding with a verified decode/encode round trip.

mod json;
mod simd;
mod text;
mod vector4i;

pub use json::lemma_json_round_trip;
pub use json::spec_from_json;
pub use json::spec_to_json;
pub use json::DecodeError;
pub use simd::ivec4_lanes;
pub use simd::lemma_fast_form_round_trip;
pub use text::dec_digits;
pub use text::dec_str;
pub use text::digit_char;
pub use text::spec_text;
pub use vector4i::abs_int;
pub use vector4i::lemma_axis_round_trip;
pub use vector4i::lemma_order_total_lexicographic;
pub use vector4i::lex_lt;
pub use vector4i::trunc_div;
pub use vector4i::trunc_rem;
pub use vector4i::ArithmeticError;
pub use vector4i::Vector4i;
pub use vector4i::Vector4iAxis;
