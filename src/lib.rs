//! Typed line input: reading one line of text from a line source and turning it
//! into a string, an integer, a boolean, a character or a vector of these, either
//! failing at once on malformed input or re-reading until a line converts.
pub mod convert;
pub mod engine;
pub mod laws;
pub mod source;
pub mod text;

pub use convert::{
    convert_bool, convert_char, convert_int, convert_int_vec, convert_text, convert_text_vec,
    Convert, ParseError, ReadError, TargetType,
};
pub use engine::{
    failure_notice, parse_from_reader, read_bool_from, read_bool_loop, read_char_from,
    read_char_loop, read_int_from, read_int_retry, read_int_vec_from, read_int_vec_loop,
    read_string_from, read_string_vec_from, read_value_from, read_with_retry, retry_step,
};
pub use source::LineSource;
pub use text::split_words;
