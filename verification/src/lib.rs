//! Value conversion between the Syma symbolic kernel and Python, as plain data.
pub mod json;
pub mod decimal;
pub mod native;
pub mod convert;
pub mod syma_value;
pub mod kernel;
pub mod py_input;
pub mod laws;
pub mod input_laws;
