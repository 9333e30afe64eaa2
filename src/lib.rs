//! Translation between text and Morse code, with an interactive session model.
pub mod symbol;
pub mod table;
pub mod text;
pub mod encoder;
pub mod decoder;
pub mod session;
pub mod laws;
