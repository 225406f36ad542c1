//! A one-pass assembler for the SIC/XE instruction set.
pub mod err;
pub mod layout;
pub mod object;
pub mod parser;
pub mod pattern;
pub mod pending;
pub mod shape;
pub mod target;
pub mod text;
