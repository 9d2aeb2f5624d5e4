//! What a caller may rely on, stated over the operations themselves.
//!
//! Each law takes the arguments of one or more operations and a result that their contracts
//! admit (`call_ensures`), and says what holds of it: the very bytes, texts and parts, or
//! how the results of several calls belong together. Sizes, characters and opcodes are
//! written out, so that a law can be read without the definitions behind a contract.
pub mod calls;
pub mod contexts;
pub mod datagrams;
pub mod errors;
pub mod frames;
pub mod names;
pub mod pieces;
pub mod relay;
pub mod versions;
