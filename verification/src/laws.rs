//! What the library promises, in terms of bytes, numbers and calls.
//!
//! The laws speak of what goes in and what comes out of an operation; where
//! they name one, `call_ensures` stands for "called with these arguments, it
//! returned this".
pub mod bits;
pub mod calls;
pub mod channels;
pub mod connecting;
pub mod decoding;
pub mod executors;
pub mod keys;
pub mod layout;
pub mod messages;
pub mod nics;
pub mod numbers;
pub mod parts;
pub mod programs;
pub mod raw;
pub mod regions;
pub mod rings;
pub mod sessions;
pub mod slots;
