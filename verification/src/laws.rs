//! What holds of the library's functions, told by what goes into a call and what
//! comes out of it.

pub mod cache;
pub mod claims;
pub mod config;
pub mod discovery;
pub mod error;
pub mod keys;
pub mod text;
pub mod validator;
