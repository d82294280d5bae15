//! Which configured roles can the bearer of a JSON Web Token assume?

pub mod cache;
pub mod claims;
pub mod config;
pub mod decoder;
pub mod discovery;
pub mod error;
pub mod jwk;
pub mod keys;
pub mod laws;
pub mod name_map;
pub mod text;
pub mod validator;

pub use claims::ValidatedClaims;
pub use config::{ClaimRequirement, Config, DetailedClaimRequirement, JwtAlgorithm, RoleConfig};
pub use error::AuthzooError;
pub use validator::TokenValidator;
