pub mod logger;
pub mod oidc;
