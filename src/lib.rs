//! A multi-tenant OpenID Connect issuer: per-tenant client registries,
//! redirect-URI policy, signed token issuance and grant-flow dispatch.

pub mod context;
pub mod discovery;
pub mod dispatch;
pub mod error;
pub mod issuer;
pub mod oidc;
pub mod redirect;
pub mod secrets;
pub mod server;
pub mod state;
pub mod text;
pub mod token;
pub mod uri;
