//! Bearer-token extraction and verification for an OAuth2/OIDC authorization
//! server, with verified contracts.
//!
//! The crate locates a bearer access token in an HTTP request (from the
//! `Authorization` header or from a form-encoded body), rejects ambiguous
//! credential placement, verifies the located token against the answer of a
//! token store, and renders RFC 6750 `WWW-Authenticate` challenges for every
//! failure.

pub mod challenge;
pub mod form;
pub mod text;
pub mod types;
pub mod user_authorization;
