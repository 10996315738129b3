//! License lifecycle orchestration and webhook authentication for a
//! commerce platform wired to a remote licensing service.
pub mod code;
pub mod crypto;
pub mod encoding;
pub mod events;
pub mod fastspring;
pub mod form;
pub mod json;
pub mod keygen;
pub mod orders;
pub mod patreon;
pub mod provision;
pub mod requests;
pub mod revocation;
