//! Installation access tokens for a GitHub App, for use from a step of a CI job.
//!
//! With the app's identifier and its RSA key the library signs a short-lived assertion,
//! looks up the installation of a target (an organization, a repository or a user) and
//! exchanges the assertion for a token of that installation, narrowed where asked to some
//! repositories and to some scopes. The requests themselves are sent by the caller.

pub mod base64;
pub mod codec;
pub mod document;
pub mod error;
pub mod exchange;
pub mod inputs;
pub mod options;
pub mod permissions;
pub mod scope;
pub mod secret;
pub mod signer;
pub mod text;
pub mod wire;

pub use error::TokenError;
pub use exchange::fetch_token;
pub use options::{Target, TokenOptions};
pub use permissions::Permissions;
pub use scope::{Privileges, Scope};
pub use secret::SecretText;
