//! Access-control core of the terminal multiplexer's web server and remote
//! client: the cache and request logic of the Tachikoma verification client,
//! the store of sessions opened with a user token, the rules that revoke them,
//! the login decision, and the remote-attach flow.
//!
//! Network and disk work happens outside. Each flow is a set of functions from
//! what is known so far to the next step, so every decision is proved for every
//! answer the outside can give.

pub mod acl_revalidator;
pub mod acl_session_store;
pub mod cache;
pub mod client;
pub mod foreign;
pub mod http_handlers;
pub mod login;
pub mod remote_attach;
pub mod text;
pub mod types;

