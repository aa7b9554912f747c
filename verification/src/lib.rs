//! Push-to-deploy relay core: registry notification handling, a TTL-bound
//! discovery cache mapping repositories to deployment targets, routing
//! dispatch, and the stack-redeploy protocol.
//!
//! All I/O (the HTTP server, the container runtime, the orchestration API)
//! lives outside this crate; these modules hold the decision logic and its
//! proofs, taking plain values in and handing plain values back.

pub mod discovery;
pub mod dispatch;
pub mod forwarder;
pub mod redeployer;
pub mod registry;
pub mod text;
