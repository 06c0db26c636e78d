//! The decisions of a peer-to-peer client: how it signs in, keeps its tokens
//! and leases current, serves and reaches its peers, and chooses its paths.
//!
//! Nothing here waits, sleeps or touches the network. Where a decision needs
//! the outside world, a function says what to ask and another takes the
//! answer; the program around the library carries the questions.

pub mod addr;
pub mod agent_cli;
pub mod auth;
pub mod auth0;
pub mod browser_login;
pub mod clock;
pub mod codec;
pub mod config;
pub mod device_login;
pub mod direct_path;
pub mod duration;
pub mod enrollment;
pub mod initiator;
pub mod listener;
pub mod membership;
pub mod names;
pub mod oidc;
pub mod peer;
pub mod portal_args;
pub mod portal_ffi;
pub mod portal_report;
pub mod portal_run;
pub mod proxy;
pub mod public;
pub mod relay_lease;
pub mod relay_rtt;
pub mod secret;
pub mod sign_in;
pub mod text;
pub mod urlcode;

pub use auth::{AssertionSource, Auth0TokenSource, Credential, Enrollment, StaticAuth0Token};
pub use config::{issue_endpoint_token, P2pConfig};
pub use initiator::InitiatorSession;
pub use listener::{
    AcceptPolicy, LegDirectory, ListenerSession, SignalingEvent, SignalingState, MAX_CONCURRENT_PEERS,
};
