//! The portal client as a phone app sees it.

use crate::auth::{Auth0TokenSource, Credential};
use crate::auth0::Auth0Tokens;
use crate::config::{Narrowing, P2pConfig};
use std::sync::Arc;
use vstd::prelude::*;

verus! {

/// The name under which the app registers and pairs.
pub const DEVICE_NAME: &'static str = "portal-client-android";

/// How long closing a session may take, in seconds.
pub const CLOSE_TIMEOUT: u64 = 5;

/// What went wrong, as far as the app is told.
#[derive(Debug)]
pub enum PortalError {
    /// The key cannot be read.
    InvalidKey(String),
    /// Pairing failed.
    Pair(String),
    /// Connecting failed.
    Connect(String),
    /// The runtime failed.
    Runtime(String),
}

impl PortalError {
    /// The error in words.
    pub open spec fn message_spec(self) -> Seq<char> {
        match self {
            PortalError::InvalidKey(why) => "invalid key: "@ + why@,
            PortalError::Pair(why) => "pairing failed: "@ + why@,
            PortalError::Connect(why) => "connect failed: "@ + why@,
            PortalError::Runtime(why) => "runtime error: "@ + why@,
        }
    }

    /// The error in words.
    pub fn message(&self) -> (text: String)
        ensures
            text@ == self.message_spec(),
    {
        match self {
            PortalError::InvalidKey(why) => {
                let mut text = "invalid key: ".to_owned();
                text.push_str(why.as_str());
                text
            },
            PortalError::Pair(why) => {
                let mut text = "pairing failed: ".to_owned();
                text.push_str(why.as_str());
                text
            },
            PortalError::Connect(why) => {
                let mut text = "connect failed: ".to_owned();
                text.push_str(why.as_str());
                text
            },
            PortalError::Runtime(why) => {
                let mut text = "runtime error: ".to_owned();
                text.push_str(why.as_str());
                text
            },
        }
    }
}

/// What the app keeps between runs.
#[derive(Debug)]
pub struct PortalConfig {
    /// Identity API base URL.
    pub identity_url: String,
    /// Proxy base URL.
    pub proxy_url: String,
    /// The protocol to speak.
    pub protocol: String,
    /// An Auth0 access token.
    pub auth0_token: String,
    /// The service to reach.
    pub service: String,
    /// The server it was paired with; empty where it was not.
    pub expected_endpoint: String,
    /// Whether the Endpoint is still to be registered.
    pub register: bool,
}

/// The session configuration that the app's asks for.
pub fn build_p2p_config(
    config: &PortalConfig,
    endpoint: String,
    register: bool,
    auth0: Option<Arc<dyn Auth0TokenSource>>,
) -> (cfg: P2pConfig)
    ensures
        cfg.identity_url == config.identity_url,
        !cfg.identity_http3,
        cfg.proxy_url == config.proxy_url,
        cfg.credential matches Credential::Auth0 { token, source, register: r } && token@ == config.auth0_token@ && source
            == auth0 && r == register,
        cfg.protocol == config.protocol,
        cfg.device_name matches Some(name) && name@ == DEVICE_NAME@ && name@ == "portal-client-android"@,
        cfg.token_ttl is None,
        cfg.endpoint == endpoint,
        cfg.narrowing.permissions is None && cfg.narrowing.protocols is None && cfg.narrowing.gateways is None,
{
    P2pConfig {
        identity_url: config.identity_url.clone(),
        identity_http3: false,
        proxy_url: config.proxy_url.clone(),
        credential: Credential::auth0(config.auth0_token.as_str(), auth0, register),
        protocol: config.protocol.clone(),
        device_name: Some(DEVICE_NAME.to_owned()),
        token_ttl: None,
        endpoint,
        narrowing: Narrowing { permissions: None, protocols: None, gateways: None },
    }
}

/// What the app keeps after pairing: the server, and that the Endpoint is
/// registered.
pub fn pair_with_code(config: PortalConfig, owner_endpoint: String) -> (r: PortalConfig)
    ensures
        r == (PortalConfig { expected_endpoint: owner_endpoint, register: false, ..config }),
{
    PortalConfig {
        identity_url: config.identity_url,
        proxy_url: config.proxy_url,
        protocol: config.protocol,
        auth0_token: config.auth0_token,
        service: config.service,
        expected_endpoint: owner_endpoint,
        register: false,
    }
}

/// The tokens to keep current, where the app has a refresh token.
pub fn tokens_for(config: &PortalConfig, refresh_token: Option<String>, expires_at_unix: u64) -> (r: Option<Auth0Tokens>)
    ensures
        match refresh_token {
            None => r is None,
            Some(token) => r matches Some(tokens) && tokens.access_token == config.auth0_token && tokens.refresh_token
                == Some(token) && tokens.expires_at_unix == expires_at_unix && tokens.recorded_organization is None,
        },
{
    match refresh_token {
        None => None,
        Some(token) => Some(
            Auth0Tokens {
                access_token: config.auth0_token.clone(),
                recorded_organization: None,
                refresh_token: Some(token),
                expires_at_unix,
            },
        ),
    }
}

/// The server to connect to, where the app was paired with one.
pub fn expected_peer(config: &PortalConfig) -> (peer: Option<&str>)
    ensures
        match peer {
            Some(name) => config.expected_endpoint@.len() > 0 && name@ == config.expected_endpoint@,
            None => config.expected_endpoint@.len() == 0,
        },
{
    if config.expected_endpoint.as_str().is_empty() {
        None
    } else {
        Some(config.expected_endpoint.as_str())
    }
}

/// A session that the app holds.
pub struct PortalSession {
    /// Whether it is still open.
    pub open: bool,
    /// The local port that stands for the service.
    pub local_port: u16,
}

impl PortalSession {
    /// A session that forwards from `local_port`.
    pub fn new(local_port: u16) -> (s: Self)
        ensures
            s.open,
            s.local_port == local_port,
    {
        PortalSession { open: true, local_port }
    }

    /// The local port that stands for the service.
    pub fn local_port(&self) -> (port: u16)
        ensures
            port == self.local_port,
    {
        self.local_port
    }

    /// Close the session; returns whether there is anything to wind down,
    /// which there is once.
    pub fn disconnect(&mut self) -> (first: bool)
        ensures
            first == old(self).open,
            !final(self).open,
            final(self).local_port == old(self).local_port,
    {
        let first = self.open;
        self.open = false;
        first
    }
}

} // verus!
