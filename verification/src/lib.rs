//! The core of a client for a QUIC transaction-submission ingress: token-authenticated,
//! standard TLS (WebPKI), fire-and-forget.
//!
//! Everything here decides and computes; nothing here performs I/O. What is to be done is
//! handed out as a plain value, and what came of it is handed back as one:
//!
//! - [`config`] and [`autoconfig`] hold the settings and what makes them acceptable.
//! - [`address`] reads endpoints, `host:port` or `[ipv6]:port`.
//! - [`client`] holds the token handshake, connecting, reconnecting and sending.
//! - [`endpoint`] sets up the local endpoint.
//! - [`probe`] judges the probes of discovered endpoints.
//! - [`autoconnect`] is the course of an automatic connect.
//! - [`tls`] settles trust anchors and TLS configuration.
//! - [`error`] holds the failures, and their texts.
pub mod address;
pub mod autoconfig;
pub mod autoconnect;
pub mod client;
pub mod config;
pub mod duration;
pub mod endpoint;
pub mod error;
pub mod probe;
pub mod text;
pub mod tls;

pub use address::SocketAddr;
pub use autoconfig::{AutoConfig, EndpointSource, FallbackReason, DEFAULT_DISCOVERY_URL};
pub use config::{ClientConfig, ReconnectPolicy};
pub use duration::Duration;
pub use error::{AutoConfigError, ConnectError, HandshakeError, SendError};
pub use rustls::RootCertStore;
