//! Server-side TLS settings with one certificate per host name.
//!
//! A [`config::RustlsConfig`] collects key material, for a fallback and for any number of host
//! names, and a policy for client certificates. From these it makes a [`settings::ServerTlsConfig`],
//! whose [`resolver::CertResolver`] picks the certificate for each handshake.
pub mod client_auth;
pub mod config;
pub mod error;
pub mod host_map;
pub mod identity;
pub mod keycert;
pub mod pem;
pub mod resolver;
pub mod settings;
