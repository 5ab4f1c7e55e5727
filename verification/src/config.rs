//! Explicit server configuration, passed to constructors instead of
//! being read from process-wide state.

use vstd::prelude::*;

verus! {

/// Where the server's TLS certificate and private key live; front-ends
/// that should speak TLS load them at startup.
#[derive(Debug, Clone)]
pub struct SslContext {
    pub cert_file: String,
    pub key_file: String,
}

} // verus!
