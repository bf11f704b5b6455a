//! The trust store for TLS connections: built once from a standard root
//! bundle, then shared read-only by every fetch.
use vstd::prelude::*;
use std::sync::Arc;

verus! {

#[verifier::external_type_specification]
#[verifier::external_body]
pub struct ExClientConfig(rustls::ClientConfig);

#[verifier::external_type_specification]
#[verifier::external_body]
pub struct ExRootCertStore(rustls::RootCertStore);

/// Relies on webpki_roots::TLS_SERVER_ROOTS, gathered into a
/// rustls::RootCertStore through its FromIterator impl.
#[verifier::external_body]
fn web_root_store() -> (r: rustls::RootCertStore) {
    webpki_roots::TLS_SERVER_ROOTS.iter().cloned().collect()
}

/// Relies on rustls::ClientConfig::builder, with the crate's one built-in
/// crypto provider, the given roots and no client certificate.
#[verifier::external_body]
fn client_config(roots: rustls::RootCertStore) -> (r: Arc<rustls::ClientConfig>) {
    Arc::new(rustls::ClientConfig::builder().with_root_certificates(roots).with_no_client_auth())
}

/// The client configuration that TLS connections are made with.
pub struct TlsTrust {
    config: Arc<rustls::ClientConfig>,
}

/// Builds the trust configuration from the standard root bundle. Building
/// it again gives an equivalent configuration, so a caller that keeps one
/// handle may build it whenever it likes.
pub fn init_tls_certs() -> (r: TlsTrust) {
    let roots = web_root_store();
    TlsTrust { config: client_config(roots) }
}

impl TlsTrust {
    pub closed spec fn shared(&self) -> Arc<rustls::ClientConfig> {
        self.config
    }

    /// The shared client configuration.
    pub fn config(&self) -> (r: &Arc<rustls::ClientConfig>)
        ensures
            *r == self.shared(),
    {
        &self.config
    }
}

} // verus!
