//! What the core hands a secured transport adapter: the paths of its TLS
//! material. Loading and using the material is the adapter's business.

use vstd::prelude::*;

verus! {

/// The TLS material of a secured transport: where its certificate and
/// private key live.
#[derive(Clone, Debug)]
pub struct Certificate {
    /// The path to the certificate file.
    pub cert_path: String,
    /// The path to the private key file.
    pub key_path: String,
}

impl Certificate {
    /// Bundles the two paths.
    pub fn new(cert_path: String, key_path: String) -> (r: Certificate)
        ensures
            r.cert_path == cert_path,
            r.key_path == key_path,
    {
        Certificate { cert_path, key_path }
    }
}

} // verus!
