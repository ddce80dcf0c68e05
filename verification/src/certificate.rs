//! Names of the certificate and private-key files used to configure the
//! transport at startup. Reading, writing and generating the material is
//! the transport collaborator's business, not this library's.

use vstd::prelude::*;

verus! {

/// The certificate file to use: the given name, or `cert` when none was
/// given.
pub fn certificate_filename_or_default(cert_filename: Option<String>) -> (r: String)
    ensures
        r@ == match cert_filename {
            Some(name) => name@,
            None => "cert"@,
        },
{
    match cert_filename {
        Some(name) => name,
        None => "cert".to_owned(),
    }
}

/// The private-key file to use: the given name, or `private_key` when none
/// was given.
pub fn private_key_filename_or_default(private_key_filename: Option<String>) -> (r: String)
    ensures
        r@ == match private_key_filename {
            Some(name) => name@,
            None => "private_key"@,
        },
{
    match private_key_filename {
        Some(name) => name,
        None => "private_key".to_owned(),
    }
}

} // verus!
