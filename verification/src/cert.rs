//! The server's TLS material: where it lies and when it is made.
use crate::{host, text};
use vstd::prelude::*;

verus! {

/// The name that a self-signed leaf is made out to.
pub const CERT_SUBJECT: &'static str = "aegisd";

/// File mode of the certificate: public.
pub const CERT_MODE: u32 = 0o644;

/// File mode of the private key: for its owner only.
pub const KEY_MODE: u32 = 0o600;

/// Where the TLS material of a data directory lies.
#[derive(Debug, Clone)]
pub struct CertPaths {
    pub dir: String,
    pub cert: String,
    pub key: String,
}

/// The paths of the TLS material below a data directory.
pub fn cert_paths(data_dir: &str) -> (p: CertPaths)
    ensures
        p.dir@ == host::path_below(data_dir@, "server"@),
        p.cert@ == host::path_below(p.dir@, "tls.crt"@),
        p.key@ == host::path_below(p.dir@, "tls.key"@),
{
    let dir: String = host::join_path(data_dir, "server");
    let cert: String = host::join_path(dir.as_str(), "tls.crt");
    let key: String = host::join_path(dir.as_str(), "tls.key");
    CertPaths { dir, cert, key }
}

/// Whether new material has to be made: unless both files are there.
pub fn needs_new_cert(cert_exists: bool, key_exists: bool) -> (yes: bool)
    ensures
        yes == !(cert_exists && key_exists),
{
    !cert_exists || !key_exists
}

/// The name of the temporary file that is renamed over a file: hidden, and of one
/// process.
pub fn temp_name(file_name: &str, pid: u32) -> (name: String)
    ensures
        name@ == "."@ + file_name@ + ".tmp."@ + text::decimal(pid as nat),
{
    let mut name: String = ".".to_owned();
    text::push_str(&mut name, file_name);
    text::push_str(&mut name, ".tmp.");
    text::push_decimal(&mut name, pid as u64);
    name
}

} // verus!
