//! What the server is started with.

use crate::text::join2;
use vstd::prelude::*;
use vstd::string::*;

verus! {

/// What the server is started with.
#[derive(Debug, Clone, PartialEq, Eq)]
pub struct ServerConfig {
    /// Where the certificate is.
    pub cert_path: String,
    /// Where its key is.
    pub key_path: String,
    /// Where to listen.
    pub bind_addr: String,
}

impl ServerConfig {
    /// Takes the values of the variables that name the certificate, its key and the
    /// address. The first two have to be there; the address is that of every
    /// interface, at the port of secure web servers, where none is given.
    pub fn from_vars(cert: Option<String>, key: Option<String>, bind: Option<String>) -> (r: Result<
        ServerConfig,
        String,
    >)
        ensures
            match r {
                Ok(c) => {
                    &&& cert == Some(c.cert_path)
                    &&& key == Some(c.key_path)
                    &&& match bind {
                        Some(b) => c.bind_addr == b,
                        None => c.bind_addr@ == "0.0.0.0:443"@,
                    }
                },
                Err(m) => if cert is None {
                    m@ == "error: SSH3_CERT_PATH environment variable is not set"@
                } else {
                    key is None && m@ == "error: SSH3_KEY_PATH environment variable is not set"@
                },
            },
    {
        let cert_path = match cert {
            Some(p) => p,
            None => {
                return Err("error: SSH3_CERT_PATH environment variable is not set".to_owned());
            },
        };
        let key_path = match key {
            Some(p) => p,
            None => {
                return Err("error: SSH3_KEY_PATH environment variable is not set".to_owned());
            },
        };
        let bind_addr = match bind {
            Some(b) => b,
            None => "0.0.0.0:443".to_owned(),
        };
        Ok(ServerConfig { cert_path, key_path, bind_addr })
    }

    /// The address as a location to bind to.
    pub fn bind_uri(&self) -> (r: String)
        ensures
            r@ == "inet://"@ + self.bind_addr@,
    {
        join2("inet://", self.bind_addr.as_str())
    }
}

/// Which program serves sessions: the one that is named, or the one beside the server,
/// where it is there, or the one above it.
pub fn ssh3_session_binary(
    named: Option<String>,
    beside: String,
    beside_exists: bool,
    above: String,
) -> (r: String)
    ensures
        r == match named {
            Some(path) => path,
            None => if beside_exists {
                beside
            } else {
                above
            },
        },
{
    match named {
        Some(path) => path,
        None => if beside_exists {
            beside
        } else {
            above
        },
    }
}

} // verus!
