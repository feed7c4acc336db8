//! The gateway's configuration.
use vstd::prelude::*;

verus! {

/// What an operator can set.
#[derive(Clone, Debug)]
pub struct Config {
    /// Address to listen on for PostgreSQL connections.
    pub listen_addr: String,
    /// File with the TLS certificate chain of the listening socket.
    pub tls_cert: Option<String>,
    /// File with the TLS private key of the listening socket.
    pub tls_key: Option<String>,
    /// Trino host to connect to.
    pub trino_host: String,
    /// Trino port to connect to.
    pub trino_port: u16,
    /// Trino catalog to use.
    pub trino_catalog: String,
    /// Trino schema to use.
    pub trino_schema: String,
    /// Trino user to connect as where clients do not authenticate.
    pub trino_user: String,
    /// Use HTTPS to connect to Trino.
    pub trino_ssl: bool,
    /// Skip verification of Trino's certificate.
    pub trino_tls_no_verify: bool,
    /// Allow forwarding a client's password to Trino over plain HTTP.
    pub trino_allow_plaintext_auth: bool,
    /// Require password authentication from clients.
    pub auth: bool,
    /// Accept unauthenticated clients on an address other than loopback.
    pub allow_insecure_listener: bool,
    /// Maximum number of concurrent client connections.
    pub max_connections: usize,
}

impl Config {
    /// Both halves of the TLS configuration are there.
    pub open spec fn has_tls(self) -> bool {
        self.tls_cert is Some && self.tls_key is Some
    }

    /// Whether both halves of the TLS configuration are there.
    pub fn tls_configured(&self) -> (r: bool)
        ensures
            r == self.has_tls(),
    {
        self.tls_cert.is_some() && self.tls_key.is_some()
    }

    /// Which TLS files are configured. Half a configuration is none: TLS is off
    /// then, and the operator is warned.
    pub fn tls_files(&self) -> (r: TlsFiles<'_>)
        ensures
            match r {
                TlsFiles::Both { cert, key } => self.tls_cert == Some(*cert) && self.tls_key
                    == Some(*key),
                TlsFiles::CertOnly(cert) => self.tls_cert == Some(*cert) && self.tls_key is None,
                TlsFiles::KeyOnly(key) => self.tls_cert is None && self.tls_key == Some(*key),
                TlsFiles::Neither => self.tls_cert is None && self.tls_key is None,
            },
    {
        match (&self.tls_cert, &self.tls_key) {
            (Some(cert), Some(key)) => TlsFiles::Both { cert, key },
            (Some(cert), None) => TlsFiles::CertOnly(cert),
            (None, Some(key)) => TlsFiles::KeyOnly(key),
            (None, None) => TlsFiles::Neither,
        }
    }

    /// The number of connections to allow at once; an error where it is 0,
    /// which would refuse every client.
    pub fn connection_limit(&self) -> (r: Result<usize, &'static str>)
        ensures
            match r {
                Ok(n) => n == self.max_connections && n > 0,
                Err(m) => self.max_connections == 0 && m@
                    == "--max-connections 0 would refuse every connection. Use a positive value (default 256)."@,
            },
    {
        if self.max_connections == 0 {
            Err(
                "--max-connections 0 would refuse every connection. Use a positive value (default 256).",
            )
        } else {
            Ok(self.max_connections)
        }
    }
}

/// The TLS files that are configured.
#[derive(Debug)]
pub enum TlsFiles<'a> {
    Both { cert: &'a String, key: &'a String },
    CertOnly(&'a String),
    KeyOnly(&'a String),
    Neither,
}

} // verus!
