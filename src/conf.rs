use vstd::prelude::*;

verus! {

/// The port the server listens on when none is configured.
pub const DEFAULT_PORT: u16 = 7878;

/// Settings of the HTTP server.
#[derive(Debug)]
pub struct ServerConfig {
    port: Option<u16>,
}

impl ServerConfig {
    /// Settings with the given port, if any.
    pub fn new(port: Option<u16>) -> (r: Self)
        ensures
            r.configured_port() == port,
    {
        ServerConfig { port }
    }

    /// The port that was configured, if any.
    pub closed spec fn configured_port(&self) -> Option<u16> {
        self.port
    }

    /// The port to listen on: the configured one, else the default.
    pub fn port(&self) -> (r: u16)
        ensures
            r == match self.configured_port() {
                Some(p) => p,
                None => DEFAULT_PORT,
            },
    {
        match self.port {
            Some(p) => p,
            None => DEFAULT_PORT,
        }
    }
}

/// The application's settings.
#[derive(Debug)]
pub struct AppConfig {
    pub server: ServerConfig,
}

} // verus!
