//! The application settings: the signalling URL, whether TLS certificates are
//! checked, and the STUN/TURN servers.

use vstd::prelude::*;

verus! {

/// The signalling URL used when no settings file is present.
pub const DEFAULT_URL: &'static str = "https://10.24.88.31:7200/webrtc?app=live&stream=dca117f0-95d4-47e0-bb93-0681e85dbd0b&type=archive";

/// The public STUN server used by default.
pub const DEFAULT_STUN_SERVER: &'static str = "stun:stun.l.google.com:19302";

/// The settings file read at start-up.
pub const CONFIG_FILE: &'static str = "config.json";

/// The application settings.
#[derive(Debug, Clone)]
pub struct AppConfig {
    pub webrtc_url: String,
    /// Skip the TLS certificate check (for a server with a self-signed certificate).
    pub tls_insecure_skip_verify: bool,
    /// STUN/TURN server URLs, such as `stun:stun.l.google.com:19302`.
    pub ice_servers: Vec<String>,
}

impl Default for AppConfig {
    /// The default server, TLS check skipped, and one public STUN server.
    fn default() -> (c: Self)
        ensures
            c.webrtc_url@ == DEFAULT_URL@,
            c.tls_insecure_skip_verify,
            c.ice_servers@.len() == 1,
            c.ice_servers@[0]@ == DEFAULT_STUN_SERVER@,
    {
        let mut ice_servers: Vec<String> = Vec::new();
        ice_servers.push(DEFAULT_STUN_SERVER.to_owned());
        AppConfig { webrtc_url: DEFAULT_URL.to_owned(), tls_insecure_skip_verify: true, ice_servers }
    }
}

} // verus!
