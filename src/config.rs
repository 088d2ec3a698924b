//! Settings of a media worker.

use vstd::prelude::*;

verus! {

/// Where the signaling server is.
#[derive(Debug, Clone)]
pub struct ServerConfig {
    pub signaling_server: String,
}

/// WebRTC settings; none are needed yet.
#[derive(Debug, Clone)]
pub struct RtcConfig {}

/// Logging settings.
#[derive(Debug, Clone)]
pub struct LogConfig {
    pub level: String,
    pub path: String,
}

/// All settings of a media worker.
#[derive(Debug, Clone)]
pub struct AppConfig {
    pub server: ServerConfig,
    pub log: LogConfig,
    pub rtc: RtcConfig,
}

impl Default for AppConfig {
    fn default() -> (r: Self)
        ensures
            r.server.signaling_server@ == "wss://your-signaling-server.com/room"@,
            r.log.level@ == "info"@,
            r.log.path@ == "./logs"@,
    {
        AppConfig {
            server: ServerConfig { signaling_server: "wss://your-signaling-server.com/room".to_string() },
            log: LogConfig { level: "info".to_string(), path: "./logs".to_string() },
            rtc: RtcConfig {},
        }
    }
}

} // verus!
