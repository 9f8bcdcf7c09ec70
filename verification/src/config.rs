//! The settings a server and a client are started with.

use vstd::prelude::*;

verus! {

/// Everything a server needs to start.
#[derive(Clone, Debug, PartialEq, Eq)]
pub struct ServerConfig {
    pub general: GeneralConfig,
    pub storage: StorageConfig,
    pub tls: ServerTlsConfig,
    pub log: LogConfig,
}

/// Everything a client needs to connect.
#[derive(Clone, Debug, PartialEq, Eq)]
pub struct ClientConfig {
    pub general: GeneralConfig,
    pub tls: ClientTlsConfig,
}

/// Where the server listens, or the client connects to: `host:port`.
#[derive(Clone, Debug, PartialEq, Eq)]
pub struct GeneralConfig {
    pub addr: String,
}

/// How the server logs.
#[derive(Clone, Debug, PartialEq, Eq)]
pub struct LogConfig {
    pub path: String,
    pub rotation: RotationConfig,
    pub level: LevelConfig,
    pub enable_log_file: bool,
    pub enable_jager: bool,
}

/// How often the log file is rotated.
#[derive(Clone, Debug, PartialEq, Eq)]
pub enum RotationConfig {
    Hourly,
    Daily,
    Never,
}

/// The least severe level that is logged.
#[derive(Clone, Debug, PartialEq, Eq)]
pub enum LevelConfig {
    Trace,
    Debug,
    Info,
    Warn,
    Error,
}

/// Which storage backend the server uses.
#[derive(Clone, Debug, PartialEq, Eq)]
pub enum StorageConfig {
    /// The in-memory backend.
    MemTable,
    /// The on-disk backend, with the directory it lives in.
    SledDb(String),
}

/// The server's certificate and key, and the CA that signs client
/// certificates where clients must present one. All are PEM texts.
#[derive(Clone, Debug, PartialEq, Eq)]
pub struct ServerTlsConfig {
    pub cert: String,
    pub key: String,
    pub ca: Option<String>,
}

/// The name the server's certificate must carry, the client's own certificate
/// and key where the server asks for one, and the CA that signs the server's
/// certificate where it is not a system root. All but the name are PEM texts.
#[derive(Clone, Debug, PartialEq, Eq)]
pub struct ClientTlsConfig {
    pub domain: String,
    pub identity: Option<(String, String)>,
    pub ca: Option<String>,
}

} // verus!
