//! The service configuration: where to listen, where the database is, the
//! verification key, and the three knobs of the fan-out path — keep-alive
//! period, per-subscriber channel capacity, and the consecutive-drop
//! threshold. Reading the YAML file and the environment is the boundary's
//! work; it hands the plain values here, and validation decides exactly
//! which configurations the service starts with.

use vstd::prelude::*;

verus! {

/// Keep-alive period when none is configured, in seconds.
pub const DEFAULT_KEEPALIVE_SECS: u64 = 30;

/// Per-subscriber channel capacity when none is configured.
pub const DEFAULT_SUBSCRIBER_BUFFER: usize = 16;

/// Consecutive-drop threshold when none is configured.
pub const DEFAULT_DROP_THRESHOLD_K: u64 = 3;

/// The bind address.
pub struct ListenConfig {
    pub host: String,
    pub port: u16,
}

/// The database connection.
pub struct DbConfig {
    pub url: String,
}

/// The token keys: the signing key of the issuer and the public key the
/// sessions verify with, both PEM-encoded.
pub struct AuthConfig {
    pub sk: String,
    pub pk: String,
}

/// Where uploaded files live.
pub struct FileConfig {
    pub base_dir: String,
}

/// The whole configuration.
pub struct Config {
    pub listen: ListenConfig,
    pub db: DbConfig,
    pub auth: AuthConfig,
    pub file: FileConfig,
    pub keepalive_secs: u64,
    pub subscriber_buffer: usize,
    pub drop_threshold_k: u64,
}

/// What a configuration was rejected for.
#[derive(Clone, Copy, Debug, PartialEq, Eq, Structural)]
pub enum ConfigError {
    EmptyHost,
    EmptyDbUrl,
    EmptyPublicKey,
    ZeroKeepAlive,
    ZeroSubscriberBuffer,
    ZeroDropThreshold,
}

/// Whether the configuration can start the service.
pub open spec fn spec_config_valid(c: &Config) -> bool {
    &&& c.listen.host@.len() > 0
    &&& c.db.url@.len() > 0
    &&& c.auth.pk@.len() > 0
    &&& c.keepalive_secs >= 1
    &&& c.subscriber_buffer >= 1
    &&& c.drop_threshold_k >= 1
}

impl Config {
    /// Accepts the configuration exactly when the host, database url and
    /// public key are present and the three fan-out knobs are positive;
    /// otherwise the first missing piece, in that order.
    pub fn validate(&self) -> (r: Result<(), ConfigError>)
        ensures
            match r {
                Ok(()) => spec_config_valid(self),
                Err(ConfigError::EmptyHost) => self.listen.host@.len() == 0,
                Err(ConfigError::EmptyDbUrl) => self.listen.host@.len() > 0 && self.db.url@.len()
                    == 0,
                Err(ConfigError::EmptyPublicKey) => self.listen.host@.len() > 0
                    && self.db.url@.len() > 0 && self.auth.pk@.len() == 0,
                Err(ConfigError::ZeroKeepAlive) => self.listen.host@.len() > 0
                    && self.db.url@.len() > 0 && self.auth.pk@.len() > 0 && self.keepalive_secs
                    == 0,
                Err(ConfigError::ZeroSubscriberBuffer) => self.listen.host@.len() > 0
                    && self.db.url@.len() > 0 && self.auth.pk@.len() > 0 && self.keepalive_secs
                    >= 1 && self.subscriber_buffer == 0,
                Err(ConfigError::ZeroDropThreshold) => self.listen.host@.len() > 0
                    && self.db.url@.len() > 0 && self.auth.pk@.len() > 0 && self.keepalive_secs
                    >= 1 && self.subscriber_buffer >= 1 && self.drop_threshold_k == 0,
            },
    {
        if self.listen.host.as_str().is_empty() {
            Err(ConfigError::EmptyHost)
        } else if self.db.url.as_str().is_empty() {
            Err(ConfigError::EmptyDbUrl)
        } else if self.auth.pk.as_str().is_empty() {
            Err(ConfigError::EmptyPublicKey)
        } else if self.keepalive_secs == 0 {
            Err(ConfigError::ZeroKeepAlive)
        } else if self.subscriber_buffer == 0 {
            Err(ConfigError::ZeroSubscriberBuffer)
        } else if self.drop_threshold_k == 0 {
            Err(ConfigError::ZeroDropThreshold)
        } else {
            Ok(())
        }
    }
}

impl Default for Config {
    /// An empty configuration carrying the three documented fan-out
    /// defaults; the addresses and keys still have to be filled in.
    fn default() -> (r: Config)
        ensures
            r.listen.host@.len() == 0,
            r.listen.port == 0,
            r.db.url@.len() == 0,
            r.auth.sk@.len() == 0,
            r.auth.pk@.len() == 0,
            r.file.base_dir@.len() == 0,
            r.keepalive_secs == DEFAULT_KEEPALIVE_SECS,
            r.subscriber_buffer == DEFAULT_SUBSCRIBER_BUFFER,
            r.drop_threshold_k == DEFAULT_DROP_THRESHOLD_K,
    {
        Config {
            listen: ListenConfig { host: String::new(), port: 0 },
            db: DbConfig { url: String::new() },
            auth: AuthConfig { sk: String::new(), pk: String::new() },
            file: FileConfig { base_dir: String::new() },
            keepalive_secs: DEFAULT_KEEPALIVE_SECS,
            subscriber_buffer: DEFAULT_SUBSCRIBER_BUFFER,
            drop_threshold_k: DEFAULT_DROP_THRESHOLD_K,
        }
    }
}

} // verus!
