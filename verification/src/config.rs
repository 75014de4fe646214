//! The program's configuration, as read from its configuration file.
use vstd::prelude::*;

use crate::text::{contains_text, seq_has_text};

verus! {

/// The whole configuration.
pub struct Configs {
    /// Server settings.
    pub server: Server,
    /// Static site settings.
    pub web: Web,
    /// TLS certificate settings.
    pub cert: Cert,
    /// System settings.
    pub system: System,
    /// Database settings.
    pub database: Database,
    /// Token settings.
    pub jwt: Jwt,
    /// Log settings.
    pub log: Log,
    /// Cache store settings.
    pub skytable: SkyTable,
}

/// Server settings.
pub struct Server {
    /// Server name.
    pub name: String,
    /// Listening address, such as `0.0.0.0:3000`.
    pub address: String,
    /// Whether to serve over TLS.
    pub ssl: bool,
    /// Whether to compress responses.
    pub content_gzip: bool,
    /// Seconds a cached response is kept; 0 turns caching off.
    pub cache_time: u64,
    /// Cache method.
    pub cache_method: u32,
    /// Prefix of every api path, such as `/api_v1`.
    pub api_prefix: String,
}

/// Static site settings.
pub struct Web {
    /// Root directory of the static site.
    pub dir: String,
    /// Index file name, such as `index.html`.
    pub index: String,
    /// Directory uploaded files are stored in.
    pub upload_dir: String,
    /// Url prefix uploaded files are served under.
    pub upload_url: String,
}

/// TLS certificate settings.
pub struct Cert {
    /// Certificate file.
    pub cert: String,
    /// Key file.
    pub key: String,
}

/// System settings.
pub struct System {
    /// Ids of the super users, who pass every permission check.
    pub super_user: Vec<String>,
    /// User agent parser setting.
    pub user_agent_parser: String,
}

/// Token settings.
pub struct Jwt {
    /// Signing secret.
    pub jwt_secret: String,
    /// Minutes a token lives.
    pub jwt_exp: i64,
}

/// Log settings.
pub struct Log {
    /// Log level.
    pub log_level: String,
    /// Log directory.
    pub dir: String,
    /// Log file name.
    pub file: String,
    /// Whether operations are logged.
    pub enable_oper_log: bool,
}

/// Database settings.
pub struct Database {
    /// Connection url.
    pub link: String,
}

/// Cache store settings.
pub struct SkyTable {
    /// Server address.
    pub server: String,
    /// Server port.
    pub port: u16,
}

impl System {
    /// Whether `user_id` is one of the super users.
    pub fn is_super_user(&self, user_id: &str) -> (r: bool)
        ensures
            r == seq_has_text(self.super_user@, user_id@),
    {
        contains_text(&self.super_user, user_id)
    }
}

} // verus!
