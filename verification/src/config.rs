//! Application configuration: defaults, overridden by the configuration
//! file, overridden in turn by environment variables.

use vstd::prelude::*;
use crate::number::{parse_u16, parse_u32, parse_u64, parsed_u16, parsed_u32, parsed_u64};
use crate::text::{chars_of, string_of};

verus! {

broadcast use vstd::string::group_string_axioms;

/// Application configuration.
#[derive(Debug, PartialEq)]
pub struct AppConfig {
    /// Web service port
    pub web_port: u16,
    /// Database connection URL
    pub database_url: String,
    /// Administrator name
    pub admin_username: String,
    /// Administrator password
    pub admin_password: String,
    /// Directory of the log files
    pub log_path: String,
    /// Log level
    pub log_level: String,
    /// Largest size of a log file, in bytes
    pub log_max_size: u64,
    /// Days log files are kept
    pub log_retention_days: u32,
}

/// The defaults: port 8080, a local SQLite database, `admin`/`admin`,
/// logs under `logs` at level `info`, 10 MiB files kept 30 days.
pub open spec fn is_default_config(c: AppConfig) -> bool {
    &&& c.web_port == 8080
    &&& c.database_url@ == "sqlite:fluxdns.db?mode=rwc"@
    &&& c.admin_username@ == "admin"@
    &&& c.admin_password@ == "admin"@
    &&& c.log_path@ == "logs"@
    &&& c.log_level@ == "info"@
    &&& c.log_max_size == 10485760
    &&& c.log_retention_days == 30
}

fn text(s: &str) -> (r: String)
    ensures
        r@ == s@,
{
    string_of(&chars_of(s))
}

impl Default for AppConfig {
    fn default() -> (c: AppConfig)
        ensures
            is_default_config(c),
    {
        AppConfig {
            web_port: 8080,
            database_url: text("sqlite:fluxdns.db?mode=rwc"),
            admin_username: text("admin"),
            admin_password: text("admin"),
            log_path: text("logs"),
            log_level: text("info"),
            log_max_size: 10 * 1024 * 1024,
            log_retention_days: 30,
        }
    }
}

impl Clone for AppConfig {
    fn clone(&self) -> (c: AppConfig)
        ensures
            c == *self,
    {
        AppConfig {
            web_port: self.web_port,
            database_url: self.database_url.clone(),
            admin_username: self.admin_username.clone(),
            admin_password: self.admin_password.clone(),
            log_path: self.log_path.clone(),
            log_level: self.log_level.clone(),
            log_max_size: self.log_max_size,
            log_retention_days: self.log_retention_days,
        }
    }
}

/// A partial configuration from one source; `None` leaves a value to the
/// sources below it.
#[derive(Debug)]
pub struct PartialConfig {
    pub web_port: Option<u16>,
    pub database_url: Option<String>,
    pub admin_username: Option<String>,
    pub admin_password: Option<String>,
    pub log_path: Option<String>,
    pub log_level: Option<String>,
    pub log_max_size: Option<u64>,
    pub log_retention_days: Option<u32>,
}

impl Default for PartialConfig {
    fn default() -> (p: PartialConfig)
        ensures
            p.web_port is None,
            p.database_url is None,
            p.admin_username is None,
            p.admin_password is None,
            p.log_path is None,
            p.log_level is None,
            p.log_max_size is None,
            p.log_retention_days is None,
    {
        PartialConfig {
            web_port: None,
            database_url: None,
            admin_username: None,
            admin_password: None,
            log_path: None,
            log_level: None,
            log_max_size: None,
            log_retention_days: None,
        }
    }
}

/// A value given by a source, or else the one below.
pub open spec fn or_else<T>(o: Option<T>, below: T) -> T {
    match o {
        Some(v) => v,
        None => below,
    }
}

/// `config` with every value that `partial` gives replaced.
pub open spec fn merged(config: AppConfig, partial: PartialConfig) -> AppConfig {
    AppConfig {
        web_port: or_else(partial.web_port, config.web_port),
        database_url: or_else(partial.database_url, config.database_url),
        admin_username: or_else(partial.admin_username, config.admin_username),
        admin_password: or_else(partial.admin_password, config.admin_password),
        log_path: or_else(partial.log_path, config.log_path),
        log_level: or_else(partial.log_level, config.log_level),
        log_max_size: or_else(partial.log_max_size, config.log_max_size),
        log_retention_days: or_else(partial.log_retention_days, config.log_retention_days),
    }
}

/// A value from the environment, read as the configuration wants it.
pub open spec fn env_text(v: Option<String>) -> Option<Seq<char>> {
    match v {
        Some(s) => Some(s@),
        None => None,
    }
}

/// Holds the configuration.
pub struct ConfigManager {
    config: AppConfig,
}

impl ConfigManager {
    /// The configuration held.
    pub closed spec fn config_view(&self) -> AppConfig {
        self.config
    }

    /// The configuration from the defaults, then the file's values, then
    /// the environment's values, each source overriding the ones before.
    pub fn from_configs(file_config: Option<PartialConfig>, env_config: Option<PartialConfig>) -> (m:
        ConfigManager)
        ensures
            exists|d: AppConfig|
                is_default_config(d) && m.config_view() == merged(
                    match file_config {
                        Some(f) => merged(d, f),
                        None => d,
                    },
                    match env_config {
                        Some(e) => e,
                        None => PartialConfig {
                            web_port: None,
                            database_url: None,
                            admin_username: None,
                            admin_password: None,
                            log_path: None,
                            log_level: None,
                            log_max_size: None,
                            log_retention_days: None,
                        },
                    },
                ),
    {
        let mut config = AppConfig::default();
        let ghost d = config;
        match file_config {
            Some(fc) => Self::merge_config(&mut config, fc),
            None => {},
        }
        let ghost after_file = config;
        match env_config {
            Some(ec) => Self::merge_config(&mut config, ec),
            None => {},
        }
        proof {
            let none = PartialConfig {
                web_port: None,
                database_url: None,
                admin_username: None,
                admin_password: None,
                log_path: None,
                log_level: None,
                log_max_size: None,
                log_retention_days: None,
            };
            assert(merged(after_file, none) == after_file);
        }
        ConfigManager { config }
    }

    /// The configuration from the file's values, if the file could be
    /// read, and the environment's, over the defaults.
    pub fn load(file_config: Option<PartialConfig>, env_config: PartialConfig) -> (r: Result<
        ConfigManager,
        String,
    >)
        ensures
            r matches Ok(m) && exists|d: AppConfig|
                is_default_config(d) && m.config_view() == merged(
                    match file_config {
                        Some(f) => merged(d, f),
                        None => d,
                    },
                    env_config,
                ),
    {
        let m = Self::from_configs(file_config, Some(env_config));
        Ok(m)
    }

    /// A copy of the configuration.
    pub fn get(&self) -> (c: AppConfig)
        ensures
            c == self.config_view(),
    {
        self.config.clone()
    }

    /// Replaces every value of `config` that `partial` gives.
    pub fn merge_config(config: &mut AppConfig, partial: PartialConfig)
        ensures
            *final(config) == merged(*old(config), partial),
    {
        match partial.web_port {
            Some(v) => config.web_port = v,
            None => {},
        }
        match partial.database_url {
            Some(v) => config.database_url = v,
            None => {},
        }
        match partial.admin_username {
            Some(v) => config.admin_username = v,
            None => {},
        }
        match partial.admin_password {
            Some(v) => config.admin_password = v,
            None => {},
        }
        match partial.log_path {
            Some(v) => config.log_path = v,
            None => {},
        }
        match partial.log_level {
            Some(v) => config.log_level = v,
            None => {},
        }
        match partial.log_max_size {
            Some(v) => config.log_max_size = v,
            None => {},
        }
        match partial.log_retention_days {
            Some(v) => config.log_retention_days = v,
            None => {},
        }
    }

    /// The partial configuration that environment variables give:
    /// `WEB_PORT`, `DATABASE_URL`, `ADMIN_USERNAME`, `ADMIN_PASSWORD`,
    /// `LOG_PATH`, `LOG_LEVEL`, `LOG_MAX_SIZE`, `LOG_RETENTION_DAYS`, in that
    /// order. A number that does not read is ignored.
    pub fn load_from_env(
        web_port: Option<String>,
        database_url: Option<String>,
        admin_username: Option<String>,
        admin_password: Option<String>,
        log_path: Option<String>,
        log_level: Option<String>,
        log_max_size: Option<String>,
        log_retention_days: Option<String>,
    ) -> (p: PartialConfig)
        ensures
            p.web_port == match web_port {
                Some(s) => parsed_u16(s@),
                None => None,
            },
            p.database_url == database_url,
            p.admin_username == admin_username,
            p.admin_password == admin_password,
            p.log_path == log_path,
            p.log_level == log_level,
            p.log_max_size == match log_max_size {
                Some(s) => parsed_u64(s@),
                None => None,
            },
            p.log_retention_days == match log_retention_days {
                Some(s) => parsed_u32(s@),
                None => None,
            },
    {
        PartialConfig {
            web_port: match &web_port {
                Some(s) => parse_u16(&chars_of(s.as_str())),
                None => None,
            },
            database_url,
            admin_username,
            admin_password,
            log_path,
            log_level,
            log_max_size: match &log_max_size {
                Some(s) => parse_u64(s.as_str()),
                None => None,
            },
            log_retention_days: match &log_retention_days {
                Some(s) => parse_u32(s.as_str()),
                None => None,
            },
        }
    }
}

/// Environment variables win over the file, and the file over the
/// defaults: each value of the configuration is the environment's if it
/// gives one, else the file's, else the default.
pub proof fn law_env_over_file_over_defaults(d: AppConfig, file: PartialConfig, env: PartialConfig)
    requires
        is_default_config(d),
    ensures
        merged(merged(d, file), env).web_port == or_else(env.web_port, or_else(file.web_port, d.web_port)),
        merged(merged(d, file), env).database_url == or_else(
            env.database_url,
            or_else(file.database_url, d.database_url),
        ),
        merged(merged(d, file), env).admin_username == or_else(
            env.admin_username,
            or_else(file.admin_username, d.admin_username),
        ),
        merged(merged(d, file), env).admin_password == or_else(
            env.admin_password,
            or_else(file.admin_password, d.admin_password),
        ),
        merged(merged(d, file), env).log_path == or_else(env.log_path, or_else(file.log_path, d.log_path)),
        merged(merged(d, file), env).log_level == or_else(
            env.log_level,
            or_else(file.log_level, d.log_level),
        ),
        merged(merged(d, file), env).log_max_size == or_else(
            env.log_max_size,
            or_else(file.log_max_size, d.log_max_size),
        ),
        merged(merged(d, file), env).log_retention_days == or_else(
            env.log_retention_days,
            or_else(file.log_retention_days, d.log_retention_days),
        ),
{
}

} // verus!
