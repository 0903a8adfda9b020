//! Configuration of the framework: web server, logger and scheduler.
//!
//! The `cronframe.toml` file is read into the `...Toml` types, whose fields
//! are all optional; `ConfigDataToml::to_config_data` fills in what the file
//! leaves out.
use vstd::prelude::*;
use crate::cronjob::CronFilter;
use crate::text::{push_str, string_from_chars};

verus! {

/// The web server's address.
pub struct ServerConfig {
    pub port: u16,
    pub ip: String,
}

/// The web server section of the file.
pub struct ServerConfigToml {
    pub port: Option<u16>,
    pub ip: Option<String>,
}

/// The rolling log files.
pub struct LoggerConfig {
    pub enabled: bool,
    pub dir: String,
    /// Size of a log file, in MB.
    pub file_size: u64,
    pub archive_files: u32,
    pub latest_file_name: String,
    pub archive_file_name: String,
    pub msg_pattern: String,
    pub level_filter: String,
}

/// The logger section of the file.
pub struct LoggerConfigToml {
    pub enabled: Option<bool>,
    pub dir: Option<String>,
    pub file_size: Option<u64>,
    pub archive_files: Option<u32>,
    pub latest_file_name: Option<String>,
    pub archive_file_name: Option<String>,
    pub msg_pattern: Option<String>,
    pub level_filter: Option<String>,
}

/// Which jobs the scheduler runs, and its grace period in milliseconds.
pub struct SchedulerConfig {
    pub job_filter: CronFilter,
    pub grace: u32,
}

/// The scheduler section of the file.
pub struct SchedulerConfigToml {
    pub job_filter: Option<CronFilter>,
    pub grace: Option<u32>,
}

/// The whole configuration.
pub struct ConfigData {
    pub webserver: ServerConfig,
    pub logger: LoggerConfig,
    pub scheduler: SchedulerConfig,
}

/// The configuration file, section by section.
pub struct ConfigDataToml {
    pub webserver: Option<ServerConfigToml>,
    pub logger: Option<LoggerConfigToml>,
    pub scheduler: Option<SchedulerConfigToml>,
}

/// The default log line pattern.
pub open spec fn default_pattern() -> Seq<char> {
    "{d(%Y-%m-%d %H:%M:%S %Z)} {l} {t} - {m}{n}"@
}

/// A text option's value, or the default when absent.
pub open spec fn text_or(o: Option<String>, d: Seq<char>) -> Seq<char> {
    match o {
        Some(s) => s@,
        None => d,
    }
}

/// A value option's value, or the default when absent.
pub open spec fn value_or<T>(o: Option<T>, d: T) -> T {
    match o {
        Some(v) => v,
        None => d,
    }
}

impl Default for ServerConfig {
    fn default() -> (r: Self)
        ensures
            r.port == 8098,
            r.ip@ == "127.0.0.1"@,
    {
        ServerConfig { port: 8098, ip: String::from_str("127.0.0.1") }
    }
}

impl Default for LoggerConfig {
    fn default() -> (r: Self)
        ensures
            r.enabled,
            r.dir@ == "log"@,
            r.file_size == 1,
            r.archive_files == 3,
            r.latest_file_name@ == "latest"@,
            r.archive_file_name@ == "archive"@,
            r.msg_pattern@ == default_pattern(),
            r.level_filter@ == "info"@,
    {
        LoggerConfig {
            enabled: true,
            dir: String::from_str("log"),
            file_size: 1,
            archive_files: 3,
            latest_file_name: String::from_str("latest"),
            archive_file_name: String::from_str("archive"),
            msg_pattern: String::from_str("{d(%Y-%m-%d %H:%M:%S %Z)} {l} {t} - {m}{n}"),
            level_filter: String::from_str("info"),
        }
    }
}

impl Default for SchedulerConfig {
    fn default() -> (r: Self)
        ensures
            r.job_filter == CronFilter::NoFilter,
            r.grace == 250,
    {
        SchedulerConfig { job_filter: CronFilter::NoFilter, grace: 250 }
    }
}

impl Default for ConfigData {
    fn default() -> (r: Self)
        ensures
            r.webserver.port == 8098,
            r.webserver.ip@ == "127.0.0.1"@,
            r.logger.enabled,
            r.logger.dir@ == "log"@,
            r.logger.file_size == 1,
            r.logger.archive_files == 3,
            r.logger.latest_file_name@ == "latest"@,
            r.logger.archive_file_name@ == "archive"@,
            r.logger.msg_pattern@ == default_pattern(),
            r.logger.level_filter@ == "info"@,
            r.scheduler.job_filter == CronFilter::NoFilter,
            r.scheduler.grace == 250,
    {
        ConfigData {
            webserver: ServerConfig::default(),
            logger: LoggerConfig::default(),
            scheduler: SchedulerConfig::default(),
        }
    }
}

fn text_or_default(o: Option<String>, d: &str) -> (r: String)
    ensures
        r@ == text_or(o, d@),
{
    match o {
        Some(s) => s,
        None => d.to_owned(),
    }
}

impl ConfigDataToml {
    /// The configuration, with every setting the file leaves out set to its
    /// default, as `ConfigData::default` has it.
    pub fn to_config_data(self) -> (r: ConfigData)
        ensures
            r.webserver.port == match self.webserver {
                Some(w) => value_or(w.port, 8098u16),
                None => 8098u16,
            },
            r.webserver.ip@ == match self.webserver {
                Some(w) => text_or(w.ip, "127.0.0.1"@),
                None => "127.0.0.1"@,
            },
            r.logger.enabled == match self.logger {
                Some(l) => value_or(l.enabled, true),
                None => true,
            },
            r.logger.dir@ == match self.logger {
                Some(l) => text_or(l.dir, "log"@),
                None => "log"@,
            },
            r.logger.file_size == match self.logger {
                Some(l) => value_or(l.file_size, 1u64),
                None => 1u64,
            },
            r.logger.archive_files == match self.logger {
                Some(l) => value_or(l.archive_files, 3u32),
                None => 3u32,
            },
            r.logger.latest_file_name@ == match self.logger {
                Some(l) => text_or(l.latest_file_name, "latest"@),
                None => "latest"@,
            },
            r.logger.archive_file_name@ == match self.logger {
                Some(l) => text_or(l.archive_file_name, "archive"@),
                None => "archive"@,
            },
            r.logger.msg_pattern@ == match self.logger {
                Some(l) => text_or(l.msg_pattern, default_pattern()),
                None => default_pattern(),
            },
            r.logger.level_filter@ == match self.logger {
                Some(l) => text_or(l.level_filter, "info"@),
                None => "info"@,
            },
            r.scheduler.job_filter == match self.scheduler {
                Some(s) => value_or(s.job_filter, CronFilter::NoFilter),
                None => CronFilter::NoFilter,
            },
            r.scheduler.grace == match self.scheduler {
                Some(s) => value_or(s.grace, 250u32),
                None => 250u32,
            },
    {
        let webserver = match self.webserver {
            Some(w) => ServerConfig {
                port: match w.port {
                    Some(p) => p,
                    None => 8098,
                },
                ip: text_or_default(w.ip, "127.0.0.1"),
            },
            None => ServerConfig::default(),
        };
        let logger = match self.logger {
            Some(data) => LoggerConfig {
                enabled: match data.enabled {
                    Some(b) => b,
                    None => true,
                },
                dir: text_or_default(data.dir, "log"),
                file_size: match data.file_size {
                    Some(v) => v,
                    None => 1,
                },
                archive_files: match data.archive_files {
                    Some(v) => v,
                    None => 3,
                },
                latest_file_name: text_or_default(data.latest_file_name, "latest"),
                archive_file_name: text_or_default(data.archive_file_name, "archive"),
                msg_pattern: text_or_default(
                    data.msg_pattern,
                    "{d(%Y-%m-%d %H:%M:%S %Z)} {l} {t} - {m}{n}",
                ),
                level_filter: text_or_default(data.level_filter, "info"),
            },
            None => LoggerConfig::default(),
        };
        let scheduler = match self.scheduler {
            Some(data) => SchedulerConfig {
                job_filter: match data.job_filter {
                    Some(f) => f,
                    None => CronFilter::NoFilter,
                },
                grace: match data.grace {
                    Some(g) => g,
                    None => 250,
                },
            },
            None => SchedulerConfig::default(),
        };
        ConfigData { webserver, logger, scheduler }
    }
}

/// The path of the configuration file: in `~/.cronframe` when running as
/// the command-line tool, else in the working directory.
pub fn config_file_path(cli: bool, home_dir: &str) -> (r: String)
    ensures
        r@ == if cli {
            home_dir@ + "/.cronframe/cronframe.toml"@
        } else {
            "cronframe.toml"@
        },
{
    if cli {
        let mut v: Vec<char> = Vec::new();
        push_str(&mut v, home_dir);
        push_str(&mut v, "/.cronframe/cronframe.toml");
        assert(v@ =~= home_dir@ + "/.cronframe/cronframe.toml"@);
        string_from_chars(&v)
    } else {
        String::from_str("cronframe.toml")
    }
}

/// The address of the web server.
pub fn ip_and_port(config: &ConfigData) -> (r: (String, u16))
    ensures
        r.0@ == config.webserver.ip@,
        r.1 == config.webserver.port,
{
    (config.webserver.ip.clone(), config.webserver.port)
}

} // verus!
