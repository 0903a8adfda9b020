use cronframe::config::{config_file_path, ip_and_port};
use cronframe::{
    CronFilter, ConfigData, ConfigDataToml, LoggerConfig, LoggerConfigToml, SchedulerConfigToml,
    ServerConfig, ServerConfigToml,
};

fn empty_logger() -> LoggerConfigToml {
    LoggerConfigToml {
        enabled: None,
        dir: None,
        file_size: None,
        archive_files: None,
        latest_file_name: None,
        archive_file_name: None,
        msg_pattern: None,
        level_filter: None,
    }
}

#[test]
fn defaults() {
    let c = ConfigData::default();
    assert_eq!(c.webserver.port, 8098);
    assert_eq!(c.webserver.ip, "127.0.0.1");
    assert!(c.logger.enabled);
    assert_eq!(c.logger.dir, "log");
    assert_eq!(c.logger.file_size, 1);
    assert_eq!(c.logger.archive_files, 3);
    assert_eq!(c.logger.latest_file_name, "latest");
    assert_eq!(c.logger.archive_file_name, "archive");
    assert_eq!(c.logger.msg_pattern, "{d(%Y-%m-%d %H:%M:%S %Z)} {l} {t} - {m}{n}");
    assert_eq!(c.logger.level_filter, "info");
    assert_eq!(c.scheduler.job_filter, CronFilter::NoFilter);
    assert_eq!(c.scheduler.grace, 250);
    let s = ServerConfig::default();
    assert_eq!((s.port, s.ip.as_str()), (8098, "127.0.0.1"));
    assert_eq!(LoggerConfig::default().dir, "log");
}

#[test]
fn missing_sections_take_defaults() {
    let t = ConfigDataToml { webserver: None, logger: None, scheduler: None };
    let c = t.to_config_data();
    assert_eq!(c.webserver.port, 8098);
    assert_eq!(c.logger.archive_file_name, "archive");
    assert_eq!(c.scheduler.grace, 250);
}

#[test]
fn partial_sections_fill_in() {
    let t = ConfigDataToml {
        webserver: Some(ServerConfigToml { port: Some(9000), ip: None }),
        logger: Some(LoggerConfigToml { dir: Some("logs".to_string()), file_size: Some(5), ..empty_logger() }),
        scheduler: Some(SchedulerConfigToml { job_filter: Some(CronFilter::Method), grace: None }),
    };
    let c = t.to_config_data();
    assert_eq!(c.webserver.port, 9000);
    assert_eq!(c.webserver.ip, "127.0.0.1");
    assert_eq!(c.logger.dir, "logs");
    assert_eq!(c.logger.file_size, 5);
    assert_eq!(c.logger.archive_files, 3);
    // a logger section without the archive name gets the default one
    assert_eq!(c.logger.archive_file_name, "archive");
    assert_eq!(c.logger.level_filter, "info");
    assert_eq!(c.scheduler.job_filter, CronFilter::Method);
    assert_eq!(c.scheduler.grace, 250);
}

#[test]
fn config_paths_and_address() {
    assert_eq!(config_file_path(true, "/home/u"), "/home/u/.cronframe/cronframe.toml");
    assert_eq!(config_file_path(false, "/home/u"), "cronframe.toml");
    let c = ConfigData::default();
    assert_eq!(ip_and_port(&c), ("127.0.0.1".to_string(), 8098));
}

#[test]
fn empty_logger_section_is_the_default_logger() {
    let with_section = ConfigDataToml { webserver: None, logger: Some(empty_logger()), scheduler: None };
    let without = ConfigDataToml { webserver: None, logger: None, scheduler: None };
    let a = with_section.to_config_data().logger;
    let b = without.to_config_data().logger;
    let d = cronframe::LoggerConfig::default();
    for l in [&a, &b] {
        assert_eq!(l.enabled, d.enabled);
        assert_eq!(l.dir, d.dir);
        assert_eq!(l.file_size, d.file_size);
        assert_eq!(l.archive_files, d.archive_files);
        assert_eq!(l.latest_file_name, d.latest_file_name);
        assert_eq!(l.archive_file_name, "archive");
        assert_eq!(l.archive_file_name, d.archive_file_name);
        assert_eq!(l.msg_pattern, d.msg_pattern);
        assert_eq!(l.level_filter, d.level_filter);
    }
}
