use cronframe::cli::{add_job_url, base_url, job_name_from_path, parse_job_line};
use cronframe::config::LoggerConfig;
use cronframe::escape::{escape_expression, unescape_expression};
use cronframe::logger::{level_filter_of, log_plan, LevelFilter};

#[test]
fn escaping_round_trip() {
    let e = "0/5 * 10-14 * * Sun *";
    let escaped = escape_expression(e);
    assert_eq!(escaped, "0slh5 * 10-14 * * Sun *");
    assert_eq!(unescape_expression(&escaped), e);
    assert_eq!(unescape_expression("0slh5%20*%20*"), "0/5 * *");
    // an expression holding "slh" does not survive
    assert_eq!(unescape_expression(&escape_expression("slh/")), "//");
}

#[test]
fn job_names_from_paths() {
    assert_eq!(job_name_from_path("jobs/backup.rs", false), Some("backup".to_string()));
    assert_eq!(job_name_from_path("/home/u/weather_job/", false), Some("weather_job".to_string()));
    assert_eq!(job_name_from_path("C:\\jobs\\alert.rs", true), Some("alert".to_string()));
    assert_eq!(job_name_from_path("///", false), None);
    assert_eq!(job_name_from_path("", false), None);
}

#[test]
fn job_list_lines() {
    let l = parse_job_line("0 0 12 * * Mon * 60000 /jobs/report.rs").unwrap();
    assert_eq!((l.expr.as_str(), l.timeout.as_str(), l.job.as_str()), ("0 0 12 * * Mon *", "60000", "/jobs/report.rs"));
    let l = parse_job_line("0/5 * * * * * 0 ./hello.rs").unwrap();
    assert_eq!((l.expr.as_str(), l.timeout.as_str(), l.job.as_str()), ("0/5 * * * * *", "0", "./hello.rs"));
    assert!(parse_job_line("0 * * * * * 0").is_none());
}

#[test]
fn request_addresses() {
    assert_eq!(base_url("127.0.0.1", 8098), "http://127.0.0.1:8098");
    assert_eq!(
        add_job_url("127.0.0.1", 8098, "0/5 * * * * * *", "0", "hello"),
        "http://127.0.0.1:8098/add_cli_job/0slh5 * * * * * */0/hello"
    );
}

#[test]
fn log_levels() {
    assert_eq!(level_filter_of("off"), LevelFilter::Off);
    assert_eq!(level_filter_of("error"), LevelFilter::Error);
    assert_eq!(level_filter_of("warn"), LevelFilter::Warn);
    assert_eq!(level_filter_of("debug"), LevelFilter::Debug);
    assert_eq!(level_filter_of("info"), LevelFilter::Info);
    assert_eq!(level_filter_of("trace"), LevelFilter::Info);
}

#[test]
fn rolling_log_plan() {
    let c = LoggerConfig::default();
    let p = log_plan(&c, None);
    assert_eq!(p.log_dir, "log");
    assert_eq!(p.size_limit, 1_024_000);
    assert_eq!(p.window_size, 3);
    assert_eq!(p.archive_pattern, "log/archive_{}.log");
    assert_eq!(p.latest_path, "log/latest.log");
    assert_eq!(p.latest_marker, "log/latest");
    assert_eq!(p.stale_archive, "./log/archive_2.log");
    assert_eq!(
        p.renames,
        vec![
            ("log/archive_1.log".to_string(), "log/archive_2.log".to_string()),
            ("log/archive_0.log".to_string(), "log/archive_1.log".to_string()),
            ("log/latest.log".to_string(), "log/archive_0.log".to_string()),
        ]
    );
    assert_eq!(p.level, LevelFilter::Info);
    let p = log_plan(&LoggerConfig { archive_files: 1, ..LoggerConfig::default() }, Some("/home/u"));
    assert_eq!(p.log_dir, "/home/u/.cronframe/log");
    assert_eq!(p.renames, vec![("/home/u/.cronframe/log/latest.log".to_string(), "/home/u/.cronframe/log/archive_0.log".to_string())]);
}
