//! The plan of the rolling log files: where they go, how large they grow,
//! how the archives shift at start, and which messages are kept.
use vstd::prelude::*;
use crate::config::LoggerConfig;
use crate::text::{decimal_u64, nat_decimal, push_all, push_str, replace_spec, replace_str,
    string_from_chars};

verus! {

/// The levels of log messages kept.
#[derive(Debug, PartialEq, Eq, Structural, Clone, Copy)]
pub enum LevelFilter {
    Off,
    Error,
    Warn,
    Info,
    Debug,
}

/// The level a configured name selects; an unknown name selects `Info`.
pub open spec fn level_of(s: Seq<char>) -> LevelFilter {
    if s == "off"@ {
        LevelFilter::Off
    } else if s == "error"@ {
        LevelFilter::Error
    } else if s == "warn"@ {
        LevelFilter::Warn
    } else if s == "debug"@ {
        LevelFilter::Debug
    } else {
        LevelFilter::Info
    }
}

/// The level a configured name selects.
pub fn level_filter_of(s: &str) -> (l: LevelFilter)
    ensures
        l == level_of(s@),
{
    let t = s.to_owned();
    if t == String::from_str("off") {
        LevelFilter::Off
    } else if t == String::from_str("error") {
        LevelFilter::Error
    } else if t == String::from_str("warn") {
        LevelFilter::Warn
    } else if t == String::from_str("debug") {
        LevelFilter::Debug
    } else {
        LevelFilter::Info
    }
}

/// The archive file with index `i`.
pub open spec fn archive_file(dir: Seq<char>, archive: Seq<char>, i: nat) -> Seq<char> {
    dir + "/"@ + archive + "_"@ + nat_decimal(i) + ".log"@
}

/// The file being written.
pub open spec fn latest_file(dir: Seq<char>, latest: Seq<char>) -> Seq<char> {
    dir + "/"@ + latest + ".log"@
}

/// The renames that shift the archives at start, oldest last: archive
/// `i - 1` becomes archive `i` for `i` from `window - 1` down to 1, then the
/// latest file becomes archive 0.
pub open spec fn rotation_renames(dir: Seq<char>, latest: Seq<char>, archive: Seq<char>, window: nat) -> Seq<
    (Seq<char>, Seq<char>),
> {
    Seq::new(
        (window - 1) as nat,
        |k: int|
            (
                archive_file(dir, archive, (window - 2 - k) as nat),
                archive_file(dir, archive, (window - 1 - k) as nat),
            ),
    ).push((latest_file(dir, latest), archive_file(dir, archive, 0)))
}

/// The directory of the log files: `~/.cronframe/log` for the command-line
/// tool, else the configured one.
pub open spec fn log_dir_of(config_dir: Seq<char>, cli_home: Option<Seq<char>>) -> Seq<char> {
    match cli_home {
        Some(h) => h + "/.cronframe/log"@,
        None => config_dir,
    }
}

/// What the rolling logger is set up with.
pub struct LogPlan {
    pub log_dir: String,
    /// Bytes after which the latest file rolls over.
    pub size_limit: u64,
    /// How many archive files are kept.
    pub window_size: u32,
    /// The pattern of archive file names, `{}` standing for the index.
    pub archive_pattern: String,
    /// The file being written.
    pub latest_path: String,
    /// The path whose absence makes the archives shift at start.
    pub latest_marker: String,
    /// The oldest archive, removed before the archives shift.
    pub stale_archive: String,
    /// The renames that shift the archives, in order.
    pub renames: Vec<(String, String)>,
    pub pattern: String,
    pub level: LevelFilter,
}

/// The views of a list of renames.
pub open spec fn renames_view(v: Seq<(String, String)>) -> Seq<(Seq<char>, Seq<char>)> {
    v.map_values(|p: (String, String)| (p.0@, p.1@))
}

fn concat3(a: &Vec<char>, b: &str, c: &Vec<char>) -> (r: Vec<char>)
    ensures
        r@ == a@ + b@ + c@,
{
    let mut v: Vec<char> = Vec::new();
    push_all(&mut v, a);
    push_str(&mut v, b);
    push_all(&mut v, c);
    v
}

fn archive_path(dir: &Vec<char>, archive: &Vec<char>, i: u32) -> (r: String)
    ensures
        r@ == archive_file(dir@, archive@, i as nat),
{
    let mut v: Vec<char> = Vec::new();
    push_all(&mut v, dir);
    push_str(&mut v, "/");
    push_all(&mut v, archive);
    push_str(&mut v, "_");
    let d = decimal_u64(i as u64);
    push_all(&mut v, &d);
    push_str(&mut v, ".log");
    string_from_chars(&v)
}

/// The plan of the rolling logger for a configuration; `cli_home` is the
/// home directory when running as the command-line tool.
pub fn log_plan(config: &LoggerConfig, cli_home: Option<&str>) -> (p: LogPlan)
    requires
        config.archive_files >= 1,
        config.file_size * 1_024_000 <= u64::MAX,
    ensures
        p.log_dir@ == log_dir_of(config.dir@, match cli_home { Some(h) => Some(h@), None => None }),
        p.size_limit == config.file_size * 1_024_000,
        p.window_size == config.archive_files,
        p.archive_pattern@ == replace_spec(
            p.log_dir@ + "/"@ + config.archive_file_name@ + ".log"@,
            ".log"@,
            "_{}.log"@,
        ),
        p.latest_path@ == latest_file(p.log_dir@, config.latest_file_name@),
        p.latest_marker@ == p.log_dir@ + "/"@ + config.latest_file_name@,
        p.stale_archive@ == "./"@ + archive_file(
            p.log_dir@,
            config.archive_file_name@,
            (config.archive_files - 1) as nat,
        ),
        renames_view(p.renames@) == rotation_renames(
            p.log_dir@,
            config.latest_file_name@,
            config.archive_file_name@,
            config.archive_files as nat,
        ),
        p.pattern@ == config.msg_pattern@,
        p.level == level_of(config.level_filter@),
{
    let dir: Vec<char> = match cli_home {
        Some(h) => {
            let mut v: Vec<char> = Vec::new();
            push_str(&mut v, h);
            push_str(&mut v, "/.cronframe/log");
            v
        },
        None => crate::text::chars_of(config.dir.as_str()),
    };
    let archive = crate::text::chars_of(config.archive_file_name.as_str());
    let latest = crate::text::chars_of(config.latest_file_name.as_str());
    let window = config.archive_files;

    let named = concat3(&dir, "/", &archive);
    let mut base: Vec<char> = Vec::new();
    push_all(&mut base, &named);
    push_str(&mut base, ".log");
    let base_s = string_from_chars(&base);
    proof {
        reveal_strlit(".log");
    }
    let archive_pattern = replace_str(base_s.as_str(), ".log", "_{}.log");

    let marker = concat3(&dir, "/", &latest);
    let mut latest_v: Vec<char> = Vec::new();
    push_all(&mut latest_v, &marker);
    push_str(&mut latest_v, ".log");

    let oldest = archive_path(&dir, &archive, window - 1);
    let mut stale: Vec<char> = Vec::new();
    push_str(&mut stale, "./");
    let oldest_v = crate::text::chars_of(oldest.as_str());
    push_all(&mut stale, &oldest_v);

    let ghost spec_renames = rotation_renames(dir@, latest@, archive@, window as nat);
    let mut renames: Vec<(String, String)> = Vec::new();
    let last = window - 1;
    for k in 0..last
        invariant
            last == window - 1,
            window >= 1,
            spec_renames == rotation_renames(dir@, latest@, archive@, window as nat),
            renames_view(renames@) == spec_renames.take(k as int),
    {
        let i = last - k;
        let from = archive_path(&dir, &archive, i - 1);
        let to = archive_path(&dir, &archive, i);
        let ghost before = renames@;
        renames.push((from, to));
        assert(renames_view(renames@) =~= spec_renames.take(k + 1)) by {
            assert(renames_view(renames@) =~= renames_view(before).push((from@, to@)));
            assert(spec_renames[k as int] == (from@, to@));
        }
    }
    let first = string_from_chars(&latest_v);
    let zero = archive_path(&dir, &archive, 0);
    let ghost before = renames@;
    renames.push((first, zero));
    assert(renames_view(renames@) =~= spec_renames) by {
        assert(renames_view(renames@) =~= renames_view(before).push((first@, zero@)));
        assert(spec_renames.take(last as int).push(spec_renames[last as int]) =~= spec_renames);
    }

    LogPlan {
        log_dir: string_from_chars(&dir),
        size_limit: 1_024_000 * config.file_size,
        window_size: window,
        archive_pattern,
        latest_path: string_from_chars(&latest_v),
        latest_marker: string_from_chars(&marker),
        stale_archive: string_from_chars(&stale),
        renames,
        pattern: config.msg_pattern.clone(),
        level: level_filter_of(config.level_filter.as_str()),
    }
}

} // verus!
