//! What the command-line tool computes: job names from source paths, the
//! lines of a job list file, and the addresses it sends requests to.
use vstd::prelude::*;
use crate::escape::{escape_expression, escape_spec};
use crate::text::{
    chars_of, decimal_u64, join_spec, join_with, lemma_filter_map_step, nat_decimal, push_all,
    push_str, replace_spec, replace_str, split_on, split_spec, string_from_chars, views,
};

verus! {

/// Keeps the non-empty pieces.
pub open spec fn nonempty_piece() -> spec_fn(Seq<char>) -> Option<Seq<char>> {
    |x: Seq<char>|
        if x.len() > 0 {
            Some(x)
        } else {
            None
        }
}

/// The job name of a source path: its last non-empty component, without
/// `.rs`.
pub open spec fn job_name_spec(path: Seq<char>, sep: char) -> Option<Seq<char>> {
    let ps = split_spec(path, sep).filter_map(nonempty_piece());
    if ps.len() == 0 {
        None
    } else {
        Some(replace_spec(ps.last(), ".rs"@, ""@))
    }
}

/// The job name of a source path (a file or a crate's folder), with `\`
/// as the separator on Windows and `/` elsewhere; `None` when the path has
/// no non-empty component.
pub fn job_name_from_path(job: &str, windows: bool) -> (r: Option<String>)
    ensures
        r matches Some(s) ==> job_name_spec(job@, if windows { '\\' } else { '/' }) == Some(s@),
        r is None ==> job_name_spec(job@, if windows { '\\' } else { '/' }) is None,
{
    let sep = if windows {
        '\\'
    } else {
        '/'
    };
    let pieces = split_on(job, sep);
    let ghost pv = views(pieces@);
    let ghost f = nonempty_piece();
    let n = pieces.len();
    let mut last: Option<usize> = None;
    for k in 0..n
        invariant
            n == pieces@.len(),
            pv == views(pieces@),
            f == nonempty_piece(),
            last matches Some(i) ==> i < k && pv.take(k as int).filter_map(f).len() > 0
                && pv.take(k as int).filter_map(f).last() == pieces@[i as int]@,
            last is None ==> pv.take(k as int).filter_map(f).len() == 0,
    {
        proof {
            lemma_filter_map_step(pv, f, k as int);
        }
        assert(pv[k as int] == pieces@[k as int]@);
        if pieces[k].as_str().unicode_len() > 0 {
            last = Some(k);
        }
    }
    assert(pv.take(n as int) =~= pv);
    match last {
        Some(i) => {
            proof {
                reveal_strlit(".rs");
            }
            Some(replace_str(pieces[i].as_str(), ".rs", ""))
        },
        None => None,
    }
}

/// A line of the job list file: the cron expression (seven fields, or six
/// without the year), the timeout and the job's path.
pub struct JobLine {
    pub expr: String,
    pub timeout: String,
    pub job: String,
}

/// How a line of the job list file reads: with nine items, the expression
/// has seven fields; otherwise six, and a line needs at least eight items.
pub open spec fn job_line_spec(line: Seq<char>) -> Option<(Seq<char>, Seq<char>, Seq<char>)> {
    let p = split_spec(line, ' ');
    if p.len() == 9 {
        Some((join_spec(p.take(7), ' '), p[7], p[8]))
    } else if p.len() >= 8 {
        Some((join_spec(p.take(6), ' '), p[6], p[7]))
    } else {
        None
    }
}

/// Reads a line of the job list file; `None` when it has fewer than eight items.
pub fn parse_job_line(line: &str) -> (r: Option<JobLine>)
    ensures
        r matches Some(l) ==> job_line_spec(line@) == Some((l.expr@, l.timeout@, l.job@)),
        r is None ==> job_line_spec(line@) is None,
{
    let items = split_on(line, ' ');
    let n = items.len();
    if n < 8 {
        return None;
    }
    let fields: usize = if n == 9 {
        7
    } else {
        6
    };
    let mut head: Vec<String> = Vec::new();
    for k in 0..fields
        invariant
            fields <= n,
            n == items@.len(),
            views(head@) == views(items@).take(k as int),
    {
        let ghost before = head@;
        head.push(items[k].clone());
        assert(views(head@) =~= views(items@).take(k + 1)) by {
            assert(views(head@) =~= views(before).push(items@[k as int]@));
        }
    }
    let expr = join_with(&head, ' ');
    assert(views(items@)[fields as int] == items@[fields as int]@);
    assert(views(items@)[fields + 1] == items@[fields + 1]@);
    Some(
        JobLine {
            expr: string_from_chars(&expr),
            timeout: items[fields].clone(),
            job: items[fields + 1].clone(),
        },
    )
}

/// The address of a running instance.
pub open spec fn base_url_spec(ip: Seq<char>, port: u16) -> Seq<char> {
    "http://"@ + ip + ":"@ + nat_decimal(port as nat)
}

/// The address of a running instance (`http://{ip}:{port}`).
pub fn base_url(ip: &str, port: u16) -> (r: String)
    ensures
        r@ == base_url_spec(ip@, port),
{
    let mut v: Vec<char> = Vec::new();
    push_str(&mut v, "http://");
    push_str(&mut v, ip);
    push_str(&mut v, ":");
    let d = decimal_u64(port as u64);
    push_all(&mut v, &d);
    string_from_chars(&v)
}

/// The request that adds a command-line job to a running instance: the
/// expression travels escaped.
pub fn add_job_url(ip: &str, port: u16, expr: &str, timeout: &str, job_name: &str) -> (r: String)
    ensures
        r@ == base_url_spec(ip@, port) + "/add_cli_job/"@ + escape_spec(expr@) + "/"@ + timeout@
            + "/"@ + job_name@,
{
    let base = base_url(ip, port);
    let escaped = escape_expression(expr);
    let mut v = chars_of(base.as_str());
    push_str(&mut v, "/add_cli_job/");
    let e = chars_of(escaped.as_str());
    push_all(&mut v, &e);
    push_str(&mut v, "/");
    push_str(&mut v, timeout);
    push_str(&mut v, "/");
    push_str(&mut v, job_name);
    string_from_chars(&v)
}

} // verus!
