use vstd::prelude::*;
use crate::pipeline::Log;
use crate::procedure::Procedure;
use crate::system_cmd::slash;

verus! {

/// `s` with every non-overlapping occurrence of the non-empty `from`, taken from
/// left to right, replaced by `to`.
pub open spec fn replaced(s: Seq<char>, from: Seq<char>, to: Seq<char>) -> Seq<char>
    decreases s.len(),
{
    if from.len() == 0 || s.len() < from.len() {
        s
    } else if s.subrange(0, from.len() as int) == from {
        to + replaced(s.subrange(from.len() as int, s.len() as int), from, to)
    } else {
        seq![s[0]] + replaced(s.subrange(1, s.len() as int), from, to)
    }
}

/// Relies on `str::replace`: every non-overlapping match of `from`, from left to
/// right, replaced by `to`.
#[verifier::external_body]
fn replace_all(s: &str, from: &str, to: &str) -> (r: String)
    requires
        from@.len() > 0,
    ensures
        r@ == replaced(s@, from@, to@),
{
    s.replace(from, to)
}

/// Relies on chrono's `From<SystemTime> for DateTime<Utc>` (which also takes a
/// clock set before 1970) and `DateTime::timestamp`: the current time, in seconds
/// since the Unix epoch.
#[verifier::external_body]
fn utc_now_seconds() -> (r: i64) {
    chrono::DateTime::<chrono::Utc>::from(std::time::SystemTime::now()).timestamp()
}

/// Relies on chrono's `From<SystemTime> for DateTime<Utc>` and `DateTime::format`:
/// today's date in UTC as `format` writes it.
#[verifier::external_body]
fn utc_today(format: &str) -> (r: String)
    requires
        format@ == date_stamp_format(),
{
    chrono::DateTime::<chrono::Utc>::from(std::time::SystemTime::now()).format(format).to_string()
}

pub open spec fn date_stamp_format() -> Seq<char> {
    "%Y%m%d"@
}

pub open spec fn default_template() -> Seq<char> {
    "[{pipeline_name}] [{pipeline_stage}] {message}"@
}

/// The template used where neither the procedure nor the pipeline gives one.
pub fn default_log_template() -> (r: &'static str)
    ensures
        r@ == default_template(),
{
    "[{pipeline_name}] [{pipeline_stage}] {message}"
}

pub open spec fn spec_template(procedure: Procedure, log: Option<Log>) -> Seq<char> {
    match procedure.log_template {
        Some(t) => t@,
        None => match log {
            Some(l) => match l.template {
                Some(t) => t@,
                None => default_template(),
            },
            None => default_template(),
        },
    }
}

/// The template for a procedure's output: the procedure's own, else the
/// pipeline's, else the default.
pub fn resolve_template(procedure: &Procedure, log: &Option<Log>) -> (r: String)
    ensures
        r@ == spec_template(*procedure, *log),
{
    match &procedure.log_template {
        Some(t) => t.clone(),
        None => match log {
            Some(l) => match &l.template {
                Some(t) => t.clone(),
                None => String::from_str(default_log_template()),
            },
            None => String::from_str(default_log_template()),
        },
    }
}

/// The values that stand for the placeholders of a log template.
pub struct LogFields {
    pub pipeline_name: String,
    pub pipeline_stage: String,
    pub time: String,
    pub path: String,
    pub command: String,
}

pub open spec fn spec_render(template: Seq<char>, f: LogFields, message: Seq<char>) -> Seq<char> {
    let a = replaced(template, "{pipeline_name}"@, f.pipeline_name@);
    let b = replaced(a, "{pipeline_stage}"@, f.pipeline_stage@);
    let c = replaced(b, "{time}"@, f.time@);
    let d = replaced(c, "{path}"@, f.path@);
    let e = replaced(d, "{command}"@, f.command@);
    replaced(e, "{message}"@, message)
}

/// One line of log output: the template with each placeholder replaced, in the
/// order pipeline name, stage, time, path, command, message.
pub fn render_log_line(template: &str, fields: &LogFields, message: &str) -> (r: String)
    ensures
        r@ == spec_render(template@, *fields, message@),
{
    proof {
        reveal_strlit("{pipeline_name}");
        reveal_strlit("{pipeline_stage}");
        reveal_strlit("{time}");
        reveal_strlit("{path}");
        reveal_strlit("{command}");
        reveal_strlit("{message}");
    }
    let a = replace_all(template, "{pipeline_name}", fields.pipeline_name.as_str());
    let b = replace_all(a.as_str(), "{pipeline_stage}", fields.pipeline_stage.as_str());
    let c = replace_all(b.as_str(), "{time}", fields.time.as_str());
    let d = replace_all(c.as_str(), "{path}", fields.path.as_str());
    let e = replace_all(d.as_str(), "{command}", fields.command.as_str());
    replace_all(e.as_str(), "{message}", message)
}

pub open spec fn digit_char(d: nat) -> char {
    "0123456789"@[d as int]
}

/// Decimal digits of `n`, without leading zeros.
pub open spec fn decimal(n: nat) -> Seq<char>
    decreases n,
{
    if n < 10 {
        seq![digit_char(n)]
    } else {
        decimal(n / 10) + seq![digit_char(n % 10)]
    }
}

/// Decimal digits of `n`, padded with zeros to at least two.
pub open spec fn two_digits(n: nat) -> Seq<char> {
    if n < 10 {
        seq!['0'] + decimal(n)
    } else {
        decimal(n)
    }
}

pub fn decimal_text(n: u64) -> (r: String)
    ensures
        r@ == decimal(n as nat),
    decreases n,
{
    let digits = "0123456789";
    proof {
        reveal_strlit("0123456789");
    }
    let d = (n % 10) as usize;
    let last = digits.substring_char(d, d + 1);
    proof {
        assert(last@ =~= seq![digit_char(d as nat)]);
    }
    if n < 10 {
        String::from_str(last)
    } else {
        let mut r = decimal_text(n / 10);
        r.append(last);
        r
    }
}

pub fn two_digit_text(n: u64) -> (r: String)
    ensures
        r@ == two_digits(n as nat),
{
    if n < 10 {
        let mut r = String::from_str("0");
        let d = decimal_text(n);
        r.append(d.as_str());
        proof {
            reveal_strlit("0");
        }
        r
    } else {
        decimal_text(n)
    }
}

pub open spec fn clock(seconds: nat) -> Seq<char> {
    two_digits(seconds / 3600) + seq![':'] + two_digits((seconds / 60) % 60) + seq![':']
        + two_digits(seconds % 60)
}

/// An elapsed time as `HH:MM:SS`: whole hours (two digits at least), then
/// minutes and seconds of the hour.
pub fn clock_text(seconds: u64) -> (r: String)
    ensures
        r@ == clock(seconds as nat),
{
    let mut r = two_digit_text(seconds / 3600);
    let m = two_digit_text((seconds / 60) % 60);
    let s = two_digit_text(seconds % 60);
    r.append(":");
    r.append(m.as_str());
    r.append(":");
    r.append(s.as_str());
    proof {
        reveal_strlit(":");
    }
    r
}

/// Seconds from `start` to `now`, none where `now` comes first.
pub fn elapsed_seconds(start: i64, now: i64) -> (r: u64)
    ensures
        now >= start ==> r == now - start,
        now < start ==> r == 0,
{
    if now >= start {
        (now as i128 - start as i128) as u64
    } else {
        0
    }
}

/// The elapsed time since `start` (seconds since the Unix epoch), as `HH:MM:SS`.
pub fn elapsed_clock(start: i64) -> (r: String)
    ensures
        exists|now: i64| r@ == clock(elapsed_seconds_spec(start, now)),
{
    let now = utc_now_seconds();
    let r = clock_text(elapsed_seconds(start, now));
    assert(r@ == clock(elapsed_seconds_spec(start, now)));
    r
}

pub open spec fn elapsed_seconds_spec(start: i64, now: i64) -> nat {
    if now >= start {
        (now - start) as nat
    } else {
        0
    }
}

/// The current time, in seconds since the Unix epoch.
pub fn now_seconds() -> i64 {
    utc_now_seconds()
}

pub open spec fn spec_log_file_path(
    log: Log,
    default_log_path: Seq<char>,
    pipeline_name: Seq<char>,
    branch: Seq<char>,
    commit: Seq<char>,
    identifier: Seq<char>,
    date: Seq<char>,
) -> Seq<char> {
    let base = match log.file_path {
        Some(p) => p@,
        None => default_log_path,
    };
    slash(log_directory_of(base, pipeline_name, branch), commit + seq!['_'] + identifier + seq!['_']
        + date + ".log"@)
}

pub open spec fn log_directory_of(base: Seq<char>, pipeline_name: Seq<char>, branch: Seq<char>) -> Seq<char> {
    slash(slash(base, pipeline_name), branch)
}

/// The directory of a procedure's log files:
/// `{log.file_path or default_log_path}/{pipeline}/{branch}`.
pub fn log_directory(log: &Log, default_log_path: &String, pipeline_name: &str, branch: &str) -> (r:
    String)
    ensures
        r@ == log_directory_of(
            match log.file_path {
                Some(p) => p@,
                None => default_log_path@,
            },
            pipeline_name@,
            branch@,
        ),
{
    let base = match &log.file_path {
        Some(p) => p,
        None => default_log_path,
    };
    let dir = crate::system_cmd::join_path(base.as_str(), pipeline_name);
    crate::system_cmd::join_path(dir.as_str(), branch)
}

/// The file a procedure's output is appended to:
/// `{directory}/{commit}_{procedure or pipeline}_{date}.log`.
pub fn log_file_path(
    log: &Log,
    default_log_path: &String,
    pipeline_name: &str,
    branch: &str,
    commit: &str,
    identifier: &str,
    date: &str,
) -> (r: String)
    ensures
        r@ == spec_log_file_path(
            *log,
            default_log_path@,
            pipeline_name@,
            branch@,
            commit@,
            identifier@,
            date@,
        ),
{
    let dir = log_directory(log, default_log_path, pipeline_name, branch);
    let mut name = String::from_str(commit);
    name.append("_");
    name.append(identifier);
    name.append("_");
    name.append(date);
    name.append(".log");
    proof {
        reveal_strlit("_");
    }
    crate::system_cmd::join_path(dir.as_str(), name.as_str())
}

/// The log file for today (UTC) of a procedure's output.
pub fn todays_log_file_path(
    log: &Log,
    default_log_path: &String,
    pipeline_name: &str,
    branch: &str,
    commit: &str,
    identifier: &str,
) -> (r: String)
    ensures
        exists|date: Seq<char>|
            r@ == spec_log_file_path(
                *log,
                default_log_path@,
                pipeline_name@,
                branch@,
                commit@,
                identifier@,
                date,
            ),
{
    let date = utc_today("%Y%m%d");
    let r = log_file_path(log, default_log_path, pipeline_name, branch, commit, identifier, date.as_str());
    assert(r@ == spec_log_file_path(*log, default_log_path@, pipeline_name@, branch@, commit@, identifier@, date@));
    r
}

} // verus!
