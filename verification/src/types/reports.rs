//! Run reports: the versioned record of a job and the place it is stored at.

use crate::types::summaries::{
    flatten_paths, is_serialized, known_partitions, paths_text, resolvable,
    resolve_known_partitions, resolve_partitions, serializes, FreezeSummary, SerializedFreezeSummary,
};
use chrono::TimeZone;
use std::fmt::Write;
use vstd::prelude::*;
use vstd::string::StringExecFns;

verus! {

/// What is known of a job when it starts.
pub struct ExecutionEnv {
    /// Start of the job, in seconds since the Unix epoch.
    pub t_start: i64,
    /// What local time was ahead of UTC when the job started, in seconds.
    pub utc_offset_seconds: i32,
    /// Directory for reports, where the default is not wanted.
    pub report_dir: Option<String>,
    /// The command line that started the job, token by token.
    pub cli_command: Option<Vec<String>>,
    /// The arguments of the job, serialized.
    pub args: Option<String>,
}

/// Where the output files of a job go.
pub struct FileOutput {
    pub output_dir: String,
}

/// The record of a job. `results` is there only when the job ran to its end.
#[derive(Debug)]
pub struct FreezeReport {
    pub cryo_version: String,
    pub cli_command: Option<Vec<String>>,
    pub results: Option<SerializedFreezeSummary>,
    pub args: Option<String>,
}

/// The earliest time that can be written: the first second of the year
/// -262143, in seconds since the Unix epoch.
pub const EARLIEST_TIME: i64 = -8_334_601_228_800;

/// The latest time that can be written: the last second of the year 262142, in
/// seconds since the Unix epoch.
pub const LATEST_TIME: i64 = 8_210_266_876_799;

/// Whether a Unix time is one that can be written.
pub open spec fn is_representable(unix_seconds: i64) -> bool {
    EARLIEST_TIME <= unix_seconds <= LATEST_TIME
}

/// Whether a number of seconds is an offset from UTC: less than a day either way.
pub open spec fn is_offset(utc_offset_seconds: i32) -> bool {
    -86_400 < utc_offset_seconds < 86_400
}

/// Whether a time at an offset from UTC can be written: the offset is less than
/// a day, and the time is one that can be written.
pub open spec fn is_writable(unix_seconds: i64, utc_offset_seconds: i32) -> bool {
    is_offset(utc_offset_seconds) && is_representable(unix_seconds)
}

/// The format in which the start of a job is written, to the second.
pub open spec fn start_time_format() -> Seq<char> {
    "%Y-%m-%d_%H-%M-%S"@
}

/// Whether a character can stand in a time written in the format of start
/// times: a digit, `-`, `_`, or the sign of a year.
pub open spec fn is_time_char(c: char) -> bool {
    ||| '0' <= c <= '9'
    ||| c == '-'
    ||| c == '_'
    ||| c == '+'
}

/// Whether a text is made of the characters of a written time.
pub open spec fn is_time_text(text: Seq<char>) -> bool {
    forall|i: int| 0 <= i < text.len() ==> is_time_char(#[trigger] text[i])
}

/// The path that `std::path::Path::join` gives for a base path and a path to
/// adjoin, on the platform that the library is built for.
pub uninterp spec fn joined_path(base: Seq<char>, part: Seq<char>) -> Seq<char>;

/// Adjoins `part` to `base` with `std::path::Path::join`. The result is that
/// of `join` on these two paths, as text; nothing more is claimed of it.
#[verifier::external_body]
fn join_path(base: &str, part: &str) -> (path: String)
    ensures
        path@ == joined_path(base@, part@),
{
    std::path::Path::new(base).join(part).to_string_lossy().into_owned()
}

/// The text that chrono gives for a Unix time at an offset from UTC in a
/// format, if it gives one.
pub uninterp spec fn formatted_time(
    unix_seconds: i64,
    utc_offset_seconds: i32,
    format: Seq<char>,
) -> Option<Seq<char>>;

/// Formats a Unix time at an offset from UTC, in the format of start times:
/// `chrono::FixedOffset::east_opt`, `chrono::TimeZone::timestamp_opt` on that
/// offset, then `chrono::DateTime::format`. The result is what chrono gives
/// for these three values. Two more things are claimed of it. Chrono gives a
/// text exactly when the offset is less than a day either way and the time lies
/// between the first second of the year -262143 and the last of the year
/// 262142: `east_opt` refuses other offsets, `timestamp_opt` other times, and
/// the format has no item that chrono rejects. And the text holds nothing but
/// digits, `-`, `_` and the sign that chrono puts before a year outside 0 to
/// 9999.
#[verifier::external_body]
fn format_time_at_offset(
    unix_seconds: i64,
    utc_offset_seconds: i32,
    format: &str,
) -> (text: Option<String>)
    requires
        format@ == start_time_format(),
    ensures
        optional_text(text) == formatted_time(unix_seconds, utc_offset_seconds, format@),
        text is Some <==> is_writable(unix_seconds, utc_offset_seconds),
        text is Some ==> is_time_text(text->0@),
{
    let offset = chrono::FixedOffset::east_opt(utc_offset_seconds)?;
    let time = offset.timestamp_opt(unix_seconds, 0).single()?;
    let mut text = String::new();
    match write!(text, "{}", time.format(format)) {
        Ok(()) => Some(text),
        Err(_) => None,
    }
}

/// The tool version recorded in a report: `<version>__<build description>`, with
/// `unknown` standing in for a missing build description.
pub open spec fn cryo_version_text(pkg_version: Seq<char>, git_description: Option<Seq<char>>) -> Seq<
    char,
> {
    pkg_version + "__"@ + match git_description {
        Some(description) => description,
        None => "unknown"@,
    }
}

/// The directory of the reports of a job: the one that the job names, or else
/// `.cryo/reports` under the output directory.
pub open spec fn report_dir_text(env: ExecutionEnv, sink: FileOutput) -> Seq<char> {
    match env.report_dir {
        Some(dir) => dir@,
        None => joined_path(sink.output_dir@, ".cryo/reports"@),
    }
}

/// The file name of a report: the start time of the job and `.json`, behind
/// `incomplete_` where the job did not run to its end.
pub open spec fn report_filename_text(timestamp: Seq<char>, is_complete: bool) -> Seq<char> {
    if is_complete {
        timestamp + ".json"@
    } else {
        "incomplete_"@ + timestamp + ".json"@
    }
}

/// The path of a report, for a job whose start time reads `timestamp`.
pub open spec fn report_path_text(
    env: ExecutionEnv,
    sink: FileOutput,
    timestamp: Seq<char>,
    is_complete: bool,
) -> Seq<char> {
    joined_path(report_dir_text(env, sink), report_filename_text(timestamp, is_complete))
}

/// Whether the start of a job can be written.
pub open spec fn has_writable_start(env: ExecutionEnv) -> bool {
    is_writable(env.t_start, env.utc_offset_seconds)
}

/// The start of a job as its report names it: the local time of the start,
/// written to the second.
pub open spec fn start_time_text(env: ExecutionEnv) -> Option<Seq<char>> {
    formatted_time(env.t_start, env.utc_offset_seconds, start_time_format())
}

/// The path of the report of a job, if its start can be written.
pub open spec fn report_path_of(env: ExecutionEnv, sink: FileOutput, is_complete: bool) -> Option<
    Seq<char>,
> {
    match start_time_text(env) {
        Some(timestamp) => Some(report_path_text(env, sink, timestamp, is_complete)),
        None => None,
    }
}

/// The view of an optional string.
pub open spec fn optional_text(text: Option<String>) -> Option<Seq<char>> {
    match text {
        Some(t) => Some(t@),
        None => None,
    }
}

/// The view of an optional list of strings.
pub open spec fn optional_texts(texts: Option<Vec<String>>) -> Option<Seq<Seq<char>>> {
    match texts {
        Some(t) => Some(paths_text(t@)),
        None => None,
    }
}

/// The view of an optional string slice.
pub open spec fn optional_str(text: Option<&str>) -> Option<Seq<char>> {
    match text {
        Some(t) => Some(t@),
        None => None,
    }
}

/// Whether `report` is a record of the job: it holds the tool version, the
/// command line and the arguments as the job recorded them, and the summary,
/// serialized, if and only if the job has one.
pub open spec fn is_report_of<P, F: Fn(&P) -> Vec<String>>(
    env: ExecutionEnv,
    pkg_version: Seq<char>,
    git_description: Option<Seq<char>>,
    freeze_summary: Option<&FreezeSummary<P>>,
    get_paths: F,
    report: FreezeReport,
) -> bool {
    &&& report.cryo_version@ == cryo_version_text(pkg_version, git_description)
    &&& optional_texts(report.cli_command) == optional_texts(env.cli_command)
    &&& optional_text(report.args) == optional_text(env.args)
    &&& match freeze_summary {
        Some(summary) => report.results matches Some(serialized) && is_serialized(
            get_paths,
            *summary,
            serialized,
        ),
        None => report.results is None,
    }
}

/// Builds the version string of a report from the package version and the
/// description of the build, where one is known.
pub fn get_cryo_version(pkg_version: &str, git_description: Option<&str>) -> (version: String)
    ensures
        version@ == cryo_version_text(pkg_version@, optional_str(git_description)),
{
    let mut version = String::from_str(pkg_version);
    version.append("__");
    match git_description {
        Some(description) => version.append(description),
        None => version.append("unknown"),
    }
    version
}

/// The directory that the reports of a job go to.
pub fn report_dir(env: &ExecutionEnv, sink: &FileOutput) -> (dir: String)
    ensures
        dir@ == report_dir_text(*env, *sink),
{
    match &env.report_dir {
        Some(dir) => dir.clone(),
        None => join_path(sink.output_dir.as_str(), ".cryo/reports"),
    }
}

/// The file name of the report of a job whose start time reads `timestamp`.
pub fn report_filename(timestamp: &str, is_complete: bool) -> (name: String)
    ensures
        name@ == report_filename_text(timestamp@, is_complete),
{
    let mut name = if is_complete {
        String::new()
    } else {
        String::from_str("incomplete_")
    };
    name.append(timestamp);
    name.append(".json");
    assert(name@ =~= report_filename_text(timestamp@, is_complete));
    name
}

/// The path of the report of a job whose start time reads `timestamp`.
pub fn report_path(env: &ExecutionEnv, sink: &FileOutput, timestamp: &str, is_complete: bool) -> (path:
    String)
    ensures
        path@ == report_path_text(*env, *sink, timestamp@, is_complete),
{
    let dir = report_dir(env, sink);
    let name = report_filename(timestamp, is_complete);
    join_path(dir.as_str(), name.as_str())
}

/// The start of a job as its report names it: the local time of the start,
/// written to the second. There is a text exactly when the start can be written.
pub fn start_timestamp(env: &ExecutionEnv) -> (timestamp: Option<String>)
    ensures
        optional_text(timestamp) == start_time_text(*env),
        timestamp is Some <==> has_writable_start(*env),
        timestamp matches Some(text) ==> is_time_text(text@),
{
    format_time_at_offset(env.t_start, env.utc_offset_seconds, "%Y-%m-%d_%H-%M-%S")
}

/// The path of the report of a job: in the report directory, the file named
/// after the start of the job, which is written to the second in local time.
/// There is a path exactly when the start can be written.
pub fn get_report_path(env: &ExecutionEnv, sink: &FileOutput, is_complete: bool) -> (path: Option<
    String,
>)
    ensures
        optional_text(path) == report_path_of(*env, *sink, is_complete),
        path is Some <==> has_writable_start(*env),
        path is Some ==> is_time_text(start_time_text(*env)->0),
{
    match start_timestamp(env) {
        Some(timestamp) => Some(report_path(env, sink, timestamp.as_str(), is_complete)),
        None => None,
    }
}

/// Copies a list of strings.
pub fn copy_strings(texts: &Vec<String>) -> (copy: Vec<String>)
    ensures
        paths_text(copy@) == paths_text(texts@),
{
    let mut copy: Vec<String> = Vec::with_capacity(texts.len());
    let mut i: usize = 0;
    while i < texts.len()
        invariant
            i <= texts.len(),
            paths_text(copy@) == paths_text(texts@.take(i as int)),
        decreases texts.len() - i,
    {
        let text = texts[i].clone();
        let ghost before = copy@;
        copy.push(text);
        proof {
            assert(text@ == texts@[i as int]@);
            assert(texts@.take(i + 1) == texts@.take(i as int).push(texts@[i as int]));
            assert(paths_text(before.push(text)) =~= paths_text(before).push(text@));
            assert(paths_text(texts@.take(i as int).push(texts@[i as int])) =~= paths_text(
                texts@.take(i as int),
            ).push(texts@[i as int]@));
        }
        i += 1;
    }
    proof {
        assert(texts@.take(texts@.len() as int) == texts@);
    }
    copy
}

/// Turns the summary of a job into what a report holds of it: the paths of the
/// completed partitions, the paths of the failed partitions that are known,
/// each as `get_paths` gives them and in the order of the summary, and the
/// number of skipped partitions.
pub fn serialize_summary<P, F: Fn(&P) -> Vec<String>>(summary: &FreezeSummary<P>, get_paths: F) -> (serialized:
    SerializedFreezeSummary)
    requires
        resolvable(get_paths, summary.completed@),
        resolvable(get_paths, known_partitions(summary.errored@)),
    ensures
        is_serialized(get_paths, *summary, serialized),
{
    let completed = resolve_partitions(&summary.completed, &get_paths);
    let errored = resolve_known_partitions(&summary.errored, &get_paths);
    let ghost completed_paths = completed@;
    let ghost errored_paths = errored@;
    let serialized = SerializedFreezeSummary {
        completed_paths: flatten_paths(completed),
        errored_paths: flatten_paths(errored),
        n_skipped: summary.skipped.len() as u64,
    };
    assert(serializes(get_paths, *summary, completed_paths, errored_paths, serialized));
    serialized
}

/// Builds the record of a job: the tool version, the command line and the
/// arguments as the job recorded them, and the serialized summary where the
/// job has one.
pub fn build_report<P, F: Fn(&P) -> Vec<String>>(
    env: &ExecutionEnv,
    pkg_version: &str,
    git_description: Option<&str>,
    freeze_summary: Option<&FreezeSummary<P>>,
    get_paths: F,
) -> (report: FreezeReport)
    requires
        freeze_summary matches Some(summary) ==> resolvable(get_paths, summary.completed@)
            && resolvable(get_paths, known_partitions(summary.errored@)),
    ensures
        is_report_of(
            *env,
            pkg_version@,
            optional_str(git_description),
            freeze_summary,
            get_paths,
            report,
        ),
{
    let cryo_version = get_cryo_version(pkg_version, git_description);
    let results = match freeze_summary {
        Some(summary) => Some(serialize_summary(summary, get_paths)),
        None => None,
    };
    let cli_command = match &env.cli_command {
        Some(tokens) => Some(copy_strings(tokens)),
        None => None,
    };
    let args = match &env.args {
        Some(text) => Some(text.clone()),
        None => None,
    };
    FreezeReport { cryo_version, cli_command, results, args }
}

/// Prepares the report of a job for writing: the record, and the path of the
/// file. A job with a summary ran to its end; one without was interrupted, and
/// its file is marked so. There is a path exactly when the start of the job can
/// be written.
pub fn prepare_report<P, F: Fn(&P) -> Vec<String>>(
    env: &ExecutionEnv,
    sink: &FileOutput,
    pkg_version: &str,
    git_description: Option<&str>,
    freeze_summary: Option<&FreezeSummary<P>>,
    get_paths: F,
) -> (prepared: (FreezeReport, Option<String>))
    requires
        freeze_summary matches Some(summary) ==> resolvable(get_paths, summary.completed@)
            && resolvable(get_paths, known_partitions(summary.errored@)),
    ensures
        is_report_of(
            *env,
            pkg_version@,
            optional_str(git_description),
            freeze_summary,
            get_paths,
            prepared.0,
        ),
        optional_text(prepared.1) == report_path_of(*env, *sink, freeze_summary is Some),
        prepared.1 is Some <==> has_writable_start(*env),
        prepared.1 is Some ==> is_time_text(start_time_text(*env)->0),
{
    let is_complete = freeze_summary.is_some();
    let report = build_report(env, pkg_version, git_description, freeze_summary, get_paths);
    let path = get_report_path(env, sink, is_complete);
    (report, path)
}

/// A report of a job that did not run to its end is marked: its file name
/// begins with `incomplete_`. That of a job that ran to its end is the start
/// time and `.json`, and does not begin with the mark, since no written time
/// does. The two names of one start time differ.
pub proof fn lemma_incomplete_reports_are_marked(timestamp: Seq<char>)
    ensures
        "incomplete_"@.is_prefix_of(report_filename_text(timestamp, false)),
        report_filename_text(timestamp, true) == timestamp + ".json"@,
        is_time_text(timestamp) ==> !"incomplete_"@.is_prefix_of(
            report_filename_text(timestamp, true),
        ),
        report_filename_text(timestamp, false) != report_filename_text(timestamp, true),
{
    reveal_strlit("incomplete_");
    reveal_strlit(".json");
    let mark = "incomplete_"@;
    let marked = report_filename_text(timestamp, false);
    let plain = report_filename_text(timestamp, true);
    assert(marked.subrange(0, mark.len() as int) =~= mark);
    assert(marked.len() == plain.len() + 11);
    if is_time_text(timestamp) && mark.is_prefix_of(plain) {
        assert(plain.subrange(0, 11) == mark);
        assert(plain.subrange(0, 11)[0] == plain[0]);
        assert(mark[0] == 'i');
        if timestamp.len() > 0 {
            assert(is_time_char(timestamp[0]));
            assert(plain[0] == timestamp[0]);
        } else {
            assert(plain[0] == '.');
        }
    }
}

/// The path of a report is settled by the start of the job with its offset, the
/// text of the report directory, or of the output directory where the job names
/// none, and whether the job ran to its end: asking again for such a job gives
/// the same path.
pub proof fn lemma_report_path_is_repeatable(
    env: ExecutionEnv,
    sink: FileOutput,
    other_env: ExecutionEnv,
    other_sink: FileOutput,
    is_complete: bool,
)
    requires
        env.t_start == other_env.t_start,
        env.utc_offset_seconds == other_env.utc_offset_seconds,
        optional_text(env.report_dir) == optional_text(other_env.report_dir),
        sink.output_dir@ == other_sink.output_dir@,
    ensures
        report_dir_text(env, sink) == report_dir_text(other_env, other_sink),
        start_time_text(env) == start_time_text(other_env),
        report_path_of(env, sink, is_complete) == report_path_of(
            other_env,
            other_sink,
            is_complete,
        ),
{
}

} // verus!
