//! Where the log goes, which old logs are removed, and what is written of an error.

use vstd::prelude::*;

use crate::clock;
use crate::clock::Timestamp;
use crate::text;

verus! {

/// The directory for logs where the environment names none.
pub const DEFAULT_LOG_DIR: &'static str = "/var/log/spidercore/blackbox";

/// Logs older than this many seconds are removed: seven days.
pub const LOG_LIFETIME: i64 = 604800;

/// What a log's name has after the date.
pub const LOG_ENDING: &'static str = ".log";

/// Where the log goes.
pub struct LogPaths {
    pub log_dir: String,
    pub log_file: String,
}

/// The directory for logs, given what the environment names.
pub open spec fn log_dir_of(logdir: Option<Seq<char>>) -> Seq<char> {
    text::trimmed(
        match logdir {
            Some(dir) => dir,
            None => DEFAULT_LOG_DIR@,
        },
    )
}

/// The name of the log of a day.
pub open spec fn log_name(today: Timestamp) -> Seq<char> {
    clock::formatted(today.secs, today.nanos, clock::DATE_FORMAT@) + LOG_ENDING@
}

/// The date in the name of a log: all of it but the ending.
pub open spec fn date_part(file_name: Seq<char>) -> Seq<char> {
    text::without_ending(file_name, LOG_ENDING@)
}

/// The file of this name is a log that is outdated.
pub open spec fn names_outdated_log(file_name: Seq<char>, today: Timestamp) -> bool {
    clock::parsed_date(date_part(file_name), clock::DATE_FORMAT@) matches Some(day)
        && is_outdated(day as int, today)
}

/// The file in the directory for logs that is named for a date.
pub fn log_file_path(log_dir: &str, date: &str) -> (path: String)
    ensures
        path@ == log_dir@ + "/"@ + date@ + LOG_ENDING@,
{
    let mut path: String = log_dir.to_owned();
    path.append("/");
    path.append(date);
    path.append(LOG_ENDING);
    path
}

/// Where the log of a day goes, given what the environment names and the time: the directory,
/// and in it a file named for the day. At any time that file is outdated exactly when a log of
/// the day is.
pub fn init_logger(logdir: Option<&str>, today: Timestamp) -> (paths: LogPaths)
    requires
        today.wf(),
    ensures
        paths.log_dir@ == log_dir_of(
            match logdir {
                Some(dir) => Some(dir@),
                None => None,
            },
        ),
        paths.log_file@ == paths.log_dir@ + "/"@ + log_name(today),
        clock::parsed_date(
            clock::formatted(today.secs, today.nanos, clock::DATE_FORMAT@),
            clock::DATE_FORMAT@,
        ) == Some(today.day() as i32),
        forall|at: Timestamp| #[trigger]
            names_outdated_log(log_name(today), at) == is_outdated(today.day(), at),
{
    let log_dir: String = match logdir {
        Some(dir) => text::trim(dir),
        None => text::trim(DEFAULT_LOG_DIR),
    };
    let date: String = clock::format_utc(today, clock::DATE_FORMAT);
    let log_file: String = log_file_path(log_dir.as_str(), date.as_str());
    proof {
        assert forall|at: Timestamp| #[trigger]
            names_outdated_log(log_name(today), at) == is_outdated(today.day(), at) by {
            own_log_is_outdated_in_time(today, at);
        }
        assert(log_file@ =~= log_dir@ + "/"@ + log_name(today));
    }
    LogPaths { log_dir, log_file }
}

/// The log that is named at one time is outdated at another exactly when a log of its day is,
/// given that its date reads back as that day.
pub proof fn own_log_is_outdated_in_time(at: Timestamp, today: Timestamp)
    requires
        at.wf(),
        clock::parsed_date(
            clock::formatted(at.secs, at.nanos, clock::DATE_FORMAT@),
            clock::DATE_FORMAT@,
        ) == Some(at.day() as i32),
    ensures
        names_outdated_log(log_name(at), today) == is_outdated(at.day(), today),
{
    let date = clock::formatted(at.secs, at.nanos, clock::DATE_FORMAT@);
    let name = log_name(at);
    let end = name.len() - LOG_ENDING@.len();
    assert(name.subrange(end, end + LOG_ENDING@.len()) =~= LOG_ENDING@);
    assert(date_part(name) =~= date);
}

/// A log of this day is outdated: its midnight is more than the lifetime of a log ago.
pub open spec fn is_outdated(day: int, today: Timestamp) -> bool {
    let midnight = (day - clock::EPOCH_DAY) * clock::DAY;
    let threshold = today.secs - LOG_LIFETIME;
    midnight < threshold || (midnight == threshold && 0 < today.nanos)
}

/// Whether a log of this day is outdated.
pub fn outdated_day(day: i32, today: Timestamp) -> (outdated: bool)
    requires
        clock::FIRST_DAY <= day <= clock::LAST_DAY,
        today.wf(),
        clock::FIRST_SECOND <= today.secs - LOG_LIFETIME,
    ensures
        outdated == is_outdated(day as int, today),
{
    let threshold: Timestamp = clock::seconds_before(today, LOG_LIFETIME);
    clock::utc_at(day, 0, 0, 0).before(threshold)
}

/// Whether the file of this name in the directory for logs is outdated. Only a file that is named
/// for a date can be.
pub fn outdated_log(file_name: &str, today: Timestamp) -> (outdated: bool)
    requires
        today.wf(),
        clock::FIRST_SECOND <= today.secs - LOG_LIFETIME,
    ensures
        outdated == names_outdated_log(file_name@, today),
{
    let date: String = text::strip_ending(file_name, LOG_ENDING);
    match clock::parse_date(date.as_str(), clock::DATE_FORMAT) {
        Some(day) => outdated_day(day, today),
        None => false,
    }
}

/// The logs of the last six days and of today are kept, and those of days before the last seven
/// are outdated.
pub proof fn a_week_of_logs_is_kept(day: int, today: Timestamp)
    ensures
        day > today.day() - 7 ==> !is_outdated(day, today),
        day < today.day() - 7 ==> is_outdated(day, today),
{
}

/// An outdated log stays outdated.
pub proof fn outdated_stays_outdated(day: int, today: Timestamp, later: Timestamp)
    requires
        is_outdated(day, today),
        today == later || today.is_before(later),
    ensures
        is_outdated(day, later),
{
}

/// What is logged of an error, and what the panic says that follows.
pub open spec fn error_text(explanation: Seq<char>, error: Option<Seq<char>>) -> Seq<char> {
    match error {
        Some(e) => explanation + ": "@ + e,
        None => explanation,
    }
}

/// What is logged of an error, and what the panic says that follows.
pub fn errorlog(explanation: &str, error: Option<&str>) -> (message: String)
    ensures
        message@ == (match error {
            Some(e) => explanation@ + ": "@ + e@,
            None => explanation@,
        }),
        message@ == error_text(
            explanation@,
            match error {
                Some(e) => Some(e@),
                None => None,
            },
        ),
{
    let mut message: String = explanation.to_owned();
    if let Some(e) = error {
        message.append(": ");
        message.append(e);
    }
    message
}

/// What is logged of a panic, whose message may not be text.
pub open spec fn panic_text(file: Seq<char>, line: nat, message: Option<Seq<char>>) -> Seq<char> {
    "Panic occurred at "@ + file + ":"@ + text::decimal(line) + ": "@ + (match message {
        Some(text) => text,
        None => "Unknown panic"@,
    })
}

/// What is logged of a panic, whose message may not be text.
pub fn setup_panic_hook(file: &str, line: u32, message: Option<&str>) -> (report: String)
    ensures
        report@ == "Panic occurred at "@ + file@ + ":"@ + text::decimal(line as nat) + ": "@ + (
        match message {
            Some(text) => text@,
            None => "Unknown panic"@,
        }),
        report@ == panic_text(
            file@,
            line as nat,
            match message {
                Some(text) => Some(text@),
                None => None,
            },
        ),
{
    let mut report: String = "Panic occurred at ".to_owned();
    report.append(file);
    report.append(":");
    text::push_decimal(&mut report, line as u64);
    report.append(": ");
    report.append(
        match message {
            Some(text) => text,
            None => "Unknown panic",
        },
    );
    report
}

// ---------------------------------------------------------------------------
// Laws
// ---------------------------------------------------------------------------

/// A log is outdated once more than seven days have passed since the midnight that its day began
/// with, to the nanosecond.
pub proof fn logs_live_seven_days(day: int, today: Timestamp)
    requires
        today.nanos < 1000000000,
    ensures
        is_outdated(day, today) <==> today.since_epoch() - (day - 719163) * 86400 * 1000000000 > 7
            * 86400 * 1000000000,
{
}

/// A file is outdated by the date in its name, with or without `.log` behind it, and one whose
/// name is no date never is.
pub proof fn only_dated_logs_are_outdated(date: Seq<char>, today: Timestamp)
    ensures
        match clock::parsed_date(date, "%Y-%m-%d"@) {
            Some(day) => names_outdated_log(date + ".log"@, today) <==> is_outdated(
                day as int,
                today,
            ),
            None => !names_outdated_log(date + ".log"@, today),
        },
        (forall|head: Seq<char>| date != #[trigger] (head + ".log"@)) ==> names_outdated_log(
            date,
            today,
        ) == names_outdated_log(date + ".log"@, today),
{
    text::ending_comes_off(date, ".log"@);
}

/// A log is named for its day, with `.log` behind it, and the date in its name is that day's.
pub proof fn log_is_named_for_its_day(today: Timestamp)
    ensures
        log_name(today) == clock::formatted(today.secs, today.nanos, "%Y-%m-%d"@) + ".log"@,
        date_part(log_name(today)) == clock::formatted(today.secs, today.nanos, "%Y-%m-%d"@),
{
    text::ending_comes_off(
        clock::formatted(today.secs, today.nanos, clock::DATE_FORMAT@),
        LOG_ENDING@,
    );
}

/// Logs go to the directory that the environment names, without the white space around it, and
/// else to the one of the system.
pub proof fn logs_go_where_the_environment_says(
    before: Seq<char>,
    dir: Seq<char>,
    after: Seq<char>,
)
    requires
        text::all_space(before),
        text::all_space(after),
        dir.len() > 0 ==> !text::white_space(dir[0]) && !text::white_space(dir.last()),
    ensures
        log_dir_of(Some(before + dir + after)) == dir,
        log_dir_of(None) == "/var/log/spidercore/blackbox"@,
{
    text::trimmed_is_what_stands_between(before, dir, after);
    reveal_strlit("/var/log/spidercore/blackbox");
    let none = Seq::<char>::empty();
    text::trimmed_is_what_stands_between(none, DEFAULT_LOG_DIR@, none);
    assert(none + DEFAULT_LOG_DIR@ + none =~= DEFAULT_LOG_DIR@);
}

/// What is logged starts with the explanation, and ends with the error behind a colon where there
/// is one.
pub proof fn errors_are_told_whole(explanation: Seq<char>, error: Seq<char>)
    ensures
        error_text(explanation, None) == explanation,
        error_text(explanation, Some(error)).len() == explanation.len() + 2 + error.len(),
        error_text(explanation, Some(error)).take(explanation.len() as int) == explanation,
        error_text(explanation, Some(error))[explanation.len() as int] == ':',
        error_text(explanation, Some(error))[explanation.len() as int + 1] == ' ',
        error_text(explanation, Some(error)).skip(explanation.len() as int + 2) == error,
{
    reveal_strlit(": ");
    let told = error_text(explanation, Some(error));
    assert(told.take(explanation.len() as int) =~= explanation);
    assert(told.skip(explanation.len() as int + 2) =~= error);
}

/// A panic is told with its file, its line and its message, and without a message as unknown.
pub proof fn panics_are_told_whole(file: Seq<char>, line: nat, message: Seq<char>)
    ensures
        panic_text(file, line, Some(message)) == error_text(
            "Panic occurred at "@ + file + ":"@ + text::decimal(line),
            Some(message),
        ),
        panic_text(file, line, None) == error_text(
            "Panic occurred at "@ + file + ":"@ + text::decimal(line),
            Some("Unknown panic"@),
        ),
        text::number_of(text::decimal(line)) == line,
{
    text::decimal_reads_back(line);
}

} // verus!
