//! The clock, and how a moment reads in the CPU log.
use crate::text::{int_text, nat_text, u64_text};
use chrono::{DateTime, Utc};
use vstd::prelude::*;
use vstd::string::*;

verus! {

/// The last second that has a date: the end of the year 262142.
pub const LATEST: i64 = 8_210_266_876_799;

/// How the CPU log writes a moment.
pub const LOG_TIME_FORMAT: &'static str = "%Y-%m-%d %H:%M:%S";

/// What `chrono` writes for the moment `secs` seconds after the Unix epoch, in UTC, under a
/// `strftime` format.
pub uninterp spec fn utc_text(secs: i64, format: Seq<char>) -> Seq<char>;

/// Reads the clock with `chrono::Utc::now` and `DateTime::timestamp`: the seconds since the
/// Unix epoch.
///
/// That the clock is past the epoch, and within the dates that `chrono` has, is what is claimed:
/// at any other moment `Utc::now` panics. Nothing is said of which moment it is.
#[verifier::external_body]
pub(crate) fn unix_now() -> (secs: i64)
    ensures
        0 <= secs <= LATEST,
{
    Utc::now().timestamp()
}

/// Writes the moment `secs` seconds after the Unix epoch with `chrono`'s `DateTime::format`.
///
/// The text is what `chrono` makes of the moment and the format, named `utc_text`. Every second
/// up to `LATEST` has a date, so `DateTime::from_timestamp` yields one.
#[verifier::external_body]
pub(crate) fn format_utc(secs: i64, format: &str) -> (text: String)
    requires
        0 <= secs <= LATEST,
        format@ == LOG_TIME_FORMAT@,
    ensures
        text@ == utc_text(secs, format@),
{
    DateTime::<Utc>::from_timestamp(secs, 0).unwrap_or_default().format(format).to_string()
}

/// A line of the CPU log.
pub open spec fn cpu_line(time: Seq<char>, pid: u32, usage: Seq<char>) -> Seq<char> {
    "["@ + time + "] PID: "@ + nat_text(pid as nat) + " - CPU usage: "@ + usage + "%\n"@
}

/// The line of the CPU log for a moment that reads `time`.
pub fn cpu_log_line_at(time: &str, pid: u32, usage: &str) -> (line: String)
    ensures
        line@ == cpu_line(time@, pid, usage@),
{
    let mut line = "[".to_owned();
    line.append(time);
    line.append("] PID: ");
    line.append(u64_text(pid as u64).as_str());
    line.append(" - CPU usage: ");
    line.append(usage);
    line.append("%\n");
    line
}

/// The line of the CPU log for the moment `secs` seconds after the Unix epoch.
pub fn cpu_log_line(secs: i64, pid: u32, usage: &str) -> (line: String)
    requires
        0 <= secs <= LATEST,
    ensures
        line@ == cpu_line(utc_text(secs, LOG_TIME_FORMAT@), pid, usage@),
{
    let time = format_utc(secs, LOG_TIME_FORMAT);
    cpu_log_line_at(time.as_str(), pid, usage)
}

/// How many seconds lie between two lines of the CPU log.
pub const CPU_LOG_PERIOD_SECS: u64 = 120;

/// How the CPU log goes.
#[derive(Debug, PartialEq, Eq)]
pub enum LogEvent {
    /// It is time for a line, with the process and its CPU usage.
    Tick { pid: u32, usage: String },
    /// The line was written.
    Written,
    /// The line could not be written.
    NotWritten,
}

/// The view of a [`LogEvent`].
pub enum LogEventView {
    Tick { pid: u32, usage: Seq<char> },
    Written,
    NotWritten,
}

impl View for LogEvent {
    type V = LogEventView;

    open spec fn view(&self) -> LogEventView {
        match *self {
            LogEvent::Tick { pid, usage } => LogEventView::Tick { pid, usage: usage@ },
            LogEvent::Written => LogEventView::Written,
            LogEvent::NotWritten => LogEventView::NotWritten,
        }
    }
}

/// What to do about the CPU log.
#[derive(Debug, PartialEq, Eq)]
pub enum LogAction {
    /// Append a line.
    Append(String),
    /// Wait for the next tick, so many seconds after the last one.
    Wait(u64),
}

/// The view of a [`LogAction`].
pub enum LogActionView {
    Append(Seq<char>),
    Wait(u64),
}

impl View for LogAction {
    type V = LogActionView;

    open spec fn view(&self) -> LogActionView {
        match *self {
            LogAction::Append(line) => LogActionView::Append(line@),
            LogAction::Wait(secs) => LogActionView::Wait(secs),
        }
    }
}

/// How the CPU log goes on at the moment `now`: each tick gives a line, and the next tick is
/// waited for whether or not the line could be written.
pub open spec fn log_next(event: LogEventView, now: i64) -> LogActionView {
    match event {
        LogEventView::Tick { pid, usage } => LogActionView::Append(
            cpu_line(utc_text(now, LOG_TIME_FORMAT@), pid, usage),
        ),
        LogEventView::Written | LogEventView::NotWritten => LogActionView::Wait(
            CPU_LOG_PERIOD_SECS,
        ),
    }
}

/// Decides how the CPU log goes on at the moment `now`.
pub fn cpu_logging_task_at(event: LogEvent, now: i64) -> (action: LogAction)
    requires
        0 <= now <= LATEST,
    ensures
        action@ == log_next(event@, now),
{
    match event {
        LogEvent::Tick { pid, usage } => LogAction::Append(
            cpu_log_line(now, pid, usage.as_str()),
        ),
        LogEvent::Written | LogEvent::NotWritten => LogAction::Wait(CPU_LOG_PERIOD_SECS),
    }
}

/// Decides how the CPU log goes on at the present moment. The clock is read only for a tick.
pub fn cpu_logging_task(event: LogEvent) -> (action: LogAction)
    ensures
        exists|now: i64| 0 <= now <= LATEST && action@ == #[trigger] log_next(event@, now),
{
    let now: i64 = match &event {
        LogEvent::Tick { .. } => unix_now(),
        _ => 0,
    };
    cpu_logging_task_at(event, now)
}

/// A tick of the CPU log: when it comes, for what, and whether its line can be written.
pub struct LogTick {
    pub now: i64,
    pub pid: u32,
    pub usage: Seq<char>,
    pub writable: bool,
}

impl LogTick {
    /// The tick itself, as an event.
    pub open spec fn due(self) -> LogEventView {
        LogEventView::Tick { pid: self.pid, usage: self.usage }
    }

    /// How writing its line goes.
    pub open spec fn tried(self) -> LogEventView {
        if self.writable {
            LogEventView::Written
        } else {
            LogEventView::NotWritten
        }
    }

    /// Its line.
    pub open spec fn line(self) -> Seq<char> {
        cpu_line(utc_text(self.now, LOG_TIME_FORMAT@), self.pid, self.usage)
    }
}

/// The lines that the log holds after these ticks.
pub open spec fn logged(ticks: Seq<LogTick>) -> Seq<Seq<char>>
    decreases ticks.len(),
{
    if ticks.len() == 0 {
        Seq::empty()
    } else {
        let before = logged(ticks.drop_last());
        match log_next(ticks.last().due(), ticks.last().now) {
            LogActionView::Append(line) if ticks.last().writable => before.push(line),
            _ => before,
        }
    }
}

/// How many seconds have been waited after these ticks.
pub open spec fn waited(ticks: Seq<LogTick>) -> int
    decreases ticks.len(),
{
    if ticks.len() == 0 {
        0
    } else {
        waited(ticks.drop_last()) + match log_next(ticks.last().tried(), ticks.last().now) {
            LogActionView::Wait(secs) => secs as int,
            LogActionView::Append(_) => 0,
        }
    }
}

/// The log has a line every 120 seconds: the tick at place `n` comes `n` times 120 seconds after
/// the first, whatever could be written in between.
pub proof fn law_log_keeps_its_period(ticks: Seq<LogTick>)
    ensures
        waited(ticks) == 120 * ticks.len(),
    decreases ticks.len(),
{
    if ticks.len() > 0 {
        law_log_keeps_its_period(ticks.drop_last());
    }
}

/// As long as writing works, each tick leaves one line, in order.
pub proof fn law_one_line_each_tick(ticks: Seq<LogTick>)
    requires
        forall|i: int| 0 <= i < ticks.len() ==> (#[trigger] ticks[i]).writable,
    ensures
        logged(ticks) == ticks.map_values(|t: LogTick| t.line()),
    decreases ticks.len(),
{
    let lines = ticks.map_values(|t: LogTick| t.line());
    if ticks.len() > 0 {
        let front = ticks.drop_last();
        law_one_line_each_tick(front);
        assert(lines =~= front.map_values(|t: LogTick| t.line()).push(ticks.last().line()));
    } else {
        assert(lines =~= Seq::empty());
    }
}

/// A line that could not be written is lost, and no other: the log goes on behind it.
pub proof fn law_log_goes_on_after_a_failure(
    before: Seq<LogTick>,
    failed: LogTick,
    behind: Seq<LogTick>,
)
    requires
        !failed.writable,
    ensures
        logged(before.push(failed) + behind) == logged(before + behind),
    decreases behind.len(),
{
    let ticks = before.push(failed) + behind;
    let without = before + behind;
    if behind.len() == 0 {
        assert(ticks.drop_last() =~= before);
        assert(ticks.last() == failed);
        assert(without =~= before);
    } else {
        assert(ticks.drop_last() =~= before.push(failed) + behind.drop_last());
        assert(without.drop_last() =~= before + behind.drop_last());
        assert(ticks.last() == behind.last() && without.last() == behind.last());
        law_log_goes_on_after_a_failure(before, failed, behind.drop_last());
    }
}

/// A line of the log holds the moment, the process and the usage, each in its place and whatever
/// they are.
pub proof fn law_log_lines(time: Seq<char>, pid: u32, usage: Seq<char>)
    ensures
        cpu_line(time, pid, usage) == "["@ + time + "] PID: "@ + int_text(pid as int)
            + " - CPU usage: "@ + usage + "%\n"@,
        LOG_TIME_FORMAT@ == "%Y-%m-%d %H:%M:%S"@,
{
}

/// Every tick gives a line with the moment it comes at, and every line, written or not, is
/// followed by a wait of two minutes.
pub proof fn law_log_events(pid: u32, usage: Seq<char>, now: i64)
    ensures
        log_next(LogEventView::Tick { pid, usage }, now) == LogActionView::Append(
            "["@ + utc_text(now, "%Y-%m-%d %H:%M:%S"@) + "] PID: "@ + int_text(pid as int)
                + " - CPU usage: "@ + usage + "%\n"@,
        ),
        log_next(LogEventView::Written, now) == LogActionView::Wait(120),
        log_next(LogEventView::NotWritten, now) == LogActionView::Wait(120),
{
}

/// The views of how the log goes and of what to do about it show all there is to them.
pub proof fn law_logs_are_viewed_whole(pid: u32, text: String, secs: u64)
    ensures
        (LogEvent::Tick { pid, usage: text })@ == (LogEventView::Tick { pid, usage: text@ }),
        LogEvent::Written@ is Written && LogEvent::NotWritten@ is NotWritten,
        LogAction::Append(text)@ == LogActionView::Append(text@),
        LogAction::Wait(secs)@ == LogActionView::Wait(secs),
{
}

} // verus!
