//! Log output in CircleCI.
//!
//! CircleCI folds its output by step and knows no sections within, so that groups cannot be folded.
//! They get headers instead.
use vstd::prelude::*;

use crate::style::{dim, green};
use crate::text::concat;

verus! {

// ---------------------------------------------------------------------------------------------
// Levels
// ---------------------------------------------------------------------------------------------

/// Which messages are shown: those up to a level.
#[derive(Debug, Clone, Copy, PartialEq, Eq, Structural)]
pub enum LevelFilter {
    Off,
    Error,
    Warn,
    Info,
    Debug,
    Trace,
}

/// The level of a message.
#[derive(Debug, Clone, Copy, PartialEq, Eq, Structural)]
pub enum Level {
    Error,
    Warn,
    Info,
    Debug,
    Trace,
}

/// A character in upper case, if it is an ASCII letter.
pub open spec fn ascii_upper(c: char) -> char {
    if 'a' <= c <= 'z' {
        (c as u32 - 32) as char
    } else {
        c
    }
}

/// Whether the two are equal but for the case of ASCII letters.
pub open spec fn same_but_case(a: Seq<char>, b: Seq<char>) -> bool {
    a.map_values(|c: char| ascii_upper(c)) == b.map_values(|c: char| ascii_upper(c))
}

/// The filter of a name.
pub open spec fn filter_named(name: Seq<char>) -> Option<LevelFilter> {
    if same_but_case(name, "OFF"@) {
        Some(LevelFilter::Off)
    } else if same_but_case(name, "ERROR"@) {
        Some(LevelFilter::Error)
    } else if same_but_case(name, "WARN"@) {
        Some(LevelFilter::Warn)
    } else if same_but_case(name, "INFO"@) {
        Some(LevelFilter::Info)
    } else if same_but_case(name, "DEBUG"@) {
        Some(LevelFilter::Debug)
    } else if same_but_case(name, "TRACE"@) {
        Some(LevelFilter::Trace)
    } else {
        None
    }
}

/// `log::LevelFilter::from_str`: the filter of a name, in whatever case; `None` for its error.
#[verifier::external_body]
fn parse_filter(name: &str) -> (r: Option<LevelFilter>)
    ensures
        r == filter_named(name@),
{
    name.parse::<log::LevelFilter>().ok().map(
        |filter|
            match filter {
                log::LevelFilter::Off => LevelFilter::Off,
                log::LevelFilter::Error => LevelFilter::Error,
                log::LevelFilter::Warn => LevelFilter::Warn,
                log::LevelFilter::Info => LevelFilter::Info,
                log::LevelFilter::Debug => LevelFilter::Debug,
                log::LevelFilter::Trace => LevelFilter::Trace,
            },
    )
}

/// How much a filter lets through.
pub open spec fn verbosity(filter: LevelFilter) -> int {
    match filter {
        LevelFilter::Off => 0,
        LevelFilter::Error => 1,
        LevelFilter::Warn => 2,
        LevelFilter::Info => 3,
        LevelFilter::Debug => 4,
        LevelFilter::Trace => 5,
    }
}

/// The verbosity from which on a message is shown.
pub open spec fn rank(level: Level) -> int {
    match level {
        Level::Error => 1,
        Level::Warn => 2,
        Level::Info => 3,
        Level::Debug => 4,
        Level::Trace => 5,
    }
}

fn verbosity_of(filter: LevelFilter) -> (r: u8)
    ensures
        r == verbosity(filter),
{
    match filter {
        LevelFilter::Off => 0,
        LevelFilter::Error => 1,
        LevelFilter::Warn => 2,
        LevelFilter::Info => 3,
        LevelFilter::Debug => 4,
        LevelFilter::Trace => 5,
    }
}

fn rank_of(level: Level) -> (r: u8)
    ensures
        r == rank(level),
{
    match level {
        Level::Error => 1,
        Level::Warn => 2,
        Level::Info => 3,
        Level::Debug => 4,
        Level::Trace => 5,
    }
}

// ---------------------------------------------------------------------------------------------
// Records
// ---------------------------------------------------------------------------------------------

/// What a record says of groups.
#[derive(Debug)]
pub enum GroupEvent {
    /// A group starts.
    Start(String),
    /// A group starts that does not end.
    StartOpened(String),
    /// The group ends.
    End,
}

/// What a record says.
#[derive(Debug)]
pub struct LogRecord {
    /// Whether it is for this logger.
    pub handled: bool,
    pub group: Option<GroupEvent>,
    /// Whether it is an event in JSON, which is for others.
    pub json: bool,
    pub announcement: Option<String>,
    pub level: Level,
}

/// What is done about a record.
#[derive(Debug)]
pub enum LogAction {
    Nothing,
    /// The header of the group of this name is shown between empty lines.
    Header(String),
    /// A mark for the group of this name is shown, with the time that it took.
    Mark { name: String, elapsed_ms: u64 },
    /// This line is shown.
    Line(String),
    /// The message is shown.
    Message,
}

/// The group that is open: its name, and when it started.
#[derive(Debug)]
pub struct OpenGroup {
    pub name: String,
    pub started_at_ms: u64,
}

pub struct OpenGroupView {
    pub name: Seq<char>,
    pub started_at_ms: u64,
}

impl DeepView for OpenGroup {
    type V = OpenGroupView;

    open spec fn deep_view(&self) -> OpenGroupView {
        OpenGroupView { name: self.name@, started_at_ms: self.started_at_ms }
    }
}

/// The group that is open after a record.
pub open spec fn open_after(open: Option<OpenGroupView>, record: LogRecord, now_ms: u64) -> Option<
    OpenGroupView,
> {
    if !record.handled {
        open
    } else {
        match record.group {
            Some(GroupEvent::Start(name)) => Some(
                OpenGroupView { name: name@, started_at_ms: now_ms },
            ),
            Some(GroupEvent::StartOpened(_)) => open,
            Some(GroupEvent::End) => None,
            None => open,
        }
    }
}

/// The time between two moments, or nothing where the clock went back.
pub open spec fn elapsed(start_ms: u64, now_ms: u64) -> int {
    if now_ms < start_ms {
        0
    } else {
        now_ms - start_ms
    }
}

/// Whether `action` is what is done about a record.
pub open spec fn answers(
    filter: LevelFilter,
    open: Option<OpenGroupView>,
    record: LogRecord,
    now_ms: u64,
    action: LogAction,
) -> bool {
    if !record.handled {
        action is Nothing
    } else {
        match record.group {
            Some(GroupEvent::Start(name)) => action matches LogAction::Header(n) && n@ == name@,
            Some(GroupEvent::StartOpened(name)) => action matches LogAction::Header(n) && n@
                == name@,
            Some(GroupEvent::End) => match open {
                Some(group) => {
                    &&& action matches LogAction::Mark { name, elapsed_ms }
                    &&& name@ == group.name
                    &&& elapsed_ms == elapsed(group.started_at_ms, now_ms)
                },
                None => action is Nothing,
            },
            None => if record.json {
                action is Nothing
            } else {
                match record.announcement {
                    Some(text) => {
                        &&& action matches LogAction::Line(line)
                        &&& crate::style::styled(line@, text@, "\x1b[32m"@)
                    },
                    None => if rank(record.level) > verbosity(filter) {
                        action is Nothing
                    } else {
                        action is Message
                    },
                }
            },
        }
    }
}

// ---------------------------------------------------------------------------------------------
// The logger
// ---------------------------------------------------------------------------------------------

#[derive(Debug)]
pub struct CircleCILogger {
    pub log_level: LevelFilter,
    pub open_group: Option<OpenGroup>,
}

impl CircleCILogger {
    /// A logger with the filter that the variable `CODSPEED_LOG` names, or else with that for
    /// information.
    pub fn new(codspeed_log: Option<&str>) -> (r: Self)
        ensures
            r.log_level == (match crate::text::text_of(codspeed_log) {
                Some(name) => match filter_named(name) {
                    Some(filter) => filter,
                    None => LevelFilter::Info,
                },
                None => LevelFilter::Info,
            }),
            r.open_group is None,
    {
        let log_level = match codspeed_log {
            Some(name) => match parse_filter(name) {
                Some(filter) => filter,
                None => LevelFilter::Info,
            },
            None => LevelFilter::Info,
        };
        CircleCILogger { log_level, open_group: None }
    }

    /// What is done about a record. Groups that start opened get no mark at their end.
    pub fn log(&mut self, record: LogRecord, now_ms: u64) -> (r: LogAction)
        ensures
            final(self).log_level == old(self).log_level,
            final(self).open_group.deep_view() == open_after(
                old(self).open_group.deep_view(),
                record,
                now_ms,
            ),
            answers(
                old(self).log_level,
                old(self).open_group.deep_view(),
                record,
                now_ms,
                r,
            ),
    {
        if !record.handled {
            return LogAction::Nothing;
        }
        if let Some(event) = record.group {
            match event {
                GroupEvent::Start(name) => {
                    self.open_group =
                    Some(OpenGroup { name: name.clone(), started_at_ms: now_ms });
                    return LogAction::Header(name);
                },
                GroupEvent::StartOpened(name) => {
                    return LogAction::Header(name);
                },
                GroupEvent::End => {
                    let open = self.open_group.take();
                    return match open {
                        Some(group) => {
                            let elapsed_ms: u64 = if now_ms < group.started_at_ms {
                                0
                            } else {
                                now_ms - group.started_at_ms
                            };
                            LogAction::Mark { name: group.name, elapsed_ms }
                        },
                        None => LogAction::Nothing,
                    };
                },
            }
        }
        if record.json {
            return LogAction::Nothing;
        }
        if let Some(text) = record.announcement {
            return LogAction::Line(green(text.as_str()));
        }
        if rank_of(record.level) > verbosity_of(self.log_level) {
            return LogAction::Nothing;
        }
        LogAction::Message
    }
}

/// The line for a group that ended: its mark, and the time that it took.
pub fn mark_line(checkmark: &str, elapsed: &str) -> (r: String)
    ensures
        exists|time: Seq<char>| #[trigger]
            crate::style::styled(time, elapsed@, "\x1b[2m"@) && r@ == checkmark@ + " "@ + time,
{
    let time = dim(elapsed);
    let start = concat(checkmark, " ");
    let r = concat(start.as_str(), time.as_str());
    assert(crate::style::styled(time@, elapsed@, "\x1b[2m"@));
    r
}

/// A group that starts is the one that the next end marks, with the time in between; a second end
/// marks nothing.
pub proof fn law_groups_are_marked_once(
    filter: LevelFilter,
    open: Option<OpenGroupView>,
    start: LogRecord,
    end: LogRecord,
    started: u64,
    ended: u64,
    action: LogAction,
)
    requires
        start.handled && end.handled,
        start.group matches Some(GroupEvent::Start(_)),
        end.group matches Some(GroupEvent::End),
        answers(filter, open_after(open, start, started), end, ended, action),
    ensures
        action matches LogAction::Mark { name, elapsed_ms } && name@ == start.group->0->Start_0@
            && elapsed_ms == elapsed(started, ended),
        answers(
            filter,
            open_after(open_after(open, start, started), end, ended),
            end,
            ended,
            LogAction::Nothing,
        ),
{
}

/// A message that a filter shows is shown by every filter that lets more through, and errors are
/// shown by every filter but the one that shows nothing.
pub proof fn law_filters_are_nested(filter: LevelFilter, wider: LevelFilter, level: Level)
    requires
        verbosity(filter) <= verbosity(wider),
    ensures
        rank(level) <= verbosity(filter) ==> rank(level) <= verbosity(wider),
        rank(Level::Error) <= verbosity(filter) <==> filter != LevelFilter::Off,
{
}

/// The levels are ordered from errors to traces, and a filter shows the messages of its own level.
pub proof fn law_levels_are_ordered(level: Level)
    ensures
        rank(Level::Error) < rank(Level::Warn) < rank(Level::Info) < rank(Level::Debug) < rank(
            Level::Trace,
        ),
        verbosity(LevelFilter::Error) == rank(Level::Error),
        verbosity(LevelFilter::Warn) == rank(Level::Warn),
        verbosity(LevelFilter::Info) == rank(Level::Info),
        verbosity(LevelFilter::Debug) == rank(Level::Debug),
        verbosity(LevelFilter::Trace) == rank(Level::Trace),
        verbosity(LevelFilter::Off) < rank(level),
{
}

/// What is done about a record: nothing where it is for others, or an event in JSON; groups get a header
/// and announcements a line whatever the filter; a message is shown where the filter lets it through.
pub proof fn law_what_is_shown(
    filter: LevelFilter,
    open: Option<OpenGroupView>,
    record: LogRecord,
    now_ms: u64,
    action: LogAction,
)
    requires
        answers(filter, open, record, now_ms, action),
    ensures
        !record.handled ==> action is Nothing && open_after(open, record, now_ms) == open,
        record.handled && record.group is None ==> {
            &&& open_after(open, record, now_ms) == open
            &&& record.json ==> action is Nothing
            &&& !record.json && record.announcement is Some ==> action is Line
            &&& !record.json && record.announcement is None ==> (action is Message <==> rank(
                record.level,
            ) <= verbosity(filter)) && (action is Nothing || action is Message)
        },
        record.handled ==> (record.group matches Some(GroupEvent::Start(name)) ==> (
        action matches LogAction::Header(n) && n@ == name@) && open_after(open, record, now_ms)
            == Some(OpenGroupView { name: name@, started_at_ms: now_ms })),
        record.handled ==> (record.group matches Some(GroupEvent::StartOpened(name)) ==> (
        action matches LogAction::Header(n) && n@ == name@) && open_after(open, record, now_ms)
            == open),
        record.handled && record.group == Some(GroupEvent::End) ==> open_after(open, record, now_ms)
            is None && (action is Mark <==> open is Some),
{
}

/// The time that a group took does not come out negative where the clock went back.
pub proof fn law_elapsed_time(start_ms: u64, now_ms: u64)
    ensures
        now_ms >= start_ms ==> start_ms + elapsed(start_ms, now_ms) == now_ms,
        now_ms < start_ms ==> elapsed(start_ms, now_ms) == 0,
{
}

/// A logger shows information unless a filter is named.
pub proof fn law_information_is_shown(name: Option<&str>, r: CircleCILogger)
    requires
        call_ensures(CircleCILogger::new, (name,), r),
    ensures
        name is None ==> r.log_level is Info,
        name matches Some(n) ==> (filter_named(n@) is None ==> r.log_level is Info),
        name matches Some(n) ==> (filter_named(n@) matches Some(filter) ==> r.log_level == filter),
        r.open_group is None,
{
}

/// A group that starts is open until one ends, and its mark tells its name and how long it took.
/// Records that are not handled change nothing.
pub proof fn law_logger_marks_the_group_that_ends(
    logger: &mut CircleCILogger,
    record: LogRecord,
    now_ms: u64,
    r: LogAction,
)
    requires
        call_ensures(CircleCILogger::log, (logger, record, now_ms), r),
    ensures
        final(logger).log_level == old(logger).log_level,
        !record.handled ==> r is Nothing && final(logger).open_group.deep_view()
            == old(logger).open_group.deep_view(),
        record.handled ==> (record.group matches Some(GroupEvent::Start(name)) ==> (
        final(logger).open_group.deep_view() matches Some(group) && group.name == name@
            && group.started_at_ms == now_ms && (r matches LogAction::Header(n) && n@ == name@))),
        record.handled && record.group == Some(GroupEvent::End) ==> {
            &&& final(logger).open_group is None
            &&& old(logger).open_group is None ==> r is Nothing
            &&& old(logger).open_group.deep_view() matches Some(group) ==> (
            r matches LogAction::Mark { name, elapsed_ms } && name@ == group.name && elapsed_ms == (
            if now_ms >= group.started_at_ms {
                now_ms - group.started_at_ms
            } else {
                0
            }))
        },
        record.handled && record.group is None ==> final(logger).open_group.deep_view()
            == old(logger).open_group.deep_view() && !(r is Header) && !(r is Mark),
        record.handled && record.group is None && record.json ==> r is Nothing,
        record.handled && record.group is None && !record.json && record.announcement is Some
            ==> r is Line,
{
}

} // verus!
