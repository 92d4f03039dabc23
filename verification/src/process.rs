//! A running synchronisation: what its log says, and how it ended.

use vstd::prelude::*;
use crate::error::CommandError;
use crate::text::{join_lines, joined, str_eq, text_of};
use crate::tree::{json_document, Node, NodeView, Numeral};

verus! {

/// What happened to a file.
#[derive(Clone, Copy, Debug, PartialEq, Eq, PartialOrd, Ord, Structural)]
pub enum ScanChange {
    New,
    Different,
    Removed,
    Same,
    Unknown,
}

/// A change that a synchronisation made, or in a preview would make.
#[derive(Clone, Debug, PartialEq, Eq, PartialOrd, Ord)]
pub struct CloudChange {
    pub path: String,
    pub change: ScanChange,
}

/// What one line of the tool's log tells.
#[derive(Clone, Debug, PartialEq, Eq)]
pub enum RcloneProcessEvent {
    /// How far the transfer is, in bytes: `current` of `max`.
    Progress { current: Numeral, max: Numeral },
    Change(CloudChange),
}

/// An event as a mathematical value.
pub enum EventView {
    Progress { current: Numeral, max: Numeral },
    Change { path: Seq<char>, change: ScanChange },
}

impl View for RcloneProcessEvent {
    type V = EventView;

    open spec fn view(&self) -> EventView {
        match self {
            RcloneProcessEvent::Progress { current, max } => EventView::Progress {
                current: *current,
                max: *max,
            },
            RcloneProcessEvent::Change(c) => EventView::Change { path: c.path@, change: c.change },
        }
    }
}

/// The events of a vector, each as a mathematical value.
pub open spec fn event_views(events: Seq<RcloneProcessEvent>) -> Seq<EventView> {
    events.map_values(|e: RcloneProcessEvent| e@)
}

/// The three shapes of a log line, and a fourth for every other line.
#[derive(Clone, Debug, PartialEq, Eq)]
pub enum LogEntry {
    /// The tool left a file as it was, for the reason `skipped`.
    Skip { skipped: String, object: String },
    /// The tool reports what it did to a file.
    Change { msg: String, object: String },
    /// The tool reports how far it is.
    Stats { bytes: Numeral, total_bytes: Numeral },
    /// A line of no known shape.
    Unrecognized,
}

/// A log entry as a mathematical value.
pub enum LogShape {
    Skip { skipped: Seq<char>, object: Seq<char> },
    Change { msg: Seq<char>, object: Seq<char> },
    Stats { bytes: Numeral, total_bytes: Numeral },
    Unrecognized,
}

impl View for LogEntry {
    type V = LogShape;

    open spec fn view(&self) -> LogShape {
        match self {
            LogEntry::Skip { skipped, object } => LogShape::Skip {
                skipped: skipped@,
                object: object@,
            },
            LogEntry::Change { msg, object } => LogShape::Change { msg: msg@, object: object@ },
            LogEntry::Stats { bytes, total_bytes } => LogShape::Stats {
                bytes: *bytes,
                total_bytes: *total_bytes,
            },
            LogEntry::Unrecognized => LogShape::Unrecognized,
        }
    }
}

/// The text under `key` in a mapping, where there is one.
pub open spec fn text_field(node: NodeView, key: Seq<char>) -> Option<Seq<char>> {
    match node.field(key) {
        Some(value) => value.text(),
        None => None,
    }
}

/// The number under `key` in a mapping, where there is one.
pub open spec fn numeral_field(node: NodeView, key: Seq<char>) -> Option<Numeral> {
    match node.field(key) {
        Some(value) => value.numeral(),
        None => None,
    }
}

/// The shape of a log line. The shapes are tried in turn: a skip notice has
/// the texts `skipped` and `object`, a change notice the texts `msg` and
/// `object`, a progress notice the numbers `bytes` and `totalBytes` under
/// `stats`. Other fields are not looked at.
pub open spec fn shape_of(node: NodeView) -> LogShape {
    if text_field(node, "skipped"@) is Some && text_field(node, "object"@) is Some {
        LogShape::Skip {
            skipped: text_field(node, "skipped"@)->0,
            object: text_field(node, "object"@)->0,
        }
    } else if text_field(node, "msg"@) is Some && text_field(node, "object"@) is Some {
        LogShape::Change { msg: text_field(node, "msg"@)->0, object: text_field(node, "object"@)->0 }
    } else if node.field("stats"@) is Some && numeral_field(node.field("stats"@)->0, "bytes"@)
        is Some && numeral_field(node.field("stats"@)->0, "totalBytes"@) is Some {
        LogShape::Stats {
            bytes: numeral_field(node.field("stats"@)->0, "bytes"@)->0,
            total_bytes: numeral_field(node.field("stats"@)->0, "totalBytes"@)->0,
        }
    } else {
        LogShape::Unrecognized
    }
}

/// The event that a log entry stands for. A skipped copy is a file that
/// differs, a skipped deletion one that would be removed; what the tool
/// skipped or did for another reason stands for nothing.
pub open spec fn event_of(shape: LogShape) -> Option<EventView> {
    match shape {
        LogShape::Skip { skipped, object } => if skipped == "copy"@ {
            Some(EventView::Change { path: object, change: ScanChange::Different })
        } else if skipped == "delete"@ {
            Some(EventView::Change { path: object, change: ScanChange::Removed })
        } else {
            None
        },
        LogShape::Change { msg, object } => if msg == "Copied (new)"@ {
            Some(EventView::Change { path: object, change: ScanChange::New })
        } else if msg == "Copied (replaced existing)"@ {
            Some(EventView::Change { path: object, change: ScanChange::Different })
        } else if msg == "Deleted"@ {
            Some(EventView::Change { path: object, change: ScanChange::Removed })
        } else {
            None
        },
        LogShape::Stats { bytes, total_bytes } => Some(
            EventView::Progress { current: bytes, max: total_bytes },
        ),
        LogShape::Unrecognized => None,
    }
}

/// The event of one line of the log; none where the line is not JSON.
pub open spec fn line_event(line: Seq<char>) -> Option<EventView> {
    match json_document(line) {
        Some(node) => event_of(shape_of(node)),
        None => None,
    }
}

/// The events of the first `n` lines, in the order of the lines.
pub open spec fn events_upto(lines: Seq<Seq<char>>, n: nat) -> Seq<EventView>
    decreases n,
{
    if n == 0 {
        Seq::empty()
    } else {
        match line_event(lines[n - 1]) {
            Some(event) => events_upto(lines, (n - 1) as nat).push(event),
            None => events_upto(lines, (n - 1) as nat),
        }
    }
}

/// How many lines of the log one poll takes in at most.
pub const LINES_PER_POLL: usize = 10;

/// The events of one poll: those of the first lines, up to the limit.
pub open spec fn poll_events(lines: Seq<Seq<char>>) -> Seq<EventView> {
    events_upto(
        lines,
        if lines.len() <= LINES_PER_POLL {
            lines.len()
        } else {
            LINES_PER_POLL as nat
        },
    )
}

fn text_under<'a>(node: &'a Node, key: &str) -> (r: Option<&'a str>)
    ensures
        r is Some <==> text_field(node@, key@) is Some,
        r matches Some(s) ==> s@ == text_field(node@, key@)->0,
{
    match node.field(key) {
        Some(value) => value.text(),
        None => None,
    }
}

fn numeral_under(node: &Node, key: &str) -> (r: Option<Numeral>)
    ensures
        r == numeral_field(node@, key@),
{
    match node.field(key) {
        Some(value) => value.numeral(),
        None => None,
    }
}

/// Tells which of the shapes a decoded log line has.
pub fn classify(node: &Node) -> (r: LogEntry)
    ensures
        r@ == shape_of(node@),
{
    let object = text_under(node, "object");
    if let Some(object) = object {
        if let Some(skipped) = text_under(node, "skipped") {
            return LogEntry::Skip {
                skipped: String::from_str(skipped),
                object: String::from_str(object),
            };
        }
        if let Some(msg) = text_under(node, "msg") {
            return LogEntry::Change { msg: String::from_str(msg), object: String::from_str(object) };
        }
    }
    if let Some(stats) = node.field("stats") {
        if let Some(bytes) = numeral_under(stats, "bytes") {
            if let Some(total_bytes) = numeral_under(stats, "totalBytes") {
                return LogEntry::Stats { bytes, total_bytes };
            }
        }
    }
    LogEntry::Unrecognized
}

/// Turns a log entry into the event that it stands for, if any.
pub fn event(entry: LogEntry) -> (r: Option<RcloneProcessEvent>)
    ensures
        r is Some <==> event_of(entry@) is Some,
        r matches Some(e) ==> e@ == event_of(entry@)->0,
{
    match entry {
        LogEntry::Skip { skipped, object } => {
            if str_eq(skipped.as_str(), "copy") {
                Some(
                    RcloneProcessEvent::Change(
                        CloudChange { path: object, change: ScanChange::Different },
                    ),
                )
            } else if str_eq(skipped.as_str(), "delete") {
                Some(
                    RcloneProcessEvent::Change(
                        CloudChange { path: object, change: ScanChange::Removed },
                    ),
                )
            } else {
                None
            }
        },
        LogEntry::Change { msg, object } => {
            if str_eq(msg.as_str(), "Copied (new)") {
                Some(RcloneProcessEvent::Change(CloudChange { path: object, change: ScanChange::New }))
            } else if str_eq(msg.as_str(), "Copied (replaced existing)") {
                Some(
                    RcloneProcessEvent::Change(
                        CloudChange { path: object, change: ScanChange::Different },
                    ),
                )
            } else if str_eq(msg.as_str(), "Deleted") {
                Some(
                    RcloneProcessEvent::Change(
                        CloudChange { path: object, change: ScanChange::Removed },
                    ),
                )
            } else {
                None
            }
        },
        LogEntry::Stats { bytes, total_bytes } => Some(
            RcloneProcessEvent::Progress { current: bytes, max: total_bytes },
        ),
        LogEntry::Unrecognized => None,
    }
}

/// Decodes one line of the log. A line that is not JSON, or has none of the
/// known shapes, or reports nothing of interest, gives no event.
pub fn decode_line(line: &str) -> (r: Option<RcloneProcessEvent>)
    ensures
        r is Some <==> line_event(line@) is Some,
        r matches Some(e) ==> e@ == line_event(line@)->0,
{
    match Node::from_json(line) {
        Some(node) => event(classify(&node)),
        None => None,
    }
}

/// A synchronisation that has been started: the command line that started
/// it. The caller holds the process itself.
#[derive(Clone, Debug, PartialEq, Eq)]
pub struct RcloneProcess {
    pub program: String,
    pub args: Vec<String>,
}

/// What the caller found when it looked at the process.
#[derive(Clone, Debug, PartialEq, Eq)]
pub enum ExitReport {
    /// The process has not ended.
    Running,
    /// The process has ended, with an exit code unless a signal ended it.
    /// `stdout` and `stderr` are the lines of output not yet read.
    Exited { code: Option<i32>, stdout: Vec<String>, stderr: Vec<String> },
    /// The state of the process could not be read.
    Unreadable,
}

/// The captured lines as one text; none where there is no line.
pub open spec fn captured(lines: Seq<Seq<char>>) -> Option<Seq<char>> {
    if lines.len() == 0 {
        None
    } else {
        Some(joined(lines, seq!['\n']))
    }
}

impl RcloneProcess {
    /// Whether `e` says that this process could not be started.
    pub open spec fn failed_to_launch(&self, e: CommandError, reason: Seq<char>) -> bool {
        e matches CommandError::Launched { program, args, raw } && program@ == self.program@
            && args.deep_view() == self.args.deep_view() && raw@ == reason
    }

    /// Whether `e` says that this process ended without an exit code.
    pub open spec fn was_terminated(&self, e: CommandError) -> bool {
        e matches CommandError::Terminated { program, args } && program@ == self.program@
            && args.deep_view() == self.args.deep_view()
    }

    /// Whether `e` says that this process ended with `exit_code` and left
    /// the given output.
    pub open spec fn exited_with(
        &self,
        e: CommandError,
        exit_code: i32,
        out: Option<Seq<char>>,
        err: Option<Seq<char>>,
    ) -> bool {
        e matches CommandError::Exited { program, args, code, stdout, stderr } && program@
            == self.program@ && args.deep_view() == self.args.deep_view() && code == exit_code
            && text_of(stdout) == out && text_of(stderr) == err
    }

    /// Records the start of a synchronisation. `spawned` is what starting
    /// the program gave: nothing, or the system's message of why it failed.
    pub fn launch(program: String, args: Vec<String>, spawned: Result<(), String>) -> (r: Result<
        RcloneProcess,
        CommandError,
    >)
        ensures
            spawned is Ok ==> r == Ok::<RcloneProcess, CommandError>(
                RcloneProcess { program, args },
            ),
            spawned matches Err(raw) ==> r == Err::<RcloneProcess, CommandError>(
                CommandError::Launched { program, args, raw },
            ),
    {
        match spawned {
            Ok(()) => Ok(RcloneProcess { program, args }),
            Err(raw) => Err(CommandError::Launched { program, args, raw }),
        }
    }

    /// Decodes the lines that one poll read from the log, in their order.
    /// Lines beyond the limit of one poll are not looked at.
    pub fn events(&self, lines: &Vec<String>) -> (r: Vec<RcloneProcessEvent>)
        ensures
            event_views(r@) == poll_events(lines.deep_view()),
    {
        let n = if lines.len() <= LINES_PER_POLL {
            lines.len()
        } else {
            LINES_PER_POLL
        };
        let ghost all = lines.deep_view();
        let mut events: Vec<RcloneProcessEvent> = Vec::new();
        let mut i: usize = 0;
        assert(event_views(events@) =~= events_upto(all, 0));
        while i < n
            invariant
                i <= n <= lines.len(),
                all == lines.deep_view(),
                event_views(events@) == events_upto(all, i as nat),
            decreases n - i,
        {
            let ghost before = events@;
            match decode_line(lines[i].as_str()) {
                Some(e) => {
                    events.push(e);
                    assert(event_views(events@) =~= event_views(before).push(e@));
                },
                None => {},
            }
            i += 1;
        }
        events
    }

    /// Judges how the process ended: not yet, well, or with which failure.
    pub fn succeeded(&self, report: ExitReport) -> (r: Option<Result<(), CommandError>>)
        ensures
            report is Running <==> r is None,
            report matches ExitReport::Exited { code: Some(code), stdout, stderr } ==> (if code == 0 {
                r == Some(Ok::<(), CommandError>(()))
            } else {
                (r matches Some(Err(e)) && self.exited_with(
                    e,
                    code,
                    captured(stdout.deep_view()),
                    captured(stderr.deep_view()),
                ))
            }),
            report matches ExitReport::Exited { code: None, .. } ==> (r matches Some(Err(e))
                && self.was_terminated(e)),
            report is Unreadable ==> (r matches Some(Err(e)) && self.was_terminated(e)),
    {
        match report {
            ExitReport::Running => None,
            ExitReport::Exited { code: Some(code), stdout, stderr } => {
                if code == 0 {
                    Some(Ok(()))
                } else {
                    Some(
                        Err(
                            CommandError::Exited {
                                program: self.program.clone(),
                                args: copy_args(&self.args),
                                code,
                                stdout: join_lines(&stdout),
                                stderr: join_lines(&stderr),
                            },
                        ),
                    )
                }
            },
            ExitReport::Exited { code: None, .. } => Some(
                Err(
                    CommandError::Terminated {
                        program: self.program.clone(),
                        args: copy_args(&self.args),
                    },
                ),
            ),
            ExitReport::Unreadable => Some(
                Err(
                    CommandError::Terminated {
                        program: self.program.clone(),
                        args: copy_args(&self.args),
                    },
                ),
            ),
        }
    }
}

/// Copies a list of arguments.
pub fn copy_args(args: &Vec<String>) -> (r: Vec<String>)
    ensures
        r.deep_view() == args.deep_view(),
{
    let mut r: Vec<String> = Vec::new();
    let mut i: usize = 0;
    while i < args.len()
        invariant
            i <= args.len(),
            r.len() == i,
            forall|j: int| 0 <= j < i ==> r[j]@ == args[j]@,
        decreases args.len() - i,
    {
        r.push(args[i].clone());
        i += 1;
    }
    assert(r.deep_view() =~= args.deep_view());
    r
}

} // verus!
