//! The supervisor of a synchronisation: a state machine that is told what
//! came in and answers with what to do next.
//!
//! The caller owns the processes and the channels. It hands the supervisor
//! each command and each tick of its timer, does what the answer asks for
//! (kill a process, read its log, look at its exit status), and hands the
//! result back. The supervisor holds at most one process at a time and gives
//! each a number of its own, so that what is reported of a process that has
//! been replaced is told apart and dropped.

use vstd::prelude::*;
use crate::error::CommandError;
use crate::process::{
    event_views,
    poll_events,
    ExitReport,
    RcloneProcess,
    RcloneProcessEvent,
    LINES_PER_POLL,
};

verus! {

/// A command to the supervisor.
#[derive(Clone, Debug, PartialEq, Eq)]
pub enum Input {
    /// Supervise this process from now on, in place of any other.
    Process(RcloneProcess),
    /// Time has passed: look at the process.
    Tick,
    /// Give the process up.
    Cancel,
}

/// What the supervisor lets its listeners know.
#[derive(Clone, Debug, PartialEq, Eq)]
pub enum Event {
    /// The supervisor takes commands.
    Ready,
    /// The process has reported these events, in this order.
    Data(Vec<RcloneProcessEvent>),
    Succeeded,
    Failed(CommandError),
    Cancelled,
}

/// What came in: a command, or the result of what the supervisor asked for.
#[derive(Clone, Debug, PartialEq, Eq)]
pub enum Stimulus {
    Input(Input),
    /// The lines read from the log of process `id`.
    Polled { id: u64, lines: Vec<String> },
    /// What was found of the exit status of process `id`.
    Checked { id: u64, report: ExitReport },
}

/// What the caller does after the answer's `kill` and `event`.
#[derive(Clone, Copy, Debug, PartialEq, Eq, Structural)]
pub enum Next {
    /// Wait for the next command or tick.
    Wait,
    /// Read at most `max_lines` lines that process `id` has written to its
    /// log, without waiting for more, and hand them in as `Polled`.
    Poll { id: u64, max_lines: usize },
    /// Look, without waiting, whether process `id` has ended, and hand what
    /// was found in as `Checked`.
    Check { id: u64 },
}

/// The supervisor's answer. The caller first kills process `kill`, if one
/// is named, then passes `event` on, if there is one, then does `next`.
#[derive(Clone, Debug, PartialEq, Eq)]
pub struct Reaction {
    pub kill: Option<u64>,
    pub event: Option<Event>,
    pub next: Next,
}

/// What the supervisor is waiting for.
#[derive(Clone, Copy, Debug, PartialEq, Eq, Structural)]
pub enum Awaiting {
    Input,
    Lines,
    Exit,
}

/// The state of the supervisor.
#[derive(Debug)]
pub struct Supervisor {
    process: Option<RcloneProcess>,
    id: u64,
    awaiting: Awaiting,
}

/// The number after `id`; after the last one comes the first again.
pub open spec fn next_id(id: u64) -> u64 {
    if id == u64::MAX {
        0
    } else {
        (id + 1) as u64
    }
}

impl Supervisor {
    /// The process under supervision.
    pub closed spec fn process(&self) -> Option<RcloneProcess> {
        self.process
    }

    /// The number of the process under supervision, or of the last one.
    pub closed spec fn id(&self) -> u64 {
        self.id
    }

    /// What the supervisor is waiting for.
    pub closed spec fn awaiting(&self) -> Awaiting {
        self.awaiting
    }

    /// The number of the process under supervision, where there is one.
    pub open spec fn running(&self) -> Option<u64> {
        if self.process() is Some {
            Some(self.id())
        } else {
            None
        }
    }

    /// Whether a result that carries the number `id` is the one that the
    /// supervisor is waiting for.
    pub open spec fn expects(&self, id: u64, what: Awaiting) -> bool {
        self.process() is Some && self.id() == id && self.awaiting() == what
    }

    /// Whether the supervisor, in state `self`, answers `stimulus` with
    /// `reaction` and goes on in state `post`.
    pub open spec fn steps(&self, stimulus: Stimulus, post: Supervisor, reaction: Reaction) -> bool {
        match stimulus {
            Stimulus::Input(Input::Process(new)) => {
                &&& reaction.kill == self.running()
                &&& reaction.event is None
                &&& reaction.next == Next::Wait
                &&& post.process() == Some(new)
                &&& post.id() == next_id(self.id())
                &&& post.awaiting() == Awaiting::Input
            },
            Stimulus::Input(Input::Tick) => {
                &&& reaction.kill is None
                &&& reaction.event is None
                &&& post.process() == self.process()
                &&& post.id() == self.id()
                &&& if self.process() is Some {
                    &&& reaction.next == Next::Poll { id: self.id(), max_lines: LINES_PER_POLL }
                    &&& post.awaiting() == Awaiting::Lines
                } else {
                    &&& reaction.next == Next::Wait
                    &&& post.awaiting() == Awaiting::Input
                }
            },
            Stimulus::Input(Input::Cancel) => {
                &&& reaction.kill == self.running()
                &&& reaction.event == Some(Event::Cancelled)
                &&& reaction.next == Next::Wait
                &&& post.process() is None
                &&& post.id() == self.id()
                &&& post.awaiting() == Awaiting::Input
            },
            Stimulus::Polled { id, lines } => {
                &&& reaction.kill is None
                &&& post.process() == self.process()
                &&& post.id() == self.id()
                &&& if !self.expects(id, Awaiting::Lines) {
                    &&& reaction.event is None
                    &&& reaction.next == Next::Wait
                    &&& post.awaiting() == self.awaiting()
                } else if poll_events(lines.deep_view()).len() > 0 {
                    &&& reaction.event matches Some(Event::Data(events))
                    &&& event_views(events@) == poll_events(lines.deep_view())
                    &&& reaction.next == Next::Wait
                    &&& post.awaiting() == Awaiting::Input
                } else {
                    &&& reaction.event is None
                    &&& reaction.next == Next::Check { id }
                    &&& post.awaiting() == Awaiting::Exit
                }
            },
            Stimulus::Checked { id, report } => {
                &&& reaction.kill is None
                &&& reaction.next == Next::Wait
                &&& post.id() == self.id()
                &&& if !self.expects(id, Awaiting::Exit) {
                    &&& reaction.event is None
                    &&& post.process() == self.process()
                    &&& post.awaiting() == self.awaiting()
                } else {
                    &&& post.awaiting() == Awaiting::Input
                    &&& match report {
                        ExitReport::Running => {
                            &&& reaction.event is None
                            &&& post.process() == self.process()
                        },
                        ExitReport::Exited { code: Some(code), stdout, stderr } => {
                            &&& post.process() is None
                            &&& if code == 0 {
                                reaction.event == Some(Event::Succeeded)
                            } else {
                                &&& reaction.event matches Some(Event::Failed(e))
                                &&& self.process()->0.exited_with(
                                    e,
                                    code,
                                    crate::process::captured(stdout.deep_view()),
                                    crate::process::captured(stderr.deep_view()),
                                )
                            }
                        },
                        _ => {
                            &&& post.process() is None
                            &&& reaction.event matches Some(Event::Failed(e))
                            &&& self.process()->0.was_terminated(e)
                        },
                    }
                }
            },
        }
    }

    /// A supervisor without a process, and the event that announces it.
    pub fn start() -> (r: (Supervisor, Event))
        ensures
            r.0.process() is None,
            r.0.awaiting() == Awaiting::Input,
            r.1 == Event::Ready,
    {
        (Supervisor { process: None, id: 0, awaiting: Awaiting::Input }, Event::Ready)
    }

    /// The number of the process under supervision, where there is one.
    pub fn current(&self) -> (r: Option<u64>)
        ensures
            r == self.running(),
    {
        if self.process.is_some() {
            Some(self.id)
        } else {
            None
        }
    }

    fn awaits(&self, id: u64, what: Awaiting) -> (r: bool)
        ensures
            r == self.expects(id, what),
    {
        self.process.is_some() && self.id == id && self.awaiting == what
    }

    /// Takes in what came in and answers with what to do.
    pub fn step(&mut self, stimulus: Stimulus) -> (reaction: Reaction)
        ensures
            old(self).steps(stimulus, *final(self), reaction),
    {
        match stimulus {
            Stimulus::Input(Input::Process(new)) => {
                let kill = self.current();
                self.process = Some(new);
                self.id = if self.id == u64::MAX {
                    0
                } else {
                    self.id + 1
                };
                self.awaiting = Awaiting::Input;
                Reaction { kill, event: None, next: Next::Wait }
            },
            Stimulus::Input(Input::Tick) => {
                if self.process.is_some() {
                    self.awaiting = Awaiting::Lines;
                    Reaction {
                        kill: None,
                        event: None,
                        next: Next::Poll { id: self.id, max_lines: LINES_PER_POLL },
                    }
                } else {
                    self.awaiting = Awaiting::Input;
                    Reaction { kill: None, event: None, next: Next::Wait }
                }
            },
            Stimulus::Input(Input::Cancel) => {
                let kill = self.current();
                self.process = None;
                self.awaiting = Awaiting::Input;
                Reaction { kill, event: Some(Event::Cancelled), next: Next::Wait }
            },
            Stimulus::Polled { id, lines } => {
                if !self.awaits(id, Awaiting::Lines) {
                    return Reaction { kill: None, event: None, next: Next::Wait };
                }
                let events = match &self.process {
                    Some(process) => process.events(&lines),
                    None => Vec::new(),
                };
                if events.len() > 0 {
                    self.awaiting = Awaiting::Input;
                    Reaction { kill: None, event: Some(Event::Data(events)), next: Next::Wait }
                } else {
                    self.awaiting = Awaiting::Exit;
                    Reaction { kill: None, event: None, next: Next::Check { id } }
                }
            },
            Stimulus::Checked { id, report } => {
                if !self.awaits(id, Awaiting::Exit) {
                    return Reaction { kill: None, event: None, next: Next::Wait };
                }
                let outcome = match &self.process {
                    Some(process) => process.succeeded(report),
                    None => None,
                };
                self.awaiting = Awaiting::Input;
                match outcome {
                    None => Reaction { kill: None, event: None, next: Next::Wait },
                    Some(Ok(())) => {
                        self.process = None;
                        Reaction { kill: None, event: Some(Event::Succeeded), next: Next::Wait }
                    },
                    Some(Err(e)) => {
                        self.process = None;
                        Reaction { kill: None, event: Some(Event::Failed(e)), next: Next::Wait }
                    },
                }
            },
        }
    }
}

impl Stimulus {
    /// The process that a result reports on; none for a command.
    pub open spec fn reports_on(self) -> Option<u64> {
        match self {
            Stimulus::Input(_) => None,
            Stimulus::Polled { id, .. } => Some(id),
            Stimulus::Checked { id, .. } => Some(id),
        }
    }
}

/// When a process is handed in while another is under supervision, the
/// answer names the other to be killed, and the new one has another number.
/// What is then reported of the old one changes nothing, reaches no
/// listener and asks for nothing more.
pub proof fn lemma_replaced_process_is_silent(
    pre: Supervisor,
    new: RcloneProcess,
    mid: Supervisor,
    first: Reaction,
    late: Stimulus,
    post: Supervisor,
    second: Reaction,
)
    requires
        pre.running() is Some,
        pre.steps(Stimulus::Input(Input::Process(new)), mid, first),
        late.reports_on() == pre.running(),
        mid.steps(late, post, second),
    ensures
        first.kill == pre.running(),
        first.event is None,
        mid.process() == Some(new),
        mid.running() != pre.running(),
        second.kill is None,
        second.event is None,
        second.next == Next::Wait,
        post.process() == mid.process(),
        post.id() == mid.id(),
        post.awaiting() == mid.awaiting(),
{
}

/// The end of a process is only told after a poll of its log that brought
/// no event: success and failure answer nothing but a look at the exit
/// status, which the supervisor asks for only then.
pub proof fn lemma_end_follows_empty_poll(
    pre: Supervisor,
    stimulus: Stimulus,
    post: Supervisor,
    reaction: Reaction,
)
    requires
        pre.steps(stimulus, post, reaction),
    ensures
        reaction.event matches Some(Event::Succeeded) ==> stimulus is Checked && pre.awaiting()
            == Awaiting::Exit && post.process() is None,
        reaction.event matches Some(Event::Failed(_)) ==> stimulus is Checked && pre.awaiting()
            == Awaiting::Exit && post.process() is None,
        reaction.next is Check ==> (stimulus matches Stimulus::Polled { lines, .. }
            && poll_events(lines.deep_view()).len() == 0 && post.awaiting() == Awaiting::Exit),
        post.awaiting() == Awaiting::Exit && pre.awaiting() != Awaiting::Exit ==> reaction.next
            is Check,
{
}

/// The supervisor holds a process only between the command that hands it
/// in and the first of: the command that replaces it, a cancellation, its
/// end.
pub proof fn lemma_at_most_one_process(
    pre: Supervisor,
    stimulus: Stimulus,
    post: Supervisor,
    reaction: Reaction,
)
    requires
        pre.steps(stimulus, post, reaction),
    ensures
        reaction.kill is Some ==> reaction.kill == pre.running() && post.running()
            != pre.running(),
        post.running() is Some && post.running() != pre.running() ==> stimulus matches Stimulus::Input(
            Input::Process(_),
        ),
        pre.running() is Some && post.running() != pre.running() ==> reaction.kill
            == pre.running() || reaction.event matches Some(Event::Succeeded)
            || reaction.event matches Some(Event::Failed(_)),
{
}

} // verus!
