use ludusavi::error::CommandError;
use ludusavi::monitor::{Event, Input, Next, Reaction, Stimulus, Supervisor};
use ludusavi::process::{CloudChange, ExitReport, RcloneProcess, RcloneProcessEvent, ScanChange};

fn s(text: &str) -> String {
    text.to_string()
}

fn process(name: &str) -> RcloneProcess {
    RcloneProcess {
        program: s(name),
        args: vec![],
    }
}

fn wait() -> Reaction {
    Reaction {
        kill: None,
        event: None,
        next: Next::Wait,
    }
}

fn launched(supervisor: &mut Supervisor, name: &str) -> u64 {
    let reaction = supervisor.step(Stimulus::Input(Input::Process(process(name))));
    assert_eq!(None, reaction.event);
    assert_eq!(Next::Wait, reaction.next);
    supervisor.current().unwrap()
}

#[test]
fn supervisor_starts_ready_and_idle() {
    let (mut supervisor, event) = Supervisor::start();
    assert_eq!(Event::Ready, event);
    assert_eq!(None, supervisor.current());
    assert_eq!(wait(), supervisor.step(Stimulus::Input(Input::Tick)));
}

#[test]
fn tick_polls_then_checks_the_exit() {
    let (mut supervisor, _) = Supervisor::start();
    let id = launched(&mut supervisor, "one");
    assert_eq!(
        Reaction {
            kill: None,
            event: None,
            next: Next::Poll { id, max_lines: 10 }
        },
        supervisor.step(Stimulus::Input(Input::Tick))
    );
    assert_eq!(
        Reaction {
            kill: None,
            event: None,
            next: Next::Check { id }
        },
        supervisor.step(Stimulus::Polled {
            id,
            lines: vec![s("noise")]
        })
    );
    assert_eq!(
        wait(),
        supervisor.step(Stimulus::Checked {
            id,
            report: ExitReport::Running
        })
    );
    assert_eq!(Some(id), supervisor.current());
}

#[test]
fn events_are_passed_on_before_the_exit_is_looked_at() {
    let (mut supervisor, _) = Supervisor::start();
    let id = launched(&mut supervisor, "one");
    supervisor.step(Stimulus::Input(Input::Tick));
    let reaction = supervisor.step(Stimulus::Polled {
        id,
        lines: vec![s(r#"{"msg":"Deleted","object":"a"}"#)],
    });
    assert_eq!(
        Reaction {
            kill: None,
            event: Some(Event::Data(vec![RcloneProcessEvent::Change(CloudChange {
                path: s("a"),
                change: ScanChange::Removed
            })])),
            next: Next::Wait
        },
        reaction
    );
    assert_eq!(Some(id), supervisor.current());
}

#[test]
fn success_and_failure_end_the_supervision() {
    let (mut supervisor, _) = Supervisor::start();
    let id = launched(&mut supervisor, "one");
    supervisor.step(Stimulus::Input(Input::Tick));
    supervisor.step(Stimulus::Polled { id, lines: vec![] });
    let reaction = supervisor.step(Stimulus::Checked {
        id,
        report: ExitReport::Exited {
            code: Some(0),
            stdout: vec![],
            stderr: vec![],
        },
    });
    assert_eq!(Some(Event::Succeeded), reaction.event);
    assert_eq!(None, supervisor.current());

    let id = launched(&mut supervisor, "two");
    supervisor.step(Stimulus::Input(Input::Tick));
    supervisor.step(Stimulus::Polled { id, lines: vec![] });
    let reaction = supervisor.step(Stimulus::Checked {
        id,
        report: ExitReport::Exited {
            code: Some(2),
            stdout: vec![],
            stderr: vec![s("bad")],
        },
    });
    assert_eq!(
        Some(Event::Failed(CommandError::Exited {
            program: s("two"),
            args: vec![],
            code: 2,
            stdout: None,
            stderr: Some(s("bad")),
        })),
        reaction.event
    );
    assert_eq!(None, supervisor.current());
    assert_eq!(wait(), supervisor.step(Stimulus::Input(Input::Tick)));
}

#[test]
fn second_process_kills_the_first_and_silences_it() {
    let (mut supervisor, _) = Supervisor::start();
    let first = launched(&mut supervisor, "one");
    supervisor.step(Stimulus::Input(Input::Tick));
    let reaction = supervisor.step(Stimulus::Input(Input::Process(process("two"))));
    assert_eq!(
        Reaction {
            kill: Some(first),
            event: None,
            next: Next::Wait
        },
        reaction
    );
    let second = supervisor.current().unwrap();
    assert_ne!(first, second);
    assert_eq!(
        wait(),
        supervisor.step(Stimulus::Polled {
            id: first,
            lines: vec![s(r#"{"msg":"Deleted","object":"a"}"#)],
        })
    );
    assert_eq!(
        wait(),
        supervisor.step(Stimulus::Checked {
            id: first,
            report: ExitReport::Exited {
                code: Some(0),
                stdout: vec![],
                stderr: vec![]
            },
        })
    );
    assert_eq!(Some(second), supervisor.current());
    assert_eq!(
        Next::Poll {
            id: second,
            max_lines: 10
        },
        supervisor.step(Stimulus::Input(Input::Tick)).next
    );
}

#[test]
fn cancel_kills_and_reports_once() {
    let (mut supervisor, _) = Supervisor::start();
    let id = launched(&mut supervisor, "one");
    assert_eq!(
        Reaction {
            kill: Some(id),
            event: Some(Event::Cancelled),
            next: Next::Wait
        },
        supervisor.step(Stimulus::Input(Input::Cancel))
    );
    assert_eq!(None, supervisor.current());
    assert_eq!(
        Reaction {
            kill: None,
            event: Some(Event::Cancelled),
            next: Next::Wait
        },
        supervisor.step(Stimulus::Input(Input::Cancel))
    );
    assert_eq!(wait(), supervisor.step(Stimulus::Polled { id, lines: vec![] }));
}

#[test]
fn results_that_were_not_asked_for_are_dropped() {
    let (mut supervisor, _) = Supervisor::start();
    let id = launched(&mut supervisor, "one");
    assert_eq!(
        wait(),
        supervisor.step(Stimulus::Polled {
            id,
            lines: vec![s(r#"{"msg":"Deleted","object":"a"}"#)],
        })
    );
    assert_eq!(
        wait(),
        supervisor.step(Stimulus::Checked {
            id,
            report: ExitReport::Unreadable
        })
    );
    assert_eq!(Some(id), supervisor.current());
}
