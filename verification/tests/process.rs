use ludusavi::error::CommandError;
use ludusavi::process::{
    classify, decode_line, event, CloudChange, ExitReport, LogEntry, RcloneProcess,
    RcloneProcessEvent, ScanChange, LINES_PER_POLL,
};
use ludusavi::tree::{Node, Numeral};

fn s(text: &str) -> String {
    text.to_string()
}

fn process() -> RcloneProcess {
    RcloneProcess {
        program: s("rclone"),
        args: vec![s("sync"), s("a"), s("b")],
    }
}

fn change(path: &str, change: ScanChange) -> RcloneProcessEvent {
    RcloneProcessEvent::Change(CloudChange { path: s(path), change })
}

fn as_f32(n: Numeral) -> f32 {
    match n {
        Numeral::Unsigned(x) => x as f32,
        Numeral::Negative(x) => x as f32,
        Numeral::Real(bits) => f64::from_bits(bits) as f32,
    }
}

#[test]
fn log_lines_become_events_in_order() {
    let lines = vec![
        s(r#"{"msg":"Copied (new)","object":"a.sav"}"#),
        s(r#"{"skipped":"delete","object":"b.sav"}"#),
        s(r#"{"stats":{"bytes":50,"totalBytes":100}}"#),
    ];
    assert_eq!(
        vec![
            change("a.sav", ScanChange::New),
            change("b.sav", ScanChange::Removed),
            RcloneProcessEvent::Progress {
                current: Numeral::Unsigned(50),
                max: Numeral::Unsigned(100)
            },
        ],
        process().events(&lines)
    );
}

#[test]
fn progress_numbers_keep_their_value() {
    match decode_line(r#"{"stats":{"bytes":1.5,"totalBytes":-3}}"#) {
        Some(RcloneProcessEvent::Progress { current, max }) => {
            assert_eq!(1.5f32, as_f32(current));
            assert_eq!(-3.0f32, as_f32(max));
            assert_eq!(Numeral::Negative(-3), max);
            assert_eq!(Numeral::Real(1.5f64.to_bits()), current);
        }
        other => panic!("{:?}", other),
    }
}

#[test]
fn every_kind_of_notice() {
    assert_eq!(
        Some(change("x", ScanChange::Different)),
        decode_line(r#"{"skipped":"copy","object":"x"}"#)
    );
    assert_eq!(
        Some(change("x", ScanChange::Removed)),
        decode_line(r#"{"skipped":"delete","object":"x"}"#)
    );
    assert_eq!(None, decode_line(r#"{"skipped":"move","object":"x"}"#));
    assert_eq!(
        Some(change("x", ScanChange::New)),
        decode_line(r#"{"msg":"Copied (new)","object":"x"}"#)
    );
    assert_eq!(
        Some(change("x", ScanChange::Different)),
        decode_line(r#"{"msg":"Copied (replaced existing)","object":"x"}"#)
    );
    assert_eq!(
        Some(change("x", ScanChange::Removed)),
        decode_line(r#"{"msg":"Deleted","object":"x"}"#)
    );
    assert_eq!(None, decode_line(r#"{"msg":"deleted","object":"x"}"#));
}

#[test]
fn unrecognized_lines_are_skipped() {
    let lines = vec![
        s("not json at all"),
        s(""),
        s(r#"{"level":"info"}"#),
        s(r#"{"skipped":"copy"}"#),
        s(r#"{"skipped":5,"object":"a"}"#),
        s(r#"["copy","a"]"#),
        s(r#"{"stats":{"bytes":1}}"#),
        s(r#"{"stats":{"bytes":"1","totalBytes":2}}"#),
        s(r#"{"msg":"Deleted","object":"kept","extra":true}"#),
    ];
    assert_eq!(
        vec![change("kept", ScanChange::Removed)],
        process().events(&lines)
    );
}

#[test]
fn skip_is_tried_before_change_and_stats() {
    assert_eq!(
        LogEntry::Skip {
            skipped: s("copy"),
            object: s("a")
        },
        classify(&Node::from_json(r#"{"msg":"Deleted","skipped":"copy","object":"a","stats":{"bytes":1,"totalBytes":2}}"#).unwrap())
    );
    assert_eq!(
        LogEntry::Change {
            msg: s("Deleted"),
            object: s("a")
        },
        classify(&Node::from_json(r#"{"msg":"Deleted","skipped":1,"object":"a"}"#).unwrap())
    );
    assert_eq!(
        LogEntry::Stats {
            bytes: Numeral::Unsigned(1),
            total_bytes: Numeral::Unsigned(2)
        },
        classify(&Node::from_json(r#"{"msg":"Deleted","stats":{"bytes":1,"totalBytes":2}}"#).unwrap())
    );
    assert_eq!(LogEntry::Unrecognized, classify(&Node::Null));
    assert_eq!(None, event(LogEntry::Unrecognized));
    assert_eq!(
        None,
        event(LogEntry::Skip {
            skipped: s("other"),
            object: s("a")
        })
    );
}

#[test]
fn a_poll_takes_at_most_ten_lines() {
    assert_eq!(10, LINES_PER_POLL);
    let lines: Vec<String> = (0..12)
        .map(|i| format!(r#"{{"msg":"Deleted","object":"{}"}}"#, i))
        .collect();
    let events = process().events(&lines);
    assert_eq!(10, events.len());
    assert_eq!(change("0", ScanChange::Removed), events[0]);
    assert_eq!(change("9", ScanChange::Removed), events[9]);
    assert!(process().events(&vec![]).is_empty());
}

#[test]
fn exit_code_zero_is_success() {
    assert_eq!(
        Some(Ok(())),
        process().succeeded(ExitReport::Exited {
            code: Some(0),
            stdout: vec![s("ignored")],
            stderr: vec![],
        })
    );
}

#[test]
fn exit_code_two_is_a_failure_with_output() {
    assert_eq!(
        Some(Err(CommandError::Exited {
            program: s("rclone"),
            args: vec![s("sync"), s("a"), s("b")],
            code: 2,
            stdout: Some(s("one\ntwo")),
            stderr: Some(s("oops")),
        })),
        process().succeeded(ExitReport::Exited {
            code: Some(2),
            stdout: vec![s("one"), s("two")],
            stderr: vec![s("oops")],
        })
    );
    assert_eq!(
        Some(Err(CommandError::Exited {
            program: s("rclone"),
            args: vec![s("sync"), s("a"), s("b")],
            code: -1,
            stdout: None,
            stderr: None,
        })),
        process().succeeded(ExitReport::Exited {
            code: Some(-1),
            stdout: vec![],
            stderr: vec![],
        })
    );
}

#[test]
fn killed_process_is_terminated() {
    let terminated = Some(Err(CommandError::Terminated {
        program: s("rclone"),
        args: vec![s("sync"), s("a"), s("b")],
    }));
    assert_eq!(
        terminated,
        process().succeeded(ExitReport::Exited {
            code: None,
            stdout: vec![s("x")],
            stderr: vec![],
        })
    );
    assert_eq!(terminated, process().succeeded(ExitReport::Unreadable));
}

#[test]
fn running_process_has_no_result() {
    assert_eq!(None, process().succeeded(ExitReport::Running));
}

#[test]
fn launch_failure_keeps_the_command_line() {
    assert_eq!(
        Ok(process()),
        RcloneProcess::launch(s("rclone"), vec![s("sync"), s("a"), s("b")], Ok(()))
    );
    assert_eq!(
        Err(CommandError::Launched {
            program: s("rclone"),
            args: vec![s("sync")],
            raw: s("No such file or directory (os error 2)"),
        }),
        RcloneProcess::launch(
            s("rclone"),
            vec![s("sync")],
            Err(s("No such file or directory (os error 2)"))
        )
    );
}

#[test]
fn json_documents_become_trees() {
    assert_eq!(None, Node::from_json("{"));
    assert_eq!(Some(Node::Null), Node::from_json("null"));
    assert_eq!(
        Some(Node::List(vec![
            Node::Bool(true),
            Node::Numeral(Numeral::Unsigned(18446744073709551615)),
            Node::Numeral(Numeral::Negative(-1)),
            Node::Numeral(Numeral::Real(0.5f64.to_bits())),
            Node::Text(s("x")),
            Node::Mapping(vec![(Node::Text(s("k")), Node::Null)]),
        ])),
        Node::from_json(r#"[true, 18446744073709551615, -1, 0.5, "x", {"k": null}]"#)
    );
}
