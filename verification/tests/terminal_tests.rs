use soulless::terminal::{failure_line, output_lines, Line, TerminalAction, TerminalBox, TerminalMessage, MAX_LINES};

fn text_of(l: &Line) -> (&'static str, String) {
    match l {
        Line::Cmd(s) => ("cmd", s.clone()),
        Line::Out(s) => ("out", s.clone()),
        Line::Stderr(s) => ("err", s.clone()),
        Line::Note(s) => ("note", s.clone()),
    }
}

#[test]
fn submit_runs_and_result_lands() {
    let mut t = TerminalBox::new();
    t.update(TerminalMessage::InputChanged("  echo hi  ".to_string()));
    let a = t.update(TerminalMessage::Submit);
    let g = match a {
        TerminalAction::Run(cmd, g) => {
            assert_eq!(cmd, "echo hi");
            g
        }
        other => panic!("unexpected {:?}", other),
    };
    assert_eq!(g, 1);
    assert!(t.is_running());
    assert_eq!(t.input, "");
    // A second submit while running does nothing.
    t.update(TerminalMessage::InputChanged("ls".to_string()));
    assert!(matches!(t.update(TerminalMessage::Submit), TerminalAction::Nothing));
    let a = t.update(TerminalMessage::Finished(g, vec![Line::Out("hi".to_string())]));
    assert!(matches!(a, TerminalAction::SnapToBottom));
    assert!(!t.is_running());
    let lines: Vec<_> = t.scrollback().iter().map(text_of).collect();
    assert_eq!(lines, vec![("cmd", "echo hi".to_string()), ("out", "hi".to_string())]);
}

#[test]
fn reset_discards_inflight_results() {
    let mut t = TerminalBox::new();
    t.update(TerminalMessage::InputChanged("sleep 5".to_string()));
    let g = match t.update(TerminalMessage::Submit) {
        TerminalAction::Run(_, g) => g,
        _ => panic!(),
    };
    t.reset();
    assert_eq!(t.generation(), g + 1);
    let a = t.update(TerminalMessage::Finished(g, vec![Line::Out("late".to_string())]));
    assert!(matches!(a, TerminalAction::Nothing));
    assert!(t.scrollback().is_empty());
}

#[test]
fn clear_wipes_without_running() {
    let mut t = TerminalBox::new();
    t.update(TerminalMessage::InputChanged("true".to_string()));
    let g = match t.update(TerminalMessage::Submit) {
        TerminalAction::Run(_, g) => g,
        _ => panic!(),
    };
    t.update(TerminalMessage::Finished(g, vec![]));
    t.update(TerminalMessage::InputChanged("clear".to_string()));
    assert!(matches!(t.update(TerminalMessage::Submit), TerminalAction::Nothing));
    assert!(t.scrollback().is_empty());
    assert_eq!(t.generation(), g);
    t.update(TerminalMessage::InputChanged("   ".to_string()));
    assert!(matches!(t.update(TerminalMessage::Submit), TerminalAction::Nothing));
}

#[test]
fn scrollback_keeps_last_max_lines() {
    let mut t = TerminalBox::new();
    t.update(TerminalMessage::InputChanged("seq".to_string()));
    let g = match t.update(TerminalMessage::Submit) {
        TerminalAction::Run(_, g) => g,
        _ => panic!(),
    };
    let lines: Vec<Line> = (0..500).map(|i| Line::Out(i.to_string())).collect();
    t.update(TerminalMessage::Finished(g, lines));
    assert_eq!(t.scrollback().len(), MAX_LINES);
    assert_eq!(text_of(&t.scrollback()[0]).1, "100");
    assert_eq!(text_of(&t.scrollback()[MAX_LINES - 1]).1, "499");
}

#[test]
fn output_lines_order_and_notes() {
    let v: Vec<_> = output_lines(b"a\nb\n", b"oops\r\n", Some(2)).iter().map(text_of).collect();
    assert_eq!(
        v,
        vec![
            ("out", "a".to_string()),
            ("out", "b".to_string()),
            ("err", "oops".to_string()),
            ("note", "(exit 2)".to_string()),
        ]
    );
    let v: Vec<_> = output_lines(b"", b"", Some(124)).iter().map(text_of).collect();
    assert_eq!(v, vec![("note", "(timed out after 30s)".to_string())]);
    assert!(output_lines(b"", b"", Some(0)).is_empty());
    assert!(output_lines(b"", b"", None).is_empty());
    let v: Vec<_> = output_lines(b"", b"", Some(-3)).iter().map(text_of).collect();
    assert_eq!(v, vec![("note", "(exit -3)".to_string())]);
    assert_eq!(text_of(&failure_line("failed to spawn", "no such file")).1, "(failed to spawn: no such file)");
}
