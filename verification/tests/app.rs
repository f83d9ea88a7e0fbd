use tiny::agent::{Decision, ToolCall};
use tiny::tui::app::{entry_height, handle_key, pending_decision, Action, App, PendingPermission};
use tiny::tui::entry::Entry;
use tiny::tui::key::{KeyCode, KeyEvent};

fn press(code: KeyCode) -> KeyEvent {
    KeyEvent { code, ctrl: false, press: true }
}

#[test]
fn typing_then_enter_submits() {
    let mut app = App::new("m".into());
    for c in "hey".chars() {
        assert!(handle_key(&mut app, press(KeyCode::Char(c))).is_none());
    }
    match handle_key(&mut app, press(KeyCode::Enter)) {
        Some(Action::Submit(text)) => assert_eq!(text, "hey"),
        _ => panic!("expected a submission"),
    }
    assert_eq!(app.input.as_str(), "");
}

#[test]
fn waiting_blocks_typing_but_not_moving() {
    let mut app = App::new("m".into());
    app.waiting = true;
    handle_key(&mut app, press(KeyCode::Char('a')));
    assert_eq!(app.input.as_str(), "");
    assert!(handle_key(&mut app, press(KeyCode::Enter)).is_none());
}

#[test]
fn control_d_quits_and_page_keys_scroll() {
    let mut app = App::new("m".into());
    assert!(matches!(
        handle_key(&mut app, KeyEvent { code: KeyCode::Char('d'), ctrl: true, press: true }),
        Some(Action::Quit)
    ));
    handle_key(&mut app, press(KeyCode::PageDown));
    handle_key(&mut app, press(KeyCode::Up));
    assert_eq!(app.scroll, 9);
    handle_key(&mut app, press(KeyCode::PageUp));
    assert_eq!(app.scroll, 0);
}

#[test]
fn pending_permission_is_answered_by_y() {
    let mut app = App::new("m".into());
    let (tx, mut rx) = tokio::sync::oneshot::channel();
    app.pending = Some(PendingPermission {
        call: ToolCall { id: "1".into(), name: "bash".into(), input: "{}".into() },
        reply: tx,
    });
    assert!(handle_key(&mut app, press(KeyCode::Char('q'))).is_none());
    assert!(app.pending.is_some());
    match handle_key(&mut app, press(KeyCode::Char('y'))) {
        Some(Action::Answer { reply, decision }) => {
            assert!(matches!(decision, Decision::Allow));
            let _ = reply.send(decision);
        }
        _ => panic!("expected an answer"),
    }
    assert!(app.pending.is_none());
    assert!(matches!(rx.try_recv(), Ok(Decision::Allow)));
}

#[test]
fn entry_heights() {
    assert_eq!(entry_height(&Entry::User("x".into())), 2);
    assert_eq!(entry_height(&Entry::Assistant("a\nb\nc".into())), 4);
    assert_eq!(entry_height(&Entry::ToolCall { name: "n".into(), args: "{}".into() }), 1);
}

#[test]
fn scroll_to_bottom_shows_the_last_entry() {
    let mut app = App::new("m".into());
    for _ in 0..5 {
        app.push_entry(Entry::User("x".into()));
    }
    assert!(app.auto_scroll);
    app.scroll_to_bottom(4);
    assert_eq!(app.scroll, 6);
    assert!(!app.auto_scroll);
}

fn pending_app() -> (App, tokio::sync::oneshot::Receiver<Decision>) {
    let mut app = App::new("m".into());
    let (tx, rx) = tokio::sync::oneshot::channel();
    app.pending = Some(PendingPermission {
        call: ToolCall { id: "1".into(), name: "bash".into(), input: "{}".into() },
        reply: tx,
    });
    (app, rx)
}

#[test]
fn pending_permission_is_denied_by_n_and_esc() {
    for code in [KeyCode::Char('n'), KeyCode::Char('N'), KeyCode::Esc] {
        let (mut app, mut rx) = pending_app();
        app.tick = 3;
        match handle_key(&mut app, press(code)) {
            Some(Action::Answer { reply, decision }) => {
                let _ = reply.send(decision);
            }
            _ => panic!("expected an answer"),
        }
        assert!(app.pending.is_none());
        assert_eq!(app.tick, 3);
        match rx.try_recv() {
            Ok(Decision::Deny(reason)) => assert_eq!(reason, "denied by user"),
            _ => panic!("expected a denial"),
        }
    }
}

#[test]
fn pending_permission_keeps_waiting_on_control_c() {
    let (mut app, mut rx) = pending_app();
    let quit = handle_key(&mut app, KeyEvent { code: KeyCode::Char('c'), ctrl: true, press: true });
    assert!(matches!(quit, Some(Action::Quit)));
    assert!(app.pending.is_some());
    assert!(rx.try_recv().is_err());
}

#[test]
fn answers_for_each_key() {
    assert!(matches!(pending_decision(press(KeyCode::Char('Y'))), Some(Decision::Allow)));
    assert!(matches!(pending_decision(press(KeyCode::Esc)), Some(Decision::Deny(r)) if r == "denied by user"));
    assert!(pending_decision(press(KeyCode::Char('x'))).is_none());
    assert!(pending_decision(press(KeyCode::Enter)).is_none());
}
