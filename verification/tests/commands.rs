use tiny::tui::commands::{
    dispatch, dispatch_outcome, help_text, palette_active, palette_matches, typing_command,
    CommandAction, CommandError,
};
use tiny::tui::entry::Entry;
use tiny::tui::modal::ModalOutcome;
use tiny::agent::BackendCommand;

#[test]
fn palette_active_only_when_naming_a_command() {
    assert!(palette_active("/"));
    assert!(palette_active("/n"));
    assert!(palette_active("/sessions"));
    assert!(!palette_active(""));
    assert!(!palette_active("hello"));
    assert!(!palette_active("/sessions abc")); // past the name
}

#[test]
fn palette_matches_filters_by_prefix() {
    let names = |input: &str| -> Vec<&str> {
        palette_matches(input).into_iter().map(|c| c.name).collect()
    };

    assert_eq!(names("/"), vec!["new", "sessions", "help"]);
    assert_eq!(names("/se"), vec!["sessions"]);
    assert_eq!(names("/h"), vec!["help"]);
    assert!(names("/x").is_empty());
    // Whitespace hides the palette regardless of prefix match.
    assert!(names("/help foo").is_empty());
}

#[test]
fn dispatch_rejects_unknown_command() {
    assert_eq!(
        dispatch("nope", false),
        Err(CommandError::Unknown("nope".into()))
    );
}

#[test]
fn dispatch_idle_only_command_blocked_during_turn() {
    assert_eq!(dispatch("new", true), Err(CommandError::Busy("new")));
}

#[test]
fn dispatch_rejects_args_for_no_arg_commands() {
    assert_eq!(
        dispatch("new extra", false),
        Err(CommandError::UnexpectedArgs("new"))
    );
}

#[test]
fn dispatch_returns_command_action() {
    assert_eq!(dispatch("new", false), Ok(CommandAction::NewSession));
    assert_eq!(dispatch("sessions", false), Ok(CommandAction::OpenSessions));
    assert_eq!(dispatch("help", true), Ok(CommandAction::ShowHelp));
}

#[test]
fn dispatch_rejects_empty_command() {
    assert_eq!(dispatch("", false), Err(CommandError::Empty));
    assert_eq!(dispatch("   ", false), Err(CommandError::Empty));
}

#[test]
fn dispatch_allows_trailing_whitespace() {
    assert_eq!(dispatch("help   ", false), Ok(CommandAction::ShowHelp));
}

#[test]
fn command_error_messages() {
    assert_eq!(CommandError::Empty.message(), "empty command");
    assert_eq!(
        CommandError::Unknown("nope".into()).message(),
        "unknown command: /nope  (try /help)"
    );
    assert_eq!(
        CommandError::Busy("new").message(),
        "/new: finish the current turn first"
    );
    assert_eq!(
        CommandError::UnexpectedArgs("new").message(),
        "/new: this command does not take arguments"
    );
}

#[test]
fn typing_command_stops_at_whitespace() {
    assert_eq!(typing_command("/se"), Some("se"));
    assert_eq!(typing_command("/"), Some(""));
    assert_eq!(typing_command("/se x"), None);
    assert_eq!(typing_command("se"), None);
}

#[test]
fn help_text_lists_every_command() {
    assert_eq!(
        help_text(),
        "Commands:\n  /new       start a new session\n  /sessions  pick a saved session to resume\n  /help      list commands\n"
    );
}

#[test]
fn dispatch_outcome_for_each_result() {
    match dispatch_outcome("new", false) {
        ModalOutcome::Emit(BackendCommand::NewSession) => {}
        _ => panic!("expected a new session"),
    }
    match dispatch_outcome("sessions", false) {
        ModalOutcome::Emit(BackendCommand::ListSessions) => {}
        _ => panic!("expected the session list"),
    }
    match dispatch_outcome("help", true) {
        ModalOutcome::Print(Entry::Assistant(text)) => assert_eq!(text, help_text()),
        _ => panic!("expected the help text"),
    }
    match dispatch_outcome("new", true) {
        ModalOutcome::Print(Entry::Error(text)) => {
            assert_eq!(text, "/new: finish the current turn first")
        }
        _ => panic!("expected an error"),
    }
}
