use shpool_core::switch::{
    answer_is_yes, validate_session_name, SwitchAction, SwitchCoordinator, SwitchEvent,
    SwitchIntent, SwitchOutcome, SwitchState,
};

fn intent(
    current: Option<&str>,
    target: &str,
    confirm: bool,
    force: bool,
) -> SwitchIntent {
    SwitchIntent {
        current: current.map(|s| s.to_string()),
        target: target.to_string(),
        confirm,
        force,
        ttl: None,
        cmd: None,
    }
}

/// Drives the coordinator the way a client would, recording the actions it
/// requests; detach and attach report the given results.
fn drive(
    mut coordinator: SwitchCoordinator,
    answer: &str,
    detach_ok: bool,
    attach_ok: bool,
) -> (Vec<SwitchAction>, SwitchState) {
    let mut actions = Vec::new();
    let mut action = coordinator.step(&SwitchEvent::Begin);
    loop {
        actions.push(action);
        match action {
            SwitchAction::Prompt => {
                action = coordinator.step(&SwitchEvent::Answer(answer.to_string()));
            }
            SwitchAction::Detach => {
                let event = if detach_ok { SwitchEvent::DetachOk } else { SwitchEvent::DetachErr };
                action = coordinator.step(&event);
            }
            SwitchAction::Attach => {
                let event = if attach_ok { SwitchEvent::AttachOk } else { SwitchEvent::AttachErr };
                action = coordinator.step(&event);
            }
            SwitchAction::Done => break,
        }
    }
    (actions, coordinator.state)
}

#[test]
fn test_switch_fresh_attach() {
    // current absent: attach directly, never detach.
    let c = SwitchCoordinator::new(intent(None, "foo", false, false));
    let (actions, state) = drive(c, "", true, true);
    assert_eq!(actions, vec![SwitchAction::Attach, SwitchAction::Done]);
    assert_eq!(state, SwitchState::Finished(SwitchOutcome::Attached));
}

#[test]
fn test_switch_already_in_session() {
    let c = SwitchCoordinator::new(intent(Some("foo"), "foo", false, false));
    let (actions, state) = drive(c, "", true, true);
    assert_eq!(actions, vec![SwitchAction::Done]);
    assert_eq!(state, SwitchState::Finished(SwitchOutcome::AlreadyInSession));
}

#[test]
fn test_switch_confirmation_declined() {
    // confirm requested, user answers "n": nothing contacted.
    let c = SwitchCoordinator::new(intent(Some("foo"), "bar", true, false));
    let (actions, state) = drive(c, "n", true, true);
    assert_eq!(actions, vec![SwitchAction::Prompt, SwitchAction::Done]);
    assert_eq!(state, SwitchState::Finished(SwitchOutcome::Cancelled));
}

#[test]
fn test_switch_detach_then_attach_in_order() {
    let c = SwitchCoordinator::new(intent(Some("foo"), "bar", false, false));
    let (actions, state) = drive(c, "", true, true);
    assert_eq!(
        actions,
        vec![SwitchAction::Detach, SwitchAction::Attach, SwitchAction::Done]
    );
    assert_eq!(state, SwitchState::Finished(SwitchOutcome::Attached));
}

#[test]
fn test_switch_confirmed_then_detach_then_attach() {
    let c = SwitchCoordinator::new(intent(Some("foo"), "bar", true, false));
    let (actions, state) = drive(c, "yes", true, true);
    assert_eq!(
        actions,
        vec![
            SwitchAction::Prompt,
            SwitchAction::Detach,
            SwitchAction::Attach,
            SwitchAction::Done
        ]
    );
    assert_eq!(state, SwitchState::Finished(SwitchOutcome::Attached));
}

#[test]
fn test_switch_detach_failure_stops_run() {
    // Detach fails: attach is never attempted.
    let c = SwitchCoordinator::new(intent(Some("foo"), "bar", false, false));
    let (actions, state) = drive(c, "", false, true);
    assert_eq!(actions, vec![SwitchAction::Detach, SwitchAction::Done]);
    assert_eq!(state, SwitchState::Finished(SwitchOutcome::DetachFailed));
}

#[test]
fn test_switch_attach_failure_is_terminal() {
    let c = SwitchCoordinator::new(intent(Some("foo"), "bar", false, false));
    let (actions, state) = drive(c, "", true, false);
    assert_eq!(actions, vec![SwitchAction::Detach, SwitchAction::Attach, SwitchAction::Done]);
    assert_eq!(state, SwitchState::Finished(SwitchOutcome::AttachFailed));
}

#[test]
fn test_switch_rejects_bad_names_before_any_call() {
    // Empty or whitespace-bearing targets are rejected up front, for every
    // combination of current session, confirmation and force.
    for target in ["", " ", "a b", "ab\t", "\nab", "a b c", "a\u{a0}b", "\u{2003}"] {
        for current in [None, Some("foo"), Some(target)] {
            for confirm in [false, true] {
                for force in [false, true] {
                    let c = SwitchCoordinator::new(intent(current, target, confirm, force));
                    let (actions, state) = drive(c, "y", true, true);
                    assert_eq!(actions, vec![SwitchAction::Done]);
                    assert_eq!(state, SwitchState::Finished(SwitchOutcome::InvalidName));
                }
            }
        }
    }
}

#[test]
fn test_validate_session_name() {
    assert!(validate_session_name("foo"));
    assert!(validate_session_name("foo-bar_2"));
    assert!(!validate_session_name(""));
    assert!(!validate_session_name("foo bar"));
    assert!(!validate_session_name(" foo"));
    assert!(!validate_session_name("foo\t"));
    // Unicode whitespace counts as whitespace too.
    assert!(!validate_session_name("foo\u{a0}bar"));
    assert!(!validate_session_name("foo\u{2028}"));
}

#[test]
fn test_answer_is_yes() {
    assert!(answer_is_yes("y"));
    assert!(answer_is_yes("Y"));
    assert!(answer_is_yes("yes"));
    assert!(answer_is_yes("YES"));
    assert!(answer_is_yes("Yes"));
    assert!(answer_is_yes("  y  "));
    assert!(answer_is_yes("yes\n"));
    assert!(answer_is_yes("y\u{a0}"));
    assert!(!answer_is_yes(""));
    assert!(!answer_is_yes("n"));
    assert!(!answer_is_yes("no"));
    assert!(!answer_is_yes("yess"));
    assert!(!answer_is_yes("oui"));
}

#[test]
fn test_unexpected_event_changes_nothing() {
    let mut c = SwitchCoordinator::new(intent(Some("foo"), "bar", false, false));
    // A detach result before the run begins is not an expected event.
    let action = c.step(&SwitchEvent::DetachOk);
    assert_eq!(action, SwitchAction::Done);
    assert_eq!(c.state, SwitchState::Start);
}
