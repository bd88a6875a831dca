use rooq::daemon::{daemon_step, DaemonAction, DaemonEvent, DaemonState};

#[test]
fn space_without_preview_asks_for_the_selection() {
    let (next, action) = daemon_step(DaemonState::Idle, DaemonEvent::Toggle);
    assert_eq!(next, DaemonState::Idle);
    assert!(matches!(action, DaemonAction::QuerySelection));
}

#[test]
fn a_selected_file_is_opened() {
    let (next, action) =
        daemon_step(DaemonState::Idle, DaemonEvent::Selected(Some("C:/docs/a.pdf".to_string())));
    assert_eq!(next, DaemonState::Previewing);
    match action {
        DaemonAction::OpenPreview(p) => assert_eq!(p, "C:/docs/a.pdf"),
        other => panic!("unexpected action {:?}", other),
    }
}

#[test]
fn no_selection_means_waiting() {
    let (next, action) = daemon_step(DaemonState::Idle, DaemonEvent::Selected(None));
    assert_eq!(next, DaemonState::Idle);
    assert!(matches!(action, DaemonAction::Wait));
}

#[test]
fn space_again_closes_the_preview() {
    let (next, action) = daemon_step(DaemonState::Previewing, DaemonEvent::Toggle);
    assert_eq!(next, DaemonState::Idle);
    assert!(matches!(action, DaemonAction::ClosePreview));
}

#[test]
fn a_late_selection_while_previewing_is_ignored() {
    let (next, action) =
        daemon_step(DaemonState::Previewing, DaemonEvent::Selected(Some("b.png".to_string())));
    assert_eq!(next, DaemonState::Previewing);
    assert!(matches!(action, DaemonAction::Wait));
}

#[test]
fn open_close_open_keeps_one_window() {
    let mut state = DaemonState::Idle;
    let mut windows = 0i32;
    let events = vec![
        DaemonEvent::Toggle,
        DaemonEvent::Selected(Some("a.txt".to_string())),
        DaemonEvent::Toggle,
        DaemonEvent::Toggle,
        DaemonEvent::Selected(Some("b.txt".to_string())),
    ];
    for event in events {
        let (next, action) = daemon_step(state, event);
        state = next;
        match action {
            DaemonAction::OpenPreview(_) => windows += 1,
            DaemonAction::ClosePreview => windows -= 1,
            _ => {}
        }
        assert!((0..=1).contains(&windows));
    }
    assert_eq!(state, DaemonState::Previewing);
    assert_eq!(windows, 1);
}
