use std::collections::VecDeque;

use risdb::deploy::app::{
    first_message, render_logs_frame, InProgressState, InstallState, LocalAppMessage, LocalAppState,
    LocalAppStateKind, NoBacktraceError, RecentLogs, StartInstallMessage,
};
use risdb::deploy::install::{
    install_started, InstallMessage, ReadOutcome, Reinstall, ReinstallAction,
};

fn lines(count: usize) -> Vec<String> {
    (0..count).map(|i| format!("{}\n", i)).collect()
}

fn installing(complete: bool, end_line: Option<usize>, count: usize) -> LocalAppState {
    let mut state = LocalAppState::new(3);
    state.kind =
        LocalAppStateKind::Install(InstallState { complete, end_line, lines: lines(count) });
    state
}

fn install(state: &LocalAppState) -> &InstallState {
    match &state.kind {
        LocalAppStateKind::Install(install) => install,
        other => panic!("unexpected kind: {:?}", other),
    }
}

fn press(state: &mut LocalAppState, key: char) -> Option<LocalAppMessage<u8>> {
    state.handle_key_event(key).unwrap()
}

#[test]
fn the_first_message_depends_on_the_path() {
    assert!(matches!(
        first_message(Some(4u8)),
        LocalAppMessage::StartInstall(StartInstallMessage { path: 4 })
    ));
    assert!(matches!(first_message::<u8>(None), LocalAppMessage::StartServers));
}

#[test]
fn q_ends_the_application() {
    let mut state = LocalAppState::new(3);
    assert!(press(&mut state, 'q').is_none());
    assert!(state.exit);
    assert!(state.cancelled);
}

#[test]
fn keys_scroll_the_installation() {
    let mut state = installing(false, None, 5);
    press(&mut state, 'k');
    assert_eq!(install(&state).end_line, Some(5));
    press(&mut state, 'k');
    assert_eq!(install(&state).end_line, Some(4));
    press(&mut state, 'j');
    assert_eq!(install(&state).end_line, Some(5));
    let mut state = installing(false, None, 5);
    press(&mut state, 'j');
    assert_eq!(install(&state).end_line, Some(5));
    let mut state = installing(false, Some(0), 5);
    press(&mut state, 'k');
    press(&mut state, 'j');
    assert_eq!(install(&state).end_line, Some(0));
    let mut state = LocalAppState::new(3);
    press(&mut state, 'k');
    press(&mut state, 'j');
    assert!(matches!(state.kind, LocalAppStateKind::Start));
}

#[test]
fn the_user_decides_behind_an_installation() {
    let mut running = installing(false, None, 1);
    assert!(press(&mut running, 'y').is_none());
    assert!(press(&mut running, 'n').is_none());
    assert!(press(&mut running, 'x').is_none());
    let mut over = installing(true, None, 1);
    assert!(matches!(press(&mut over, 'y'), Some(LocalAppMessage::StartServers)));
    let error = over.handle_key_event::<u8>('n').unwrap_err();
    assert_eq!(error.msg, "user requested to stop");
    assert_eq!(error.show(), "user requested to stop");
    assert_eq!(NoBacktraceError::msg("a".to_owned()).msg, "a");
}

#[test]
fn messages_drive_the_installation() {
    let mut state = LocalAppState::new(3);
    let install_lines =
        |count| LocalAppMessage::<u8>::Install(InstallMessage { lines: lines(count) });
    assert_eq!(
        state.handle_message(install_lines(1)).unwrap_err(),
        "install did not complete properly"
    );
    assert_eq!(
        state.handle_message(LocalAppMessage::<u8>::InstallComplete).unwrap_err(),
        "install did not complete properly"
    );
    let start = || LocalAppMessage::StartInstall(StartInstallMessage { path: 8u8 });
    assert_eq!(state.handle_message(start()).unwrap(), Some(8));
    assert_eq!(
        state.handle_message(start()).unwrap_err(),
        "local deploy did not initialize properly"
    );
    assert_eq!(state.handle_message(install_lines(2)).unwrap(), None);
    assert_eq!(state.handle_message(install_lines(1)).unwrap(), None);
    assert_eq!(install(&state).lines.len(), 3);
    assert!(!install(&state).complete);
    assert_eq!(state.handle_message(LocalAppMessage::<u8>::InstallComplete).unwrap(), None);
    assert!(install(&state).complete);
}

#[test]
fn windows_show_what_fits() {
    let shown = |end_line, count: usize, height: usize| {
        let state = InstallState { complete: false, end_line, lines: lines(count) };
        assert!(state.check_show(height));
        state.render_install_frame(height)
    };
    assert_eq!(shown(None, 5, 2), "3\n4\n");
    assert_eq!(shown(None, 2, 5), "0\n1\n");
    assert_eq!(shown(Some(4), 5, 2), "2\n3\n");
    assert_eq!(shown(Some(1), 5, 2), "0\n");
    assert_eq!(shown(Some(6), 5, 2), "4\n");
    assert_eq!(shown(Some(7), 5, 2), "");
    assert_eq!(shown(Some(0), 5, 2), "");
    let past = InstallState { complete: false, end_line: Some(8), lines: lines(5) };
    assert!(!past.check_show(2));
}

#[test]
fn lines_are_handed_on_in_full_batches() {
    let mut reinstall = Reinstall::new();
    let mut sent: Vec<Vec<String>> = Vec::new();
    for line in lines(25) {
        assert!(reinstall.may_read(false));
        match reinstall.reinstall(ReadOutcome::Line(line)) {
            ReinstallAction::Send(message) => sent.push(message.lines),
            ReinstallAction::ReadOn => {},
            ReinstallAction::Complete => panic!("not over yet"),
        }
    }
    assert!(reinstall.may_read(true));
    assert!(matches!(reinstall.reinstall(ReadOutcome::End), ReinstallAction::Complete));
    assert_eq!(sent.len(), 2);
    assert_eq!(sent[0], lines(25)[0..10].to_vec());
    assert_eq!(sent[1], lines(25)[10..20].to_vec());
    assert!(!Reinstall::new().may_read(true));
    assert!(matches!(
        Reinstall::new().reinstall(ReadOutcome::Failed),
        ReinstallAction::Complete
    ));
    assert_eq!(
        install_started().lines,
        vec!["Starting to re-install helloworld-server\n\n".to_owned()]
    );
}

#[test]
fn servers_share_the_width() {
    assert_eq!(render_logs_frame(3), vec![(1, 3), (1, 3), (1, 3)]);
    assert!(render_logs_frame(0).is_empty());
}

#[test]
fn servers_are_shown_one_per_column() {
    let logs = |lines: &[&str]| RecentLogs {
        log_vec: lines.iter().map(|line| line.to_string()).collect(),
    };
    let state = InProgressState {
        logs: vec![("0".to_owned(), logs(&["a", "b"])), ("1".to_owned(), logs(&["c"]))],
    };
    assert_eq!(state.render(), vec!["a\nb".to_owned(), "c".to_owned()]);
    let mut shown = LocalAppState::new(2);
    shown.kind = LocalAppStateKind::InProgress(state);
    press(&mut shown, 'k');
    press(&mut shown, 'j');
    match &shown.kind {
        LocalAppStateKind::InProgress(state) => assert_eq!(state.logs[1].0, "1"),
        other => panic!("unexpected kind: {:?}", other),
    }
}

#[test]
fn recent_logs_are_shown_line_by_line() {
    let logs = RecentLogs { log_vec: VecDeque::from(vec!["a".to_owned(), "b".to_owned()]) };
    assert_eq!(logs.render(), "a\nb");
    assert_eq!(RecentLogs::default().render(), "");
}

#[test]
fn the_user_is_asked_once_the_installation_is_over() {
    assert!(install(&installing(true, None, 1)).asks_to_continue());
    assert!(!install(&installing(false, None, 1)).asks_to_continue());
}
