use wtg::boundary::chunk_has_boundary;
use wtg::log::{new_command_msg, LogEntry, SessionLog};
use wtg::session::{Session, SessionState};

const MARK: &[u8] = b"<<<wtg:cmd-end>>>";

#[test]
fn marker_token_is_the_expected_literal() {
    assert_eq!(new_command_msg(), MARK.to_vec());
}

#[test]
fn boundary_detection_sees_line_feed_and_carriage_return() {
    assert!(chunk_has_boundary(b"abc\n"));
    assert!(chunk_has_boundary(b"\rls -l"));
    assert!(chunk_has_boundary(b"a\r\nb"));
    assert!(!chunk_has_boundary(b""));
    assert!(!chunk_has_boundary(b"echo hello"));
    assert!(!chunk_has_boundary(b"\t \x1b[A"));
}

#[test]
fn log_flattens_entries_in_append_order() {
    let mut log = SessionLog::new();
    log.insert_marker();
    log.append_output(b"one".to_vec());
    log.append_output(b"two".to_vec());
    log.insert_marker();
    let mut expected = MARK.to_vec();
    expected.extend_from_slice(b"onetwo");
    expected.extend_from_slice(MARK);
    assert_eq!(log.to_bytes(), expected);
    assert_eq!(log.entries.len(), 4);
    assert!(matches!(log.entries[0], LogEntry::Marker));
    assert!(matches!(log.entries[3], LogEntry::Marker));
}

#[test]
fn chunk_without_boundary_skips_the_handshake() {
    let mut s = Session::new();
    s.start();
    let d = s.on_input_chunk(b"echo hello".to_vec());
    assert!(!d.handshake);
    assert_eq!(d.forward, b"echo hello".to_vec());
    assert_eq!(s.completed_commands, 0);
    assert!(s.log.entries.is_empty());
}

#[test]
fn chunk_with_boundary_inserts_marker_before_forwarding() {
    let mut s = Session::new();
    s.start();
    let d = s.on_input_chunk(b"ls\r".to_vec());
    assert!(d.handshake);
    assert_eq!(d.forward, b"ls\r".to_vec());
    assert_eq!(s.completed_commands, 1);
    assert_eq!(s.log.to_bytes(), MARK.to_vec());
}

#[test]
fn one_marker_per_completed_command() {
    let mut s = Session::new();
    s.start();
    for k in 1..=5usize {
        s.on_input_chunk(b"x".to_vec());
        s.on_input_chunk(b"\n".to_vec());
        s.on_pty_output(b"out".to_vec());
        assert_eq!(s.completed_commands, k);
    }
    let bytes = s.log.to_bytes();
    let markers = s
        .log
        .entries
        .iter()
        .filter(|e| matches!(e, LogEntry::Marker))
        .count();
    assert_eq!(markers, 5);
    assert_eq!(bytes.len(), 5 * (MARK.len() + 3));
}

#[test]
fn end_to_end_session_scenario() {
    let mut s = Session::new();
    assert_eq!(s.state, SessionState::Created);
    s.start();
    assert_eq!(s.state, SessionState::Running);

    // the user types a command; no boundary yet
    let d = s.on_input_chunk(b"echo hello".to_vec());
    assert!(!d.handshake);
    // Enter: the marker lands in the log before the keystroke is forwarded
    let d = s.on_input_chunk(b"\r".to_vec());
    assert!(d.handshake);
    // the pseudo-terminal echoes the input, then the command's output
    let screen = s.on_pty_output(b"echo hello\r\n".to_vec());
    assert_eq!(screen, b"echo hello\r\n".to_vec());
    let screen = s.on_pty_output(b"hello\r\n".to_vec());
    assert_eq!(screen, b"hello\r\n".to_vec());
    // a second submission: its marker comes strictly after all earlier bytes
    let d = s.on_input_chunk(b"ls\r".to_vec());
    assert!(d.handshake);
    assert_eq!(s.completed_commands, 2);

    let bytes = s.log.to_bytes();
    let mut expected = MARK.to_vec();
    expected.extend_from_slice(b"echo hello\r\nhello\r\n");
    expected.extend_from_slice(MARK);
    assert_eq!(bytes, expected);

    s.on_pty_closed();
    assert_eq!(s.state, SessionState::Terminated);
}

#[test]
fn input_close_leaves_session_running() {
    let mut s = Session::new();
    s.start();
    s.on_input_closed();
    assert!(!s.input_open);
    assert_eq!(s.state, SessionState::Running);
}
