use wtg::cli::Model;
use wtg::openai::{
    build_chat_request, classify_stream_line, line_is_accumulated, resolve_model, resolve_prompt,
    StreamLine,
};
use wtg::session::{
    append_chat_turn, chat_requires_tty, choose_context_source, is_exit_command, resolve_logfile,
    ContextSource,
};
use wtg::errors::WtgError;
use wtg::text::{eq_bytes, to_ascii_lower, trim_bytes};

#[test]
fn blank_lines_are_skipped() {
    assert!(matches!(classify_stream_line(b""), StreamLine::Blank));
    assert!(matches!(classify_stream_line(b"   \r\n"), StreamLine::Blank));
}

#[test]
fn done_line_ends_the_stream() {
    assert!(matches!(
        classify_stream_line(b"data: [DONE]\n"),
        StreamLine::Done
    ));
    assert!(matches!(
        classify_stream_line(b"  data: [DONE]  "),
        StreamLine::Done
    ));
}

#[test]
fn data_line_carries_its_payload() {
    match classify_stream_line(b"data: {\"choices\":[]}\n") {
        StreamLine::Payload(p) => assert_eq!(p, b"{\"choices\":[]}".to_vec()),
        _ => panic!("expected a payload"),
    }
}

#[test]
fn repeated_data_prefixes_are_all_stripped() {
    match classify_stream_line(b"data: data: hi") {
        StreamLine::Payload(p) => assert_eq!(p, b"hi".to_vec()),
        _ => panic!("expected a payload"),
    }
}

#[test]
fn other_lines_pass_through() {
    assert!(matches!(classify_stream_line(b"event: ping\n"), StreamLine::Plain));
    assert!(matches!(classify_stream_line(b"dat: x"), StreamLine::Plain));
}

#[test]
fn accumulation_skips_blank_and_done_lines() {
    assert!(!line_is_accumulated(&StreamLine::Blank));
    assert!(!line_is_accumulated(&StreamLine::Done));
    assert!(line_is_accumulated(&StreamLine::Plain));
    assert!(line_is_accumulated(&StreamLine::Payload(b"x".to_vec())));
}

#[test]
fn explicit_model_argument_wins() {
    let r = resolve_model(Some(Model::O3Mini), Some("gpt-4o".to_string()));
    assert_eq!(r, Ok("o3-mini".to_string()));
}

#[test]
fn environment_model_is_validated() {
    let r = resolve_model(None, Some("GPT-4O-MINI".to_string()));
    assert_eq!(r, Ok("GPT-4O-MINI".to_string()));
    let r = resolve_model(None, Some("gpt-5".to_string()));
    assert_eq!(r, Err("gpt-5".to_string()));
    let r = resolve_model(None, None);
    assert_eq!(r, Ok("gpt-4o".to_string()));
}

#[test]
fn prompt_resolution_prefers_the_argument() {
    assert_eq!(
        resolve_prompt(Some("why?".to_string()), Some("env".to_string())),
        "why?"
    );
    assert_eq!(resolve_prompt(None, Some("env".to_string())), "env");
    assert!(resolve_prompt(None, None).starts_with("Here is the program output."));
}

#[test]
fn chat_request_frames_context_and_prompt() {
    let r = build_chat_request("gpt-4o".to_string(), "some output", "what happened?");
    assert_eq!(r.model, "gpt-4o");
    assert!(r.stream);
    assert_eq!(r.messages.len(), 2);
    assert_eq!(r.messages[0].role, "system");
    assert_eq!(
        r.messages[0].content,
        "You are a helpful assistant. The user has run a command and received the following output: some output"
    );
    assert_eq!(r.messages[1].role, "user");
    assert_eq!(r.messages[1].content, "what happened?");
}

#[test]
fn exit_words_end_the_chat() {
    assert!(is_exit_command(b"exit\n"));
    assert!(is_exit_command(b"  QUIT  "));
    assert!(is_exit_command(b"e"));
    assert!(is_exit_command(b"Q\r\n"));
    assert!(!is_exit_command(b"export"));
    assert!(!is_exit_command(b"hello"));
    assert!(!is_exit_command(b""));
}

#[test]
fn chat_turns_are_appended_in_transcript_form() {
    let ctx = append_chat_turn("CTX".to_string(), "hi", "hello there");
    assert_eq!(ctx, "CTX\nuser: hi\nassistant: hello there");
}

#[test]
fn piped_input_bypasses_the_log() {
    assert_eq!(choose_context_source(false), ContextSource::Piped);
    assert_eq!(choose_context_source(true), ContextSource::LogFile);
}

#[test]
fn logfile_argument_wins_over_environment() {
    assert_eq!(
        resolve_logfile(Some("a.log".to_string()), Some("b.log".to_string())),
        Some("a.log".to_string())
    );
    assert_eq!(
        resolve_logfile(None, Some("b.log".to_string())),
        Some("b.log".to_string())
    );
    assert_eq!(resolve_logfile(None, None), None);
}

#[test]
fn chat_outside_a_tty_is_rejected() {
    assert!(chat_requires_tty(true).is_ok());
    assert!(matches!(chat_requires_tty(false), Err(WtgError::ChatNotTty)));
}

#[test]
fn byte_utilities_behave_like_their_specs() {
    assert_eq!(trim_bytes(b"  hi\t\r\n"), b"hi".to_vec());
    assert_eq!(trim_bytes(b"\x0b\x0c"), Vec::<u8>::new());
    assert_eq!(to_ascii_lower(b"AbC-4O"), b"abc-4o".to_vec());
    assert!(eq_bytes(b"same", b"same"));
    assert!(!eq_bytes(b"same", b"sam"));
}
