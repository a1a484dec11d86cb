use wtg::cli::{default_llm, default_query, Model};
use wtg::errors::WtgError;
use wtg::term::{
    make_raw_settings, winsize_or_fallback, PtyWindow, RawModeGuard, TermSettings, Terminal,
    Winsize,
};

#[test]
fn guard_restores_the_captured_settings_bit_for_bit() {
    let original = TermSettings { echo: true, canonical: true, signal_keys: true, other: 0xA5A5 };
    let mut term = Terminal { settings: original };
    let guard = RawModeGuard::new(&term);
    let raw = make_raw_settings(term.settings);
    guard.enable_raw_mode(&mut term, raw);
    assert!(!term.settings.echo);
    assert!(!term.settings.canonical);
    assert!(!term.settings.signal_keys);
    guard.release(&mut term);
    assert_eq!(term.settings, original);
}

#[test]
fn guard_restores_even_foreign_raw_settings() {
    let original = TermSettings { echo: false, canonical: true, signal_keys: false, other: 7 };
    let mut term = Terminal { settings: original };
    let guard = RawModeGuard::new(&term);
    let raw = TermSettings { echo: false, canonical: false, signal_keys: false, other: 1234 };
    guard.enable_raw_mode(&mut term, raw);
    guard.release(&mut term);
    assert_eq!(term.settings, original);
}

#[test]
fn applying_the_same_geometry_twice_changes_nothing() {
    let size = Winsize { rows: 50, cols: 132, xpixels: 0, ypixels: 0 };
    let mut w = PtyWindow::new(Winsize { rows: 24, cols: 80, xpixels: 0, ypixels: 0 });
    w.apply_size(size);
    let once = w.size;
    w.apply_size(size);
    assert_eq!(w.size, once);
}

#[test]
fn failed_geometry_query_falls_back_to_24_by_80() {
    let w = winsize_or_fallback(None);
    assert_eq!(w.rows, 24);
    assert_eq!(w.cols, 80);
    let real = Winsize { rows: 43, cols: 120, xpixels: 800, ypixels: 600 };
    assert_eq!(winsize_or_fallback(Some(real)), real);
}

#[test]
fn resize_event_applies_the_queried_geometry() {
    let mut w = PtyWindow::new(winsize_or_fallback(None));
    let queried = Winsize { rows: 60, cols: 200, xpixels: 0, ypixels: 0 };
    let applied = w.handle_resize(Some(queried));
    assert_eq!(applied, queried);
    assert_eq!(w.size, queried);
    let applied = w.handle_resize(None);
    assert_eq!(applied.rows, 24);
    assert_eq!(w.size.cols, 80);
}

#[test]
fn all_models_lists_the_canonical_names() {
    let names = Model::all_models();
    assert_eq!(names, vec!["gpt-4o", "gpt-4o-mini", "o3-mini"]);
}

#[test]
fn model_names_are_canonical() {
    assert_eq!(Model::Gpt4o.name(), "gpt-4o");
    assert_eq!(Model::Gpt4oMini.name(), "gpt-4o-mini");
    assert_eq!(Model::O3Mini.name(), "o3-mini");
}

#[test]
fn model_parsing_is_case_insensitive_and_accepts_undashed_names() {
    assert_eq!(Model::from_str("gpt-4o"), Some(Model::Gpt4o));
    assert_eq!(Model::from_str("GPT-4O"), Some(Model::Gpt4o));
    assert_eq!(Model::from_str("gpt4o"), Some(Model::Gpt4o));
    assert_eq!(Model::from_str("Gpt-4o-Mini"), Some(Model::Gpt4oMini));
    assert_eq!(Model::from_str("gpt4o-mini"), Some(Model::Gpt4oMini));
    assert_eq!(Model::from_str("o3-mini"), Some(Model::O3Mini));
    assert_eq!(Model::from_str("O3MINI"), Some(Model::O3Mini));
    assert_eq!(Model::from_str("gpt-5"), None);
    assert_eq!(Model::from_str(""), None);
}

#[test]
fn default_model_and_prompt() {
    assert_eq!(default_llm(), Model::Gpt4o);
    let p = default_query();
    assert!(p.starts_with("Here is the program output."));
    assert!(p.contains('\n'));
}

#[test]
fn error_messages_match_the_user_facing_text() {
    let e = WtgError::NoCommandRun { logfile: "x.log".to_string() };
    assert_eq!(e.message(), "No command run yet in this session.");
    let e = WtgError::ChatNotTty;
    assert_eq!(
        e.message(),
        "Chat should have stdin connected to a tty, otherwise input is not interactive."
    );
    let e = WtgError::LogFileOpenError { logfile: "a.log".to_string() };
    assert_eq!(e.message(), "Failed to open log file: a.log. Does it exist?");
    let e = WtgError::StdioError("broken pipe".to_string());
    assert_eq!(e.message(), "broken pipe");
}
