use morse_tui::session::{App, InputMode, Key};

fn type_text(app: &mut App, text: &str) {
    for c in text.chars() {
        assert!(!app.handle_key(Key::Char(c)));
    }
}

#[test]
fn new_session_is_empty_in_encode_mode() {
    let app = App::new();
    assert_eq!(app.input(), "");
    assert_eq!(app.output(), "");
    assert_eq!(app.mode(), InputMode::Encode);
}

#[test]
fn typing_text_shows_morse() {
    let mut app = App::new();
    type_text(&mut app, "sos");
    assert_eq!(app.input(), "sos");
    assert_eq!(app.output(), "... --- ...");
}

#[test]
fn tab_switches_to_decoding() {
    let mut app = App::new();
    type_text(&mut app, "... ---   ");
    assert!(!app.handle_key(Key::Tab));
    assert_eq!(app.mode(), InputMode::Decode);
    assert_eq!(app.output(), "SO");
    type_text(&mut app, "..");
    assert_eq!(app.output(), "SO I");
    app.toggle_mode();
    assert_eq!(app.mode(), InputMode::Encode);
}

#[test]
fn backspace_and_enter_edit_the_input() {
    let mut app = App::new();
    type_text(&mut app, "ab");
    assert!(!app.handle_key(Key::Backspace));
    assert_eq!(app.input(), "a");
    assert_eq!(app.output(), ".-");
    assert!(!app.handle_key(Key::Enter));
    type_text(&mut app, "t");
    assert_eq!(app.input(), "a\nt");
    assert_eq!(app.output(), ".-   -");
    assert!(!app.handle_key(Key::Backspace));
    assert!(!app.handle_key(Key::Backspace));
    assert!(!app.handle_key(Key::Backspace));
    assert!(!app.handle_key(Key::Backspace));
    assert_eq!(app.input(), "");
    assert_eq!(app.output(), "");
}

#[test]
fn quit_keys_end_the_session() {
    let mut app = App::new();
    type_text(&mut app, "e");
    assert!(app.handle_key(Key::Char('q')));
    assert!(app.handle_key(Key::CtrlChar('c')));
    assert!(app.handle_key(Key::CtrlChar('q')));
    assert_eq!(app.input(), "e");
    assert!(!app.handle_key(Key::CtrlChar('x')));
    assert_eq!(app.input(), "ex");
    assert!(!app.handle_key(Key::Other));
    assert_eq!(app.input(), "ex");
}

#[test]
fn parse_morse_input_reads_the_buffer() {
    let mut app = App::new();
    type_text(&mut app, ".- -");
    assert_eq!(app.parse_morse_input().to_display_string(), ".- -");
    app.update_output();
    assert_eq!(app.output(), ".-.-.-");
}
