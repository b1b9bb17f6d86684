use termcore::input::{Client, Cursor, Key, Mode};

#[test]
fn starting_mode_is_visual() {
    let c = Client::new();
    assert_eq!(c.mode, Mode::Visual);
    assert_eq!(c.cursor, Cursor { x: 0, y: 0 });
}

#[test]
fn insert_key_is_noop_outside_normal_mode() {
    let mut c = Client::new();
    assert_eq!(c.mode, Mode::Visual);
    let quit = c.dispatch(Key::Char('i'));
    assert!(!quit);
    assert_eq!(c.mode, Mode::Visual);
}

#[test]
fn escape_reaches_normal_from_any_mode() {
    let mut c = Client::new();
    c.dispatch(Key::Esc);
    assert_eq!(c.mode, Mode::Normal);
    c.dispatch(Key::Char('i'));
    assert_eq!(c.mode, Mode::Insert);
    c.dispatch(Key::Esc);
    assert_eq!(c.mode, Mode::Normal);
    c.dispatch(Key::Char('v'));
    assert_eq!(c.mode, Mode::Visual);
    c.dispatch(Key::Esc);
    assert_eq!(c.mode, Mode::Normal);
}

#[test]
fn insert_and_visual_enter_from_normal() {
    let mut c = Client::new();
    c.dispatch(Key::Esc);
    c.dispatch(Key::Char('i'));
    assert_eq!(c.mode, Mode::Insert);
    c.dispatch(Key::Esc);
    c.dispatch(Key::Char('v'));
    assert_eq!(c.mode, Mode::Visual);
}

#[test]
fn movement_keys_shift_cursor_in_every_mode() {
    for enter in [None, Some('i'), Some('v')] {
        let mut c = Client::new();
        c.dispatch(Key::Esc);
        if let Some(ch) = enter {
            c.dispatch(Key::Char(ch));
        }
        let mode = c.mode;
        c.dispatch(Key::Char('l'));
        assert_eq!(c.cursor, Cursor { x: 1, y: 0 });
        c.dispatch(Key::Char('j'));
        assert_eq!(c.cursor, Cursor { x: 1, y: 1 });
        c.dispatch(Key::Char('h'));
        assert_eq!(c.cursor, Cursor { x: 0, y: 1 });
        c.dispatch(Key::Char('k'));
        assert_eq!(c.cursor, Cursor { x: 0, y: 0 });
        assert_eq!(c.mode, mode);
    }
}

#[test]
fn cursor_may_go_negative() {
    let mut c = Client::new();
    c.dispatch(Key::Char('h'));
    c.dispatch(Key::Char('k'));
    assert_eq!(c.cursor, Cursor { x: -1, y: -1 });
}

#[test]
fn cursor_saturates_at_extreme_coordinates() {
    let mut c = Client::new();
    c.cursor.x = i64::MIN;
    c.dispatch(Key::Char('h'));
    assert_eq!(c.cursor.x, i64::MIN);
    c.cursor.x = i64::MAX;
    c.dispatch(Key::Char('l'));
    assert_eq!(c.cursor.x, i64::MAX);
}

#[test]
fn colon_requests_quit_and_changes_no_state() {
    let mut c = Client::new();
    let before = c;
    let quit = c.dispatch(Key::Char(':'));
    assert!(quit);
    assert_eq!(c, before);
}

#[test]
fn unrecognized_keys_are_ignored() {
    let mut c = Client::new();
    let before = c;
    assert!(!c.dispatch(Key::Char('x')));
    assert!(!c.dispatch(Key::Other));
    assert_eq!(c, before);
}
