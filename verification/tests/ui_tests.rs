use algoprofile::counter_app::CounterApp;
use algoprofile::input::{Area, KeyCode, KeyInput};
use algoprofile::listed_search::{char_utf8_len, ListedSearch};
use algoprofile::main_ui::{App, ComponentState, FocusedComponent};

fn typed(text: &str) -> ListedSearch {
    let mut s = ListedSearch::new();
    for c in text.chars() {
        s.enter_char(c);
    }
    s
}

#[test]
fn component_state_new() {
    let s = ComponentState::new();
    assert!(!s.focused);
    assert!(s.visible);
}

#[test]
fn counter_wraps_both_ways() {
    let mut c = CounterApp::new();
    assert_eq!(c.counter(), 0);
    c.decrement_counter();
    assert_eq!(c.counter(), 255);
    c.increment_counter();
    assert_eq!(c.counter(), 0);
    c.increment_counter();
    c.increment_counter();
    assert_eq!(c.counter(), 2);
}

#[test]
fn counter_keys() {
    let mut c = CounterApp::new();
    assert!(c.handle_key_events(KeyInput::plain(KeyCode::Right)).is_ok());
    assert!(c.handle_key_events(KeyInput::plain(KeyCode::Right)).is_ok());
    assert!(c.handle_key_events(KeyInput::plain(KeyCode::Char('x'))).is_ok());
    assert_eq!(c.counter(), 2);
    let _ = c.handle_key_events(KeyInput::plain(KeyCode::Left));
    assert_eq!(c.counter(), 1);
    assert!(!c.is_focused());
    c.set_focus(true);
    assert!(c.is_focused());
}

#[test]
fn typing_inserts_at_cursor() {
    let mut s = typed("held");
    assert_eq!(s.search_text(), "held");
    assert_eq!(s.search_text_index(), 4);
    s.move_cursor_left();
    s.move_cursor_left();
    s.enter_char('l');
    assert_eq!(s.search_text(), "helld");
    assert_eq!(s.search_text_index(), 3);
}

#[test]
fn byte_index_counts_utf8_bytes() {
    let mut s = typed("héllo");
    assert_eq!(s.byte_index(), 6);
    s.reset_cursor();
    assert_eq!(s.byte_index(), 0);
    s.move_cursor_right();
    assert_eq!(s.byte_index(), 1);
    s.move_cursor_right();
    assert_eq!(s.byte_index(), 3);
    s.enter_char('€');
    assert_eq!(s.search_text(), "hé€llo");
    assert_eq!(s.byte_index(), 6);
}

#[test]
fn delete_removes_char_before_cursor() {
    let mut s = typed("abc");
    s.move_cursor_left();
    s.delete_char();
    assert_eq!(s.search_text(), "ac");
    assert_eq!(s.search_text_index(), 1);
    s.reset_cursor();
    s.delete_char();
    assert_eq!(s.search_text(), "ac");
    assert_eq!(s.search_text_index(), 0);
    let mut u = typed("añb");
    u.move_cursor_left();
    u.delete_char();
    assert_eq!(u.search_text(), "ab");
}

#[test]
fn cursor_stays_within_text() {
    let mut s = typed("ab");
    s.move_cursor_right();
    assert_eq!(s.search_text_index(), 2);
    s.reset_cursor();
    s.move_cursor_left();
    assert_eq!(s.search_text_index(), 0);
    assert_eq!(s.clamp_cursor(10), 2);
    assert_eq!(s.clamp_cursor(1), 1);
}

#[test]
fn typing_then_backspace_restores() {
    let mut s = typed("xyz");
    s.move_cursor_left();
    s.enter_char('q');
    s.delete_char();
    assert_eq!(s.search_text(), "xyz");
    assert_eq!(s.search_text_index(), 2);
}

#[test]
fn search_keys_and_cursor_cell() {
    let mut s = ListedSearch::new_with_list(vec!["one".to_string(), "two".to_string()]);
    let _ = s.handle_key_events(KeyInput::plain(KeyCode::Char('h')));
    let _ = s.handle_key_events(KeyInput::plain(KeyCode::Char('i')));
    let _ = s.handle_key_events(KeyInput::plain(KeyCode::Left));
    let _ = s.handle_key_events(KeyInput::plain(KeyCode::Backspace));
    assert_eq!(s.search_text(), "i");
    let _ = s.handle_key_events(KeyInput::plain(KeyCode::Right));
    let _ = s.handle_key_events(KeyInput::plain(KeyCode::Tab));
    assert_eq!(s.search_text_index(), 1);
    let area = Area { x: 10, y: 3, width: 20, height: 5 };
    assert_eq!(s.cursor_position(area), Some((12, 4)));
    assert!(s.has_room('x'));
}

#[test]
fn app_focus_cycles_with_tab() {
    let mut app = App::default();
    assert_eq!(app.components().len(), 2);
    assert!(app.components().iter().all(|c| !c.is_focused()));
    app.handle_key_event(KeyInput::plain(KeyCode::Tab));
    assert!(app.components()[0].is_focused());
    assert!(!app.components()[1].is_focused());
    app.handle_key_event(KeyInput::plain(KeyCode::Tab));
    assert!(!app.components()[0].is_focused());
    assert!(app.components()[1].is_focused());
    app.handle_key_event(KeyInput::plain(KeyCode::Tab));
    assert!(app.components()[0].is_focused());
}

#[test]
fn app_first_key_focuses_and_reaches_counter() {
    let mut app = App::default();
    app.handle_key_event(KeyInput::plain(KeyCode::Right));
    assert!(app.components()[0].is_focused());
    match &app.components()[0] {
        FocusedComponent::Counter(c) => assert_eq!(c.counter(), 1),
        _ => panic!("first component is the counter"),
    }
}

#[test]
fn app_typing_goes_to_focused_search() {
    let mut app = App::default();
    app.handle_key_event(KeyInput::plain(KeyCode::Tab));
    app.handle_key_event(KeyInput::plain(KeyCode::Tab));
    assert!(app.can_accept(KeyInput::plain(KeyCode::Char('o'))));
    app.handle_key_event(KeyInput::plain(KeyCode::Char('o')));
    app.handle_key_event(KeyInput::plain(KeyCode::Char('k')));
    match &app.components()[1] {
        FocusedComponent::Search(s) => assert_eq!(s.search_text(), "ok"),
        _ => panic!("second component is the text input"),
    }
    let areas = vec![
        Area { x: 0, y: 0, width: 40, height: 10 },
        Area { x: 40, y: 0, width: 40, height: 10 },
    ];
    assert_eq!(app.focused_cursor(&areas), Some((43, 1)));
    app.handle_key_event(KeyInput::plain(KeyCode::Tab));
    assert_eq!(app.focused_cursor(&areas), None);
}

#[test]
fn app_control_c_closes() {
    let mut app = App::default();
    assert!(app.can_accept(KeyInput::with_control(KeyCode::Char('c'))));
    assert!(app.can_accept(KeyInput::plain(KeyCode::Char('c'))));
    assert!(!app.should_close());
    app.handle_key_event(KeyInput::plain(KeyCode::Char('c')));
    assert!(!app.should_close());
    app.handle_key_event(KeyInput::with_control(KeyCode::Char('c')));
    assert!(app.should_close());
}

#[test]
fn component_enum_dispatch() {
    let mut c = FocusedComponent::Counter(CounterApp::new());
    c.set_focus(true);
    assert!(c.is_focused());
    let _ = c.handle_key_events(KeyInput::plain(KeyCode::Left));
    let area = Area { x: 0, y: 0, width: 1, height: 1 };
    assert_eq!(c.cursor_position(area), None);
    let mut s = FocusedComponent::Search(ListedSearch::new());
    let _ = s.handle_key_events(KeyInput::plain(KeyCode::Char('z')));
    assert_eq!(s.cursor_position(area), Some((2, 1)));
}

#[test]
fn utf8_lengths_of_chars() {
    assert_eq!(char_utf8_len('a'), 1);
    assert_eq!(char_utf8_len('é'), 2);
    assert_eq!(char_utf8_len('€'), 3);
    assert_eq!(char_utf8_len('😀'), 4);
}
