use punchcard::scroll::{scroll_event, ScrollKey, SCROLL_STEP};

#[test]
fn scroll_keys_move_by_one_step() {
    assert_eq!(SCROLL_STEP, 10);
    assert_eq!(scroll_event(ScrollKey::Up), (-10, false));
    assert_eq!(scroll_event(ScrollKey::Down), (10, false));
}

#[test]
fn other_keys_do_not_scroll() {
    assert_eq!(scroll_event(ScrollKey::Other), (0, false));
}

#[test]
fn scroll_never_consumes_the_event() {
    for key in [ScrollKey::Up, ScrollKey::Down, ScrollKey::Other] {
        assert!(!scroll_event(key).1);
    }
}
