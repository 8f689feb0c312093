use splix::grid_update_for_char;
use splix::pane_updates_for_chars;
use splix::AnsiEncoder;
use splix::GridUpdate;
use splix::PaneId;
use splix::PaneUpdateEvent;
use splix::SessionId;
use splix::WindowId;

#[test]
fn ids_carry_their_path() {
    let session_id = SessionId::new(3);
    let window_id = WindowId::new(1, session_id);
    let pane_id = PaneId::new(2, window_id);
    assert_eq!(session_id.get(), 3);
    assert_eq!(window_id.get(), 1);
    assert_eq!(window_id.get_session().get(), 3);
    assert_eq!(pane_id.get(), 2);
    assert_eq!(pane_id.get_window().get(), 1);
    assert_eq!(pane_id.get_window().get_session().get(), 3);
}

#[test]
fn pane_update_event_carries_its_parts() {
    let pane_id = PaneId::new(0, WindowId::new(0, SessionId::new(0)));
    let event = PaneUpdateEvent::new(pane_id, GridUpdate::AppendChar('x'));
    assert_eq!(event.get_pane().get(), 0);
    assert!(matches!(
        event.get_grid_update(),
        GridUpdate::AppendChar('x')
    ));
}

#[test]
fn line_feed_becomes_new_line() {
    assert!(matches!(grid_update_for_char('\n'), GridUpdate::NewLine));
    assert!(matches!(
        grid_update_for_char('a'),
        GridUpdate::AppendChar('a')
    ));
}

#[test]
fn decoded_output_becomes_updates_in_order() {
    let pane_id = PaneId::new(0, WindowId::new(0, SessionId::new(0)));
    let chars = vec!['h', 'i', '\n', 'y'];
    let events = pane_updates_for_chars(pane_id, &chars);
    assert_eq!(events.len(), 4);
    assert!(matches!(
        events[0].get_grid_update(),
        GridUpdate::AppendChar('h')
    ));
    assert!(matches!(
        events[1].get_grid_update(),
        GridUpdate::AppendChar('i')
    ));
    assert!(matches!(events[2].get_grid_update(), GridUpdate::NewLine));
    assert!(matches!(
        events[3].get_grid_update(),
        GridUpdate::AppendChar('y')
    ));
    assert_eq!(events[3].get_pane().get(), 0);
}

#[test]
fn ansi_encoder_prepends_the_escape_prefix() {
    let encoder = AnsiEncoder::new();
    assert_eq!(encoder.encode("?1049h"), "\u{1b}[?1049h");
    assert_eq!(encoder.encode("H"), "\u{1b}[H");
}
