use splix::Event;
use splix::GridUpdate;
use splix::PaneId;
use splix::PaneUpdateEvent;
use splix::SessionId;
use splix::Splix;
use splix::WindowId;

fn initial_pane_id() -> PaneId {
    PaneId::new(0, WindowId::new(0, SessionId::new(0)))
}

#[test]
fn input_events_are_forwarded_to_the_active_pane() {
    let mut splix = Splix::new(5, 1);
    let forward = splix.handle_event(&Event::Input(b'q'));
    assert_eq!(forward, Some(b'q'));
    // Routing a keystroke repaints nothing.
    assert_eq!(splix.take_output(), Vec::<char>::new());
}

#[test]
fn pane_updates_repaint_the_screen() {
    let mut splix = Splix::new(5, 1);
    let event = Event::PaneUpdate(PaneUpdateEvent::new(
        initial_pane_id(),
        GridUpdate::AppendChar('H'),
    ));
    let forward = splix.handle_event(&event);
    assert_eq!(forward, None);
    let output: String = splix.take_output().into_iter().collect();
    assert_eq!(output, "\u{1b}[H\u{1b}[1;1HH");
}

#[test]
fn successive_updates_emit_only_the_change() {
    let mut splix = Splix::new(5, 1);
    for c in ['H', 'e', 'l', 'l', 'o'] {
        splix.handle_event(&Event::PaneUpdate(PaneUpdateEvent::new(
            initial_pane_id(),
            GridUpdate::AppendChar(c),
        )));
    }
    let output: String = splix.take_output().into_iter().collect();
    // One frame per update; each frame repaints only the new cell.
    assert_eq!(
        output,
        "\u{1b}[H\u{1b}[1;1HH\
         \u{1b}[H\u{1b}[1;2He\
         \u{1b}[H\u{1b}[1;3Hl\
         \u{1b}[H\u{1b}[1;4Hl\
         \u{1b}[H\u{1b}[1;5Ho"
    );
}
