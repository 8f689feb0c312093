use splix::Event;
use splix::GridUpdate;
use splix::PaneId;
use splix::PaneUpdateEvent;
use splix::SessionId;
use splix::WindowId;

fn pane_update(c: char) -> Event {
    let pane_id = PaneId::new(0, WindowId::new(0, SessionId::new(0)));
    Event::PaneUpdate(PaneUpdateEvent::new(pane_id, GridUpdate::AppendChar(c)))
}

fn event_char(event: &Event) -> char {
    match event {
        Event::PaneUpdate(pe) => match pe.get_grid_update() {
            GridUpdate::AppendChar(c) => *c,
            GridUpdate::NewLine => '\n',
        },
        Event::Input(_) => panic!("expected a pane update"),
    }
}

#[test]
fn full_bus_suspends_the_producer_until_one_slot_drains() {
    // Backpressure: a bounded event bus refuses new events while full,
    // resumes the producer as soon as the consumer drains one slot, and
    // never drops an event.
    let runtime = tokio::runtime::Builder::new_current_thread()
        .build()
        .unwrap();
    runtime.block_on(async {
        let (sender, mut receiver) = tokio::sync::mpsc::channel::<Event>(2);
        sender.send(pane_update('a')).await.unwrap();
        sender.send(pane_update('b')).await.unwrap();

        // The bus is full: a further enqueue cannot complete now.
        let refused = sender.try_send(pane_update('c'));
        assert!(refused.is_err());

        // A waiting producer is suspended, not failed: it completes
        // exactly when the dispatch loop drains a slot.
        let producer = tokio::spawn({
            let sender = sender.clone();
            async move {
                sender.send(pane_update('c')).await.unwrap();
            }
        });
        let first = receiver.recv().await.unwrap();
        assert_eq!(event_char(&first), 'a');
        producer.await.unwrap();

        // Nothing was dropped and order was kept.
        drop(sender);
        let mut rest = Vec::new();
        while let Some(event) = receiver.recv().await {
            rest.push(event_char(&event));
        }
        assert_eq!(rest, vec!['b', 'c']);
    });
}
