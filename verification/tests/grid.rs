use splix::Grid;
use splix::GridUpdate;
use splix::Pane;
use splix::PaneId;
use splix::SessionId;
use splix::WindowId;

#[test]
fn new_grid_is_empty() {
    let grid = Grid::new();
    assert!(grid.get_data().is_empty());
}

#[test]
fn update_appends_chars() {
    let mut grid = Grid::new();
    grid.update('a');
    grid.update('b');
    assert_eq!(grid.get_data(), &vec![vec!['a', 'b']]);
}

#[test]
fn new_line_creates_new_empty_line() {
    let mut grid = Grid::new();
    grid.update('a');
    grid.new_line();
    grid.update('b');
    assert_eq!(grid.get_data(), &vec![vec!['a'], vec!['b']]);
}

#[test]
fn new_line_on_empty_grid_creates_one_line() {
    let mut grid = Grid::new();
    grid.new_line();
    assert_eq!(grid.get_data(), &vec![Vec::<char>::new()]);
}

fn pane_with_updates(updates: &[GridUpdate]) -> Pane {
    let pane_id = PaneId::new(0, WindowId::new(0, SessionId::new(0)));
    let mut pane = Pane::new(pane_id);
    for update in updates {
        pane.update(update);
    }
    pane
}

#[test]
fn append_law_lines_equal_newlines_plus_one() {
    // Starting with an AppendChar, the number of lines is always the
    // number of NewLine updates plus the implicit first line.
    let updates = vec![
        GridUpdate::AppendChar('a'),
        GridUpdate::AppendChar('b'),
        GridUpdate::NewLine,
        GridUpdate::NewLine,
        GridUpdate::AppendChar('c'),
        GridUpdate::NewLine,
    ];
    let newlines = 3;
    let pane = pane_with_updates(&updates);
    assert_eq!(pane.get_grid().get_data().len(), newlines + 1);
}

#[test]
fn append_law_lines_hold_their_appends() {
    // Each line holds exactly the AppendChar payloads applied while it
    // was the last line, in order.
    let updates = vec![
        GridUpdate::AppendChar('h'),
        GridUpdate::AppendChar('i'),
        GridUpdate::NewLine,
        GridUpdate::AppendChar('y'),
        GridUpdate::NewLine,
    ];
    let pane = pane_with_updates(&updates);
    assert_eq!(
        pane.get_grid().get_data(),
        &vec![vec!['h', 'i'], vec!['y'], vec![]]
    );
}
