//! Events carried by the event bus.
//!
//! Shell output and user keystrokes are both turned into values of [`Event`]
//! and queued for the single dispatch loop, which is the only code path that
//! mutates the Session -> Window -> Pane tree.

use vstd::prelude::*;

use crate::ids::PaneId;

verus! {

/// One incremental mutation of a pane's [`crate::grid::Grid`].
#[derive(Clone, Copy, Debug)]
pub enum GridUpdate {
    /// Append this character to the grid's last line.
    AppendChar(char),
    /// Start a new, empty line.
    NewLine,
}

/// The grid update that one decoded character stands for: a line feed starts
/// a new line, every other character is appended.
pub open spec fn update_for_char(c: char) -> GridUpdate {
    if c == '\n' {
        GridUpdate::NewLine
    } else {
        GridUpdate::AppendChar(c)
    }
}

/// Translates one decoded character into its grid update.
pub fn grid_update_for_char(c: char) -> (r: GridUpdate)
    ensures
        r == update_for_char(c),
{
    if c == '\n' {
        GridUpdate::NewLine
    } else {
        GridUpdate::AppendChar(c)
    }
}

/// One mutation destined for one pane's grid.
#[derive(Clone, Copy, Debug)]
pub struct PaneUpdateEvent {
    pane: PaneId,
    grid_update: GridUpdate,
}

impl PaneUpdateEvent {
    /// The addressed pane.
    pub closed spec fn pane_spec(self) -> PaneId {
        self.pane
    }

    /// The carried mutation.
    pub closed spec fn grid_update_spec(self) -> GridUpdate {
        self.grid_update
    }

    pub fn new(pane: PaneId, grid_update: GridUpdate) -> (r: Self)
        ensures
            r.pane_spec() == pane,
            r.grid_update_spec() == grid_update,
    {
        Self { pane, grid_update }
    }

    pub fn get_pane(&self) -> (r: PaneId)
        ensures
            r == self.pane_spec(),
    {
        self.pane
    }

    pub fn get_grid_update(&self) -> (r: &GridUpdate)
        ensures
            *r == self.grid_update_spec(),
    {
        &self.grid_update
    }
}

/// Everything the dispatch loop consumes, in arrival order.
#[derive(Clone, Copy, Debug)]
pub enum Event {
    /// Shell output decoded into one grid mutation.
    PaneUpdate(PaneUpdateEvent),
    /// One byte of user keystroke input.
    Input(u8),
}

/// Translates a run of decoded shell output into the pane update events that
/// the bridging task enqueues, in order, one per character.
pub fn pane_updates_for_chars(pane: PaneId, chars: &Vec<char>) -> (r: Vec<PaneUpdateEvent>)
    ensures
        r@.len() == chars@.len(),
        forall|i: int|
            0 <= i < r@.len() ==> (#[trigger] r@[i]).pane_spec() == pane && r@[i].grid_update_spec()
                == update_for_char(chars@[i]),
{
    let mut r: Vec<PaneUpdateEvent> = Vec::new();
    let mut k: usize = 0;
    while k < chars.len()
        invariant
            0 <= k <= chars@.len(),
            r@.len() == k,
            forall|i: int|
                0 <= i < k ==> (#[trigger] r@[i]).pane_spec() == pane && r@[i].grid_update_spec()
                    == update_for_char(chars@[i]),
        decreases chars@.len() - k,
    {
        let u = grid_update_for_char(chars[k]);
        r.push(PaneUpdateEvent::new(pane, u));
        k = k + 1;
    }
    r
}

} // verus!
