//! One pane: a grid of decoded shell output.
//!
//! A pane owns its grid. The surrounding process gives each pane a bridging
//! task and a private keystroke channel; here only the state that the
//! dispatch loop mutates is kept, so that all grid mutation stays
//! single-threaded.

use vstd::prelude::*;

use crate::event::GridUpdate;
use crate::grid::apply_update;
use crate::grid::Grid;
use crate::ids::PaneId;

verus! {

/// One pane of a window, addressed by its [`PaneId`].
pub struct Pane {
    id: PaneId,
    grid: Grid,
}

impl View for Pane {
    type V = Seq<Seq<char>>;

    /// A pane's content is its grid's content.
    closed spec fn view(&self) -> Seq<Seq<char>> {
        self.grid@
    }
}

impl Pane {
    /// The pane's identifier.
    pub closed spec fn id_spec(&self) -> PaneId {
        self.id
    }

    pub fn new(id: PaneId) -> (r: Self)
        ensures
            r.id_spec() == id,
            r@ == Seq::<Seq<char>>::empty(),
    {
        Self { id, grid: Grid::new() }
    }

    pub fn get_grid(&self) -> (r: &Grid)
        ensures
            r@ == self@,
    {
        &self.grid
    }

    /// Applies one grid update to this pane's grid. Called only from the
    /// dispatch loop, never from the pane's own bridging task.
    pub fn update(&mut self, grid_update: &GridUpdate)
        ensures
            final(self)@ == apply_update(old(self)@, *grid_update),
            final(self).id_spec() == old(self).id_spec(),
    {
        match grid_update {
            GridUpdate::AppendChar(c) => self.grid.update(*c),
            GridUpdate::NewLine => self.grid.new_line(),
        }
    }
}

} // verus!
