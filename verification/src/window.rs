//! A window: an ordered collection of panes.
//!
//! Panes are indexed by creation order and never removed, so a [`PaneId`]
//! doubles as the path to its pane. A window is created with exactly one
//! initial pane.

use vstd::prelude::*;

use crate::event::GridUpdate;
use crate::grid::apply_update;
use crate::ids::PaneId;
use crate::ids::WindowId;
use crate::pane::Pane;

verus! {

/// One window of a session, addressed by its [`WindowId`].
pub struct Window {
    id: WindowId,
    panes: Vec<Pane>,
    next_pane_id: usize,
}

impl View for Window {
    type V = Seq<Seq<Seq<char>>>;

    /// A window's content is the sequence of its panes' grids.
    closed spec fn view(&self) -> Seq<Seq<Seq<char>>> {
        Seq::new(self.panes@.len(), |i: int| self.panes@[i]@)
    }
}

impl Window {
    /// The window's identifier.
    pub closed spec fn id_spec(&self) -> WindowId {
        self.id
    }

    /// Pane ids match their creation-order index and the next id continues
    /// the sequence.
    spec fn ids_ok(&self) -> bool {
        &&& self.next_pane_id == self.panes@.len()
        &&& forall|i: int|
            0 <= i < self.panes@.len() ==> (#[trigger] self.panes@[i]).id_spec().index() == i
                && self.panes@[i].id_spec().window_id() == self.id
    }

    /// Structural soundness: at least one pane, and pane ids address their
    /// own slots.
    pub closed spec fn wf(&self) -> bool {
        &&& self.panes@.len() >= 1
        &&& self.ids_ok()
    }

    /// Creates the window together with its one initial pane, whose id is
    /// pane index 0 under this window's id.
    pub fn new(id: WindowId) -> (r: Self)
        ensures
            r.wf(),
            r.id_spec() == id,
            r@ == seq![Seq::<Seq<char>>::empty()],
    {
        let mut window = Self { id, panes: Vec::new(), next_pane_id: 0 };
        window.new_pane();
        proof {
            assert(window@ =~= seq![Seq::<Seq<char>>::empty()]);
        }
        window
    }

    pub fn get_pane(&self, index: usize) -> (r: &Pane)
        requires
            index < self@.len(),
        ensures
            r@ == self@[index as int],
    {
        &self.panes[index]
    }

    /// Routes one grid update to the pane the id addresses; every other
    /// pane is untouched.
    pub fn update_pane(&mut self, pane: PaneId, grid_update: &GridUpdate)
        requires
            old(self).wf(),
            0 <= pane.index() < old(self)@.len(),
        ensures
            final(self).wf(),
            final(self).id_spec() == old(self).id_spec(),
            final(self)@ == old(self)@.update(
                pane.index(),
                apply_update(old(self)@[pane.index()], *grid_update),
            ),
    {
        let idx = pane.get();
        let p = &mut self.panes[idx];
        p.update(grid_update);
        proof {
            assert(self@ =~= old(self)@.update(
                pane.index(),
                apply_update(old(self)@[pane.index()], *grid_update),
            ));
        }
    }

    /// Appends one fresh pane, with the next creation-order id.
    fn new_pane(&mut self)
        requires
            old(self).ids_ok(),
        ensures
            final(self).ids_ok(),
            final(self).panes@.len() == old(self).panes@.len() + 1,
            final(self).id_spec() == old(self).id_spec(),
            final(self)@ == old(self)@.push(Seq::<Seq<char>>::empty()),
    {
        let id = PaneId::new(self.next_pane_id, self.id);
        let pane = Pane::new(id);
        self.panes.push(pane);
        self.next_pane_id = self.panes.len();
        proof {
            assert(self@ =~= old(self)@.push(Seq::<Seq<char>>::empty()));
        }
    }
}

} // verus!
