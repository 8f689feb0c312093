//! A session: an ordered collection of windows.
//!
//! Windows are indexed by creation order and never removed, so a
//! [`WindowId`] doubles as the path to its window. A session is created
//! with exactly one initial window (which in turn holds one initial pane).

use vstd::prelude::*;

use crate::event::GridUpdate;
use crate::grid::apply_update;
use crate::ids::PaneId;
use crate::ids::SessionId;
use crate::ids::WindowId;
use crate::window::Window;

verus! {

/// One session, addressed by its [`SessionId`].
pub struct Session {
    id: SessionId,
    windows: Vec<Window>,
    next_window_id: usize,
}

impl View for Session {
    type V = Seq<Seq<Seq<Seq<char>>>>;

    /// A session's content is the sequence of its windows' contents.
    closed spec fn view(&self) -> Seq<Seq<Seq<Seq<char>>>> {
        Seq::new(self.windows@.len(), |i: int| self.windows@[i]@)
    }
}

impl Session {
    /// The session's identifier.
    pub closed spec fn id_spec(&self) -> SessionId {
        self.id
    }

    /// Window ids match their creation-order index and the next id
    /// continues the sequence.
    spec fn ids_ok(&self) -> bool {
        &&& self.next_window_id == self.windows@.len()
        &&& forall|i: int|
            0 <= i < self.windows@.len() ==> (#[trigger] self.windows@[i]).id_spec().index() == i
                && self.windows@[i].id_spec().session_id() == self.id
    }

    /// Structural soundness: at least one window, window ids address their
    /// own slots, and every window is itself sound.
    pub closed spec fn wf(&self) -> bool {
        &&& self.windows@.len() >= 1
        &&& self.ids_ok()
        &&& forall|i: int| 0 <= i < self.windows@.len() ==> (#[trigger] self.windows@[i]).wf()
    }

    /// Creates the session together with its one initial window, whose id
    /// is window index 0 under this session's id.
    pub fn new(id: SessionId) -> (r: Self)
        ensures
            r.wf(),
            r.id_spec() == id,
            r@ == seq![seq![Seq::<Seq<char>>::empty()]],
    {
        let mut session = Self { id, windows: Vec::new(), next_window_id: 0 };
        session.new_window();
        proof {
            assert(session@ =~= seq![seq![Seq::<Seq<char>>::empty()]]);
        }
        session
    }

    pub fn get_window(&self, index: usize) -> (r: &Window)
        requires
            index < self@.len(),
        ensures
            r@ == self@[index as int],
            self.wf() ==> r.wf(),
    {
        &self.windows[index]
    }

    /// Routes one grid update down the tree, following the window and pane
    /// indices embedded in the pane's id; every other pane is untouched.
    pub fn update_pane(&mut self, pane: PaneId, grid_update: &GridUpdate)
        requires
            old(self).wf(),
            0 <= pane.window_id().index() < old(self)@.len(),
            0 <= pane.index() < old(self)@[pane.window_id().index()].len(),
        ensures
            final(self).wf(),
            final(self).id_spec() == old(self).id_spec(),
            final(self)@ == old(self)@.update(
                pane.window_id().index(),
                old(self)@[pane.window_id().index()].update(
                    pane.index(),
                    apply_update(old(self)@[pane.window_id().index()][pane.index()], *grid_update),
                ),
            ),
    {
        let widx = pane.get_window().get();
        let window = &mut self.windows[widx];
        window.update_pane(pane, grid_update);
        proof {
            assert(self@ =~= old(self)@.update(
                pane.window_id().index(),
                old(self)@[pane.window_id().index()].update(
                    pane.index(),
                    apply_update(old(self)@[pane.window_id().index()][pane.index()], *grid_update),
                ),
            ));
        }
    }

    /// Appends one fresh window, with the next creation-order id.
    fn new_window(&mut self)
        requires
            old(self).ids_ok(),
            forall|i: int| 0 <= i < old(self).windows@.len() ==> (#[trigger] old(self).windows@[i]).wf(),
        ensures
            final(self).ids_ok(),
            forall|i: int| 0 <= i < final(self).windows@.len() ==> (#[trigger] final(self).windows@[i]).wf(),
            final(self).windows@.len() == old(self).windows@.len() + 1,
            final(self).id_spec() == old(self).id_spec(),
            final(self)@ == old(self)@.push(seq![Seq::<Seq<char>>::empty()]),
    {
        let id = WindowId::new(self.next_window_id, self.id);
        let window = Window::new(id);
        self.windows.push(window);
        self.next_window_id = self.windows.len();
        proof {
            assert(self@ =~= old(self)@.push(seq![Seq::<Seq<char>>::empty()]));
        }
    }
}

} // verus!
