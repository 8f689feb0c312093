//! Hierarchical value identifiers for the Session -> Window -> Pane tree.
//!
//! An identifier is both a name and an address: it is composed of the parent's
//! identifier plus a local index assigned in creation order, so routing an
//! update down the tree is a direct indexed traversal.

use vstd::prelude::*;

verus! {

/// Identifies one Session; sessions are numbered in creation order from 0.
#[derive(Clone, Copy, Debug)]
pub struct SessionId {
    id: usize,
}

impl SessionId {
    /// The session's index in creation order.
    pub closed spec fn index(self) -> int {
        self.id as int
    }

    pub fn new(id: usize) -> (r: Self)
        ensures
            r.index() == id,
    {
        Self { id }
    }

    pub fn get(&self) -> (r: usize)
        ensures
            r == self.index(),
    {
        self.id
    }
}

/// Identifies one Window within its Session.
#[derive(Clone, Copy, Debug)]
pub struct WindowId {
    id: usize,
    session: SessionId,
}

impl WindowId {
    /// The window's index within its session, in creation order.
    pub closed spec fn index(self) -> int {
        self.id as int
    }

    /// The identifier of the owning session.
    pub closed spec fn session_id(self) -> SessionId {
        self.session
    }

    pub fn new(id: usize, session: SessionId) -> (r: Self)
        ensures
            r.index() == id,
            r.session_id() == session,
    {
        Self { id, session }
    }

    pub fn get(&self) -> (r: usize)
        ensures
            r == self.index(),
    {
        self.id
    }

    pub fn get_session(&self) -> (r: SessionId)
        ensures
            r == self.session_id(),
    {
        self.session
    }
}

/// Identifies one Pane within its Window.
#[derive(Clone, Copy, Debug)]
pub struct PaneId {
    id: usize,
    window: WindowId,
}

impl PaneId {
    /// The pane's index within its window, in creation order.
    pub closed spec fn index(self) -> int {
        self.id as int
    }

    /// The identifier of the owning window.
    pub closed spec fn window_id(self) -> WindowId {
        self.window
    }

    pub fn new(id: usize, window: WindowId) -> (r: Self)
        ensures
            r.index() == id,
            r.window_id() == window,
    {
        Self { id, window }
    }

    pub fn get(&self) -> (r: usize)
        ensures
            r == self.index(),
    {
        self.id
    }

    pub fn get_window(&self) -> (r: WindowId)
        ensures
            r == self.window_id(),
    {
        self.window
    }
}

} // verus!
