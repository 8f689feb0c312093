//! The multiplexer core: the session tree, the renderer, and the dispatch
//! decisions.
//!
//! The dispatch loop owned by the surrounding process dequeues events one
//! at a time and hands each to [`Splix::handle_event`], the sole mutator of
//! all Session/Window/Pane/Grid state. A pane update is routed down the
//! tree and followed by one full render pass of the visible window; a
//! keystroke is returned as an action for the caller to deliver to the
//! active pane's input channel.

use vstd::prelude::*;

use crate::event::Event;
use crate::event::PaneUpdateEvent;
use crate::grid::apply_update;
use crate::ids::SessionId;
use crate::renderer::blank_cells;
use crate::renderer::frame_diff;
use crate::renderer::home_seq;
use crate::renderer::overlay;
use crate::renderer::Renderer;
use crate::session::Session;

verus! {

/// Whether an event's embedded identifiers address an existing pane of the
/// tree. Identifiers are only ever produced by the tree itself, so a
/// violation is a programming error, not a recoverable condition.
pub open spec fn event_in_range(sessions: Seq<Seq<Seq<Seq<Seq<char>>>>>, e: Event) -> bool {
    match e {
        Event::PaneUpdate(pe) => {
            let s = pe.pane_spec().window_id().session_id().index();
            let w = pe.pane_spec().window_id().index();
            let p = pe.pane_spec().index();
            &&& 0 <= s < sessions.len()
            &&& 0 <= w < sessions[s].len()
            &&& 0 <= p < sessions[s][w].len()
        },
        Event::Input(_) => true,
    }
}

/// The session tree after one pane update is applied along its id path;
/// every other grid is untouched.
pub open spec fn sessions_after_update(
    sessions: Seq<Seq<Seq<Seq<Seq<char>>>>>,
    pe: PaneUpdateEvent,
) -> Seq<Seq<Seq<Seq<Seq<char>>>>> {
    let s = pe.pane_spec().window_id().session_id().index();
    let w = pe.pane_spec().window_id().index();
    let p = pe.pane_spec().index();
    sessions.update(
        s,
        sessions[s].update(
            w,
            sessions[s][w].update(p, apply_update(sessions[s][w][p], pe.grid_update_spec())),
        ),
    )
}

/// The terminal-multiplexing engine's state: every session, and the
/// renderer for the one physical screen.
pub struct Splix {
    sessions: Vec<Session>,
    next_session_id: usize,
    renderer: Renderer,
}

impl Splix {
    /// The content of every session's windows' panes, in creation order.
    pub closed spec fn sessions_view(&self) -> Seq<Seq<Seq<Seq<Seq<char>>>>> {
        Seq::new(self.sessions@.len(), |i: int| self.sessions@[i]@)
    }

    /// The renderer's state.
    pub closed spec fn renderer_spec(&self) -> Renderer {
        self.renderer
    }

    /// Structural soundness of the whole engine: at least one session,
    /// ids match creation order, every container holds at least its one
    /// initial child, and the renderer's buffers cover the screen.
    pub closed spec fn wf(&self) -> bool {
        &&& self.sessions@.len() >= 1
        &&& self.next_session_id == self.sessions@.len()
        &&& forall|i: int|
            0 <= i < self.sessions@.len() ==> (#[trigger] self.sessions@[i]).id_spec().index() == i
        &&& forall|i: int| 0 <= i < self.sessions@.len() ==> (#[trigger] self.sessions@[i]).wf()
        &&& forall|i: int|
            0 <= i < self.sessions@.len() ==> (#[trigger] self.sessions@[i])@.len() >= 1
        &&& forall|i: int, j: int|
            0 <= i < self.sessions@.len() && 0 <= j < self.sessions@[i]@.len() ==> (
            #[trigger] self.sessions@[i]@[j]).len() >= 1
        &&& self.renderer.wf()
    }

    /// Builds the engine for a screen measured once at startup: one
    /// initial session (holding one window holding one empty pane) and a
    /// renderer sized to the screen.
    pub fn new(screen_width: usize, screen_height: usize) -> (r: Self)
        requires
            screen_width * screen_height <= usize::MAX,
        ensures
            r.wf(),
            r.sessions_view() == seq![seq![seq![Seq::<Seq<char>>::empty()]]],
            r.renderer_spec().width_spec() == screen_width,
            r.renderer_spec().height_spec() == screen_height,
            r.renderer_spec().out() == Seq::<char>::empty(),
            r.renderer_spec().cells() == blank_cells(
                screen_width as int * screen_height as int,
            ),
            r.renderer_spec().shown() == blank_cells(
                screen_width as int * screen_height as int,
            ),
    {
        let mut splix = Self {
            sessions: Vec::new(),
            next_session_id: 0,
            renderer: Renderer::new(screen_width, screen_height),
        };
        splix.new_session();
        proof {
            assert(splix.sessions_view() =~= seq![seq![seq![Seq::<Seq<char>>::empty()]]]);
        }
        splix
    }

    /// Appends one fresh session, with the next creation-order id.
    fn new_session(&mut self)
        requires
            old(self).next_session_id == old(self).sessions@.len(),
            forall|i: int|
                0 <= i < old(self).sessions@.len() ==> (#[trigger] old(self).sessions@[i]).id_spec().index() == i,
        ensures
            final(self).sessions@.len() == old(self).sessions@.len() + 1,
            final(self).next_session_id == final(self).sessions@.len(),
            forall|i: int|
                0 <= i < final(self).sessions@.len() ==> (#[trigger] final(self).sessions@[i]).id_spec().index() == i,
            forall|i: int|
                0 <= i < old(self).sessions@.len() ==> final(self).sessions@[i] == old(self).sessions@[i],
            final(self).sessions@.last().wf(),
            final(self).sessions@.last()@ == seq![seq![Seq::<Seq<char>>::empty()]],
            final(self).renderer == old(self).renderer,
            final(self).sessions_view() == old(self).sessions_view().push(
                seq![seq![Seq::<Seq<char>>::empty()]],
            ),
    {
        let id = SessionId::new(self.next_session_id);
        let session = Session::new(id);
        self.sessions.push(session);
        self.next_session_id = self.sessions.len();
        proof {
            assert(self.sessions_view() =~= old(self).sessions_view().push(
                seq![seq![Seq::<Seq<char>>::empty()]],
            ));
        }
    }

    /// Applies one dequeued event, in FIFO position: a pane update mutates
    /// the addressed grid and triggers one full render pass of the visible
    /// window; a keystroke is returned so the caller can forward the byte
    /// to the active pane (currently always the first pane of the first
    /// window of the first session).
    pub fn handle_event(&mut self, event: &Event) -> (forward: Option<u8>)
        requires
            old(self).wf(),
            event_in_range(old(self).sessions_view(), *event),
        ensures
            final(self).wf(),
            match *event {
                Event::PaneUpdate(pe) => {
                    &&& forward is None
                    &&& final(self).sessions_view() == sessions_after_update(
                        old(self).sessions_view(),
                        pe,
                    )
                    &&& frame_emitted(old(self), final(self))
                },
                Event::Input(b) => {
                    &&& forward == Some(b)
                    &&& final(self).sessions_view() == old(self).sessions_view()
                    &&& final(self).renderer_spec() == old(self).renderer_spec()
                },
            },
    {
        match event {
            Event::PaneUpdate(pane_update) => {
                self.handle_pane_update(pane_update);
                None
            },
            Event::Input(input) => Some(*input),
        }
    }

    /// Routes one pane update down the tree and repaints.
    fn handle_pane_update(&mut self, event: &PaneUpdateEvent)
        requires
            old(self).wf(),
            event_in_range(old(self).sessions_view(), Event::PaneUpdate(*event)),
        ensures
            final(self).wf(),
            final(self).sessions_view() == sessions_after_update(
                old(self).sessions_view(),
                *event,
            ),
            frame_emitted(old(self), final(self)),
    {
        let sidx = event.get_pane().get_window().get_session().get();
        let session = &mut self.sessions[sidx];
        session.update_pane(event.get_pane(), event.get_grid_update());
        proof {
            assert(self.sessions_view() =~= sessions_after_update(
                old(self).sessions_view(),
                *event,
            ));
            assert forall|i: int, j: int|
                0 <= i < self.sessions@.len() && 0 <= j < self.sessions@[i]@.len() implies (
            #[trigger] self.sessions@[i]@[j]).len() >= 1 by {
                assert(old(self).sessions@[i]@[j].len() >= 1);
            }
        }
        self.redraw();
    }

    /// Hands over everything the renderer has emitted so far; the caller
    /// writes it to the terminal and flushes once.
    pub fn take_output(&mut self) -> (r: Vec<char>)
        ensures
            r@ == old(self).renderer_spec().out(),
            final(self).renderer_spec().out() == Seq::<char>::empty(),
            final(self).sessions_view() == old(self).sessions_view(),
            final(self).renderer_spec().cells() == old(self).renderer_spec().cells(),
            final(self).renderer_spec().shown() == old(self).renderer_spec().shown(),
            old(self).wf() ==> final(self).wf(),
    {
        self.renderer.take_output()
    }

    /// One full render pass of the currently visible window (the first
    /// window of the first session).
    fn redraw(&mut self)
        requires
            old(self).wf(),
        ensures
            final(self).wf(),
            final(self).sessions_view() == old(self).sessions_view(),
            frame_emitted(old(self), final(self)),
    {
        self.renderer.begin_frame();
        let session = &self.sessions[0];
        self.renderer.draw_window(session.get_window(0));
        self.renderer.end_frame();
        proof {
            assert(self.sessions_view() =~= old(self).sessions_view());
        }
    }
}

/// What one render pass does to the renderer: the frame last composed
/// becomes the frame shown, the new frame is the visible pane's grid drawn
/// over a blank screen, and the output gains the cursor-home sequence
/// followed by exactly the changed runs between the two frames.
pub open spec fn frame_emitted(before: &Splix, after: &Splix) -> bool {
    let w = before.renderer_spec().width_spec();
    let h = before.renderer_spec().height_spec();
    let shown = before.renderer_spec().cells();
    let composed = overlay(blank_cells(w * h), after.sessions_view()[0][0][0], w);
    &&& after.renderer_spec().width_spec() == w
    &&& after.renderer_spec().height_spec() == h
    &&& after.renderer_spec().shown() == shown
    &&& after.renderer_spec().cells() == composed
    &&& after.renderer_spec().out() == before.renderer_spec().out() + home_seq() + frame_diff(
        shown,
        composed,
        w,
        h,
    )
}

} // verus!
