//! A terminal-multiplexer engine.
//!
//! The engine hosts shell sessions in a Session -> Window -> Pane hierarchy,
//! keeps a text grid per pane, decodes the shells' UTF-8 output incrementally,
//! and repaints a single physical screen through a diff-based renderer. All
//! state mutation is funnelled through one dispatch point, so the tree needs
//! no locking; the surrounding process supplies the actual I/O.

pub mod ansi;
pub mod event;
pub mod grid;
pub mod ids;
pub mod multiplexer;
pub mod pane;
pub mod renderer;
pub mod replay;
pub mod session;
pub mod utf8;
pub mod window;

pub use ansi::AnsiEncoder;
pub use event::grid_update_for_char;
pub use event::pane_updates_for_chars;
pub use event::Event;
pub use event::GridUpdate;
pub use event::PaneUpdateEvent;
pub use grid::Grid;
pub use ids::PaneId;
pub use ids::SessionId;
pub use ids::WindowId;
pub use multiplexer::Splix;
pub use pane::Pane;
pub use renderer::Renderer;
pub use session::Session;
pub use utf8::Utf8Decoder;
pub use window::Window;
