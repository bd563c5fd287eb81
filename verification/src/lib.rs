//! Core of a game client shell: a hierarchical screen state machine, the
//! per-screen UI lifecycle (spawn and teardown of screen-scoped subtrees),
//! navigation rules (press handling and highlight precedence), and a settings
//! store with a load/parse/apply/save round trip.
//!
//! Rendering, windowing and disk access live outside this crate; every
//! function here is pure logic over plain values and is verified.

pub mod applier;
pub mod config;
pub mod nav;
pub mod protocol;
pub mod scene;
pub mod shell;
pub mod state;
pub mod text;
