//! The coordination core of a terminal front-end for a remote, RPC-driven
//! text-editing engine. The engine owns the document; this library owns
//! what the terminal shows of it: a partial line cache, a scrolling
//! viewport, a modal input grammar, and the per-tick routing of engine
//! notifications. Everything here is pure coordination over plain values:
//! input events come in as data, editing requests go out as data, and the
//! process edges (terminal, RPC transport, scheduling) live outside the
//! library.

pub mod client;
pub mod command_prompt;
pub mod editor;
pub mod line_cache;
pub mod modal;
pub mod style;
pub mod tty;
pub mod view;
pub mod vix;
pub mod window;
