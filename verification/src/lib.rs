//! A multi-window orchestration core: it manages a dynamic set of top-level
//! windows, routes typed application messages between them, enforces
//! window-identity and modal (parent/child) relationships, and interprets the
//! command protocol that feeds host results back into the routing loop.
//!
//! [`protocol`] holds the message vocabulary, the window record and the
//! capability every window kind implements; [`collection`] the map of live
//! windows; [`multi_windows`] the routing engine and the specification-level
//! machine its behaviour is pinned to; [`laws`] the proved guarantees of
//! that machine; [`table`] the pure data shared with the display layer's
//! table widget.

pub mod collection;
pub mod laws;
pub mod multi_windows;
pub mod protocol;
pub mod table;
