//! Core of a small game-update checker: it parses the on-disk version
//! descriptor of an installed game, classifies a chosen Steam library
//! root, reads the remote version manifest, and drives the application
//! state that a display layer renders.

pub mod locator;
pub mod manifest;
pub mod state;
pub mod strutil;
pub mod version;
