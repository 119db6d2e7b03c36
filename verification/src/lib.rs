//! Generator for the browser-side chunk-loading runtime of a module bundler.
//!
//! Given per-chunk boolean predicate results, a set of required runtime
//! capabilities, and output configuration, the library composes the loader
//! code that a host runs to load, track, and hot-swap bundled chunks: a
//! boolean matcher compiled from the condition map, a chunk-load state
//! table, and a fixed-order sequence of parametrized code fragments.

pub mod assemble;
pub mod fragments;
pub mod json;
pub mod matcher;
pub mod state;
pub mod template;
pub mod text;
