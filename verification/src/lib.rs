//! The core of a tile-map level editor: four sparse layers over an unbounded
//! integer grid, an undo/redo log of invertible edits, the dispatcher that
//! turns pointer events into logged edits, and the binary level-file codec.
//!
//! The session is stated twice: [`model::EditorView`] is its value in
//! contracts, with every operation as a function on that value, and
//! [`editor::Editor`] is the executable session, each operation verified to
//! compute what the function of the same name says. The laws of the editor
//! ([`laws`], [`round_trip`]) are proved of the functions.
//!
//! The layers are kept in ascending order of their cells, so that a saved
//! level is a function of the layers' contents alone.
//!
//! Two calls into the standard library are taken on trust: the UTF-8 check
//! of labels read from a file, and the trimming of typed labels. All else is
//! verified. Drawing, windows, dialogs and file access belong to the program
//! around the library: it hands in pointer and key events, the typed text
//! and the bytes of files, and reads the layers to draw them.

pub mod types;
pub mod cell_map;
pub mod label_order;
pub mod sets;
pub mod model;
pub mod editor;
pub mod history;
pub mod plot_panel;
pub mod laws;
pub mod codec;
pub mod file;
pub mod popups;
pub mod input;
pub mod round_trip;
pub mod side_panel;
