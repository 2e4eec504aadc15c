//! The editing core of the Skerry text editor.
//!
//! Everything the editor decides lives here: what a key press means, how the
//! text and the carets change, which prompt is up, how a CSV or Markdown file
//! is presented, and what a frame shows. Reading files, drawing and talking to
//! the operating system are left to the program around the library.

pub mod app;
pub mod args;
pub mod buffer;
pub mod capture;
pub mod caret_laws;
pub mod carets;
pub mod columns;
pub mod config;
pub mod csv_preview;
pub mod document;
pub mod edit_laws;
pub mod editing;
pub mod edits;
pub mod effect;
pub mod event;
pub mod file_laws;
pub mod files;
pub mod filter;
pub mod find_laws;
pub mod finding;
pub mod frame;
pub mod help;
pub mod input;
pub mod key_laws;
pub mod labels;
pub mod language;
pub mod language_laws;
pub mod laws;
pub mod line_laws;
pub mod line_ops;
pub mod line_view;
pub mod lines;
pub mod markdown;
pub mod markdown_look;
pub mod matching;
pub mod modes;
pub mod motion;
pub mod multi_laws;
pub mod navigation;
pub mod occurrences;
pub mod order;
pub mod paint;
pub mod panel_laws;
pub mod panels;
pub mod pickers;
pub mod pointer;
pub mod pointer_laws;
pub mod preview_laws;
pub mod previews;
pub mod revisions;
pub mod routes;
pub mod scroll;
pub mod search;
pub mod session;
pub mod state;
pub mod syntax;
pub mod table_view;
pub mod text;
pub mod theme;
pub mod typing;
pub mod upkeep;
pub mod view_laws;
