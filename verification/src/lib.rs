//! The decisions of a terminal text editor: what an event does to the editor's
//! state, where things go on screen, and how answers that come in late are
//! carried to the text as it is now.
//!
//! Nothing here reads a terminal, a file, a language server or a repository.
//! The program around the library does that; it hands plain values in and
//! carries out what comes back.

pub mod app;
pub mod body;
pub mod card;
pub mod code_actions;
pub mod commands;
pub mod completion;
pub mod diagnostics;
pub mod diff;
pub mod edit;
pub mod emphasis;
pub mod folds;
pub mod following;
pub mod format;
pub mod geometry;
pub mod gutter;
pub mod hits;
pub mod hover;
pub mod input;
pub mod inserting;
pub mod jumps;
pub mod keys;
pub mod labels;
pub mod layers;
pub mod messages;
pub mod navigation;
pub mod order;
pub mod outcome;
pub mod palette;
pub mod panels;
pub mod paste;
pub mod paths;
pub mod place;
pub mod pointing;
pub mod popup;
pub mod problems;
pub mod references;
pub mod reply;
pub mod rope;
pub mod scroll;
pub mod servers;
pub mod showing;
pub mod snippets;
pub mod spans;
pub mod status;
pub mod stops;
pub mod target;
pub mod text;
pub mod unicode;
pub mod words;
