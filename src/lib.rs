//! A keyboard-driven task manager: projects holding tasks with a three-state
//! lifecycle, a single-line text editor, and the controller that keeps the
//! "current project" and "current task" selections consistent.
pub mod editor;
pub mod task;
pub mod project;
pub mod collection;
pub mod ids;
pub mod app;
pub mod screen;
pub mod stats;
