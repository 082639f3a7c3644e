//! Client-side session logic for a planning poker room: the room model, the session state
//! machine that merges server snapshots with local actions, vote aggregation, the changelog
//! range filter and a small text editor for input fields.

pub mod models;
pub mod text;
pub mod client;
pub mod app;
pub mod session_laws;
pub mod changelog;
pub mod text_input;
pub mod web;
pub mod display;
