//! A task-tracking core: boards of cards with status, assignment, tags,
//! checklists and comments, kept in one owned store with soft-delete
//! semantics, plus the assignment resolver and the text renderers that
//! project the data into human-readable views.

pub mod clock;
pub mod gen;
pub mod ids;
pub mod laws;
pub mod models;
pub mod render;
pub mod request;
pub mod resolver;
pub mod store;
