//! Changelogs and version recommendations from a range of commits.
//!
//! The library takes what a repository holds as plain values: tag names, commit
//! ids, commit messages and authors. It resolves a range into segments bounded
//! by version tags, classifies each commit by its conventional-commit subject,
//! gathers the contributors, names each segment by the version that follows,
//! and renders the result as Markdown.

pub mod aggregate;
pub mod classify;
pub mod dict;
pub mod identity;
pub mod model;
pub mod range;
pub mod remote;
pub mod render;
pub mod run;
pub mod tags;
pub mod text;
pub mod version;
