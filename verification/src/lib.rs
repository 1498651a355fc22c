//! Decisions behind collecting and analysing the contributors of GitHub
//! repositories: which configuration is in force, which API token to use next,
//! what git's output says about an author, and in which time zone a
//! contributor mostly works.
//!
//! Nothing here performs I/O. Where a decision needs the outside world, a
//! function says what to do next and takes the answer as a plain value.

pub mod config;
pub mod contributors;
pub mod git;
pub mod locations;
pub mod model;
pub mod repository;
pub mod text;
pub mod timezone;
pub mod tokens;
