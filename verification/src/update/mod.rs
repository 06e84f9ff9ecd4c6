//! Bringing an installation up to date.

pub mod plan;
pub mod winget;
pub mod winget_discover;
