//! Watching a remote build job and paging through search results.
pub mod args;
pub mod config;
pub mod github;
pub mod link;
pub mod number;
pub mod poll;
pub mod render;
pub mod teamcity;
pub mod text;
