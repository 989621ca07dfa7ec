//! The verified core of a coding agent.
pub mod list;
pub mod text;
pub mod wording;
pub mod promises;
pub mod judged;
pub mod remembered;
pub mod json;
pub mod message;
pub mod plan;
pub mod session;
pub mod context;
pub mod util;
pub mod tools;
pub mod workspace;
pub mod nearest;
pub mod permission;
pub mod hooks;
pub mod config;
pub mod time;
pub mod provider;
pub mod skills;
pub mod hash;
pub mod storage;
pub mod event;
pub mod runtime;
pub mod tui;
