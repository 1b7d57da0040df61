//! Meeting notes of the Granola service: reading, filtering and rendering.

pub mod api;
pub mod args;
pub mod attribution;
pub mod auth;
pub mod cli;
pub mod codes;
pub mod dates;
pub mod desktop;
pub mod flow;
pub mod frames;
pub mod json;
pub mod mcp;
pub mod meetings;
pub mod merge;
pub mod notes;
pub mod output;
pub mod prosemirror;
pub mod query;
pub mod report;
pub mod session;
pub mod storage;
pub mod text;
pub mod wire;
