//! Browser automation for agents: the command logic behind the `webpilot` command line.
pub mod action;
pub mod assets;
pub mod cdp;
pub mod cli;
pub mod codec;
pub mod commands;
pub mod error;
pub mod fields;
pub mod headless;
pub mod host;
pub mod json;
pub mod lockfile;
pub mod mcp;
pub mod model;
pub mod output;
pub mod paths;
pub mod pending;
pub mod protocol;
pub mod text;
pub mod tools;
pub mod url_glob;
