//! Verified core of the `download` tool: command-line flags, the stored
//! configuration and its edits, the argument list handed to the downloader,
//! the HTML fragments served by the web interface, and the log scanner that
//! tracks download progress.
pub mod text;
pub mod html;
pub mod config;
pub mod cmd_args;
pub mod form;
pub mod progress;
pub mod server;
pub mod download;
