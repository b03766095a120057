//! Keeps a collection of Markdown files in step with the pages of an EgoCMS site.
//!
//! The library decides; the program around it reads files, walks directories and
//! talks to the EgoCMS REST API.
//! - `config`: the command-line arguments and the test-environment flag.
//! - `communicator`: the requests that the EgoCMS REST API is sent.
//! - `page`: one page, its `extra` section and the HTML of its Markdown file.
//! - `table`: the sanity checks of the mapping table against the Markdown directory.
//! - `path`: the extension of a file name.
//! - `json`, `html`: the calls into `serde_json` and `markdown`.
//! - `text`: small string helpers.

pub mod communicator;
pub mod config;
pub mod html;
pub mod json;
pub mod page;
pub mod path;
pub mod table;
pub mod text;
