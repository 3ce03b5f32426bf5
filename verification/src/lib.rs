//! Small verified building blocks: a typestate blog post, a user repository
//! over pluggable key/value storage, a sorted-map builder, an application
//! configuration model and a snippet store with its command line, downloads
//! and log levels.

pub mod post;
pub mod storage;
pub mod users;
pub mod sorted_map;
pub mod config;
pub mod request;
pub mod text;
pub mod slug;
pub mod snippets;
pub mod provider;
pub mod cli;
pub mod download;
pub mod logging;
