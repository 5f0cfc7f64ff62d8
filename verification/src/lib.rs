//! Verified core of `xin`, an agent-first command line client for JMAP email.
pub mod app_config;
pub mod cli;
pub mod compose;
pub mod config;
pub mod envelope;
pub mod error;
pub mod feature;
pub mod header_dict;
pub mod headers;
pub mod links;
pub mod mailbox;
pub mod organize;
pub mod paging;
pub mod paths;
pub mod pieces;
pub mod plain;
pub mod seqs;
pub mod stream;
pub mod sugar;
pub mod text;
pub mod time;
