//! Verified core of the YAI command-line client: argument handling, text
//! scanning and rendering, the HTTP framing of provider calls, the bounded
//! graph queries and the decisions of the Case conversation host.
//!
//! Everything here works on plain values. The terminal, the filesystem, the
//! record store and the network stay with the program that links this library.

pub mod seqs;
pub mod text;
pub mod numbers;
pub mod args;
pub mod json_scan;
pub mod render;
pub mod words;
pub mod display;
pub mod presentation;
pub mod terminal;
pub mod http;
pub mod provider;
pub mod graph;
pub mod graph_search;
pub mod observe;
pub mod report;
pub mod preview;
pub mod settings;
pub mod memory;
pub mod routes;
pub mod threads;
pub mod prompt;
pub mod conversation;
pub mod controller;
pub mod paths;
pub mod records;
pub mod execution;
pub mod recovery;
pub mod semantic;
pub mod feedback;
pub mod lowering;
pub mod entry;
pub mod setup;
pub mod drafts;
