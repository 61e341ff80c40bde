//! A knowledge-platform server's core rules, verified: text handling for
//! citations, names and file names; the chat turn's tool table, call guard,
//! policy and the texts its tools answer; the ontology lists of an extraction
//! prompt and the rules of extraction; fetch address and redirect rules; ingest
//! decisions and feed entries; password hashing and checking, and session
//! tokens; and the checks on account, review,
//! ontology and question requests.
use vstd::prelude::*;

pub mod accounts;
pub mod agent;
pub mod admin;
pub mod alerts;
pub mod answer;
pub mod bootstrap;
pub mod chat;
pub mod citations;
pub mod client;
pub mod dates;
pub mod docs;
pub mod extraction;
pub mod documents;
pub mod feeds;
pub mod fetch;
pub mod graph;
pub mod ids;
pub mod ingest;
pub mod lines;
pub mod files;
pub mod mappings;
pub mod mcp;
pub mod ontology;
pub mod open_graph;
pub mod paging;
pub mod passwords;
pub mod prompt;
pub mod questions;
pub mod review;
pub mod search;
pub mod sse;
pub mod text;
pub mod tokens;
pub mod tool_text;

verus! {
} // verus!
