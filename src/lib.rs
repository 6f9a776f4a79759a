//! Full-text search core of a blog: text normalisation, CJK-aware
//! tokenisation, the analyzer chain, query planning, tag search and paging.
pub mod analyzer;
pub mod archive;
pub mod articles;
pub mod document;
pub mod errors;
pub mod friends;
pub mod lock;
pub mod markdown;
pub mod paging;
pub mod query;
pub mod reload;
pub mod routes;
pub mod segment;
pub mod text;
