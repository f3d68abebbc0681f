//! A minimal embeddable SQL query-processing core.
//!
//! Two components carry the real design weight. The columnar ingestion
//! layer ([`external`]) reconstructs typed, structure-preserving views
//! over a columnar table described by a foreign layout contract. The
//! execution planner ([`planner`]) compiles a parsed SELECT query
//! ([`ast`]) into a DAG of typed operations with explicit dependencies,
//! and its readiness-based scheduler computes valid execution orders.
//! [`lexer`] holds the plain-data half of tokenization; the tokenizer
//! and grammar themselves are outside collaborators.
pub mod ast;
pub mod external;
pub mod lexer;
pub mod planner;
