//! A library for working with [ads.txt] files: a line-oriented parser for the
//! record and variable grammar, and the decision core of a bounded-concurrency
//! discovery crawler (fetch classification, redirect validation, timeout
//! policy, chunked scheduling).
//!
//! [ads.txt]: https://iabtechlab.com/ads-txt/

pub mod crawler;
pub mod parser;
pub mod text;

pub use parser::{AdsTxt, Comment, Extension, LineData, Record, Relation, Variable};
