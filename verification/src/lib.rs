//! A query language over the contents of Git repositories: references,
//! commits, diffs, branches and tags as tables.
//!
//! The text of a query is cut into tokens (`tokenizer`); a query, as
//! statements over expressions (`statement`, `expression`), is carried out
//! on the rows of a table (`engine`, `engine_executor`, `engine_evaluator`),
//! which `engine_function` makes from what was read from a repository; the
//! result is a table of values under titles (`object`), which
//! `table_printer` lays out in pages.

use vstd::prelude::*;

pub mod aggregation;
pub mod diagnostic;
pub mod engine;
pub mod engine_evaluator;
pub mod engine_executor;
pub mod engine_function;
pub mod expression;
pub mod letter_case;
pub mod name_map;
pub mod object;
pub mod ordering;
pub mod range;
pub mod render;
pub mod signature;
pub mod statement;
pub mod table_printer;
pub mod text;
pub mod tokenizer;
pub mod types;
pub mod value;
