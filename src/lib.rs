//! Small verified exercises: an ordered binary tree, a generic pair, string
//! helpers, integer parsing, keyword lookups, a mode of integers, plain
//! records, and the decisions behind a few console programs.

pub mod binary_tree;
pub mod arith;
pub mod pair;
pub mod text;
pub mod parse;
pub mod lookup;
pub mod stats;
pub mod custom_sp;
pub mod records;
pub mod guess;
pub mod control;
pub mod employees;
