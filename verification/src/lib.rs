//! Worktrunk lists the working copies of a repository, and on request its
//! branches, with what can be found out about each: the last commit, how far
//! it is ahead of and behind the main branch, what has changed, whether it
//! would merge, how its CI run went.
//!
//! Finding these things out takes many slow queries. The listing therefore
//! gathers every cell of every row by a task of its own and takes the results
//! as they come:
//!
//! - [`commands::list::collect_progressive_impl`] says which queries are made
//!   for a row, and [`commands::list::task`] how each task goes from answer to
//!   answer and ends in one update, also where every query fails;
//! - [`commands::list::consumer`] writes the updates into the rows and says
//!   what is to be redrawn and when the listing is complete;
//! - [`commands::list::layout`] fits the columns to the terminal, and
//!   [`commands::list::render`] writes the lines.
//!
//! The library asks no query itself and writes to no stream: its callers run
//! the queries that it hands out and print the lines that it returns.
//!
//! Around this stand the parsers for the output of the version-control engine
//! ([`git`]), measures of text on a terminal ([`display`]), template expansion
//! ([`config`]) and helpers for the other commands ([`commands`]).

pub mod commands;
pub mod config;
pub mod display;
pub mod git;
pub mod md_help;
pub mod styling;
pub mod text;
