use vstd::prelude::*;

pub mod text;
pub mod hashline;
pub mod edit;
pub mod edit_prepare;
pub mod edit_preview;
pub mod edit_report;
pub mod edit_files;
pub mod edit_args;
pub mod edit_parse;
pub mod edit_canon;
pub mod edit_messages;
pub mod read;
pub mod read_args;
pub mod utils;
pub mod sizes;
pub mod listing;
pub mod replace;
pub mod braces;
pub mod search;
pub mod grep;
pub mod dir_search;
pub mod search_args;
pub mod lines_search;
pub mod write;
pub mod create;
pub mod str_replace;
pub mod replace_preview;
pub mod multi_replace;
pub mod delete;
pub mod terminal;
pub mod shell;
pub mod processes;
pub mod laws;

verus! {

} // verus!
