//! Verse search and filtering engine for a books/chapters/verses corpus.
//!
//! The corpus is modelled as plain data (`corpus::Corpus`); operator-supplied
//! tokens select a scope (books and chapters, `scope` and `parse`) and content
//! constraints (phrases, regular expressions and whole words, `text`), and the
//! driver (`search`) walks the corpus in canonical order and renders either a
//! listing of matching verses or a per-chapter count report.

use vstd::prelude::*;

pub mod chars;
pub mod corpus;
pub mod filters;
pub mod matcher;
pub mod parse;
pub mod render;
pub mod scope;
pub mod search;
pub mod text;
pub mod verse;

verus! {

/// Per-invocation search parameters: match tokens (phrases or `/regex/`
/// patterns, with `!`/`+` prefixes for exclude/must-match), word tokens
/// (same prefixes), scope tokens, a counting flag and an optional
/// reporting threshold.
pub struct SearchArgs {
    pub matching: Vec<String>,
    pub word: Vec<String>,
    pub scopes: Vec<String>,
    pub count: bool,
    pub threshold: Option<u32>,
}

/// One operator command over a corpus.
pub enum Command {
    /// List details about the archive file.
    Details { compression: bool },
    /// Fetch one or more verses by reference, e.g. "Ge 1:1".
    Verse { verses: Vec<String> },
    /// Perform a search for matching verses.
    Search(SearchArgs),
}

/// Top-level invocation arguments: an optional archive path and a command.
pub struct Args {
    pub file: Option<String>,
    pub command: Option<Command>,
}

} // verus!
