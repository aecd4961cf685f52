//! A boundary around a native lexer for a host that cannot call it
//! directly: each operation takes a borrowed source text, invokes one
//! lexer function, and returns a fully-owned, structurally encoded result
//! or a single translated error; no native error type crosses uncaught.

use vstd::prelude::*;

pub mod error;
pub mod json_text;
pub mod keywords;
pub mod lexer_ffi;

use crate::error::BoundaryError;

verus! {

/// Builds the lexer's token tree for `input` and returns it structurally
/// encoded for the host. A lexer rejection is translated to the fixed
/// rejection message; an encoding failure keeps the encoder's detail.
/// The lexer in use accepts every text, so the call always succeeds.
pub fn parse_token_tree(input: &str) -> (r: Result<String, BoundaryError>)
    ensures
        r is Ok,
        r matches Ok(js) ==> js@ == lexer_ffi::tree_json_of(input@),
{
    match lexer_ffi::lex_tree_json(input) {
        Ok(js) => Ok(js),
        Err(failure) => Err(BoundaryError::translate(failure)),
    }
}

/// Finds the comment spans of `input` and returns them encoded as an
/// array of two-integer arrays, in the lexer's own order: starts never
/// decrease, and every span ends after it starts.
pub fn find_comments(input: &str) -> (r: Result<String, BoundaryError>)
    ensures
        r is Ok,
        r matches Ok(js) ==> js@ == json_text::json_of_spans(lexer_ffi::comment_spans_of(input@)),
        json_text::spans_separated(lexer_ffi::comment_spans_of(input@)),
        input@.len() == 0 ==> lexer_ffi::comment_spans_of(input@).len() == 0,
{
    let pairs = lexer_ffi::comment_pairs(input);
    match lexer_ffi::encode_spans(&pairs) {
        Ok(js) => Ok(js),
        Err(failure) => Err(BoundaryError::translate(failure)),
    }
}

/// Classifies `ident` against the lexer's keyword table and returns the
/// encoded classification. Total: every string classifies, unmatched
/// strings as not a keyword, and the answer depends on `ident` alone.
pub fn is_keyword(ident: &str) -> (r: Result<String, BoundaryError>)
    ensures
        r is Ok,
        r matches Ok(js) ==> js@ == json_text::json_of_bool(keywords::is_reserved(ident@)),
{
    let classification = lexer_ffi::keyword_lookup(ident);
    match lexer_ffi::encode_classification(&classification) {
        Ok(js) => Ok(js),
        Err(failure) => Err(BoundaryError::translate(failure)),
    }
}

} // verus!
