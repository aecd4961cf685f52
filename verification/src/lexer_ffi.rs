//! The trusted items around the lexer library and the structural encoder.
//! Everything the boundary believes of the outside crates is stated here.

use vstd::prelude::*;
use crate::error::MarshalFailure;
use crate::json_text::{json_of_bool, json_of_spans, spans_separated};
use crate::keywords::is_reserved;

verus! {

/// The comment spans the lexer finds in a source text, as pairs of byte
/// offsets, in the lexer's own order. The result depends on the text alone.
pub uninterp spec fn comment_spans_of(s: Seq<char>) -> Seq<(usize, usize)>;

/// The structural encoding of the token tree the lexer builds from a
/// source text: the generic encoder's JSON text for it. The token tree,
/// and with it this text, depends on the source text alone.
pub uninterp spec fn tree_json_of(s: Seq<char>) -> Seq<char>;

/// Relies on motoko::lexer::find_comment_spans: a single left-to-right scan
/// of the text, pushing one byte range per comment; each pushed range is
/// non-empty (a comment opener is two characters) and ends at or before the
/// position the scan continues from, so ranges never overlap and starts
/// never decrease. Only the two offsets of each native range are kept.
#[verifier::external_body]
pub(crate) fn comment_pairs(input: &str) -> (r: Vec<(usize, usize)>)
    ensures
        r@ == comment_spans_of(input@),
        spans_separated(r@),
        input@.len() == 0 ==> r@.len() == 0,
{
    motoko::lexer::find_comment_spans(input).into_iter().map(|s| (s.start, s.end)).collect()
}

/// Relies on motoko::lexer::create_token_tree, which returns Ok on every
/// input (its source constructs no Err value on any path), and on
/// serde_json::to_string, whose output depends on the serialized value
/// alone; the token tree carries only enum tags, strings and unsigned
/// integers, all of which that encoder accepts, so encoding cannot fail
/// either. The failure arms are kept so that a lexer or encoder that does
/// report failure is still carried over, never unwrapped. The two calls
/// stand in one body so that the encoded tree can be named as a function
/// of the source text alone.
#[verifier::external_body]
pub(crate) fn lex_tree_json(input: &str) -> (r: Result<String, MarshalFailure>)
    ensures
        r is Ok,
        r matches Ok(js) ==> js@ == tree_json_of(input@),
{
    match motoko::lexer::create_token_tree(input) {
        Ok(tree) => serde_json::to_string(&tree).map_err(
            |e| MarshalFailure::Encoding(e.to_string()),
        ),
        Err(()) => Err(MarshalFailure::Rejected),
    }
}

/// Relies on serde_json::to_string on a vector of offset pairs: it writes
/// a comma-separated array of two-element arrays of decimal integers, with
/// no spacing, and cannot fail on this type (no maps, no floating point).
#[verifier::external_body]
pub(crate) fn encode_spans(pairs: &Vec<(usize, usize)>) -> (r: Result<String, MarshalFailure>)
    ensures
        r is Ok,
        r matches Ok(js) ==> js@ == json_of_spans(pairs@),
{
    serde_json::to_string(pairs).map_err(|e| MarshalFailure::Encoding(e.to_string()))
}

/// Relies on serde_json::to_string on a boolean: it writes exactly `true`
/// or `false` and cannot fail.
#[verifier::external_body]
pub(crate) fn encode_classification(value: &bool) -> (r: Result<String, MarshalFailure>)
    ensures
        r is Ok,
        r matches Ok(js) ==> js@ == json_of_bool(*value),
{
    serde_json::to_string(value).map_err(|e| MarshalFailure::Encoding(e.to_string()))
}

/// Relies on motoko::lexer::is_keyword: membership of the identifier in
/// the lexer's fixed keyword table, which reserved_keywords() copies
/// entry for entry.
#[verifier::external_body]
pub(crate) fn keyword_lookup(ident: &str) -> (r: bool)
    ensures
        r == is_reserved(ident@),
{
    motoko::lexer::is_keyword(ident)
}

} // verus!
