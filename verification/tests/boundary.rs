use lexer_boundary::error::BoundaryError;
use lexer_boundary::{find_comments, is_keyword, parse_token_tree};

#[test]
fn line_comment_span_covers_comment_text() {
    let input = "a = 1 // note";
    let encoded = find_comments(input).unwrap();
    assert_eq!(encoded, "[[6,13]]");
    assert_eq!(&input[6..13], "// note");
}

#[test]
fn block_comment_span_covers_comment_text() {
    let input = "let x = 1; /* c */ x";
    let encoded = find_comments(input).unwrap();
    assert_eq!(encoded, "[[11,18]]");
    assert_eq!(&input[11..18], "/* c */");
}

#[test]
fn comment_spans_come_in_start_order() {
    let input = "// a\n// b";
    let encoded = find_comments(input).unwrap();
    assert_eq!(encoded, "[[0,4],[5,9]]");
    let pairs: Vec<(usize, usize)> = serde_json::from_str(&encoded).unwrap();
    for w in pairs.windows(2) {
        assert!(w[0].0 <= w[1].0);
        assert!(w[0].1 <= w[1].0);
    }
    for p in &pairs {
        assert!(p.0 < p.1);
    }
}

#[test]
fn text_without_comments_encodes_empty_sequence() {
    assert_eq!(find_comments("abc").unwrap(), "[]");
    assert_eq!(find_comments("").unwrap(), "[]");
}

#[test]
fn comment_markers_inside_string_literals_do_not_count() {
    assert_eq!(find_comments("let s = \"a // b\";").unwrap(), "[]");
    assert_eq!(find_comments("let s = \"a /* b */\";").unwrap(), "[]");
}

#[test]
fn comment_spans_round_trip_to_the_lexer_values() {
    let input = "let a = 1; // one\n/* two */ let b = 2;";
    let encoded = find_comments(input).unwrap();
    let decoded: Vec<(usize, usize)> = serde_json::from_str(&encoded).unwrap();
    let native: Vec<(usize, usize)> = motoko::lexer::find_comment_spans(input)
        .into_iter()
        .map(|r| (r.start, r.end))
        .collect();
    assert_eq!(decoded, native);
}

#[test]
fn keyword_classifies_if_as_reserved() {
    assert_eq!(is_keyword("if").unwrap(), "true");
}

#[test]
fn keyword_classifies_identifier_as_not_reserved() {
    assert_eq!(is_keyword("my_var").unwrap(), "false");
    assert_eq!(is_keyword("").unwrap(), "false");
    assert_eq!(is_keyword("If").unwrap(), "false");
}

#[test]
fn keyword_matches_the_lexer_table() {
    for ident in motoko::lexer::KEYWORDS {
        assert_eq!(is_keyword(ident).unwrap(), "true");
    }
    for ident in ["zzz", "actors", "whil", "Actor", "func "] {
        assert_eq!(is_keyword(ident).unwrap(), "false");
    }
}

#[test]
fn empty_input_yields_a_well_formed_token_tree() {
    let encoded = parse_token_tree("").unwrap();
    let tree: motoko::lexer_types::TokenTree = serde_json::from_str(&encoded).unwrap();
    let native = motoko::lexer::create_token_tree("").unwrap();
    assert!(tree == native);
}

#[test]
fn token_tree_round_trips_through_the_encoding() {
    let input = "func f() { if (x) { y } else { /* z */ } }";
    let encoded = parse_token_tree(input).unwrap();
    let tree: motoko::lexer_types::TokenTree = serde_json::from_str(&encoded).unwrap();
    let native = motoko::lexer::create_token_tree(input).unwrap();
    assert!(tree == native);
}

#[test]
fn malformed_input_never_faults() {
    for input in ["/*", "\"unterminated", "'", "\u{0}\u{1}", "((("] {
        match parse_token_tree(input) {
            Ok(encoded) => {
                let value: serde_json::Value = serde_json::from_str(&encoded).unwrap();
                assert!(value.is_object());
            }
            Err(e) => assert_eq!(e.message(), "Unable to parse input string"),
        }
    }
}

#[test]
fn repeated_calls_give_byte_identical_output() {
    let input = "let a = 1; // note";
    assert_eq!(parse_token_tree(input).unwrap(), parse_token_tree(input).unwrap());
    assert_eq!(find_comments(input).unwrap(), find_comments(input).unwrap());
    assert_eq!(is_keyword("let").unwrap(), is_keyword("let").unwrap());
}

#[test]
fn rejection_error_carries_the_fixed_message() {
    let e = BoundaryError::lexer_rejection();
    assert_eq!(e.message(), "Unable to parse input string");
}

#[test]
fn encoding_error_keeps_the_encoder_detail() {
    let e = BoundaryError::encoding_failure("unsupported value");
    assert_eq!(e.message(), "Serialization error (unsupported value)");
}
