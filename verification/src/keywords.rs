//! The lexer's keyword table, stated in full so that a keyword
//! classification is an exact function of the identifier text.

use vstd::prelude::*;

verus! {

/// The reserved keywords of the language, exactly as the lexer's own
/// table lists them, in its order.
pub open spec fn reserved_keywords() -> Seq<Seq<char>> {
    seq![
        "actor"@,
        "and"@,
        "async"@,
        "assert"@,
        "await"@,
        "break"@,
        "case"@,
        "catch"@,
        "class"@,
        "composite"@,
        "continue"@,
        "debug"@,
        "else"@,
        "false"@,
        "for"@,
        "func"@,
        "if"@,
        "in"@,
        "import"@,
        "module"@,
        "not"@,
        "null"@,
        "object"@,
        "or"@,
        "label"@,
        "let"@,
        "loop"@,
        "private"@,
        "public"@,
        "return"@,
        "shared"@,
        "try"@,
        "throw"@,
        "debug_show"@,
        "query"@,
        "switch"@,
        "true"@,
        "type"@,
        "var"@,
        "while"@,
        "stable"@,
        "flexible"@,
        "system"@,
        "ignore"@,
        "to_candid"@,
        "from_candid"@,
        "with"@,
        "finally"@,
        "persistent"@,
        "transient"@,
        "do"@,
        "implicit"@,
        "weak"@,
        "mixin"@,
        "include"@,
    ]
}

/// Whether `s` is one of the reserved keywords.
pub open spec fn is_reserved(s: Seq<char>) -> bool {
    reserved_keywords().contains(s)
}

} // verus!
