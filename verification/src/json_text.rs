//! The exact JSON text that the boundary hands to the host for the values it
//! can state in full: comment-span sequences and keyword classifications.

use vstd::prelude::*;

verus! {

/// The decimal digit character for `d`, which must be below ten.
pub open spec fn decimal_digit(d: nat) -> char {
    if d == 0 {
        '0'
    } else if d == 1 {
        '1'
    } else if d == 2 {
        '2'
    } else if d == 3 {
        '3'
    } else if d == 4 {
        '4'
    } else if d == 5 {
        '5'
    } else if d == 6 {
        '6'
    } else if d == 7 {
        '7'
    } else if d == 8 {
        '8'
    } else {
        '9'
    }
}

/// The decimal text of `n`: most significant digit first, no sign, no
/// leading zeros, as a JSON integer is written.
pub open spec fn decimal_text(n: nat) -> Seq<char>
    decreases n,
{
    if n < 10 {
        seq![decimal_digit(n)]
    } else {
        decimal_text(n / 10).push(decimal_digit(n % 10))
    }
}

/// The JSON text of one comment span: a two-element array of its offsets.
pub open spec fn json_of_span(p: (usize, usize)) -> Seq<char> {
    seq!['['] + decimal_text(p.0 as nat) + seq![','] + decimal_text(p.1 as nat) + seq![']']
}

/// The comma-joined JSON texts of a sequence of comment spans.
pub open spec fn json_span_items(ps: Seq<(usize, usize)>) -> Seq<char>
    decreases ps.len(),
{
    if ps.len() == 0 {
        Seq::empty()
    } else if ps.len() == 1 {
        json_of_span(ps[0])
    } else {
        json_of_span(ps[0]) + seq![','] + json_span_items(ps.subrange(1, ps.len() as int))
    }
}

/// The JSON text of a whole sequence of comment spans: an array of
/// two-element arrays, in the sequence's own order.
pub open spec fn json_of_spans(ps: Seq<(usize, usize)>) -> Seq<char> {
    seq!['['] + json_span_items(ps) + seq![']']
}

/// The JSON text of a keyword classification.
pub open spec fn json_of_bool(b: bool) -> Seq<char> {
    if b {
        "true"@
    } else {
        "false"@
    }
}

/// The numeric value of a decimal digit character; ten for any other
/// character, so that no non-digit reads as a digit.
pub open spec fn digit_value(c: char) -> nat {
    if c == '0' {
        0
    } else if c == '1' {
        1
    } else if c == '2' {
        2
    } else if c == '3' {
        3
    } else if c == '4' {
        4
    } else if c == '5' {
        5
    } else if c == '6' {
        6
    } else if c == '7' {
        7
    } else if c == '8' {
        8
    } else if c == '9' {
        9
    } else {
        10
    }
}

/// The host-side reading of a decimal text: most significant digit first.
pub open spec fn nat_of_decimal(s: Seq<char>) -> nat
    decreases s.len(),
{
    if s.len() == 0 {
        0
    } else {
        nat_of_decimal(s.drop_last()) * 10 + digit_value(s.last())
    }
}

/// Law: reading back the decimal text of an offset recovers the offset,
/// so the encoding loses no numeric value.
pub proof fn lemma_decimal_round_trip(n: nat)
    ensures
        nat_of_decimal(decimal_text(n)) == n,
    decreases n,
{
    if n < 10 {
        let t = decimal_text(n);
        assert(t == seq![decimal_digit(n)]);
        assert(t.drop_last() =~= Seq::<char>::empty());
        assert(digit_value(t.last()) == n);
        assert(nat_of_decimal(t) == nat_of_decimal(t.drop_last()) * 10 + digit_value(t.last()));
    } else {
        lemma_decimal_round_trip(n / 10);
        let s = decimal_text(n / 10);
        let d = decimal_digit(n % 10);
        assert(s.push(d).drop_last() =~= s);
        assert(digit_value(s.push(d).last()) == n % 10);
        assert(nat_of_decimal(decimal_text(n)) == (n / 10) * 10 + n % 10);
        vstd::arithmetic::div_mod::lemma_fundamental_div_mod(n as int, 10);
    }
}

/// Whether `c` is a decimal digit character.
pub open spec fn is_digit_char(c: char) -> bool {
    digit_value(c) < 10
}

/// The decimal text of an offset is non-empty and all digits.
proof fn lemma_decimal_text_digits(n: nat)
    ensures
        decimal_text(n).len() >= 1,
        forall|i: int|
            0 <= i < decimal_text(n).len() ==> is_digit_char(#[trigger] decimal_text(n)[i]),
    decreases n,
{
    if n >= 10 {
        lemma_decimal_text_digits(n / 10);
        let s = decimal_text(n / 10);
        let d = decimal_digit(n % 10);
        assert(decimal_text(n) == s.push(d));
        assert forall|i: int| 0 <= i < decimal_text(n).len() implies is_digit_char(
            #[trigger] decimal_text(n)[i],
        ) by {
            if i < s.len() {
                assert(decimal_text(n)[i] == s[i]);
            } else {
                assert(decimal_text(n)[i] == d);
            }
        }
    }
}

/// Two offsets with the same decimal text are the same offset.
proof fn lemma_decimal_text_injective(m: nat, n: nat)
    requires
        decimal_text(m) == decimal_text(n),
    ensures
        m == n,
{
    lemma_decimal_round_trip(m);
    lemma_decimal_round_trip(n);
}

/// Two equal texts that each start with one character split into equal
/// heads and equal tails.
proof fn lemma_head_tail(x: Seq<char>, y: Seq<char>, c: char, d: char)
    requires
        seq![c] + x == seq![d] + y,
    ensures
        c == d,
        x == y,
{
    assert((seq![c] + x).len() == 1 + x.len());
    assert((seq![d] + y).len() == 1 + y.len());
    assert(x.len() == y.len());
    assert((seq![c] + x)[0] == c);
    assert((seq![d] + y)[0] == d);
    assert(x =~= y) by {
        assert forall|i: int| 0 <= i < x.len() implies x[i] == y[i] by {
            assert((seq![c] + x)[1 + i] == x[i]);
            assert((seq![d] + y)[1 + i] == y[i]);
        }
    }
}

/// In equal texts, a run of digits ended by a non-digit is unique: the
/// digit runs are equal and so are the remainders.
proof fn lemma_digit_prefix_unique(u1: Seq<char>, v1: Seq<char>, u2: Seq<char>, v2: Seq<char>)
    requires
        u1 + v1 == u2 + v2,
        forall|i: int| 0 <= i < u1.len() ==> is_digit_char(#[trigger] u1[i]),
        forall|i: int| 0 <= i < u2.len() ==> is_digit_char(#[trigger] u2[i]),
        v1.len() > 0,
        !is_digit_char(v1[0]),
        v2.len() > 0,
        !is_digit_char(v2[0]),
    ensures
        u1 == u2,
        v1 == v2,
{
    assert((u1 + v1).len() == u1.len() + v1.len());
    assert((u2 + v2).len() == u2.len() + v2.len());
    if u1.len() < u2.len() {
        assert((u1 + v1)[u1.len() as int] == v1[0]);
        assert((u2 + v2)[u1.len() as int] == u2[u1.len() as int]);
        assert(false);
    }
    if u2.len() < u1.len() {
        assert((u1 + v1)[u2.len() as int] == u1[u2.len() as int]);
        assert((u2 + v2)[u2.len() as int] == v2[0]);
        assert(false);
    }
    assert(u1 =~= u2) by {
        assert forall|i: int| 0 <= i < u1.len() implies u1[i] == u2[i] by {
            assert((u1 + v1)[i] == u1[i]);
            assert((u2 + v2)[i] == u2[i]);
        }
    }
    assert(v1.len() == v2.len());
    assert(v1 =~= v2) by {
        assert forall|i: int| 0 <= i < v1.len() implies v1[i] == v2[i] by {
            assert((u1 + v1)[u1.len() + i] == v1[i]);
            assert((u2 + v2)[u2.len() + i] == v2[i]);
        }
    }
}

/// In equal texts, a span item followed by a remainder is unique: the
/// spans are equal and so are the remainders.
proof fn lemma_span_prefix_unique(p: (usize, usize), t1: Seq<char>, q: (usize, usize), t2: Seq<char>)
    requires
        json_of_span(p) + t1 == json_of_span(q) + t2,
    ensures
        p == q,
        t1 == t2,
{
    let x1 = p.0 as nat;
    let y1 = p.1 as nat;
    let x2 = q.0 as nat;
    let y2 = q.1 as nat;
    let r1 = decimal_text(x1) + (seq![','] + (decimal_text(y1) + (seq![']'] + t1)));
    let r2 = decimal_text(x2) + (seq![','] + (decimal_text(y2) + (seq![']'] + t2)));
    assert(json_of_span(p) + t1 =~= seq!['['] + r1);
    assert(json_of_span(q) + t2 =~= seq!['['] + r2);
    lemma_head_tail(r1, r2, '[', '[');
    lemma_decimal_text_digits(x1);
    lemma_decimal_text_digits(x2);
    let w1 = seq![','] + (decimal_text(y1) + (seq![']'] + t1));
    let w2 = seq![','] + (decimal_text(y2) + (seq![']'] + t2));
    assert(w1[0] == ',' && w2[0] == ',');
    lemma_digit_prefix_unique(decimal_text(x1), w1, decimal_text(x2), w2);
    lemma_decimal_text_injective(x1, x2);
    lemma_head_tail(
        decimal_text(y1) + (seq![']'] + t1),
        decimal_text(y2) + (seq![']'] + t2),
        ',',
        ',',
    );
    lemma_decimal_text_digits(y1);
    lemma_decimal_text_digits(y2);
    assert((seq![']'] + t1)[0] == ']' && (seq![']'] + t2)[0] == ']');
    lemma_digit_prefix_unique(decimal_text(y1), seq![']'] + t1, decimal_text(y2), seq![']'] + t2);
    lemma_decimal_text_injective(y1, y2);
    lemma_head_tail(t1, t2, ']', ']');
}

/// Two span sequences whose comma-joined items read the same are equal.
proof fn lemma_items_injective(a: Seq<(usize, usize)>, b: Seq<(usize, usize)>)
    requires
        json_span_items(a) == json_span_items(b),
    ensures
        a == b,
    decreases a.len(),
{
    if a.len() == 0 || b.len() == 0 {
        if a.len() != b.len() {
            let c = if a.len() == 0 { b } else { a };
            assert(json_span_items(c).len() > 0);
            assert(false);
        }
        assert(a =~= b);
    } else {
        let t1: Seq<char> = if a.len() == 1 {
            Seq::empty()
        } else {
            seq![','] + json_span_items(a.subrange(1, a.len() as int))
        };
        let t2: Seq<char> = if b.len() == 1 {
            Seq::empty()
        } else {
            seq![','] + json_span_items(b.subrange(1, b.len() as int))
        };
        assert(json_span_items(a) =~= json_of_span(a[0]) + t1);
        assert(json_span_items(b) =~= json_of_span(b[0]) + t2);
        lemma_span_prefix_unique(a[0], t1, b[0], t2);
        if a.len() == 1 {
            assert(t2.len() == 0);
            assert(b.len() == 1);
            assert(a =~= b);
        } else {
            assert(t1.len() > 0);
            assert(b.len() > 1);
            let ra = a.subrange(1, a.len() as int);
            let rb = b.subrange(1, b.len() as int);
            lemma_head_tail(json_span_items(ra), json_span_items(rb), ',', ',');
            lemma_items_injective(ra, rb);
            assert(a.len() == b.len());
            assert(a =~= b) by {
                assert forall|i: int| 0 <= i < a.len() implies a[i] == b[i] by {
                    if i > 0 {
                        assert(ra[i - 1] == a[i]);
                        assert(rb[i - 1] == b[i]);
                    }
                }
            }
        }
    }
}

/// Law: the span encoding is lossless. Two span sequences with the same
/// encoded text are the same sequence, so a host-side decode of the text
/// recovers exactly the spans the lexer produced, in their order.
pub proof fn lemma_spans_encoding_lossless(a: Seq<(usize, usize)>, b: Seq<(usize, usize)>)
    requires
        json_of_spans(a) == json_of_spans(b),
    ensures
        a == b,
{
    let ia = json_span_items(a);
    let ib = json_span_items(b);
    assert(json_of_spans(a) =~= seq!['['] + (ia + seq![']']));
    assert(json_of_spans(b) =~= seq!['['] + (ib + seq![']']));
    lemma_head_tail(ia + seq![']'], ib + seq![']'], '[', '[');
    assert(ia =~= ib) by {
        assert(ia.len() == ib.len());
        assert forall|i: int| 0 <= i < ia.len() implies ia[i] == ib[i] by {
            assert((ia + seq![']'])[i] == ia[i]);
            assert((ib + seq![']'])[i] == ib[i]);
        }
    }
    lemma_items_injective(a, b);
}

/// Comment spans as the lexer yields them: every span is non-empty
/// (`start < end`), and each span ends at or before the next one starts,
/// so the sequence is ordered by start offset.
pub open spec fn spans_separated(ps: Seq<(usize, usize)>) -> bool {
    (forall|i: int| 0 <= i < ps.len() ==> (#[trigger] ps[i]).0 < ps[i].1) && (forall|i: int|
        0 <= i && i + 1 < ps.len() ==> (#[trigger] ps[i]).1 <= ps[i + 1].0)
}

/// Law: in a separated span sequence the start offsets never decrease,
/// and every span starts no later than it ends.
pub proof fn lemma_spans_ordered(ps: Seq<(usize, usize)>)
    requires
        spans_separated(ps),
    ensures
        forall|i: int| 0 <= i && i + 1 < ps.len() ==> (#[trigger] ps[i]).0 <= ps[i + 1].0,
        forall|i: int| 0 <= i < ps.len() ==> (#[trigger] ps[i]).0 <= ps[i].1,
{
    assert forall|i: int| 0 <= i && i + 1 < ps.len() implies (#[trigger] ps[i]).0 <= ps[i + 1].0 by {
        assert(ps[i].0 < ps[i].1);
        assert(ps[i].1 <= ps[i + 1].0);
    }
}

} // verus!
