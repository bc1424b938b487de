//! Parsing of raw string input.
//!
//! This module provides the parser, which processes one line of
//! string input at a time: it splits the line into
//! whitespace-separated tokens and classifies each token as a value
//! literal, a registry name, or a bad token.

use crate::functions::{spec_lookup, FunctionView, Registry};
use crate::value::Value;
use vstd::prelude::*;

verus! {

/// The separators the line splitter breaks on: the ASCII whitespace
/// characters.
pub open spec fn is_separator(c: char) -> bool {
    c == ' ' || c == '\t' || c == '\n' || c == '\r'
}

fn separator(c: char) -> (r: bool)
    ensures
        r == is_separator(c),
{
    c == ' ' || c == '\t' || c == '\n' || c == '\r'
}

/// One step at a time, gather the maximal runs of non-separator
/// characters of `s`: `cur` is the run in progress and `acc` the
/// finished tokens.
pub open spec fn split_acc(s: Seq<char>, cur: Seq<char>, acc: Seq<Seq<char>>) -> Seq<Seq<char>>
    decreases s.len(),
{
    if s.len() == 0 {
        if cur.len() == 0 {
            acc
        } else {
            acc.push(cur)
        }
    } else if is_separator(s[0]) {
        if cur.len() == 0 {
            split_acc(s.drop_first(), Seq::empty(), acc)
        } else {
            split_acc(s.drop_first(), Seq::empty(), acc.push(cur))
        }
    } else {
        split_acc(s.drop_first(), cur.push(s[0]), acc)
    }
}

/// The nonempty, separator-free tokens of a line, in order.
pub open spec fn spec_split_tokens(s: Seq<char>) -> Seq<Seq<char>> {
    split_acc(s, Seq::empty(), Seq::empty())
}

/// Split a line into its whitespace-separated tokens, dropping the
/// empty ones.
pub fn split_tokens(line: &str) -> (r: Vec<String>)
    ensures
        r.deep_view() == spec_split_tokens(line@),
{
    let n = line.unicode_len();
    let mut tokens: Vec<String> = Vec::new();
    proof {
        assert(line@.subrange(0, n as int) =~= line@);
        assert(line@.subrange(0, 0) =~= Seq::<char>::empty());
        assert(tokens.deep_view() =~= Seq::<Seq<char>>::empty());
    }
    let mut start: usize = 0;
    let mut i: usize = 0;
    while i < n
        invariant
            start <= i <= n,
            n == line@.len(),
            forall|j: int| start <= j < i ==> !is_separator(line@[j]),
            split_acc(
                line@.subrange(i as int, n as int),
                line@.subrange(start as int, i as int),
                tokens.deep_view(),
            ) == spec_split_tokens(line@),
        decreases n - i,
    {
        let ghost rest = line@.subrange(i as int, n as int);
        let ghost cur = line@.subrange(start as int, i as int);
        proof {
            assert(rest.len() > 0);
            assert(rest[0] == line@[i as int]);
            assert(rest.drop_first() =~= line@.subrange(i + 1, n as int));
        }
        let c = line.get_char(i);
        if separator(c) {
            if start < i {
                let tok = String::from_str(line.substring_char(start, i));
                let ghost pre = tokens.deep_view();
                tokens.push(tok);
                proof {
                    assert(tokens.deep_view() =~~= pre.push(cur));
                }
            }
            proof {
                assert(line@.subrange(i + 1, i + 1) =~= Seq::<char>::empty());
            }
            start = i + 1;
        } else {
            proof {
                assert(cur.push(line@[i as int]) =~= line@.subrange(start as int, i + 1));
            }
        }
        i = i + 1;
    }
    proof {
        assert(line@.subrange(n as int, n as int).len() == 0);
    }
    if start < n {
        let tok = String::from_str(line.substring_char(start, n));
        let ghost pre = tokens.deep_view();
        tokens.push(tok);
        proof {
            assert(tokens.deep_view() =~~= pre.push(line@.subrange(start as int, n as int)));
        }
    }
    tokens
}

/// A decimal digit.
pub open spec fn is_digit(c: char) -> bool {
    '0' <= c && c <= '9'
}

/// The numeric value of a decimal digit.
pub open spec fn digit_val(c: char) -> int {
    c as int - '0' as int
}

/// The value of the decimal digits of `s` at positions `from`
/// (inclusive) to `to` (exclusive), most significant first.
pub open spec fn digits_val(s: Seq<char>, from: int, to: int) -> int
    decreases to - from,
{
    if to <= from {
        0
    } else {
        10 * digits_val(s, from, to - 1) + digit_val(s[to - 1])
    }
}

/// Where the digits of a signed numeric literal start: after the
/// optional leading minus sign.
pub open spec fn body_start(s: Seq<char>) -> int {
    if s.len() > 0 && s[0] == '-' {
        1
    } else {
        0
    }
}

/// An optionally signed, nonempty run of decimal digits.
pub open spec fn is_int32_literal(s: Seq<char>) -> bool {
    &&& s.len() > body_start(s)
    &&& forall|j: int| body_start(s) <= j < s.len() ==> is_digit(s[j])
}

/// The signed value of an integer literal.
pub open spec fn int_literal_val(s: Seq<char>) -> int {
    if body_start(s) == 1 {
        -digits_val(s, 1, s.len() as int)
    } else {
        digits_val(s, 0, s.len() as int)
    }
}

/// Whether a value fits a 32-bit signed integer.
pub open spec fn in_i32_range(v: int) -> bool {
    i32::MIN <= v <= i32::MAX
}

/// The body of a floating-point literal in `s` at positions `from`
/// to `to`: one decimal point, decimal digits everywhere else, and
/// at least one digit.
pub open spec fn float_body_in(s: Seq<char>, from: int, to: int) -> bool {
    &&& to - from >= 2
    &&& exists|i: int|
        #![trigger s[i]]
        from <= i < to && s[i] == '.' && (forall|j: int|
            from <= j < to && j != i ==> is_digit(s[j]))
}

/// An optionally signed floating-point literal, such as `1.`, `.5`
/// or `-2.75`.
pub open spec fn is_float64_literal(s: Seq<char>) -> bool {
    float_body_in(s, body_start(s), s.len() as int)
}

/// A floating-point literal with the trailing narrow-width marker
/// `f`.
pub open spec fn is_float32_literal(s: Seq<char>) -> bool {
    s.len() > 0 && s.last() == 'f' && float_body_in(s, body_start(s), s.len() - 1)
}

/// The result of parsing a token.
#[derive(Clone, Copy, PartialEq, Eq, Structural, Debug)]
pub enum ParsedToken {
    /// Results from parsing a fully converted `Value` literal
    Literal(Value),

    /// A well-formed narrow floating-point literal; the caller
    /// converts the characters to the bit pattern
    Float32Literal,

    /// A well-formed floating-point literal; the caller converts
    /// the characters to the bit pattern
    Float64Literal,

    /// The token is the name of a function in the registry
    Intrinsic,

    /// Results from a failed parse
    BadToken,
}

/// How a single token is classified, in the priority order of the
/// literal patterns: the narrow floating width first, then the wide
/// one, then integers, then registry names.
pub open spec fn spec_analyze(token: Seq<char>, reg: Seq<FunctionView>) -> ParsedToken {
    if is_float32_literal(token) {
        ParsedToken::Float32Literal
    } else if is_float64_literal(token) {
        ParsedToken::Float64Literal
    } else if is_int32_literal(token) {
        if in_i32_range(int_literal_val(token)) {
            ParsedToken::Literal(Value::Int32(int_literal_val(token) as i32))
        } else {
            ParsedToken::BadToken
        }
    } else if spec_lookup(reg, token) is Some {
        ParsedToken::Intrinsic
    } else {
        ParsedToken::BadToken
    }
}

/// Check for a floating-point literal body between `from` and `to`.
fn check_float_body(t: &str, from: usize, to: usize) -> (r: bool)
    requires
        from <= to <= t@.len(),
    ensures
        r == float_body_in(t@, from as int, to as int),
{
    let mut dot: Option<usize> = None;
    let mut j: usize = from;
    while j < to
        invariant
            from <= j <= to <= t@.len(),
            match dot {
                Some(d) => from <= d < j && t@[d as int] == '.' && (forall|m: int|
                    from <= m < j && m != d ==> is_digit(t@[m])),
                None => forall|m: int| from <= m < j ==> is_digit(t@[m]),
            },
        decreases to - j,
    {
        let c = t.get_char(j);
        if c == '.' {
            match dot {
                Some(d) => {
                    proof {
                        assert forall|i: int|
                            from <= i < to && t@[i] == '.' implies !(forall|m: int|
                            from <= m < to && m != i ==> is_digit(t@[m])) by {
                            if i == d {
                                assert(from <= j < to && j != i && !is_digit(t@[j as int]));
                            } else {
                                assert(from <= d < to && d != i && !is_digit(t@[d as int]));
                            }
                        }
                    }
                    return false;
                },
                None => {
                    dot = Some(j);
                },
            }
        } else if !('0' <= c && c <= '9') {
            proof {
                assert forall|i: int|
                    from <= i < to && t@[i] == '.' implies !(forall|m: int|
                    from <= m < to && m != i ==> is_digit(t@[m])) by {
                    assert(t@[j as int] != '.');
                    assert(from <= j < to && j != i && !is_digit(t@[j as int]));
                }
            }
            return false;
        }
        j = j + 1;
    }
    match dot {
        Some(d) => {
            if to - from >= 2 {
                proof {
                    assert(from <= d < to && t@[d as int] == '.' && (forall|m: int|
                        from <= m < to && m != d ==> is_digit(t@[m])));
                }
                true
            } else {
                false
            }
        },
        None => {
            proof {
                assert forall|i: int|
                    from <= i < to && t@[i] == '.' implies !(forall|m: int|
                    from <= m < to && m != i ==> is_digit(t@[m])) by {
                    assert(is_digit(t@[i]));
                    assert(false);
                }
            }
            false
        },
    }
}

/// Where the digits of the token start, after an optional sign.
fn literal_body_start(t: &str) -> (r: usize)
    ensures
        r as int == body_start(t@),
        r <= t@.len(),
{
    if t.unicode_len() > 0 && t.get_char(0) == '-' {
        1
    } else {
        0
    }
}

/// Check for an optionally signed floating-point literal.
fn check_float64_literal(t: &str) -> (r: bool)
    ensures
        r == is_float64_literal(t@),
{
    let n = t.unicode_len();
    let start = literal_body_start(t);
    check_float_body(t, start, n)
}

/// Check for a floating-point literal with the trailing `f` marker.
fn check_float32_literal(t: &str) -> (r: bool)
    ensures
        r == is_float32_literal(t@),
{
    let n = t.unicode_len();
    if n == 0 || t.get_char(n - 1) != 'f' {
        return false;
    }
    let start = literal_body_start(t);
    if start > n - 1 {
        proof {
            assert(!float_body_in(t@, body_start(t@), t@.len() - 1));
        }
        return false;
    }
    check_float_body(t, start, n - 1)
}

/// Check for an optionally signed integer literal.
fn check_int32_literal(t: &str) -> (r: bool)
    ensures
        r == is_int32_literal(t@),
{
    let n = t.unicode_len();
    let start = literal_body_start(t);
    if start >= n {
        return false;
    }
    let mut j: usize = start;
    while j < n
        invariant
            start <= j <= n,
            n == t@.len(),
            start as int == body_start(t@),
            forall|m: int| start <= m < j ==> is_digit(t@[m]),
        decreases n - j,
    {
        let c = t.get_char(j);
        if !('0' <= c && c <= '9') {
            return false;
        }
        j = j + 1;
    }
    true
}

/// The value of a run of digits is never negative.
proof fn lemma_digits_val_nonneg(s: Seq<char>, from: int, to: int)
    requires
        from <= to <= s.len(),
        forall|j: int| from <= j < to ==> is_digit(s[j]),
    ensures
        0 <= digits_val(s, from, to),
    decreases to - from,
{
    if from < to {
        lemma_digits_val_nonneg(s, from, to - 1);
        assert(is_digit(s[to - 1]));
    }
}

/// The value of a run of digits only grows as more digits are
/// taken in, and is never negative.
proof fn lemma_digits_val_grows(s: Seq<char>, from: int, mid: int, to: int)
    requires
        from <= mid <= to <= s.len(),
        forall|j: int| from <= j < to ==> is_digit(s[j]),
    ensures
        0 <= digits_val(s, from, mid) <= digits_val(s, from, to),
    decreases to - mid,
{
    lemma_digits_val_nonneg(s, from, mid);
    if mid < to {
        lemma_digits_val_grows(s, from, mid, to - 1);
        lemma_digits_val_nonneg(s, from, to - 1);
        assert(is_digit(s[to - 1]));
        assert(digits_val(s, from, to) == 10 * digits_val(s, from, to - 1) + digit_val(
            s[to - 1],
        ));
    }
}

/// Convert a well-formed integer literal, rejecting one whose value
/// does not fit in 32 signed bits.
pub fn parse_int32(token: &str) -> (r: ParsedToken)
    requires
        is_int32_literal(token@),
    ensures
        r == (if in_i32_range(int_literal_val(token@)) {
            ParsedToken::Literal(Value::Int32(int_literal_val(token@) as i32))
        } else {
            ParsedToken::BadToken
        }),
{
    let n = token.unicode_len();
    let start = literal_body_start(token);
    let neg = start == 1;
    let mut acc: u64 = 0;
    let mut i: usize = start;
    while i < n
        invariant
            start <= i <= n,
            n == token@.len(),
            start as int == body_start(token@),
            is_int32_literal(token@),
            acc as int == digits_val(token@, start as int, i as int),
            acc <= 0x8000_0000,
        decreases n - i,
    {
        let c = token.get_char(i);
        let d: u64 = (c as u64) - ('0' as u64);
        proof {
            assert(is_digit(token@[i as int]));
            assert(d as int == digit_val(token@[i as int]));
        }
        let next: u64 = 10 * acc + d;
        proof {
            assert(next as int == digits_val(token@, start as int, i + 1));
        }
        if next > 0x8000_0000 {
            proof {
                lemma_digits_val_grows(token@, start as int, i + 1, n as int);
                assert(!in_i32_range(int_literal_val(token@)));
            }
            return ParsedToken::BadToken;
        }
        acc = next;
        i = i + 1;
    }
    proof {
        lemma_digits_val_grows(token@, start as int, n as int, n as int);
    }
    if neg {
        let payload: i32 = if acc >= 0x8000_0000 {
            i32::MIN
        } else {
            -(acc as i32)
        };
        proof {
            assert(payload as int == -(acc as int));
            assert(payload as int == int_literal_val(token@));
        }
        ParsedToken::Literal(Value::Int32(payload))
    } else {
        if acc > 0x7fff_ffff {
            proof {
                assert(!in_i32_range(int_literal_val(token@)));
            }
            return ParsedToken::BadToken;
        }
        let payload: i32 = acc as i32;
        proof {
            assert(payload as int == int_literal_val(token@));
        }
        ParsedToken::Literal(Value::Int32(payload))
    }
}

/// Classify one token: a literal of one of the three value shapes,
/// a registry name, or a bad token.
pub fn analyze_token<I>(token: &str, reg: &Registry<I>) -> (r: ParsedToken)
    ensures
        r == spec_analyze(token@, reg@),
{
    if check_float32_literal(token) {
        ParsedToken::Float32Literal
    } else if check_float64_literal(token) {
        ParsedToken::Float64Literal
    } else if check_int32_literal(token) {
        parse_int32(token)
    } else {
        match reg.lookup(token) {
            Some(_) => ParsedToken::Intrinsic,
            None => ParsedToken::BadToken,
        }
    }
}

/// Parse a single line of input, returning both the string tokens
/// and their classifications, in order.
///
/// It is assumed that the input does not contain any newlines; a
/// newline is treated as one more separator.
pub fn parse_line<I>(line: &str, reg: &Registry<I>) -> (r: Vec<(String, ParsedToken)>)
    ensures
        r@.len() == spec_split_tokens(line@).len(),
        forall|i: int|
            0 <= i < r@.len() ==> (#[trigger] r@[i]).0@ == spec_split_tokens(line@)[i] && r@[i].1
                == spec_analyze(spec_split_tokens(line@)[i], reg@),
{
    let tokens = split_tokens(line);
    let mut out: Vec<(String, ParsedToken)> = Vec::new();
    let mut i: usize = 0;
    while i < tokens.len()
        invariant
            i <= tokens@.len(),
            tokens.deep_view() == spec_split_tokens(line@),
            tokens@.len() == spec_split_tokens(line@).len(),
            out@.len() == i,
            forall|j: int|
                0 <= j < i ==> (#[trigger] out@[j]).0@ == spec_split_tokens(line@)[j] && out@[j].1
                    == spec_analyze(spec_split_tokens(line@)[j], reg@),
        decreases tokens@.len() - i,
    {
        proof {
            assert(tokens.deep_view()[i as int] == tokens@[i as int]@);
        }
        let p = analyze_token(tokens[i].as_str(), reg);
        let tok = tokens[i].clone();
        out.push((tok, p));
        i = i + 1;
    }
    out
}

} // verus!
