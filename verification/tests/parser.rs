//! Splitting lines into tokens and classifying each token.

use cattywampus::functions::{dec_impl, inc_impl, FunctionResult, NativeImpl, Registry};
use cattywampus::parser::{parse_line, split_tokens, ParsedToken};
use cattywampus::value::Value;

#[derive(Clone, Copy)]
enum Builtin {
    Inc,
    Dec,
    Other,
}

impl NativeImpl for Builtin {
    fn invoke(&self, args: &[Value]) -> FunctionResult {
        match self {
            Builtin::Inc => inc_impl(args),
            Builtin::Dec => dec_impl(args),
            Builtin::Other => {
                let x = match args[0] {
                    Value::Float64(bits) => f64::from_bits(bits),
                    v => return FunctionResult::Scalar(v),
                };
                FunctionResult::Scalar(Value::Float64(x.to_bits()))
            }
        }
    }
}

fn builtin_registry() -> Registry<Builtin> {
    let mut impls = vec![Builtin::Inc, Builtin::Dec];
    impls.resize(16, Builtin::Other);
    cattywampus::functions::intrinsic_fns(impls)
}

fn classify(token: &str) -> ParsedToken {
    let reg = builtin_registry();
    let parsed = parse_line(token, &reg);
    assert_eq!(parsed.len(), 1);
    assert_eq!(parsed[0].0, token);
    parsed[0].1
}

#[test]
fn split_on_whitespace() {
    assert_eq!(split_tokens("3 4 inc"), vec!["3", "4", "inc"]);
}

#[test]
fn split_collapses_runs_of_whitespace() {
    assert_eq!(split_tokens("  a\t\tb  \r\nc "), vec!["a", "b", "c"]);
}

#[test]
fn split_of_blank_lines_is_empty() {
    assert_eq!(split_tokens(""), Vec::<String>::new());
    assert_eq!(split_tokens(" \t "), Vec::<String>::new());
}

#[test]
fn integer_literals_parse_to_values() {
    assert_eq!(classify("3"), ParsedToken::Literal(Value::Int32(3)));
    assert_eq!(classify("-17"), ParsedToken::Literal(Value::Int32(-17)));
    assert_eq!(classify("0"), ParsedToken::Literal(Value::Int32(0)));
    assert_eq!(classify("007"), ParsedToken::Literal(Value::Int32(7)));
}

#[test]
fn integer_literals_at_the_boundaries() {
    assert_eq!(
        classify("2147483647"),
        ParsedToken::Literal(Value::Int32(i32::MAX))
    );
    assert_eq!(
        classify("-2147483648"),
        ParsedToken::Literal(Value::Int32(i32::MIN))
    );
    assert_eq!(classify("2147483648"), ParsedToken::BadToken);
    assert_eq!(classify("-2147483649"), ParsedToken::BadToken);
    assert_eq!(classify("9999999999999999999999"), ParsedToken::BadToken);
}

#[test]
fn wide_float_literals_are_recognized() {
    assert_eq!(classify("2.5"), ParsedToken::Float64Literal);
    assert_eq!(classify("5."), ParsedToken::Float64Literal);
    assert_eq!(classify(".5"), ParsedToken::Float64Literal);
    assert_eq!(classify("-.5"), ParsedToken::Float64Literal);
    assert_eq!(classify("-2.75"), ParsedToken::Float64Literal);
}

#[test]
fn narrow_float_literals_are_recognized() {
    assert_eq!(classify("1.5f"), ParsedToken::Float32Literal);
    assert_eq!(classify("-2.f"), ParsedToken::Float32Literal);
    assert_eq!(classify(".25f"), ParsedToken::Float32Literal);
}

#[test]
fn malformed_literals_are_bad_tokens() {
    assert_eq!(classify("."), ParsedToken::BadToken);
    assert_eq!(classify("-."), ParsedToken::BadToken);
    assert_eq!(classify("f"), ParsedToken::BadToken);
    assert_eq!(classify(".f"), ParsedToken::BadToken);
    assert_eq!(classify("1..2"), ParsedToken::BadToken);
    assert_eq!(classify("--5"), ParsedToken::BadToken);
    assert_eq!(classify("1.5x"), ParsedToken::BadToken);
}

#[test]
fn a_sign_or_suffix_alone_is_not_a_literal() {
    assert_eq!(classify("-"), ParsedToken::BadToken);
    assert_eq!(classify("5f"), ParsedToken::BadToken);
    assert_eq!(classify("-f"), ParsedToken::BadToken);
}

#[test]
fn registry_names_are_intrinsics() {
    assert_eq!(classify("inc"), ParsedToken::Intrinsic);
    assert_eq!(classify("sin"), ParsedToken::Intrinsic);
    assert_eq!(classify("bogus"), ParsedToken::BadToken);
}

#[test]
fn a_line_is_classified_token_by_token() {
    let reg = builtin_registry();
    let parsed = parse_line("3 4.5 inc nope", &reg);
    let tokens: Vec<&str> = parsed.iter().map(|p| p.0.as_str()).collect();
    assert_eq!(tokens, vec!["3", "4.5", "inc", "nope"]);
    assert_eq!(parsed[0].1, ParsedToken::Literal(Value::Int32(3)));
    assert_eq!(parsed[1].1, ParsedToken::Float64Literal);
    assert_eq!(parsed[2].1, ParsedToken::Intrinsic);
    assert_eq!(parsed[3].1, ParsedToken::BadToken);
}
