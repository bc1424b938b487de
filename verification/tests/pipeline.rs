//! Whole lines driven through the parser, the registry and the
//! application protocol, the way the read-loop does it.

use cattywampus::functions::{dec_impl, inc_impl, FunctionResult, NativeImpl, Registry};
use cattywampus::parser::{parse_line, ParsedToken};
use cattywampus::stack::Stack;
use cattywampus::typecheck::checked_apply;
use cattywampus::value::Value;

#[derive(Clone, Copy)]
enum Builtin {
    Inc,
    Dec,
    Float,
}

impl NativeImpl for Builtin {
    fn invoke(&self, args: &[Value]) -> FunctionResult {
        match self {
            Builtin::Inc => inc_impl(args),
            Builtin::Dec => dec_impl(args),
            Builtin::Float => match args[0] {
                Value::Float64(bits) => {
                    let x = f64::from_bits(bits);
                    FunctionResult::Scalar(Value::Float64(x.recip().to_bits()))
                }
                v => FunctionResult::Scalar(v),
            },
        }
    }
}

fn builtin_registry() -> Registry<Builtin> {
    let mut impls = vec![Builtin::Inc, Builtin::Dec];
    impls.resize(16, Builtin::Float);
    cattywampus::functions::intrinsic_fns(impls)
}

/// Evaluate one line the way the read-loop does: validate every
/// token first, and only if all are good, push literals and apply
/// intrinsics left to right.
fn run_line(line: &str, stack: &mut Stack, reg: &Registry<Builtin>) -> bool {
    let parsed = parse_line(line, reg);
    if parsed.iter().any(|p| p.1 == ParsedToken::BadToken) {
        return false;
    }
    for (tok, parsed_tok) in parsed {
        match parsed_tok {
            ParsedToken::Literal(val) => stack.push(val),
            ParsedToken::Float64Literal => {
                stack.push(Value::Float64(tok.parse::<f64>().unwrap().to_bits()))
            }
            ParsedToken::Float32Literal => stack.push(Value::Float32(
                tok[..tok.len() - 1].parse::<f32>().unwrap().to_bits(),
            )),
            ParsedToken::Intrinsic => {
                let fun = reg.lookup(&tok).unwrap();
                let _ = checked_apply(fun, stack);
            }
            ParsedToken::BadToken => unreachable!(),
        }
    }
    true
}

#[test]
fn literals_are_pushed_in_token_order() {
    let reg = builtin_registry();
    let mut stack = Stack::new();
    assert!(run_line("3 4", &mut stack, &reg));
    assert_eq!(stack.iter(), vec![Value::Int32(3), Value::Int32(4)]);
    assert_eq!(*stack.peek_n(0), Value::Int32(4));
    assert_eq!(*stack.peek_n(1), Value::Int32(3));
}

#[test]
fn a_line_computes_left_to_right() {
    let reg = builtin_registry();
    let mut stack = Stack::new();
    assert!(run_line("2 inc inc dec", &mut stack, &reg));
    assert_eq!(stack.iter(), vec![Value::Int32(3)]);
}

#[test]
fn an_invalid_token_stops_the_whole_line() {
    let reg = builtin_registry();
    let mut stack = Stack::new();
    assert!(run_line("1", &mut stack, &reg));
    assert!(!run_line("inc bogus inc", &mut stack, &reg));
    // Nothing of the invalid line was applied.
    assert_eq!(stack.iter(), vec![Value::Int32(1)]);
}

#[test]
fn float_literals_reach_the_stack_with_their_width() {
    let reg = builtin_registry();
    let mut stack = Stack::new();
    assert!(run_line("2.5 1.5f", &mut stack, &reg));
    assert_eq!(
        stack.iter(),
        vec![
            Value::Float64(2.5f64.to_bits()),
            Value::Float32(1.5f32.to_bits()),
        ]
    );
}

#[test]
fn recip_applies_to_the_parsed_float() {
    let reg = builtin_registry();
    let mut stack = Stack::new();
    assert!(run_line("4. recip", &mut stack, &reg));
    assert_eq!(stack.iter(), vec![Value::Float64(0.25f64.to_bits())]);
}
