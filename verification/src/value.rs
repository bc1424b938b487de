//! User values and their types.
//!
//! This module declares the `Value` type, which represents each
//! distinct element on the calculator's stack, and the `Type` tags
//! used for signature matching.

use vstd::prelude::*;

verus! {

/// Stores a type without a concrete value.
///
/// The tags correlate directly to the `Value` constructors: every
/// `Value` variant has exactly one matching `Type` tag and vice
/// versa.
#[derive(Clone, Copy, PartialEq, Eq, Structural, Debug)]
pub enum Type {
    /// Specifically `Int32`
    Int32,

    /// Specifically `Float32`
    Float32,

    /// Specifically `Float64`
    Float64,
}

/// Represents a single value on the calculator stack.
///
/// The floating-point variants carry the IEEE-754 bit pattern of the
/// number as a plain unsigned integer. The core never interprets
/// those bits; it only tracks which width a value has, so two
/// floating-point values are equal exactly when their bit patterns
/// are.
#[derive(Clone, Copy, PartialEq, Eq, Structural, Debug)]
pub enum Value {
    /// A 32-bit signed integer
    Int32(i32),

    /// A 32-bit floating point number, as its bit pattern
    Float32(u32),

    /// A 64-bit floating point number, as its bit pattern
    Float64(u64),
}

impl Value {
    /// The unique type tag carried by this value.
    pub open spec fn type_of(self) -> Type {
        match self {
            Value::Int32(_) => Type::Int32,
            Value::Float32(_) => Type::Float32,
            Value::Float64(_) => Type::Float64,
        }
    }

    /// True iff this value's variant corresponds to the given tag.
    pub open spec fn spec_matches(self, candidate: Type) -> bool {
        self.type_of() == candidate
    }

    /// Returns `true` if the `Value` can be treated as the specified
    /// `Type`.
    pub fn matches(&self, candidate: &Type) -> (r: bool)
        ensures
            r == self.spec_matches(*candidate),
    {
        match self {
            Value::Int32(_) => *candidate == Type::Int32,
            Value::Float32(_) => *candidate == Type::Float32,
            Value::Float64(_) => *candidate == Type::Float64,
        }
    }

    /// The characters of the label returned by `type_str`.
    pub open spec fn spec_type_str(self) -> Seq<char> {
        match self {
            Value::Int32(_) => "Int32"@,
            Value::Float32(_) => "Float32"@,
            Value::Float64(_) => "Float64"@,
        }
    }

    /// Returns a string representation of the `Value`'s type.
    pub fn type_str(&self) -> (r: &'static str)
        ensures
            r@ == self.spec_type_str(),
    {
        match self {
            Value::Int32(_) => "Int32",
            Value::Float32(_) => "Float32",
            Value::Float64(_) => "Float64",
        }
    }
}

/// The character for one decimal digit.
pub open spec fn digit_char(d: int) -> char {
    (48 + d) as char
}

/// The decimal digits of a non-negative number, most significant
/// first; zero renders as no digits at all, so that the recursion
/// never produces a leading zero.
pub open spec fn dec_digits(n: int) -> Seq<char>
    decreases n,
{
    if n <= 0 {
        Seq::empty()
    } else {
        dec_digits(n / 10).push(digit_char(n % 10))
    }
}

/// The standard decimal rendering of a 32-bit signed integer: a
/// minus sign for negative numbers, no leading zeros, and `0` for
/// zero.
pub open spec fn spec_int32_str(x: int) -> Seq<char> {
    if x == 0 {
        seq!['0']
    } else if x < 0 {
        seq!['-'] + dec_digits(-x)
    } else {
        dec_digits(x)
    }
}

/// One decimal digit as a string.
fn digit_str(d: u32) -> (r: &'static str)
    requires
        d < 10,
    ensures
        r@ == seq![digit_char(d as int)],
{
    proof {
        reveal_strlit("0");
        reveal_strlit("1");
        reveal_strlit("2");
        reveal_strlit("3");
        reveal_strlit("4");
        reveal_strlit("5");
        reveal_strlit("6");
        reveal_strlit("7");
        reveal_strlit("8");
        reveal_strlit("9");
    }
    match d {
        0 => "0",
        1 => "1",
        2 => "2",
        3 => "3",
        4 => "4",
        5 => "5",
        6 => "6",
        7 => "7",
        8 => "8",
        _ => "9",
    }
}

/// The digit characters of `ds` (least significant first), read
/// back most significant first.
spec fn rev_chars(ds: Seq<u32>) -> Seq<char> {
    Seq::new(ds.len(), |j: int| digit_char(ds[ds.len() - 1 - j] as int))
}

/// Render the payload of an `Int32` value in decimal, as `Display`
/// would: deterministic, round-trip-legible, no leading zeros.
pub fn int32_str(x: i32) -> (r: String)
    ensures
        r@ == spec_int32_str(x as int),
{
    if x == 0 {
        proof {
            reveal_strlit("0");
        }
        let s = String::from_str("0");
        proof {
            assert(s@ =~= seq!['0']);
        }
        return s;
    }
    let neg = x < 0;
    let m0: u32 = if x == i32::MIN {
        0x8000_0000
    } else if neg {
        (-x) as u32
    } else {
        x as u32
    };
    proof {
        assert(m0 as int == if x < 0 {
            -(x as int)
        } else {
            x as int
        });
    }

    // Peel the digits off, least significant first.
    let mut digits: Vec<u32> = Vec::new();
    let mut m = m0;
    proof {
        assert(rev_chars(digits@) =~= Seq::<char>::empty());
    }
    while m > 0
        invariant
            forall|j: int| 0 <= j < digits@.len() ==> digits@[j] < 10,
            dec_digits(m0 as int) == dec_digits(m as int) + rev_chars(digits@),
        decreases m,
    {
        let ghost pre = digits@;
        let d: u32 = m % 10;
        digits.push(d);
        m = m / 10;
        proof {
            assert(rev_chars(pre.push(d)) =~= seq![digit_char(d as int)] + rev_chars(pre));
            assert(dec_digits(m0 as int) =~= dec_digits(m as int) + rev_chars(digits@));
        }
    }
    proof {
        assert(dec_digits(m0 as int) =~= rev_chars(digits@));
    }

    // Write them back out, most significant first.
    let mut s = String::new();
    let ghost sign: Seq<char> = if neg {
        seq!['-']
    } else {
        Seq::empty()
    };
    if neg {
        proof {
            reveal_strlit("-");
        }
        s.append("-");
    }
    proof {
        assert(s@ =~= sign + rev_chars(digits@).take(0));
    }
    let mut i = digits.len();
    while i > 0
        invariant
            i <= digits@.len(),
            forall|j: int| 0 <= j < digits@.len() ==> digits@[j] < 10,
            s@ == sign + rev_chars(digits@).take(digits@.len() - i),
        decreases i,
    {
        i = i - 1;
        let ghost k = digits@.len() - i - 1;
        s.append(digit_str(digits[i]));
        proof {
            assert(rev_chars(digits@)[k] == digit_char(digits@[i as int] as int));
            assert(rev_chars(digits@).take(k + 1) =~= rev_chars(digits@).take(k) + seq![
                rev_chars(digits@)[k],
            ]);
            assert(s@ =~= sign + rev_chars(digits@).take(k + 1));
        }
    }
    proof {
        assert(rev_chars(digits@).take(digits@.len() as int) =~= rev_chars(digits@));
        assert(s@ =~= spec_int32_str(x as int));
    }
    s
}

} // verus!
