//! The value decoder: converts the raw text of an argument into a typed
//! value, or fails with a precise conversion error.
//!
//! The decoder for signed 64-bit integers follows the usual left-to-right
//! scan: an optional sign, then decimal digits, with the first offending
//! character or the first out-of-range prefix deciding the error.

use vstd::prelude::*;
use vstd::string::StrSliceExecFns;
use crate::error::{Error, ErrorView, spec_parse_failed};

verus! {

/// The declared type of an option's or positional's value.
#[derive(Clone, Copy, Debug, PartialEq, Eq, Structural)]
pub enum ValueType {
    Str,
    I64,
}

/// A decoded argument value.
#[derive(Clone, Debug, PartialEq)]
pub enum Value {
    Str(String),
    I64(i64),
}

/// Mathematical model of a [`Value`].
pub enum ValueView {
    Str(Seq<char>),
    I64(int),
}

impl View for Value {
    type V = ValueView;

    open spec fn view(&self) -> ValueView {
        match self {
            Value::Str(s) => ValueView::Str(s@),
            Value::I64(n) => ValueView::I64(*n as int),
        }
    }
}

impl DeepView for Value {
    type V = ValueView;

    open spec fn deep_view(&self) -> ValueView {
        self.view()
    }
}

/// The outcome of decoding a signed 64-bit integer from text.
#[derive(Clone, Copy, Debug, PartialEq, Eq, Structural)]
pub enum IntParse {
    /// The text is a well-formed integer with this value.
    Value(i64),
    /// The text was empty.
    Empty,
    /// A character that is not a decimal digit (or a lone sign).
    InvalidDigit,
    /// The value exceeds the largest representable integer.
    PosOverflow,
    /// The value is below the smallest representable integer.
    NegOverflow,
}

pub open spec fn is_digit(c: char) -> bool {
    '0' <= c && c <= '9'
}

pub open spec fn digit_val(c: char) -> int {
    c as int - '0' as int
}

/// Left-to-right scan of `digits` from position `i`, having already
/// accumulated `acc`; a negative number accumulates downward, so `acc`
/// always carries the signed value of the prefix.
pub open spec fn scan_i64(digits: Seq<char>, i: int, acc: int, neg: bool) -> IntParse
    decreases digits.len() - i,
{
    if i < 0 || i >= digits.len() {
        IntParse::Value(acc as i64)
    } else if !is_digit(digits[i]) {
        IntParse::InvalidDigit
    } else {
        let nv = if neg {
            acc * 10 - digit_val(digits[i])
        } else {
            acc * 10 + digit_val(digits[i])
        };
        if nv > i64::MAX {
            IntParse::PosOverflow
        } else if nv < i64::MIN {
            IntParse::NegOverflow
        } else {
            scan_i64(digits, i + 1, nv, neg)
        }
    }
}

/// What decoding a signed 64-bit integer from `s` yields: an optional
/// leading `+` or `-`, then one or more decimal digits whose value must fit.
pub open spec fn spec_parse_i64(s: Seq<char>) -> IntParse {
    if s.len() == 0 {
        IntParse::Empty
    } else {
        let neg = s[0] == '-';
        let digits = if s[0] == '-' || s[0] == '+' {
            s.drop_first()
        } else {
            s
        };
        if digits.len() == 0 {
            IntParse::InvalidDigit
        } else {
            scan_i64(digits, 0, 0, neg)
        }
    }
}

/// Decodes a signed 64-bit integer from text.
pub fn parse_i64(s: &str) -> (r: IntParse)
    ensures
        r == spec_parse_i64(s@),
{
    let n = s.unicode_len();
    if n == 0 {
        return IntParse::Empty;
    }
    let first = s.get_char(0);
    let neg = first == '-';
    let ds: usize = if first == '-' || first == '+' {
        1
    } else {
        0
    };
    if n == ds {
        return IntParse::InvalidDigit;
    }
    let ghost digits = if ds == 1 {
        s@.drop_first()
    } else {
        s@
    };
    proof {
        assert(digits =~= s@.skip(ds as int));
    }
    let mut acc: i64 = 0;
    let mut i: usize = ds;
    while i < n
        invariant
            n == s@.len(),
            ds <= i <= n,
            ds == 0 || ds == 1,
            n > ds,
            (ds == 1) <==> (s@[0] == '-' || s@[0] == '+'),
            neg <==> s@[0] == '-',
            digits == s@.skip(ds as int),
            digits.len() == n - ds,
            spec_parse_i64(s@) == scan_i64(digits, i - ds, acc as int, neg),
            neg ==> acc <= 0,
            !neg ==> acc >= 0,
        decreases n - i,
    {
        let c = s.get_char(i);
        proof {
            assert(digits[i - ds] == s@[i as int]);
        }
        if c < '0' || c > '9' {
            return IntParse::InvalidDigit;
        }
        let d: i64 = ((c as u32) - ('0' as u32)) as i64;
        let wide: i128 = if neg {
            (acc as i128) * 10 - (d as i128)
        } else {
            (acc as i128) * 10 + (d as i128)
        };
        if wide > i64::MAX as i128 {
            return IntParse::PosOverflow;
        }
        if wide < i64::MIN as i128 {
            return IntParse::NegOverflow;
        }
        acc = wide as i64;
        i += 1;
    }
    IntParse::Value(acc)
}

/// Whether every character of `s` is a decimal digit.
pub open spec fn all_digits(s: Seq<char>) -> bool {
    forall|i: int| 0 <= i < s.len() ==> is_digit(s[i])
}

/// The decimal value of a digit string.
pub open spec fn digits_val(s: Seq<char>) -> int
    decreases s.len(),
{
    if s.len() == 0 {
        0
    } else {
        digits_val(s.drop_last()) * 10 + digit_val(s.last())
    }
}

/// The digit part of integer text: everything after an optional sign.
pub open spec fn int_digits(s: Seq<char>) -> Seq<char> {
    if s.len() > 0 && (s[0] == '-' || s[0] == '+') {
        s.drop_first()
    } else {
        s
    }
}

/// Whether integer text carries a minus sign.
pub open spec fn int_neg(s: Seq<char>) -> bool {
    s.len() > 0 && s[0] == '-'
}

/// The signed value of integer text: the decimal value of its digits,
/// negated under a minus sign.
pub open spec fn int_val(s: Seq<char>) -> int {
    if int_neg(s) {
        -digits_val(int_digits(s))
    } else {
        digits_val(int_digits(s))
    }
}

proof fn lemma_digits_val_nonneg(s: Seq<char>)
    requires
        all_digits(s),
    ensures
        digits_val(s) >= 0,
    decreases s.len(),
{
    if s.len() > 0 {
        assert(all_digits(s.drop_last()));
        lemma_digits_val_nonneg(s.drop_last());
    }
}

proof fn lemma_digits_val_step(s: Seq<char>, i: int)
    requires
        0 <= i < s.len(),
    ensures
        digits_val(s.take(i + 1)) == digits_val(s.take(i)) * 10 + digit_val(s[i]),
{
    assert(s.take(i + 1).drop_last() =~= s.take(i));
    assert(s.take(i + 1).last() == s[i]);
}

proof fn lemma_digits_val_prefix_le(s: Seq<char>, i: int)
    requires
        all_digits(s),
        0 <= i <= s.len(),
    ensures
        digits_val(s.take(i)) <= digits_val(s),
        digits_val(s.take(i)) >= 0,
    decreases s.len() - i,
{
    assert(all_digits(s.take(i)));
    lemma_digits_val_nonneg(s.take(i));
    if i == s.len() {
        assert(s.take(i) =~= s);
    } else {
        lemma_digits_val_step(s, i);
        lemma_digits_val_prefix_le(s, i + 1);
    }
}

proof fn lemma_scan_fits(digits: Seq<char>, i: int, neg: bool)
    requires
        all_digits(digits),
        0 <= i <= digits.len(),
        neg ==> -digits_val(digits) >= i64::MIN,
        !neg ==> digits_val(digits) <= i64::MAX,
    ensures
        ({
            let acc = if neg {
                -digits_val(digits.take(i))
            } else {
                digits_val(digits.take(i))
            };
            let total = if neg {
                -digits_val(digits)
            } else {
                digits_val(digits)
            };
            scan_i64(digits, i, acc, neg) == IntParse::Value(total as i64)
        }),
    decreases digits.len() - i,
{
    lemma_digits_val_prefix_le(digits, i);
    if i == digits.len() {
        assert(digits.take(i) =~= digits);
    } else {
        lemma_digits_val_step(digits, i);
        lemma_digits_val_prefix_le(digits, i + 1);
        lemma_scan_fits(digits, i + 1, neg);
    }
}

proof fn lemma_scan_overflow(digits: Seq<char>, i: int, neg: bool)
    requires
        all_digits(digits),
        0 <= i <= digits.len(),
        neg ==> -digits_val(digits.take(i)) >= i64::MIN && -digits_val(digits) < i64::MIN,
        !neg ==> digits_val(digits.take(i)) <= i64::MAX && digits_val(digits) > i64::MAX,
    ensures
        ({
            let acc = if neg {
                -digits_val(digits.take(i))
            } else {
                digits_val(digits.take(i))
            };
            scan_i64(digits, i, acc, neg) == (if neg {
                IntParse::NegOverflow
            } else {
                IntParse::PosOverflow
            })
        }),
    decreases digits.len() - i,
{
    lemma_digits_val_prefix_le(digits, i);
    if i == digits.len() {
        assert(digits.take(i) =~= digits);
        assert(false);
    } else {
        lemma_digits_val_step(digits, i);
        lemma_digits_val_prefix_le(digits, i + 1);
        if neg {
            if -digits_val(digits.take(i + 1)) >= i64::MIN {
                lemma_scan_overflow(digits, i + 1, neg);
            }
        } else {
            if digits_val(digits.take(i + 1)) <= i64::MAX {
                lemma_scan_overflow(digits, i + 1, neg);
            }
        }
    }
}

/// Well-formed integer text decodes to its decimal value: for an optional
/// sign followed by one or more digits, the decoder returns exactly the
/// signed value of the digit string whenever that value is representable.
pub proof fn lemma_parse_i64_value(s: Seq<char>)
    requires
        s.len() > 0,
        int_digits(s).len() > 0,
        all_digits(int_digits(s)),
        i64::MIN <= int_val(s) <= i64::MAX,
    ensures
        spec_parse_i64(s) == IntParse::Value(int_val(s) as i64),
{
    let digits = int_digits(s);
    let neg = int_neg(s);
    lemma_digits_val_nonneg(digits);
    assert(digits.take(0) =~= Seq::<char>::empty());
    lemma_scan_fits(digits, 0, neg);
}

/// All-digit integer text whose value does not fit yields the overflow
/// error on the matching side.
pub proof fn lemma_parse_i64_overflow(s: Seq<char>)
    requires
        s.len() > 0,
        int_digits(s).len() > 0,
        all_digits(int_digits(s)),
        !(i64::MIN <= int_val(s) <= i64::MAX),
    ensures
        spec_parse_i64(s) == (if int_neg(s) {
            IntParse::NegOverflow
        } else {
            IntParse::PosOverflow
        }),
{
    let digits = int_digits(s);
    let neg = int_neg(s);
    lemma_digits_val_nonneg(digits);
    assert(digits.take(0) =~= Seq::<char>::empty());
    lemma_scan_overflow(digits, 0, neg);
}

/// The message of the conversion error behind each failed integer decode.
pub open spec fn spec_int_cause(p: IntParse) -> Seq<char> {
    match p {
        IntParse::Empty => "cannot parse integer from empty string"@,
        IntParse::InvalidDigit => "invalid digit found in string"@,
        IntParse::PosOverflow => "number too large to fit in target type"@,
        IntParse::NegOverflow => "number too small to fit in target type"@,
        IntParse::Value(_) => ""@,
    }
}

/// Renders the conversion error behind a failed integer decode.
pub fn int_cause(p: &IntParse) -> (r: String)
    ensures
        r@ == spec_int_cause(*p),
{
    match p {
        IntParse::Empty => "cannot parse integer from empty string".to_owned(),
        IntParse::InvalidDigit => "invalid digit found in string".to_owned(),
        IntParse::PosOverflow => "number too large to fit in target type".to_owned(),
        IntParse::NegOverflow => "number too small to fit in target type".to_owned(),
        IntParse::Value(_) => "".to_owned(),
    }
}

/// What decoding raw text at a declared type yields: the typed value, or a
/// conversion error carrying the name of the argument it was meant for.
pub open spec fn spec_decode(vt: ValueType, name: Seq<char>, raw: Seq<char>) -> Result<
    ValueView,
    ErrorView,
> {
    match vt {
        ValueType::Str => Ok(ValueView::Str(raw)),
        ValueType::I64 => match spec_parse_i64(raw) {
            IntParse::Value(n) => Ok(ValueView::I64(n as int)),
            p => Err(spec_parse_failed(name, spec_int_cause(p))),
        },
    }
}

/// The value-decoding capability bound to one argument spec: it knows the
/// argument's name (for error reports) and its declared value type.
#[derive(Debug)]
pub struct ParsedAssign {
    pub name: String,
    pub value_type: ValueType,
}

impl ParsedAssign {
    pub fn new(name: String, value_type: ValueType) -> (r: ParsedAssign)
        ensures
            r.name@ == name@,
            r.value_type == value_type,
    {
        ParsedAssign { name, value_type }
    }

    /// Decodes `value` at the declared type; a conversion failure is wrapped
    /// in an error naming this argument.
    pub fn assign(&self, value: String) -> (r: Result<Value, Error>)
        ensures
            match (r, spec_decode(self.value_type, self.name@, value@)) {
                (Ok(v), Ok(sv)) => v@ == sv,
                (Err(e), Err(se)) => e@ == se,
                _ => false,
            },
    {
        match self.value_type {
            ValueType::Str => Ok(Value::Str(value)),
            ValueType::I64 => {
                let p = parse_i64(value.as_str());
                match p {
                    IntParse::Value(n) => Ok(Value::I64(n)),
                    _ => Err(Error::parse_failed(self.name.as_str(), int_cause(&p))),
                }
            }
        }
    }
}

} // verus!
