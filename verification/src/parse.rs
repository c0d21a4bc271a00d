//! The textual parse rules of path parameters: text is passed through,
//! booleans are `true` or `false`, integers are decimal with an optional sign.

use vstd::prelude::*;
use vstd::string::StringExecFns;
use crate::errors::{Error, ErrorKind, ErrorView};
use crate::text::{chars_of, same_text};

verus! {

/// The type a path parameter is parsed into.
#[derive(Clone, Copy, Debug, PartialEq, Eq, Structural)]
pub enum ParamType {
    Text,
    Boolean,
    U32,
    U64,
    I32,
    I64,
}

/// A parsed path parameter.
#[derive(Clone, Debug, PartialEq, Eq)]
pub enum ParamValue {
    Text(String),
    Boolean(bool),
    Unsigned(u64),
    Signed(i64),
}

/// The model of a [`ParamValue`].
pub enum ParamValueView {
    Text(Seq<char>),
    Boolean(bool),
    Integer(int),
}

impl View for ParamValue {
    type V = ParamValueView;

    open spec fn view(&self) -> ParamValueView {
        match *self {
            ParamValue::Text(t) => ParamValueView::Text(t@),
            ParamValue::Boolean(b) => ParamValueView::Boolean(b),
            ParamValue::Unsigned(n) => ParamValueView::Integer(n as int),
            ParamValue::Signed(n) => ParamValueView::Integer(n as int),
        }
    }
}

impl DeepView for ParamValue {
    type V = ParamValueView;

    open spec fn deep_view(&self) -> ParamValueView {
        self@
    }
}

/// Why a text is not a value of the type asked for.
#[derive(Clone, Copy, Debug, PartialEq, Eq, Structural)]
pub enum ParseFailure {
    /// An integer was asked for and the text is empty.
    Empty,
    /// The text holds a character that is no decimal digit, or a sign alone.
    InvalidDigit,
    /// The number is above the largest value of the type.
    PosOverflow,
    /// The number is below the smallest value of the type.
    NegOverflow,
    /// The text is neither `true` nor `false`.
    NotBoolean,
}

pub open spec fn is_digit(c: char) -> bool {
    '0' <= c <= '9'
}

pub open spec fn digit_value(c: char) -> nat {
    (c as u32 - '0' as u32) as nat
}

/// The number that a sequence of decimal digits denotes.
pub open spec fn decimal_value(digits: Seq<char>) -> nat
    decreases digits.len(),
{
    if digits.len() == 0 {
        0
    } else {
        10 * decimal_value(digits.drop_last()) + digit_value(digits.last())
    }
}

/// The length of the longest prefix of `s` made of decimal digits.
pub open spec fn digit_run(s: Seq<char>) -> nat
    decreases s.len(),
{
    if s.len() == 0 || !is_digit(s[0]) {
        0
    } else {
        1 + digit_run(s.drop_first())
    }
}

/// What reading `digits` as a magnitude of at most `limit` gives. The
/// digits are read from the left: the first thing met that is wrong
/// decides, a value past the limit (`over`) or a character that is no digit.
pub open spec fn magnitude_outcome(digits: Seq<char>, limit: nat, over: ParseFailure) -> Result<
    nat,
    ParseFailure,
> {
    let run = digit_run(digits);
    if decimal_value(digits.take(run as int)) > limit {
        Err(over)
    } else if run < digits.len() {
        Err(ParseFailure::InvalidDigit)
    } else {
        Ok(decimal_value(digits))
    }
}

/// What parsing `s` as an unsigned decimal of at most `max` gives: an
/// optional `+`, then at least one digit.
pub open spec fn unsigned_outcome(s: Seq<char>, max: nat) -> Result<nat, ParseFailure> {
    if s.len() == 0 {
        Err(ParseFailure::Empty)
    } else if s[0] == '+' || s[0] == '-' {
        if s.len() == 1 || s[0] == '-' {
            Err(ParseFailure::InvalidDigit)
        } else {
            magnitude_outcome(s.skip(1), max, ParseFailure::PosOverflow)
        }
    } else {
        magnitude_outcome(s, max, ParseFailure::PosOverflow)
    }
}

/// What parsing `s` as a signed decimal between `-(max + 1)` and `max`
/// gives: an optional `+` or `-`, then at least one digit.
pub open spec fn signed_outcome(s: Seq<char>, max: nat) -> Result<int, ParseFailure> {
    if s.len() == 0 {
        Err(ParseFailure::Empty)
    } else if s[0] == '+' || s[0] == '-' {
        if s.len() == 1 {
            Err(ParseFailure::InvalidDigit)
        } else if s[0] == '-' {
            match magnitude_outcome(s.skip(1), max + 1, ParseFailure::NegOverflow) {
                Ok(m) => Ok(-(m as int)),
                Err(e) => Err(e),
            }
        } else {
            match magnitude_outcome(s.skip(1), max, ParseFailure::PosOverflow) {
                Ok(m) => Ok(m as int),
                Err(e) => Err(e),
            }
        }
    } else {
        match magnitude_outcome(s, max, ParseFailure::PosOverflow) {
            Ok(m) => Ok(m as int),
            Err(e) => Err(e),
        }
    }
}

/// What parsing `s` as a boolean gives.
pub open spec fn bool_outcome(s: Seq<char>) -> Result<bool, ParseFailure> {
    if s == "true"@ {
        Ok(true)
    } else if s == "false"@ {
        Ok(false)
    } else {
        Err(ParseFailure::NotBoolean)
    }
}

/// What parsing `raw` into `target` gives.
pub open spec fn param_outcome(target: ParamType, raw: Seq<char>) -> Result<
    ParamValueView,
    ParseFailure,
> {
    match target {
        ParamType::Text => Ok(ParamValueView::Text(raw)),
        ParamType::Boolean => match bool_outcome(raw) {
            Ok(b) => Ok(ParamValueView::Boolean(b)),
            Err(e) => Err(e),
        },
        ParamType::U32 => match unsigned_outcome(raw, 0xffff_ffff) {
            Ok(n) => Ok(ParamValueView::Integer(n as int)),
            Err(e) => Err(e),
        },
        ParamType::U64 => match unsigned_outcome(raw, 0xffff_ffff_ffff_ffff) {
            Ok(n) => Ok(ParamValueView::Integer(n as int)),
            Err(e) => Err(e),
        },
        ParamType::I32 => match signed_outcome(raw, 0x7fff_ffff) {
            Ok(n) => Ok(ParamValueView::Integer(n)),
            Err(e) => Err(e),
        },
        ParamType::I64 => match signed_outcome(raw, 0x7fff_ffff_ffff_ffff) {
            Ok(n) => Ok(ParamValueView::Integer(n)),
            Err(e) => Err(e),
        },
    }
}

/// The message of each failure.
pub open spec fn message_of(failure: ParseFailure) -> Seq<char> {
    match failure {
        ParseFailure::Empty => "cannot parse integer from empty string"@,
        ParseFailure::InvalidDigit => "invalid digit found in string"@,
        ParseFailure::PosOverflow => "number too large to fit in target type"@,
        ParseFailure::NegOverflow => "number too small to fit in target type"@,
        ParseFailure::NotBoolean => "provided string was not `true` or `false`"@,
    }
}

/// A run of digits is as long as the digits go.
pub proof fn lemma_digit_run(s: Seq<char>, n: int)
    requires
        0 <= n <= s.len(),
        forall|k: int| 0 <= k < n ==> is_digit(s[k]),
    ensures
        digit_run(s) >= n,
        (n == s.len() || !is_digit(s[n])) ==> digit_run(s) == n,
    decreases n,
{
    if n > 0 {
        let rest = s.drop_first();
        assert forall|k: int| 0 <= k < n - 1 implies is_digit(rest[k]) by {
            assert(rest[k] == s[k + 1]);
        }
        lemma_digit_run(rest, n - 1);
        if n < s.len() {
            assert(rest[n - 1] == s[n]);
        }
    }
}

/// A run of digits is no longer than the text.
pub proof fn lemma_digit_run_bounded(s: Seq<char>)
    ensures
        digit_run(s) <= s.len(),
    decreases s.len(),
{
    if s.len() > 0 && is_digit(s[0]) {
        lemma_digit_run_bounded(s.drop_first());
    }
}

/// Reading more digits never gives less.
pub proof fn lemma_decimal_value_grows(s: Seq<char>, i: int, j: int)
    requires
        0 <= i <= j <= s.len(),
    ensures
        decimal_value(s.take(i)) <= decimal_value(s.take(j)),
    decreases j - i,
{
    if i < j {
        lemma_decimal_value_grows(s, i, j - 1);
        assert(s.take(j).drop_last() =~= s.take(j - 1));
    }
}

impl ParseFailure {
    /// The message of this failure.
    pub fn message(self) -> (m: &'static str)
        ensures
            m@ == message_of(self),
    {
        match self {
            ParseFailure::Empty => "cannot parse integer from empty string",
            ParseFailure::InvalidDigit => "invalid digit found in string",
            ParseFailure::PosOverflow => "number too large to fit in target type",
            ParseFailure::NegOverflow => "number too small to fit in target type",
            ParseFailure::NotBoolean => "provided string was not `true` or `false`",
        }
    }

    /// The failure a request meets when a path parameter does not parse:
    /// `ParamParseError` with this failure's message.
    pub fn to_error(self) -> (e: Error)
        ensures
            e@ == (ErrorView { kind: ErrorKind::ParamParseError, text: message_of(self) }),
    {
        Error::ParamParseError(String::from_str(self.message()))
    }
}

/// Reads the characters of `chars` from `start` on as a decimal magnitude
/// of at most `limit`.
fn parse_magnitude(chars: &Vec<char>, start: usize, limit: u64, over: ParseFailure) -> (r: Result<
    u64,
    ParseFailure,
>)
    requires
        start <= chars.len(),
    ensures
        match magnitude_outcome(chars@.skip(start as int), limit as nat, over) {
            Ok(m) => r == Ok::<u64, ParseFailure>(m as u64) && m <= limit,
            Err(e) => r == Err::<u64, ParseFailure>(e),
        },
{
    let ghost digits = chars@.skip(start as int);
    let n = chars.len() - start;
    let mut acc: u64 = 0;
    let mut i: usize = 0;
    while i < n
        invariant
            start <= chars.len(),
            n == chars.len() - start,
            digits == chars@.skip(start as int),
            i <= n,
            forall|k: int| 0 <= k < i ==> is_digit(digits[k]),
            acc == decimal_value(digits.take(i as int)),
            acc <= limit,
        decreases n - i,
    {
        let c = chars[start + i];
        assert(c == digits[i as int]);
        proof {
            assert(digits.take(i + 1).drop_last() =~= digits.take(i as int));
            assert(digits.take(i + 1).last() == c);
        }
        if !(c >= '0' && c <= '9') {
            proof {
                lemma_digit_run(digits, i as int);
            }
            return Err(ParseFailure::InvalidDigit);
        }
        let d: u64 = (c as u32 - '0' as u32) as u64;
        assert(d == digit_value(c));
        if d > limit || acc > (limit - d) / 10 {
            proof {
                lemma_digit_run(digits, i + 1);
                lemma_digit_run_bounded(digits);
                lemma_decimal_value_grows(digits, i + 1, digit_run(digits) as int);
            }
            return Err(over);
        }
        acc = acc * 10 + d;
        i += 1;
    }
    proof {
        lemma_digit_run(digits, n as int);
        assert(digits.take(n as int) =~= digits);
    }
    Ok(acc)
}

/// Parses `s` as `true` or `false`.
pub fn parse_bool(s: &str) -> (r: Result<bool, ParseFailure>)
    ensures
        r == bool_outcome(s@),
{
    if same_text(s, "true") {
        Ok(true)
    } else if same_text(s, "false") {
        Ok(false)
    } else {
        Err(ParseFailure::NotBoolean)
    }
}

/// Parses `s` as an unsigned decimal number of at most `max`.
pub fn parse_unsigned(s: &str, max: u64) -> (r: Result<u64, ParseFailure>)
    ensures
        match unsigned_outcome(s@, max as nat) {
            Ok(n) => r == Ok::<u64, ParseFailure>(n as u64) && n <= max,
            Err(e) => r == Err::<u64, ParseFailure>(e),
        },
{
    let chars = chars_of(s);
    if chars.len() == 0 {
        return Err(ParseFailure::Empty);
    }
    let first = chars[0];
    if first == '+' || first == '-' {
        if chars.len() == 1 || first == '-' {
            return Err(ParseFailure::InvalidDigit);
        }
        parse_magnitude(&chars, 1, max, ParseFailure::PosOverflow)
    } else {
        assert(chars@.skip(0) =~= chars@);
        parse_magnitude(&chars, 0, max, ParseFailure::PosOverflow)
    }
}

/// Parses `s` as a signed decimal number between `-(max + 1)` and `max`.
pub fn parse_signed(s: &str, max: i64) -> (r: Result<i64, ParseFailure>)
    requires
        max >= 0,
    ensures
        match signed_outcome(s@, max as nat) {
            Ok(n) => r == Ok::<i64, ParseFailure>(n as i64) && -(max + 1) <= n <= max,
            Err(e) => r == Err::<i64, ParseFailure>(e),
        },
{
    let chars = chars_of(s);
    if chars.len() == 0 {
        return Err(ParseFailure::Empty);
    }
    let first = chars[0];
    if first == '+' || first == '-' {
        if chars.len() == 1 {
            return Err(ParseFailure::InvalidDigit);
        }
        if first == '-' {
            match parse_magnitude(&chars, 1, max as u64 + 1, ParseFailure::NegOverflow) {
                Ok(m) => {
                    if m == max as u64 + 1 {
                        Ok(-max - 1)
                    } else {
                        Ok(-(m as i64))
                    }
                },
                Err(e) => Err(e),
            }
        } else {
            match parse_magnitude(&chars, 1, max as u64, ParseFailure::PosOverflow) {
                Ok(m) => Ok(m as i64),
                Err(e) => Err(e),
            }
        }
    } else {
        assert(chars@.skip(0) =~= chars@);
        match parse_magnitude(&chars, 0, max as u64, ParseFailure::PosOverflow) {
            Ok(m) => Ok(m as i64),
            Err(e) => Err(e),
        }
    }
}

/// Parses the raw text of a path parameter into its target type.
pub fn parse_param(target: ParamType, raw: &str) -> (r: Result<ParamValue, ParseFailure>)
    ensures
        match param_outcome(target, raw@) {
            Ok(v) => r matches Ok(p) && p@ == v,
            Err(e) => r matches Err(f) && f == e,
        },
        r matches Ok(p) ==> matches_type(p, target),
{
    match target {
        ParamType::Text => Ok(ParamValue::Text(String::from_str(raw))),
        ParamType::Boolean => match parse_bool(raw) {
            Ok(b) => Ok(ParamValue::Boolean(b)),
            Err(e) => Err(e),
        },
        ParamType::U32 => match parse_unsigned(raw, 0xffff_ffff) {
            Ok(n) => Ok(ParamValue::Unsigned(n)),
            Err(e) => Err(e),
        },
        ParamType::U64 => match parse_unsigned(raw, 0xffff_ffff_ffff_ffff) {
            Ok(n) => Ok(ParamValue::Unsigned(n)),
            Err(e) => Err(e),
        },
        ParamType::I32 => match parse_signed(raw, 0x7fff_ffff) {
            Ok(n) => Ok(ParamValue::Signed(n)),
            Err(e) => Err(e),
        },
        ParamType::I64 => match parse_signed(raw, 0x7fff_ffff_ffff_ffff) {
            Ok(n) => Ok(ParamValue::Signed(n)),
            Err(e) => Err(e),
        },
    }
}

/// Whether a value is of the shape and range that parsing into `target` gives.
pub open spec fn matches_type(value: ParamValue, target: ParamType) -> bool {
    match target {
        ParamType::Text => value is Text,
        ParamType::Boolean => value is Boolean,
        ParamType::U32 => value matches ParamValue::Unsigned(n) && n <= 0xffff_ffff,
        ParamType::U64 => value is Unsigned,
        ParamType::I32 => value matches ParamValue::Signed(n) && -0x8000_0000 <= n <= 0x7fff_ffff,
        ParamType::I64 => value is Signed,
    }
}

} // verus!
