//! Decimal numerals: integers written out, and read back.
use vstd::prelude::*;

use crate::text;

verus! {

pub open spec fn digit(d: nat) -> char {
    (48 + d) as char
}

/// The decimal numeral of a natural number, without leading zeros.
pub open spec fn numeral(n: nat) -> Seq<char>
    decreases n,
{
    if n < 10 {
        seq![digit(n)]
    } else {
        numeral(n / 10).push(digit(n % 10))
    }
}

/// The decimal numeral of an integer, with a minus sign in front of a negative one.
pub open spec fn signed_numeral(n: int) -> Seq<char> {
    if n < 0 {
        seq!['-'] + numeral((-n) as nat)
    } else {
        numeral(n as nat)
    }
}

/// The number that a sequence of digits stands for.
pub open spec fn numeral_value(s: Seq<char>) -> nat
    decreases s.len(),
{
    if s.len() == 0 {
        0
    } else {
        numeral_value(s.drop_last()) * 10 + (s.last() as nat - 48) as nat
    }
}

pub open spec fn all_digits(s: Seq<char>) -> bool {
    forall|i: int| 0 <= i < s.len() ==> text::is_digit(s[i])
}

/// A numeral consists of digits, there is at least one, and it stands for the number
/// that it was written for.
pub proof fn numeral_reads_back(n: nat)
    ensures
        all_digits(numeral(n)),
        numeral(n).len() > 0,
        numeral_value(numeral(n)) == n,
    decreases n,
{
    if n >= 10 {
        numeral_reads_back(n / 10);
        assert(numeral(n).drop_last() =~= numeral(n / 10));
    } else {
        assert(numeral(n).drop_last() =~= Seq::<char>::empty());
        assert(numeral_value(numeral(n).drop_last()) == 0);
    }
}

/// Two integers with the same numeral are the same integer.
pub proof fn signed_numerals_differ(a: int, b: int)
    requires
        signed_numeral(a) == signed_numeral(b),
    ensures
        a == b,
{
    if a < 0 {
        numeral_reads_back((-a) as nat);
        assert(signed_numeral(a)[0] == '-');
        assert(signed_numeral(a).skip(1) =~= numeral((-a) as nat));
    } else {
        numeral_reads_back(a as nat);
        assert(text::is_digit(numeral(a as nat)[0]));
    }
    if b < 0 {
        numeral_reads_back((-b) as nat);
        assert(signed_numeral(b)[0] == '-');
        assert(signed_numeral(b).skip(1) =~= numeral((-b) as nat));
    } else {
        numeral_reads_back(b as nat);
        assert(text::is_digit(numeral(b as nat)[0]));
    }
}

/// The decimal numeral of `n`.
pub fn numeral_of(n: u128) -> (text: String)
    ensures
        text@ == numeral(n as nat),
    decreases n,
{
    let low: u128 = n % 10;
    let c = (48u8 + low as u8) as char;
    let mut text = if n < 10 {
        String::new()
    } else {
        numeral_of(n / 10)
    };
    text.push(c);
    assert(c == digit((n % 10) as nat));
    assert(text@ =~= numeral(n as nat));
    text
}

/// The decimal numeral of `n`, with a minus sign where it is negative.
pub fn signed_numeral_of(n: i128) -> (text: String)
    ensures
        text@ == signed_numeral(n as int),
{
    if n < 0 {
        let magnitude: u128 = (-(n + 1)) as u128 + 1;
        let mut text = String::new();
        text.push('-');
        text.append(numeral_of(magnitude).as_str());
        assert(text@ =~= seq!['-'] + numeral((-n) as nat));
        text
    } else {
        numeral_of(n as u128)
    }
}

/// The digits of an unsigned numeral: one plus sign may stand in front of them.
pub open spec fn unsigned_digits(s: Seq<char>) -> Seq<char> {
    if s.len() > 0 && s[0] == '+' {
        s.skip(1)
    } else {
        s
    }
}

/// Why a text is not a number.
#[derive(Debug, Clone, Copy, PartialEq, Eq, Structural)]
pub enum NumeralError {
    Empty,
    InvalidDigit,
    TooLarge,
}

pub open spec fn numeral_error_text(error: NumeralError) -> Seq<char> {
    match error {
        NumeralError::Empty => "cannot parse integer from empty string"@,
        NumeralError::InvalidDigit => "invalid digit found in string"@,
        NumeralError::TooLarge => "number too large to fit in target type"@,
    }
}

impl NumeralError {
    /// The report of the error.
    pub fn message(&self) -> (r: String)
        ensures
            r@ == numeral_error_text(*self),
    {
        match self {
            NumeralError::Empty => "cannot parse integer from empty string".to_owned(),
            NumeralError::InvalidDigit => "invalid digit found in string".to_owned(),
            NumeralError::TooLarge => "number too large to fit in target type".to_owned(),
        }
    }
}

/// What is wrong at the first character, from `from` on, that is no digit or makes the number
/// too large.
pub open spec fn first_fault(digits: Seq<char>, from: int) -> Option<NumeralError>
    decreases digits.len() - from,
{
    if from >= digits.len() {
        None
    } else if !text::is_digit(digits[from]) {
        Some(NumeralError::InvalidDigit)
    } else if numeral_value(digits.take(from + 1)) > u32::MAX {
        Some(NumeralError::TooLarge)
    } else {
        first_fault(digits, from + 1)
    }
}

/// What `u32::from_str` makes of a text: one or more digits, with or without a plus sign in
/// front, that stand for a number that fits; or what is wrong with it.
pub open spec fn parsed_u32(s: Seq<char>) -> Result<u32, NumeralError> {
    let digits = unsigned_digits(s);
    if s.len() == 0 {
        Err(NumeralError::Empty)
    } else if digits.len() == 0 {
        Err(NumeralError::InvalidDigit)
    } else {
        match first_fault(digits, 0) {
            Some(error) => Err(error),
            None => Ok(numeral_value(digits) as u32),
        }
    }
}

proof fn lemma_no_fault(digits: Seq<char>, from: int)
    requires
        0 <= from <= digits.len(),
        forall|i: int| 0 <= i < from ==> text::is_digit(#[trigger] digits[i]),
        numeral_value(digits.take(from)) <= u32::MAX,
    ensures
        first_fault(digits, from) is None <==> all_digits(digits) && numeral_value(digits)
            <= u32::MAX,
    decreases digits.len() - from,
{
    if from == digits.len() {
        assert(digits.take(from) =~= digits);
    } else if text::is_digit(digits[from]) {
        let next = digits.take(from + 1);
        if numeral_value(next) > u32::MAX {
            lemma_value_grows(digits, from + 1);
        } else {
            lemma_no_fault(digits, from + 1);
        }
    }
}

/// More digits make no smaller number.
proof fn lemma_value_grows(digits: Seq<char>, count: int)
    requires
        0 <= count <= digits.len(),
    ensures
        all_digits(digits) ==> numeral_value(digits.take(count)) <= numeral_value(digits),
    decreases digits.len(),
{
    if count == digits.len() {
        assert(digits.take(count) =~= digits);
    } else if all_digits(digits) {
        let shorter = digits.drop_last();
        assert(all_digits(shorter));
        lemma_value_grows(shorter, count);
        assert(shorter.take(count) =~= digits.take(count));
        assert(text::is_digit(digits[digits.len() - 1]));
    }
}

/// A text is a number exactly where it holds digits, with or without a plus sign in front, that
/// stand for one that fits.
pub proof fn numbers_are_digits(s: Seq<char>)
    ensures
        ({
            let digits = unsigned_digits(s);
            &&& parsed_u32(s) is Ok <==> digits.len() > 0 && all_digits(digits) && numeral_value(
                digits,
            ) <= u32::MAX
            &&& parsed_u32(s) matches Ok(n) ==> n == numeral_value(digits)
        }),
{
    let digits = unsigned_digits(s);
    assert(digits.take(0) =~= Seq::empty());
    lemma_no_fault(digits, 0);
}

/// Writing a number and reading the numeral gives the number back.
pub proof fn parsing_a_numeral_gives_the_number(n: u32)
    ensures
        parsed_u32(numeral(n as nat)) == Ok::<u32, NumeralError>(n),
{
    numeral_reads_back(n as nat);
    assert(text::is_digit(numeral(n as nat)[0]));
    numbers_are_digits(numeral(n as nat));
}

/// Reads an unsigned number of 32 bits.
pub fn parse_u32(text: &str) -> (r: Result<u32, NumeralError>)
    ensures
        r == parsed_u32(text@),
{
    let chars = text::chars_of(text);
    if chars.len() == 0 {
        return Err(NumeralError::Empty);
    }
    let ghost digits = unsigned_digits(text@);
    let start: usize = if chars[0] == '+' {
        1
    } else {
        0
    };
    assert(digits =~= chars@.skip(start as int));
    if start == chars.len() {
        return Err(NumeralError::InvalidDigit);
    }
    let mut value: u64 = 0;
    let mut i: usize = start;
    assert(digits.take(0) =~= Seq::empty());
    while i < chars.len()
        invariant
            start <= i <= chars@.len(),
            digits == chars@.skip(start as int),
            value == numeral_value(digits.take(i - start)),
            value <= u32::MAX,
            first_fault(digits, 0) == first_fault(digits, i - start),
            digits == unsigned_digits(text@),
            text@.len() > 0,
            digits.len() > 0,
        decreases chars@.len() - i,
    {
        let c = chars[i];
        assert(digits[i - start] == c);
        if !text::char_is_digit(c) {
            return Err(NumeralError::InvalidDigit);
        }
        assert(digits.take(i - start + 1).drop_last() =~= digits.take(i - start));
        assert(digits.take(i - start + 1).last() == c);
        value = value * 10 + (c as u64 - 48);
        if value > u32::MAX as u64 {
            return Err(NumeralError::TooLarge);
        }
        i += 1;
    }
    assert(digits.take(digits.len() as int) =~= digits);
    Ok(value as u32)
}

// ---------------------------------------------------------------------------
// Laws
// ---------------------------------------------------------------------------

/// A number is written with digits that stand for it, without a zero in front unless it is zero
/// itself, and a negative one with a minus sign in front of the numeral of its opposite.
pub proof fn numerals_are_written_in_full(
    n: u128,
    m: i128,
    a: String,
    b: String,
)
    requires
        call_ensures(numeral_of, (n,), a),
        call_ensures(signed_numeral_of, (m,), b),
    ensures
        all_digits(a@),
        numeral_value(a@) == n,
        a@.len() > 0 && (a@[0] == '0' ==> n == 0 && a@.len() == 1),
        m >= 0 ==> all_digits(b@) && numeral_value(b@) == m,
        m < 0 ==> b@.len() > 1 && b@[0] == '-' && all_digits(b@.skip(1)) && numeral_value(
            b@.skip(1),
        ) == -m,
{
    numeral_reads_back(n as nat);
    lemma_no_leading_zero(n as nat);
    if m < 0 {
        numeral_reads_back((-m) as nat);
        assert(b@.skip(1) =~= numeral((-m) as nat));
    } else {
        numeral_reads_back(m as nat);
    }
}

proof fn lemma_no_leading_zero(n: nat)
    ensures
        numeral(n).len() > 0,
        numeral(n)[0] == '0' ==> n == 0,
        n == 0 ==> numeral(n).len() == 1,
    decreases n,
{
    if n >= 10 {
        lemma_no_leading_zero(n / 10);
    }
}

/// A text is read as the number that its digits stand for. The error of any other text tells
/// what is wrong: it is empty; or it has a character that is no digit, or nothing behind its
/// plus sign; or its digits, up to some place, stand for a number that does not fit.
pub proof fn numbers_are_read_or_told_why_not(
    text: &str,
    digits: Seq<char>,
    r: Result<u32, NumeralError>,
)
    requires
        call_ensures(parse_u32, (text,), r),
        text@.len() > 0 && text@[0] == '+' ==> digits == text@.skip(1),
        text@.len() == 0 || text@[0] != '+' ==> digits == text@,
    ensures
        ({
            &&& r is Ok <==> digits.len() > 0 && all_digits(digits) && numeral_value(digits)
                <= u32::MAX
            &&& r matches Ok(n) ==> n == numeral_value(digits)
            &&& r == Err::<u32, NumeralError>(NumeralError::Empty) <==> text@.len() == 0
            &&& r == Err::<u32, NumeralError>(NumeralError::InvalidDigit) ==> digits.len() == 0
                || !all_digits(digits)
            &&& r == Err::<u32, NumeralError>(NumeralError::TooLarge) ==> exists|k: int|
                0 <= k <= digits.len() && all_digits(digits.take(k)) && numeral_value(
                    #[trigger] digits.take(k),
                ) > u32::MAX
        }),
{
    numbers_are_digits(text@);
    assert(digits == unsigned_digits(text@));
    lemma_fault_is_there(digits, 0);
}

proof fn lemma_fault_is_there(digits: Seq<char>, from: int)
    requires
        0 <= from <= digits.len(),
        forall|i: int| 0 <= i < from ==> text::is_digit(#[trigger] digits[i]),
    ensures
        first_fault(digits, from) == Some(NumeralError::InvalidDigit) ==> !all_digits(digits),
        first_fault(digits, from) == Some(NumeralError::TooLarge) ==> exists|k: int|
            0 <= k <= digits.len() && all_digits(digits.take(k)) && numeral_value(
                #[trigger] digits.take(k),
            ) > u32::MAX,
        first_fault(digits, from) != Some(NumeralError::Empty),
    decreases digits.len() - from,
{
    if from < digits.len() {
        if !text::is_digit(digits[from]) {
        } else if numeral_value(digits.take(from + 1)) > u32::MAX {
            assert(all_digits(digits.take(from + 1)));
        } else {
            lemma_fault_is_there(digits, from + 1);
        }
    }
}

/// Each error has a report of its own.
pub proof fn numeral_errors_are_told_apart(
    a: &NumeralError,
    b: &NumeralError,
    ra: String,
    rb: String,
)
    requires
        call_ensures(NumeralError::message, (a,), ra),
        call_ensures(NumeralError::message, (b,), rb),
    ensures
        ra@ == rb@ <==> a == b,
        *a == NumeralError::Empty <==> "empty string"@.is_suffix_of(ra@),
        *a == NumeralError::InvalidDigit <==> "invalid digit"@.is_prefix_of(ra@),
        *a == NumeralError::TooLarge <==> "number too large"@.is_prefix_of(ra@),
{
    reveal_strlit("cannot parse integer from empty string");
    reveal_strlit("invalid digit found in string");
    reveal_strlit("number too large to fit in target type");
    reveal_strlit("empty string");
    reveal_strlit("invalid digit");
    reveal_strlit("number too large");
    assert(ra@[0] == rb@[0] <==> a == b);
    if *a == NumeralError::Empty {
        assert(ra@.skip(ra@.len() - 12) =~= "empty string"@);
        assert(ra@[0] != "invalid digit"@[0] && ra@[0] != "number too large"@[0]);
    } else if *a == NumeralError::InvalidDigit {
        assert(ra@.take(13) =~= "invalid digit"@);
        assert(ra@[ra@.len() - 8] != "empty string"@[4]);
        assert(ra@[0] != "number too large"@[0]);
    } else {
        assert(ra@.take(16) =~= "number too large"@);
        assert(ra@.last() != "empty string"@[11]);
        assert(ra@[0] != "invalid digit"@[0]);
    }
}

} // verus!
