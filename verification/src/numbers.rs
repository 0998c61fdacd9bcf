//! Decimal text for unsigned integers, both ways: the digits `to_string`
//! prints and the value `str::parse` reads for an unsigned integer type.
use vstd::prelude::*;

verus! {

/// Why `str::parse` refuses a text as an unsigned integer (`IntErrorKind`).
#[derive(Clone, Copy, Debug, PartialEq, Eq)]
pub enum IntErrorKind {
    /// The text is empty.
    Empty,
    /// The text holds a character that is not a decimal digit, or is a lone sign.
    InvalidDigit,
    /// The value does not fit in the target type.
    PosOverflow,
}

impl IntErrorKind {
    /// The message that std's `ParseIntError` displays for this kind.
    pub fn message(&self) -> (m: &'static str)
        ensures
            m@ == int_error_message(*self),
    {
        match self {
            IntErrorKind::Empty => "cannot parse integer from empty string",
            IntErrorKind::InvalidDigit => "invalid digit found in string",
            IntErrorKind::PosOverflow => "number too large to fit in target type",
        }
    }
}

/// The text of `IntErrorKind::message`.
pub open spec fn int_error_message(k: IntErrorKind) -> Seq<char> {
    match k {
        IntErrorKind::Empty => "cannot parse integer from empty string"@,
        IntErrorKind::InvalidDigit => "invalid digit found in string"@,
        IntErrorKind::PosOverflow => "number too large to fit in target type"@,
    }
}

/// The character of a decimal digit `d < 10`.
pub open spec fn digit_char(d: nat) -> char {
    ((d + 48) as u8) as char
}

/// Whether `c` is one of `0`..=`9`.
pub open spec fn is_digit(c: char) -> bool {
    '0' <= c && c <= '9'
}

/// The value of a decimal digit character.
pub open spec fn digit_value(c: char) -> nat {
    ((c as u32) - 48) as nat
}

/// The decimal digits of `n`, most significant first, without sign or
/// leading zeros (what `u64::to_string` prints).
pub open spec fn decimal(n: nat) -> Seq<char>
    decreases n,
{
    if n < 10 {
        seq![digit_char(n)]
    } else {
        decimal(n / 10).push(digit_char(n % 10))
    }
}

/// One step of reading digits left to right: the value so far `acc`, then
/// `c`; the checks come in the order std makes them.
pub open spec fn read_digit(acc: nat, c: char, max: nat) -> Result<nat, IntErrorKind> {
    if !is_digit(c) {
        Err(IntErrorKind::InvalidDigit)
    } else if acc * 10 > max {
        Err(IntErrorKind::PosOverflow)
    } else if acc * 10 + digit_value(c) > max {
        Err(IntErrorKind::PosOverflow)
    } else {
        Ok(acc * 10 + digit_value(c))
    }
}

/// Reads all of `s` as digits: the value, or the first refusal met from the left.
pub open spec fn read_digits(s: Seq<char>, max: nat) -> Result<nat, IntErrorKind>
    decreases s.len(),
{
    if s.len() == 0 {
        Ok(0)
    } else {
        match read_digits(s.drop_last(), max) {
            Err(e) => Err(e),
            Ok(acc) => read_digit(acc, s.last(), max),
        }
    }
}

/// What `str::parse` gives for an unsigned integer type whose largest value
/// is `max`: an optional `+`, then one or more digits whose value is at most `max`.
pub open spec fn parse_unsigned_spec(s: Seq<char>, max: nat) -> Result<nat, IntErrorKind> {
    if s.len() == 0 {
        Err(IntErrorKind::Empty)
    } else if s.len() == 1 && (s[0] == '+' || s[0] == '-') {
        Err(IntErrorKind::InvalidDigit)
    } else if s[0] == '+' {
        read_digits(s.drop_first(), max)
    } else {
        read_digits(s, max)
    }
}

fn digit_of(d: u64) -> (c: char)
    requires
        d < 10,
    ensures
        c == digit_char(d as nat),
{
    let b: u8 = (d as u8) + 48;
    b as char
}

/// The decimal digits of `n` (`u64::to_string`).
pub fn decimal_chars(n: u64) -> (v: Vec<char>)
    ensures
        v@ == decimal(n as nat),
    decreases n,
{
    if n < 10 {
        let mut v: Vec<char> = Vec::new();
        v.push(digit_of(n));
        v
    } else {
        let mut v = decimal_chars(n / 10);
        v.push(digit_of(n % 10));
        v
    }
}

proof fn lemma_read_digits_error_persists(s: Seq<char>, i: int, max: nat)
    requires
        0 <= i <= s.len(),
        read_digits(s.take(i), max) is Err,
    ensures
        read_digits(s, max) == read_digits(s.take(i), max),
    decreases s.len() - i,
{
    if i < s.len() {
        assert(s.take(i + 1).drop_last() =~= s.take(i));
        assert(read_digits(s.take(i + 1), max) == read_digits(s.take(i), max));
        lemma_read_digits_error_persists(s, i + 1, max);
    } else {
        assert(s.take(i) =~= s);
    }
}

proof fn lemma_times_ten(acc: nat, max: nat)
    ensures
        (acc * 10 > max) == (acc > max / 10),
{
    assert((acc * 10 > max) == (acc > max / 10)) by (nonlinear_arith);
}

/// Reads all of `v[from..]` as digits.
fn read_digits_exec(v: &Vec<char>, from: usize, max: u64) -> (r: Result<u64, IntErrorKind>)
    requires
        from <= v.len(),
    ensures
        match r {
            Ok(n) => read_digits(v@.skip(from as int), max as nat) == Ok::<nat, IntErrorKind>(
                n as nat,
            ),
            Err(e) => read_digits(v@.skip(from as int), max as nat) == Err::<nat, IntErrorKind>(e),
        },
{
    let ghost s = v@.skip(from as int);
    let mut acc: u64 = 0;
    let mut i: usize = from;
    assert(s.take(0).len() == 0);
    while i < v.len()
        invariant
            from <= i <= v.len(),
            s == v@.skip(from as int),
            acc <= max,
            read_digits(s.take(i - from), max as nat) == Ok::<nat, IntErrorKind>(acc as nat),
        decreases v.len() - i,
    {
        let c = v[i];
        let ghost k = i - from;
        assert(s.take(k + 1).drop_last() =~= s.take(k));
        assert(s.take(k + 1).last() == c);
        if !('0' <= c && c <= '9') {
            proof {
                lemma_read_digits_error_persists(s, k + 1, max as nat);
            }
            return Err(IntErrorKind::InvalidDigit);
        }
        proof {
            lemma_times_ten(acc as nat, max as nat);
        }
        if acc > max / 10 {
            proof {
                lemma_read_digits_error_persists(s, k + 1, max as nat);
            }
            return Err(IntErrorKind::PosOverflow);
        }
        let d: u64 = ((c as u32) - 48) as u64;
        let scaled: u64 = acc * 10;
        if d > max - scaled {
            proof {
                lemma_read_digits_error_persists(s, k + 1, max as nat);
            }
            return Err(IntErrorKind::PosOverflow);
        }
        acc = scaled + d;
        i = i + 1;
    }
    assert(s.take(i - from) =~= s);
    Ok(acc)
}

/// `str::parse` into an unsigned integer type whose largest value is `max`
/// (`u64::MAX` for `u64`, `u32::MAX` for `u32`).
pub fn parse_unsigned(v: &Vec<char>, max: u64) -> (r: Result<u64, IntErrorKind>)
    ensures
        match r {
            Ok(n) => parse_unsigned_spec(v@, max as nat) == Ok::<nat, IntErrorKind>(n as nat),
            Err(e) => parse_unsigned_spec(v@, max as nat) == Err::<nat, IntErrorKind>(e),
        },
{
    if v.len() == 0 {
        return Err(IntErrorKind::Empty);
    }
    if v.len() == 1 && (v[0] == '+' || v[0] == '-') {
        return Err(IntErrorKind::InvalidDigit);
    }
    if v[0] == '+' {
        assert(v@.skip(1) =~= v@.drop_first());
        read_digits_exec(v, 1, max)
    } else {
        assert(v@.skip(0) =~= v@);
        read_digits_exec(v, 0, max)
    }
}

/// Reading back what `decimal` prints gives the number again, as long as it fits.
pub proof fn lemma_read_decimal(n: nat, max: nat)
    requires
        n <= max,
    ensures
        read_digits(decimal(n), max) == Ok::<nat, IntErrorKind>(n),
        decimal(n).len() > 0,
        decimal(n)[0] != '+' && decimal(n)[0] != '-',
    decreases n,
{
    if n < 10 {
        let s = decimal(n);
        assert(s.drop_last() =~= Seq::<char>::empty());
        assert(read_digits(s.drop_last(), max) == Ok::<nat, IntErrorKind>(0));
    } else {
        let q = n / 10;
        let r = n % 10;
        assert(q * 10 + r == n);
        assert(q * 10 <= n);
        lemma_read_decimal(q, max);
        let s = decimal(n);
        assert(s.drop_last() =~= decimal(q));
        assert(decimal(q)[0] == s[0]);
    }
}

/// `parse_unsigned_spec` reads back the text that `decimal` prints.
pub proof fn lemma_parse_decimal(n: nat, max: nat)
    requires
        n <= max,
    ensures
        parse_unsigned_spec(decimal(n), max) == Ok::<nat, IntErrorKind>(n),
{
    lemma_read_decimal(n, max);
}

/// Every character that `decimal` prints is a decimal digit.
pub proof fn lemma_decimal_digits(n: nat)
    ensures
        forall|i: int| 0 <= i < decimal(n).len() ==> is_digit(#[trigger] decimal(n)[i]),
    decreases n,
{
    if n >= 10 {
        lemma_decimal_digits(n / 10);
        assert forall|i: int| 0 <= i < decimal(n).len() implies is_digit(#[trigger] decimal(n)[i]) by {
            if i < decimal(n / 10).len() {
                assert(decimal(n)[i] == decimal(n / 10)[i]);
            }
        }
    }
}

} // verus!
