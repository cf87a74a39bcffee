//! Decimal numbers and small text helpers on character sequences.

use vstd::prelude::*;

verus! {

/// The character for one decimal digit.
pub open spec fn digit_char(d: int) -> char
    recommends
        0 <= d < 10,
{
    seq!['0', '1', '2', '3', '4', '5', '6', '7', '8', '9'][d]
}

/// The decimal numeral of `n`, without leading zeros.
pub open spec fn decimal(n: nat) -> Seq<char>
    decreases n,
{
    if n < 10 {
        seq![digit_char(n as int)]
    } else {
        decimal(n / 10).push(digit_char((n % 10) as int))
    }
}

/// The value of a decimal digit, if `c` is one.
pub open spec fn digit_value(c: char) -> Option<nat> {
    if '0' <= c <= '9' {
        Some((c as u32 - '0' as u32) as nat)
    } else {
        None
    }
}

/// `s` without one leading plus sign that something follows.
pub open spec fn without_plus(s: Seq<char>) -> Seq<char> {
    if s.len() > 1 && s[0] == '+' {
        s.skip(1)
    } else {
        s
    }
}

/// Why a text is not an unsigned number.
#[derive(Debug, Clone, Copy, PartialEq, Eq, Structural)]
pub enum NumberError {
    /// There is no text.
    Empty,
    /// A character is no digit.
    InvalidDigit,
    /// The number is larger than the largest allowed.
    TooLarge,
}

/// The number that digits denote, read from the left, or what is wrong first.
pub open spec fn digits_read(s: Seq<char>, max: nat) -> Result<nat, NumberError>
    decreases s.len(),
{
    if s.len() == 0 {
        Ok(0)
    } else {
        match (digits_read(s.drop_last(), max), digit_value(s.last())) {
            (Err(e), _) => Err(e),
            (Ok(_), None) => Err(NumberError::InvalidDigit),
            (Ok(value), Some(d)) => if value * 10 + d > max {
                Err(NumberError::TooLarge)
            } else {
                Ok(value * 10 + d)
            },
        }
    }
}

/// The unsigned number written in `s`: an optional plus sign and at least one
/// digit, nothing else, and a value of at most `max`.
pub open spec fn number_in(s: Seq<char>, max: nat) -> Result<nat, NumberError> {
    if s.len() == 0 {
        Err(NumberError::Empty)
    } else {
        digits_read(without_plus(s), max)
    }
}

impl NumberError {
    /// A sentence that says what is wrong.
    pub fn message(self) -> (m: &'static str)
        ensures
            m@ == number_error_text(self),
    {
        match self {
            NumberError::Empty => "cannot parse integer from empty string",
            NumberError::InvalidDigit => "invalid digit found in string",
            NumberError::TooLarge => "number too large to fit in target type",
        }
    }
}

/// The text of a number error.
pub open spec fn number_error_text(e: NumberError) -> Seq<char> {
    match e {
        NumberError::Empty => "cannot parse integer from empty string"@,
        NumberError::InvalidDigit => "invalid digit found in string"@,
        NumberError::TooLarge => "number too large to fit in target type"@,
    }
}

/// The characters of each text.
pub open spec fn texts(v: Seq<String>) -> Seq<Seq<char>> {
    v.map_values(|s: String| s@)
}

/// The lower case of an ASCII letter; any other character as it is.
pub open spec fn ascii_lower_char(c: char) -> char {
    if 'A' <= c <= 'Z' {
        ((c as u32 + 32) as u32) as char
    } else {
        c
    }
}

/// `s` with its ASCII letters in lower case.
pub open spec fn ascii_lower(s: Seq<char>) -> Seq<char> {
    s.map_values(|c: char| ascii_lower_char(c))
}

/// Whether `a` and `b` are equal up to the case of ASCII letters.
pub open spec fn same_ignoring_case(a: Seq<char>, b: Seq<char>) -> bool {
    ascii_lower(a) == ascii_lower(b)
}

/// A digit as text.
fn digit_text(d: u64) -> (t: &'static str)
    requires
        d < 10,
    ensures
        t@ == seq![digit_char(d as int)],
{
    proof {
        reveal_strlit("0");
        reveal_strlit("1");
        reveal_strlit("2");
        reveal_strlit("3");
        reveal_strlit("4");
        reveal_strlit("5");
        reveal_strlit("6");
        reveal_strlit("7");
        reveal_strlit("8");
        reveal_strlit("9");
    }
    match d {
        0 => "0",
        1 => "1",
        2 => "2",
        3 => "3",
        4 => "4",
        5 => "5",
        6 => "6",
        7 => "7",
        8 => "8",
        _ => "9",
    }
}

/// Appends the decimal numeral of `n` to `out`.
pub fn push_decimal(out: &mut String, n: u64)
    ensures
        final(out)@ == old(out)@ + decimal(n as nat),
{
    push_large_decimal(out, n as u128);
}

/// Appends the decimal numeral of a number that may exceed 64 bits to `out`.
pub fn push_large_decimal(out: &mut String, n: u128)
    ensures
        final(out)@ == old(out)@ + decimal(n as nat),
    decreases n,
{
    if n >= 10 {
        push_large_decimal(out, n / 10);
        out.append(digit_text((n % 10) as u64));
        assert(out@ =~= old(out)@ + decimal((n / 10) as nat).push(digit_char((n % 10) as int)));
    } else {
        out.append(digit_text(n as u64));
    }
}

/// The characters of `s`.
pub fn chars_of(s: &str) -> (v: Vec<char>)
    ensures
        v@ == s@,
{
    let mut v: Vec<char> = Vec::new();
    for c in it: s.chars()
        invariant
            v@ == it.seq().take(it.index() as int),
            it.seq() == s@,
    {
        v.push(c);
    }
    v
}

/// Whether `a` and `b` hold the same characters.
pub fn same_text(a: &str, b: &str) -> (r: bool)
    ensures
        r == (a@ == b@),
{
    a.to_owned() == b.to_owned()
}

/// Reads the digits of `v` from `from` on.
fn digits_from(v: &Vec<char>, from: usize, max: u64) -> (r: Result<u64, NumberError>)
    requires
        from <= v@.len(),
    ensures
        same_number(r, digits_read(v@.skip(from as int), max as nat)),
{
    let ghost digits = v@.skip(from as int);
    let mut value: u64 = 0;
    let mut i: usize = from;
    while i < v.len()
        invariant
            from <= i <= v@.len(),
            digits == v@.skip(from as int),
            digits_read(digits.take(i - from), max as nat) == Ok::<nat, NumberError>(value as nat),
        decreases v@.len() - i,
    {
        let c = v[i];
        proof {
            let seen = digits.take(i - from + 1);
            assert(seen.drop_last() =~= digits.take(i - from));
            assert(seen.last() == c);
        }
        if !('0' <= c && c <= '9') {
            proof {
                lemma_first_error_stays(digits, i - from + 1, max as nat);
            }
            return Err(NumberError::InvalidDigit);
        }
        let d: u64 = (c as u32 - 48) as u64;
        if value > (u64::MAX - d) / 10 || value * 10 + d > max {
            proof {
                lemma_first_error_stays(digits, i - from + 1, max as nat);
            }
            return Err(NumberError::TooLarge);
        }
        value = value * 10 + d;
        i = i + 1;
    }
    assert(digits.take(i - from) =~= digits);
    Ok(value)
}

/// The executable and the mathematical reading of a number agree.
pub open spec fn same_number(r: Result<u64, NumberError>, n: Result<nat, NumberError>) -> bool {
    match (r, n) {
        (Ok(a), Ok(b)) => a == b,
        (Err(e), Err(f)) => e == f,
        _ => false,
    }
}

/// What is wrong with a beginning is wrong with the whole.
proof fn lemma_first_error_stays(s: Seq<char>, k: int, max: nat)
    requires
        0 <= k <= s.len(),
        digits_read(s.take(k), max) is Err,
    ensures
        digits_read(s, max) == digits_read(s.take(k), max),
    decreases s.len() - k,
{
    if k == s.len() {
        assert(s.take(k) =~= s);
    } else {
        assert(s.take(k + 1).drop_last() =~= s.take(k));
        lemma_first_error_stays(s, k + 1, max);
    }
}

/// Reads an unsigned decimal number of at most `max`.
pub fn parse_number(s: &str, max: u64) -> (r: Result<u64, NumberError>)
    ensures
        same_number(r, number_in(s@, max as nat)),
{
    let v = chars_of(s);
    if v.len() == 0 {
        Err(NumberError::Empty)
    } else if v.len() > 1 && v[0] == '+' {
        digits_from(&v, 1, max)
    } else {
        assert(v@.skip(0) =~= v@);
        digits_from(&v, 0, max)
    }
}

/// Whether `a` and `b` are equal up to the case of ASCII letters.
pub fn eq_ignore_case(a: &str, b: &str) -> (r: bool)
    ensures
        r == same_ignoring_case(a@, b@),
{
    let va = chars_of(a);
    let vb = chars_of(b);
    if va.len() != vb.len() {
        assert(ascii_lower(va@).len() != ascii_lower(vb@).len());
        return false;
    }
    let mut i: usize = 0;
    while i < va.len()
        invariant
            i <= va@.len(),
            va@.len() == vb@.len(),
            va@ == a@,
            vb@ == b@,
            forall|j: int|
                0 <= j < i ==> ascii_lower_char(#[trigger] va@[j]) == ascii_lower_char(vb@[j]),
        decreases va@.len() - i,
    {
        if lower_code(va[i]) != lower_code(vb[i]) {
            proof {
                assert(ascii_lower_char(va@[i as int]) != ascii_lower_char(vb@[i as int]));
                assert(ascii_lower(va@)[i as int] == ascii_lower_char(va@[i as int]));
                assert(ascii_lower(vb@)[i as int] == ascii_lower_char(vb@[i as int]));
            }
            return false;
        }
        i = i + 1;
    }
    assert(ascii_lower(va@) =~= ascii_lower(vb@));
    true
}

/// The code of `c` in lower case.
fn lower_code(c: char) -> (r: u32)
    ensures
        r == ascii_lower_char(c) as u32,
{
    if 'A' <= c && c <= 'Z' {
        c as u32 + 32
    } else {
        c as u32
    }
}

/// Reading back a numeral gives the number it was made from.
pub proof fn numeral_reads_back(n: nat, max: nat)
    requires
        n <= max,
    ensures
        number_in(decimal(n), max) == Ok::<nat, NumberError>(n),
{
    lemma_numeral_digits(n, max);
}

/// A numeral starts with a digit, and its digits denote its number.
proof fn lemma_numeral_digits(n: nat, max: nat)
    requires
        n <= max,
    ensures
        decimal(n).len() > 0,
        digit_value(decimal(n)[0]) is Some,
        digits_read(decimal(n), max) == Ok::<nat, NumberError>(n),
    decreases n,
{
    lemma_digit_char((n % 10) as int);
    if n < 10 {
        assert(decimal(n).drop_last() =~= Seq::<char>::empty());
        assert(digits_read(decimal(n).drop_last(), max) == Ok::<nat, NumberError>(0));
    } else {
        lemma_numeral_digits(n / 10, max);
        assert(decimal(n).drop_last() =~= decimal(n / 10));
        assert(decimal(n).last() == digit_char((n % 10) as int));
        assert(decimal(n)[0] == decimal(n / 10)[0]);
    }
}

proof fn lemma_digit_char(d: int)
    requires
        0 <= d < 10,
    ensures
        digit_value(digit_char(d)) == Some(d as nat),
{
    let table = seq!['0', '1', '2', '3', '4', '5', '6', '7', '8', '9'];
    assert(d == 0 || d == 1 || d == 2 || d == 3 || d == 4 || d == 5 || d == 6 || d == 7 || d == 8
        || d == 9);
}

/// Digits are read from the left: one more digit makes ten times as much and that
/// digit more, as far as that is allowed, and nothing but digits is read.
pub proof fn digits_are_read_in_tens(s: Seq<char>, c: char, max: nat)
    requires
        s.len() > 0,
        s[0] != '+',
        number_in(s, max) is Ok,
    ensures
        ({
            let n = number_in(s, max)->Ok_0;
            let more = number_in(s.push(c), max);
            &&& n <= max
            &&& !('0' <= c <= '9') ==> more == Err::<nat, NumberError>(NumberError::InvalidDigit)
            &&& '0' <= c <= '9' && 10 * n + (c as u32 - '0' as u32) <= max ==> more == Ok::<
                nat,
                NumberError,
            >((10 * n + (c as u32 - '0' as u32)) as nat)
            &&& '0' <= c <= '9' && 10 * n + (c as u32 - '0' as u32) > max ==> more == Err::<
                nat,
                NumberError,
            >(NumberError::TooLarge)
        }),
{
    assert(s.push(c).drop_last() =~= s);
}

/// A number has at least one digit, and a plus sign before it changes nothing; a
/// plus sign alone is no number.
pub proof fn plus_sign_changes_nothing(s: Seq<char>, max: nat)
    ensures
        number_in(Seq::empty(), max) == Err::<nat, NumberError>(NumberError::Empty),
        s.len() > 0 && s[0] != '+' ==> number_in(seq!['+'] + s, max) == number_in(s, max),
        number_in(seq!['+'], max) is Err,
{
    if s.len() > 0 && s[0] != '+' {
        assert((seq!['+'] + s).skip(1) =~= s);
    }
    assert(seq!['+'].drop_last() =~= Seq::<char>::empty());
    assert(digits_read(seq!['+'].drop_last(), max) == Ok::<nat, NumberError>(0));
}

/// Only the case of ASCII letters is ignored: texts that differ otherwise, or in
/// length, are different.
pub proof fn only_case_is_ignored(a: Seq<char>, b: Seq<char>, i: int)
    requires
        same_ignoring_case(a, b),
        0 <= i < a.len(),
    ensures
        a.len() == b.len(),
        a[i] == b[i] || a[i] as u32 == b[i] as u32 + 32 || b[i] as u32 == a[i] as u32 + 32,
        !('A' <= a[i] <= 'Z') && !('A' <= b[i] <= 'Z') ==> a[i] == b[i],
{
    assert(ascii_lower(a).len() == ascii_lower(b).len());
    assert(ascii_lower(a)[i] == ascii_lower_char(a[i]));
    assert(ascii_lower(b)[i] == ascii_lower_char(b[i]));
}

/// A line tells a number under a name: the name stands in it with the numeral of
/// the number behind it, and then comes a space or the end.
pub open spec fn tells(line: Seq<char>, name: Seq<char>, value: nat) -> bool {
    exists|before: Seq<char>, after: Seq<char>|
        {
            &&& line == #[trigger] (before + name + decimal(value) + after)
            &&& after.len() == 0 || after[0] == ' '
        }
}

/// Joining is the same from either side.
pub proof fn lemma_join(x: Seq<char>, y: Seq<char>, z: Seq<char>)
    ensures
        x + y + z == x + (y + z),
{
    assert(x + y + z =~= x + (y + z));
}

/// Joining is the same from either side.
pub proof fn lemma_regroup(x: Seq<char>, name: Seq<char>, value: Seq<char>, rest: Seq<char>)
    ensures
        x + name + value + rest == x + (name + value + rest),
{
    assert(x + name + value + rest =~= x + (name + value + rest));
}

/// What stands in a line is told by it.
pub proof fn lemma_tells(
    line: Seq<char>,
    before: Seq<char>,
    name: Seq<char>,
    value: nat,
    after: Seq<char>,
)
    requires
        line == before + name + decimal(value) + after,
        after.len() == 0 || after[0] == ' ',
    ensures
        tells(line, name, value),
{
}

/// A number that was written behind a text is read back from what was added, and the
/// text stays.
pub proof fn written_numbers_are_read_back(
    out: &mut String,
    n: u64,
    s: &str,
    max: u64,
    r: Result<u64, NumberError>,
)
    requires
        call_ensures(push_decimal, (out, n), ()),
        s@ == final(out)@.skip(old(out)@.len() as int),
        call_ensures(parse_number, (s, max), r),
        n <= max,
    ensures
        final(out)@.take(old(out)@.len() as int) == old(out)@,
        r == Ok::<u64, NumberError>(n),
{
    assert(s@ =~= decimal(n as nat));
    assert(final(out)@.take(old(out)@.len() as int) =~= old(out)@);
    numeral_reads_back(n as nat, max as nat);
}

/// Texts are the same if all their characters are, and the same up to case if they
/// differ in the case of ASCII letters at most.
pub proof fn texts_are_compared_by_character(a: &str, b: &str, same: bool, alike: bool, i: int)
    requires
        call_ensures(same_text, (a, b), same),
        call_ensures(eq_ignore_case, (a, b), alike),
        0 <= i < a@.len(),
    ensures
        same <==> a@ == b@,
        same ==> alike,
        alike ==> a@.len() == b@.len(),
        alike && a@[i] != b@[i] ==> (a@[i] as u32 == b@[i] as u32 + 32 || b@[i] as u32
            == a@[i] as u32 + 32),
{
    if alike {
        only_case_is_ignored(a@, b@, i);
    }
}

/// A text that is read as a number is made of digits, behind one plus sign at most, and
/// the number is no larger than allowed; only a text without characters is empty.
pub proof fn only_digits_are_numbers(s: &str, max: u64, r: Result<u64, NumberError>, i: int)
    requires
        call_ensures(parse_number, (s, max), r),
        0 <= i < s@.len(),
    ensures
        r is Ok ==> '0' <= s@[i] <= '9' || (i == 0 && s@[0] == '+' && s@.len() > 1),
        r matches Ok(n) ==> n <= max,
        r != Err::<u64, NumberError>(NumberError::Empty),
        (forall|j: int| 0 <= j < s@.len() ==> '0' <= #[trigger] s@[j] <= '9') ==> r != Err::<
            u64,
            NumberError,
        >(NumberError::InvalidDigit),
{
    let digits = without_plus(s@);
    lemma_digits_only(digits, max as nat);
    if s@.len() > 1 && s@[0] == '+' {
        if i > 0 {
            assert(digits[i - 1] == s@[i]);
        }
    } else {
        assert(digits[i] == s@[i]);
    }
}

/// No text without characters is a number.
pub proof fn nothing_is_no_number(s: &str, max: u64, r: Result<u64, NumberError>)
    requires
        call_ensures(parse_number, (s, max), r),
        s@.len() == 0,
    ensures
        r == Err::<u64, NumberError>(NumberError::Empty),
{
}

proof fn lemma_digits_only(s: Seq<char>, max: nat)
    ensures
        digits_read(s, max) is Ok ==> forall|i: int|
            0 <= i < s.len() ==> '0' <= #[trigger] s[i] <= '9',
        digits_read(s, max) matches Ok(n) ==> s.len() > 0 ==> n <= max,
        digits_read(s, max) != Err::<nat, NumberError>(NumberError::Empty),
        (forall|i: int| 0 <= i < s.len() ==> '0' <= #[trigger] s[i] <= '9') ==> digits_read(s, max)
            != Err::<nat, NumberError>(NumberError::InvalidDigit),
    decreases s.len(),
{
    if s.len() > 0 {
        let fewer = s.drop_last();
        lemma_digits_only(fewer, max);
        if digits_read(s, max) is Ok {
            assert forall|i: int| 0 <= i < s.len() implies '0' <= #[trigger] s[i] <= '9' by {
                if i < fewer.len() {
                    assert(fewer[i] == s[i]);
                }
            }
        }
        if forall|i: int| 0 <= i < s.len() ==> '0' <= #[trigger] s[i] <= '9' {
            assert forall|i: int| 0 <= i < fewer.len() implies '0' <= #[trigger] fewer[i]
                <= '9' by {
                assert(fewer[i] == s[i]);
            }
            assert('0' <= s[s.len() - 1] <= '9');
        }
    }
}

/// One digit is its own number, and numerals are digits without a zero before them.
pub proof fn numerals_have_no_leading_zero(c: char, max: nat, n: nat)
    requires
        max >= 9,
        '0' <= c <= '9',
    ensures
        number_in(seq![c], max) == Ok::<nat, NumberError>((c as u32 - '0' as u32) as nat),
        decimal(n).len() > 0,
        n > 0 ==> '1' <= decimal(n)[0] <= '9',
        n < 10 ==> decimal(n).len() == 1 && decimal(n)[0] as u32 == '0' as u32 + n,
        n >= 10 ==> decimal(n).drop_last() == decimal(n / 10),
{
    assert(seq![c].drop_last() =~= Seq::<char>::empty());
    assert(digits_read(seq![c].drop_last(), max) == Ok::<nat, NumberError>(0));
    lemma_first_digit(n);
    if n < 10 {
        lemma_digit_char(n as int);
    } else {
        assert(decimal(n).drop_last() =~= decimal(n / 10));
    }
}

proof fn lemma_first_digit(n: nat)
    ensures
        decimal(n).len() > 0,
        n > 0 ==> '1' <= decimal(n)[0] <= '9',
    decreases n,
{
    if n >= 10 {
        lemma_first_digit(n / 10);
    } else {
        lemma_digit_char(n as int);
        assert(n == 0 || n == 1 || n == 2 || n == 3 || n == 4 || n == 5 || n == 6 || n == 7 || n
            == 8 || n == 9);
    }
}

} // verus!
