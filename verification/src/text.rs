//! Text primitives: the characters of a string, comparison of strings, and
//! decimal numbers as they are written into and read from text.

use vstd::prelude::*;
use vstd::utf8::{encode_utf8, encode_utf8_decode_utf8};

verus! {

/// The decimal digit that stands for `d`, for `d` below ten.
pub open spec fn digit_char(d: nat) -> char {
    if d == 0 {
        '0'
    } else if d == 1 {
        '1'
    } else if d == 2 {
        '2'
    } else if d == 3 {
        '3'
    } else if d == 4 {
        '4'
    } else if d == 5 {
        '5'
    } else if d == 6 {
        '6'
    } else if d == 7 {
        '7'
    } else if d == 8 {
        '8'
    } else {
        '9'
    }
}

/// The value of a decimal digit; `None` for any other character.
pub open spec fn digit_of(c: char) -> Option<nat> {
    if c == '0' {
        Some(0)
    } else if c == '1' {
        Some(1)
    } else if c == '2' {
        Some(2)
    } else if c == '3' {
        Some(3)
    } else if c == '4' {
        Some(4)
    } else if c == '5' {
        Some(5)
    } else if c == '6' {
        Some(6)
    } else if c == '7' {
        Some(7)
    } else if c == '8' {
        Some(8)
    } else if c == '9' {
        Some(9)
    } else {
        None
    }
}

/// Every character of `s` is a decimal digit.
pub open spec fn all_digits(s: Seq<char>) -> bool {
    forall|i: int| 0 <= i < s.len() ==> (#[trigger] digit_of(s[i])) is Some
}

/// The number that a run of decimal digits writes, most significant digit
/// first; a character that is no digit counts as zero.
pub open spec fn digits_value(s: Seq<char>) -> nat
    decreases s.len(),
{
    if s.len() == 0 {
        0
    } else {
        digits_value(s.drop_last()) * 10 + match digit_of(s.last()) {
            Some(d) => d,
            None => 0,
        }
    }
}

/// The shortest decimal writing of `n`: no sign, no leading zero but for
/// zero itself.
pub open spec fn decimal(n: nat) -> Seq<char>
    decreases n,
{
    if n < 10 {
        seq![digit_char(n)]
    } else {
        decimal(n / 10).push(digit_char(n % 10))
    }
}

/// The decimal writing of an integer: a minus sign before the digits of a
/// negative one.
pub open spec fn signed_decimal(n: int) -> Seq<char> {
    if n < 0 {
        seq!['-'] + decimal((-n) as nat)
    } else {
        decimal(n as nat)
    }
}

/// What is left of `s` once one leading plus sign, if there is one, is taken
/// away.
pub open spec fn unsigned_part(s: Seq<char>) -> Seq<char> {
    if s.len() > 0 && s[0] == '+' {
        s.skip(1)
    } else {
        s
    }
}

/// `s` writes a count: an optional plus sign, then one or more decimal
/// digits and nothing else, with a value that a `usize` holds.
pub open spec fn is_count(s: Seq<char>) -> bool {
    let digits = unsigned_part(s);
    &&& digits.len() > 0
    &&& all_digits(digits)
    &&& digits_value(digits) <= usize::MAX
}

/// The count that `s` writes, and zero where it writes none.
pub open spec fn count_of(s: Seq<char>) -> nat {
    if is_count(s) {
        digits_value(unsigned_part(s))
    } else {
        0
    }
}

/// `s` starts with a minus sign.
pub open spec fn is_negative(s: Seq<char>) -> bool {
    s.len() > 0 && s[0] == '-'
}

/// What is left of `s` once one leading sign, plus or minus, if there is
/// one, is taken away.
pub open spec fn magnitude_part(s: Seq<char>) -> Seq<char> {
    if s.len() > 0 && (s[0] == '+' || s[0] == '-') {
        s.skip(1)
    } else {
        s
    }
}

/// The number that `s` writes where it is a sign and digits: the value of
/// what follows the sign, negated behind a minus sign.
pub open spec fn signed_value(s: Seq<char>) -> int {
    if is_negative(s) {
        -(digits_value(magnitude_part(s)) as int)
    } else {
        digits_value(magnitude_part(s)) as int
    }
}

/// `s` writes a signed number: an optional plus or minus sign, then one or
/// more decimal digits and nothing else, with a value that an `isize`
/// holds.
pub open spec fn is_signed(s: Seq<char>) -> bool {
    let digits = magnitude_part(s);
    &&& digits.len() > 0
    &&& all_digits(digits)
    &&& isize::MIN <= signed_value(s) <= isize::MAX
}

/// The signed number that `s` writes, and zero where it writes none.
pub open spec fn signed_of(s: Seq<char>) -> int {
    if is_signed(s) {
        signed_value(s)
    } else {
        0
    }
}

/// A run of digits is worth at least as much as any of its prefixes.
pub proof fn lemma_digits_value_prefix(s: Seq<char>, k: int)
    requires
        0 <= k <= s.len(),
    ensures
        digits_value(s.take(k)) <= digits_value(s),
    decreases s.len(),
{
    if k == s.len() {
        assert(s.take(k) == s);
    } else {
        lemma_digits_value_prefix(s.drop_last(), k);
        assert(s.drop_last().take(k) == s.take(k));
    }
}

/// The decimal writing of a number consists of digits, is not empty, and is
/// worth that number.
pub proof fn lemma_decimal_value(n: nat)
    ensures
        decimal(n).len() > 0,
        all_digits(decimal(n)),
        digits_value(decimal(n)) == n,
    decreases n,
{
    if n < 10 {
        let s = decimal(n);
        assert(digits_value(s.drop_last()) == 0);
    } else {
        lemma_decimal_value(n / 10);
        let s = decimal(n);
        assert(s.drop_last() == decimal(n / 10));
        assert forall|i: int| 0 <= i < s.len() implies (#[trigger] digit_of(s[i])) is Some by {}
    }
}

/// Reading back the decimal writing of a count gives the count.
pub proof fn lemma_count_of_decimal(n: usize)
    ensures
        is_count(decimal(n as nat)),
        count_of(decimal(n as nat)) == n,
{
    lemma_decimal_value(n as nat);
    let s = decimal(n as nat);
    assert(digit_of(s[0]) is Some);
}

/// Reading back the decimal writing of a signed number gives the number.
pub proof fn lemma_signed_of_decimal(n: isize)
    ensures
        is_signed(signed_decimal(n as int)),
        signed_of(signed_decimal(n as int)) == n,
{
    let s = signed_decimal(n as int);
    if n < 0 {
        let digits = decimal((-n) as nat);
        lemma_decimal_value((-n) as nat);
        assert(s[0] == '-');
        assert(s.skip(1) =~= digits);
    } else {
        lemma_decimal_value(n as nat);
        assert(digit_of(s[0]) is Some);
    }
}

/// The characters of `text`, in order.
pub fn chars_of(text: &str) -> (chars: Vec<char>)
    ensures
        chars@ == text@,
{
    let mut chars: Vec<char> = Vec::new();
    for c in it: text.chars()
        invariant
            it.seq() == text@,
            chars@ == text@.take(it.index() as int),
    {
        chars.push(c);
    }
    chars
}

/// Whether two strings hold the same characters.
pub fn same_text(a: &str, b: &str) -> (same: bool)
    ensures
        same == (a@ == b@),
{
    let left = a.as_bytes();
    let right = b.as_bytes();
    proof {
        encode_utf8_decode_utf8(a@);
        encode_utf8_decode_utf8(b@);
    }
    if left.len() != right.len() {
        return false;
    }
    let mut i: usize = 0;
    while i < left.len()
        invariant
            i <= left.len(),
            left.len() == right.len(),
            left@ == encode_utf8(a@),
            right@ == encode_utf8(b@),
            forall|j: int| 0 <= j < i ==> left@[j] == right@[j],
        decreases left.len() - i,
    {
        if left[i] != right[i] {
            return false;
        }
        i += 1;
    }
    assert(left@ =~= right@);
    true
}

/// The value of `c` where it is a decimal digit.
pub fn digit_value(c: char) -> (d: Option<u8>)
    ensures
        match d {
            Some(v) => digit_of(c) == Some(v as nat),
            None => digit_of(c) is None,
        },
{
    if c == '0' {
        Some(0)
    } else if c == '1' {
        Some(1)
    } else if c == '2' {
        Some(2)
    } else if c == '3' {
        Some(3)
    } else if c == '4' {
        Some(4)
    } else if c == '5' {
        Some(5)
    } else if c == '6' {
        Some(6)
    } else if c == '7' {
        Some(7)
    } else if c == '8' {
        Some(8)
    } else if c == '9' {
        Some(9)
    } else {
        None
    }
}

/// The value of the digits of `chars` from `start` on; `None` where there
/// is no digit, something else than digits, or more than a `usize` holds.
fn read_digits(chars: &Vec<char>, start: usize) -> (value: Option<usize>)
    requires
        start <= chars.len(),
    ensures
        match value {
            Some(v) => {
                &&& chars@.skip(start as int).len() > 0
                &&& all_digits(chars@.skip(start as int))
                &&& v == digits_value(chars@.skip(start as int))
            },
            None => {
                ||| chars@.skip(start as int).len() == 0
                ||| !all_digits(chars@.skip(start as int))
                ||| digits_value(chars@.skip(start as int)) > usize::MAX
            },
        },
{
    let ghost digits = chars@.skip(start as int);
    if start == chars.len() {
        return None;
    }
    let mut value: usize = 0;
    let mut i: usize = start;
    while i < chars.len()
        invariant
            start <= i <= chars.len(),
            digits == chars@.skip(start as int),
            digits.len() > 0,
            all_digits(digits.take(i - start)),
            value == digits_value(digits.take(i - start)),
        decreases chars.len() - i,
    {
        let ghost seen = digits.take(i - start);
        let ghost next = digits.take(i - start + 1);
        assert(next.drop_last() == seen);
        let digit = match digit_value(chars[i]) {
            Some(d) => d,
            None => {
                assert(digit_of(digits[i - start]) is None);
                return None;
            },
        };
        assert forall|j: int| 0 <= j < next.len() implies (#[trigger] digit_of(next[j])) is Some by {}
        let grown = match value.checked_mul(10) {
            Some(tens) => tens.checked_add(digit as usize),
            None => None,
        };
        match grown {
            Some(v) => {
                value = v;
            },
            None => {
                proof {
                    if all_digits(digits) {
                        lemma_digits_value_prefix(digits, i - start + 1);
                    }
                }
                return None;
            },
        }
        i += 1;
    }
    assert(digits.take(i - start) == digits);
    Some(value)
}

/// Reads a count from `text`: the number it writes in decimal, and zero
/// where it writes none or one too large to hold.
pub fn parse_count(text: &str) -> (n: usize)
    ensures
        n == count_of(text@),
{
    let chars = chars_of(text);
    let start: usize = if chars.len() > 0 && chars[0] == '+' {
        1
    } else {
        0
    };
    assert(unsigned_part(text@) =~= chars@.skip(start as int));
    match read_digits(&chars, start) {
        Some(value) => value,
        None => 0,
    }
}

/// Reads a signed number from `text`: the number it writes in decimal
/// behind an optional sign, and zero where it writes none or one that an
/// `isize` does not hold.
pub fn parse_signed(text: &str) -> (n: isize)
    ensures
        n == signed_of(text@),
{
    let chars = chars_of(text);
    let negative = chars.len() > 0 && chars[0] == '-';
    let start: usize = if chars.len() > 0 && (chars[0] == '+' || chars[0] == '-') {
        1
    } else {
        0
    };
    assert(magnitude_part(text@) =~= chars@.skip(start as int));
    let magnitude = match read_digits(&chars, start) {
        Some(value) => value,
        None => {
            return 0;
        },
    };
    let most: usize = isize::MAX as usize;
    if negative {
        if magnitude <= most {
            -(magnitude as isize)
        } else if magnitude == most + 1 {
            isize::MIN
        } else {
            0
        }
    } else if magnitude <= most {
        magnitude as isize
    } else {
        0
    }
}

/// The text of one decimal digit.
fn digit_text(d: usize) -> (text: &'static str)
    requires
        d < 10,
    ensures
        text@ == seq![digit_char(d as nat)],
{
    proof {
        reveal_strlit("0");
        reveal_strlit("1");
        reveal_strlit("2");
        reveal_strlit("3");
        reveal_strlit("4");
        reveal_strlit("5");
        reveal_strlit("6");
        reveal_strlit("7");
        reveal_strlit("8");
        reveal_strlit("9");
    }
    let text = if d == 0 {
        "0"
    } else if d == 1 {
        "1"
    } else if d == 2 {
        "2"
    } else if d == 3 {
        "3"
    } else if d == 4 {
        "4"
    } else if d == 5 {
        "5"
    } else if d == 6 {
        "6"
    } else if d == 7 {
        "7"
    } else if d == 8 {
        "8"
    } else {
        "9"
    };
    text
}

/// Appends the decimal writing of `n` to `out`.
pub fn push_decimal(out: &mut String, n: usize)
    ensures
        final(out)@ == old(out)@ + decimal(n as nat),
    decreases n,
{
    if n >= 10 {
        push_decimal(out, n / 10);
    }
    out.append(digit_text(n % 10));
    assert(final(out)@ =~= old(out)@ + decimal(n as nat));
}

/// Appends the decimal writing of a signed number to `out`.
pub fn push_signed_decimal(out: &mut String, n: isize)
    ensures
        final(out)@ == old(out)@ + signed_decimal(n as int),
{
    if n < 0 {
        proof {
            reveal_strlit("-");
        }
        out.append("-");
        let magnitude: usize = (-(n as i128)) as usize;
        push_decimal(out, magnitude);
    } else {
        push_decimal(out, n as usize);
    }
}

} // verus!
