//! Reading numbers: signed decimal integers, and the syntax of numbers with
//! a fractional part.

use vstd::prelude::*;
use crate::text::to_chars;

verus! {

/// Whether `c` is one of the ten ASCII digits.
pub open spec fn is_digit(c: char) -> bool {
    '0' <= c <= '9'
}

/// The number that the digit `c` stands for.
pub open spec fn digit_value(c: char) -> int {
    c as int - '0' as int
}

/// Whether every character of `s` is a digit.
pub open spec fn all_digits(s: Seq<char>) -> bool {
    forall|i: int| 0 <= i < s.len() ==> is_digit(#[trigger] s[i])
}

/// The number that the decimal numeral `s` stands for; leading zeros count
/// for nothing, and the empty numeral stands for zero.
pub open spec fn digits_value(s: Seq<char>) -> int
    decreases s.len(),
{
    if s.len() == 0 {
        0
    } else {
        10 * digits_value(s.drop_last()) + digit_value(s.last())
    }
}

/// The part of `s` behind its sign, if it has one.
pub open spec fn unsigned_part(s: Seq<char>) -> Seq<char> {
    if s.len() > 0 && (s[0] == '-' || s[0] == '+') {
        s.subrange(1, s.len() as int)
    } else {
        s
    }
}

/// The signed 64-bit integer that `s` denotes: an optional `+` or `-`, then
/// one digit or more and nothing else, with a value that fits in 64 bits.
/// `None` for every other text.
pub open spec fn integer_of(s: Seq<char>) -> Option<int> {
    let digits = unsigned_part(s);
    let value = if s.len() > 0 && s[0] == '-' {
        -digits_value(digits)
    } else {
        digits_value(digits)
    };
    if digits.len() > 0 && all_digits(digits) && i64::MIN <= value <= i64::MAX {
        Some(value)
    } else {
        None
    }
}

/// A numeral's value is never negative, and never less than that of one of
/// its prefixes.
pub proof fn lemma_digits_value_prefix(s: Seq<char>, k: int)
    requires
        all_digits(s),
        0 <= k <= s.len(),
    ensures
        0 <= digits_value(s.take(k)) <= digits_value(s),
    decreases s.len(),
{
    if s.len() > 0 {
        if k == s.len() {
            assert(s.take(k) == s);
            lemma_digits_value_prefix(s.drop_last(), k - 1);
        } else {
            lemma_digits_value_prefix(s.drop_last(), k);
            assert(s.drop_last().take(k) == s.take(k));
        }
    }
}

fn digit_number(c: char) -> (d: u64)
    requires
        is_digit(c),
    ensures
        d == digit_value(c),
        d <= 9,
{
    (c as u64) - ('0' as u64)
}

/// Reads a signed 64-bit integer written in decimal.
pub fn parse_i64(s: &str) -> (r: Option<i64>)
    ensures
        match r {
            Some(n) => integer_of(s@) == Some(n as int),
            None => integer_of(s@) is None,
        },
{
    let chars = to_chars(s);
    let n = chars.len();
    if n == 0 {
        return None;
    }
    let negative = chars[0] == '-';
    let start: usize = if chars[0] == '-' || chars[0] == '+' {
        1
    } else {
        0
    };
    if start == n {
        return None;
    }
    let ghost digits = unsigned_part(s@);
    let limit: u64 = if negative {
        9223372036854775808
    } else {
        9223372036854775807
    };
    let mut acc: u64 = 0;
    let mut i: usize = start;
    while i < n
        invariant
            start <= i <= n,
            n == chars.len(),
            digits == chars@.subrange(start as int, n as int),
            digits == unsigned_part(s@),
            negative == (s@.len() > 0 && s@[0] == '-'),
            negative ==> limit == 9223372036854775808,
            !negative ==> limit == 9223372036854775807,
            all_digits(digits.take(i - start)),
            acc == digits_value(digits.take(i - start)),
            acc <= limit,
        decreases n - i,
    {
        let c = chars[i];
        if !(c >= '0' && c <= '9') {
            assert(!is_digit(digits[i - start]));
            return None;
        }
        let d = digit_number(c);
        let ghost next = digits.take(i - start + 1);
        proof {
            assert(next.drop_last() == digits.take(i - start));
            assert(all_digits(next));
        }
        if acc > (limit - d) / 10 {
            proof {
                if all_digits(digits) {
                    lemma_digits_value_prefix(digits, i - start + 1);
                }
            }
            return None;
        }
        acc = acc * 10 + d;
        i += 1;
    }
    assert(digits.take(i - start) == digits);
    if negative {
        if acc == 9223372036854775808 {
            Some(i64::MIN)
        } else {
            Some(0 - (acc as i64))
        }
    } else {
        Some(acc as i64)
    }
}

/// Where the run of digits that starts at `from` ends: the index of the first
/// character at or after `from` that is no digit, or the length of `s`.
pub open spec fn digits_end(s: Seq<char>, from: int) -> int
    decreases s.len() - from,
{
    if 0 <= from < s.len() && is_digit(s[from]) {
        digits_end(s, from + 1)
    } else {
        from
    }
}

/// Whether `c` is the letter `letter`, which is given in lower case, in
/// either case.
pub open spec fn is_letter(c: char, letter: char) -> bool {
    c == letter || c as int == letter as int - 32
}

/// Whether `s` from `from` on spells `word`, which is given in lower case,
/// in any mix of cases.
pub open spec fn spells(s: Seq<char>, from: int, word: Seq<char>) -> bool {
    &&& s.len() - from == word.len()
    &&& forall|k: int| 0 <= k < word.len() ==> is_letter(#[trigger] s[from + k], word[k])
}

/// Whether `s` from `from` on is one of the three words for values that are
/// no finite number.
pub open spec fn is_special_float(s: Seq<char>, from: int) -> bool {
    ||| spells(s, from, seq!['i', 'n', 'f'])
    ||| spells(s, from, seq!['n', 'a', 'n'])
    ||| spells(s, from, seq!['i', 'n', 'f', 'i', 'n', 'i', 't', 'y'])
}

/// Whether `s` from `at` on is an exponent: `e` or `E`, an optional sign,
/// then one digit or more up to the end.
pub open spec fn is_exponent(s: Seq<char>, at: int) -> bool {
    &&& 0 <= at < s.len()
    &&& (s[at] == 'e' || s[at] == 'E')
    &&& {
        let first = if at + 1 < s.len() && (s[at + 1] == '+' || s[at + 1] == '-') {
            at + 2
        } else {
            at + 1
        };
        first < s.len() && digits_end(s, first) == s.len()
    }
}

/// Whether `s` from `from` on is a decimal number: digits, optionally a point
/// and more digits, with a digit on at least one side of the point, and
/// optionally an exponent.
pub open spec fn is_decimal_float(s: Seq<char>, from: int) -> bool {
    let whole_end = digits_end(s, from);
    let has_point = whole_end < s.len() && s[whole_end] == '.';
    let fraction_end = if has_point {
        digits_end(s, whole_end + 1)
    } else {
        whole_end
    };
    let digit_count = if has_point {
        (whole_end - from) + (fraction_end - (whole_end + 1))
    } else {
        whole_end - from
    };
    digit_count > 0 && (fraction_end == s.len() || is_exponent(s, fraction_end))
}

/// Whether `s` is written as a floating-point number: an optional sign, then
/// a decimal number or one of the words `inf`, `infinity` and `nan`.
pub open spec fn is_float_text(s: Seq<char>) -> bool {
    let from: int = if s.len() > 0 && (s[0] == '+' || s[0] == '-') {
        1
    } else {
        0
    };
    is_special_float(s, from) || is_decimal_float(s, from)
}

fn scan_digits(chars: &Vec<char>, from: usize) -> (end: usize)
    requires
        from <= chars.len(),
    ensures
        from <= end <= chars.len(),
        end == digits_end(chars@, from as int),
{
    let mut i: usize = from;
    while i < chars.len() && chars[i] >= '0' && chars[i] <= '9'
        invariant
            from <= i <= chars.len(),
            digits_end(chars@, from as int) == digits_end(chars@, i as int),
        decreases chars.len() - i,
    {
        i += 1;
    }
    i
}

fn letter_matches(c: char, letter: char) -> (r: bool)
    requires
        'a' <= letter <= 'z',
    ensures
        r == is_letter(c, letter),
{
    c == letter || (c >= 'A' && c <= 'Z' && c as u32 + 32 == letter as u32)
}

fn spells_word(chars: &Vec<char>, from: usize, word: &[char]) -> (r: bool)
    requires
        from <= chars.len(),
        forall|k: int| 0 <= k < word@.len() ==> 'a' <= #[trigger] word@[k] <= 'z',
    ensures
        r == spells(chars@, from as int, word@),
{
    if chars.len() - from != word.len() {
        return false;
    }
    let mut k: usize = 0;
    while k < word.len()
        invariant
            k <= word.len(),
            from <= chars.len(),
            chars.len() - from == word.len(),
            forall|j: int| 0 <= j < word@.len() ==> 'a' <= #[trigger] word@[j] <= 'z',
            forall|j: int| 0 <= j < k ==> is_letter(#[trigger] chars@[from + j], word@[j]),
        decreases word.len() - k,
    {
        if !letter_matches(chars[from + k], word[k]) {
            return false;
        }
        k += 1;
    }
    true
}

fn exponent_at(chars: &Vec<char>, at: usize) -> (r: bool)
    requires
        at <= chars.len(),
    ensures
        r == is_exponent(chars@, at as int),
{
    let n = chars.len();
    if at >= n || !(chars[at] == 'e' || chars[at] == 'E') {
        return false;
    }
    let first: usize = if at + 1 < n && (chars[at + 1] == '+' || chars[at + 1] == '-') {
        at + 2
    } else {
        at + 1
    };
    first < n && scan_digits(chars, first) == n
}

/// Decides whether `s` is written as a floating-point number.
pub fn is_float(s: &str) -> (r: bool)
    ensures
        r == is_float_text(s@),
{
    let chars = to_chars(s);
    let n = chars.len();
    let from: usize = if n > 0 && (chars[0] == '+' || chars[0] == '-') {
        1
    } else {
        0
    };
    let inf = ['i', 'n', 'f'];
    let nan = ['n', 'a', 'n'];
    let infinity = ['i', 'n', 'f', 'i', 'n', 'i', 't', 'y'];
    if spells_word(&chars, from, &inf) || spells_word(&chars, from, &nan) || spells_word(
        &chars,
        from,
        &infinity,
    ) {
        return true;
    }
    let whole_end = scan_digits(&chars, from);
    if whole_end < n && chars[whole_end] == '.' {
        let fraction_end = scan_digits(&chars, whole_end + 1);
        let digit_count = (whole_end - from) + (fraction_end - (whole_end + 1));
        digit_count > 0 && (fraction_end == n || exponent_at(&chars, fraction_end))
    } else {
        whole_end > from && (whole_end == n || exponent_at(&chars, whole_end))
    }
}

} // verus!
