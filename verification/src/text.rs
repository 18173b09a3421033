//! Small verified tools on strings and characters that the rest of the
//! library builds on.

use vstd::prelude::*;
use vstd::std_specs::iter::IteratorSpec;

verus! {

broadcast use vstd::string::group_string_axioms;

/// `String::push` appends one character to the end of the string and leaves
/// the characters before it as they were.
pub assume_specification[ String::push ](s: &mut String, c: char)
    ensures
        final(s)@ == old(s)@.push(c),
;

/// The characters of `s`, in order.
pub fn to_chars(s: &str) -> (v: Vec<char>)
    ensures
        v@ == s@,
{
    let mut v: Vec<char> = Vec::new();
    for c in it: s.chars()
        invariant
            it.seq() == s@,
            v@ == s@.take(it.index()),
    {
        v.push(c);
    }
    v
}

/// Decides whether two texts hold the same characters.
pub fn same_text(a: &str, b: &str) -> (r: bool)
    ensures
        r == (a@ == b@),
{
    let mut left = a.chars();
    let mut right = b.chars();
    let ghost mut k: int = 0;
    loop
        invariant
            0 <= k <= a@.len(),
            k <= b@.len(),
            left.obeys_prophetic_iter_laws(),
            right.obeys_prophetic_iter_laws(),
            left.remaining() == a@.skip(k),
            right.remaining() == b@.skip(k),
            a@.take(k) == b@.take(k),
        decreases a@.len() - k,
    {
        let x = left.next();
        let y = right.next();
        match (x, y) {
            (None, None) => {
                assert(a@.take(k) == a@);
                assert(b@.take(k) == b@);
                return true;
            },
            (Some(p), Some(q)) => {
                if p != q {
                    return false;
                }
                proof {
                    k = k + 1;
                }
            },
            _ => {
                return false;
            },
        }
    }
}

/// The decimal digit that stands for `d`, for `d` below ten.
pub open spec fn digit_char(d: nat) -> char {
    ('0' as nat + d) as char
}

/// The decimal numeral of `n`, without sign and without leading zeros.
pub open spec fn decimal_digits(n: nat) -> Seq<char>
    decreases n,
{
    if n < 10 {
        seq![digit_char(n)]
    } else {
        decimal_digits(n / 10).push(digit_char(n % 10))
    }
}

fn digit_of(d: usize) -> (c: char)
    requires
        d < 10,
    ensures
        c == digit_char(d as nat),
{
    ('0' as u8 + d as u8) as char
}

fn push_decimal(out: &mut String, n: usize)
    ensures
        final(out)@ == old(out)@ + decimal_digits(n as nat),
    decreases n,
{
    if n >= 10 {
        push_decimal(out, n / 10);
    }
    out.push(digit_of(n % 10));
}

/// Writes `n` in decimal.
pub fn decimal_string(n: usize) -> (s: String)
    ensures
        s@ == decimal_digits(n as nat),
{
    let mut s = String::new();
    push_decimal(&mut s, n);
    s
}

/// What one character of a field name becomes in the field's identifier:
/// `.` and `[` become two underscores, `]` disappears, any other character
/// stays.
pub open spec fn flatten_char(c: char) -> Seq<char> {
    if c == '.' || c == '[' {
        seq!['_', '_']
    } else if c == ']' {
        Seq::empty()
    } else {
        seq![c]
    }
}

/// The identifier of a field named `name`: each character flattened, in order.
/// `user.name` gives `user__name`, and `item[0]` gives `item__0`.
pub open spec fn flatten_name(name: Seq<char>) -> Seq<char>
    decreases name.len(),
{
    if name.len() == 0 {
        Seq::empty()
    } else {
        flatten_name(name.drop_last()) + flatten_char(name.last())
    }
}

/// Flattening distributes over appending one character.
pub proof fn lemma_flatten_push(name: Seq<char>, c: char)
    ensures
        flatten_name(name.push(c)) == flatten_name(name) + flatten_char(c),
{
    assert(name.push(c).drop_last() == name);
}

/// Whether `name` holds none of `.`, `[` and `]`.
pub open spec fn is_flat(name: Seq<char>) -> bool {
    forall|i: int| 0 <= i < name.len() ==> name[i] != '.' && name[i] != '[' && name[i] != ']'
}

/// A flattened name holds none of `.`, `[` and `]`.
pub proof fn lemma_flatten_is_flat(name: Seq<char>)
    ensures
        is_flat(flatten_name(name)),
    decreases name.len(),
{
    if name.len() > 0 {
        lemma_flatten_is_flat(name.drop_last());
        let head = flatten_name(name.drop_last());
        let tail = flatten_char(name.last());
        assert forall|i: int| 0 <= i < (head + tail).len() implies (head + tail)[i] != '.' && (head
            + tail)[i] != '[' && (head + tail)[i] != ']' by {}
    }
}

/// A name that holds none of `.`, `[` and `]` is its own identifier.
pub proof fn lemma_flatten_of_flat(name: Seq<char>)
    requires
        is_flat(name),
    ensures
        flatten_name(name) == name,
    decreases name.len(),
{
    if name.len() > 0 {
        lemma_flatten_of_flat(name.drop_last());
    }
}

/// Flattening twice is flattening once: an identifier can be looked up under
/// the name as written or under the identifier itself.
pub proof fn lemma_flatten_idempotent(name: Seq<char>)
    ensures
        flatten_name(flatten_name(name)) == flatten_name(name),
{
    lemma_flatten_is_flat(name);
    lemma_flatten_of_flat(flatten_name(name));
}

/// Computes the identifier of a field named `name`.
pub fn flatten(name: &str) -> (r: String)
    ensures
        r@ == flatten_name(name@),
{
    let chars = to_chars(name);
    let mut out = String::new();
    let mut i: usize = 0;
    while i < chars.len()
        invariant
            i <= chars.len(),
            chars@ == name@,
            out@ == flatten_name(chars@.take(i as int)),
        decreases chars.len() - i,
    {
        let c = chars[i];
        proof {
            lemma_flatten_push(chars@.take(i as int), c);
            assert(chars@.take(i as int).push(c) == chars@.take(i + 1));
        }
        if c == '.' || c == '[' {
            out.push('_');
            out.push('_');
        } else if c != ']' {
            out.push(c);
        }
        i += 1;
    }
    assert(chars@.take(i as int) == chars@);
    out
}

} // verus!
