//! Characters and text: what this crate trusts of std's `char` and `String`,
//! and the verified helpers that read numerals and build strings.

use vstd::prelude::*;
use vstd::string::StrSliceExecFns;

verus! {

/// White space: a space, the end of a line or a tabulator.
pub open spec fn is_space(c: char) -> bool {
    c == ' ' || c == '\n' || c == '\t'
}

/// A letter of the ASCII alphabet.
#[verifier::allow_in_spec]
pub fn is_letter(c: char) -> bool
    returns
        ('a' <= c && c <= 'z') || ('A' <= c && c <= 'Z'),
{
    ('a' <= c && c <= 'z') || ('A' <= c && c <= 'Z')
}

/// A decimal digit.
#[verifier::allow_in_spec]
pub fn is_digit(c: char) -> bool
    returns
        '0' <= c && c <= '9',
{
    '0' <= c && c <= '9'
}

/// A symbol that may continue an identifier.
#[verifier::allow_in_spec]
pub fn is_word(c: char) -> bool
    returns
        is_letter(c) || is_digit(c) || c == '_',
{
    is_letter(c) || is_digit(c) || c == '_'
}

/// A hexadecimal digit, in either case.
#[verifier::allow_in_spec]
pub fn is_hex(c: char) -> bool
    returns
        is_digit(c) || ('a' <= c && c <= 'f') || ('A' <= c && c <= 'F'),
{
    is_digit(c) || ('a' <= c && c <= 'f') || ('A' <= c && c <= 'F')
}

/// What the digit `c` is worth; 16 for a symbol that is no digit.
pub open spec fn digit_value(c: char) -> nat {
    if is_digit(c) {
        (c as nat - '0' as nat) as nat
    } else if 'a' <= c && c <= 'f' {
        (c as nat - 'a' as nat + 10) as nat
    } else if 'A' <= c && c <= 'F' {
        (c as nat - 'A' as nat + 10) as nat
    } else {
        16
    }
}

/// The value of the numeral `s` in the given radix.
pub open spec fn positional(s: Seq<char>, radix: nat) -> nat
    decreases s.len(),
{
    if s.len() == 0 {
        0
    } else {
        positional(s.drop_last(), radix) * radix + digit_value(s.last())
    }
}

/// A numeral in the given radix: one digit or more, and digits only.
pub open spec fn is_numeral(s: Seq<char>, radix: nat) -> bool {
    s.len() > 0 && forall|i: int| 0 <= i < s.len() ==> digit_value(#[trigger] s[i]) < radix
}

/// The numeral `s` as an integer no greater than `max`, if it is one.
pub open spec fn bounded_value(s: Seq<char>, radix: nat, max: nat) -> Option<nat> {
    if is_numeral(s, radix) && positional(s, radix) <= max {
        Some(positional(s, radix))
    } else {
        None
    }
}

/// The character with the code `v`, if `v` is a Unicode scalar value.
pub open spec fn scalar(v: nat) -> Option<char> {
    if v <= 0xD7FF || (0xE000 <= v && v <= 0x10FFFF) {
        Some(v as char)
    } else {
        None
    }
}

/// `==` on `char`, as std has it: two characters are equal when they are the
/// same scalar value.
pub assume_specification[ <char as PartialEq<char>>::eq ](x: &char, y: &char) -> (r: bool)
    ensures
        r == (*x == *y),
;

/// `char::from_u32` of std gives the character with the code `i`, and
/// `None` where `i` is a surrogate or lies beyond the last code point.
pub assume_specification[ core::char::from_u32 ](i: u32) -> (r: Option<char>)
    ensures
        r == scalar(i as nat),
;

/// `String::push` of std appends one character.
pub assume_specification[ std::string::String::push ](s: &mut std::string::String, c: char)
    ensures
        final(s)@ == old(s)@.push(c),
;

/// The characters of `s` as a vector.
pub(crate) fn chars_of(s: &str) -> (v: Vec<char>)
    ensures
        v@ == s@,
{
    let n = s.unicode_len();
    let mut v: Vec<char> = Vec::new();
    let mut i: usize = 0;
    while i < n
        invariant
            n == s@.len(),
            i <= n,
            v@ == s@.subrange(0, i as int),
        decreases n - i,
    {
        v.push(s.get_char(i));
        i += 1;
        assert(v@ == s@.subrange(0, i as int));
    }
    assert(v@ == s@);
    v
}

/// The string made of the characters of `v`.
pub(crate) fn collect(v: Vec<char>) -> (s: String)
    ensures
        s@ == v@,
{
    let mut s = String::new();
    let mut i: usize = 0;
    while i < v.len()
        invariant
            i <= v@.len(),
            s@ == v@.subrange(0, i as int),
        decreases v@.len() - i,
    {
        s.push(v[i]);
        i += 1;
        assert(s@ == v@.subrange(0, i as int));
    }
    assert(s@ == v@);
    s
}

/// Whether two texts hold the same characters.
pub(crate) fn same_text(a: &str, b: &str) -> (r: bool)
    ensures
        r == (a@ == b@),
{
    let n = a.unicode_len();
    if n != b.unicode_len() {
        return false;
    }
    let mut i: usize = 0;
    while i < n
        invariant
            n == a@.len(),
            n == b@.len(),
            i <= n,
            a@.subrange(0, i as int) == b@.subrange(0, i as int),
        decreases n - i,
    {
        if a.get_char(i) != b.get_char(i) {
            assert(a@[i as int] != b@[i as int]);
            return false;
        }
        i += 1;
        assert(a@.subrange(0, i as int) =~= b@.subrange(0, i as int)) by {
            assert forall|j: int| 0 <= j < i implies a@.subrange(0, i as int)[j] == b@.subrange(
                0,
                i as int,
            )[j] by {
                if j < i - 1 {
                    assert(a@.subrange(0, i - 1)[j] == b@.subrange(0, i - 1)[j]);
                }
            }
        }
    }
    assert(a@.subrange(0, n as int) =~= a@);
    assert(b@.subrange(0, n as int) =~= b@);
    true
}

/// Whether `s` is the word of the three symbols `a`, `b`, `c`.
pub(crate) fn spells(s: &String, a: char, b: char, c: char) -> (r: bool)
    ensures
        r == (s@ == seq![a, b, c]),
{
    let t = s.as_str();
    if t.unicode_len() != 3 {
        return false;
    }
    let r = t.get_char(0) == a && t.get_char(1) == b && t.get_char(2) == c;
    assert(r ==> s@ =~= seq![a, b, c]);
    r
}

/// The text of a literal with a fractional part: the digits before the
/// point, the point, the digits after it.
pub(crate) fn fraction_text(whole: &Vec<char>, fraction: &Vec<char>) -> (t: String)
    ensures
        t@ == whole@ + seq!['.'] + fraction@,
{
    let mut t = String::new();
    let mut i: usize = 0;
    while i < whole.len()
        invariant
            i <= whole@.len(),
            t@ == whole@.subrange(0, i as int),
        decreases whole@.len() - i,
    {
        t.push(whole[i]);
        i += 1;
        assert(t@ =~= whole@.subrange(0, i as int));
    }
    assert(whole@.subrange(0, i as int) =~= whole@);
    t.push('.');
    let mut j: usize = 0;
    while j < fraction.len()
        invariant
            j <= fraction@.len(),
            t@ == whole@ + seq!['.'] + fraction@.subrange(0, j as int),
        decreases fraction@.len() - j,
    {
        t.push(fraction[j]);
        j += 1;
        assert(t@ =~= whole@ + seq!['.'] + fraction@.subrange(0, j as int));
    }
    assert(fraction@.subrange(0, j as int) =~= fraction@);
    t
}

/// What the digit `c` is worth; 16 if it is none.
pub(crate) fn value_of(c: char) -> (d: u64)
    ensures
        d == digit_value(c),
{
    if is_digit(c) {
        (c as u32 - '0' as u32) as u64
    } else if 'a' <= c && c <= 'f' {
        (c as u32 - 'a' as u32 + 10) as u64
    } else if 'A' <= c && c <= 'F' {
        (c as u32 - 'A' as u32 + 10) as u64
    } else {
        16
    }
}

/// The first digits of a numeral are worth no more than the whole.
proof fn lemma_positional_grows(s: Seq<char>, radix: nat, n: int)
    requires
        0 <= n <= s.len(),
        radix >= 1,
    ensures
        positional(s.subrange(0, n), radix) <= positional(s, radix),
    decreases s.len() - n,
{
    if n < s.len() {
        lemma_positional_grows(s, radix, n + 1);
        assert(s.subrange(0, n + 1).drop_last() =~= s.subrange(0, n));
        let p = positional(s.subrange(0, n), radix) as int;
        vstd::arithmetic::mul::lemma_mul_inequality(1, radix as int, p);
        vstd::arithmetic::mul::lemma_mul_is_commutative(radix as int, p);
        assert(p <= p * radix);
        assert(positional(s.subrange(0, n + 1), radix) == p * radix + digit_value(
            s.subrange(0, n + 1).last(),
        ));
    } else {
        assert(s.subrange(0, n) =~= s);
    }
}

/// The value of the numeral `ds` in the given radix, where it is one and its
/// value is no greater than `max`.
pub(crate) fn parse_number(ds: &Vec<char>, radix: u64, max: u64) -> (r: Option<u64>)
    requires
        1 <= radix <= 16,
    ensures
        r == match bounded_value(ds@, radix as nat, max as nat) {
            Some(v) => Some(v as u64),
            None => None,
        },
{
    if ds.len() == 0 {
        return None;
    }
    let mut acc: u64 = 0;
    let mut i: usize = 0;
    assert(ds@.subrange(0, 0) =~= Seq::<char>::empty());
    while i < ds.len()
        invariant
            1 <= radix <= 16,
            i <= ds@.len(),
            ds@.len() > 0,
            forall|j: int| 0 <= j < i ==> digit_value(#[trigger] ds@[j]) < radix,
            acc == positional(ds@.subrange(0, i as int), radix as nat),
            acc <= max,
        decreases ds@.len() - i,
    {
        let d = value_of(ds[i]);
        if d >= radix {
            return None;
        }
        proof {
            lemma_positional_grows(ds@, radix as nat, i + 1);
            assert(ds@.subrange(0, i + 1).drop_last() =~= ds@.subrange(0, i as int));
        }
        match acc.checked_mul(radix) {
            Some(m) => match m.checked_add(d) {
                Some(n) => {
                    if n > max {
                        return None;
                    }
                    acc = n;
                },
                None => {
                    return None;
                },
            },
            None => {
                return None;
            },
        }
        i += 1;
    }
    assert(ds@.subrange(0, i as int) =~= ds@);
    Some(acc)
}

/// Whether `x` is the symbol `c`.
pub(crate) fn holds(x: &Option<char>, c: char) -> (r: bool)
    ensures
        r == (*x == Some(c)),
{
    match x {
        Some(y) => *y == c,
        None => false,
    }
}

} // verus!
