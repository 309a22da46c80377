//! Texts as bytes: equality, prefix, suffix and occurrence; and numbers in
//! decimal text.

use vstd::prelude::*;

verus! {

/// `part` stands in `text` at offset `at`.
pub open spec fn stands_at(text: Seq<u8>, part: Seq<u8>, at: int) -> bool {
    0 <= at && at + part.len() <= text.len() && text.subrange(at, at + part.len()) == part
}

/// `text` begins with `prefix`.
pub open spec fn has_prefix(text: Seq<u8>, prefix: Seq<u8>) -> bool {
    stands_at(text, prefix, 0)
}

/// `text` ends with `suffix`.
pub open spec fn has_suffix(text: Seq<u8>, suffix: Seq<u8>) -> bool {
    stands_at(text, suffix, text.len() - suffix.len())
}

/// `part` occurs somewhere in `text`.
pub open spec fn occurs_in(part: Seq<u8>, text: Seq<u8>) -> bool {
    exists|at: int| stands_at(text, part, at)
}

/// Whether `part` stands in `text` at offset `at`.
pub fn matches_at(text: &[u8], part: &[u8], at: usize) -> (found: bool)
    ensures
        found == stands_at(text@, part@, at as int),
{
    if at > text.len() || part.len() > text.len() - at {
        return false;
    }
    let mut k: usize = 0;
    while k < part.len()
        invariant
            k <= part@.len(),
            at + part@.len() <= text@.len() <= usize::MAX,
            forall|j: int| 0 <= j < k ==> text@[at + j] == part@[j],
        decreases part@.len() - k,
    {
        if text[at + k] != part[k] {
            assert(text@.subrange(at as int, at + part@.len())[k as int] != part@[k as int]);
            return false;
        }
        k = k + 1;
    }
    assert(text@.subrange(at as int, at + part@.len()) =~= part@);
    true
}

/// Whether two texts are the same.
pub fn same_text(left: &[u8], right: &[u8]) -> (same: bool)
    ensures
        same == (left@ == right@),
{
    if left.len() != right.len() {
        return false;
    }
    let same: bool = matches_at(left, right, 0);
    assert(left@.subrange(0, left@.len() as int) =~= left@);
    same
}

/// Whether `text` begins with `prefix`.
pub fn starts_with(text: &[u8], prefix: &[u8]) -> (found: bool)
    ensures
        found == has_prefix(text@, prefix@),
{
    matches_at(text, prefix, 0)
}

/// Whether `text` ends with `suffix`.
pub fn ends_with(text: &[u8], suffix: &[u8]) -> (found: bool)
    ensures
        found == has_suffix(text@, suffix@),
{
    if suffix.len() > text.len() {
        return false;
    }
    matches_at(text, suffix, text.len() - suffix.len())
}

/// Whether `part` occurs somewhere in `text`.
pub fn contains_text(text: &[u8], part: &[u8]) -> (found: bool)
    ensures
        found == occurs_in(part@, text@),
{
    if part.len() > text.len() {
        return false;
    }
    let last: usize = text.len() - part.len();
    let mut at: usize = 0;
    loop
        invariant
            at <= last,
            last == text@.len() - part@.len(),
            forall|j: int| 0 <= j < at ==> !stands_at(text@, part@, j),
        decreases last - at,
    {
        if matches_at(text, part, at) {
            return true;
        }
        if at == last {
            return false;
        }
        at = at + 1;
    }
}

/// The bytes of a text.
pub open spec fn bytes_of(text: Seq<char>) -> Seq<u8> {
    vstd::utf8::encode_utf8(text)
}

/// The character of a decimal digit.
pub open spec fn digit_char(d: nat) -> char {
    if d == 0 {
        '0'
    } else if d == 1 {
        '1'
    } else if d == 2 {
        '2'
    } else if d == 3 {
        '3'
    } else if d == 4 {
        '4'
    } else if d == 5 {
        '5'
    } else if d == 6 {
        '6'
    } else if d == 7 {
        '7'
    } else if d == 8 {
        '8'
    } else {
        '9'
    }
}

/// A number in decimal, without leading zeros.
pub open spec fn decimal(n: nat) -> Seq<char>
    decreases n,
{
    if n < 10 {
        seq![digit_char(n)]
    } else {
        decimal(n / 10).push(digit_char(n % 10))
    }
}

/// The text of one decimal digit.
fn digit_str(d: u16) -> (text: &'static str)
    requires
        d < 10,
    ensures
        text@ == seq![digit_char(d as nat)],
{
    proof {
        reveal_strlit("0");
        reveal_strlit("1");
        reveal_strlit("2");
        reveal_strlit("3");
        reveal_strlit("4");
        reveal_strlit("5");
        reveal_strlit("6");
        reveal_strlit("7");
        reveal_strlit("8");
        reveal_strlit("9");
    }
    let text: &'static str = if d == 0 {
        "0"
    } else if d == 1 {
        "1"
    } else if d == 2 {
        "2"
    } else if d == 3 {
        "3"
    } else if d == 4 {
        "4"
    } else if d == 5 {
        "5"
    } else if d == 6 {
        "6"
    } else if d == 7 {
        "7"
    } else if d == 8 {
        "8"
    } else {
        "9"
    };
    assert(text@ =~= seq![digit_char(d as nat)]);
    text
}

/// Appends `n` in decimal to `out`.
pub fn push_decimal(out: &mut String, n: u16)
    ensures
        final(out)@ == old(out)@ + decimal(n as nat),
    decreases n,
{
    if n >= 10 {
        push_decimal(out, n / 10);
    }
    out.append(digit_str(n % 10));
    proof {
        let digit = seq![digit_char((n % 10) as nat)];
        if n >= 10 {
            assert(old(out)@ + decimal((n / 10) as nat) + digit =~= old(out)@ + decimal(
                (n / 10) as nat,
            ).push(digit_char((n % 10) as nat)));
        } else {
            assert(old(out)@ + digit =~= old(out)@ + decimal(n as nat));
        }
    }
}

/// The byte of the digit zero.
pub const ZERO: u8 = 48;

/// Whether every byte is a decimal digit.
pub open spec fn all_digits(s: Seq<u8>) -> bool {
    forall|i: int| 0 <= i < s.len() ==> ZERO <= #[trigger] s[i] <= ZERO + 9
}

/// The number that a string of digits stands for.
pub open spec fn digits_value(s: Seq<u8>) -> nat
    decreases s.len(),
{
    if s.len() == 0 {
        0
    } else {
        digits_value(s.drop_last()) * 10 + (s.last() - ZERO) as nat
    }
}

/// The byte of a plus sign.
pub const PLUS: u8 = 43;

/// A longer string of digits stands for no smaller number.
pub proof fn lemma_digits_grow(s: Seq<u8>, k: int)
    requires
        all_digits(s),
        0 <= k <= s.len(),
    ensures
        digits_value(s.take(k)) <= digits_value(s),
    decreases s.len() - k,
{
    if k < s.len() {
        let longer = s.take(k + 1);
        assert(longer.drop_last() =~= s.take(k));
        assert(longer.last() == s[k]);
        lemma_digits_grow(s, k + 1);
    } else {
        assert(s.take(k) =~= s);
    }
}

/// The digits of a number text: the text without the plus sign that may
/// stand in front.
pub open spec fn number_digits(text: Seq<u8>) -> Seq<u8> {
    if text.len() > 0 && text[0] == PLUS {
        text.subrange(1, text.len() as int)
    } else {
        text
    }
}

/// The number from 0 to `max` that a text stands for: an optional plus sign
/// and then digits, at least one, and nothing else.
pub open spec fn number_spec(text: Seq<u8>, max: nat) -> Option<nat> {
    let digits = number_digits(text);
    if digits.len() > 0 && all_digits(digits) && digits_value(digits) <= max {
        Some(digits_value(digits))
    } else {
        None
    }
}

/// Reads a number from 0 to `max` in decimal: an optional plus sign and then
/// digits, at least one, and nothing else.
pub fn parse_number(text: &[u8], max: u16) -> (number: Option<u16>)
    ensures
        number is Some <==> number_spec(text@, max as nat) is Some,
        number is Some ==> number->Some_0 as nat == number_spec(text@, max as nat)->Some_0,
{
    let len: usize = text.len();
    let start: usize = if len > 0 && text[0] == PLUS {
        1
    } else {
        0
    };
    let ghost digits = number_digits(text@);
    assert(digits =~= text@.subrange(start as int, len as int));
    if start == len {
        return None;
    }
    let mut value: u32 = 0;
    let mut i: usize = start;
    assert(digits.take(0) =~= Seq::<u8>::empty());
    while i < len
        invariant
            start <= i <= len,
            len == text@.len(),
            digits == number_digits(text@),
            digits == text@.subrange(start as int, len as int),
            all_digits(digits.take(i - start)),
            value as nat == digits_value(digits.take(i - start)),
            value <= max,
        decreases len - i,
    {
        let byte: u8 = text[i];
        if byte < ZERO || byte > ZERO + 9 {
            assert(digits[i - start] == byte);
            assert(!all_digits(digits));
            return None;
        }
        let next: u32 = value * 10 + ((byte - ZERO) as u32);
        proof {
            let seen = digits.take(i - start + 1);
            assert(seen.drop_last() =~= digits.take(i - start));
            assert(seen.last() == byte);
            assert(digits_value(seen) == next);
            assert forall|k: int| 0 <= k < seen.len() implies ZERO <= #[trigger] seen[k] <= ZERO
                + 9 by {
                if k < i - start {
                    assert(digits.take(i - start)[k] == seen[k]);
                }
            }
        }
        if next > max as u32 {
            proof {
                if all_digits(digits) {
                    lemma_digits_grow(digits, i - start + 1);
                }
            }
            return None;
        }
        value = next;
        i = i + 1;
    }
    assert(digits.take(len - start) =~= digits);
    Some(value as u16)
}

} // verus!
