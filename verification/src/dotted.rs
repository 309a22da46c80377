//! Addresses in dotted-decimal text: four numbers from 0 to 255, each
//! without leading zeros, with dots between them.

use crate::net::Ipv4;
use crate::text::{all_digits, bytes_of, digits_value, same_text, ZERO};
use vstd::prelude::*;

verus! {

/// The byte of a dot.
pub const DOT: u8 = 46;

/// A number in decimal, without leading zeros, as bytes.
pub open spec fn decimal_bytes(n: nat) -> Seq<u8>
    decreases n,
{
    if n < 10 {
        seq![(ZERO + n) as u8]
    } else {
        decimal_bytes(n / 10).push((ZERO + n % 10) as u8)
    }
}

/// The address in dotted-decimal text, as bytes.
pub open spec fn ipv4_bytes(ip: Ipv4) -> Seq<u8> {
    decimal_bytes(ip.a as nat) + seq![DOT] + decimal_bytes(ip.b as nat) + seq![DOT] + decimal_bytes(
        ip.c as nat,
    ) + seq![DOT] + decimal_bytes(ip.d as nat)
}

/// The decimal text of a number is made of digits, stands for the number,
/// and is as long as the number is large.
pub proof fn lemma_decimal_bytes(n: nat)
    ensures
        decimal_bytes(n).len() >= 1,
        all_digits(decimal_bytes(n)),
        digits_value(decimal_bytes(n)) == n,
        n < 10 ==> decimal_bytes(n).len() == 1,
        10 <= n < 100 ==> decimal_bytes(n).len() == 2,
        100 <= n < 1000 ==> decimal_bytes(n).len() == 3,
    decreases n,
{
    if n < 10 {
        let s = decimal_bytes(n);
        assert(s.drop_last() =~= Seq::<u8>::empty());
        assert(digits_value(s.drop_last()) == 0);
        assert(s.last() == (ZERO + n) as u8);
    } else {
        lemma_decimal_bytes(n / 10);
        let rest = decimal_bytes(n / 10);
        let s = rest.push((ZERO + n % 10) as u8);
        assert(s.drop_last() =~= rest);
        assert(s.last() == (ZERO + n % 10) as u8);
        assert forall|i: int| 0 <= i < s.len() implies ZERO <= #[trigger] s[i] <= ZERO + 9 by {
            if i < rest.len() {
                assert(s[i] == rest[i]);
            }
        }
    }
}

/// Two numbers with the same decimal text are the same.
pub proof fn lemma_decimal_bytes_injective(n: nat, m: nat)
    requires
        decimal_bytes(n) == decimal_bytes(m),
    ensures
        n == m,
{
    lemma_decimal_bytes(n);
    lemma_decimal_bytes(m);
}

/// Where the parts of a dotted address stand in its text.
pub proof fn lemma_dotted_shape(ip: Ipv4)
    ensures
        ({
            let text = ipv4_bytes(ip);
            let a = decimal_bytes(ip.a as nat);
            let b = decimal_bytes(ip.b as nat);
            let c = decimal_bytes(ip.c as nat);
            let d = decimal_bytes(ip.d as nat);
            let dot1 = a.len() as int;
            let dot2 = dot1 + 1 + b.len();
            let dot3 = dot2 + 1 + c.len();
            &&& text.len() == dot3 + 1 + d.len()
            &&& text[dot1] == DOT
            &&& text[dot2] == DOT
            &&& text[dot3] == DOT
            &&& text.subrange(0, dot1) == a
            &&& text.subrange(dot1 + 1, dot2) == b
            &&& text.subrange(dot2 + 1, dot3) == c
            &&& text.subrange(dot3 + 1, text.len() as int) == d
            &&& forall|i: int|
                0 <= i < text.len() && i != dot1 && i != dot2 && i != dot3 ==> #[trigger] text[i] != DOT
        }),
{
    let text = ipv4_bytes(ip);
    let a = decimal_bytes(ip.a as nat);
    let b = decimal_bytes(ip.b as nat);
    let c = decimal_bytes(ip.c as nat);
    let d = decimal_bytes(ip.d as nat);
    let dot1 = a.len() as int;
    let dot2 = dot1 + 1 + b.len();
    let dot3 = dot2 + 1 + c.len();
    lemma_decimal_bytes(ip.a as nat);
    lemma_decimal_bytes(ip.b as nat);
    lemma_decimal_bytes(ip.c as nat);
    lemma_decimal_bytes(ip.d as nat);
    assert(text.subrange(0, dot1) =~= a);
    assert(text.subrange(dot1 + 1, dot2) =~= b);
    assert(text.subrange(dot2 + 1, dot3) =~= c);
    assert(text.subrange(dot3 + 1, text.len() as int) =~= d);
    assert forall|i: int|
        0 <= i < text.len() && i != dot1 && i != dot2 && i != dot3 implies #[trigger] text[i] != DOT by {
        if i < dot1 {
            assert(text[i] == a[i]);
        } else if i < dot2 {
            assert(text[i] == b[i - dot1 - 1]);
        } else if i < dot3 {
            assert(text[i] == c[i - dot2 - 1]);
        } else {
            assert(text[i] == d[i - dot3 - 1]);
        }
    }
}

/// Two addresses with the same dotted text are the same.
pub proof fn lemma_ipv4_bytes_injective(x: Ipv4, y: Ipv4)
    requires
        ipv4_bytes(x) == ipv4_bytes(y),
    ensures
        x == y,
{
    lemma_dotted_shape(x);
    lemma_dotted_shape(y);
    let text = ipv4_bytes(x);
    let xa = decimal_bytes(x.a as nat).len() as int;
    let ya = decimal_bytes(y.a as nat).len() as int;
    assert(xa == ya) by {
        if xa < ya {
            assert(text[xa] == DOT);
        } else if ya < xa {
            assert(text[ya] == DOT);
        }
    }
    let xb = xa + 1 + decimal_bytes(x.b as nat).len();
    let yb = ya + 1 + decimal_bytes(y.b as nat).len();
    assert(xb == yb) by {
        if xb < yb {
            assert(text[xb] == DOT);
        } else if yb < xb {
            assert(text[yb] == DOT);
        }
    }
    let xc = xb + 1 + decimal_bytes(x.c as nat).len();
    let yc = yb + 1 + decimal_bytes(y.c as nat).len();
    assert(xc == yc) by {
        if xc < yc {
            assert(text[xc] == DOT);
        } else if yc < xc {
            assert(text[yc] == DOT);
        }
    }
    lemma_decimal_bytes_injective(x.a as nat, y.a as nat);
    lemma_decimal_bytes_injective(x.b as nat, y.b as nat);
    lemma_decimal_bytes_injective(x.c as nat, y.c as nat);
    lemma_decimal_bytes_injective(x.d as nat, y.d as nat);
}

/// The decimal text of a number below 1000.
pub fn decimal_of(n: u16) -> (text: Vec<u8>)
    requires
        n < 1000,
    ensures
        text@ == decimal_bytes(n as nat),
    decreases n,
{
    if n < 10 {
        let text: Vec<u8> = vec![ZERO + (n as u8)];
        assert(text@ =~= decimal_bytes(n as nat));
        text
    } else {
        let mut text: Vec<u8> = decimal_of(n / 10);
        text.push(ZERO + ((n % 10) as u8));
        text
    }
}

/// Reads the bytes from `start` to `end` as a number from 0 to 255 in
/// decimal without leading zeros.
pub fn parse_octet(text: &[u8], start: usize, end: usize) -> (octet: Option<u8>)
    requires
        start <= end <= text@.len(),
    ensures
        octet is Some ==> text@.subrange(start as int, end as int) == decimal_bytes(
            octet->Some_0 as nat,
        ),
        octet is None ==> forall|n: u8|
            text@.subrange(start as int, end as int) != #[trigger] decimal_bytes(n as nat),
{
    let ghost part = text@.subrange(start as int, end as int);
    let len: usize = end - start;
    if len == 0 || len > 3 {
        proof {
            assert forall|n: u8| part != #[trigger] decimal_bytes(n as nat) by {
                lemma_decimal_bytes(n as nat);
            }
        }
        return None;
    }
    let mut value: u16 = 0;
    let mut i: usize = start;
    assert(part.take(0) =~= Seq::<u8>::empty());
    while i < end
        invariant
            start <= i <= end <= text@.len(),
            end - start <= 3,
            part == text@.subrange(start as int, end as int),
            all_digits(part.take(i - start)),
            value as nat == digits_value(part.take(i - start)),
            i - start == 0 ==> value == 0,
            i - start == 1 ==> value <= 9,
            i - start == 2 ==> value <= 99,
            i - start == 3 ==> value <= 999,
        decreases end - i,
    {
        let byte: u8 = text[i];
        if byte < ZERO || byte > ZERO + 9 {
            proof {
                assert(part[i - start] == byte);
                assert forall|n: u8| part != #[trigger] decimal_bytes(n as nat) by {
                    lemma_decimal_bytes(n as nat);
                }
            }
            return None;
        }
        proof {
            let seen = part.take(i - start + 1);
            assert(seen.drop_last() =~= part.take(i - start));
            assert(seen.last() == byte);
        }
        value = value * 10 + ((byte - ZERO) as u16);
        i = i + 1;
    }
    assert(part.take(end - start) =~= part);
    let rendered: Vec<u8> = decimal_of(value);
    let part_slice: &[u8] = vstd::slice::slice_subrange(text, start, end);
    if value > 255 || !same_text(part_slice, rendered.as_slice()) {
        proof {
            assert forall|n: u8| part != #[trigger] decimal_bytes(n as nat) by {
                lemma_decimal_bytes(n as nat);
            }
        }
        return None;
    }
    Some(value as u8)
}

/// The place of the first dot from `start` on; the end of the text where
/// there is none.
pub fn find_dot(text: &[u8], start: usize) -> (at: usize)
    requires
        start <= text@.len(),
    ensures
        start <= at <= text@.len(),
        at < text@.len() ==> text@[at as int] == DOT,
        forall|i: int| start <= i < at ==> text@[i] != DOT,
{
    let mut at: usize = start;
    while at < text.len()
        invariant
            start <= at <= text@.len(),
            forall|i: int| start <= i < at ==> text@[i] != DOT,
        decreases text@.len() - at,
    {
        if text[at] == DOT {
            return at;
        }
        at = at + 1;
    }
    at
}

/// Reads an address in dotted-decimal text. Text of any other form gives
/// nothing.
pub fn parse_ipv4_bytes(text: &[u8]) -> (ip: Option<Ipv4>)
    ensures
        ip is Some ==> text@ == ipv4_bytes(ip->Some_0),
        ip is None ==> forall|any: Ipv4| text@ != #[trigger] ipv4_bytes(any),
{
    let len: usize = text.len();
    proof {
        assert forall|any: Ipv4| text@ == #[trigger] ipv4_bytes(any) implies true by {
            lemma_dotted_shape(any);
        }
    }
    let dot1: usize = find_dot(text, 0);
    if dot1 >= len {
        proof {
            assert forall|any: Ipv4| text@ != #[trigger] ipv4_bytes(any) by {
                lemma_dotted_shape(any);
            }
        }
        return None;
    }
    let dot2: usize = find_dot(text, dot1 + 1);
    if dot2 >= len {
        proof {
            assert forall|any: Ipv4| text@ != #[trigger] ipv4_bytes(any) by {
                lemma_dotted_shape(any);
            }
        }
        return None;
    }
    let dot3: usize = find_dot(text, dot2 + 1);
    if dot3 >= len {
        proof {
            assert forall|any: Ipv4| text@ != #[trigger] ipv4_bytes(any) by {
                lemma_dotted_shape(any);
            }
        }
        return None;
    }
    proof {
        // Whatever address the text spells has its dots where they were found.
        assert forall|any: Ipv4| text@ == #[trigger] ipv4_bytes(any) implies {
            &&& decimal_bytes(any.a as nat) == text@.subrange(0, dot1 as int)
            &&& decimal_bytes(any.b as nat) == text@.subrange(dot1 + 1, dot2 as int)
            &&& decimal_bytes(any.c as nat) == text@.subrange(dot2 + 1, dot3 as int)
            &&& decimal_bytes(any.d as nat) == text@.subrange(dot3 + 1, len as int)
        } by {
            lemma_dotted_shape(any);
            let end1 = decimal_bytes(any.a as nat).len() as int;
            let end2 = end1 + 1 + decimal_bytes(any.b as nat).len();
            let end3 = end2 + 1 + decimal_bytes(any.c as nat).len();
            assert(text@[end1] == DOT && text@[end2] == DOT && text@[end3] == DOT);
            assert(end1 == dot1);
            assert(end2 == dot2);
            assert(end3 == dot3);
        }
    }
    let a: u8 = match parse_octet(text, 0, dot1) {
        Some(n) => n,
        None => {
            return None;
        },
    };
    let b: u8 = match parse_octet(text, dot1 + 1, dot2) {
        Some(n) => n,
        None => {
            return None;
        },
    };
    let c: u8 = match parse_octet(text, dot2 + 1, dot3) {
        Some(n) => n,
        None => {
            return None;
        },
    };
    let d: u8 = match parse_octet(text, dot3 + 1, len) {
        Some(n) => n,
        None => {
            return None;
        },
    };
    let ip = Ipv4 { a, b, c, d };
    assert(text@ =~= ipv4_bytes(ip));
    Some(ip)
}

/// The address that a text spells in dotted decimal, if it spells one.
pub open spec fn parsed_ipv4(text: Seq<char>) -> Option<Ipv4> {
    if exists|ip: Ipv4| bytes_of(text) == #[trigger] ipv4_bytes(ip) {
        Some(choose|ip: Ipv4| bytes_of(text) == #[trigger] ipv4_bytes(ip))
    } else {
        None
    }
}

/// Reads an address in dotted-decimal text, such as `10.2.0.5`.
pub fn parse_ipv4(text: &str) -> (ip: Option<Ipv4>)
    ensures
        ip == parsed_ipv4(text@),
        ip is Some ==> bytes_of(text@) == ipv4_bytes(ip->Some_0),
        ip is None ==> forall|any: Ipv4| bytes_of(text@) != #[trigger] ipv4_bytes(any),
{
    let ip: Option<Ipv4> = parse_ipv4_bytes(text.as_bytes());
    proof {
        if ip is Some {
            let spelled = choose|any: Ipv4| bytes_of(text@) == #[trigger] ipv4_bytes(any);
            lemma_ipv4_bytes_injective(spelled, ip->Some_0);
        }
    }
    ip
}

} // verus!
