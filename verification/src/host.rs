//! The listen address: an IPv4 address written as four decimal numbers
//! between dots.

use vstd::prelude::*;
use crate::text::chars_of;

verus! {

/// An ASCII decimal digit.
pub open spec fn is_digit(c: char) -> bool {
    0x30 <= c as u32 <= 0x39
}

/// The value of a digit; zero for any other character.
pub open spec fn digit_of(c: char) -> nat {
    if is_digit(c) {
        (c as u32 - 0x30) as nat
    } else {
        0
    }
}

/// The number that the digits write in base ten.
pub open spec fn digits_value(s: Seq<char>) -> nat
    decreases s.len(),
{
    if s.len() == 0 {
        0
    } else {
        digits_value(s.drop_last()) * 10 + digit_of(s.last())
    }
}

/// Every character is a digit.
pub open spec fn all_digits(s: Seq<char>) -> bool {
    forall|i: int| 0 <= i < s.len() ==> is_digit(#[trigger] s[i])
}

/// The text after an optional leading plus sign.
pub open spec fn unsigned_part(s: Seq<char>) -> Seq<char> {
    if s.len() > 0 && s.first() == '+' {
        s.drop_first()
    } else {
        s
    }
}

/// The number between 0 and 255 that the text writes: an optional plus
/// sign, then one or more decimal digits, leading zeros allowed.
pub open spec fn parse_octet(s: Seq<char>) -> Option<u8> {
    let digits = unsigned_part(s);
    if digits.len() > 0 && all_digits(digits) && digits_value(digits) <= 255 {
        Some(digits_value(digits) as u8)
    } else {
        None
    }
}

/// The fields between the dots. Text without a dot is one field, and the
/// empty text is one empty field.
pub open spec fn split_dots(s: Seq<char>) -> Seq<Seq<char>>
    decreases s.len(),
{
    if s.len() == 0 {
        seq![Seq::<char>::empty()]
    } else if s.last() == '.' {
        split_dots(s.drop_last()).push(Seq::<char>::empty())
    } else {
        let fields = split_dots(s.drop_last());
        fields.drop_last().push(fields.last().push(s.last()))
    }
}

/// The four numbers of a dotted address; `None` unless there are exactly
/// four fields and each writes a number between 0 and 255.
pub open spec fn parse_host(s: Seq<char>) -> Option<Seq<u8>> {
    let fields = split_dots(s);
    if fields.len() == 4 && parse_octet(fields[0]) is Some && parse_octet(fields[1]) is Some
        && parse_octet(fields[2]) is Some && parse_octet(fields[3]) is Some {
        Some(
            seq![
                parse_octet(fields[0]).unwrap(),
                parse_octet(fields[1]).unwrap(),
                parse_octet(fields[2]).unwrap(),
                parse_octet(fields[3]).unwrap(),
            ],
        )
    } else {
        None
    }
}

/// Digits that follow can only make the number larger.
proof fn lemma_value_grows(s: Seq<char>, k: int)
    requires
        0 <= k <= s.len(),
    ensures
        digits_value(s.take(k)) <= digits_value(s),
    decreases s.len() - k,
{
    if k == s.len() {
        assert(s.take(k) =~= s);
    } else {
        assert(s.drop_last().take(k) =~= s.take(k));
        lemma_value_grows(s.drop_last(), k);
    }
}

/// Reads the number that the characters from `from` up to `to` write.
fn octet_in(chars: &Vec<char>, from: usize, to: usize) -> (r: Option<u8>)
    requires
        from <= to <= chars@.len(),
    ensures
        r == parse_octet(chars@.subrange(from as int, to as int)),
{
    let ghost field = chars@.subrange(from as int, to as int);
    let start: usize = if from < to && chars[from] == '+' {
        from + 1
    } else {
        from
    };
    let ghost digits = unsigned_part(field);
    assert(digits =~= chars@.subrange(start as int, to as int));
    if start == to {
        return None;
    }
    let mut value: u32 = 0;
    let mut i: usize = start;
    while i < to
        invariant
            from <= start <= i <= to <= chars@.len(),
            start < to,
            digits == chars@.subrange(start as int, to as int),
            digits == unsigned_part(chars@.subrange(from as int, to as int)),
            all_digits(digits.take(i - start)),
            value == digits_value(digits.take(i - start)),
            value <= 255,
        decreases to - i,
    {
        let c = chars[i];
        let n: u32 = c as u32;
        if n < 0x30 || n > 0x39 {
            assert(!is_digit(digits[i - start]));
            return None;
        }
        let ghost before = digits.take(i - start);
        let ghost now = digits.take(i - start + 1);
        assert(now.drop_last() =~= before);
        assert(now.last() == c);
        value = value * 10 + (n - 0x30);
        if value > 255 {
            proof {
                lemma_value_grows(digits, i - start + 1);
            }
            return None;
        }
        i += 1;
    }
    assert(digits.take(to - start) =~= digits);
    Some(value as u8)
}

/// Reads a dotted IPv4 address, such as `127.0.0.1`.
pub fn parse_host_addr(host: &str) -> (r: Option<[u8; 4]>)
    ensures
        match parse_host(host@) {
            Some(quad) => r matches Some(addr) && addr@ == quad,
            None => r is None,
        },
{
    let chars = chars_of(host);
    let n = chars.len();
    let mut fields: Vec<Option<u8>> = Vec::new();
    let mut start: usize = 0;
    let mut i: usize = 0;
    while i < n
        invariant
            start <= i <= n,
            n == chars@.len(),
            split_dots(chars@.take(i as int)).len() == fields@.len() + 1,
            split_dots(chars@.take(i as int)).last() == chars@.subrange(start as int, i as int),
            forall|k: int|
                0 <= k < fields@.len() ==> #[trigger] fields@[k] == parse_octet(
                    split_dots(chars@.take(i as int))[k],
                ),
        decreases n - i,
    {
        let ghost before = split_dots(chars@.take(i as int));
        assert(chars@.take(i + 1).drop_last() =~= chars@.take(i as int));
        if chars[i] == '.' {
            let field = octet_in(&chars, start, i);
            fields.push(field);
            start = i + 1;
            assert(chars@.subrange(start as int, start as int) =~= Seq::<char>::empty());
        } else {
            assert(chars@.subrange(start as int, i as int).push(chars@[i as int])
                =~= chars@.subrange(start as int, i + 1));
        }
        i += 1;
    }
    assert(chars@.take(n as int) =~= chars@);
    let last = octet_in(&chars, start, n);
    fields.push(last);
    assert(fields@.len() == split_dots(host@).len());
    assert(forall|k: int|
        0 <= k < fields@.len() ==> #[trigger] fields@[k] == parse_octet(split_dots(host@)[k]));
    if fields.len() != 4 {
        return None;
    }
    match (fields[0], fields[1], fields[2], fields[3]) {
        (Some(a), Some(b), Some(c), Some(d)) => {
            let addr: [u8; 4] = [a, b, c, d];
            assert(addr@ =~= seq![a, b, c, d]);
            Some(addr)
        },
        _ => None,
    }
}

} // verus!
