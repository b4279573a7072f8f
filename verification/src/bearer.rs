//! The `Authorization` header: a token travels as `Bearer <token>`.

use vstd::prelude::*;
use vstd::string::StrSliceExecFns;
use vstd::string::StringExecFns;
use crate::text::chars_of;

verus! {

/// White space as Unicode defines it (the property `White_Space`), which is
/// what trimming removes.
pub open spec fn is_space(c: char) -> bool {
    let n = c as u32;
    ||| 0x09 <= n <= 0x0D
    ||| n == 0x20
    ||| n == 0x85
    ||| n == 0xA0
    ||| n == 0x1680
    ||| 0x2000 <= n <= 0x200A
    ||| n == 0x2028
    ||| n == 0x2029
    ||| n == 0x202F
    ||| n == 0x205F
    ||| n == 0x3000
}

/// The text without its leading white space.
pub open spec fn trim_start(s: Seq<char>) -> Seq<char>
    decreases s.len(),
{
    if s.len() > 0 && is_space(s.first()) {
        trim_start(s.drop_first())
    } else {
        s
    }
}

/// The text without its trailing white space.
pub open spec fn trim_end(s: Seq<char>) -> Seq<char>
    decreases s.len(),
{
    if s.len() > 0 && is_space(s.last()) {
        trim_end(s.drop_last())
    } else {
        s
    }
}

/// The text without leading and trailing white space.
pub open spec fn trimmed(s: Seq<char>) -> Seq<char> {
    trim_end(trim_start(s))
}

/// The scheme that precedes a token, with its space.
pub open spec fn bearer_prefix() -> Seq<char> {
    seq!['B', 'e', 'a', 'r', 'e', 'r', ' ']
}

/// The header value without the scheme, or as it is where it has none.
pub open spec fn strip_bearer(header: Seq<char>) -> Seq<char> {
    if bearer_prefix().is_prefix_of(header) {
        header.skip(7)
    } else {
        header
    }
}

/// The token that a header value carries.
pub open spec fn bearer_of(header: Seq<char>) -> Seq<char> {
    trimmed(strip_bearer(header))
}

/// Reading the header that carries a token gives the token back, trimmed.
pub proof fn lemma_bearer_round_trip(token: Seq<char>)
    ensures
        bearer_of(bearer_prefix() + token) == trimmed(token),
{
    let header = bearer_prefix() + token;
    assert(header.subrange(0, 7) =~= bearer_prefix());
    assert(header.skip(7) =~= token);
}

/// Whether the character is white space.
pub fn is_whitespace(c: char) -> (b: bool)
    ensures
        b == is_space(c),
{
    let n: u32 = c as u32;
    (0x09 <= n && n <= 0x0D) || n == 0x20 || n == 0x85 || n == 0xA0 || n == 0x1680 || (0x2000 <= n
        && n <= 0x200A) || n == 0x2028 || n == 0x2029 || n == 0x202F || n == 0x205F || n == 0x3000
}

/// Whether the text starts with the scheme.
fn has_bearer_prefix(chars: &Vec<char>) -> (b: bool)
    ensures
        b == bearer_prefix().is_prefix_of(chars@),
{
    if chars.len() < 7 {
        return false;
    }
    let b = chars[0] == 'B' && chars[1] == 'e' && chars[2] == 'a' && chars[3] == 'r' && chars[4]
        == 'e' && chars[5] == 'r' && chars[6] == ' ';
    proof {
        if b {
            assert(chars@.subrange(0, 7) =~= bearer_prefix());
        } else {
            if bearer_prefix().is_prefix_of(chars@) {
                assert(chars@.subrange(0, 7) == bearer_prefix());
                assert(forall|i: int| 0 <= i < 7 ==> chars@[i] == chars@.subrange(0, 7)[i]);
            }
        }
    }
    b
}

/// The token that an `Authorization` header value carries: the value
/// without a leading `Bearer ` and without white space around it. A value
/// without the scheme is taken as the token itself.
pub fn bearer_token(header: &str) -> (token: String)
    ensures
        token@ == bearer_of(header@),
{
    let chars = chars_of(header);
    let len = chars.len();
    let start: usize = if has_bearer_prefix(&chars) { 7 } else { 0 };
    let ghost body = strip_bearer(header@);
    assert(body =~= header@.skip(start as int));
    let mut from = start;
    while from < len && is_whitespace(chars[from])
        invariant
            start <= from <= len,
            len == header@.len(),
            chars@ == header@,
            body == header@.skip(start as int),
            trim_start(body) == trim_start(header@.skip(from as int)),
        decreases len - from,
    {
        assert(header@.skip(from as int).drop_first() =~= header@.skip(from as int + 1));
        from += 1;
    }
    let ghost rest = header@.skip(from as int);
    assert(trim_start(body) == rest);
    let mut to = len;
    assert(header@.subrange(from as int, to as int) =~= rest);
    while to > from && is_whitespace(chars[to - 1])
        invariant
            from <= to <= len,
            len == header@.len(),
            chars@ == header@,
            trim_end(rest) == trim_end(header@.subrange(from as int, to as int)),
        decreases to - from,
    {
        assert(header@.subrange(from as int, to as int).drop_last() =~= header@.subrange(
            from as int,
            to as int - 1,
        ));
        to -= 1;
    }
    header.substring_char(from, to).to_owned()
}

/// The `Authorization` header value that carries the token.
pub fn bearer_header(token: &str) -> (header: String)
    ensures
        header@ == bearer_prefix() + token@,
{
    let mut header = String::from_str("Bearer ");
    proof {
        reveal_strlit("Bearer ");
        assert("Bearer "@ =~= bearer_prefix());
    }
    header.append(token);
    header
}

} // verus!
