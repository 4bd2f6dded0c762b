//! Byte-string helpers shared by the handshake checks.

use vstd::prelude::*;
use vstd::utf8::valid_utf8;
use vstd::string::{StrSliceExecFns, StringExecFns, StringSliceAdditionalSpecFns};

verus! {

/// Are two byte slices equal?
pub fn bytes_eq(a: &[u8], b: &[u8]) -> (r: bool)
    ensures
        r == (a@ == b@),
{
    if a.len() != b.len() {
        return false;
    }
    let mut i: usize = 0;
    while i < a.len()
        invariant
            a@.len() == b@.len(),
            i <= a@.len(),
            forall|j: int| 0 <= j < i ==> a@[j] == b@[j],
        decreases a@.len() - i,
    {
        if a[i] != b[i] {
            return false;
        }
        i = i + 1;
    }
    assert(a@ =~= b@);
    true
}

/// ASCII lower case of a byte (other bytes are left as they are).
pub open spec fn ascii_lower(b: u8) -> u8 {
    if 65 <= b <= 90 {
        (b + 32) as u8
    } else {
        b
    }
}

/// Two byte strings are equal up to ASCII case.
pub open spec fn eq_ignore_ascii_case_spec(a: Seq<u8>, b: Seq<u8>) -> bool {
    a.len() == b.len() && forall|i: int| 0 <= i < a.len() ==> ascii_lower(a[i]) == ascii_lower(b[i])
}

/// ASCII lower case of a byte.
pub fn to_ascii_lower(b: u8) -> (r: u8)
    ensures
        r == ascii_lower(b),
{
    if 65 <= b && b <= 90 {
        b + 32
    } else {
        b
    }
}

/// Are two byte strings equal up to ASCII case (as `<[u8]>::eq_ignore_ascii_case`)?
pub fn eq_ignore_ascii_case(a: &[u8], b: &[u8]) -> (r: bool)
    ensures
        r == eq_ignore_ascii_case_spec(a@, b@),
{
    if a.len() != b.len() {
        return false;
    }
    let mut i: usize = 0;
    while i < a.len()
        invariant
            a@.len() == b@.len(),
            i <= a@.len(),
            forall|j: int| 0 <= j < i ==> ascii_lower(a@[j]) == ascii_lower(b@[j]),
        decreases a@.len() - i,
    {
        if to_ascii_lower(a[i]) != to_ascii_lower(b[i]) {
            return false;
        }
        i = i + 1;
    }
    true
}

/// ASCII whitespace as `u8::is_ascii_whitespace` has it: space, tab, line
/// feed, form feed and carriage return.
pub open spec fn is_ascii_ws(b: u8) -> bool {
    b == 32 || b == 9 || b == 10 || b == 12 || b == 13
}

/// Is the byte ASCII whitespace?
pub fn is_ascii_whitespace(b: u8) -> (r: bool)
    ensures
        r == is_ascii_ws(b),
{
    b == 32 || b == 9 || b == 10 || b == 12 || b == 13
}

/// Append the bytes of a slice to a vector.
pub fn append_bytes(v: &mut Vec<u8>, s: &[u8])
    ensures
        final(v)@ == old(v)@ + s@,
{
    let mut i: usize = 0;
    while i < s.len()
        invariant
            i <= s@.len(),
            v@ == old(v)@ + s@.take(i as int),
        decreases s@.len() - i,
    {
        v.push(s[i]);
        i = i + 1;
        assert(s@.take(i as int) =~= s@.take((i - 1) as int).push(s@[i - 1]));
    }
    assert(s@.take(i as int) =~= s@);
}

/// `std::str::from_utf8`: it succeeds exactly on the slices that hold valid
/// UTF-8, with the string those bytes encode.
#[verifier::external_body]
pub(crate) fn utf8_str(bytes: &[u8]) -> (r: Option<&str>)
    ensures
        r is Some <==> valid_utf8(bytes@),
        r matches Some(s) ==> s.spec_bytes() == bytes@,
{
    std::str::from_utf8(bytes).ok()
}

/// Do the bytes hold valid UTF-8?
pub fn is_utf8(bytes: &[u8]) -> (r: bool)
    ensures
        r == valid_utf8(bytes@),
{
    utf8_str(bytes).is_some()
}

/// Are two strings equal?
pub fn str_eq(a: &str, b: &str) -> (r: bool)
    ensures
        r == (a@ == b@),
{
    let r = bytes_eq(a.as_bytes(), b.as_bytes());
    proof {
        vstd::utf8::encode_utf8_decode_utf8(a@);
        vstd::utf8::encode_utf8_decode_utf8(b@);
    }
    r
}

/// The value of a sequence of decimal digits.
pub open spec fn digits_value(d: Seq<char>) -> nat
    decreases d.len(),
{
    if d.len() == 0 {
        0
    } else {
        digits_value(d.drop_last()) * 10 + (d.last() as nat - 48) as nat
    }
}

/// One or more ASCII decimal digits.
pub open spec fn all_digits(d: Seq<char>) -> bool {
    d.len() > 0 && forall|i: int| 0 <= i < d.len() ==> '0' <= #[trigger] d[i] <= '9'
}

/// What `str::parse::<u8>` gives: an optional `+` sign followed by one or
/// more decimal digits, whose value is at most 255; nothing else.
pub open spec fn parsed_u8(s: Seq<char>) -> Option<u8> {
    let d = if s.len() > 0 && s[0] == '+' {
        s.skip(1)
    } else {
        s
    };
    if all_digits(d) && digits_value(d) <= 255 {
        Some(digits_value(d) as u8)
    } else {
        None
    }
}

/// `str::parse::<u8>`, with only whether and to what it succeeded kept. As
/// std documents it (`u8::from_str_radix` with radix 10), the string is an
/// optional `+` sign followed by digits only, and the value must fit.
#[verifier::external_body]
pub(crate) fn parse_u8(s: &str) -> (r: Option<u8>)
    ensures
        r == parsed_u8(s@),
{
    s.parse::<u8>().ok()
}

/// In valid UTF-8, an ASCII byte is a character of its own: the positions
/// before and after it are character boundaries.
pub proof fn lemma_ascii_boundary(b: Seq<u8>, i: int)
    requires
        vstd::utf8::valid_utf8(b),
        0 <= i < b.len(),
        b[i] < 128,
    ensures
        vstd::utf8::is_char_boundary(b, i),
        vstd::utf8::is_char_boundary(b, i + 1),
    decreases b.len(),
{
    reveal_with_fuel(vstd::utf8::is_char_boundary, 2);
    reveal_with_fuel(vstd::utf8::valid_utf8, 2);
    let l = vstd::utf8::length_of_first_scalar(b);
    let rest = vstd::utf8::pop_first_scalar(b);
    if i == 0 {
        assert(l == 1);
        assert(rest =~= b.skip(1));
    } else {
        assert(i >= l);
        assert(rest.len() == b.len() - l);
        assert(rest[i - l] == b[i]);
        lemma_ascii_boundary(rest, i - l);
    }
}

/// A character boundary before `j` is a boundary of the prefix up to `j`
/// too (where `j` is a boundary).
pub proof fn lemma_boundary_prefix(b: Seq<u8>, j: int, i: int)
    requires
        vstd::utf8::valid_utf8(b),
        0 <= i <= j <= b.len(),
        vstd::utf8::is_char_boundary(b, i),
        vstd::utf8::is_char_boundary(b, j),
    ensures
        vstd::utf8::is_char_boundary(b.subrange(0, j), i),
    decreases b.len(),
{
    reveal_with_fuel(vstd::utf8::is_char_boundary, 2);
    reveal_with_fuel(vstd::utf8::valid_utf8, 2);
    vstd::utf8::valid_utf8_split(b, j);
    if i > 0 {
        let l = vstd::utf8::length_of_first_scalar(b);
        let rest = vstd::utf8::pop_first_scalar(b);
        let p = b.subrange(0, j);
        assert(p[0] == b[0]);
        assert(j >= l);
        assert(i >= l);
        assert(rest.len() == b.len() - l);
        lemma_boundary_prefix(rest, j - l, i - l);
        assert(vstd::utf8::length_of_first_scalar(p) == l);
        assert(vstd::utf8::pop_first_scalar(p) =~= rest.subrange(0, j - l));
    }
}

/// The pieces of `b` between the bytes equal to `d` (as `str::split` with
/// a one-byte pattern gives them): at least one piece, possibly empty.
pub open spec fn split_bytes(b: Seq<u8>, d: u8) -> Seq<Seq<u8>>
    decreases b.len(),
{
    if b.len() == 0 {
        seq![Seq::empty()]
    } else {
        let p = split_bytes(b.drop_last(), d);
        if b.last() == d {
            p.push(Seq::empty())
        } else {
            p.update(p.len() - 1, p.last().push(b.last()))
        }
    }
}

pub proof fn lemma_split_len(b: Seq<u8>, d: u8)
    ensures
        split_bytes(b, d).len() >= 1,
    decreases b.len(),
{
    if b.len() > 0 {
        lemma_split_len(b.drop_last(), d);
    }
}

/// Split a string at each occurrence of an ASCII byte, as `str::split`
/// does with that character.
pub fn split_str(s: &str, d: u8) -> (r: Vec<&str>)
    requires
        d < 128,
    ensures
        r@.len() == split_bytes(s.spec_bytes(), d).len(),
        forall|i: int|
            0 <= i < r@.len() ==> (#[trigger] r@[i]).spec_bytes() == split_bytes(
                s.spec_bytes(),
                d,
            )[i],
{
    let bytes = s.as_bytes();
    let ghost b = bytes@;
    proof {
        vstd::utf8::encode_utf8_valid_utf8(s@);
        vstd::utf8::is_char_boundary_start_end_of_seq(b);
    }
    let mut pieces: Vec<&str> = Vec::new();
    let mut start: usize = 0;
    let mut i: usize = 0;
    while i < bytes.len()
        invariant
            b == bytes@,
            b == s.spec_bytes(),
            vstd::utf8::valid_utf8(b),
            start <= i <= b.len(),
            vstd::utf8::is_char_boundary(b, start as int),
            d < 128,
            split_bytes(b.take(i as int), d).len() == pieces@.len() + 1,
            forall|k: int|
                0 <= k < pieces@.len() ==> (#[trigger] pieces@[k]).spec_bytes() == split_bytes(
                    b.take(i as int),
                    d,
                )[k],
            split_bytes(b.take(i as int), d).last() == b.subrange(start as int, i as int),
        decreases b.len() - i,
    {
        assert(b.take(i + 1).drop_last() =~= b.take(i as int));
        if bytes[i] == d {
            proof {
                lemma_ascii_boundary(b, i as int);
            }
            let (left, _) = s.split_at(i);
            proof {
                lemma_boundary_prefix(b, i as int, start as int);
            }
            let (_, piece) = left.split_at(start);
            assert(piece.spec_bytes() =~= b.subrange(start as int, i as int));
            pieces.push(piece);
            start = i + 1;
        } else {
            assert(b.subrange(start as int, i + 1) =~= b.subrange(start as int, i as int).push(b[i as int]));
        }
        i = i + 1;
    }
    assert(b.take(i as int) =~= b);
    let (_, last) = s.split_at(start);
    assert(last.spec_bytes() =~= b.subrange(start as int, b.len() as int));
    pieces.push(last);
    pieces
}

/// The Unicode `White_Space` property of a character, which
/// `char::is_whitespace` tests: the controls from tab to carriage return,
/// space, next line, no-break space, Ogham space mark, the spaces from en
/// quad to hair space, line and paragraph separator, narrow no-break space,
/// medium mathematical space and ideographic space.
pub open spec fn white_space(c: char) -> bool {
    let n = c as u32;
    ||| 0x09 <= n <= 0x0D
    ||| n == 0x20
    ||| n == 0x85
    ||| n == 0xA0
    ||| n == 0x1680
    ||| 0x2000 <= n <= 0x200A
    ||| n == 0x2028
    ||| n == 0x2029
    ||| n == 0x202F
    ||| n == 0x205F
    ||| n == 0x3000
}

/// A string without its leading whitespace.
pub open spec fn trim_start_ws(s: Seq<char>) -> Seq<char>
    decreases s.len(),
{
    if s.len() > 0 && white_space(s[0]) {
        trim_start_ws(s.drop_first())
    } else {
        s
    }
}

/// A string without its trailing whitespace.
pub open spec fn trim_end_ws(s: Seq<char>) -> Seq<char>
    decreases s.len(),
{
    if s.len() > 0 && white_space(s.last()) {
        trim_end_ws(s.drop_last())
    } else {
        s
    }
}

/// A string without its leading and trailing whitespace.
pub open spec fn trimmed(s: Seq<char>) -> Seq<char> {
    trim_end_ws(trim_start_ws(s))
}

/// `str::trim`: the string with leading and trailing whitespace removed,
/// whitespace being the characters of the Unicode `White_Space` property.
#[verifier::external_body]
pub(crate) fn trim(s: &str) -> (r: &str)
    ensures
        r@ == trimmed(s@),
        r@.len() > 0 ==> !white_space(r@[0]) && !white_space(r@.last()),
{
    s.trim()
}

/// A byte sequence without the leading bytes equal to `c`.
pub open spec fn strip_start(b: Seq<u8>, c: u8) -> Seq<u8>
    decreases b.len(),
{
    if b.len() > 0 && b[0] == c {
        strip_start(b.drop_first(), c)
    } else {
        b
    }
}

/// A byte sequence without the trailing bytes equal to `c`.
pub open spec fn strip_end(b: Seq<u8>, c: u8) -> Seq<u8>
    decreases b.len(),
{
    if b.len() > 0 && b.last() == c {
        strip_end(b.drop_last(), c)
    } else {
        b
    }
}

/// A string without the leading and trailing occurrences of an ASCII
/// character (as `str::trim_matches` with that character).
pub fn trim_matches(s: &str, c: u8) -> (r: &str)
    requires
        c < 128,
    ensures
        r.spec_bytes() == strip_end(strip_start(s.spec_bytes(), c), c),
{
    let bytes = s.as_bytes();
    let ghost b = bytes@;
    proof {
        vstd::utf8::encode_utf8_valid_utf8(s@);
        vstd::utf8::is_char_boundary_start_end_of_seq(b);
    }
    let mut a: usize = 0;
    assert(b.skip(0) =~= b);
    while a < bytes.len() && bytes[a] == c
        invariant
            b == bytes@,
            a <= b.len(),
            a > 0 ==> b[a - 1] == c,
            strip_start(b, c) == strip_start(b.skip(a as int), c),
        decreases b.len() - a,
    {
        assert(b.skip(a as int).drop_first() =~= b.skip(a + 1));
        a = a + 1;
    }
    let ghost mid = b.skip(a as int);
    assert(strip_start(b, c) == mid);
    let mut z: usize = bytes.len();
    assert(b.subrange(a as int, z as int) =~= mid);
    while z > a && bytes[z - 1] == c
        invariant
            b == bytes@,
            a <= z <= b.len(),
            z < b.len() ==> b[z as int] == c,
            mid == b.skip(a as int),
            strip_end(mid, c) == strip_end(b.subrange(a as int, z as int), c),
        decreases z,
    {
        assert(b.subrange(a as int, z as int).drop_last() =~= b.subrange(a as int, z - 1));
        z = z - 1;
    }
    assert(strip_end(mid, c) == b.subrange(a as int, z as int));
    proof {
        if a > 0 {
            lemma_ascii_boundary(b, a - 1);
        }
        if z < b.len() {
            lemma_ascii_boundary(b, z as int);
        }
    }
    let (left, _) = s.split_at(z);
    proof {
        lemma_boundary_prefix(b, z as int, a as int);
    }
    let (_, r) = left.split_at(a);
    assert(r.spec_bytes() =~= b.subrange(a as int, z as int));
    r
}

/// Split a byte slice at each occurrence of a byte.
pub fn split_slice(v: &[u8], d: u8) -> (r: Vec<&[u8]>)
    ensures
        r@.len() == split_bytes(v@, d).len(),
        forall|i: int| 0 <= i < r@.len() ==> (#[trigger] r@[i])@ == split_bytes(v@, d)[i],
{
    let mut pieces: Vec<&[u8]> = Vec::new();
    let mut start: usize = 0;
    let mut i: usize = 0;
    while i < v.len()
        invariant
            start <= i <= v@.len(),
            split_bytes(v@.take(i as int), d).len() == pieces@.len() + 1,
            forall|k: int|
                0 <= k < pieces@.len() ==> (#[trigger] pieces@[k])@ == split_bytes(
                    v@.take(i as int),
                    d,
                )[k],
            split_bytes(v@.take(i as int), d).last() == v@.subrange(start as int, i as int),
        decreases v@.len() - i,
    {
        assert(v@.take(i + 1).drop_last() =~= v@.take(i as int));
        if v[i] == d {
            let piece = vstd::slice::slice_subrange(v, start, i);
            pieces.push(piece);
            start = i + 1;
        } else {
            assert(v@.subrange(start as int, i + 1) =~= v@.subrange(start as int, i as int).push(
                v@[i as int],
            ));
        }
        i = i + 1;
    }
    assert(v@.take(i as int) =~= v@);
    let last = vstd::slice::slice_subrange(v, start, v.len());
    pieces.push(last);
    pieces
}

/// ASCII bytes are valid UTF-8.
pub proof fn lemma_ascii_valid_utf8(b: Seq<u8>)
    requires
        forall|i: int| 0 <= i < b.len() ==> #[trigger] b[i] < 128,
    ensures
        vstd::utf8::valid_utf8(b),
    decreases b.len(),
{
    reveal_with_fuel(vstd::utf8::valid_utf8, 2);
    if b.len() > 0 {
        let rest = vstd::utf8::pop_first_scalar(b);
        assert(rest =~= b.skip(1));
        assert forall|i: int| 0 <= i < rest.len() implies #[trigger] rest[i] < 128 by {
            assert(rest[i] == b[i + 1]);
        }
        lemma_ascii_valid_utf8(rest);
    }
}

// Hex dumps //////////////////////////////////////////////////////////////////

/// The lower-case hex digit of a number below 16.
pub open spec fn hex_digit(n: u8) -> char {
    "0123456789abcdef"@[n as int]
}

/// A byte as a hex dump shows it: a space, `0x` and two lower-case hex
/// digits.
pub open spec fn hex_byte(b: u8) -> Seq<char> {
    " 0x"@ + seq![hex_digit(b / 16), hex_digit(b % 16)]
}

/// The hex dump of some bytes, byte after byte.
pub open spec fn hex_bytes(s: Seq<u8>) -> Seq<char>
    decreases s.len(),
{
    if s.len() == 0 {
        Seq::empty()
    } else {
        hex_bytes(s.drop_last()) + hex_byte(s.last())
    }
}

/// A hex dump of a buffer: `buf: [`, each byte as ` 0x..`, and ` ]`.
pub fn as_hex(buf: &[u8]) -> (r: String)
    ensures
        r@ == "buf: ["@ + hex_bytes(buf@) + " ]"@,
{
    let digits = "0123456789abcdef";
    proof {
        reveal_strlit("0123456789abcdef");
    }
    assert(digits.is_ascii());
    let mut hexy = String::from_str("buf: [");
    let mut i: usize = 0;
    while i < buf.len()
        invariant
            i <= buf@.len(),
            digits@ == "0123456789abcdef"@,
            digits@.len() == 16,
            digits.is_ascii(),
            hexy@ == "buf: ["@ + hex_bytes(buf@.take(i as int)),
        decreases buf@.len() - i,
    {
        let b = buf[i];
        let hi = (b / 16) as usize;
        let lo = (b % 16) as usize;
        hexy.append(" 0x");
        hexy.append(digits.substring_ascii(hi, hi + 1));
        hexy.append(digits.substring_ascii(lo, lo + 1));
        assert(buf@.take(i + 1).drop_last() =~= buf@.take(i as int));
        assert(hexy@ =~= "buf: ["@ + hex_bytes(buf@.take(i + 1)));
        i = i + 1;
    }
    assert(buf@.take(i as int) =~= buf@);
    hexy.append(" ]");
    hexy
}

} // verus!
