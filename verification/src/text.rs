//! Text building blocks: decimal rendering of integers, the escaping of
//! string and byte-string literals, comparison and search, and the syntax
//! of names.

use vstd::prelude::*;

verus! {

/// `String::push` appends exactly one character to the end of the string.
pub assume_specification[ String::push ](s: &mut String, ch: char)
    ensures
        final(s)@ == old(s)@.push(ch),
;

/// The character that stands for the decimal digit `d`.
pub open spec fn digit_char(d: int) -> char
    recommends
        0 <= d < 10,
{
    if d == 0 {
        '0'
    } else if d == 1 {
        '1'
    } else if d == 2 {
        '2'
    } else if d == 3 {
        '3'
    } else if d == 4 {
        '4'
    } else if d == 5 {
        '5'
    } else if d == 6 {
        '6'
    } else if d == 7 {
        '7'
    } else if d == 8 {
        '8'
    } else {
        '9'
    }
}

/// The character that stands for the hexadecimal digit `d`, in lower case.
pub open spec fn hex_char(d: int) -> char
    recommends
        0 <= d < 16,
{
    if d < 10 {
        digit_char(d)
    } else if d == 10 {
        'a'
    } else if d == 11 {
        'b'
    } else if d == 12 {
        'c'
    } else if d == 13 {
        'd'
    } else if d == 14 {
        'e'
    } else {
        'f'
    }
}

/// Decimal digits of a natural number, most significant first, without
/// leading zeros (zero itself is `"0"`).
pub open spec fn nat_decimal(n: nat) -> Seq<char>
    decreases n,
{
    if n < 10 {
        seq![digit_char(n as int)]
    } else {
        nat_decimal(n / 10).push(digit_char((n % 10) as int))
    }
}

/// Decimal text of an integer: a minus sign for negative numbers, then the
/// digits of its magnitude.
pub open spec fn int_decimal(i: int) -> Seq<char> {
    if i < 0 {
        seq!['-'] + nat_decimal((-i) as nat)
    } else {
        nat_decimal(i as nat)
    }
}

/// Whether `c` is one of the ten decimal digits.
pub open spec fn is_digit(c: char) -> bool {
    '0' <= c && c <= '9'
}

fn digit_of(d: u64) -> (c: char)
    requires
        d < 10,
    ensures
        c == digit_char(d as int),
        is_digit(c),
{
    if d == 0 {
        '0'
    } else if d == 1 {
        '1'
    } else if d == 2 {
        '2'
    } else if d == 3 {
        '3'
    } else if d == 4 {
        '4'
    } else if d == 5 {
        '5'
    } else if d == 6 {
        '6'
    } else if d == 7 {
        '7'
    } else if d == 8 {
        '8'
    } else {
        '9'
    }
}

fn hex_digit_of(d: u8) -> (c: char)
    requires
        d < 16,
    ensures
        c == hex_char(d as int),
{
    if d < 10 {
        digit_of(d as u64)
    } else if d == 10 {
        'a'
    } else if d == 11 {
        'b'
    } else if d == 12 {
        'c'
    } else if d == 13 {
        'd'
    } else if d == 14 {
        'e'
    } else {
        'f'
    }
}

/// Appends the decimal digits of `n` to `out`.
pub fn push_nat_decimal(out: &mut String, n: u64)
    ensures
        final(out)@ == old(out)@ + nat_decimal(n as nat),
    decreases n,
{
    if n < 10 {
        out.push(digit_of(n));
    } else {
        push_nat_decimal(out, n / 10);
        out.push(digit_of(n % 10));
    }
}

/// Appends the decimal text of `value` to `out`.
pub fn push_int_decimal(out: &mut String, value: i64)
    ensures
        final(out)@ == old(out)@ + int_decimal(value as int),
{
    if value < 0 {
        out.push('-');
        let magnitude: u64 = (-(value + 1)) as u64 + 1;
        push_nat_decimal(out, magnitude);
    } else {
        push_nat_decimal(out, value as u64);
    }
}

/// What one character of a string literal becomes between double quotes:
/// the quote and the backslash gain a backslash, line feed, carriage return
/// and tab turn into their two-character escapes, and every other character
/// stands for itself.
pub open spec fn escaped_char(c: char) -> Seq<char> {
    if c == '"' {
        seq!['\\', '"']
    } else if c == '\\' {
        seq!['\\', '\\']
    } else if c == '\n' {
        seq!['\\', 'n']
    } else if c == '\r' {
        seq!['\\', 'r']
    } else if c == '\t' {
        seq!['\\', 't']
    } else {
        seq![c]
    }
}

/// The escapes of the characters of `s`, in order.
pub open spec fn escaped_text(s: Seq<char>) -> Seq<char>
    decreases s.len(),
{
    if s.len() == 0 {
        Seq::empty()
    } else {
        escaped_text(s.drop_last()) + escaped_char(s.last())
    }
}

/// Whether the byte is a visible ASCII character (`!` to `~`).
pub open spec fn is_graphic(b: u8) -> bool {
    0x21 <= b && b <= 0x7e
}

/// What one byte of a byte-string literal becomes between double quotes: a
/// visible ASCII character other than the quote and the backslash stands
/// for itself, every other byte is written as `\x` and two lower-case
/// hexadecimal digits.
pub open spec fn escaped_byte(b: u8) -> Seq<char> {
    if is_graphic(b) && b != 0x22 && b != 0x5c {
        seq![b as char]
    } else {
        seq!['\\', 'x', hex_char((b / 16) as int), hex_char((b % 16) as int)]
    }
}

/// The escapes of the bytes of `bytes`, in order.
pub open spec fn escaped_bytes(bytes: Seq<u8>) -> Seq<char>
    decreases bytes.len(),
{
    if bytes.len() == 0 {
        Seq::empty()
    } else {
        escaped_bytes(bytes.drop_last()) + escaped_byte(bytes.last())
    }
}

/// Appends the escape of `c` to `out`.
fn push_escaped_char(out: &mut String, c: char)
    ensures
        final(out)@ == old(out)@ + escaped_char(c),
{
    if c == '"' {
        out.push('\\');
        out.push('"');
    } else if c == '\\' {
        out.push('\\');
        out.push('\\');
    } else if c == '\n' {
        out.push('\\');
        out.push('n');
    } else if c == '\r' {
        out.push('\\');
        out.push('r');
    } else if c == '\t' {
        out.push('\\');
        out.push('t');
    } else {
        out.push(c);
    }
}

/// Appends the escape of `b` to `out`.
fn push_escaped_byte(out: &mut String, b: u8)
    ensures
        final(out)@ == old(out)@ + escaped_byte(b),
{
    if 0x21 <= b && b <= 0x7e && b != 0x22 && b != 0x5c {
        out.push(b as char);
    } else {
        out.push('\\');
        out.push('x');
        out.push(hex_digit_of(b / 16));
        out.push(hex_digit_of(b % 16));
    }
}

/// Appends the characters of `s`, escaped for a string literal, to `out`.
pub fn push_escaped_text(out: &mut String, s: &str)
    ensures
        final(out)@ == old(out)@ + escaped_text(s@),
{
    let ghost before = out@;
    for c in it: s.chars()
        invariant
            it.seq() == s@,
            out@ == before + escaped_text(s@.take(it.index())),
    {
        proof {
            let i = it.index();
            assert(s@.take(i + 1).drop_last() == s@.take(i));
        }
        push_escaped_char(out, c);
    }
    proof {
        assert(s@.take(s@.len() as int) == s@);
    }
}

/// Appends the bytes of `bytes`, escaped for a byte-string literal, to
/// `out`.
pub fn push_escaped_bytes(out: &mut String, bytes: &[u8])
    ensures
        final(out)@ == old(out)@ + escaped_bytes(bytes@),
{
    let ghost before = out@;
    let mut i: usize = 0;
    while i < bytes.len()
        invariant
            i <= bytes.len(),
            out@ == before + escaped_bytes(bytes@.take(i as int)),
        decreases bytes.len() - i,
    {
        proof {
            assert(bytes@.take(i + 1).drop_last() == bytes@.take(i as int));
        }
        push_escaped_byte(out, bytes[i]);
        i += 1;
    }
    proof {
        assert(bytes@.take(bytes@.len() as int) == bytes@);
    }
}

/// The text of a string literal's content, escaped.
pub fn escape_string(s: &str) -> (out: String)
    ensures
        out@ == escaped_text(s@),
{
    let mut out = String::new();
    push_escaped_text(&mut out, s);
    out
}

/// The text of a byte-string literal's content, escaped.
pub fn escape_bytes(bytes: &[u8]) -> (out: String)
    ensures
        out@ == escaped_bytes(bytes@),
{
    let mut out = String::new();
    push_escaped_bytes(&mut out, bytes);
    out
}

/// The characters of `s`, in order.
pub fn chars_of(s: &str) -> (chars: Vec<char>)
    ensures
        chars@ == s@,
{
    let mut chars: Vec<char> = Vec::new();
    for c in it: s.chars()
        invariant
            it.seq() == s@,
            chars@ == s@.take(it.index()),
    {
        proof {
            let i = it.index();
            assert(s@.take(i + 1) == s@.take(i).push(s@[i]));
        }
        chars.push(c);
    }
    proof {
        assert(s@.take(s@.len() as int) == s@);
    }
    chars
}

/// Whether the two texts hold the same characters.
pub fn same_text(a: &str, b: &str) -> (same: bool)
    ensures
        same == (a@ == b@),
{
    let left = chars_of(a);
    let right = chars_of(b);
    if left.len() != right.len() {
        return false;
    }
    let mut i: usize = 0;
    while i < left.len()
        invariant
            i <= left.len(),
            left.len() == right.len(),
            left@ == a@,
            right@ == b@,
            a@.take(i as int) == b@.take(i as int),
        decreases left.len() - i,
    {
        if left[i] != right[i] {
            return false;
        }
        proof {
            assert(a@.take(i + 1) == a@.take(i as int).push(a@[i as int]));
            assert(b@.take(i + 1) == b@.take(i as int).push(b@[i as int]));
        }
        i += 1;
    }
    proof {
        assert(a@.take(a@.len() as int) == a@);
        assert(b@.take(b@.len() as int) == b@);
    }
    true
}

/// Whether `needle` occurs in `text` at position `at`.
pub open spec fn occurs_at(text: Seq<char>, needle: Seq<char>, at: int) -> bool {
    &&& 0 <= at
    &&& at + needle.len() <= text.len()
    &&& text.subrange(at, at + needle.len()) == needle
}

/// Whether `needle` occurs somewhere in `text`.
pub open spec fn contains_text(text: Seq<char>, needle: Seq<char>) -> bool {
    exists|at: int| occurs_at(text, needle, at)
}

/// Whether `needle` occurs somewhere in `text`.
pub fn contains(text: &str, needle: &str) -> (found: bool)
    ensures
        found == contains_text(text@, needle@),
{
    let hay = chars_of(text);
    let pin = chars_of(needle);
    if pin.len() > hay.len() {
        assert forall|at: int| !occurs_at(text@, needle@, at) by {}
        return false;
    }
    let last: usize = hay.len() - pin.len();
    let mut at: usize = 0;
    while at <= last
        invariant
            at <= last + 1,
            last == hay.len() - pin.len(),
            hay@ == text@,
            pin@ == needle@,
            forall|k: int| 0 <= k < at ==> !occurs_at(text@, needle@, k),
        decreases last + 1 - at,
    {
        let mut j: usize = 0;
        while j < pin.len() && hay[at + j] == pin[j]
            invariant
                j <= pin.len(),
                at <= last,
                last == hay.len() - pin.len(),
                hay@ == text@,
                pin@ == needle@,
                text@.subrange(at as int, at + j) == needle@.take(j as int),
            decreases pin.len() - j,
        {
            proof {
                assert(text@.subrange(at as int, at + j + 1) == text@.subrange(
                    at as int,
                    at + j,
                ).push(text@[at + j]));
                assert(needle@.take(j + 1) == needle@.take(j as int).push(needle@[j as int]));
            }
            j += 1;
        }
        if j == pin.len() {
            proof {
                assert(needle@.take(j as int) == needle@);
                assert(occurs_at(text@, needle@, at as int));
            }
            return true;
        }
        proof {
            assert(!occurs_at(text@, needle@, at as int)) by {
                if occurs_at(text@, needle@, at as int) {
                    assert(text@.subrange(at as int, at + needle@.len())[j as int]
                        == needle@[j as int]);
                }
            }
        }
        at += 1;
    }
    proof {
        assert forall|k: int| !occurs_at(text@, needle@, k) by {}
    }
    false
}

/// Whether `c` may start a name.
pub open spec fn is_name_start(c: char) -> bool {
    ('a' <= c && c <= 'z') || ('A' <= c && c <= 'Z') || c == '_'
}

/// Whether `name` can be written as a function name: a letter or an
/// underscore, then letters, digits and underscores.
pub open spec fn is_identifier(name: Seq<char>) -> bool {
    &&& name.len() > 0
    &&& is_name_start(name[0])
    &&& forall|i: int| 0 < i < name.len() ==> is_name_start(#[trigger] name[i]) || is_digit(name[i])
}

/// Whether `c` may start a name.
pub fn name_start(c: char) -> (yes: bool)
    ensures
        yes == is_name_start(c),
{
    ('a' <= c && c <= 'z') || ('A' <= c && c <= 'Z') || c == '_'
}

/// Whether `c` is a decimal digit.
pub fn digit(c: char) -> (yes: bool)
    ensures
        yes == is_digit(c),
{
    '0' <= c && c <= '9'
}

/// Whether `name` can be written as a function name.
pub fn identifier(name: &str) -> (yes: bool)
    ensures
        yes == is_identifier(name@),
{
    let chars = chars_of(name);
    if chars.len() == 0 || !name_start(chars[0]) {
        return false;
    }
    let mut i: usize = 1;
    while i < chars.len()
        invariant
            1 <= i <= chars.len(),
            chars@ == name@,
            forall|j: int| 0 < j < i ==> is_name_start(#[trigger] name@[j]) || is_digit(name@[j]),
        decreases chars.len() - i,
    {
        if !name_start(chars[i]) && !digit(chars[i]) {
            return false;
        }
        i += 1;
    }
    true
}

} // verus!
