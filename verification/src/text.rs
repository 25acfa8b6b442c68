//! Character-level helpers shared by the rest of the crate.

use vstd::prelude::*;
use vstd::slice::*;
use vstd::std_specs::iter::IteratorSpec;
use vstd::string::{StringExecFns, StringSliceAdditionalSpecFns};
use vstd::utf8::*;

verus! {

/// Collects the characters of `s` into a vector.
pub fn chars_of(s: &str) -> (out: Vec<char>)
    ensures
        out@ == s@,
{
    let mut out: Vec<char> = Vec::new();
    for c in it: s.chars()
        invariant
            it.seq() == s@,
            out@ == it.seq().take(it.index()),
    {
        out.push(c);
    }
    out
}

/// Builds a string from a sequence of characters.
pub fn string_of(chars: &Vec<char>) -> (out: String)
    ensures
        out@ == chars@,
{
    let mut out = String::new();
    let mut i: usize = 0;
    while i < chars.len()
        invariant
            i <= chars.len(),
            out@ == chars@.subrange(0, i as int),
        decreases chars.len() - i,
    {
        out.push(chars[i]);
        i += 1;
    }
    out
}

/// The character that writes the digit `d` in bases up to sixteen, lower case.
pub open spec fn digit_char(d: int) -> char {
    if d == 0 {
        '0'
    } else if d == 1 {
        '1'
    } else if d == 2 {
        '2'
    } else if d == 3 {
        '3'
    } else if d == 4 {
        '4'
    } else if d == 5 {
        '5'
    } else if d == 6 {
        '6'
    } else if d == 7 {
        '7'
    } else if d == 8 {
        '8'
    } else if d == 9 {
        '9'
    } else if d == 10 {
        'a'
    } else if d == 11 {
        'b'
    } else if d == 12 {
        'c'
    } else if d == 13 {
        'd'
    } else if d == 14 {
        'e'
    } else {
        'f'
    }
}

/// The value of a decimal digit character, if it is one.
pub open spec fn digit_value(c: char) -> Option<int> {
    if c == '0' {
        Some(0)
    } else if c == '1' {
        Some(1)
    } else if c == '2' {
        Some(2)
    } else if c == '3' {
        Some(3)
    } else if c == '4' {
        Some(4)
    } else if c == '5' {
        Some(5)
    } else if c == '6' {
        Some(6)
    } else if c == '7' {
        Some(7)
    } else if c == '8' {
        Some(8)
    } else if c == '9' {
        Some(9)
    } else {
        None
    }
}

/// The decimal numeral of `n`, without sign or leading zeros.
pub open spec fn decimal(n: nat) -> Seq<char>
    decreases n,
{
    if n < 10 {
        seq![digit_char(n as int)]
    } else {
        decimal(n / 10).push(digit_char((n % 10) as int))
    }
}

/// The decimal numeral of a signed number: a minus sign when negative.
pub open spec fn signed_decimal(n: int) -> Seq<char> {
    if n < 0 {
        seq!['-'] + decimal((-n) as nat)
    } else {
        decimal(n as nat)
    }
}

/// `n` written with at least two decimal digits.
pub open spec fn decimal_pad2(n: nat) -> Seq<char> {
    if n < 10 {
        seq!['0'] + decimal(n)
    } else {
        decimal(n)
    }
}

/// `n` written with at least three decimal digits.
pub open spec fn decimal_pad3(n: nat) -> Seq<char> {
    if n < 10 {
        seq!['0', '0'] + decimal(n)
    } else if n < 100 {
        seq!['0'] + decimal(n)
    } else {
        decimal(n)
    }
}

/// A byte as two lower-case hexadecimal digits.
pub open spec fn hex2(b: u8) -> Seq<char> {
    seq![digit_char(b as int / 16), digit_char(b as int % 16)]
}

/// The digit character for `d`.
pub fn digit_to_char(d: u8) -> (c: char)
    requires
        d < 16,
    ensures
        c == digit_char(d as int),
{
    if d == 0 {
        '0'
    } else if d == 1 {
        '1'
    } else if d == 2 {
        '2'
    } else if d == 3 {
        '3'
    } else if d == 4 {
        '4'
    } else if d == 5 {
        '5'
    } else if d == 6 {
        '6'
    } else if d == 7 {
        '7'
    } else if d == 8 {
        '8'
    } else if d == 9 {
        '9'
    } else if d == 10 {
        'a'
    } else if d == 11 {
        'b'
    } else if d == 12 {
        'c'
    } else if d == 13 {
        'd'
    } else if d == 14 {
        'e'
    } else {
        'f'
    }
}

/// Appends the decimal numeral of `v`.
pub fn push_decimal(out: &mut String, v: u64)
    ensures
        final(out)@ == old(out)@ + decimal(v as nat),
    decreases v,
{
    if v >= 10 {
        push_decimal(out, v / 10);
    }
    out.push(digit_to_char((v % 10) as u8));
}

/// Appends the decimal numeral of a signed number.
pub fn push_signed_decimal(out: &mut String, v: i64)
    ensures
        final(out)@ == old(out)@ + signed_decimal(v as int),
{
    if v < 0 {
        out.push('-');
        let m: u64 = if v == i64::MIN {
            9223372036854775808u64
        } else {
            (-v) as u64
        };
        push_decimal(out, m);
    } else {
        push_decimal(out, v as u64);
    }
}

/// Appends `v` with at least two decimal digits.
pub fn push_decimal_pad2(out: &mut String, v: u64)
    ensures
        final(out)@ == old(out)@ + decimal_pad2(v as nat),
{
    if v < 10 {
        out.push('0');
    }
    push_decimal(out, v);
}

/// Appends `v` with at least three decimal digits.
pub fn push_decimal_pad3(out: &mut String, v: u64)
    ensures
        final(out)@ == old(out)@ + decimal_pad3(v as nat),
{
    if v < 10 {
        out.push('0');
        out.push('0');
    } else if v < 100 {
        out.push('0');
    }
    push_decimal(out, v);
}

/// Appends a byte as two hexadecimal digits.
pub fn push_hex2(out: &mut String, b: u8)
    ensures
        final(out)@ == old(out)@ + hex2(b),
{
    out.push(digit_to_char(b / 16));
    out.push(digit_to_char(b % 16));
}

/// The decimal numeral of `v` as a string.
pub fn decimal_string(v: u64) -> (out: String)
    ensures
        out@ == decimal(v as nat),
{
    let mut out = String::new();
    push_decimal(&mut out, v);
    out
}

/// Tells whether two strings hold the same characters.
pub fn str_eq(a: &str, b: &str) -> (r: bool)
    ensures
        r == (a@ == b@),
{
    broadcast use encode_utf8_decode_utf8;

    let x = a.as_bytes();
    let y = b.as_bytes();
    if x.len() != y.len() {
        return false;
    }
    let mut i: usize = 0;
    while i < x.len()
        invariant
            i <= x.len(),
            x@.len() == y@.len(),
            x@ == encode_utf8(a@),
            y@ == encode_utf8(b@),
            forall|j: int| 0 <= j < i ==> x@[j] == y@[j],
        decreases x.len() - i,
    {
        if x[i] != y[i] {
            return false;
        }
        i += 1;
    }
    assert(x@ =~= y@);
    assert(decode_utf8(encode_utf8(a@)) == a@);
    assert(decode_utf8(encode_utf8(b@)) == b@);
    true
}

/// White space as `str::trim` and `str::split_whitespace` understand it:
/// the code points with the Unicode property `White_Space`.
pub open spec fn is_space(c: char) -> bool {
    let u = c as u32;
    (0x09 <= u && u <= 0x0D) || u == 0x20 || u == 0x85 || u == 0xA0 || u == 0x1680 || (0x2000
        <= u && u <= 0x200A) || u == 0x2028 || u == 0x2029 || u == 0x202F || u == 0x205F || u
        == 0x3000
}

/// Tells whether `c` is white space.
pub fn is_space_char(c: char) -> (r: bool)
    ensures
        r == is_space(c),
{
    let u: u32 = c as u32;
    (0x09 <= u && u <= 0x0D) || u == 0x20 || u == 0x85 || u == 0xA0 || u == 0x1680 || (0x2000
        <= u && u <= 0x200A) || u == 0x2028 || u == 0x2029 || u == 0x202F || u == 0x205F || u
        == 0x3000
}

/// `s` without its leading white space.
pub open spec fn trim_start(s: Seq<char>) -> Seq<char>
    decreases s.len(),
{
    if s.len() > 0 && is_space(s[0]) {
        trim_start(s.drop_first())
    } else {
        s
    }
}

/// `s` without its trailing white space.
pub open spec fn trim_end(s: Seq<char>) -> Seq<char>
    decreases s.len(),
{
    if s.len() > 0 && is_space(s.last()) {
        trim_end(s.drop_last())
    } else {
        s
    }
}

/// `s` without leading and trailing white space.
pub open spec fn trimmed(s: Seq<char>) -> Seq<char> {
    trim_end(trim_start(s))
}

/// Removes leading and trailing white space.
pub fn trim(s: &[char]) -> (out: &[char])
    ensures
        out@ == trimmed(s@),
{
    let n: usize = s.len();
    let mut a: usize = 0;
    assert(s@.skip(0) =~= s@);
    while a < n && is_space_char(s[a])
        invariant
            a <= n,
            n == s@.len(),
            trim_start(s@) == trim_start(s@.skip(a as int)),
        decreases n - a,
    {
        assert(s@.skip(a as int).drop_first() =~= s@.skip(a + 1));
        a += 1;
    }
    assert(trim_start(s@) == s@.skip(a as int));
    let mut b: usize = n;
    assert(s@.subrange(a as int, n as int) =~= s@.skip(a as int));
    while b > a && is_space_char(s[b - 1])
        invariant
            a <= b <= n,
            n == s@.len(),
            trimmed(s@) == trim_end(s@.subrange(a as int, b as int)),
        decreases b,
    {
        assert(s@.subrange(a as int, b as int).drop_last() =~= s@.subrange(a as int, b - 1));
        b -= 1;
    }
    slice_subrange(s, a, b)
}

/// The number that the decimal digits of `s` write, if all are digits; the
/// empty sequence writes zero.
pub open spec fn digits_value(s: Seq<char>) -> Option<nat>
    decreases s.len(),
{
    if s.len() == 0 {
        Some(0)
    } else {
        match (digits_value(s.drop_last()), digit_value(s.last())) {
            (Some(high), Some(d)) => Some(high * 10 + d as nat),
            _ => None,
        }
    }
}

/// What `str::parse::<u64>` accepts: an optional plus sign, then at least
/// one decimal digit, the number being at most `u64::MAX`.
pub open spec fn parse_u64_text(s: Seq<char>) -> Option<u64> {
    let digits = if s.len() > 0 && s[0] == '+' {
        s.drop_first()
    } else {
        s
    };
    digits_to_u64(digits)
}

/// The number that one or more decimal digits write, if it is at most
/// `u64::MAX`.
pub open spec fn digits_to_u64(digits: Seq<char>) -> Option<u64> {
    if digits.len() == 0 {
        None
    } else {
        match digits_value(digits) {
            Some(v) => if v <= u64::MAX {
                Some(v as u64)
            } else {
                None
            },
            None => None,
        }
    }
}

/// The value of a decimal digit character.
pub fn digit_of(c: char) -> (r: Option<u8>)
    ensures
        match r {
            Some(d) => digit_value(c) == Some(d as int) && d < 10,
            None => digit_value(c) is None,
        },
{
    if c >= '0' && c <= '9' {
        Some((c as u32 - '0' as u32) as u8)
    } else {
        None
    }
}

/// A number written by more digits is at least the number written by fewer.
pub proof fn lemma_digits_value_grows(s: Seq<char>, k: int)
    requires
        0 <= k <= s.len(),
        digits_value(s) is Some,
    ensures
        digits_value(s.take(k)) is Some,
        digits_value(s.take(k))->0 <= digits_value(s)->0,
    decreases s.len() - k,
{
    if k == s.len() {
        assert(s.take(k) =~= s);
    } else {
        lemma_digits_value_grows(s.drop_last(), k);
        assert(s.drop_last().take(k) =~= s.take(k));
    }
}

/// Reads an unsigned decimal number as `str::parse::<u64>` does.
pub fn parse_u64(s: &[char]) -> (r: Option<u64>)
    ensures
        r == parse_u64_text(s@),
{
    let n: usize = s.len();
    let start: usize = if n > 0 && s[0] == '+' {
        1
    } else {
        0
    };
    if start == n {
        return None;
    }
    let ghost digits = s@.skip(start as int);
    assert(digits =~= if s@.len() > 0 && s@[0] == '+' {
        s@.drop_first()
    } else {
        s@
    });
    let mut v: u64 = 0;
    let mut i: usize = start;
    assert(digits.take(0) =~= Seq::<char>::empty());
    while i < n
        invariant
            start <= i <= n,
            start < n,
            n == s@.len(),
            digits == s@.skip(start as int),
            parse_u64_text(s@) == digits_to_u64(digits),
            digits_value(digits.take(i - start)) == Some(v as nat),
        decreases n - i,
    {
        let ghost prefix = digits.take(i - start + 1);
        assert(prefix.drop_last() =~= digits.take(i - start));
        assert(prefix.last() == s@[i as int]);
        match digit_of(s[i]) {
            None => {
                proof {
                    assert(digits_value(prefix) is None);
                    if digits_value(digits) is Some {
                        lemma_digits_value_grows(digits, i - start + 1);
                    }
                }
                return None;
            },
            Some(d) => {
                assert(digits_value(prefix) == Some((v * 10 + d) as nat));
                if v > (u64::MAX - d as u64) / 10 {
                    proof {
                        if digits_value(digits) is Some {
                            lemma_digits_value_grows(digits, i - start + 1);
                        }
                    }
                    return None;
                }
                v = v * 10 + d as u64;
            },
        }
        i += 1;
    }
    assert(digits.take(n - start) =~= digits);
    Some(v)
}

/// The number of fields of `s`: its maximal runs of characters that are
/// not white space.
pub open spec fn field_count(s: Seq<char>) -> nat
    decreases s.len(),
{
    if s.len() == 0 {
        0
    } else {
        let starts_field = !is_space(s.last()) && (s.len() == 1 || is_space(s[s.len() - 2]));
        field_count(s.drop_last()) + if starts_field {
            1nat
        } else {
            0nat
        }
    }
}

/// Counts the fields that `str::split_whitespace` would yield.
pub fn count_fields(s: &[char]) -> (n: usize)
    ensures
        n == field_count(s@),
{
    let len: usize = s.len();
    let mut count: usize = 0;
    let mut i: usize = 0;
    assert(s@.take(0) =~= Seq::<char>::empty());
    while i < len
        invariant
            i <= len,
            len == s@.len(),
            count <= i,
            count == field_count(s@.take(i as int)),
        decreases len - i,
    {
        let ghost prefix = s@.take(i + 1);
        assert(prefix.drop_last() =~= s@.take(i as int));
        if !is_space_char(s[i]) && (i == 0 || is_space_char(s[i - 1])) {
            count += 1;
        }
        i += 1;
    }
    assert(s@.take(len as int) =~= s@);
    count
}

/// The fields of `s`, in order: its maximal runs of characters that are
/// not white space.
pub open spec fn fields(s: Seq<char>) -> Seq<Seq<char>>
    decreases s.len(),
{
    if s.len() == 0 {
        Seq::empty()
    } else {
        let before = fields(s.drop_last());
        if is_space(s.last()) {
            before
        } else if s.len() == 1 || is_space(s[s.len() - 2]) {
            before.push(seq![s.last()])
        } else {
            before.drop_last().push(before.last().push(s.last()))
        }
    }
}

/// There are as many fields as `field_count` says.
pub proof fn lemma_fields_counted(s: Seq<char>)
    ensures
        fields(s).len() == field_count(s),
    decreases s.len(),
{
    if s.len() > 0 {
        lemma_fields_counted(s.drop_last());
    }
}

/// Cuts `s` into its fields, as `str::split_whitespace` does.
pub fn split_fields(s: &[char]) -> (out: Vec<Vec<char>>)
    ensures
        texts(out@) == fields(s@),
{
    let mut parts: Vec<Vec<char>> = Vec::new();
    let mut current: Vec<char> = Vec::new();
    let mut in_field: bool = false;
    let mut i: usize = 0;
    assert(s@.take(0) =~= Seq::<char>::empty());
    while i < s.len()
        invariant
            i <= s.len(),
            in_field <==> i > 0 && !is_space(s@[i - 1]),
            in_field ==> fields(s@.take(i as int)) == texts(parts@).push(current@),
            !in_field ==> fields(s@.take(i as int)) == texts(parts@),
        decreases s.len() - i,
    {
        let ghost done = texts(parts@);
        let ghost cur = current@;
        let ghost prefix = s@.take(i + 1);
        assert(prefix.drop_last() =~= s@.take(i as int));
        assert(prefix.last() == s@[i as int]);
        if is_space_char(s[i]) {
            if in_field {
                parts.push(current);
                current = Vec::new();
                assert(texts(parts@) =~= done.push(cur));
            }
            in_field = false;
        } else {
            if in_field {
                current.push(s[i]);
                assert(done.push(cur).drop_last() =~= done);
            } else {
                current = Vec::new();
                current.push(s[i]);
                assert(current@ =~= seq![s@[i as int]]);
            }
            in_field = true;
        }
        i += 1;
    }
    assert(s@.take(s.len() as int) =~= s@);
    if in_field {
        let ghost done = texts(parts@);
        let ghost cur = current@;
        parts.push(current);
        assert(texts(parts@) =~= done.push(cur));
    }
    parts
}

/// Tells whether `s` starts with `prefix`.
pub open spec fn starts_with(s: Seq<char>, prefix: Seq<char>) -> bool {
    prefix.len() <= s.len() && s.take(prefix.len() as int) == prefix
}

/// Tells whether `needle` occurs in `s` at position `at`.
pub open spec fn occurs_at(s: Seq<char>, needle: Seq<char>, at: int) -> bool {
    0 <= at && at + needle.len() <= s.len() && s.subrange(at, at + needle.len()) == needle
}

/// Tells whether `needle` occurs in `s`.
pub open spec fn contains_text(s: Seq<char>, needle: Seq<char>) -> bool {
    exists|at: int| occurs_at(s, needle, at)
}

/// Tells whether `needle` occurs in `s` at position `at`.
pub fn matches_at(s: &[char], at: usize, needle: &[char]) -> (r: bool)
    requires
        at <= s@.len(),
    ensures
        r == occurs_at(s@, needle@, at as int),
{
    let n: usize = needle.len();
    if s.len() - at < n {
        return false;
    }
    let mut j: usize = 0;
    while j < n
        invariant
            j <= n,
            n == needle@.len(),
            at + n <= s.len(),
            forall|k: int| 0 <= k < j ==> s@[at + k] == needle@[k],
        decreases n - j,
    {
        if s[at + j] != needle[j] {
            assert(s@.subrange(at as int, at + n)[j as int] != needle@[j as int]);
            return false;
        }
        j += 1;
    }
    assert(s@.subrange(at as int, at + n) =~= needle@);
    true
}

/// Tells whether `s` starts with `prefix`.
pub fn has_prefix(s: &[char], prefix: &[char]) -> (r: bool)
    ensures
        r == starts_with(s@, prefix@),
{
    let r = matches_at(s, 0, prefix);
    proof {
        if prefix@.len() <= s@.len() {
            assert(s@.take(prefix@.len() as int) =~= s@.subrange(0, 0 + prefix@.len() as int));
        }
    }
    r
}

/// Tells whether `needle` occurs in `s`.
pub fn contains(s: &[char], needle: &[char]) -> (r: bool)
    ensures
        r == contains_text(s@, needle@),
{
    let n: usize = needle.len();
    if s.len() < n {
        return false;
    }
    let last: usize = s.len() - n;
    let mut i: usize = 0;
    while i < last
        invariant
            i <= last,
            last == s@.len() - needle@.len(),
            n == needle@.len(),
            forall|k: int| 0 <= k < i ==> !occurs_at(s@, needle@, k),
        decreases last - i,
    {
        if matches_at(s, i, needle) {
            return true;
        }
        i += 1;
    }
    matches_at(s, last, needle)
}

/// Copies a run of characters into a string.
pub fn string_of_slice(chars: &[char]) -> (out: String)
    ensures
        out@ == chars@,
{
    let mut out = String::new();
    let mut i: usize = 0;
    while i < chars.len()
        invariant
            i <= chars.len(),
            out@ == chars@.take(i as int),
        decreases chars.len() - i,
    {
        out.push(chars[i]);
        i += 1;
        assert(chars@.take(i as int) =~= chars@.take(i - 1).push(chars@[i - 1]));
    }
    assert(chars@.take(chars.len() as int) =~= chars@);
    out
}

/// Appends the decimal numeral of a number of up to 128 bits.
pub fn push_decimal_wide(out: &mut String, v: u128)
    ensures
        final(out)@ == old(out)@ + decimal(v as nat),
    decreases v,
{
    if v >= 10 {
        push_decimal_wide(out, v / 10);
    }
    out.push(digit_to_char((v % 10) as u8));
}

/// The number of bytes that `s` takes in UTF-8.
pub open spec fn byte_len(s: Seq<char>) -> nat {
    encode_utf8(s).len()
}

/// The longest prefix of `s` that takes at most `limit` bytes in UTF-8.
pub open spec fn byte_prefix(s: Seq<char>, limit: nat) -> Seq<char>
    decreases s.len(),
{
    if s.len() == 0 || encode_scalar(s[0] as u32).len() > limit {
        Seq::empty()
    } else {
        seq![s[0]] + byte_prefix(s.drop_first(), (limit - encode_scalar(s[0] as u32).len()) as nat)
    }
}

/// `s` cut to at most `max` bytes: `s` itself if it fits, else its longest
/// prefix of at most `max - 3` bytes followed by three dots.
pub open spec fn truncated(s: Seq<char>, max: nat) -> Seq<char>
    recommends
        max >= 3,
{
    if byte_len(s) <= max {
        s
    } else {
        byte_prefix(s, (max - 3) as nat) + "..."@
    }
}

/// The number of bytes that `c` takes in UTF-8.
pub fn char_width(c: char) -> (w: usize)
    ensures
        w == encode_scalar(c as u32).len(),
        1 <= w <= 4,
{
    let u: u32 = c as u32;
    if u < 0x80 {
        1
    } else if u < 0x800 {
        2
    } else if u < 0x10000 {
        3
    } else {
        4
    }
}

/// Cuts `s` to at most `max` bytes, never inside a character, marking the
/// cut with three dots.
pub fn truncate(s: &str, max: usize) -> (out: String)
    requires
        max >= 3,
    ensures
        out@ == truncated(s@, max as nat),
{
    if s.as_bytes().len() <= max {
        return String::from_str(s);
    }
    let chars = chars_of(s);
    let mut out = String::new();
    let mut room: usize = max - 3;
    let mut i: usize = 0;
    assert(chars@.skip(0) =~= chars@);
    while i < chars.len() && char_width(chars[i]) <= room
        invariant
            i <= chars.len(),
            byte_prefix(chars@, (max - 3) as nat) == out@ + byte_prefix(
                chars@.skip(i as int),
                room as nat,
            ),
        decreases chars.len() - i,
    {
        let ghost rest = chars@.skip(i as int);
        assert(rest[0] == chars@[i as int]);
        assert(rest.drop_first() =~= chars@.skip(i + 1));
        let ghost before = out@;
        room -= char_width(chars[i]);
        out.push(chars[i]);
        assert(out@ + byte_prefix(chars@.skip(i + 1), room as nat) =~= before + (seq![rest[0]]
            + byte_prefix(rest.drop_first(), room as nat)));
        i += 1;
    }
    proof {
        let rest = chars@.skip(i as int);
        if i < chars.len() {
            assert(rest[0] == chars@[i as int]);
        }
        assert(byte_prefix(rest, room as nat) =~= Seq::<char>::empty());
        assert(out@ + Seq::<char>::empty() =~= out@);
    }
    out.append("...");
    out
}

/// The number that one or more decimal digits write, if it is at most
/// `limit`.
pub open spec fn digits_bounded(digits: Seq<char>, limit: u64) -> Option<u64> {
    if digits.len() == 0 {
        None
    } else {
        match digits_value(digits) {
            Some(v) => if v <= limit {
                Some(v as u64)
            } else {
                None
            },
            None => None,
        }
    }
}

/// Reads one or more decimal digits as a number of at most `limit`.
pub fn parse_digits(s: &[char], limit: u64) -> (r: Option<u64>)
    ensures
        r == digits_bounded(s@, limit),
{
    let n: usize = s.len();
    if n == 0 {
        return None;
    }
    let mut v: u64 = 0;
    let mut i: usize = 0;
    assert(s@.take(0) =~= Seq::<char>::empty());
    while i < n
        invariant
            i <= n,
            0 < n,
            n == s@.len(),
            v <= limit,
            digits_value(s@.take(i as int)) == Some(v as nat),
        decreases n - i,
    {
        let ghost prefix = s@.take(i + 1);
        assert(prefix.drop_last() =~= s@.take(i as int));
        assert(prefix.last() == s@[i as int]);
        match digit_of(s[i]) {
            None => {
                proof {
                    assert(digits_value(prefix) is None);
                    if digits_value(s@) is Some {
                        lemma_digits_value_grows(s@, i + 1);
                    }
                }
                return None;
            },
            Some(d) => {
                assert(digits_value(prefix) == Some((v * 10 + d) as nat));
                if d as u64 > limit || v > (limit - d as u64) / 10 {
                    proof {
                        if digits_value(s@) is Some {
                            lemma_digits_value_grows(s@, i + 1);
                        }
                    }
                    return None;
                }
                v = v * 10 + d as u64;
            },
        }
        i += 1;
    }
    assert(s@.take(n as int) =~= s@);
    Some(v)
}

/// What `str::parse::<u32>` accepts: an optional plus sign, then at least
/// one decimal digit, the number being at most `u32::MAX`.
pub open spec fn parse_u32_text(s: Seq<char>) -> Option<u32> {
    let digits = if s.len() > 0 && s[0] == '+' {
        s.drop_first()
    } else {
        s
    };
    match digits_bounded(digits, u32::MAX as u64) {
        Some(v) => Some(v as u32),
        None => None,
    }
}

/// What `str::parse::<i32>` accepts: an optional sign, then at least one
/// decimal digit, the number lying between `i32::MIN` and `i32::MAX`.
pub open spec fn parse_i32_text(s: Seq<char>) -> Option<i32> {
    if s.len() > 0 && s[0] == '-' {
        match digits_bounded(s.drop_first(), 2147483648) {
            Some(v) => Some((0 - v) as i32),
            None => None,
        }
    } else {
        let digits = if s.len() > 0 && s[0] == '+' {
            s.drop_first()
        } else {
            s
        };
        match digits_bounded(digits, 2147483647) {
            Some(v) => Some(v as i32),
            None => None,
        }
    }
}

/// Reads an unsigned decimal number as `str::parse::<u32>` does.
pub fn parse_u32(s: &[char]) -> (r: Option<u32>)
    ensures
        r == parse_u32_text(s@),
{
    let digits: &[char] = if s.len() > 0 && s[0] == '+' {
        slice_subrange(s, 1, s.len())
    } else {
        s
    };
    assert(digits@ =~= if s@.len() > 0 && s@[0] == '+' {
        s@.drop_first()
    } else {
        s@
    });
    match parse_digits(digits, 4294967295) {
        Some(v) => Some(v as u32),
        None => None,
    }
}

/// Reads a signed decimal number as `str::parse::<i32>` does.
pub fn parse_i32(s: &[char]) -> (r: Option<i32>)
    ensures
        r == parse_i32_text(s@),
{
    if s.len() > 0 && s[0] == '-' {
        let digits = slice_subrange(s, 1, s.len());
        assert(digits@ =~= s@.drop_first());
        match parse_digits(digits, 2147483648) {
            Some(v) => Some((0 - v as i64) as i32),
            None => None,
        }
    } else {
        let digits: &[char] = if s.len() > 0 && s[0] == '+' {
            slice_subrange(s, 1, s.len())
        } else {
            s
        };
        assert(digits@ =~= if s@.len() > 0 && s@[0] == '+' {
            s@.drop_first()
        } else {
            s@
        });
        match parse_digits(digits, 2147483647) {
            Some(v) => Some(v as i32),
            None => None,
        }
    }
}

/// An ASCII capital letter as its small letter; any other character as it
/// is.
pub open spec fn ascii_lower(c: char) -> char {
    if 'A' <= c && c <= 'Z' {
        ((c as u32) + 32) as char
    } else {
        c
    }
}

/// Whether two texts are equal but for the case of their ASCII letters.
pub open spec fn eq_ignore_case(a: Seq<char>, b: Seq<char>) -> bool {
    a.len() == b.len() && forall|i: int|
        0 <= i < a.len() ==> ascii_lower(#[trigger] a[i]) == ascii_lower(b[i])
}

/// An ASCII capital letter as its small letter.
pub fn to_ascii_lower(c: char) -> (r: char)
    ensures
        r == ascii_lower(c),
{
    if c >= 'A' && c <= 'Z' {
        let u: u32 = c as u32 + 32;
        proof {
            assert(0x61 <= u <= 0x7a);
        }
        char_of_ascii(u as u8)
    } else {
        c
    }
}

/// The character with the given ASCII code.
fn char_of_ascii(b: u8) -> (c: char)
    requires
        b < 128,
    ensures
        c as u32 == b as u32,
        c == (b as u32) as char,
{
    b as char
}

/// Tells whether two texts are equal but for the case of ASCII letters.
pub fn equals_ignore_case(a: &[char], b: &[char]) -> (r: bool)
    ensures
        r == eq_ignore_case(a@, b@),
{
    if a.len() != b.len() {
        return false;
    }
    let mut i: usize = 0;
    while i < a.len()
        invariant
            i <= a.len(),
            a@.len() == b@.len(),
            forall|j: int| 0 <= j < i ==> ascii_lower(#[trigger] a@[j]) == ascii_lower(b@[j]),
        decreases a.len() - i,
    {
        if to_ascii_lower(a[i]) != to_ascii_lower(b[i]) {
            return false;
        }
        i += 1;
    }
    true
}

/// The pieces into which the separator `sep` cuts `s`, as `str::split`
/// yields them: one more than there are separators, empty pieces included.
pub open spec fn pieces(s: Seq<char>, sep: char) -> Seq<Seq<char>>
    decreases s.len(),
{
    if s.len() == 0 {
        seq![Seq::empty()]
    } else {
        let before = pieces(s.drop_last(), sep);
        if s.last() == sep {
            before.push(Seq::empty())
        } else {
            before.drop_last().push(before.last().push(s.last()))
        }
    }
}

/// There is always at least one piece.
pub proof fn lemma_pieces_nonempty(s: Seq<char>, sep: char)
    ensures
        pieces(s, sep).len() >= 1,
    decreases s.len(),
{
    if s.len() > 0 {
        lemma_pieces_nonempty(s.drop_last(), sep);
    }
}

/// The character sequences of a list of vectors.
pub open spec fn texts(v: Seq<Vec<char>>) -> Seq<Seq<char>> {
    v.map_values(|p: Vec<char>| p@)
}

/// Cuts `s` at every `sep`.
pub fn split(s: &[char], sep: char) -> (out: Vec<Vec<char>>)
    ensures
        texts(out@) == pieces(s@, sep),
{
    let mut parts: Vec<Vec<char>> = Vec::new();
    let mut current: Vec<char> = Vec::new();
    let mut i: usize = 0;
    assert(s@.take(0) =~= Seq::<char>::empty());
    assert(texts(parts@).push(current@) =~= pieces(s@.take(0), sep));
    while i < s.len()
        invariant
            i <= s.len(),
            texts(parts@).push(current@) == pieces(s@.take(i as int), sep),
        decreases s.len() - i,
    {
        let ghost done = texts(parts@);
        let ghost cur = current@;
        assert(s@.take(i + 1).drop_last() =~= s@.take(i as int));
        assert(s@.take(i + 1).last() == s@[i as int]);
        if s[i] == sep {
            parts.push(current);
            current = Vec::new();
            assert(texts(parts@) =~= done.push(cur));
        } else {
            current.push(s[i]);
            assert(done.push(cur).drop_last() =~= done);
        }
        i += 1;
    }
    assert(s@.take(s.len() as int) =~= s@);
    let ghost done = texts(parts@);
    let ghost cur = current@;
    parts.push(current);
    assert(texts(parts@) =~= done.push(cur));
    parts
}

/// `num / den` in units of `1 / scale`, rounded to the nearest unit, a tie
/// going to the even one.
pub open spec fn rounded(num: nat, den: nat, scale: nat) -> nat
    recommends
        den > 0,
{
    let q = num * scale / den;
    let r = num * scale % den;
    if 2 * r > den || (2 * r == den && q % 2 == 1) {
        q + 1
    } else {
        q
    }
}

/// Computes `num / den` in units of `1 / scale`, rounded half to even.
pub fn round_scaled(num: u64, den: u64, scale: u64) -> (r: u128)
    requires
        den > 0,
        scale <= 1000,
    ensures
        r == rounded(num as nat, den as nat, scale as nat),
{
    assert(num * scale <= 18446744073709551615 * 1000) by (nonlinear_arith)
        requires
            num <= 18446744073709551615,
            scale <= 1000,
    ;
    let scaled: u128 = num as u128 * scale as u128;
    let q: u128 = scaled / den as u128;
    let r: u128 = scaled % den as u128;
    if 2 * r > den as u128 || (2 * r == den as u128 && q % 2 == 1) {
        q + 1
    } else {
        q
    }
}

/// A numeral reads back as its number: the decimal numeral of `n` is made
/// of digits, has at least one, and writes `n`.
pub proof fn lemma_decimal_roundtrip(n: nat)
    ensures
        decimal(n).len() >= 1,
        digit_value(decimal(n)[0]) is Some,
        digits_value(decimal(n)) == Some(n),
    decreases n,
{
    if n < 10 {
        let s = decimal(n);
        assert(s.drop_last() =~= Seq::<char>::empty());
        assert(digits_value(s.drop_last()) == Some(0nat));
        assert(digit_value(digit_char(n as int)) == Some(n as int));
    } else {
        lemma_decimal_roundtrip(n / 10);
        let s = decimal(n);
        assert(s.drop_last() =~= decimal(n / 10));
        assert(s.last() == digit_char((n % 10) as int));
        assert(digit_value(digit_char((n % 10) as int)) == Some((n % 10) as int));
        assert(s[0] == decimal(n / 10)[0]);
    }
}

/// A numeral of a number that fits 32 bits is read as that number.
pub proof fn lemma_parse_decimal(n: nat)
    requires
        n <= u32::MAX,
    ensures
        parse_u32_text(decimal(n)) == Some(n as u32),
{
    lemma_decimal_roundtrip(n);
    assert(decimal(n)[0] != '+');
}

/// Different numbers have different numerals.
pub proof fn lemma_decimal_injective(a: nat, b: nat)
    requires
        decimal(a) == decimal(b),
    ensures
        a == b,
{
    lemma_decimal_roundtrip(a);
    lemma_decimal_roundtrip(b);
}

} // verus!
