//! Text as a sequence of characters: the few string operations that the rest of the library
//! builds on, each with its meaning.

use vstd::prelude::*;
use vstd::utf8::{decode_utf8, valid_utf8};

verus! {

/// Specifies `String::push`: the character is appended to the string.
pub assume_specification[ String::push ](s: &mut String, c: char)
    ensures
        final(s)@ == old(s)@.push(c),
;

/// What the `Debug` format of a string prints: the text in double quotes, with the characters
/// that do not print escaped.
pub uninterp spec fn debug_format(s: Seq<char>) -> Seq<char>;

/// Prints a string with its `Debug` format. The result is named: which characters are escaped,
/// and how, is left to `impl Debug for str`.
#[verifier::external_body]
pub(crate) fn debug_formatted(s: &str) -> (r: String)
    ensures
        r@ == debug_format(s@),
{
    format!("{s:?}")
}

/// The text of some bytes in which everything that is not UTF-8 is replaced.
pub uninterp spec fn lossy_utf8(bytes: Seq<u8>) -> Seq<char>;

/// Trusted: `String::from_utf8_lossy`. The text of bytes that are UTF-8 is what they encode; what
/// stands in the text where they are not is left to the function, whose result is named.
#[verifier::external_body]
pub(crate) fn lossy_text(bytes: &Vec<u8>) -> (r: String)
    ensures
        r@ == lossy_utf8(bytes@),
        valid_utf8(bytes@) ==> r@ == decode_utf8(bytes@),
{
    String::from_utf8_lossy(bytes).into_owned()
}

/// The characters with the Unicode property White_Space.
pub open spec fn is_white_space(c: char) -> bool {
    ||| '\u{9}' <= c <= '\u{D}'
    ||| c == ' '
    ||| c == '\u{85}'
    ||| c == '\u{A0}'
    ||| c == '\u{1680}'
    ||| '\u{2000}' <= c <= '\u{200A}'
    ||| c == '\u{2028}'
    ||| c == '\u{2029}'
    ||| c == '\u{202F}'
    ||| c == '\u{205F}'
    ||| c == '\u{3000}'
}

/// `s` without its leading white space.
pub open spec fn trim_start(s: Seq<char>) -> Seq<char>
    decreases s.len(),
{
    if s.len() > 0 && is_white_space(s[0]) {
        trim_start(s.drop_first())
    } else {
        s
    }
}

/// `s` without its trailing white space.
pub open spec fn trim_end(s: Seq<char>) -> Seq<char>
    decreases s.len(),
{
    if s.len() > 0 && is_white_space(s.last()) {
        trim_end(s.drop_last())
    } else {
        s
    }
}

/// `s` without its leading and trailing white space.
pub open spec fn trim(s: Seq<char>) -> Seq<char> {
    trim_end(trim_start(s))
}

/// Whether `needle` stands in `s` at position `at`.
pub open spec fn occurs_at(s: Seq<char>, needle: Seq<char>, at: int) -> bool {
    &&& 0 <= at
    &&& at + needle.len() <= s.len()
    &&& s.subrange(at, at + needle.len()) == needle
}

/// Whether `needle` stands somewhere in `s`.
pub open spec fn contains(s: Seq<char>, needle: Seq<char>) -> bool {
    exists|at: int| occurs_at(s, needle, at)
}

/// Whether `s` begins with `prefix`.
pub open spec fn starts_with(s: Seq<char>, prefix: Seq<char>) -> bool {
    occurs_at(s, prefix, 0)
}

/// The views of a sequence of strings.
pub open spec fn texts(v: Seq<String>) -> Seq<Seq<char>> {
    Seq::new(v.len(), |i: int| v[i]@)
}

/// The view of an optional string.
pub open spec fn opt_text(s: Option<String>) -> Option<Seq<char>> {
    match s {
        Some(s) => Some(s@),
        None => None,
    }
}

/// The fields of `s` between the separators: one more than there are separators.
pub open spec fn split(s: Seq<char>, sep: char) -> Seq<Seq<char>>
    decreases s.len(),
{
    if s.len() == 0 {
        seq![Seq::<char>::empty()]
    } else {
        let before = split(s.drop_last(), sep);
        if s.last() == sep {
            before.push(Seq::<char>::empty())
        } else {
            before.drop_last().push(before.last().push(s.last()))
        }
    }
}

/// The lines of `s`, each with the line feed that ends it; the last may lack one.
pub open spec fn lines_inclusive(s: Seq<char>) -> Seq<Seq<char>>
    decreases s.len(),
{
    if s.len() == 0 {
        Seq::<Seq<char>>::empty()
    } else {
        let before = lines_inclusive(s.drop_last());
        if before.len() == 0 || before.last().last() == '\n' {
            before.push(seq![s.last()])
        } else {
            before.drop_last().push(before.last().push(s.last()))
        }
    }
}

/// `s` with every `from` replaced by the text `to`.
pub open spec fn replace_char(s: Seq<char>, from: char, to: Seq<char>) -> Seq<char>
    decreases s.len(),
{
    if s.len() == 0 {
        s
    } else if s.last() == from {
        replace_char(s.drop_last(), from, to) + to
    } else {
        replace_char(s.drop_last(), from, to).push(s.last())
    }
}

/// The lower case form of an ASCII letter; any other character is kept.
pub open spec fn ascii_lower(c: char) -> char {
    if 'A' <= c <= 'Z' {
        ((c as u8 + 32) as u8) as char
    } else {
        c
    }
}

/// `s` with its ASCII letters in lower case.
pub open spec fn to_ascii_lowercase(s: Seq<char>) -> Seq<char> {
    Seq::new(s.len(), |i: int| ascii_lower(s[i]))
}

/// The character of a decimal digit.
pub open spec fn digit_char(d: int) -> char {
    (d + 48) as u8 as char
}

/// `n` in decimal, without leading zeros.
pub open spec fn decimal(n: nat) -> Seq<char>
    decreases n,
{
    if n < 10 {
        seq![digit_char(n as int)]
    } else {
        decimal(n / 10).push(digit_char((n % 10) as int))
    }
}

/// `n` in decimal, with a leading minus sign if it is negative.
pub open spec fn signed_decimal(n: int) -> Seq<char> {
    if n < 0 {
        seq!['-'] + decimal((-n) as nat)
    } else {
        decimal(n as nat)
    }
}

/// The value of a run of decimal digits.
pub open spec fn digits_value(s: Seq<char>) -> nat
    decreases s.len(),
{
    if s.len() == 0 {
        0
    } else {
        digits_value(s.drop_last()) * 10 + (s.last() as nat - 48) as nat
    }
}

/// Whether `s` is a non-empty run of decimal digits.
pub open spec fn is_digits(s: Seq<char>) -> bool {
    s.len() > 0 && forall|i: int| 0 <= i < s.len() ==> '0' <= #[trigger] s[i] <= '9'
}

/// The 64 bit number that `s` writes: decimal digits after at most one plus sign, in range.
pub open spec fn parse_u64_spec(s: Seq<char>) -> Option<u64> {
    let digits = if s.len() > 0 && s[0] == '+' {
        s.drop_first()
    } else {
        s
    };
    if is_digits(digits) && digits_value(digits) <= u64::MAX {
        Some(digits_value(digits) as u64)
    } else {
        None
    }
}

// ---------------------------------------------------------------------------------------------
// Executable operations

/// The characters of `s`.
pub fn chars_of(s: &str) -> (r: Vec<char>)
    ensures
        r@ == s@,
{
    let mut out: Vec<char> = Vec::new();
    for c in it: s.chars()
        invariant
            out@ == it.seq().take(it.index() as int),
    {
        out.push(c);
    }
    out
}

/// The text of the characters from `from` up to `to`.
pub fn substring(chars: &Vec<char>, from: usize, to: usize) -> (r: String)
    requires
        from <= to <= chars.len(),
    ensures
        r@ == chars@.subrange(from as int, to as int),
{
    let mut out = String::new();
    let mut i: usize = from;
    while i < to
        invariant
            from <= i <= to <= chars.len(),
            out@ == chars@.subrange(from as int, i as int),
        decreases to - i,
    {
        out.push(chars[i]);
        i += 1;
        assert(chars@.subrange(from as int, i as int) =~= chars@.subrange(
            from as int,
            i - 1,
        ).push(chars@[i - 1]));
    }
    out
}

/// The text of `chars`.
pub fn string_of(chars: &Vec<char>) -> (r: String)
    ensures
        r@ == chars@,
{
    let r = substring(chars, 0, chars.len());
    assert(chars@.subrange(0, chars@.len() as int) =~= chars@);
    r
}

/// Whether the two texts are equal.
pub fn same(a: &str, b: &str) -> (r: bool)
    ensures
        r == (a@ == b@),
{
    let left = chars_of(a);
    let right = chars_of(b);
    if left.len() != right.len() {
        return false;
    }
    let mut i: usize = 0;
    while i < left.len()
        invariant
            i <= left.len(),
            left.len() == right.len(),
            left@ == a@,
            right@ == b@,
            forall|j: int| 0 <= j < i ==> a@[j] == b@[j],
        decreases left.len() - i,
    {
        if left[i] != right[i] {
            return false;
        }
        i += 1;
    }
    assert(a@ =~= b@);
    true
}

/// Whether `c` has the Unicode property White_Space.
pub fn is_white(c: char) -> (r: bool)
    ensures
        r == is_white_space(c),
{
    ('\u{9}' <= c && c <= '\u{D}') || c == ' ' || c == '\u{85}' || c == '\u{A0}' || c == '\u{1680}'
        || ('\u{2000}' <= c && c <= '\u{200A}') || c == '\u{2028}' || c == '\u{2029}' || c
        == '\u{202F}' || c == '\u{205F}' || c == '\u{3000}'
}

/// The position after the leading white space of the characters from `from` up to `to`.
pub fn skip_white(chars: &Vec<char>, from: usize, to: usize) -> (r: usize)
    requires
        from <= to <= chars.len(),
    ensures
        from <= r <= to,
        chars@.subrange(r as int, to as int) == trim_start(chars@.subrange(from as int, to as int)),
{
    let mut i: usize = from;
    while i < to && is_white(chars[i])
        invariant
            from <= i <= to <= chars.len(),
            trim_start(chars@.subrange(from as int, to as int)) == trim_start(
                chars@.subrange(i as int, to as int),
            ),
        decreases to - i,
    {
        proof {
            let rest = chars@.subrange(i as int, to as int);
            assert(rest[0] == chars@[i as int]);
            assert(rest.drop_first() =~= chars@.subrange(i + 1, to as int));
        }
        i += 1;
    }
    proof {
        let rest = chars@.subrange(i as int, to as int);
        if i < to {
            assert(rest[0] == chars@[i as int]);
        }
    }
    i
}

/// The position where the trailing white space of the characters from `from` up to `to` begins.
pub fn skip_white_back(chars: &Vec<char>, from: usize, to: usize) -> (r: usize)
    requires
        from <= to <= chars.len(),
    ensures
        from <= r <= to,
        chars@.subrange(from as int, r as int) == trim_end(chars@.subrange(from as int, to as int)),
{
    let mut i: usize = to;
    while from < i && is_white(chars[i - 1])
        invariant
            from <= i <= to <= chars.len(),
            trim_end(chars@.subrange(from as int, to as int)) == trim_end(
                chars@.subrange(from as int, i as int),
            ),
        decreases i,
    {
        proof {
            let rest = chars@.subrange(from as int, i as int);
            assert(rest.last() == chars@[i - 1]);
            assert(rest.drop_last() =~= chars@.subrange(from as int, i - 1));
        }
        i -= 1;
    }
    proof {
        let rest = chars@.subrange(from as int, i as int);
        if from < i {
            assert(rest.last() == chars@[i - 1]);
        }
    }
    i
}

/// `s` without its leading and trailing white space.
pub fn trimmed(s: &str) -> (r: String)
    ensures
        r@ == trim(s@),
{
    let chars = chars_of(s);
    let from = skip_white(&chars, 0, chars.len());
    let to = skip_white_back(&chars, from, chars.len());
    assert(chars@.subrange(0, chars@.len() as int) =~= s@);
    substring(&chars, from, to)
}

/// Whether `needle` stands in `chars` at `at`.
pub fn matches_at(chars: &Vec<char>, needle: &Vec<char>, at: usize) -> (r: bool)
    requires
        at <= chars.len(),
    ensures
        r == occurs_at(chars@, needle@, at as int),
{
    if needle.len() > chars.len() - at {
        return false;
    }
    let mut i: usize = 0;
    while i < needle.len()
        invariant
            i <= needle.len(),
            at + needle.len() <= chars.len(),
            forall|j: int| 0 <= j < i ==> chars@[at + j] == needle@[j],
        decreases needle.len() - i,
    {
        if chars[at + i] != needle[i] {
            assert(chars@.subrange(at as int, at + needle@.len())[i as int] != needle@[i as int]);
            return false;
        }
        i += 1;
    }
    assert(chars@.subrange(at as int, at + needle@.len()) =~= needle@);
    true
}

/// Whether `s` begins with `prefix`.
pub fn begins_with(s: &str, prefix: &str) -> (r: bool)
    ensures
        r == starts_with(s@, prefix@),
{
    matches_at(&chars_of(s), &chars_of(prefix), 0)
}

/// Whether `needle` stands somewhere in `s`.
pub fn has(s: &str, needle: &str) -> (r: bool)
    ensures
        r == contains(s@, needle@),
{
    let chars = chars_of(s);
    let wanted = chars_of(needle);
    let mut at: usize = 0;
    loop
        invariant
            at <= chars.len(),
            chars@ == s@,
            wanted@ == needle@,
            forall|j: int| 0 <= j < at ==> !occurs_at(s@, needle@, j),
        decreases chars.len() - at,
    {
        if matches_at(&chars, &wanted, at) {
            return true;
        }
        if at == chars.len() {
            return false;
        }
        at += 1;
    }
}

/// `s` with its ASCII letters in lower case.
pub fn lowercase_ascii(s: &str) -> (r: String)
    ensures
        r@ == to_ascii_lowercase(s@),
{
    let chars = chars_of(s);
    let mut out = String::new();
    let mut i: usize = 0;
    while i < chars.len()
        invariant
            i <= chars.len(),
            chars@ == s@,
            out@ == to_ascii_lowercase(s@.take(i as int)),
        decreases chars.len() - i,
    {
        let c = chars[i];
        if 'A' <= c && c <= 'Z' {
            out.push(((c as u8) + 32) as char);
        } else {
            out.push(c);
        }
        i += 1;
        assert(to_ascii_lowercase(s@.take(i as int)) =~= to_ascii_lowercase(s@.take(i - 1)).push(
            ascii_lower(s@[i - 1]),
        ));
    }
    assert(s@.take(s@.len() as int) =~= s@);
    out
}

/// The fields of `s` between the separators.
pub fn fields(s: &str, sep: char) -> (r: Vec<String>)
    ensures
        texts(r@) == split(s@, sep),
{
    let chars = chars_of(s);
    let mut done: Vec<String> = Vec::new();
    let mut current = String::new();
    let mut i: usize = 0;
    assert(s@.take(0) =~= Seq::<char>::empty());
    assert(texts(done@).push(current@) =~= split(s@.take(0), sep));
    while i < chars.len()
        invariant
            i <= chars.len(),
            chars@ == s@,
            texts(done@).push(current@) == split(s@.take(i as int), sep),
        decreases chars.len() - i,
    {
        let c = chars[i];
        let ghost before = texts(done@).push(current@);
        i += 1;
        assert(s@.take(i as int).drop_last() =~= s@.take(i - 1));
        assert(s@.take(i as int).last() == c);
        if c == sep {
            let ghost whole = current@;
            done.push(current);
            current = String::new();
            assert(texts(done@) =~= before);
        } else {
            current.push(c);
            assert(before.drop_last() =~= texts(done@));
        }
    }
    assert(s@.take(s@.len() as int) =~= s@);
    let ghost whole = texts(done@).push(current@);
    done.push(current);
    assert(texts(done@) =~= whole);
    done
}

pub proof fn lemma_lines_nonempty(s: Seq<char>)
    ensures
        forall|i: int| 0 <= i < lines_inclusive(s).len() ==> #[trigger] lines_inclusive(s)[i].len() > 0,
        s.len() > 0 ==> lines_inclusive(s).len() > 0 && lines_inclusive(s).last().last() == s.last(),
        s.len() == 0 ==> lines_inclusive(s).len() == 0,
    decreases s.len(),
{
    if s.len() > 0 {
        lemma_lines_nonempty(s.drop_last());
        let before = lines_inclusive(s.drop_last());
        if !(before.len() == 0 || before.last().last() == '\n') {
            assert(lines_inclusive(s).last() =~= before.last().push(s.last()));
        }
    }
}

/// The lines of `s`, each with the line feed that ends it; the last may lack one.
pub fn lines_with_ends(s: &str) -> (r: Vec<String>)
    ensures
        texts(r@) == lines_inclusive(s@),
{
    let chars = chars_of(s);
    let mut done: Vec<String> = Vec::new();
    let mut current = String::new();
    let mut open = false;
    let mut i: usize = 0;
    assert(s@.take(0) =~= Seq::<char>::empty());
    assert(texts(done@) =~= lines_inclusive(s@.take(0)));
    while i < chars.len()
        invariant
            i <= chars.len(),
            chars@ == s@,
            !open ==> current@.len() == 0 && texts(done@) == lines_inclusive(s@.take(i as int)),
            !open && i > 0 ==> s@[i - 1] == '\n',
            open ==> i > 0 && s@[i - 1] != '\n' && texts(done@).push(current@) == lines_inclusive(
                s@.take(i as int),
            ),
        decreases chars.len() - i,
    {
        let c = chars[i];
        let ghost earlier = s@.take(i as int);
        let ghost before = lines_inclusive(earlier);
        proof {
            lemma_lines_nonempty(earlier);
            if i > 0 {
                assert(earlier.last() == s@[i - 1]);
            }
        }
        i += 1;
        assert(s@.take(i as int).drop_last() =~= earlier);
        assert(s@.take(i as int).last() == c);
        current.push(c);
        proof {
            if open {
                assert(before.drop_last() =~= texts(done@));
                assert(texts(done@).push(current@) =~= lines_inclusive(s@.take(i as int)));
            } else {
                assert(current@ =~= seq![c]);
                assert(texts(done@).push(current@) =~= lines_inclusive(s@.take(i as int)));
            }
        }
        if c == '\n' {
            let ghost whole = texts(done@).push(current@);
            done.push(current);
            current = String::new();
            assert(texts(done@) =~= whole);
            open = false;
        } else {
            open = true;
        }
    }
    assert(s@.take(s@.len() as int) =~= s@);
    if open {
        let ghost whole = texts(done@).push(current@);
        done.push(current);
        assert(texts(done@) =~= whole);
    }
    done
}

/// `s` with every `from` replaced by the text `to`.
pub fn replaced_char(s: &str, from: char, to: &str) -> (r: String)
    ensures
        r@ == replace_char(s@, from, to@),
{
    let chars = chars_of(s);
    let mut out = String::new();
    let mut i: usize = 0;
    while i < chars.len()
        invariant
            i <= chars.len(),
            chars@ == s@,
            out@ == replace_char(s@.take(i as int), from, to@),
        decreases chars.len() - i,
    {
        let c = chars[i];
        if c == from {
            out.append(to);
        } else {
            out.push(c);
        }
        i += 1;
        assert(s@.take(i as int).drop_last() =~= s@.take(i - 1));
    }
    assert(s@.take(s@.len() as int) =~= s@);
    out
}

/// The character of the decimal digit `d`.
fn digit(d: u64) -> (r: char)
    requires
        d < 10,
    ensures
        r == digit_char(d as int),
{
    (d as u8 + 48) as char
}

/// `n` in decimal.
pub fn decimal_of(n: u64) -> (r: String)
    ensures
        r@ == decimal(n as nat),
    decreases n,
{
    if n < 10 {
        let mut out = String::new();
        out.push(digit(n));
        assert(out@ =~= decimal(n as nat));
        out
    } else {
        let mut out = decimal_of(n / 10);
        out.push(digit(n % 10));
        out
    }
}

/// A wide `n` in decimal.
pub fn wide_decimal_of(n: u128) -> (r: String)
    ensures
        r@ == decimal(n as nat),
    decreases n,
{
    if n < 10 {
        let mut out = String::new();
        out.push(digit(n as u64));
        assert(out@ =~= decimal(n as nat));
        out
    } else {
        let mut out = wide_decimal_of(n / 10);
        out.push(digit((n % 10) as u64));
        out
    }
}

/// `n` in decimal, with a minus sign if it is negative.
pub fn signed_decimal_of(n: i64) -> (r: String)
    ensures
        r@ == signed_decimal(n as int),
{
    if n < 0 {
        let mut out = String::new();
        out.push('-');
        let magnitude: u64 = if n == i64::MIN {
            9223372036854775808
        } else {
            (-n) as u64
        };
        out.append(decimal_of(magnitude).as_str());
        assert(out@ =~= signed_decimal(n as int));
        out
    } else {
        decimal_of(n as u64)
    }
}

proof fn lemma_digits_value_grows(s: Seq<char>, i: int)
    requires
        is_digits(s),
        0 <= i <= s.len(),
    ensures
        digits_value(s.take(i)) <= digits_value(s),
    decreases s.len() - i,
{
    if i < s.len() {
        lemma_digits_value_grows(s, i + 1);
        assert(s.take(i + 1).drop_last() =~= s.take(i));
        assert(s.take(i + 1).last() == s[i]);
        assert('0' <= s[i]);
    } else {
        assert(s.take(i) =~= s);
    }
}

/// The 64 bit number that `s` writes, if it writes one.
pub fn parse_u64(s: &str) -> (r: Option<u64>)
    ensures
        r == parse_u64_spec(s@),
{
    let chars = chars_of(s);
    let start: usize = if chars.len() > 0 && chars[0] == '+' {
        1
    } else {
        0
    };
    let ghost digits = if s@.len() > 0 && s@[0] == '+' {
        s@.drop_first()
    } else {
        s@
    };
    assert(digits =~= s@.subrange(start as int, s@.len() as int));
    if start == chars.len() {
        return None;
    }
    let mut value: u64 = 0;
    let mut overflow = false;
    let mut i: usize = start;
    while i < chars.len()
        invariant
            start <= i <= chars.len(),
            chars@ == s@,
            digits == s@.subrange(start as int, s@.len() as int),
            digits == (if s@.len() > 0 && s@[0] == '+' {
                s@.drop_first()
            } else {
                s@
            }),
            forall|j: int| 0 <= j < i - start ==> '0' <= #[trigger] digits[j] <= '9',
            overflow ==> digits_value(digits.take(i - start)) > u64::MAX,
            !overflow ==> value == digits_value(digits.take(i - start)),
        decreases chars.len() - i,
    {
        let c = chars[i];
        assert(digits[i - start] == c);
        if !('0' <= c && c <= '9') {
            return None;
        }
        let d: u64 = (c as u32 - 48) as u64;
        assert(digits.take(i + 1 - start).drop_last() =~= digits.take(i - start));
        assert(digits.take(i + 1 - start).last() == c);
        assert(d == (c as nat - 48) as nat);
        if !overflow {
            if value > 1844674407370955161 || (value == 1844674407370955161 && d > 5) {
                overflow = true;
            } else {
                value = value * 10 + d;
            }
        }
        i += 1;
    }
    assert(digits.take(digits.len() as int) =~= digits);
    if overflow {
        None
    } else {
        Some(value)
    }
}

// ---------------------------------------------------------------------------------------------
// Laws

/// White space is what Unicode lists as such, by number.
pub proof fn law_white_space_by_number(c: char)
    ensures
        is_white_space(c) <==> {
            let n = c as u32;
            n == 0x20 || 9 <= n <= 13 || n == 0x85 || n == 0xa0 || n == 0x1680 || 0x2000 <= n
                <= 0x200a || n == 0x2028 || n == 0x2029 || n == 0x202f || n == 0x205f || n == 0x3000
        },
{
}

proof fn lemma_trim_start(s: Seq<char>) -> (n: int)
    ensures
        0 <= n <= s.len(),
        trim_start(s) == s.skip(n),
        forall|i: int| 0 <= i < n ==> is_white_space(#[trigger] s[i]),
        n < s.len() ==> !is_white_space(s[n]),
    decreases s.len(),
{
    if s.len() > 0 && is_white_space(s[0]) {
        let m = lemma_trim_start(s.drop_first());
        assert(s.drop_first().skip(m) =~= s.skip(m + 1));
        assert forall|i: int| 0 <= i < m + 1 implies is_white_space(#[trigger] s[i]) by {
            if i > 0 {
                assert(s[i] == s.drop_first()[i - 1]);
            }
        }
        m + 1
    } else {
        assert(s.skip(0) =~= s);
        0
    }
}

proof fn lemma_trim_end(s: Seq<char>) -> (n: int)
    ensures
        0 <= n <= s.len(),
        trim_end(s) == s.take(n),
        forall|i: int| n <= i < s.len() ==> is_white_space(#[trigger] s[i]),
        n > 0 ==> !is_white_space(s[n - 1]),
    decreases s.len(),
{
    if s.len() > 0 && is_white_space(s.last()) {
        let n = lemma_trim_end(s.drop_last());
        assert(s.drop_last().take(n) =~= s.take(n));
        assert forall|i: int| n <= i < s.len() implies is_white_space(#[trigger] s[i]) by {
            if i < s.len() - 1 {
                assert(s[i] == s.drop_last()[i]);
            }
        }
        n
    } else {
        assert(s.take(s.len() as int) =~= s);
        s.len() as int
    }
}

proof fn lemma_trim_bounds(s: Seq<char>) -> (bounds: (int, int))
    ensures
        ({
            let (from, to) = bounds;
            &&& 0 <= from <= to <= s.len()
            &&& trim(s) == s.subrange(from, to)
            &&& forall|i: int| 0 <= i < from ==> is_white_space(#[trigger] s[i])
            &&& forall|i: int| to <= i < s.len() ==> is_white_space(#[trigger] s[i])
            &&& from < to ==> !is_white_space(s[from]) && !is_white_space(s[to - 1])
        }),
{
    let from = lemma_trim_start(s);
    let rest = s.skip(from);
    let n = lemma_trim_end(rest);
    assert(rest.take(n) =~= s.subrange(from, from + n));
    assert forall|i: int| from + n <= i < s.len() implies is_white_space(#[trigger] s[i]) by {
        assert(s[i] == rest[i - from]);
    }
    if n > 0 {
        assert(rest[n - 1] == s[from + n - 1]);
    }
    (from, from + n)
}

/// Trimming takes white space off both ends and nothing else: put around a text that begins and
/// ends with something else, any amount of it is taken off again, and a text of nothing but white
/// space becomes empty.
pub proof fn law_trim_takes_off_white_space(
    before: Seq<char>,
    text: Seq<char>,
    after: Seq<char>,
)
    requires
        forall|i: int| 0 <= i < before.len() ==> is_white_space(#[trigger] before[i]),
        forall|i: int| 0 <= i < after.len() ==> is_white_space(#[trigger] after[i]),
        text.len() > 0 ==> !is_white_space(text[0]) && !is_white_space(text.last()),
    ensures
        trim(before + text + after) == text,
{
    let s = before + text + after;
    let (from, to) = lemma_trim_bounds(s);
    let (a, b) = (before.len() as int, (before.len() + text.len()) as int);
    if text.len() == 0 {
        if from < to {
            assert(is_white_space(s[from])) by {
                if from < a {
                    assert(s[from] == before[from]);
                } else {
                    assert(s[from] == after[from - a]);
                }
            }
        }
        assert(trim(s) =~= text);
    } else {
        assert(s[a] == text[0] && s[b - 1] == text.last());
        if from < a {
            if from < to {
                assert(s[from] == before[from]);
            }
        }
        if to > b {
            if from < to {
                assert(s[to - 1] == after[to - 1 - b]);
            }
        }
        assert(from == a && to == b);
        assert(s.subrange(a, b) =~= text);
    }
}

/// What is trimmed is a piece of the text with white space around it, and has none at its ends.
pub proof fn law_trimmed_text_is_a_piece(s: Seq<char>)
    ensures
        exists|from: int, to: int|
            0 <= from <= to <= s.len() && trim(s) == #[trigger] s.subrange(from, to) && (forall|i: int|
                0 <= i < from || to <= i < s.len() ==> is_white_space(#[trigger] s[i])),
        trim(s).len() > 0 ==> !is_white_space(trim(s)[0]) && !is_white_space(trim(s).last()),
        trim(trim(s)) == trim(s),
        trim(s).len() == 0 <==> forall|i: int| 0 <= i < s.len() ==> is_white_space(#[trigger] s[i]),
{
    let (from, to) = lemma_trim_bounds(s);
    assert(trim(s) == s.subrange(from, to));
    assert(Seq::<char>::empty() + trim(s) + Seq::empty() =~= trim(s));
    law_trim_takes_off_white_space(Seq::empty(), trim(s), Seq::empty());
    if from < to {
        assert(!is_white_space(s[from]));
    }
}

proof fn lemma_split_is_not_empty(s: Seq<char>, sep: char)
    ensures
        split(s, sep).len() > 0,
    decreases s.len(),
{
    if s.len() > 0 {
        lemma_split_is_not_empty(s.drop_last(), sep);
    }
}

/// A text without the separator is one field; what stands before the first separator is the
/// first field, and the fields behind it are those of the rest.
pub proof fn law_fields_lie_between_separators(first: Seq<char>, rest: Seq<char>, sep: char)
    requires
        !first.contains(sep),
    ensures
        split(first, sep) == seq![first],
        split(first.push(sep) + rest, sep) == seq![first] + split(rest, sep),
    decreases first.len() + rest.len(),
{
    assert(split(first, sep) =~= seq![first]) by {
        if first.len() > 0 {
            let head = first.drop_last();
            assert(!head.contains(sep)) by {
                if head.contains(sep) {
                    let i = head.index_of(sep);
                    assert(first[i] == sep);
                }
            }
            law_fields_lie_between_separators(head, Seq::empty(), sep);
            assert(first[first.len() - 1] != sep);
            assert(head.push(first.last()) =~= first);
        } else {
            assert(first =~= Seq::empty());
        }
    }
    let whole = first.push(sep) + rest;
    if rest.len() == 0 {
        assert(whole.drop_last() =~= first);
        assert(whole.last() == sep);
        assert(split(whole, sep) =~= seq![first] + split(rest, sep));
    } else {
        let fewer = rest.drop_last();
        law_fields_lie_between_separators(first, fewer, sep);
        lemma_split_is_not_empty(fewer, sep);
        assert(whole.drop_last() =~= first.push(sep) + fewer);
        assert(whole.last() == rest.last());
        let before = split(fewer, sep);
        assert((seq![first] + before).last() == before.last());
        assert((seq![first] + before).drop_last() =~= seq![first] + before.drop_last());
        assert(split(whole, sep) =~= seq![first] + split(rest, sep));
    }
}

/// A text without a line feed is one line, if it is not empty; what stands before the first line
/// feed is, together with it, the first line, and the lines behind it are those of the rest.
pub proof fn law_lines_end_with_line_feeds(first: Seq<char>, rest: Seq<char>)
    requires
        !first.contains('\n'),
    ensures
        lines_inclusive(first) == if first.len() == 0 {
            Seq::<Seq<char>>::empty()
        } else {
            seq![first]
        },
        lines_inclusive(first.push('\n') + rest) == seq![first.push('\n')] + lines_inclusive(rest),
    decreases first.len() + rest.len(),
{
    if first.len() > 0 {
        let head = first.drop_last();
        assert(!head.contains('\n')) by {
            if head.contains('\n') {
                let i = head.index_of('\n');
                assert(first[i] == '\n');
            }
        }
        law_lines_end_with_line_feeds(head, Seq::empty());
        assert(first[first.len() - 1] != '\n');
        assert(head.push(first.last()) =~= first);
        if head.len() > 0 {
            assert(first[head.len() - 1] != '\n');
            assert(head.last() == first[head.len() - 1]);
        } else {
            assert(seq![first.last()] =~= first);
        }
        assert(lines_inclusive(first) =~= seq![first]);
    }
    let line = first.push('\n');
    let whole = line + rest;
    if rest.len() == 0 {
        assert(whole =~= line);
        assert(line.drop_last() =~= first);
        if first.len() > 0 {
            assert(first[first.len() - 1] != '\n');
            let before = lines_inclusive(first);
            assert(before == seq![first]);
            assert(before.last().last() != '\n');
            assert(lines_inclusive(line) =~= before.drop_last().push(before.last().push('\n')));
        } else {
            assert(seq![line.last()] =~= line);
            assert(lines_inclusive(line.drop_last()) =~= Seq::empty());
            assert(lines_inclusive(line) =~= seq![line]);
        }
        assert(lines_inclusive(whole) =~= seq![line] + lines_inclusive(rest));
    } else {
        let fewer = rest.drop_last();
        law_lines_end_with_line_feeds(first, fewer);
        assert(whole.drop_last() =~= line + fewer);
        assert(whole.last() == rest.last());
        let before = lines_inclusive(fewer);
        if before.len() > 0 {
            assert((seq![line] + before).last() == before.last());
            assert((seq![line] + before).drop_last() =~= seq![line] + before.drop_last());
        } else {
            assert(seq![line] + before =~= seq![line]);
            assert(line.last() == '\n');
        }
        assert(lines_inclusive(whole) =~= seq![line] + lines_inclusive(rest));
    }
}

/// Replacing goes character by character: the character becomes the text, every other one stays,
/// and what stands around a place does not matter.
pub proof fn law_replacing_goes_by_character(
    a: Seq<char>,
    b: Seq<char>,
    c: char,
    from: char,
    to: Seq<char>,
)
    ensures
        replace_char(a + b, from, to) == replace_char(a, from, to) + replace_char(b, from, to),
        replace_char(seq![from], from, to) == to,
        c != from ==> replace_char(seq![c], from, to) == seq![c],
        replace_char(Seq::empty(), from, to) == Seq::<char>::empty(),
    decreases b.len(),
{
    assert(seq![from].drop_last() =~= Seq::empty());
    assert(seq![c].drop_last() =~= Seq::empty());
    assert(replace_char(seq![from].drop_last(), from, to) + to =~= to);
    assert(replace_char(seq![c].drop_last(), from, to).push(c) =~= seq![c]);
    if b.len() == 0 {
        assert(a + b =~= a);
        assert(replace_char(a, from, to) + b =~= replace_char(a, from, to));
    } else {
        law_replacing_goes_by_character(a, b.drop_last(), c, from, to);
        assert((a + b).drop_last() =~= a + b.drop_last());
        assert(replace_char(a + b, from, to) =~= replace_char(a, from, to) + replace_char(
            b,
            from,
            to,
        ));
    }
}

/// Only the letters `A` to `Z` change, each to the letter 32 places on.
pub proof fn law_lower_case_by_number(s: Seq<char>)
    ensures
        to_ascii_lowercase(s).len() == s.len(),
        forall|i: int|
            0 <= i < s.len() ==> (#[trigger] to_ascii_lowercase(s)[i]) as u32 == s[i] as u32 + if 65
                <= s[i] as u32 <= 90 {
                32int
            } else {
                0int
            },
{
}

/// Ten, as often multiplied with itself.
pub open spec fn tens(n: nat) -> nat
    decreases n,
{
    if n == 0 {
        1
    } else {
        10 * tens((n - 1) as nat)
    }
}

/// Digits count by their place: digits in front of others count as many tens as there are
/// others, and a single digit counts by its number.
pub proof fn law_digits_count_by_their_place(a: Seq<char>, b: Seq<char>, d: char)
    requires
        '0' <= d <= '9',
    ensures
        digits_value(a + b) == digits_value(a) * tens(b.len()) + digits_value(b),
        digits_value(seq![d]) == d as int - '0' as int,
        digits_value(Seq::empty()) == 0,
    decreases b.len(),
{
    assert(digits_value(seq![d]) == d as int - '0' as int) by {
        assert(seq![d].drop_last() =~= Seq::empty());
        reveal_with_fuel(digits_value, 2);
    }
    if b.len() == 0 {
        assert(a + b =~= a);
        assert(tens(0) == 1 && digits_value(b) == 0);
    } else {
        let rest = b.drop_last();
        law_digits_count_by_their_place(a, rest, d);
        assert((a + b).drop_last() =~= a + rest);
        assert((a + b).last() == b.last());
        assert(tens(b.len()) == 10 * tens(rest.len()));
        let (v, t, w) = (digits_value(a), tens(rest.len()), digits_value(rest));
        assert((v * t + w) * 10 == v * (10 * t) + w * 10) by (nonlinear_arith);
    }
}

/// A number is written with digits only, without leading zeros, and the digits count up to it.
pub proof fn law_decimal_is_the_number(n: nat)
    ensures
        is_digits(decimal(n)),
        digits_value(decimal(n)) == n,
        decimal(n)[0] == '0' ==> n == 0 && decimal(n).len() == 1,
    decreases n,
{
    if n < 10 {
        reveal_with_fuel(digits_value, 2);
        assert(seq![digit_char(n as int)].drop_last() =~= Seq::empty());
    } else {
        let head = decimal(n / 10);
        law_decimal_is_the_number(n / 10);
        assert(decimal(n).drop_last() =~= head);
        assert forall|i: int| 0 <= i < decimal(n).len() implies '0' <= #[trigger] decimal(n)[i]
            <= '9' by {
            if i < head.len() {
                assert(decimal(n)[i] == head[i]);
            }
        }
        assert(decimal(n)[0] == head[0]);
    }
}

/// A negative number is a minus sign and the number without it.
pub proof fn law_minus_sign_of_negative_numbers(n: nat)
    ensures
        signed_decimal(n as int) == decimal(n),
        n > 0 ==> signed_decimal(-n) == seq!['-'] + decimal(n),
{
}

/// What is read back of a number that was written is the number, with or without a plus sign and
/// zeros in front.
pub proof fn law_written_number_reads_back(n: u64, zeros: nat)
    ensures
        ({
            let text = Seq::new(zeros, |i: int| '0') + decimal(n as nat);
            &&& parse_u64_spec(text) == Some(n)
            &&& parse_u64_spec(seq!['+'] + text) == Some(n)
        }),
    decreases zeros,
{
    let front = Seq::new(zeros, |i: int| '0');
    let text = front + decimal(n as nat);
    law_decimal_is_the_number(n as nat);
    lemma_zeros(zeros);
    law_digits_count_by_their_place(front, decimal(n as nat), '0');
    let (v, t) = (digits_value(front), tens(decimal(n as nat).len()));
    assert(v * t == 0) by (nonlinear_arith)
        requires
            v == 0,
    ;
    assert(is_digits(text)) by {
        assert forall|i: int| 0 <= i < text.len() implies '0' <= #[trigger] text[i] <= '9' by {
            if i >= zeros {
                assert(text[i] == decimal(n as nat)[i - zeros]);
            }
        }
    }
    assert(text[0] != '+') by {
        assert('0' <= text[0]);
    }
    assert((seq!['+'] + text).drop_first() =~= text);
}

proof fn lemma_zeros(zeros: nat)
    ensures
        digits_value(Seq::new(zeros, |i: int| '0')) == 0,
    decreases zeros,
{
    if zeros > 0 {
        let fewer = (zeros - 1) as nat;
        lemma_zeros(fewer);
        assert(Seq::new(zeros, |i: int| '0').drop_last() =~= Seq::new(fewer, |i: int| '0'));
    }
}

/// Only digits, behind at most one plus sign, read as a number, and only one that fits in 64 bits.
pub proof fn law_only_digits_read_as_a_number(s: Seq<char>)
    ensures
        parse_u64_spec(s) matches Some(n) ==> s.len() > 0 && (forall|i: int|
            1 <= i < s.len() ==> '0' <= #[trigger] s[i] <= '9') && ('0' <= s[0] <= '9' || (s[0]
            == '+' && s.len() > 1)),
        parse_u64_spec(s) is None && is_digits(s) ==> digits_value(s) > u64::MAX,
{
    if parse_u64_spec(s) is Some {
        let digits = if s[0] == '+' {
            s.drop_first()
        } else {
            s
        };
        assert(is_digits(digits));
        assert forall|i: int| 1 <= i < s.len() implies '0' <= #[trigger] s[i] <= '9' by {
            if s[0] == '+' {
                assert(s[i] == digits[i - 1]);
            } else {
                assert(s[i] == digits[i]);
            }
        }
        assert('0' <= digits[0] <= '9');
    }
    if is_digits(s) {
        assert('0' <= s[0] <= '9');
    }
}

/// A text contains exactly what something can be put around to make it.
pub proof fn law_contained_text_has_something_around_it(
    before: Seq<char>,
    needle: Seq<char>,
    after: Seq<char>,
    s: Seq<char>,
)
    ensures
        contains(before + needle + after, needle),
        starts_with(needle + after, needle),
        contains(s, needle) ==> exists|a: Seq<char>, b: Seq<char>| s == #[trigger] (a + needle + b),
        starts_with(s, needle) ==> exists|b: Seq<char>| s == #[trigger] (needle + b),
{
    let whole = before + needle + after;
    assert(whole.subrange(before.len() as int, (before.len() + needle.len()) as int) =~= needle);
    assert(occurs_at(whole, needle, before.len() as int));
    assert((needle + after).subrange(0, needle.len() as int) =~= needle);
    if contains(s, needle) {
        let at = choose|at: int| occurs_at(s, needle, at);
        let (a, b) = (s.take(at), s.skip(at + needle.len()));
        assert(s =~= a + s.subrange(at, at + needle.len()) + b);
        assert(s == a + needle + b);
    }
    if starts_with(s, needle) {
        let b = s.skip(needle.len() as int);
        assert(s =~= s.subrange(0, needle.len() as int) + b);
        assert(s == needle + b);
    }
}

/// The texts of strings are theirs, one by one.
pub proof fn law_texts_are_those_of_the_strings(v: Seq<String>, s: String)
    ensures
        texts(v).len() == v.len(),
        forall|i: int| 0 <= i < v.len() ==> #[trigger] texts(v)[i] == v[i]@,
        opt_text(Some(s)) == Some(s@),
        opt_text(None) is None,
{
}

/// White space before a text is taken off its start, up to the first character that is none.
pub proof fn law_trim_start_takes_off_white_space(before: Seq<char>, text: Seq<char>)
    requires
        forall|i: int| 0 <= i < before.len() ==> is_white_space(#[trigger] before[i]),
        text.len() > 0 ==> !is_white_space(text[0]),
    ensures
        trim_start(before + text) == text,
    decreases before.len(),
{
    if before.len() == 0 {
        assert(before + text =~= text);
    } else {
        let rest = before.drop_first();
        assert forall|i: int| 0 <= i < rest.len() implies is_white_space(#[trigger] rest[i]) by {
            assert(rest[i] == before[i + 1]);
        }
        assert((before + text)[0] == before[0]);
        assert((before + text).drop_first() =~= rest + text);
        law_trim_start_takes_off_white_space(rest, text);
    }
}

/// The operations on texts give what the functions of the same matter describe, for every text.
pub proof fn law_operations_on_texts(
    s: &str,
    other: &str,
    c: char,
    chars: &Vec<char>,
    r: String,
    parts: Vec<String>,
    out: Vec<char>,
    holds: bool,
)
    ensures
        call_ensures(chars_of, (s,), out) ==> out@ == s@,
        call_ensures(string_of, (chars,), r) ==> r@ == chars@,
        call_ensures(same, (s, other), holds) ==> (holds <==> s@ == other@),
        call_ensures(is_white, (c,), holds) ==> holds == is_white_space(c),
        call_ensures(trimmed, (s,), r) ==> r@ == trim(s@),
        call_ensures(begins_with, (s, other), holds) ==> (holds <==> exists|rest: Seq<char>|
            s@ == #[trigger] (other@ + rest)),
        call_ensures(has, (s, other), holds) ==> holds == contains(s@, other@),
        call_ensures(lowercase_ascii, (s,), r) ==> r@ == to_ascii_lowercase(s@),
        call_ensures(fields, (s, c), parts) ==> texts(parts@) == split(s@, c),
        call_ensures(lines_with_ends, (s,), parts) ==> texts(parts@) == lines_inclusive(s@),
        call_ensures(replaced_char, (s, c, other), r) ==> r@ == replace_char(s@, c, other@),
{
    if s@.len() >= other@.len() {
        let rest = s@.skip(other@.len() as int);
        if s@.subrange(0, other@.len() as int) == other@ {
            assert(s@ =~= other@ + rest);
        }
    }
    assert forall|rest: Seq<char>| s@ == #[trigger] (other@ + rest) implies starts_with(s@, other@) by {
        assert((other@ + rest).subrange(0, other@.len() as int) =~= other@);
    }
}

/// Numbers are written in decimal and read back, for every number.
pub proof fn law_operations_on_numbers(
    n: u64,
    wide: u128,
    signed: i64,
    s: &str,
    r: String,
    read: Option<u64>,
    chars: &Vec<char>,
    bounds: (usize, usize),
)
    ensures
        call_ensures(decimal_of, (n,), r) ==> r@ == decimal(n as nat),
        call_ensures(wide_decimal_of, (wide,), r) ==> r@ == decimal(wide as nat),
        call_ensures(signed_decimal_of, (signed,), r) ==> r@ == if signed < 0 {
            seq!['-'] + decimal((-signed) as nat)
        } else {
            decimal(signed as nat)
        },
        call_ensures(parse_u64, (s,), read) ==> read == parse_u64_spec(s@),
        call_ensures(substring, (chars, bounds.0, bounds.1), r) ==> r@ == chars@.subrange(
            bounds.0 as int,
            bounds.1 as int,
        ),
{
}

} // verus!
