//! Characters and fields: white space, the fields of a line, decimal
//! numbers.

use vstd::prelude::*;
use vstd::string::{StrSliceExecFns, StringExecFns};

verus! {

/// Whether `c` is white space that separates the fields of a line: space,
/// tab, line feed, form feed or carriage return.
pub open spec fn is_field_space(c: char) -> bool {
    c == ' ' || c == '\t' || c == '\n' || c == '\x0C' || c == '\r'
}

/// Whether `c` is white space of any script, as Unicode defines it.
pub open spec fn is_white_space(c: char) -> bool {
    let v = c as u32;
    ||| 0x09 <= v <= 0x0d
    ||| v == 0x20
    ||| v == 0x85
    ||| v == 0xa0
    ||| v == 0x1680
    ||| 0x2000 <= v <= 0x200a
    ||| v == 0x2028
    ||| v == 0x2029
    ||| v == 0x202f
    ||| v == 0x205f
    ||| v == 0x3000
}

/// Where the field that holds offset `p` ends: the offset of the next field
/// space from `p` on, or the end of `s`.
pub open spec fn field_end(s: Seq<char>, p: int) -> int
    decreases s.len() - p,
{
    if p < 0 || p >= s.len() || is_field_space(s[p]) {
        p
    } else {
        field_end(s, p + 1)
    }
}

/// Whether a field starts at offset `p`: a character that is no field space,
/// at the start of `s` or behind a field space.
pub open spec fn field_starts(s: Seq<char>, p: int) -> bool {
    0 <= p < s.len() && !is_field_space(s[p]) && (p == 0 || is_field_space(s[p - 1]))
}

/// The fields of `s` that start at offset `p` or behind it, in their order.
pub open spec fn fields_from(s: Seq<char>, p: int) -> Seq<Seq<char>>
    decreases s.len() - p,
{
    if p < 0 || p >= s.len() {
        Seq::empty()
    } else if field_starts(s, p) {
        seq![s.subrange(p, field_end(s, p))] + fields_from(s, p + 1)
    } else {
        fields_from(s, p + 1)
    }
}

/// The fields of a line: its longest runs of characters that are no field
/// space, in their order. None of them is empty.
pub open spec fn fields(s: Seq<char>) -> Seq<Seq<char>> {
    fields_from(s, 0)
}

/// The views of a vector of string slices.
pub open spec fn texts(v: Seq<&str>) -> Seq<Seq<char>> {
    Seq::new(v.len(), |i: int| v[i]@)
}

/// The offset of the first character of `s` from `p` on that is no white
/// space, or the length of `s`.
pub open spec fn content_start(s: Seq<char>, p: int) -> int
    decreases s.len() - p,
{
    if p < 0 || p >= s.len() || !is_white_space(s[p]) {
        p
    } else {
        content_start(s, p + 1)
    }
}

/// Whether a line holds nothing to read: only white space, or `#` as its
/// first character that is no white space.
pub open spec fn is_blank_or_comment(s: Seq<char>) -> bool {
    let p = content_start(s, 0);
    p >= s.len() || s[p] == '#'
}

/// Whether `s` holds one of the characters `.`, `:` and `-`, which stand
/// between the parts of an address.
pub open spec fn has_address_separator(s: Seq<char>) -> bool {
    exists|i: int| 0 <= i < s.len() && is_address_separator(#[trigger] s[i])
}

/// Whether `c` is one of `.`, `:` and `-`.
pub open spec fn is_address_separator(c: char) -> bool {
    c == '.' || c == ':' || c == '-'
}

/// Whether `c` is a decimal digit.
pub open spec fn is_digit(c: char) -> bool {
    0x30 <= c as u32 <= 0x39
}

/// Whether `s` holds decimal digits and nothing else.
pub open spec fn all_digits(s: Seq<char>) -> bool {
    forall|i: int| 0 <= i < s.len() ==> is_digit(#[trigger] s[i])
}

/// The number that the decimal digits `s` spell; leading zeros change
/// nothing.
pub open spec fn decimal_value(s: Seq<char>) -> nat
    decreases s.len(),
{
    if s.len() == 0 {
        0
    } else {
        (10 * decimal_value(s.drop_last()) + (s.last() as u32 - 0x30)) as nat
    }
}

/// The characters of a string slice.
pub fn chars_of(s: &str) -> (v: Vec<char>)
    ensures
        v@ == s@,
{
    let mut v: Vec<char> = Vec::new();
    for c in it: s.chars()
        invariant
            v@.len() == it.index(),
            it.seq() == s@,
            forall|j: int| 0 <= j < v@.len() ==> v@[j] == it.seq()[j],
    {
        v.push(c);
    }
    assert(v@ =~= s@);
    v
}

/// Whether `c` separates the fields of a line.
pub fn is_field_space_char(c: char) -> (r: bool)
    ensures
        r == is_field_space(c),
{
    c == ' ' || c == '\t' || c == '\n' || c == '\x0C' || c == '\r'
}

/// Whether `c` is white space.
pub fn is_white_space_char(c: char) -> (r: bool)
    ensures
        r == is_white_space(c),
{
    let v: u32 = c as u32;
    (0x09 <= v && v <= 0x0d) || v == 0x20 || v == 0x85 || v == 0xa0 || v == 0x1680 || (0x2000 <= v
        && v <= 0x200a) || v == 0x2028 || v == 0x2029 || v == 0x202f || v == 0x205f || v == 0x3000
}

/// Split a line into its fields.
pub fn split_fields<'a>(line: &'a str) -> (found: Vec<&'a str>)
    ensures
        texts(found@) == fields(line@),
{
    let chars = chars_of(line);
    let n = chars.len();
    let mut found: Vec<&'a str> = Vec::new();
    let mut p: usize = 0;
    while p < n
        invariant
            p <= n,
            n == line@.len(),
            chars@ == line@,
            p == 0 || p == n || is_field_space(line@[p - 1]) || is_field_space(line@[p as int]),
            fields(line@) =~= texts(found@) + fields_from(line@, p as int),
        decreases n - p,
    {
        if is_field_space_char(chars[p]) {
            p += 1;
        } else {
            assert(field_starts(line@, p as int));
            let mut e: usize = p + 1;
            while e < n && !is_field_space_char(chars[e])
                invariant
                    p < e <= n,
                    n == line@.len(),
                    chars@ == line@,
                    !is_field_space(line@[e - 1]),
                    field_end(line@, p as int) == field_end(line@, e as int),
                    fields_from(line@, p + 1) == fields_from(line@, e as int),
                decreases n - e,
            {
                assert(!field_starts(line@, e as int));
                e += 1;
            }
            assert(field_end(line@, e as int) == e);
            let field = line.substring_char(p, e);
            proof {
                let before = texts(found@);
                assert(texts(found@.push(field)) =~= before + seq![line@.subrange(
                    p as int,
                    e as int,
                )]);
            }
            found.push(field);
            p = e;
        }
    }
    assert(fields_from(line@, n as int) =~= Seq::<Seq<char>>::empty());
    found
}

/// Whether a line is to be passed over: blank, or a comment.
pub fn is_skipped(line: &str) -> (r: bool)
    ensures
        r == is_blank_or_comment(line@),
{
    let chars = chars_of(line);
    let n = chars.len();
    let mut p: usize = 0;
    while p < n && is_white_space_char(chars[p])
        invariant
            p <= n,
            n == line@.len(),
            chars@ == line@,
            content_start(line@, 0) == content_start(line@, p as int),
        decreases n - p,
    {
        p += 1;
    }
    p >= n || chars[p] == '#'
}

/// Whether `token` holds `.`, `:` or `-`.
pub fn contains_address_separator(token: &str) -> (r: bool)
    ensures
        r == has_address_separator(token@),
{
    let chars = chars_of(token);
    let mut i: usize = 0;
    while i < chars.len()
        invariant
            i <= chars.len(),
            chars@ == token@,
            forall|j: int| 0 <= j < i ==> !is_address_separator(#[trigger] token@[j]),
        decreases chars.len() - i,
    {
        let c = chars[i];
        if c == '.' || c == ':' || c == '-' {
            return true;
        }
        i += 1;
    }
    false
}

/// The character of the decimal digit `d`, for `0 <= d < 10`.
pub open spec fn digit_char(d: int) -> char {
    ((0x30 + d) as u8) as char
}

/// The decimal digits of `n`, without leading zeros.
pub open spec fn decimal_text(n: nat) -> Seq<char>
    decreases n,
{
    if n < 10 {
        seq![digit_char(n as int)]
    } else {
        decimal_text(n / 10).push(digit_char((n % 10) as int))
    }
}

/// The decimal digit `d` as text.
fn digit_text(d: usize) -> (r: &'static str)
    requires
        d < 10,
    ensures
        r@ == seq![digit_char(d as int)],
{
    proof {
        reveal_strlit("0");
        reveal_strlit("1");
        reveal_strlit("2");
        reveal_strlit("3");
        reveal_strlit("4");
        reveal_strlit("5");
        reveal_strlit("6");
        reveal_strlit("7");
        reveal_strlit("8");
        reveal_strlit("9");
    }
    let r = match d {
        0 => "0",
        1 => "1",
        2 => "2",
        3 => "3",
        4 => "4",
        5 => "5",
        6 => "6",
        7 => "7",
        8 => "8",
        _ => "9",
    };
    assert(r@ =~= seq![digit_char(d as int)]);
    r
}

/// Write the decimal digits of `n` at the end of `text`.
pub fn append_decimal(text: &mut String, n: usize)
    ensures
        final(text)@ == old(text)@ + decimal_text(n as nat),
    decreases n,
{
    if n >= 10 {
        append_decimal(text, n / 10);
    }
    text.append(digit_text(n % 10));
    assert(text@ =~= old(text)@ + decimal_text(n as nat));
}

/// The field that holds offset `p` ends behind `p`, within `s`, at a field
/// space or at the end of `s`; up to there nothing is a field space.
pub proof fn lemma_field_end(s: Seq<char>, p: int)
    requires
        0 <= p < s.len(),
        !is_field_space(s[p]),
    ensures
        p < field_end(s, p) <= s.len(),
        field_end(s, p) < s.len() ==> is_field_space(s[field_end(s, p)]),
        forall|j: int| p <= j < field_end(s, p) ==> !is_field_space(#[trigger] s[j]),
    decreases s.len() - p,
{
    assert(field_end(s, p) == field_end(s, p + 1));
    if p + 1 < s.len() && !is_field_space(s[p + 1]) {
        lemma_field_end(s, p + 1);
    } else {
        assert(field_end(s, p + 1) == p + 1);
    }
}

/// No field of a line is empty, and none holds a field space.
pub proof fn lemma_fields_are_words(s: Seq<char>, p: int)
    requires
        0 <= p,
    ensures
        forall|i: int|
            0 <= i < fields_from(s, p).len() ==> (#[trigger] fields_from(s, p)[i]).len() > 0
                && forall|j: int|
                0 <= j < fields_from(s, p)[i].len() ==> !is_field_space(
                    #[trigger] fields_from(s, p)[i][j],
                ),
    decreases s.len() - p,
{
    if p < s.len() {
        lemma_fields_are_words(s, p + 1);
        if field_starts(s, p) {
            lemma_field_end(s, p);
            let first = s.subrange(p, field_end(s, p));
            let rest = fields_from(s, p + 1);
            assert forall|i: int| 0 <= i < fields_from(s, p).len() implies (#[trigger] fields_from(
                s,
                p,
            )[i]).len() > 0 && forall|j: int|
                0 <= j < fields_from(s, p)[i].len() ==> !is_field_space(
                    #[trigger] fields_from(s, p)[i][j],
                ) by {
                if i == 0 {
                    assert(fields_from(s, p)[0] == first);
                } else {
                    assert(fields_from(s, p)[i] == rest[i - 1]);
                }
            }
        }
    }
}

} // verus!
