//! The textual form of an EUI-48 address: six groups of two hexadecimal
//! digits, joined by `-` or by `:`, the first separator fixing the others.

use vstd::prelude::*;
use vstd::string::StrSliceExecFns;
use crate::address::{MacAddress, SecureOn};

verus! {

/// Kind of parse error.
#[derive(Debug, Clone, Copy, PartialEq, Eq, Hash, Structural)]
pub enum ParseErrorKind {
    /// An invalid byte literal.
    InvalidByteLiteral,
    /// An invalid separator.
    InvalidSeparator,
    /// Trailing data after bytes.
    TrailingBytes,
}

/// Where and why reading an address stopped: the kind of the fault and the
/// offset, in characters, at which it was found.
#[derive(Debug, Clone, Copy, PartialEq, Eq, Hash, Structural)]
pub struct Eui48Error {
    /// What was wrong.
    pub kind: ParseErrorKind,
    /// The offset of the byte group or separator that was wrong.
    pub offset: usize,
}

/// A parse error.
#[derive(Debug, Clone, Copy, PartialEq, Eq, Hash, Structural)]
pub struct ParseError {
    kind: ParseErrorKind,
}

impl ParseError {
    /// The kind of this error, for contracts.
    pub closed spec fn spec_kind(self) -> ParseErrorKind {
        self.kind
    }

    /// The kind of parse error.
    #[must_use]
    pub fn kind(&self) -> (r: ParseErrorKind)
        ensures
            r == self.spec_kind(),
    {
        self.kind
    }

    /// A short sentence that says what was wrong.
    pub fn message(&self) -> (r: &'static str)
        ensures
            r@ == match self.spec_kind() {
                ParseErrorKind::InvalidByteLiteral => "invalid byte literal found in string"@,
                ParseErrorKind::InvalidSeparator => "invalid separator found in string"@,
                ParseErrorKind::TrailingBytes => "trailing bytes found in string"@,
            },
    {
        match self.kind {
            ParseErrorKind::InvalidByteLiteral => "invalid byte literal found in string",
            ParseErrorKind::InvalidSeparator => "invalid separator found in string",
            ParseErrorKind::TrailingBytes => "trailing bytes found in string",
        }
    }
}

/// Number of characters in the text of an address.
pub const EUI48_LEN: usize = 17;

/// The value of a hexadecimal digit, in either case.
pub open spec fn hex_value(c: char) -> Option<u8> {
    let v = c as u32;
    if 0x30 <= v <= 0x39 {
        Some((v - 0x30) as u8)
    } else if 0x61 <= v <= 0x66 {
        Some((v - 0x61 + 10) as u8)
    } else if 0x41 <= v <= 0x46 {
        Some((v - 0x41 + 10) as u8)
    } else {
        None
    }
}

/// The byte that two hexadecimal digits at offset `p` spell, if `p` is
/// followed by two such digits.
pub open spec fn byte_at(s: Seq<char>, p: int) -> Option<u8> {
    if 0 <= p && p + 2 <= s.len() && hex_value(s[p]) is Some && hex_value(s[p + 1]) is Some {
        Some((16 * hex_value(s[p]).unwrap() + hex_value(s[p + 1]).unwrap()) as u8)
    } else {
        None
    }
}

/// Whether `c` may separate the byte groups of an address.
pub open spec fn is_separator(c: char) -> bool {
    c == '-' || c == ':'
}

/// Whether the character behind byte group `i` is a separator, and the one
/// that stands behind the first group.
pub open spec fn separator_ok(s: Seq<char>, i: int) -> bool {
    3 * i + 2 < s.len() && is_separator(s[2]) && s[3 * i + 2] == s[2]
}

/// An address is read in eleven steps: six byte groups, with a separator
/// between each two of them. Step `2 * i` is group `i`, step `2 * i + 1` the
/// separator behind it.
pub open spec fn step_ok(s: Seq<char>, k: int) -> bool {
    if k % 2 == 0 {
        byte_at(s, 3 * (k / 2)) is Some
    } else {
        separator_ok(s, k / 2)
    }
}

/// The offset at which step `k` starts.
pub open spec fn step_offset(k: int) -> int {
    if k % 2 == 0 {
        3 * (k / 2)
    } else {
        3 * (k / 2) + 2
    }
}

/// The first step from `k` on that fails, if one does.
pub open spec fn first_fault(s: Seq<char>, k: int) -> Option<int>
    decreases 11 - k,
{
    if k >= 11 {
        None
    } else if !step_ok(s, k) {
        Some(k)
    } else {
        first_fault(s, k + 1)
    }
}

/// What reading an address at the start of `s` gives: its six bytes, or the
/// first step that fails, with its kind and offset. Whatever follows the
/// seventeenth character is not looked at.
pub open spec fn eui48_spec(s: Seq<char>) -> Result<Seq<u8>, Eui48Error> {
    match first_fault(s, 0) {
        Some(k) => Err(
            Eui48Error {
                kind: if k % 2 == 0 {
                    ParseErrorKind::InvalidByteLiteral
                } else {
                    ParseErrorKind::InvalidSeparator
                },
                offset: step_offset(k) as usize,
            },
        ),
        None => Ok(Seq::new(6, |i: int| byte_at(s, 3 * i).unwrap())),
    }
}

/// What reading `s` as an address and nothing else gives.
pub open spec fn only_eui48_spec(s: Seq<char>) -> Result<Seq<u8>, Eui48Error> {
    match eui48_spec(s) {
        Ok(bytes) => if s.len() == 17 {
            Ok(bytes)
        } else {
            Err(Eui48Error { kind: ParseErrorKind::TrailingBytes, offset: 17 })
        },
        Err(e) => Err(e),
    }
}

/// The value of the hexadecimal digit `c`, if it is one.
pub fn hex_digit(c: char) -> (r: Option<u8>)
    ensures
        r == hex_value(c),
{
    let v: u32 = c as u32;
    if 0x30 <= v && v <= 0x39 {
        Some((v - 0x30) as u8)
    } else if 0x61 <= v && v <= 0x66 {
        Some((v - 0x61 + 10) as u8)
    } else if 0x41 <= v && v <= 0x46 {
        Some((v - 0x41 + 10) as u8)
    } else {
        None
    }
}

/// Read the two hexadecimal digits at offset `p` of `input`, whose length
/// is `n`.
fn hex_byte(input: &str, n: usize, p: usize) -> (r: Option<u8>)
    requires
        n == input@.len(),
        p <= 15,
    ensures
        r == byte_at(input@, p as int),
{
    if p + 2 > n {
        return None;
    }
    match (hex_digit(input.get_char(p)), hex_digit(input.get_char(p + 1))) {
        (Some(high), Some(low)) => Some(16 * high + low),
        _ => None,
    }
}

/// Parse an EUI-48 address at the start of `input`: six groups of two
/// hexadecimal digits, separated by either `-` or `:`. The separator behind
/// the first group is the one that must stand behind the others.
///
/// What follows the address, from offset 17 on, is left alone.
pub fn eui48(input: &str) -> (r: Result<[u8; 6], Eui48Error>)
    ensures
        match r {
            Ok(bytes) => eui48_spec(input@) == Ok::<Seq<u8>, Eui48Error>(bytes@),
            Err(e) => eui48_spec(input@) == Err::<Seq<u8>, Eui48Error>(e),
        },
{
    let n = input.unicode_len();
    let mut bytes: [u8; 6] = [0u8; 6];
    let mut separator: char = ':';
    let mut i: usize = 0;
    while i < 6
        invariant
            i <= 6,
            n == input@.len(),
            first_fault(input@, 0) == first_fault(input@, 2 * i),
            i > 0 ==> 2 < input@.len() && separator == input@[2] && is_separator(separator),
            forall|j: int| 0 <= j < i ==> byte_at(input@, 3 * j) == Some(#[trigger] bytes@[j]),
        decreases 6 - i,
    {
        let p: usize = 3 * i;
        match hex_byte(input, n, p) {
            Some(b) => {
                bytes[i] = b;
            },
            None => {
                assert(!step_ok(input@, 2 * i));
                return Err(Eui48Error { kind: ParseErrorKind::InvalidByteLiteral, offset: p });
            },
        }
        assert(step_ok(input@, 2 * i));
        assert(first_fault(input@, 2 * i) == first_fault(input@, 2 * i + 1));
        if i < 5 {
            let found = if p + 2 < n {
                let c = input.get_char(p + 2);
                if i == 0 {
                    separator = c;
                    c == '-' || c == ':'
                } else {
                    c == separator
                }
            } else {
                false
            };
            if !found {
                assert(!step_ok(input@, 2 * i + 1));
                return Err(Eui48Error { kind: ParseErrorKind::InvalidSeparator, offset: p + 2 });
            }
            assert(step_ok(input@, 2 * i + 1));
            assert(first_fault(input@, 2 * i + 1) == first_fault(input@, 2 * i + 2));
        } else {
            assert(first_fault(input@, 11) == None::<int>);
        }
        i += 1;
    }
    assert(first_fault(input@, 0) == None::<int>) by {
        assert(first_fault(input@, 12) == None::<int>);
    }
    assert(bytes@ =~= Seq::new(6, |i: int| byte_at(input@, 3 * i).unwrap()));
    Ok(bytes)
}

/// Parse `input` as an EUI-48 address and nothing else: any character
/// behind the sixth byte group is an error.
pub fn only_eui48(input: &str) -> (r: Result<[u8; 6], Eui48Error>)
    ensures
        match r {
            Ok(bytes) => only_eui48_spec(input@) == Ok::<Seq<u8>, Eui48Error>(bytes@),
            Err(e) => only_eui48_spec(input@) == Err::<Seq<u8>, Eui48Error>(e),
        },
{
    match eui48(input) {
        Ok(bytes) => {
            if input.unicode_len() == EUI48_LEN {
                Ok(bytes)
            } else {
                Err(Eui48Error { kind: ParseErrorKind::TrailingBytes, offset: EUI48_LEN })
            }
        },
        Err(e) => Err(e),
    }
}

/// Read the whole of `s` as six bytes, keeping of a fault only its kind.
fn eui48_from_string(s: &str) -> (r: Result<[u8; 6], ParseError>)
    ensures
        match r {
            Ok(bytes) => only_eui48_spec(s@) == Ok::<Seq<u8>, Eui48Error>(bytes@),
            Err(e) => only_eui48_spec(s@) is Err && only_eui48_spec(s@)->Err_0.kind
                == e.spec_kind(),
        },
{
    match only_eui48(s) {
        Ok(bytes) => Ok(bytes),
        Err(e) => Err(ParseError { kind: e.kind }),
    }
}

impl MacAddress {
    /// Parse a MAC address from a string: `26-ce-55-a5-c2-33` or
    /// `26:CE:55:A5:C2:33`, with one kind of separator throughout and nothing
    /// before or behind.
    pub fn from_str(s: &str) -> (r: Result<Self, ParseError>)
        ensures
            match r {
                Ok(address) => only_eui48_spec(s@) == Ok::<Seq<u8>, Eui48Error>(address@),
                Err(e) => only_eui48_spec(s@) is Err && only_eui48_spec(s@)->Err_0.kind
                    == e.spec_kind(),
            },
    {
        match eui48_from_string(s) {
            Ok(bytes) => Ok(MacAddress::new(bytes)),
            Err(e) => Err(e),
        }
    }
}

impl SecureOn {
    /// Parse a SecureON token from a string, in the form of a MAC address.
    pub fn from_str(s: &str) -> (r: Result<Self, ParseError>)
        ensures
            match r {
                Ok(token) => only_eui48_spec(s@) == Ok::<Seq<u8>, Eui48Error>(token@),
                Err(e) => only_eui48_spec(s@) is Err && only_eui48_spec(s@)->Err_0.kind
                    == e.spec_kind(),
            },
    {
        match eui48_from_string(s) {
            Ok(bytes) => Ok(SecureOn::new(bytes)),
            Err(e) => Err(e),
        }
    }
}

/// The separator between the byte groups of a written address.
#[derive(Debug, Clone, Copy, PartialEq, Eq, Hash, Structural)]
pub enum Separator {
    /// `:`, as in `AB:0D:EF:12:34:56`.
    Colon,
    /// `-`, as in `AB-0D-EF-12-34-56`.
    Hyphen,
}

impl Separator {
    /// The character that this separator is written as.
    pub open spec fn spec_char(self) -> char {
        match self {
            Separator::Colon => ':',
            Separator::Hyphen => '-',
        }
    }
}

/// The upper-case hexadecimal digit for `n`, for `0 <= n < 16`.
pub open spec fn hex_char(n: int) -> char {
    if n < 10 {
        ((0x30 + n) as u8) as char
    } else {
        ((0x41 + n - 10) as u8) as char
    }
}

/// The text of the six bytes `bytes` with `separator` between them: each
/// byte as two upper-case hexadecimal digits.
pub open spec fn address_text(bytes: Seq<u8>, separator: char) -> Seq<char> {
    Seq::new(
        17,
        |p: int|
            if p % 3 == 2 {
                separator
            } else if p % 3 == 0 {
                hex_char(bytes[p / 3] as int / 16)
            } else {
                hex_char(bytes[p / 3] as int % 16)
            },
    )
}

/// The upper-case hexadecimal digit for `n`, as text.
fn hex_digit_text(n: u8) -> (r: &'static str)
    requires
        n < 16,
    ensures
        r@ == seq![hex_char(n as int)],
{
    proof {
        reveal_strlit("0");
        reveal_strlit("1");
        reveal_strlit("2");
        reveal_strlit("3");
        reveal_strlit("4");
        reveal_strlit("5");
        reveal_strlit("6");
        reveal_strlit("7");
        reveal_strlit("8");
        reveal_strlit("9");
        reveal_strlit("A");
        reveal_strlit("B");
        reveal_strlit("C");
        reveal_strlit("D");
        reveal_strlit("E");
        reveal_strlit("F");
    }
    let r = match n {
        0 => "0",
        1 => "1",
        2 => "2",
        3 => "3",
        4 => "4",
        5 => "5",
        6 => "6",
        7 => "7",
        8 => "8",
        9 => "9",
        10 => "A",
        11 => "B",
        12 => "C",
        13 => "D",
        14 => "E",
        _ => "F",
    };
    assert(r@ =~= seq![hex_char(n as int)]);
    r
}

/// Write six bytes as an address with the given separator.
fn format_eui48(bytes: &[u8; 6], separator: Separator) -> (r: String)
    ensures
        r@ == address_text(bytes@, separator.spec_char()),
{
    proof {
        reveal_strlit(":");
        reveal_strlit("-");
    }
    let between = match separator {
        Separator::Colon => ":",
        Separator::Hyphen => "-",
    };
    assert(between@ =~= seq![separator.spec_char()]);
    let mut text = String::new();
    let mut i: usize = 0;
    while i < 6
        invariant
            i <= 6,
            between@ == seq![separator.spec_char()],
            text@.len() == (if i == 0 { 0int } else { 3 * i - 1 }),
            forall|p: int|
                0 <= p < text@.len() ==> text@[p] == #[trigger] address_text(
                    bytes@,
                    separator.spec_char(),
                )[p],
        decreases 6 - i,
    {
        if i > 0 {
            text.append(between);
        }
        let b = bytes[i];
        text.append(hex_digit_text(b / 16));
        text.append(hex_digit_text(b % 16));
        i += 1;
    }
    assert(text@ =~= address_text(bytes@, separator.spec_char()));
    text
}

impl MacAddress {
    /// This address as text, with `separator` between its bytes.
    pub fn to_string_with(&self, separator: Separator) -> (r: String)
        ensures
            r@ == address_text(self@, separator.spec_char()),
    {
        let bytes = self.octets();
        format_eui48(&bytes, separator)
    }

    /// This address as text, with colons: `AB:0D:EF:12:34:56`.
    pub fn to_string(&self) -> (r: String)
        ensures
            r@ == address_text(self@, ':'),
    {
        self.to_string_with(Separator::Colon)
    }
}

impl SecureOn {
    /// This token as text, with `separator` between its bytes.
    pub fn to_string_with(&self, separator: Separator) -> (r: String)
        ensures
            r@ == address_text(self@, separator.spec_char()),
    {
        let bytes = self.octets();
        format_eui48(&bytes, separator)
    }

    /// This token as text, written as a MAC address is, with colons.
    pub fn to_string(&self) -> (r: String)
        ensures
            r@ == address_text(self@, ':'),
    {
        self.to_string_with(Separator::Colon)
    }
}

/// A hexadecimal digit that was written for `n` reads as `n`.
proof fn lemma_hex_digit_roundtrip(n: int)
    requires
        0 <= n < 16,
    ensures
        hex_value(hex_char(n)) == Some(n as u8),
{
}

/// Six bytes that are written as an address, with either separator, and then
/// read as one give the six bytes again.
pub proof fn lemma_format_then_parse(bytes: Seq<u8>, separator: char)
    requires
        bytes.len() == 6,
        is_separator(separator),
    ensures
        only_eui48_spec(address_text(bytes, separator)) == Ok::<Seq<u8>, Eui48Error>(bytes),
{
    let text = address_text(bytes, separator);
    assert forall|i: int| 0 <= i < 6 implies byte_at(text, 3 * i) == Some(#[trigger] bytes[i]) by {
        let b = bytes[i] as int;
        lemma_hex_digit_roundtrip(b / 16);
        lemma_hex_digit_roundtrip(b % 16);
        assert(text[3 * i] == hex_char(b / 16));
        assert(text[3 * i + 1] == hex_char(b % 16));
    }
    assert forall|k: int| 0 <= k < 11 implies step_ok(text, k) by {
        if k % 2 == 0 {
            assert(byte_at(text, 3 * (k / 2)) == Some(bytes[k / 2]));
        } else {
            assert(text[3 * (k / 2) + 2] == separator);
            assert(text[2] == separator);
        }
    }
    lemma_no_fault(text, 0);
    assert(Seq::new(6, |i: int| byte_at(text, 3 * i).unwrap()) =~= bytes);
}

/// Where every step succeeds, none is the first to fail.
proof fn lemma_no_fault(s: Seq<char>, k: int)
    requires
        0 <= k,
        forall|j: int| k <= j < 11 ==> step_ok(s, j),
    ensures
        first_fault(s, k) == None::<int>,
    decreases 11 - k,
{
    if k < 11 {
        lemma_no_fault(s, k + 1);
    }
}

/// Reading stops at the first step that fails: where every step before
/// step `k` succeeds and step `k` does not, the error has the offset of
/// step `k`, however the text goes on, and the kind that says whether a
/// byte group or a separator was expected there.
pub proof fn lemma_fault_position(s: Seq<char>, k: int)
    requires
        0 <= k < 11,
        forall|j: int| 0 <= j < k ==> step_ok(s, j),
        !step_ok(s, k),
    ensures
        eui48_spec(s) == Err::<Seq<u8>, Eui48Error>(
            Eui48Error {
                kind: if k % 2 == 0 {
                    ParseErrorKind::InvalidByteLiteral
                } else {
                    ParseErrorKind::InvalidSeparator
                },
                offset: step_offset(k) as usize,
            },
        ),
        only_eui48_spec(s) == eui48_spec(s),
{
    lemma_first_fault(s, 0, k);
}

/// Where every step from `from` up to step `k` succeeds and step `k` does
/// not, step `k` is the first to fail.
proof fn lemma_first_fault(s: Seq<char>, from: int, k: int)
    requires
        0 <= from <= k < 11,
        forall|j: int| from <= j < k ==> step_ok(s, j),
        !step_ok(s, k),
    ensures
        first_fault(s, from) == Some(k),
    decreases k - from,
{
    if from < k {
        lemma_first_fault(s, from + 1, k);
    }
}

/// A separator that differs from the first one is found where it stands:
/// an address that is sound up to byte group `i`, with another separator
/// behind that group than behind the first, fails at offset `3 * i + 2`.
pub proof fn lemma_mixed_separators(s: Seq<char>, i: int)
    requires
        1 <= i < 5,
        forall|j: int| 0 <= j <= 2 * i ==> step_ok(s, j),
        3 * i + 2 < s.len(),
        s[3 * i + 2] != s[2],
    ensures
        only_eui48_spec(s) == Err::<Seq<u8>, Eui48Error>(
            Eui48Error { kind: ParseErrorKind::InvalidSeparator, offset: (3 * i + 2) as usize },
        ),
{
    lemma_fault_position(s, 2 * i + 1);
}

/// Reading an address looks at the first seventeen characters only: what
/// stands behind them changes neither the bytes nor the fault.
pub proof fn lemma_reads_a_prefix(s: Seq<char>)
    requires
        s.len() >= 17,
    ensures
        eui48_spec(s.take(17)) == eui48_spec(s),
{
    let t = s.take(17);
    assert forall|k: int| 0 <= k < 11 implies step_ok(t, k) == step_ok(s, k) by {
        if k % 2 == 0 {
            assert(byte_at(t, 3 * (k / 2)) == byte_at(s, 3 * (k / 2)));
        }
    }
    lemma_same_steps(s, t, 0);
    assert(Seq::new(6, |i: int| byte_at(t, 3 * i).unwrap()) =~= Seq::new(
        6,
        |i: int| byte_at(s, 3 * i).unwrap(),
    )) by {
        assert forall|i: int| 0 <= i < 6 implies #[trigger] byte_at(t, 3 * i) == byte_at(
            s,
            3 * i,
        ) by {}
    }
}

/// Two texts of which the same steps succeed fail at the same step.
proof fn lemma_same_steps(s: Seq<char>, t: Seq<char>, k: int)
    requires
        0 <= k,
        forall|j: int| 0 <= j < 11 ==> step_ok(t, j) == step_ok(s, j),
    ensures
        first_fault(t, k) == first_fault(s, k),
    decreases 11 - k,
{
    if k < 11 {
        lemma_same_steps(s, t, k + 1);
    }
}

} // verus!
