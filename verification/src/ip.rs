//! Internet addresses as they stand in a line: the dotted form of version 4
//! and the colon form of version 6.

use vstd::prelude::*;
use crate::eui48::{hex_digit, hex_value};
use crate::text::{chars_of, decimal_value, is_digit};

verus! {

/// An internet address, by its number: 32 bits of version 4 or 128 bits of
/// version 6, the first byte of the address in the highest place.
#[derive(Debug, Clone, Copy, PartialEq, Eq, Hash, Structural)]
pub enum IpAddress {
    /// An address of version 4.
    V4(u32),
    /// An address of version 6.
    V6(u128),
}

/// Where the decimal digits that start at offset `p` end: the offset of
/// the first character from `p` on that is no digit, or the end of `s`.
pub open spec fn digits_end(s: Seq<char>, p: int) -> int
    decreases s.len() - p,
{
    if p < 0 || p >= s.len() || !is_digit(s[p]) {
        p
    } else {
        digits_end(s, p + 1)
    }
}

/// The octet written at offset `p`, with the offset behind it: one to
/// three decimal digits, all that stand there, without a leading zero
/// before another digit, and at most 255.
pub open spec fn octet_at(s: Seq<char>, p: int) -> Option<(u8, int)> {
    let e = digits_end(s, p);
    let digits = s.subrange(p, e);
    if 0 <= p && 1 <= e - p <= 3 && (e - p == 1 || s[p] != '0') && decimal_value(digits) <= 255 {
        Some((decimal_value(digits) as u8, e))
    } else {
        None
    }
}

/// The octet written behind a dot at offset `p`, with the offset behind it.
pub open spec fn dotted_octet_at(s: Seq<char>, p: int) -> Option<(u8, int)> {
    if 0 <= p < s.len() && s[p] == '.' {
        octet_at(s, p + 1)
    } else {
        None
    }
}

/// The number of the version 4 address with the octets `a`, `b`, `c`, `d`.
pub open spec fn v4_number(a: u8, b: u8, c: u8, d: u8) -> u32 {
    (((a as int * 256 + b as int) * 256 + c as int) * 256 + d as int) as u32
}

/// The version 4 address written at offset `p`, with the offset behind it:
/// four octets with a dot between each two.
pub open spec fn ipv4_at(s: Seq<char>, p: int) -> Option<(u32, int)> {
    match octet_at(s, p) {
        Some((a, p1)) => match dotted_octet_at(s, p1) {
            Some((b, p2)) => match dotted_octet_at(s, p2) {
                Some((c, p3)) => match dotted_octet_at(s, p3) {
                    Some((d, p4)) => Some((v4_number(a, b, c, d), p4)),
                    None => None,
                },
                None => None,
            },
            None => None,
        },
        None => None,
    }
}

/// The version 4 address that `s` is, from its first character to its last.
pub open spec fn ipv4_of_text(s: Seq<char>) -> Option<u32> {
    match ipv4_at(s, 0) {
        Some((number, end)) => if end == s.len() {
            Some(number)
        } else {
            None
        },
        None => None,
    }
}

/// Where the hexadecimal digits that start at offset `p` end.
pub open spec fn hex_end(s: Seq<char>, p: int) -> int
    decreases s.len() - p,
{
    if p < 0 || p >= s.len() || hex_value(s[p]) is None {
        p
    } else {
        hex_end(s, p + 1)
    }
}

/// The number that the hexadecimal digits `s` spell.
pub open spec fn hex_number(s: Seq<char>) -> nat
    decreases s.len(),
{
    if s.len() == 0 {
        0
    } else {
        match hex_value(s.last()) {
            Some(digit) => 16 * hex_number(s.drop_last()) + digit as nat,
            None => 0,
        }
    }
}

/// The group of 16 bits written at offset `p`, with the offset behind it:
/// one to four hexadecimal digits, all that stand there.
pub open spec fn group_at(s: Seq<char>, p: int) -> Option<(u16, int)> {
    let e = hex_end(s, p);
    if 0 <= p && 1 <= e - p <= 4 {
        Some((hex_number(s.subrange(p, e)) as u16, e))
    } else {
        None
    }
}

/// Where group `i` of a run of groups starts, if it can start at or behind
/// offset `p`: the first group at `p`, a later one behind a colon at `p`.
pub open spec fn group_start(s: Seq<char>, p: int, i: int) -> Option<int> {
    if i == 0 {
        Some(p)
    } else if 0 <= p < s.len() && s[p] == ':' {
        Some(p + 1)
    } else {
        None
    }
}

/// A run of groups: the groups, the offset behind them, and whether the
/// run ended in an address of version 4.
pub struct GroupRun {
    /// The groups, each of 16 bits.
    pub groups: Seq<u16>,
    /// The offset behind the last group.
    pub end: int,
    /// Whether the last two groups were written as an address of version 4.
    pub dotted: bool,
}

/// The run of groups from group `i` on, which starts at or behind offset
/// `p`, with room for `limit` groups in all. Groups are joined by single
/// colons. Where two groups of room are left, an address of version 4 may
/// stand for the last two groups, and ends the run. The run ends before
/// the first place at which no group can be read.
pub open spec fn groups_from(s: Seq<char>, p: int, i: int, limit: int) -> GroupRun
    decreases limit - i,
{
    if i >= limit {
        GroupRun { groups: Seq::empty(), end: p, dotted: false }
    } else {
        match group_start(s, p, i) {
            Some(q) => {
                if i < limit - 1 && ipv4_at(s, q) is Some {
                    let (number, end) = ipv4_at(s, q).unwrap();
                    GroupRun {
                        groups: seq![(number / 65536) as u16, (number % 65536) as u16],
                        end: end,
                        dotted: true,
                    }
                } else {
                    match group_at(s, q) {
                        Some((group, end)) => {
                            let rest = groups_from(s, end, i + 1, limit);
                            GroupRun { groups: seq![group] + rest.groups, ..rest }
                        },
                        None => GroupRun { groups: Seq::empty(), end: p, dotted: false },
                    }
                }
            },
            None => GroupRun { groups: Seq::empty(), end: p, dotted: false },
        }
    }
}

/// The number of an address of version 6 with the groups `g`, the first
/// group in the highest place.
pub open spec fn v6_number(g: Seq<u16>) -> nat
    decreases g.len(),
{
    if g.len() == 0 {
        0
    } else {
        v6_number(g.drop_last()) * 65536 + g.last() as nat
    }
}

/// `n` groups of zero.
pub open spec fn zero_groups(n: int) -> Seq<u16> {
    Seq::new(n as nat, |i: int| 0u16)
}

/// The eight groups of the version 6 address written at the start of `s`,
/// with the offset behind it. Either eight groups stand there, or fewer
/// with `::` once, which stands for the zero groups that are missing, at
/// least one. An address of version 4 may stand for the last two groups,
/// never before `::`.
pub open spec fn ipv6_at(s: Seq<char>) -> Option<(Seq<u16>, int)> {
    let head = groups_from(s, 0, 0, 8);
    if head.groups.len() == 8 {
        Some((head.groups, head.end))
    } else if head.dotted {
        None
    } else if !(0 <= head.end && head.end + 1 < s.len() && s[head.end] == ':' && s[head.end + 1]
        == ':') {
        None
    } else {
        let tail = groups_from(s, head.end + 2, 0, 7 - head.groups.len());
        Some(
            (
                head.groups + zero_groups(8 - head.groups.len() - tail.groups.len()) + tail.groups,
                tail.end,
            ),
        )
    }
}

/// The version 6 address that `s` is, from its first character to its last.
pub open spec fn ipv6_of_text(s: Seq<char>) -> Option<u128> {
    match ipv6_at(s) {
        Some((groups, end)) => if end == s.len() {
            Some(v6_number(groups) as u128)
        } else {
            None
        },
        None => None,
    }
}

/// The internet address that `s` is, if it is one: of version 4 if it
/// reads as one, else of version 6 if it reads as one.
pub open spec fn ip_of_text(s: Seq<char>) -> Option<IpAddress> {
    match ipv4_of_text(s) {
        Some(number) => Some(IpAddress::V4(number)),
        None => match ipv6_of_text(s) {
            Some(number) => Some(IpAddress::V6(number)),
            None => None,
        },
    }
}

/// Read an octet at offset `p`.
fn read_octet(chars: &Vec<char>, p: usize) -> (r: Option<(u8, usize)>)
    requires
        p <= chars@.len(),
    ensures
        match r {
            Some((value, end)) => octet_at(chars@, p as int) == Some((value, end as int)),
            None => octet_at(chars@, p as int) is None,
        },
{
    let n = chars.len();
    let mut e: usize = p;
    let mut value: u16 = 0;
    while e < n && is_decimal_digit(chars[e])
        invariant
            p <= e <= n,
            n == chars@.len(),
            e - p <= 3,
            digits_end(chars@, p as int) == digits_end(chars@, e as int),
            forall|j: int| p <= j < e ==> is_digit(#[trigger] chars@[j]),
            value == decimal_value(chars@.subrange(p as int, e as int)),
            value <= 999,
        decreases n - e,
    {
        if e - p == 3 {
            proof {
                lemma_digits_end_bounds(chars@, e as int + 1);
            }
            return None;
        }
        proof {
            assert(chars@.subrange(p as int, e + 1).drop_last() =~= chars@.subrange(
                p as int,
                e as int,
            ));
            assert(value < 100) by {
                lemma_decimal_bound(chars@.subrange(p as int, e as int));
            }
        }
        value = value * 10 + (chars[e] as u32 - 0x30) as u16;
        e += 1;
    }
    assert(digits_end(chars@, e as int) == e);
    if e == p || value > 255 || (e - p > 1 && chars[p] == '0') {
        None
    } else {
        Some((value as u8, e))
    }
}

/// Whether `c` is a decimal digit.
pub fn is_decimal_digit(c: char) -> (r: bool)
    ensures
        r == is_digit(c),
{
    let v: u32 = c as u32;
    0x30 <= v && v <= 0x39
}

/// The digits that start at `p` end at `p` or behind it, within `s`.
proof fn lemma_digits_end_bounds(s: Seq<char>, p: int)
    requires
        0 <= p <= s.len(),
    ensures
        p <= digits_end(s, p) <= s.len(),
    decreases s.len() - p,
{
    if p < s.len() && is_digit(s[p]) {
        lemma_digits_end_bounds(s, p + 1);
    }
}

/// Digits spell a number below the power of ten of their count.
proof fn lemma_decimal_bound(s: Seq<char>)
    requires
        forall|j: int| 0 <= j < s.len() ==> is_digit(#[trigger] s[j]),
    ensures
        s.len() == 0 ==> decimal_value(s) == 0,
        s.len() == 1 ==> decimal_value(s) < 10,
        s.len() == 2 ==> decimal_value(s) < 100,
        s.len() == 3 ==> decimal_value(s) < 1000,
    decreases s.len(),
{
    if s.len() > 0 {
        lemma_decimal_bound(s.drop_last());
    }
}

/// Read an octet behind a dot at offset `p`.
fn read_dotted_octet(chars: &Vec<char>, p: usize) -> (r: Option<(u8, usize)>)
    requires
        p <= chars@.len(),
    ensures
        match r {
            Some((value, end)) => dotted_octet_at(chars@, p as int) == Some((value, end as int)),
            None => dotted_octet_at(chars@, p as int) is None,
        },
{
    if p < chars.len() && chars[p] == '.' {
        read_octet(chars, p + 1)
    } else {
        None
    }
}

/// Read a version 4 address at offset `p`.
pub fn read_ipv4(chars: &Vec<char>, p: usize) -> (r: Option<(u32, usize)>)
    requires
        p <= chars@.len(),
    ensures
        match r {
            Some((number, end)) => ipv4_at(chars@, p as int) == Some((number, end as int)) && end
                <= chars@.len(),
            None => ipv4_at(chars@, p as int) is None,
        },
{
    let (a, p1) = match read_octet(chars, p) {
        Some(found) => found,
        None => { return None; },
    };
    proof {
        lemma_digits_end_bounds(chars@, p as int);
    }
    let (b, p2) = match read_dotted_octet(chars, p1) {
        Some(found) => found,
        None => { return None; },
    };
    proof {
        lemma_digits_end_bounds(chars@, p1 + 1);
    }
    let (c, p3) = match read_dotted_octet(chars, p2) {
        Some(found) => found,
        None => { return None; },
    };
    proof {
        lemma_digits_end_bounds(chars@, p2 + 1);
    }
    let (d, p4) = match read_dotted_octet(chars, p3) {
        Some(found) => found,
        None => { return None; },
    };
    proof {
        lemma_digits_end_bounds(chars@, p3 + 1);
    }
    let number: u32 = ((a as u32 * 256 + b as u32) * 256 + c as u32) * 256 + d as u32;
    Some((number, p4))
}

/// The hexadecimal digits that start at `p` end at `p` or behind it.
proof fn lemma_hex_end_bounds(s: Seq<char>, p: int)
    requires
        0 <= p <= s.len(),
    ensures
        p <= hex_end(s, p) <= s.len(),
    decreases s.len() - p,
{
    if p < s.len() && hex_value(s[p]) is Some {
        lemma_hex_end_bounds(s, p + 1);
    }
}

/// Up to four hexadecimal digits spell a number of 16 bits.
proof fn lemma_hex_bound(s: Seq<char>)
    requires
        s.len() <= 4,
    ensures
        s.len() == 0 ==> hex_number(s) == 0,
        s.len() == 1 ==> hex_number(s) < 0x10,
        s.len() == 2 ==> hex_number(s) < 0x100,
        s.len() == 3 ==> hex_number(s) < 0x1000,
        s.len() == 4 ==> hex_number(s) < 0x10000,
    decreases s.len(),
{
    if s.len() > 0 {
        lemma_hex_bound(s.drop_last());
    }
}

/// Read a group of 16 bits at offset `p`.
fn read_group(chars: &Vec<char>, p: usize) -> (r: Option<(u16, usize)>)
    requires
        p <= chars@.len(),
    ensures
        match r {
            Some((value, end)) => group_at(chars@, p as int) == Some((value, end as int)) && end
                <= chars@.len(),
            None => group_at(chars@, p as int) is None,
        },
{
    let n = chars.len();
    let mut e: usize = p;
    let mut value: u16 = 0;
    while e < n && hex_digit(chars[e]).is_some()
        invariant
            p <= e <= n,
            n == chars@.len(),
            e - p <= 4,
            hex_end(chars@, p as int) == hex_end(chars@, e as int),
            value == hex_number(chars@.subrange(p as int, e as int)),
        decreases n - e,
    {
        let digit = hex_digit(chars[e]).unwrap();
        if e - p == 4 {
            proof {
                lemma_hex_end_bounds(chars@, e as int + 1);
            }
            return None;
        }
        proof {
            assert(chars@.subrange(p as int, e + 1).drop_last() =~= chars@.subrange(
                p as int,
                e as int,
            ));
            lemma_hex_bound(chars@.subrange(p as int, e as int));
            lemma_hex_bound(chars@.subrange(p as int, e + 1));
        }
        value = value * 16 + digit as u16;
        e += 1;
    }
    assert(hex_end(chars@, e as int) == e);
    if e == p {
        None
    } else {
        proof {
            lemma_hex_bound(chars@.subrange(p as int, e as int));
        }
        Some((value, e))
    }
}

/// Read a run of groups at offset `p`, with room for `limit` groups.
fn read_groups(chars: &Vec<char>, p: usize, limit: usize) -> (r: (Vec<u16>, usize, bool))
    requires
        p <= chars@.len(),
        limit <= 8,
    ensures
        groups_from(chars@, p as int, 0, limit as int) == (GroupRun {
            groups: r.0@,
            end: r.1 as int,
            dotted: r.2,
        }),
        r.0@.len() <= limit,
        r.1 <= chars@.len(),
{
    let ghost whole = groups_from(chars@, p as int, 0, limit as int);
    let mut groups: Vec<u16> = Vec::new();
    let mut at: usize = p;
    let mut i: usize = 0;
    while i < limit
        invariant
            i <= limit <= 8,
            at <= chars@.len(),
            groups@.len() == i,
            whole == groups_from(chars@, p as int, 0, limit as int),
            whole.groups =~= groups@ + groups_from(chars@, at as int, i as int, limit as int).groups,
            whole.end == groups_from(chars@, at as int, i as int, limit as int).end,
            whole.dotted == groups_from(chars@, at as int, i as int, limit as int).dotted,
        decreases limit - i,
    {
        let start = if i == 0 {
            at
        } else if at < chars.len() && chars[at] == ':' {
            at + 1
        } else {
            return (groups, at, false);
        };
        assert(group_start(chars@, at as int, i as int) == Some(start as int));
        if i < limit - 1 {
            if let Some((number, end)) = read_ipv4(chars, start) {
                groups.push((number / 65536) as u16);
                groups.push((number % 65536) as u16);
                assert(groups@ =~= whole.groups);
                return (groups, end, true);
            }
        }
        match read_group(chars, start) {
            Some((group, end)) => {
                groups.push(group);
                at = end;
                i += 1;
            },
            None => {
                return (groups, at, false);
            },
        }
    }
    (groups, at, false)
}

/// The largest number that `k` groups can spell.
pub open spec fn groups_bound(k: int) -> nat {
    if k <= 0 {
        0
    } else if k == 1 {
        0xffff
    } else if k == 2 {
        0xffff_ffff
    } else if k == 3 {
        0xffff_ffff_ffff
    } else if k == 4 {
        0xffff_ffff_ffff_ffff
    } else if k == 5 {
        0xffff_ffff_ffff_ffff_ffff
    } else if k == 6 {
        0xffff_ffff_ffff_ffff_ffff_ffff
    } else if k == 7 {
        0xffff_ffff_ffff_ffff_ffff_ffff_ffff
    } else {
        0xffff_ffff_ffff_ffff_ffff_ffff_ffff_ffff
    }
}

/// The number of an address of version 6 from its eight groups, given as
/// those before `::`, and those behind it.
fn number_of_groups(head: &Vec<u16>, tail: &Vec<u16>) -> (number: u128)
    requires
        head@.len() + tail@.len() <= 8,
    ensures
        number == v6_number(head@ + zero_groups(8 - head@.len() - tail@.len()) + tail@),
{
    let ghost all = head@ + zero_groups(8 - head@.len() - tail@.len()) + tail@;
    let h = head.len();
    let t = tail.len();
    let mut number: u128 = 0;
    let mut k: usize = 0;
    while k < 8
        invariant
            k <= 8,
            h == head@.len(),
            t == tail@.len(),
            h + t <= 8,
            all == head@ + zero_groups(8 - head@.len() - tail@.len()) + tail@,
            all.len() == 8,
            number == v6_number(all.take(k as int)),
            number <= groups_bound(k as int),
        decreases 8 - k,
    {
        let group: u16 = if k < h {
            head[k]
        } else if k >= 8 - t {
            tail[k - (8 - t)]
        } else {
            0
        };
        assert(group == all[k as int]);
        assert(all.take(k + 1).drop_last() =~= all.take(k as int));
        number = number * 65536 + group as u128;
        k += 1;
    }
    assert(all.take(8) =~= all);
    number
}

/// Read a version 6 address that takes the whole of `chars`.
fn read_ipv6(chars: &Vec<char>) -> (r: Option<u128>)
    ensures
        r == ipv6_of_text(chars@),
{
    let (head, at, dotted) = read_groups(chars, 0, 8);
    let n = chars.len();
    if head.len() == 8 {
        let none: Vec<u16> = Vec::new();
        assert(head@ + zero_groups(0) + none@ =~= head@);
        return if at == n {
            Some(number_of_groups(&head, &none))
        } else {
            None
        };
    }
    if dotted {
        return None;
    }
    if !(n - at >= 2 && chars[at] == ':' && chars[at + 1] == ':') {
        return None;
    }
    let (tail, end, _) = read_groups(chars, at + 2, 7 - head.len());
    if end == n {
        Some(number_of_groups(&head, &tail))
    } else {
        None
    }
}

/// Read `s` as an internet address.
pub fn parse_ip(s: &str) -> (r: Option<IpAddress>)
    ensures
        r == ip_of_text(s@),
{
    let chars = chars_of(s);
    if let Some((number, end)) = read_ipv4(&chars, 0) {
        if end == chars.len() {
            return Some(IpAddress::V4(number));
        }
    }
    match read_ipv6(&chars) {
        Some(number) => Some(IpAddress::V6(number)),
        None => None,
    }
}

} // verus!
