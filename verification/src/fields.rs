//! What a field of a line reads as: a hardware address or SecureON token,
//! a port, or the name of a destination.

use vstd::prelude::*;
use vstd::string::{StrSliceExecFns, StringExecFns};
use std::num::ParseIntError;
use crate::text::{all_digits, append_decimal, decimal_text, decimal_value};

verus! {

/// Why a field is no hardware address and no SecureON token.
#[derive(Debug, Clone, Copy, PartialEq, Eq, Hash, Structural)]
pub enum Mac6Error {
    /// The field is too short or too long: it ends before the sixth byte
    /// is read, or goes on behind it. The number is the length of the
    /// field, in bytes.
    InvalidLength(usize),
    /// A character that cannot stand where it does, and a position: for a
    /// character that is no hexadecimal digit the offset behind it, for a
    /// separator that differs from the first one its own offset.
    InvalidCharacter(char, usize),
}

/// `std::num::ParseIntError`, the error of `u16::from_str`. Nothing is
/// known of what it holds; it is carried to the caller as it came.
#[verifier::external_type_specification]
#[verifier::external_body]
pub struct ExParseIntError(ParseIntError);

/// What `macaddr::MacAddr6` reads from a field: six bytes, or the reason
/// why the field is no address.
pub uninterp spec fn mac6_of_text(s: Seq<char>) -> Result<Seq<u8>, Mac6Error>;

/// The error with which `u16` refuses a text that is no number of 16 bits.
pub uninterp spec fn u16_error(s: Seq<char>) -> ParseIntError;

/// The number that `u16` reads from a text: decimal digits, with a plus
/// sign before them or without, that give a number of at most 65535.
pub open spec fn u16_of_text(s: Seq<char>) -> Option<u16> {
    let digits = if s.len() > 0 && s[0] == '+' {
        s.drop_first()
    } else {
        s
    };
    if digits.len() > 0 && all_digits(digits) && decimal_value(digits) <= 65535 {
        Some(decimal_value(digits) as u16)
    } else {
        None
    }
}

/// Whether `s` starts with a plus sign.
pub open spec fn has_plus_sign(s: Seq<char>) -> bool {
    s.len() > 0 && s[0] == '+'
}

/// What a field reads as when it is taken for a port. A port is written in
/// decimal digits and nothing else, and is at most 65535; leading zeros
/// change nothing. A plus sign is no digit: a field that starts with one
/// is refused as a plus sign alone is.
pub open spec fn port_of_text(s: Seq<char>) -> Result<u16, ParseIntError> {
    if has_plus_sign(s) {
        Err(u16_error(seq!['+']))
    } else {
        match u16_of_text(s) {
            Some(port) => Ok(port),
            None => Err(u16_error(s)),
        }
    }
}

/// A text that is a port is made of decimal digits only, and spells the
/// port; and such a text of at most 65535 is a port.
pub proof fn lemma_port_is_decimal(s: Seq<char>)
    ensures
        port_of_text(s) is Ok <==> s.len() > 0 && all_digits(s) && decimal_value(s) <= 65535,
        port_of_text(s) is Ok ==> port_of_text(s)->Ok_0 == decimal_value(s),
{
    if s.len() > 0 && s[0] == '+' {
        assert(!crate::text::is_digit(s[0]));
    }
}

/// Calls `FromStr::from_str` of `macaddr::MacAddr6`, and `into_array` on
/// what it accepts. The contract only gives the outcome a name: the same
/// text always reads the same way.
#[verifier::external_body]
pub(crate) fn parse_mac6(s: &str) -> (r: Result<[u8; 6], Mac6Error>)
    ensures
        match r {
            Ok(bytes) => mac6_of_text(s@) == Ok::<Seq<u8>, Mac6Error>(bytes@),
            Err(e) => mac6_of_text(s@) == Err::<Seq<u8>, Mac6Error>(e),
        },
{
    match s.parse::<macaddr::MacAddr6>() {
        Ok(address) => Ok(address.into_array()),
        Err(macaddr::ParseError::InvalidLength(n)) => Err(Mac6Error::InvalidLength(n)),
        Err(macaddr::ParseError::InvalidCharacter(c, n)) => Err(Mac6Error::InvalidCharacter(c, n)),
    }
}

/// Calls `FromStr::from_str` of `u16`. It accepts decimal digits, with a
/// plus sign before them or without, whose number fits 16 bits, and gives
/// that number; anything else it refuses with an error that the text
/// decides.
#[verifier::external_body]
pub(crate) fn parse_u16(s: &str) -> (r: Result<u16, ParseIntError>)
    ensures
        match r {
            Ok(number) => u16_of_text(s@) == Some(number),
            Err(e) => u16_of_text(s@) is None && e == u16_error(s@),
        },
{
    s.parse::<u16>()
}

/// Read a field as a port.
pub fn parse_port(s: &str) -> (r: Result<u16, ParseIntError>)
    ensures
        r == port_of_text(s@),
{
    if s.unicode_len() > 0 && s.get_char(0) == '+' {
        proof {
            reveal_strlit("+");
            assert("+"@ =~= seq!['+']);
            assert("+"@.drop_first().len() == 0);
        }
        parse_u16("+")
    } else {
        parse_u16(s)
    }
}

/// What a field reads as, whatever it will be taken for.
pub struct FieldModel {
    /// The characters of the field.
    pub text: Seq<char>,
    /// The field taken for a hardware address or a SecureON token.
    pub address: Result<Seq<u8>, Mac6Error>,
    /// The field taken for a port.
    pub port: Result<u16, ParseIntError>,
}

/// What the text `s` reads as.
pub open spec fn field_of_text(s: Seq<char>) -> FieldModel {
    FieldModel { text: s, address: mac6_of_text(s), port: port_of_text(s) }
}

/// One field of a line, with what it reads as.
#[derive(Debug, PartialEq, Eq)]
pub struct Field {
    /// The characters of the field.
    pub text: String,
    /// The field taken for a hardware address or a SecureON token.
    pub address: Result<[u8; 6], Mac6Error>,
    /// The field taken for a port.
    pub port: Result<u16, ParseIntError>,
}

impl View for Field {
    type V = FieldModel;

    open spec fn view(&self) -> FieldModel {
        FieldModel {
            text: self.text@,
            address: match self.address {
                Ok(bytes) => Ok(bytes@),
                Err(e) => Err(e),
            },
            port: self.port,
        }
    }
}

impl Field {
    /// Read a field of a line.
    pub fn read(token: &str) -> (r: Self)
        ensures
            r@ == field_of_text(token@),
    {
        Field { text: token.to_owned(), address: parse_mac6(token), port: parse_port(token) }
    }
}

/// What an error of `u16::from_str` says of itself.
pub uninterp spec fn port_error_text(e: ParseIntError) -> Seq<char>;

/// Calls `to_string` on an error of `u16::from_str`, which writes it as its
/// `Display` does. The contract only gives that text a name.
#[verifier::external_body]
pub(crate) fn port_error_message(e: &ParseIntError) -> (r: String)
    ensures
        r@ == port_error_text(*e),
{
    e.to_string()
}

/// `Clone::clone` of `std::num::ParseIntError`, which the errors of this
/// crate need to be cloned themselves. Nothing is claimed of the clone.
pub assume_specification[ <ParseIntError as Clone>::clone ](e: &ParseIntError) -> (r:
    ParseIntError)
;

/// `String::push` appends the given character to the end of the string.
pub assume_specification[ String::push ](text: &mut String, c: char)
    ensures
        final(text)@ == old(text)@.push(c),
;

impl Mac6Error {
    /// What this error says of itself.
    pub open spec fn spec_message(self) -> Seq<char> {
        match self {
            Mac6Error::InvalidLength(length) => "Invalid length of "@ + decimal_text(length as nat)
                + " characters"@,
            Mac6Error::InvalidCharacter(c, position) => ("Unexpected character '"@).push(c)
                + "' at position "@ + decimal_text(position as nat),
        }
    }

    /// A sentence that says what was wrong with the field.
    pub fn message(&self) -> (r: String)
        ensures
            r@ == self.spec_message(),
    {
        match *self {
            Mac6Error::InvalidLength(length) => {
                let mut text = String::from_str("Invalid length of ");
                append_decimal(&mut text, length);
                text.append(" characters");
                text
            },
            Mac6Error::InvalidCharacter(c, position) => {
                let mut text = String::from_str("Unexpected character '");
                text.push(c);
                text.append("' at position ");
                append_decimal(&mut text, position);
                text
            },
        }
    }
}

} // verus!
