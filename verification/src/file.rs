//! Parse "wakeup files".
//!
//! A "wakeup file" is a file containing lines denoting systems to wake up.
//! Each line is a whitespace-separated sequence of hardware address, and
//! optionally packet destination, port, and SecureON token. See
//! [`WakeUpTarget`] for details.
//!
//! Blank lines and lines starting with `#` are ignored.

use vstd::prelude::*;
use vstd::string::StringExecFns;
use std::num::ParseIntError;
use crate::address::{MacAddress, SecureOn};
use crate::fields::{
    field_of_text, port_error_message, port_error_text, Field, FieldModel, Mac6Error,
};
use crate::ip::{ip_of_text, parse_ip, IpAddress};
use crate::text::{
    append_decimal, contains_address_separator, decimal_text, fields, has_address_separator,
    is_blank_or_comment, is_skipped, split_fields, texts,
};

verus! {

/// A destination to send a magic packet to.
#[derive(Debug, Clone, PartialEq, Eq)]
pub enum MagicPacketDestination {
    /// A DNS name to be resolved into an IP address.
    Dns(String),
    /// An IP address.
    Ip(IpAddress),
}

/// What a destination holds: the characters of a name, or an address.
pub enum DestinationModel {
    /// A DNS name.
    Dns(Seq<char>),
    /// An IP address.
    Ip(IpAddress),
}

impl View for MagicPacketDestination {
    type V = DestinationModel;

    open spec fn view(&self) -> DestinationModel {
        match self {
            MagicPacketDestination::Dns(name) => DestinationModel::Dns(name@),
            MagicPacketDestination::Ip(ip) => DestinationModel::Ip(*ip),
        }
    }
}

/// The destination that a text names: the internet address that it spells,
/// or else the text itself as a DNS name, whatever it holds.
pub open spec fn destination_of_text(text: Seq<char>) -> DestinationModel {
    match ip_of_text(text) {
        Some(ip) => DestinationModel::Ip(ip),
        None => DestinationModel::Dns(text),
    }
}

impl From<String> for MagicPacketDestination {
    fn from(value: String) -> (r: Self) {
        match parse_ip(value.as_str()) {
            Some(ip) => MagicPacketDestination::Ip(ip),
            None => MagicPacketDestination::Dns(value),
        }
    }
}

impl vstd::std_specs::convert::FromSpecImpl<String> for MagicPacketDestination {
    open spec fn obeys_from_spec() -> bool {
        true
    }

    open spec fn from_spec(value: String) -> Self {
        match ip_of_text(value@) {
            Some(ip) => MagicPacketDestination::Ip(ip),
            None => MagicPacketDestination::Dns(value),
        }
    }
}

/// The view of an optional destination.
pub open spec fn destination_view(destination: Option<MagicPacketDestination>) -> Option<
    DestinationModel,
> {
    match destination {
        Some(d) => Some(d@),
        None => None,
    }
}

/// What a wake up target holds.
pub struct TargetModel {
    /// The six bytes of the hardware address.
    pub hardware_address: Seq<u8>,
    /// Where to send the magic packet, if the target says so.
    pub destination: Option<DestinationModel>,
    /// The port to send the magic packet to, if the target says so.
    pub port: Option<u16>,
    /// The six bytes of the SecureON token, if the target has one.
    pub secure_on: Option<Seq<u8>>,
}

/// The target that has the hardware address `mac` and nothing else.
pub open spec fn bare_target(mac: Seq<u8>) -> TargetModel {
    TargetModel { hardware_address: mac, destination: None, port: None, secure_on: None }
}

/// A single target to wake up.
///
/// # String format
///
/// Wake up targets can be parsed from strings in the following format:
///
/// ```text
/// <hardware-address> [<IP/DNS name>] [<port>] [<secure-on>]
/// ```
///
/// Except for the hardware address all other fields are optional.
///
/// The MAC address is given as six hexadecimal bytes separated by dashes or
/// colons, e.g `XX-XX-XX-XX-XX-XX` or `XX:XX:XX:XX:XX:XX`.
///
/// The SecureON is given in the same format.
#[derive(Debug, Clone, PartialEq, Eq)]
pub struct WakeUpTarget {
    hardware_address: MacAddress,
    packet_destination: Option<MagicPacketDestination>,
    port: Option<u16>,
    secure_on: Option<SecureOn>,
}

impl View for WakeUpTarget {
    type V = TargetModel;

    closed spec fn view(&self) -> TargetModel {
        TargetModel {
            hardware_address: self.hardware_address@,
            destination: destination_view(self.packet_destination),
            port: self.port,
            secure_on: match self.secure_on {
                Some(token) => Some(token@),
                None => None,
            },
        }
    }
}

/// An invalid wake up target.
#[derive(Debug, Clone, PartialEq, Eq)]
pub enum WakeUpTargetParseError {
    /// The string was empty or consistent only of whitespace,
    Empty,
    /// The hardware address in field 1 was invalid.
    InvalidHardwareAddress(Mac6Error),
    /// The port number in the given field was invalid.
    InvalidPort(u8, ParseIntError),
    /// The SecureON token in the given was invalid.
    InvalidSecureOn(u8, Mac6Error),
    /// The line had more than the expected number of fields.
    TooManyFields(usize),
}

impl WakeUpTargetParseError {
    /// What this error says of itself: the field that was wrong, by its
    /// number, and why.
    pub open spec fn spec_message(self) -> Seq<char> {
        match self {
            WakeUpTargetParseError::Empty => "Line empty"@,
            WakeUpTargetParseError::InvalidHardwareAddress(e) => "Field 1: Invalid hardware address: "@
                + e.spec_message(),
            WakeUpTargetParseError::InvalidPort(field, e) => "Field "@ + decimal_text(field as nat)
                + ": Invalid port number: "@ + port_error_text(e),
            WakeUpTargetParseError::InvalidSecureOn(field, e) => "Field "@ + decimal_text(
                field as nat,
            ) + ": Invalid SecureON token: "@ + e.spec_message(),
            WakeUpTargetParseError::TooManyFields(count) => "Expected 4 fields, got "@
                + decimal_text(count as nat),
        }
    }

    /// A sentence that says what was wrong with the line.
    pub fn message(&self) -> (r: String)
        ensures
            r@ == self.spec_message(),
    {
        match self {
            WakeUpTargetParseError::Empty => String::from_str("Line empty"),
            WakeUpTargetParseError::InvalidHardwareAddress(e) => {
                let mut text = String::from_str("Field 1: Invalid hardware address: ");
                text.append(e.message().as_str());
                text
            },
            WakeUpTargetParseError::InvalidPort(field, e) => {
                let mut text = String::from_str("Field ");
                append_decimal(&mut text, *field as usize);
                text.append(": Invalid port number: ");
                text.append(port_error_message(e).as_str());
                text
            },
            WakeUpTargetParseError::InvalidSecureOn(field, e) => {
                let mut text = String::from_str("Field ");
                append_decimal(&mut text, *field as usize);
                text.append(": Invalid SecureON token: ");
                text.append(e.message().as_str());
                text
            },
            WakeUpTargetParseError::TooManyFields(count) => {
                let mut text = String::from_str("Expected 4 fields, got ");
                append_decimal(&mut text, *count);
                text
            },
        }
    }
}

/// The target that a line of one field describes.
pub open spec fn target_of_one(f1: FieldModel) -> Result<TargetModel, WakeUpTargetParseError> {
    match f1.address {
        Ok(mac) => Ok(bare_target(mac)),
        Err(e) => Err(WakeUpTargetParseError::InvalidHardwareAddress(e)),
    }
}

/// The target that a line of two fields describes. The second field is a
/// SecureON token if it reads as one, else a port if it reads as one, else
/// a destination.
pub open spec fn target_of_two(f1: FieldModel, f2: FieldModel) -> Result<
    TargetModel,
    WakeUpTargetParseError,
> {
    match f1.address {
        Ok(mac) => Ok(
            match f2.address {
                Ok(token) => TargetModel { secure_on: Some(token), ..bare_target(mac) },
                Err(_) => match f2.port {
                    Ok(port) => TargetModel { port: Some(port), ..bare_target(mac) },
                    Err(_) => TargetModel {
                        destination: Some(destination_of_text(f2.text)),
                        ..bare_target(mac)
                    },
                },
            },
        ),
        Err(e) => Err(WakeUpTargetParseError::InvalidHardwareAddress(e)),
    }
}

/// The target that a line of three fields describes. Where the third field
/// reads as a SecureON token, the second is a port if it reads as one and
/// else a destination. Where the third field does not, but holds `.`, `:`
/// or `-`, it is a token gone wrong. Else the second field is a
/// destination and the third must be a port.
pub open spec fn target_of_three(f1: FieldModel, f2: FieldModel, f3: FieldModel) -> Result<
    TargetModel,
    WakeUpTargetParseError,
> {
    match f1.address {
        Ok(mac) => match f3.address {
            Ok(token) => Ok(
                match f2.port {
                    Ok(port) => TargetModel {
                        port: Some(port),
                        secure_on: Some(token),
                        ..bare_target(mac)
                    },
                    Err(_) => TargetModel {
                        destination: Some(destination_of_text(f2.text)),
                        secure_on: Some(token),
                        ..bare_target(mac)
                    },
                },
            ),
            Err(e) => if has_address_separator(f3.text) {
                Err(WakeUpTargetParseError::InvalidSecureOn(3, e))
            } else {
                match f3.port {
                    Ok(port) => Ok(
                        TargetModel {
                            destination: Some(destination_of_text(f2.text)),
                            port: Some(port),
                            ..bare_target(mac)
                        },
                    ),
                    Err(e) => Err(WakeUpTargetParseError::InvalidPort(3, e)),
                }
            },
        },
        Err(e) => Err(WakeUpTargetParseError::InvalidHardwareAddress(e)),
    }
}

/// The target that a line of four fields describes: hardware address,
/// destination, port and SecureON token, each in its place. The first
/// field that does not read as what it must be gives the error.
pub open spec fn target_of_four(
    f1: FieldModel,
    f2: FieldModel,
    f3: FieldModel,
    f4: FieldModel,
) -> Result<TargetModel, WakeUpTargetParseError> {
    match f1.address {
        Ok(mac) => match f3.port {
            Ok(port) => match f4.address {
                Ok(token) => Ok(
                    TargetModel {
                        hardware_address: mac,
                        destination: Some(destination_of_text(f2.text)),
                        port: Some(port),
                        secure_on: Some(token),
                    },
                ),
                Err(e) => Err(WakeUpTargetParseError::InvalidSecureOn(4, e)),
            },
            Err(e) => Err(WakeUpTargetParseError::InvalidPort(3, e)),
        },
        Err(e) => Err(WakeUpTargetParseError::InvalidHardwareAddress(e)),
    }
}

/// The target that the fields of a line describe, by their number.
pub open spec fn target_of_fields(f: Seq<FieldModel>) -> Result<
    TargetModel,
    WakeUpTargetParseError,
> {
    if f.len() == 0 {
        Err(WakeUpTargetParseError::Empty)
    } else if f.len() == 1 {
        target_of_one(f[0])
    } else if f.len() == 2 {
        target_of_two(f[0], f[1])
    } else if f.len() == 3 {
        target_of_three(f[0], f[1], f[2])
    } else if f.len() == 4 {
        target_of_four(f[0], f[1], f[2], f[3])
    } else {
        Err(WakeUpTargetParseError::TooManyFields(f.len() as usize))
    }
}

/// What each of the texts `t` reads as.
pub open spec fn readings(t: Seq<Seq<char>>) -> Seq<FieldModel> {
    Seq::new(t.len(), |i: int| field_of_text(t[i]))
}

/// The views of the fields `f`.
pub open spec fn field_views(f: Seq<Field>) -> Seq<FieldModel> {
    Seq::new(f.len(), |i: int| f[i]@)
}

/// The target that a line describes.
pub open spec fn target_of_line(line: Seq<char>) -> Result<TargetModel, WakeUpTargetParseError> {
    target_of_fields(readings(fields(line)))
}

/// The outcome of reading a target, with the target by its view.
pub open spec fn target_result(r: Result<WakeUpTarget, WakeUpTargetParseError>) -> Result<
    TargetModel,
    WakeUpTargetParseError,
> {
    match r {
        Ok(target) => Ok(target@),
        Err(e) => Err(e),
    }
}

impl WakeUpTarget {
    /// Create a new wake up target for the given `hardware_address`.
    #[must_use]
    pub fn new(hardware_address: MacAddress) -> (r: Self)
        ensures
            r@ == bare_target(hardware_address@),
    {
        Self { hardware_address, packet_destination: None, port: None, secure_on: None }
    }

    /// Get the hardware address.
    #[must_use]
    pub fn hardware_address(&self) -> (r: MacAddress)
        ensures
            r@ == self@.hardware_address,
    {
        self.hardware_address
    }

    /// Get the host to send the magic packet to if any.
    ///
    /// This is usually not the same host as the one to wake up; rather it
    /// should be a broadcast address.
    #[must_use]
    pub fn packet_destination(&self) -> (r: Option<&MagicPacketDestination>)
        ensures
            match r {
                Some(destination) => self@.destination == Some(destination@),
                None => self@.destination is None,
            },
    {
        self.packet_destination.as_ref()
    }

    /// Give up the target for the host to send the magic packet to, if it
    /// names one.
    #[must_use]
    pub fn into_packet_destination(self) -> (r: Option<MagicPacketDestination>)
        ensures
            destination_view(r) == self@.destination,
    {
        self.packet_destination
    }

    /// Get the port to send the magic packet to.
    #[must_use]
    pub fn port(&self) -> (r: Option<u16>)
        ensures
            r == self@.port,
    {
        self.port
    }

    /// Get the SecureON token to include in the packet if any.
    #[must_use]
    pub fn secure_on(&self) -> (r: Option<SecureOn>)
        ensures
            match r {
                Some(token) => self@.secure_on == Some(token@),
                None => self@.secure_on is None,
            },
    {
        self.secure_on
    }

    /// Change the hardware address.
    #[must_use]
    pub fn with_hardware_address(self, hardware_address: MacAddress) -> (r: Self)
        ensures
            r@ == (TargetModel { hardware_address: hardware_address@, ..self@ }),
    {
        Self { hardware_address, ..self }
    }

    /// Change the packet destination.
    #[must_use]
    pub fn with_packet_destination(
        self,
        packet_destination: Option<MagicPacketDestination>,
    ) -> (r: Self)
        ensures
            r@ == (TargetModel { destination: destination_view(packet_destination), ..self@ }),
    {
        Self { packet_destination, ..self }
    }

    /// Change the packet destination.
    #[must_use]
    pub fn with_dns_packet_destination(self, dns: String) -> (r: Self)
        ensures
            r@ == (TargetModel { destination: Some(DestinationModel::Dns(dns@)), ..self@ }),
    {
        Self { packet_destination: Some(MagicPacketDestination::Dns(dns)), ..self }
    }

    /// Change the packet destination.
    #[must_use]
    pub fn with_ip_packet_destination(self, ip: IpAddress) -> (r: Self)
        ensures
            r@ == (TargetModel { destination: Some(DestinationModel::Ip(ip)), ..self@ }),
    {
        Self { packet_destination: Some(MagicPacketDestination::Ip(ip)), ..self }
    }

    /// Change the destination port for the magic packet.
    #[must_use]
    pub fn with_port(self, port: Option<u16>) -> (r: Self)
        ensures
            r@ == (TargetModel { port: port, ..self@ }),
    {
        Self { port, ..self }
    }

    /// Change the SecureON token for this target.
    #[must_use]
    pub fn with_secure_on(self, secure_on: Option<SecureOn>) -> (r: Self)
        ensures
            r@ == (TargetModel {
                secure_on: match secure_on {
                    Some(token) => Some(token@),
                    None => None,
                },
                ..self@
            }),
    {
        Self { secure_on, ..self }
    }

    /// The target that a line of one field describes.
    fn from_one(f1: Field) -> (r: Result<Self, WakeUpTargetParseError>)
        ensures
            target_result(r) == target_of_one(f1@),
    {
        match f1.address {
            Ok(mac) => Ok(Self::new(MacAddress::new(mac))),
            Err(e) => Err(WakeUpTargetParseError::InvalidHardwareAddress(e)),
        }
    }

    /// The target that a line of two fields describes.
    fn from_two(f1: Field, f2: Field) -> (r: Result<Self, WakeUpTargetParseError>)
        ensures
            target_result(r) == target_of_two(f1@, f2@),
    {
        let line = Self::from_one(f1)?;
        if let Ok(token) = f2.address {
            Ok(line.with_secure_on(Some(SecureOn::new(token))))
        } else if let Ok(port) = f2.port {
            Ok(line.with_port(Some(port)))
        } else {
            Ok(line.with_packet_destination(Some(MagicPacketDestination::from(f2.text))))
        }
    }

    /// The target that a line of three fields describes.
    fn from_three(f1: Field, f2: Field, f3: Field) -> (r: Result<Self, WakeUpTargetParseError>)
        ensures
            target_result(r) == target_of_three(f1@, f2@, f3@),
    {
        let line = Self::from_one(f1)?;
        match f3.address {
            Ok(token) => {
                let line = line.with_secure_on(Some(SecureOn::new(token)));
                if let Ok(port) = f2.port {
                    Ok(line.with_port(Some(port)))
                } else {
                    Ok(line.with_packet_destination(Some(MagicPacketDestination::from(f2.text))))
                }
            },
            Err(e) => {
                if contains_address_separator(f3.text.as_str()) {
                    Err(WakeUpTargetParseError::InvalidSecureOn(3, e))
                } else {
                    match f3.port {
                        Ok(port) => Ok(
                            line.with_packet_destination(
                                Some(MagicPacketDestination::from(f2.text)),
                            ).with_port(Some(port)),
                        ),
                        Err(e) => Err(WakeUpTargetParseError::InvalidPort(3, e)),
                    }
                }
            },
        }
    }

    /// The target that a line of four fields describes.
    fn from_four(f1: Field, f2: Field, f3: Field, f4: Field) -> (r: Result<
        Self,
        WakeUpTargetParseError,
    >)
        ensures
            target_result(r) == target_of_four(f1@, f2@, f3@, f4@),
    {
        let line = Self::from_one(f1)?;
        let line = line.with_packet_destination(Some(MagicPacketDestination::from(f2.text)));
        let port = match f3.port {
            Ok(port) => port,
            Err(e) => { return Err(WakeUpTargetParseError::InvalidPort(3, e)); },
        };
        let token = match f4.address {
            Ok(token) => SecureOn::new(token),
            Err(e) => { return Err(WakeUpTargetParseError::InvalidSecureOn(4, e)); },
        };
        Ok(line.with_port(Some(port)).with_secure_on(Some(token)))
    }

    /// Make a target of the fields of a line, each with what it reads as.
    ///
    /// One field is the hardware address. Of four fields each has its
    /// place: hardware address, destination, port, SecureON token. With two
    /// or three fields, what the later fields read as decides what they
    /// are.
    pub fn from_fields(fields: Vec<Field>) -> (r: Result<Self, WakeUpTargetParseError>)
        ensures
            target_result(r) == target_of_fields(field_views(fields@)),
    {
        let mut fields = fields;
        let n = fields.len();
        let last = match fields.pop() {
            Some(field) => field,
            None => { return Err(WakeUpTargetParseError::Empty); },
        };
        let third = match fields.pop() {
            Some(field) => field,
            None => { return Self::from_one(last); },
        };
        let second = match fields.pop() {
            Some(field) => field,
            None => { return Self::from_two(third, last); },
        };
        let first = match fields.pop() {
            Some(field) => field,
            None => { return Self::from_three(second, third, last); },
        };
        if fields.len() == 0 {
            Self::from_four(first, second, third, last)
        } else {
            Err(WakeUpTargetParseError::TooManyFields(n))
        }
    }

    /// Parse a wake up target from a line: split the line into its fields,
    /// read each, and make a target of them.
    pub fn from_str(s: &str) -> (r: Result<Self, WakeUpTargetParseError>)
        ensures
            target_result(r) == target_of_line(s@),
    {
        let tokens = split_fields(s);
        let n = tokens.len();
        if n == 0 {
            return Err(WakeUpTargetParseError::Empty);
        }
        if n > 4 {
            return Err(WakeUpTargetParseError::TooManyFields(n));
        }
        let mut read: Vec<Field> = Vec::new();
        let mut i: usize = 0;
        while i < n
            invariant
                i <= n,
                n == tokens@.len(),
                texts(tokens@) == fields(s@),
                read@.len() == i,
                forall|j: int| 0 <= j < i ==> (#[trigger] read@[j])@ == field_of_text(fields(s@)[j]),
            decreases n - i,
        {
            assert(texts(tokens@)[i as int] == tokens@[i as int]@);
            read.push(Field::read(tokens[i]));
            i += 1;
        }
        assert(field_views(read@) =~= readings(fields(s@)));
        Self::from_fields(read)
    }
}

/// A line without fields is empty, and a line of more than four fields has
/// too many, however many they are and whatever they hold.
pub proof fn lemma_field_count(line: Seq<char>)
    ensures
        fields(line).len() == 0 ==> target_of_line(line) == Err::<
            TargetModel,
            WakeUpTargetParseError,
        >(WakeUpTargetParseError::Empty),
        fields(line).len() > 4 ==> target_of_line(line) == Err::<
            TargetModel,
            WakeUpTargetParseError,
        >(WakeUpTargetParseError::TooManyFields(fields(line).len() as usize)),
{
}

/// A line that describes a target names its hardware address in its first
/// field, and has at most four fields.
pub proof fn lemma_target_has_address(line: Seq<char>)
    requires
        target_of_line(line) is Ok,
    ensures
        1 <= fields(line).len() <= 4,
        field_of_text(fields(line)[0]).address == Ok::<Seq<u8>, Mac6Error>(
            target_of_line(line)->Ok_0.hardware_address,
        ),
{
}

/// An invalid [`WakeUpTarget`] in a sequence of lines.
#[derive(Debug, Clone, PartialEq, Eq)]
pub struct ParseLineError(usize, WakeUpTargetParseError);

impl View for ParseLineError {
    type V = (usize, WakeUpTargetParseError);

    closed spec fn view(&self) -> (usize, WakeUpTargetParseError) {
        (self.0, self.1)
    }
}

impl ParseLineError {
    /// Create a new error.
    ///
    /// `line_no` denotes the 1-based number of the faulty line, and `error` is
    /// the error which occurred while parsing that line.
    #[must_use]
    pub fn new(line_no: usize, error: WakeUpTargetParseError) -> (r: Self)
        ensures
            r@ == (line_no, error),
    {
        Self(line_no, error)
    }

    /// The line number at which the error occurred.
    #[must_use]
    pub fn line_no(&self) -> (r: usize)
        ensures
            r == self@.0,
    {
        self.0
    }

    /// The error at this line.
    #[must_use]
    pub fn error(&self) -> (r: &WakeUpTargetParseError)
        ensures
            *r == self@.1,
    {
        &self.1
    }
}

impl ParseLineError {
    /// What this error says of itself: the number of the line, and what was
    /// wrong with it.
    pub open spec fn spec_message(self) -> Seq<char> {
        "Line "@ + decimal_text(self@.0 as nat) + ": "@ + self@.1.spec_message()
    }

    /// A sentence that says which line was wrong, and why.
    pub fn message(&self) -> (r: String)
        ensures
            r@ == self.spec_message(),
    {
        let mut text = String::from_str("Line ");
        append_decimal(&mut text, self.0);
        text.append(": ");
        text.append(self.1.message().as_str());
        text
    }
}

/// What a line of a file gives, with the target by its view and the error
/// by its line number and its cause.
pub type LineOutcome = Result<TargetModel, (usize, WakeUpTargetParseError)>;

/// What the line at index `i`, counted from 0, gives: nothing where it is
/// blank or a comment, else its target, or the error with the number of
/// the line, counted from 1.
pub open spec fn outcome_of_line(i: int, line: Seq<char>) -> Option<LineOutcome> {
    if is_blank_or_comment(line) {
        None
    } else {
        Some(
            match target_of_line(line) {
                Ok(target) => Ok(target),
                Err(e) => Err(((i + 1) as usize, e)),
            },
        )
    }
}

/// What the first `n` of the lines give, in the order of the lines. A line
/// that is passed over gives nothing, and a line in error does not stop
/// the lines behind it from being read.
pub open spec fn outcomes_of_lines(lines: Seq<Seq<char>>, n: int) -> Seq<LineOutcome>
    decreases n,
{
    if n <= 0 {
        Seq::empty()
    } else {
        let before = outcomes_of_lines(lines, n - 1);
        match outcome_of_line(n - 1, lines[n - 1]) {
            Some(outcome) => before.push(outcome),
            None => before,
        }
    }
}

/// The view of what a line gave.
pub open spec fn outcome_view(r: Result<WakeUpTarget, ParseLineError>) -> LineOutcome {
    match r {
        Ok(target) => Ok(target@),
        Err(e) => Err(e@),
    }
}

/// The views of what lines gave.
pub open spec fn outcome_views(r: Seq<Result<WakeUpTarget, ParseLineError>>) -> Seq<LineOutcome> {
    Seq::new(r.len(), |i: int| outcome_view(r[i]))
}

/// Parse the line at index `i` of a file, counted from 0.
///
/// A line that is empty or starts with `#`, white space before it or not,
/// gives `None`. Any other line gives its target, or its error together
/// with the number of the line, counted from 1.
pub fn parse_line(i: usize, line: &str) -> (r: Option<Result<WakeUpTarget, ParseLineError>>)
    requires
        i < usize::MAX,
    ensures
        match r {
            Some(outcome) => outcome_of_line(i as int, line@) == Some(outcome_view(outcome)),
            None => outcome_of_line(i as int, line@) is None,
        },
{
    if is_skipped(line) {
        None
    } else {
        match WakeUpTarget::from_str(line) {
            Ok(target) => Some(Ok(target)),
            Err(error) => Some(Err(ParseLineError::new(i + 1, error))),
        }
    }
}

/// Why a line that was asked for gave no target: it could not be read, or
/// it could not be parsed.
#[derive(Debug, PartialEq, Eq)]
pub enum StreamError<E> {
    /// The line could not be read; the error is that of the source.
    Read(E),
    /// The line was read and is no target.
    Parse(ParseLineError),
}

/// Where reading a file stands: a cursor that only moves forward, one
/// line at a time, and counts every line that it is given, whether the
/// line holds a target, is passed over, or could not be read.
#[derive(Debug)]
pub struct LineCursor {
    next: usize,
}

impl LineCursor {
    /// The index, counted from 0, of the line that comes next.
    pub closed spec fn index(self) -> int {
        self.next as int
    }

    /// A cursor before the first line of a file.
    pub fn new() -> (r: Self)
        ensures
            r.index() == 0,
    {
        LineCursor { next: 0 }
    }

    /// Whether the cursor can take another line: it cannot once it has
    /// counted as many lines as a machine word can number.
    pub fn has_room(&self) -> (r: bool)
        ensures
            r == (self.index() < usize::MAX),
    {
        self.next < usize::MAX
    }

    /// Take the next line of the file, as [`parse_line`] does, and move on.
    pub fn feed(&mut self, line: &str) -> (r: Option<Result<WakeUpTarget, ParseLineError>>)
        requires
            old(self).index() < usize::MAX,
        ensures
            final(self).index() == old(self).index() + 1,
            match r {
                Some(outcome) => outcome_of_line(old(self).index(), line@) == Some(
                    outcome_view(outcome),
                ),
                None => outcome_of_line(old(self).index(), line@) is None,
            },
    {
        let i = self.next;
        self.next = i + 1;
        parse_line(i, line)
    }

    /// Take what reading the next line gave, and move on. A line that could
    /// not be read gives the error of the source, and counts as a line; a
    /// line that was read gives what [`LineCursor::feed`] gives.
    pub fn feed_read<E>(&mut self, line: Result<String, E>) -> (r: Option<
        Result<WakeUpTarget, StreamError<E>>,
    >)
        requires
            old(self).index() < usize::MAX,
        ensures
            final(self).index() == old(self).index() + 1,
            match line {
                Err(e) => r == Some(Err::<WakeUpTarget, StreamError<E>>(StreamError::Read(e))),
                Ok(text) => match outcome_of_line(old(self).index(), text@) {
                    None => r is None,
                    Some(Ok(target)) => r matches Some(Ok(found)) && found@ == target,
                    Some(Err(error)) => r matches Some(Err(StreamError::Parse(found))) && found@
                        == error,
                },
            },
    {
        match line {
            Err(e) => {
                self.next = self.next + 1;
                Some(Err(StreamError::Read(e)))
            },
            Ok(text) => match self.feed(text.as_str()) {
                None => None,
                Some(Ok(target)) => Some(Ok(target)),
                Some(Err(error)) => Some(Err(StreamError::Parse(error))),
            },
        }
    }
}

/// Parse targets from a sequence of lines.
///
/// Ignore empty lines, or lines starting with `#`, and try to parse all other
/// lines as [`WakeUpTarget`]s.
///
/// Return the results from parsing lines, after ignoring empty or comment
/// lines. Each item is either a parsed target, or an error which occurred
/// while parsing a line.
pub fn from_lines(lines: &[&str]) -> (r: Vec<Result<WakeUpTarget, ParseLineError>>)
    ensures
        outcome_views(r@) == outcomes_of_lines(texts(lines@), lines@.len() as int),
{
    let mut found: Vec<Result<WakeUpTarget, ParseLineError>> = Vec::new();
    let mut i: usize = 0;
    while i < lines.len()
        invariant
            i <= lines@.len(),
            outcome_views(found@) =~= outcomes_of_lines(texts(lines@), i as int),
        decreases lines@.len() - i,
    {
        assert(texts(lines@)[i as int] == lines@[i as int]@);
        match parse_line(i, lines[i]) {
            Some(outcome) => {
                proof {
                    let before = outcome_views(found@);
                    assert(outcome_views(found@.push(outcome)) =~= before.push(
                        outcome_view(outcome),
                    ));
                }
                found.push(outcome);
            },
            None => {},
        }
        i += 1;
    }
    found
}

/// Reading lines gives at most one outcome for each line.
pub proof fn lemma_outcomes_len(lines: Seq<Seq<char>>, n: int)
    requires
        0 <= n <= lines.len(),
    ensures
        outcomes_of_lines(lines, n).len() <= n,
    decreases n,
{
    if n > 0 {
        lemma_outcomes_len(lines, n - 1);
    }
}

} // verus!
