use std::io::{BufRead, BufReader};
use std::str::FromStr;

use wol::file::{
    from_lines, parse_line, LineCursor, MagicPacketDestination, ParseLineError, StreamError,
    WakeUpTarget, WakeUpTargetParseError,
};
use wol::plan::{pick_address, CompleteTarget, ResolveMode};
use wol::{Field, IpAddress, Mac6Error, MacAddress, SecureOn};

fn ipv4(a: u8, b: u8, c: u8, d: u8) -> IpAddress {
    IpAddress::V4(u32::from_be_bytes([a, b, c, d]))
}

#[test]
fn test_target_from_string_empty() {
    assert!(WakeUpTarget::from_str("").is_err());
    assert!(WakeUpTarget::from_str("        ").is_err());
    assert!(WakeUpTarget::from_str("\t").is_err());
}

#[test]
fn test_target_from_string_hardware_address_only() {
    assert_eq!(
        WakeUpTarget::from_str("12:13:14:15:16:17").unwrap(),
        WakeUpTarget::new(MacAddress::from([0x12, 0x13, 0x14, 0x15, 0x16, 0x17]))
    );
    assert_eq!(
        WakeUpTarget::from_str("12-13-14-15-16-17").unwrap(),
        WakeUpTarget::new(MacAddress::from([0x12, 0x13, 0x14, 0x15, 0x16, 0x17]))
    );
    assert_eq!(
        WakeUpTarget::from_str("  12:13:14:15:16:17  ").unwrap(),
        WakeUpTarget::new(MacAddress::from([0x12, 0x13, 0x14, 0x15, 0x16, 0x17]))
    );
    assert_eq!(
        WakeUpTarget::from_str("  jj:13:14:15:16:17  ").unwrap_err(),
        WakeUpTargetParseError::InvalidHardwareAddress(Mac6Error::InvalidCharacter('j', 1))
    );
    assert_eq!(
        WakeUpTarget::from_str("  12:13:14:15:16:17:18  ").unwrap_err(),
        WakeUpTargetParseError::InvalidHardwareAddress(Mac6Error::InvalidLength(20))
    );
}

#[test]
fn test_target_from_string_hardware_address_and_destination() {
    assert_eq!(
        WakeUpTarget::from_str("12:13:14:15:16:17 foo.example.com").unwrap(),
        WakeUpTarget::new(MacAddress::from([0x12, 0x13, 0x14, 0x15, 0x16, 0x17]))
            .with_dns_packet_destination("foo.example.com".into())
    );
    assert_eq!(
        WakeUpTarget::from_str("12:13:14:15:16:17 192.0.2.4").unwrap(),
        WakeUpTarget::new(MacAddress::from([0x12, 0x13, 0x14, 0x15, 0x16, 0x17]))
            .with_ip_packet_destination(ipv4(192, 0, 2, 4))
    );
}

#[test]
fn test_target_from_string_hardware_address_and_port() {
    assert_eq!(
        WakeUpTarget::from_str("12:13:14:15:16:17 9").unwrap(),
        WakeUpTarget::new(MacAddress::from([0x12, 0x13, 0x14, 0x15, 0x16, 0x17]))
            .with_port(Some(9))
    );
    assert_eq!(
        WakeUpTarget::from_str("12:13:14:15:16:17 09").unwrap(),
        WakeUpTarget::new(MacAddress::from([0x12, 0x13, 0x14, 0x15, 0x16, 0x17]))
            .with_port(Some(9))
    );
}

#[test]
fn test_target_from_string_hardware_address_and_secure_on() {
    assert_eq!(
        WakeUpTarget::from_str("12:13:14:15:16:17 aa-bb-cc-dd-ee-ff").unwrap(),
        WakeUpTarget::new(MacAddress::from([0x12, 0x13, 0x14, 0x15, 0x16, 0x17]))
            .with_secure_on(Some(SecureOn::from([0xaa, 0xbb, 0xcc, 0xdd, 0xee, 0xff])))
    );
    assert_eq!(
        WakeUpTarget::from_str("12:13:14:15:16:17 aa-bb-cc-dd-ee-f").unwrap(),
        WakeUpTarget::new(MacAddress::from([0x12, 0x13, 0x14, 0x15, 0x16, 0x17]))
            .with_dns_packet_destination("aa-bb-cc-dd-ee-f".into())
    );
}

#[test]
fn test_target_from_string_hardware_address_and_host_and_port() {
    assert_eq!(
        WakeUpTarget::from_str("12:13:14:15:16:17 foo.example.com 23").unwrap(),
        WakeUpTarget::new(MacAddress::from([0x12, 0x13, 0x14, 0x15, 0x16, 0x17]))
            .with_dns_packet_destination("foo.example.com".into())
            .with_port(Some(23))
    );
    assert_eq!(
        WakeUpTarget::from_str("12:13:14:15:16:17 192.0.2.4 23").unwrap(),
        WakeUpTarget::new(MacAddress::from([0x12, 0x13, 0x14, 0x15, 0x16, 0x17]))
            .with_ip_packet_destination(ipv4(192, 0, 2, 4))
            .with_port(Some(23))
    );
    assert_eq!(
        WakeUpTarget::from_str("12:13:14:15:16:17 192.0.2.4 foo").unwrap_err(),
        WakeUpTargetParseError::InvalidPort(3, u16::from_str("foo").unwrap_err())
    );
}

#[test]
fn test_target_from_string_hardware_address_and_host_and_secure_on() {
    assert_eq!(
        WakeUpTarget::from_str("12:13:14:15:16:17 foo.example.com aa-bb-cc-dd-ee-ff").unwrap(),
        WakeUpTarget::new(MacAddress::from([0x12, 0x13, 0x14, 0x15, 0x16, 0x17]))
            .with_dns_packet_destination("foo.example.com".into())
            .with_secure_on(Some(SecureOn::from([0xaa, 0xbb, 0xcc, 0xdd, 0xee, 0xff])))
    );
    assert_eq!(
        WakeUpTarget::from_str("12:13:14:15:16:17 192.0.2.4 aa-bb-cc-dd-ee-ff").unwrap(),
        WakeUpTarget::new(MacAddress::from([0x12, 0x13, 0x14, 0x15, 0x16, 0x17]))
            .with_ip_packet_destination(ipv4(192, 0, 2, 4))
            .with_secure_on(Some(SecureOn::from([0xaa, 0xbb, 0xcc, 0xdd, 0xee, 0xff])))
    );
    assert_eq!(
        WakeUpTarget::from_str("12:13:14:15:16:17 192.0.2.4 aa-bb-cc-dd-ee-f").unwrap_err(),
        WakeUpTargetParseError::InvalidSecureOn(3, Mac6Error::InvalidLength(16))
    );
}

#[test]
fn test_target_from_string_hardware_address_and_port_and_secure_on() {
    assert_eq!(
        WakeUpTarget::from_str("12:13:14:15:16:17 42 aa-bb-cc-dd-ee-ff").unwrap(),
        WakeUpTarget::new(MacAddress::from([0x12, 0x13, 0x14, 0x15, 0x16, 0x17]))
            .with_port(Some(42))
            .with_secure_on(Some(SecureOn::from([0xaa, 0xbb, 0xcc, 0xdd, 0xee, 0xff])))
    );
    assert_eq!(
        WakeUpTarget::from_str("12:13:14:15:16:17 42 aa-bb-cc-dd-ee-f").unwrap_err(),
        WakeUpTargetParseError::InvalidSecureOn(3, Mac6Error::InvalidLength(16))
    );
}

#[test]
fn test_target_from_string_full() {
    let line =
        WakeUpTarget::from_str("12:13:14:15:16:17 192.0.2.42 42 aa-bb-cc-dd-ee-ff").unwrap();
    assert_eq!(
        line.hardware_address(),
        MacAddress::from([0x12, 0x13, 0x14, 0x15, 0x16, 0x17])
    );
    assert_eq!(
        line.packet_destination(),
        Some(&MagicPacketDestination::Ip(ipv4(192, 0, 2, 42)))
    );
    assert_eq!(line.port(), Some(42));
    assert_eq!(
        line.secure_on(),
        Some(SecureOn::new([0xaa, 0xbb, 0xcc, 0xdd, 0xee, 0xff]))
    );
}

#[test]
fn test_line_from_string_too_many_fields() {
    assert_eq!(
        WakeUpTarget::from_str("a b c d e f g   ").unwrap_err(),
        WakeUpTargetParseError::TooManyFields(7)
    );
    assert_eq!(
        WakeUpTarget::from_str("12:13:14:15:16:17 192.0.2.42 42 aa-bb-cc-dd-ee-ff extra")
            .unwrap_err(),
        WakeUpTargetParseError::TooManyFields(5)
    );
}

#[test]
fn test_from_lines() {
    let file = "# A test file

  # A bad line
12:13:14:15:16:17 192.0.2.42 42 aa-bb-cc-dd-ee-ff extra

# A good line
12:13:14:15:16:17 192.0.2.42 42 aa-bb-cc-dd-ee-ff

# A short line
12:13:14:15:16:17 23";
    let targets = from_lines(&file.lines().collect::<Vec<_>>());
    assert_eq!(
        targets,
        vec![
            Err(ParseLineError::new(
                4,
                WakeUpTargetParseError::TooManyFields(5)
            )),
            Ok(
                WakeUpTarget::new(MacAddress::from([0x12, 0x13, 0x14, 0x15, 0x16, 0x17]))
                    .with_ip_packet_destination(ipv4(192, 0, 2, 42))
                    .with_port(Some(42))
                    .with_secure_on(Some(SecureOn::from([0xaa, 0xbb, 0xcc, 0xdd, 0xee, 0xff])))
            ),
            Ok(
                WakeUpTarget::new(MacAddress::from([0x12, 0x13, 0x14, 0x15, 0x16, 0x17]))
                    .with_port(Some(23))
            )
        ]
    );
}

#[test]
fn test_from_reader() {
    let file = "# A test file

  # A bad line
12:13:14:15:16:17 192.0.2.42 42 aa-bb-cc-dd-ee-ff extra

# A good line
12:13:14:15:16:17 192.0.2.42 42 aa-bb-cc-dd-ee-ff

# A short line
12:13:14:15:16:17 23";
    let reader = BufReader::new(file.as_bytes());
    let mut cursor = LineCursor::new();
    let mut targets = reader
        .lines()
        .filter_map(move |line| cursor.feed_read(line));
    let error = targets.next().unwrap().unwrap_err();
    assert!(matches!(error, StreamError::Parse(_)));
    let error = match error {
        StreamError::Parse(error) => error,
        StreamError::Read(error) => panic!("{}", error),
    };
    assert_eq!(
        error,
        (ParseLineError::new(4, WakeUpTargetParseError::TooManyFields(5)))
    );
    assert_eq!(
        targets.next().unwrap().unwrap(),
        WakeUpTarget::new(MacAddress::from([0x12, 0x13, 0x14, 0x15, 0x16, 0x17]))
            .with_ip_packet_destination(ipv4(192, 0, 2, 42))
            .with_port(Some(42))
            .with_secure_on(Some(SecureOn::from([0xaa, 0xbb, 0xcc, 0xdd, 0xee, 0xff])))
    );
    assert_eq!(
        targets.next().unwrap().unwrap(),
        WakeUpTarget::new(MacAddress::from([0x12, 0x13, 0x14, 0x15, 0x16, 0x17]))
            .with_port(Some(23))
    );
    assert!(targets.next().is_none());
}

#[test]
fn empty_line_is_the_empty_error() {
    assert_eq!(
        WakeUpTarget::from_str("").unwrap_err(),
        WakeUpTargetParseError::Empty
    );
    assert_eq!(
        WakeUpTarget::from_str(" \t \r\n").unwrap_err(),
        WakeUpTargetParseError::Empty
    );
    assert_eq!(
        WakeUpTarget::from_fields(Vec::new()).unwrap_err(),
        WakeUpTargetParseError::Empty
    );
}

#[test]
fn fields_are_split_at_runs_of_spaces_and_tabs() {
    assert_eq!(
        WakeUpTarget::from_str("\t12:13:14:15:16:17 \t  example.org\t\t7   ").unwrap(),
        WakeUpTarget::new(MacAddress::from([0x12, 0x13, 0x14, 0x15, 0x16, 0x17]))
            .with_dns_packet_destination("example.org".into())
            .with_port(Some(7))
    );
    assert_eq!(
        wol::text::split_fields("  a\tbc   d "),
        vec!["a", "bc", "d"]
    );
    assert_eq!(wol::text::split_fields("abc"), vec!["abc"]);
    assert!(wol::text::split_fields(" \t ").is_empty());
}

#[test]
fn two_fields_prefer_token_then_port_then_destination() {
    let mac = MacAddress::from([0x12, 0x13, 0x14, 0x15, 0x16, 0x17]);
    assert_eq!(
        WakeUpTarget::from_str("12:13:14:15:16:17 00:00:00:00:00:09").unwrap(),
        WakeUpTarget::new(mac).with_secure_on(Some(SecureOn::new([0, 0, 0, 0, 0, 9])))
    );
    assert_eq!(
        WakeUpTarget::from_str("12:13:14:15:16:17 65535").unwrap(),
        WakeUpTarget::new(mac).with_port(Some(65535))
    );
    assert_eq!(
        WakeUpTarget::from_str("12:13:14:15:16:17 65536").unwrap(),
        WakeUpTarget::new(mac).with_dns_packet_destination("65536".into())
    );
    assert_eq!(
        WakeUpTarget::from_str("12:13:14:15:16:17 0").unwrap(),
        WakeUpTarget::new(mac).with_port(Some(0))
    );
    assert_eq!(
        WakeUpTarget::from_str("12:13:14:15:16:17 -1").unwrap(),
        WakeUpTarget::new(mac).with_dns_packet_destination("-1".into())
    );
}

#[test]
fn a_plus_sign_makes_no_port() {
    let mac = MacAddress::from([0x12, 0x13, 0x14, 0x15, 0x16, 0x17]);
    assert_eq!(
        WakeUpTarget::from_str("12:13:14:15:16:17 +9").unwrap(),
        WakeUpTarget::new(mac).with_dns_packet_destination("+9".into())
    );
    assert_eq!(
        WakeUpTarget::from_str("12:13:14:15:16:17 +").unwrap(),
        WakeUpTarget::new(mac).with_dns_packet_destination("+".into())
    );
    assert_eq!(
        WakeUpTarget::from_str("12:13:14:15:16:17 host +9").unwrap_err(),
        WakeUpTargetParseError::InvalidPort(3, u16::from_str("+").unwrap_err())
    );
    assert_eq!(
        WakeUpTarget::from_str("12:13:14:15:16:17 host +9").unwrap_err(),
        WakeUpTargetParseError::InvalidPort(3, u16::from_str("x").unwrap_err())
    );
    assert_eq!(
        wol::fields::parse_port("+9"),
        Err(u16::from_str("+").unwrap_err())
    );
    assert_eq!(wol::fields::parse_port("9"), Ok(9));
    assert_eq!(wol::fields::parse_port("0009"), Ok(9));
    assert_eq!(wol::fields::parse_port("65535"), Ok(65535));
    assert_eq!(
        wol::fields::parse_port("65536"),
        Err(u16::from_str("65536").unwrap_err())
    );
    assert_eq!(
        wol::fields::parse_port(""),
        Err(u16::from_str("").unwrap_err())
    );
    assert_eq!(
        wol::fields::parse_port("-1"),
        Err(u16::from_str("-1").unwrap_err())
    );
    assert_eq!(
        wol::fields::parse_port("9 "),
        Err(u16::from_str("9 ").unwrap_err())
    );
}

#[test]
fn three_fields_with_a_bad_third_field() {
    // Separators in the third field make it a token gone wrong.
    assert_eq!(
        WakeUpTarget::from_str("12:13:14:15:16:17 host.example 1.5").unwrap_err(),
        WakeUpTargetParseError::InvalidSecureOn(3, Mac6Error::InvalidCharacter('.', 2))
    );
    assert_eq!(
        WakeUpTarget::from_str("12:13:14:15:16:17 host.example -5").unwrap_err(),
        WakeUpTargetParseError::InvalidSecureOn(3, Mac6Error::InvalidLength(2))
    );
    // Without separators it is a port gone wrong.
    assert_eq!(
        WakeUpTarget::from_str("12:13:14:15:16:17 host.example 65536").unwrap_err(),
        WakeUpTargetParseError::InvalidPort(3, u16::from_str("65536").unwrap_err())
    );
    // The hardware address is looked at first.
    assert_eq!(
        WakeUpTarget::from_str("12:13:14:15:16 host.example 1.5").unwrap_err(),
        WakeUpTargetParseError::InvalidHardwareAddress(Mac6Error::InvalidLength(14))
    );
}

#[test]
fn three_fields_with_a_number_in_the_second_place() {
    let mac = MacAddress::from([0x12, 0x13, 0x14, 0x15, 0x16, 0x17]);
    // With a port behind it, the second field is a destination, number or not.
    assert_eq!(
        WakeUpTarget::from_str("12:13:14:15:16:17 42 23").unwrap(),
        WakeUpTarget::new(mac)
            .with_dns_packet_destination("42".into())
            .with_port(Some(23))
    );
}

#[test]
fn four_fields_have_fixed_places() {
    let mac = MacAddress::from([0x12, 0x13, 0x14, 0x15, 0x16, 0x17]);
    assert_eq!(
        WakeUpTarget::from_str("12:13:14:15:16:17 42 23 aa-bb-cc-dd-ee-ff").unwrap(),
        WakeUpTarget::new(mac)
            .with_dns_packet_destination("42".into())
            .with_port(Some(23))
            .with_secure_on(Some(SecureOn::from([0xaa, 0xbb, 0xcc, 0xdd, 0xee, 0xff])))
    );
    assert_eq!(
        WakeUpTarget::from_str("12:13:14:15:16:1 h 23 aa-bb-cc-dd-ee-ff").unwrap_err(),
        WakeUpTargetParseError::InvalidHardwareAddress(Mac6Error::InvalidLength(16))
    );
    assert_eq!(
        WakeUpTarget::from_str("12:13:14:15:16:17 h port aa-bb-cc-dd-ee").unwrap_err(),
        WakeUpTargetParseError::InvalidPort(3, u16::from_str("port").unwrap_err())
    );
    assert_eq!(
        WakeUpTarget::from_str("12:13:14:15:16:17 h 23 aa-bb-cc-dd-ee-zz").unwrap_err(),
        WakeUpTargetParseError::InvalidSecureOn(4, Mac6Error::InvalidCharacter('z', 16))
    );
}

#[test]
fn from_fields_decides_on_what_the_fields_read_as() {
    let mac = [0x12, 0x13, 0x14, 0x15, 0x16, 0x17];
    let no_port = || u16::from_str("x").unwrap_err();
    let first = || Field {
        text: String::from("first"),
        address: Ok(mac),
        port: Err(no_port()),
    };
    // A second field that reads as a token and as a port is a token.
    let both = Field {
        text: String::from("both"),
        address: Ok([1, 2, 3, 4, 5, 6]),
        port: Ok(7),
    };
    assert_eq!(
        WakeUpTarget::from_fields(vec![first(), both]).unwrap(),
        WakeUpTarget::new(MacAddress::new(mac)).with_secure_on(Some(SecureOn::new([1, 2, 3, 4, 5, 6])))
    );
    // A third field without separators that is no port is a port gone wrong.
    let second = Field {
        text: String::from("192.0.2.1"),
        address: Err(Mac6Error::InvalidLength(9)),
        port: Err(no_port()),
    };
    let third = Field {
        text: String::from("x"),
        address: Err(Mac6Error::InvalidCharacter('x', 1)),
        port: Err(no_port()),
    };
    assert_eq!(
        WakeUpTarget::from_fields(vec![first(), second, third]).unwrap_err(),
        WakeUpTargetParseError::InvalidPort(3, no_port())
    );
    // The same third field with a separator in it is a token gone wrong.
    let second = Field {
        text: String::from("192.0.2.1"),
        address: Err(Mac6Error::InvalidLength(9)),
        port: Err(no_port()),
    };
    let third = Field {
        text: String::from("x-"),
        address: Err(Mac6Error::InvalidCharacter('x', 1)),
        port: Err(no_port()),
    };
    assert_eq!(
        WakeUpTarget::from_fields(vec![first(), second, third]).unwrap_err(),
        WakeUpTargetParseError::InvalidSecureOn(3, Mac6Error::InvalidCharacter('x', 1))
    );
    assert_eq!(
        WakeUpTarget::from_fields(vec![first(), first(), first(), first(), first()]).unwrap_err(),
        WakeUpTargetParseError::TooManyFields(5)
    );
}

#[test]
fn reading_a_field_tries_every_meaning() {
    let field = Field::read("aa-bb-cc-dd-ee-ff");
    assert_eq!(field.text, "aa-bb-cc-dd-ee-ff");
    assert_eq!(field.address, Ok([0xaa, 0xbb, 0xcc, 0xdd, 0xee, 0xff]));
    assert_eq!(field.port, Err(u16::from_str("aa-bb-cc-dd-ee-ff").unwrap_err()));
    let field = Field::read("0042");
    assert_eq!(field.address, Err(Mac6Error::InvalidLength(4)));
    assert_eq!(field.port, Ok(42));
}

#[test]
fn destinations_are_addresses_or_names() {
    assert_eq!(
        MagicPacketDestination::from(String::from("192.0.2.4")),
        MagicPacketDestination::Ip(IpAddress::V4(0xc000_0204))
    );
    assert_eq!(
        MagicPacketDestination::from(String::from("255.255.255.255")),
        MagicPacketDestination::Ip(IpAddress::V4(0xffff_ffff))
    );
    assert_eq!(
        MagicPacketDestination::from(String::from("0.0.0.0")),
        MagicPacketDestination::Ip(ipv4(0, 0, 0, 0))
    );
    for name in [
        "192.0.2",
        "192.0.2.4.5",
        "192.0.2.256",
        "192.0.02.4",
        "192.0.2.4.",
        ".192.0.2.4",
        "192.0..4",
        "1920.0.2.4",
        "192.0.2.4x",
        "",
        "example.org",
    ] {
        assert_eq!(
            MagicPacketDestination::from(String::from(name)),
            MagicPacketDestination::Dns(String::from(name))
        );
    }
}

#[test]
fn blank_lines_and_comments_are_passed_over() {
    assert_eq!(parse_line(0, ""), None);
    assert_eq!(parse_line(1, "   \t"), None);
    assert_eq!(parse_line(2, "# 12:13:14:15:16:17"), None);
    assert_eq!(parse_line(3, "  \t# a b c d e f"), None);
    assert_eq!(parse_line(4, "\u{a0}\u{3000}"), None);
    assert_eq!(
        parse_line(5, "12:13:14:15:16:17 # 9"),
        Some(Ok(
            WakeUpTarget::new(MacAddress::from([0x12, 0x13, 0x14, 0x15, 0x16, 0x17]))
                .with_dns_packet_destination("#".into())
                .with_port(Some(9))
        ))
    );
    let error = parse_line(6, "x").unwrap().unwrap_err();
    assert_eq!(error.line_no(), 7);
    assert_eq!(
        error.error(),
        &WakeUpTargetParseError::InvalidHardwareAddress(Mac6Error::InvalidCharacter('x', 1))
    );
}

#[test]
fn ten_lines_with_one_bad_line() {
    let lines = [
        "12:13:14:15:16:01",
        "12:13:14:15:16:02 9",
        "12:13:14:15:16:03 example.org",
        "12:13:14:15:16:04 example.org 9 aa-bb-cc-dd-ee-ff extra",
        "12:13:14:15:16:05 aa-bb-cc-dd-ee-ff",
        "12:13:14:15:16:06 example.org 9",
        "12:13:14:15:16:07 9 aa-bb-cc-dd-ee-ff",
        "12:13:14:15:16:08",
        "12:13:14:15:16:09 192.0.2.1",
        "12:13:14:15:16:10 example.org aa-bb-cc-dd-ee-ff",
    ];
    let results = from_lines(&lines);
    assert_eq!(results.len(), 10);
    let errors: Vec<&ParseLineError> = results.iter().filter_map(|r| r.as_ref().err()).collect();
    assert_eq!(
        errors,
        vec![&ParseLineError::new(4, WakeUpTargetParseError::TooManyFields(5))]
    );
    let last_bytes: Vec<u8> = results
        .iter()
        .filter_map(|r| r.as_ref().ok())
        .map(|target| target.hardware_address().octets()[5])
        .collect();
    assert_eq!(last_bytes, vec![0x01, 0x02, 0x03, 0x05, 0x06, 0x07, 0x08, 0x09, 0x10]);
    assert!(results[3].is_err());
    assert_eq!(
        results[4],
        Ok(
            WakeUpTarget::new(MacAddress::from([0x12, 0x13, 0x14, 0x15, 0x16, 0x05]))
                .with_secure_on(Some(SecureOn::from([0xaa, 0xbb, 0xcc, 0xdd, 0xee, 0xff])))
        )
    );
}

#[test]
fn builders_change_one_thing() {
    let mac = MacAddress::from([1, 2, 3, 4, 5, 6]);
    let target = WakeUpTarget::new(mac);
    assert_eq!(target.hardware_address(), mac);
    assert_eq!(target.packet_destination(), None);
    assert_eq!(target.port(), None);
    assert_eq!(target.secure_on(), None);
    let other = MacAddress::from([6, 5, 4, 3, 2, 1]);
    let target = target
        .with_hardware_address(other)
        .with_packet_destination(Some(MagicPacketDestination::Dns("h".into())))
        .with_port(Some(9));
    assert_eq!(target.hardware_address(), other);
    assert_eq!(
        target.packet_destination(),
        Some(&MagicPacketDestination::Dns("h".into()))
    );
    assert_eq!(target.port(), Some(9));
    assert_eq!(target.secure_on(), None);
    let target = target.with_packet_destination(None).with_port(None);
    assert_eq!(target, WakeUpTarget::new(other));
}

#[test]
fn the_hardware_address_is_read_as_the_address_reader_reads_it() {
    // Dots between pairs of bytes and no separator at all are accepted too.
    assert_eq!(
        WakeUpTarget::from_str("1213.1415.1617").unwrap(),
        WakeUpTarget::new(MacAddress::from([0x12, 0x13, 0x14, 0x15, 0x16, 0x17]))
    );
    assert_eq!(
        WakeUpTarget::from_str("121314151617").unwrap(),
        WakeUpTarget::new(MacAddress::from([0x12, 0x13, 0x14, 0x15, 0x16, 0x17]))
    );
    assert_eq!(
        WakeUpTarget::from_str("12:13-14:15:16:17").unwrap_err(),
        WakeUpTargetParseError::InvalidHardwareAddress(Mac6Error::InvalidCharacter('-', 5))
    );
}

#[test]
fn addresses_of_version_6() {
    for (text, number) in [
        ("::", 0u128),
        ("::1", 1),
        ("1::", 0x0001_0000_0000_0000_0000_0000_0000_0000),
        ("ff02::1", 0xff02_0000_0000_0000_0000_0000_0000_0001),
        ("2001:db8::8a2e:370:7334", 0x2001_0db8_0000_0000_0000_8a2e_0370_7334),
        ("2001:DB8:0:0:0:8A2E:370:7334", 0x2001_0db8_0000_0000_0000_8a2e_0370_7334),
        ("1:2:3:4:5:6:7:8", 0x0001_0002_0003_0004_0005_0006_0007_0008),
        ("1:2:3:4:5:6:7::", 0x0001_0002_0003_0004_0005_0006_0007_0000),
        ("::2:3:4:5:6:7:8", 0x0000_0002_0003_0004_0005_0006_0007_0008),
        ("::ffff:192.0.2.1", 0x0000_0000_0000_0000_0000_ffff_c000_0201),
        ("::192.0.2.1", 0x0000_0000_0000_0000_0000_0000_c000_0201),
        ("1:2:3:4:5:6:1.2.3.4", 0x0001_0002_0003_0004_0005_0006_0102_0304),
        ("64:ff9b::255.255.255.255", 0x0064_ff9b_0000_0000_0000_0000_ffff_ffff),
        ("ffff:ffff:ffff:ffff:ffff:ffff:ffff:ffff", u128::MAX),
    ] {
        assert_eq!(
            MagicPacketDestination::from(String::from(text)),
            MagicPacketDestination::Ip(IpAddress::V6(number)),
            "{}",
            text
        );
    }
    for name in [
        ":",
        ":::",
        ":1",
        "1:",
        "1:2:3:4:5:6:7",
        "1:2:3:4:5:6:7:8:9",
        "1:2:3:4:5:6:7:8::",
        "1::2::3",
        "12345::",
        "::12345",
        "::g",
        "::1%eth0",
        "1.2.3.4::",
        "1.2.3.4::1",
        "::1.2.3.4:5",
        "1:2:3:4:5:6:7:1.2.3.4",
        "::1.2.3",
        "::1.2.3.256",
        "[::1]",
        ":: 1",
    ] {
        assert_eq!(
            MagicPacketDestination::from(String::from(name)),
            MagicPacketDestination::Dns(String::from(name)),
            "{}",
            name
        );
    }
    assert_eq!(
        WakeUpTarget::from_str("12:13:14:15:16:17 ff02::1 9").unwrap(),
        WakeUpTarget::new(MacAddress::from([0x12, 0x13, 0x14, 0x15, 0x16, 0x17]))
            .with_ip_packet_destination(IpAddress::V6(0xff02_0000_0000_0000_0000_0000_0000_0001))
            .with_port(Some(9))
    );
}

#[test]
fn errors_say_what_was_wrong() {
    assert_eq!(WakeUpTargetParseError::Empty.message(), "Line empty");
    assert_eq!(
        WakeUpTargetParseError::TooManyFields(12).message(),
        "Expected 4 fields, got 12"
    );
    assert_eq!(
        WakeUpTarget::from_str("jj:13:14:15:16:17").unwrap_err().message(),
        "Field 1: Invalid hardware address: Unexpected character 'j' at position 1"
    );
    assert_eq!(
        WakeUpTarget::from_str("12:13:14:15:16:17 h 7 aa-bb-cc-dd-ee-f").unwrap_err().message(),
        "Field 4: Invalid SecureON token: Invalid length of 16 characters"
    );
    assert_eq!(
        WakeUpTarget::from_str("12:13:14:15:16:17 h x").unwrap_err().message(),
        format!(
            "Field 3: Invalid port number: {}",
            u16::from_str("x").unwrap_err()
        )
    );
    assert_eq!(
        WakeUpTarget::from_str("12:13:14:15:16:17 h 70000").unwrap_err().message(),
        format!(
            "Field 3: Invalid port number: {}",
            u16::from_str("70000").unwrap_err()
        )
    );
    assert_eq!(
        ParseLineError::new(1024, WakeUpTargetParseError::TooManyFields(5)).message(),
        "Line 1024: Expected 4 fields, got 5"
    );
    assert_eq!(
        ParseLineError::new(0, WakeUpTargetParseError::Empty).message(),
        "Line 0: Line empty"
    );
}

#[test]
fn address_errors_read_as_the_address_reader_writes_them() {
    for error in [
        Mac6Error::InvalidLength(0),
        Mac6Error::InvalidLength(9),
        Mac6Error::InvalidLength(20),
        Mac6Error::InvalidLength(usize::MAX),
        Mac6Error::InvalidCharacter('j', 1),
        Mac6Error::InvalidCharacter('\'', 100),
        Mac6Error::InvalidCharacter('\u{e9}', 17),
    ] {
        let theirs = match error {
            Mac6Error::InvalidLength(n) => macaddr::ParseError::InvalidLength(n),
            Mac6Error::InvalidCharacter(c, n) => macaddr::ParseError::InvalidCharacter(c, n),
        };
        assert_eq!(error.message(), format!("{}", theirs));
    }
}

#[test]
fn errors_can_be_cloned() {
    let error = WakeUpTarget::from_str("12:13:14:15:16:17 h x").unwrap_err();
    assert_eq!(error.clone(), error);
    let error = ParseLineError::new(3, error);
    assert_eq!(error.clone(), error);
}

#[test]
fn defaults_fill_what_a_target_leaves_open() {
    let mac = MacAddress::from([0x12, 0x13, 0x14, 0x15, 0x16, 0x17]);
    let host = MagicPacketDestination::Ip(ipv4(255, 255, 255, 255));
    let token = SecureOn::new([1, 2, 3, 4, 5, 6]);
    assert_eq!(
        WakeUpTarget::new(mac).with_defaults(host.clone(), 40000, Some(token)),
        CompleteTarget {
            hardware_address: mac,
            host: host.clone(),
            port: 40000,
            secure_on: Some(token),
        }
    );
    assert_eq!(
        WakeUpTarget::from_str("12:13:14:15:16:17 example.org 9 aa-bb-cc-dd-ee-ff")
            .unwrap()
            .with_defaults(host.clone(), 40000, Some(token)),
        CompleteTarget {
            hardware_address: mac,
            host: MagicPacketDestination::Dns("example.org".into()),
            port: 9,
            secure_on: Some(SecureOn::new([0xaa, 0xbb, 0xcc, 0xdd, 0xee, 0xff])),
        }
    );
    assert_eq!(
        WakeUpTarget::from_str("12:13:14:15:16:17 7")
            .unwrap()
            .with_defaults(host.clone(), 40000, None),
        CompleteTarget {
            hardware_address: mac,
            host,
            port: 7,
            secure_on: None,
        }
    );
}

#[test]
fn the_first_admitted_address_is_picked() {
    let addresses = [
        ipv4(192, 0, 2, 1),
        IpAddress::V6(1),
        ipv4(192, 0, 2, 2),
        IpAddress::V6(2),
    ];
    assert_eq!(pick_address(&addresses, ResolveMode::Default), Some(0));
    assert_eq!(pick_address(&addresses, ResolveMode::PreferIpv6), Some(1));
    assert_eq!(pick_address(&addresses[..1], ResolveMode::PreferIpv6), None);
    assert_eq!(pick_address(&addresses[1..], ResolveMode::PreferIpv6), Some(0));
    assert_eq!(pick_address(&[], ResolveMode::Default), None);
    assert_eq!(pick_address(&[], ResolveMode::PreferIpv6), None);
    assert_eq!(ResolveMode::default(), ResolveMode::Default);
}

#[test]
fn a_line_of_address_and_port() {
    let target = WakeUpTarget::from_str("12:13:14:15:16:17 23").unwrap();
    assert_eq!(
        target.hardware_address(),
        MacAddress::from([0x12, 0x13, 0x14, 0x15, 0x16, 0x17])
    );
    assert_eq!(target.port(), Some(23));
    assert_eq!(target.packet_destination(), None);
    assert_eq!(target.secure_on(), None);
}

#[test]
fn a_line_that_cannot_be_read_counts_as_a_line() {
    let bytes: &[u8] = b"# first\n\xff\xfe\n12:13:14:15:16:17 a b c d\n12:13:14:15:16:17\n";
    let reader = BufReader::new(bytes);
    let mut cursor = LineCursor::new();
    let outcomes: Vec<_> = reader
        .lines()
        .filter_map(move |line| cursor.feed_read(line))
        .collect();
    assert_eq!(outcomes.len(), 3);
    assert!(matches!(outcomes[0], Err(StreamError::Read(_))));
    match &outcomes[1] {
        Err(StreamError::Parse(error)) => {
            assert_eq!(error.line_no(), 3);
            assert_eq!(error.error(), &WakeUpTargetParseError::TooManyFields(5));
        }
        other => panic!("{:?}", other),
    }
    match &outcomes[2] {
        Ok(target) => assert_eq!(
            target,
            &WakeUpTarget::new(MacAddress::from([0x12, 0x13, 0x14, 0x15, 0x16, 0x17]))
        ),
        other => panic!("{:?}", other),
    }
}

#[test]
fn the_cursor_counts_every_line() {
    let mut cursor = LineCursor::new();
    assert!(cursor.has_room());
    assert_eq!(cursor.feed(""), None);
    assert_eq!(cursor.feed("# comment"), None);
    assert_eq!(
        cursor.feed("x"),
        Some(Err(ParseLineError::new(
            3,
            WakeUpTargetParseError::InvalidHardwareAddress(Mac6Error::InvalidCharacter('x', 1))
        )))
    );
    assert_eq!(
        cursor.feed("12:13:14:15:16:17"),
        Some(Ok(WakeUpTarget::new(MacAddress::from([
            0x12, 0x13, 0x14, 0x15, 0x16, 0x17
        ]))))
    );
    assert_eq!(
        cursor.feed("a b c d e"),
        Some(Err(ParseLineError::new(
            5,
            WakeUpTargetParseError::TooManyFields(5)
        )))
    );
}
