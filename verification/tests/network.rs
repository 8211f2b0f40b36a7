use tailcloak::mac::{MacAddr, MacParseError};

#[test]
fn valid_input_parses() {
    for valid in ["00:1a:2b:3c:4d:5e", "AA:BB:CC:DD:EE:FF"] {
        assert!(valid.parse::<MacAddr>().is_ok(), "should parse: {valid}");
    }
}

#[test]
fn dash_format_unsupported() {
    let input = String::from("00-1A-2B-3C-4D-5E");
    assert!(input.parse::<MacAddr>().is_err());
}

#[test]
fn rejects_malformed() {
    for bad in ["00:1a:2b:3c:4d", "AA:BB:CC:DD:EE:ZZ"] {
        let result = bad.parse::<MacAddr>();
        assert!(result.is_err(), "should not parse: {bad}");
    }
}

#[test]
fn parse_reads_octets_in_order() {
    assert_eq!(
        MacAddr::parse("d8:ec:e5:af:d0:29"),
        Ok(MacAddr(0xd8, 0xec, 0xe5, 0xaf, 0xd0, 0x29))
    );
    assert_eq!(
        MacAddr::parse("AA:BB:CC:DD:EE:FF"),
        Ok(MacAddr(0xaa, 0xbb, 0xcc, 0xdd, 0xee, 0xff))
    );
}

#[test]
fn parse_reports_error_kinds() {
    assert_eq!(MacAddr::parse("00:1a:2b:3c:4d"), Err(MacParseError::TooFewComponents));
    assert_eq!(
        MacAddr::parse("00:1a:2b:3c:4d:5e:6f"),
        Err(MacParseError::TooManyComponents)
    );
    assert_eq!(
        MacAddr::parse("AA:BB:CC:DD:EE:ZZ"),
        Err(MacParseError::InvalidComponent)
    );
    assert_eq!(MacAddr::parse("00-1A-2B-3C-4D-5E"), Err(MacParseError::InvalidComponent));
}

#[test]
fn to_string_is_lowercase_two_digit_hex() {
    assert_eq!(MacAddr(0, 0x1a, 0x2b, 0x3c, 0x4d, 0x5e).to_string(), "00:1a:2b:3c:4d:5e");
    assert_eq!(MacAddr(0xff, 0xff, 0xff, 0xff, 0xff, 0xff).to_string(), "ff:ff:ff:ff:ff:ff");
    assert_eq!(MacAddr(1, 2, 3, 4, 5, 6).to_string(), "01:02:03:04:05:06");
}

#[test]
fn text_round_trips() {
    let m = MacAddr(0xd8, 0xec, 0xe5, 0xaf, 0xd0, 0x29);
    assert_eq!(MacAddr::parse(&m.to_string()), Ok(m));
}

#[test]
fn key_round_trips() {
    let m = MacAddr(0xd8, 0xec, 0xe5, 0xaf, 0xd0, 0x29);
    assert_eq!(m.key(), 0xd8ece5afd029);
    assert_eq!(MacAddr::from_key(m.key()), m);
    assert_eq!(m.octets(), [0xd8, 0xec, 0xe5, 0xaf, 0xd0, 0x29]);
}
