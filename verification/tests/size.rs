use hyperlight_unikraft::parse_memory;
use hyperlight_unikraft::ParseError;

#[test]
fn binary_units() {
    assert_eq!(parse_memory("512Mi"), Ok(512 * 1024 * 1024));
    assert_eq!(parse_memory("1Gi"), Ok(1024 * 1024 * 1024));
    assert_eq!(parse_memory("8Ki"), Ok(8192));
    assert_eq!(parse_memory("0Gi"), Ok(0));
}

#[test]
fn decimal_units() {
    assert_eq!(parse_memory("100M"), Ok(100_000_000));
    assert_eq!(parse_memory("2G"), Ok(2_000_000_000));
    assert_eq!(parse_memory("3K"), Ok(3000));
}

#[test]
fn plain_byte_count() {
    assert_eq!(parse_memory("4096"), Ok(4096));
    assert_eq!(parse_memory("0"), Ok(0));
    assert_eq!(parse_memory("007"), Ok(7));
    assert_eq!(parse_memory("18446744073709551615"), Ok(u64::MAX));
}

#[test]
fn surrounding_white_space_is_ignored() {
    assert_eq!(parse_memory("  256Mi\n"), Ok(256 * 1024 * 1024));
    assert_eq!(parse_memory("\t1Gi "), Ok(1 << 30));
    assert_eq!(parse_memory("\u{a0}12\u{2003}"), Ok(12));
}

#[test]
fn a_plus_sign_may_precede_the_digits() {
    assert_eq!(parse_memory("+5"), Ok(5));
    assert_eq!(parse_memory("+5Ki"), Ok(5120));
}

#[test]
fn bogus_is_refused() {
    assert_eq!(parse_memory("bogus"), Err(ParseError::InvalidFormat));
}

#[test]
fn malformed_numbers_are_refused() {
    assert_eq!(parse_memory(""), Err(ParseError::InvalidFormat));
    assert_eq!(parse_memory("   "), Err(ParseError::InvalidFormat));
    assert_eq!(parse_memory("Mi"), Err(ParseError::InvalidFormat));
    assert_eq!(parse_memory("G"), Err(ParseError::InvalidFormat));
    assert_eq!(parse_memory("+"), Err(ParseError::InvalidFormat));
    assert_eq!(parse_memory("+Gi"), Err(ParseError::InvalidFormat));
    assert_eq!(parse_memory("-5"), Err(ParseError::InvalidFormat));
    assert_eq!(parse_memory("++5"), Err(ParseError::InvalidFormat));
    assert_eq!(parse_memory("1.5Gi"), Err(ParseError::InvalidFormat));
    assert_eq!(parse_memory("0x10"), Err(ParseError::InvalidFormat));
    assert_eq!(parse_memory("12 34"), Err(ParseError::InvalidFormat));
    assert_eq!(parse_memory("5 Gi"), Err(ParseError::InvalidFormat));
    assert_eq!(parse_memory("\u{663}"), Err(ParseError::InvalidFormat));
}

#[test]
fn unknown_units_are_refused() {
    assert_eq!(parse_memory("5Ti"), Err(ParseError::InvalidFormat));
    assert_eq!(parse_memory("5i"), Err(ParseError::InvalidFormat));
    assert_eq!(parse_memory("5g"), Err(ParseError::InvalidFormat));
    assert_eq!(parse_memory("5mi"), Err(ParseError::InvalidFormat));
    assert_eq!(parse_memory("5MB"), Err(ParseError::InvalidFormat));
    assert_eq!(parse_memory("5KiB"), Err(ParseError::InvalidFormat));
    assert_eq!(parse_memory("5GiGi"), Err(ParseError::InvalidFormat));
    assert_eq!(parse_memory("5GG"), Err(ParseError::InvalidFormat));
    assert_eq!(parse_memory("5KGi"), Err(ParseError::InvalidFormat));
}

#[test]
fn sizes_beyond_64_bits_are_refused() {
    assert_eq!(parse_memory("18446744073709551616"), Err(ParseError::InvalidFormat));
    assert_eq!(parse_memory("99999999999999999999999"), Err(ParseError::InvalidFormat));
    assert_eq!(parse_memory("17179869184Gi"), Err(ParseError::InvalidFormat));
    assert_eq!(parse_memory("17179869183Gi"), Ok(17179869183 * 1024 * 1024 * 1024));
    assert_eq!(parse_memory("18446744074G"), Err(ParseError::InvalidFormat));
    assert_eq!(parse_memory("18446744073G"), Ok(18446744073 * 1_000_000_000));
}

#[test]
fn canonical_text_round_trips() {
    let units: [(&str, u64); 7] = [
        ("", 1),
        ("K", 1000),
        ("M", 1_000_000),
        ("G", 1_000_000_000),
        ("Ki", 1024),
        ("Mi", 1024 * 1024),
        ("Gi", 1024 * 1024 * 1024),
    ];
    let counts: [u64; 6] = [0, 1, 9, 10, 512, 4095];
    for (suffix, multiplier) in units {
        for count in counts {
            let text = format!("{}{}", count, suffix);
            let size = parse_memory(&text).unwrap();
            assert_eq!(size, count * multiplier);
            let again = format!("{}{}", size / multiplier, suffix);
            assert_eq!(parse_memory(&again), Ok(size));
        }
    }
}
