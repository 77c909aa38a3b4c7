use bls_multisig::error::MsError;
use bls_multisig::text::{fmt_time, hex_upper};

#[test]
fn fmt_time_shows_two_groups_below_a_millisecond() {
    assert_eq!(fmt_time(&0), "  0,000");
    assert_eq!(fmt_time(&7), "  0,007");
    assert_eq!(fmt_time(&999), "  0,999");
    assert_eq!(fmt_time(&1_234), "  1,234");
    assert_eq!(fmt_time(&45_006), " 45,006");
    assert_eq!(fmt_time(&999_999), "999,999");
}

#[test]
fn fmt_time_shows_three_groups_below_a_second() {
    assert_eq!(fmt_time(&1_000_000), "  1,000,000");
    assert_eq!(fmt_time(&1_234_567), "  1,234,567");
    assert_eq!(fmt_time(&12_000_345), " 12,000,345");
    assert_eq!(fmt_time(&999_999_999), "999,999,999");
}

#[test]
fn fmt_time_shows_four_groups_from_a_second_on() {
    assert_eq!(fmt_time(&1_000_000_000), "  1,000,000,000");
    assert_eq!(fmt_time(&12_345_678_901), " 12,345,678,901");
    assert_eq!(fmt_time(&999_999_999_999), "999,999,999,999");
}

#[test]
fn fmt_time_skips_milliseconds_only_with_seconds() {
    // seconds present, milliseconds zero: all four groups
    assert_eq!(fmt_time(&5_000_001_002), "  5,000,001,002");
}

#[test]
fn fmt_time_drops_thousands_of_seconds() {
    assert_eq!(fmt_time(&1_000_000_000_000), "  0,000");
    assert_eq!(fmt_time(&1_002_000_000_003), "  2,000,000,003");
    assert_eq!(fmt_time(&u128::MAX), fmt_time(&(u128::MAX % 1_000_000_000_000)));
}

#[test]
fn fmt_time_agrees_with_the_standard_formatter() {
    for time in [0u128, 1, 10, 100, 1_000, 54_321, 1_000_001, 700_000_000, 98_765_432_109] {
        let expected = if time % 1_000_000_000_000 / 1_000_000_000 == 0
            && time % 1_000_000_000 / 1_000_000 == 0
        {
            format!("{:3},{:03}", time % 1_000_000 / 1_000, time % 1_000)
        } else if time % 1_000_000_000_000 / 1_000_000_000 == 0 {
            format!(
                "{:3},{:03},{:03}",
                time % 1_000_000_000 / 1_000_000,
                time % 1_000_000 / 1_000,
                time % 1_000
            )
        } else {
            format!(
                "{:3},{:03},{:03},{:03}",
                time % 1_000_000_000_000 / 1_000_000_000,
                time % 1_000_000_000 / 1_000_000,
                time % 1_000_000 / 1_000,
                time % 1_000
            )
        };
        assert_eq!(fmt_time(&time), expected);
    }
}

#[test]
fn hex_upper_writes_two_digits_per_byte() {
    assert_eq!(hex_upper(&[]), "");
    assert_eq!(hex_upper(&[0x00]), "00");
    assert_eq!(hex_upper(&[0x0a, 0xb0, 0xff, 0x19]), "0AB0FF19");
    let every: Vec<u8> = (0..=255u8).collect();
    let expected: String = every.iter().map(|b| format!("{:02X}", b)).collect();
    assert_eq!(hex_upper(&every), expected);
}

#[test]
fn every_error_has_its_message() {
    assert_eq!(MsError::KeyGenerationFailed.message(), "key generation failed");
    assert_eq!(
        MsError::InvalidBitLength.message(),
        "bit length must be a multiple of 8 between 0 and 64"
    );
    assert_eq!(MsError::EmptySignerSet.message(), "empty signer set");
    assert_eq!(MsError::InvalidEncoding.message(), "invalid encoding");
    assert_ne!(MsError::EmptySignerSet, MsError::InvalidEncoding);
}
