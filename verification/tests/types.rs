use hls_m3u8::error::DecodeError;
use hls_m3u8::types::{Decimal, DecimalResolution, ProtocolVersion, Timestamp};

#[test]
fn decimal_resolution_test_display() {
    assert_eq!(
        DecimalResolution::new(1920, 1080).to_string(),
        "1920x1080".to_string()
    );

    assert_eq!(
        DecimalResolution::new(1280, 720).to_string(),
        "1280x720".to_string()
    );
}

#[test]
fn test_parse() {
    assert_eq!(
        DecimalResolution::new(1920, 1080),
        DecimalResolution::parse("1920x1080").unwrap()
    );

    assert_eq!(
        DecimalResolution::new(1280, 720),
        DecimalResolution::parse("1280x720").unwrap()
    );

    assert!(DecimalResolution::parse("1280").is_err());
}

#[test]
fn test_width() {
    assert_eq!(DecimalResolution::new(1920, 1080).width(), 1920);
    assert_eq!(DecimalResolution::new(1920, 1080).set_width(12).width(), 12);
}

#[test]
fn test_height() {
    assert_eq!(DecimalResolution::new(1920, 1080).height(), 1080);
    assert_eq!(
        DecimalResolution::new(1920, 1080).set_height(12).height(),
        12
    );
}

#[test]
fn resolution_setters_change_one_side() {
    let mut resolution = DecimalResolution::new(1920, 1080);
    resolution.set_width(3).set_height(4);
    assert_eq!(resolution, DecimalResolution::new(3, 4));
}

#[test]
fn resolution_parse_failures() {
    for text in ["", "x", "1280", "1280x", "x720", "1x2x3", "12 x 3", "+1x2", "1X2", "-1x2"] {
        assert_eq!(
            DecimalResolution::parse(text),
            Err(DecodeError::InvalidResolution),
            "{:?}",
            text
        );
    }
}

#[test]
fn resolution_zero_and_leading_zeros() {
    assert_eq!(DecimalResolution::parse("0x0"), Ok(DecimalResolution::new(0, 0)));
    assert_eq!(DecimalResolution::new(0, 0).to_string(), "0x0");
    assert_eq!(DecimalResolution::parse("0640x0480"), Ok(DecimalResolution::new(640, 480)));
}

#[test]
fn decimal_text() {
    assert_eq!(Decimal::from_u16(12).to_string(), "12");
    assert_eq!(Decimal::from_u64(0).to_string(), "0");
    assert_eq!(Decimal::from_u64(u64::MAX).to_string(), "18446744073709551615");
    for text in ["12", "0", "1.5", "-1.5", "0.5", "-0.005", "29.97", "123456.789", "0.000000001"] {
        assert_eq!(Decimal::parse(text).unwrap().to_string(), text, "{:?}", text);
    }
}

#[test]
fn decimal_parts() {
    let d = Decimal::parse("-29.970").unwrap();
    assert!(d.is_negative());
    assert_eq!(d.mantissa(), 2997);
    assert_eq!(d.scale(), 2);
    let d = Decimal::parse("0.005").unwrap();
    assert!(!d.is_negative());
    assert_eq!(d.mantissa(), 5);
    assert_eq!(d.scale(), 3);
}

#[test]
fn decimal_normalizes() {
    assert_eq!(Decimal::parse("12.0"), Ok(Decimal::from_u16(12)));
    assert_eq!(Decimal::parse("12."), Ok(Decimal::from_u16(12)));
    assert_eq!(Decimal::parse("012"), Ok(Decimal::from_u16(12)));
    assert_eq!(Decimal::parse("-0"), Ok(Decimal::from_u16(0)));
    assert_eq!(Decimal::parse("-0.00"), Ok(Decimal::from_u16(0)));
    assert_eq!(Decimal::parse(".5").unwrap().to_string(), "0.5");
    assert_eq!(Decimal::parse("1.50").unwrap().to_string(), "1.5");
    assert_eq!(Decimal::parse("1.5"), Decimal::parse("01.500"));
}

#[test]
fn decimal_parse_failures() {
    for text in [
        "", "-", ".", "-.", "1.2.3", "+1", "1e5", "1,5", " 1", "1 ", "--1", "1-", "NaN", "inf",
        "0x10", "18446744073709551616", "1844674407370955161.6",
    ] {
        assert_eq!(Decimal::parse(text), Err(DecodeError::InvalidDecimal), "{:?}", text);
    }
}

#[test]
fn decimal_long_fractions() {
    let zeros = "0".repeat(254);
    let text = format!("0.{}1", zeros);
    let d = Decimal::parse(&text).unwrap();
    assert_eq!(d.scale(), 255);
    assert_eq!(d.mantissa(), 1);
    assert_eq!(d.to_string(), text);
    let text = format!("0.0{}1", zeros);
    assert_eq!(Decimal::parse(&text), Err(DecodeError::InvalidDecimal));
    let text = format!("1.5{}", "0".repeat(1000));
    assert_eq!(Decimal::parse(&text).unwrap().to_string(), "1.5");
}

#[test]
fn protocol_versions_are_ordered() {
    let all = [
        ProtocolVersion::V1,
        ProtocolVersion::V2,
        ProtocolVersion::V3,
        ProtocolVersion::V4,
        ProtocolVersion::V5,
        ProtocolVersion::V6,
        ProtocolVersion::V7,
        ProtocolVersion::V8,
    ];
    for (i, a) in all.iter().enumerate() {
        assert_eq!(a.number() as usize, i + 1);
        for (j, b) in all.iter().enumerate() {
            assert_eq!(a.later(*b), all[i.max(j)]);
            assert_eq!(a < b, i < j);
        }
    }
    assert_eq!(ProtocolVersion::default(), ProtocolVersion::V1);
}

#[test]
fn playlist_version_is_the_latest() {
    assert_eq!(ProtocolVersion::latest(&vec![]), ProtocolVersion::V1);
    assert_eq!(
        ProtocolVersion::latest(&vec![
            ProtocolVersion::V1,
            ProtocolVersion::V8,
            ProtocolVersion::V3
        ]),
        ProtocolVersion::V8
    );
    assert_eq!(
        ProtocolVersion::latest(&vec![ProtocolVersion::V4, ProtocolVersion::V2]),
        ProtocolVersion::V4
    );
}

#[test]
fn timestamp_round_trip() {
    for text in [
        "2010-02-19T14:54:23.031+08:00",
        "1996-12-19T16:39:57-08:00",
        "2018-01-26T18:30:09.453829+00:00",
        "1969-12-31T23:59:59.999999999+00:00",
        "0000-01-01T00:00:00+23:59",
        "9999-12-31T23:59:59-23:59",
        "2016-12-31T23:59:60+00:00",
    ] {
        let t = Timestamp::parse(text).unwrap();
        assert_eq!(t.to_string(), text, "{:?}", text);
        assert_eq!(Timestamp::parse(&t.to_string()), Ok(t));
    }
}

#[test]
fn timestamp_parts() {
    let t = Timestamp::parse("2010-02-19T14:54:23.031+08:00").unwrap();
    assert_eq!(t.seconds(), 1_266_562_463);
    assert_eq!(t.nanos(), 31_000_000);
    assert_eq!(t.offset(), 28_800);
    assert_eq!(Timestamp::new(1_266_562_463, 31_000_000, 28_800), Some(t));
    let epoch = Timestamp::new(0, 0, 0).unwrap();
    assert_eq!(epoch.to_string(), "1970-01-01T00:00:00+00:00");
    assert_eq!(Timestamp::parse("1970-01-01T00:00:00Z"), Ok(epoch));
}

#[test]
fn timestamp_parse_failures() {
    for text in [
        "",
        "2010-02-19",
        "2010-02-19T14:54:23.031",
        "2010-02-30T14:54:23+00:00",
        "2010-02-19T25:54:23+00:00",
        "2010-02-19T14:54:23+24:00",
        "19 Feb 2010",
    ] {
        assert_eq!(Timestamp::parse(text), Err(DecodeError::InvalidTimestamp), "{:?}", text);
    }
}

#[test]
fn timestamp_range() {
    assert!(Timestamp::new(-62_167_305_600, 0, 0).is_some());
    assert!(Timestamp::new(-62_167_305_601, 0, 0).is_none());
    assert!(Timestamp::new(253_402_387_199, 999_999_999, 0).is_some());
    assert!(Timestamp::new(253_402_387_200, 0, 0).is_none());
    assert!(Timestamp::new(0, 1_000_000_000, 0).is_none());
    assert!(Timestamp::new(59, 1_000_000_000, 0).is_some());
    assert!(Timestamp::new(-1, 1_999_999_999, 0).is_some());
    assert!(Timestamp::new(-1, 2_000_000_000, 0).is_none());
    assert!(Timestamp::new(0, 0, 86_399).is_some());
    assert!(Timestamp::new(0, 0, 86_400).is_none());
    assert!(Timestamp::new(0, 0, -86_399).is_some());
    assert!(Timestamp::new(0, 0, -86_400).is_none());
    assert_eq!(
        Timestamp::new(-62_167_219_200, 0, 0).unwrap().to_string(),
        "0000-01-01T00:00:00+00:00".to_string()
    );
    assert_eq!(
        Timestamp::new(253_402_300_799, 0, 0).unwrap().to_string(),
        "9999-12-31T23:59:59+00:00".to_string()
    );
}

#[test]
fn timestamp_leap_second_before_the_epoch() {
    let t = Timestamp::new(-1, 1_500_000_000, 0).unwrap();
    assert_eq!(t.to_string(), "1969-12-31T23:59:60.500+00:00");
    assert_eq!(Timestamp::parse("1969-12-31T23:59:60.5Z"), Ok(t));
}

#[test]
fn declared_version_covers_required_version() {
    assert!(ProtocolVersion::V8.covers(ProtocolVersion::V8));
    assert!(ProtocolVersion::V8.covers(ProtocolVersion::V1));
    assert!(ProtocolVersion::V3.covers(ProtocolVersion::V3));
    assert!(!ProtocolVersion::V3.covers(ProtocolVersion::V4));
    assert!(!ProtocolVersion::V1.covers(ProtocolVersion::V8));
}

#[test]
fn timestamp_text_at_the_ends_of_the_range() {
    for (seconds, nanos) in [
        (-62_167_305_600, 0),
        (-62_167_305_541, 1_999_999_999),
        (253_402_387_199, 1_999_999_999),
        (253_402_387_199, 0),
        (0, 0),
    ] {
        for offset in [-86_399, -3_600, 0, 1, 59, 60, 86_399] {
            let t = Timestamp::new(seconds, nanos, offset).unwrap();
            assert_eq!(t.seconds(), seconds);
            assert_eq!(t.nanos(), nanos);
            assert_eq!(t.offset(), offset);
            let text = t.to_string();
            assert!(text.len() >= 25, "{:?}", text);
            assert!(text.contains('T'));
        }
    }
}
