use chrono::{DateTime, FixedOffset};
use hls_m3u8::error::{BuilderError, DecodeError, ProjectionError, TokenizeError};
use hls_m3u8::tags::any_tag::TagKind;
use hls_m3u8::tags::{
    AnyTag, ExtXDiscontinuitySequence, ExtXPrefetch, ExtXProgramDateTime, ExtXServerControl,
    ExtXSkip,
};
use hls_m3u8::types::{Decimal, ProtocolVersion, Timestamp};
use hls_m3u8::{Error, RequiredVersion};

fn timestamp_of(text: &str) -> Timestamp {
    let date_time = text.parse::<DateTime<FixedOffset>>().unwrap();
    Timestamp::new(
        date_time.timestamp(),
        date_time.timestamp_subsec_nanos(),
        date_time.offset().local_minus_utc(),
    )
    .unwrap()
}

#[test]
fn ext_x_discontinuity_sequence() {
    let tag = ExtXDiscontinuitySequence::new(123);
    let text = "#EXT-X-DISCONTINUITY-SEQUENCE:123";
    assert_eq!(ExtXDiscontinuitySequence::parse(text).ok(), Some(tag));
    assert_eq!(tag.to_string(), text);
    assert_eq!(tag.requires_version(), ProtocolVersion::V1);
}

#[test]
fn discontinuity_sequence_getter() {
    assert_eq!(ExtXDiscontinuitySequence::new(7).seq_num(), 7);
}

#[test]
fn discontinuity_sequence_rejects_other_lines() {
    assert_eq!(
        ExtXDiscontinuitySequence::parse("#EXT-X-SKIP:123"),
        Err(Error::MissingTag)
    );
    assert_eq!(
        ExtXDiscontinuitySequence::parse("#EXT-X-DISCONTINUITY-SEQUENCE:"),
        Err(Error::Decode(DecodeError::InvalidInteger))
    );
    assert_eq!(
        ExtXDiscontinuitySequence::parse("#EXT-X-DISCONTINUITY-SEQUENCE:+123"),
        Err(Error::Decode(DecodeError::InvalidInteger))
    );
    assert_eq!(
        ExtXDiscontinuitySequence::parse("#EXT-X-DISCONTINUITY-SEQUENCE:12a"),
        Err(Error::Decode(DecodeError::InvalidInteger))
    );
    assert_eq!(
        ExtXDiscontinuitySequence::parse("#EXT-X-DISCONTINUITY-SEQUENCE:18446744073709551616"),
        Err(Error::Decode(DecodeError::InvalidInteger))
    );
}

#[test]
fn discontinuity_sequence_largest_number() {
    let text = "#EXT-X-DISCONTINUITY-SEQUENCE:18446744073709551615";
    let tag = ExtXDiscontinuitySequence::parse(text).unwrap();
    assert_eq!(tag.seq_num(), u64::MAX);
    assert_eq!(tag.to_string(), text);
}

#[test]
fn prefetch_test_display() {
    assert_eq!(
        ExtXPrefetch::new("http://path/to/segment.ts").to_string(),
        "#EXT-X-PREFETCH:http://path/to/segment.ts".to_string()
    );
}

#[test]
fn test_required_version() {
    assert_eq!(
        ExtXPrefetch::new("http://path/to/segment.ts").required_version(),
        ProtocolVersion::V1
    );
}

#[test]
fn prefetch_test_parser() {
    assert_eq!(
        ExtXPrefetch::new("http://path/to/segment.ts"),
        ExtXPrefetch::parse("#EXT-X-PREFETCH:http://path/to/segment.ts").unwrap()
    );
}

#[test]
fn prefetch_into_owned_keeps_the_path() {
    let owned: ExtXPrefetch<'static> = {
        let line = String::from("#EXT-X-PREFETCH:caf\u{e9}/seg.ts");
        ExtXPrefetch::parse(&line).unwrap().into_owned()
    };
    assert_eq!(owned.uri(), "caf\u{e9}/seg.ts");
    assert_eq!(owned.to_string(), "#EXT-X-PREFETCH:caf\u{e9}/seg.ts");
    assert_eq!(owned.clone(), owned);
}

#[test]
fn prefetch_set_uri() {
    let mut tag = ExtXPrefetch::new("a.ts");
    assert_eq!(tag.set_uri("b.ts").uri(), "b.ts");
    assert_eq!(tag.to_string(), "#EXT-X-PREFETCH:b.ts");
}

#[test]
fn prefetch_rejects_other_lines() {
    assert_eq!(ExtXPrefetch::parse("#EXT-X-PREFETCH"), Err(Error::MissingTag));
    assert_eq!(ExtXPrefetch::parse(""), Err(Error::MissingTag));
    assert_eq!(ExtXPrefetch::parse("#EXT-X-PREFETCH:").unwrap().uri(), "");
}

#[test]
fn server_control_test_display() {
    let control = ExtXServerControl::builder()
        .can_skip_until(Decimal::from_u16(12u16))
        .build()
        .unwrap();
    assert_eq!(
        "#EXT-X-SERVER-CONTROL:CAN-SKIP-UNTIL=12".to_string(),
        control.to_string(),
    );
}

#[test]
fn server_control_all_fields_in_schema_order() {
    let control = ExtXServerControl::builder()
        .can_block_reload(true)
        .part_hold_back(Decimal::parse("1.002").unwrap())
        .hold_back(Decimal::parse("6").unwrap())
        .can_skip_dateranges(false)
        .can_skip_until(Decimal::parse("36.5").unwrap())
        .build()
        .unwrap();
    let line = "#EXT-X-SERVER-CONTROL:CAN-SKIP-UNTIL=36.5,CAN-SKIP-DATERANGES=NO,HOLD-BACK=6,\
                PART-HOLD-BACK=1.002,CAN-BLOCK-RELOAD=YES";
    assert_eq!(control.to_string(), line);
    assert_eq!(ExtXServerControl::parse(line), Ok(control));
    assert_eq!(control.required_version(), ProtocolVersion::V8);
}

#[test]
fn server_control_without_fields() {
    let control = ExtXServerControl::default();
    assert_eq!(ExtXServerControl::builder().build(), Ok(control));
    assert_eq!(control.to_string(), "#EXT-X-SERVER-CONTROL:");
    assert_eq!(ExtXServerControl::parse("#EXT-X-SERVER-CONTROL:"), Ok(control));
}

#[test]
fn server_control_parse_failures() {
    assert_eq!(
        ExtXServerControl::parse("#EXT-X-SKIP:CAN-SKIP-UNTIL=12"),
        Err(Error::MissingTag)
    );
    assert_eq!(
        ExtXServerControl::parse("#EXT-X-SERVER-CONTROL:CAN-SKIP-UNTIL"),
        Err(Error::Tokenize(TokenizeError::MissingEquals))
    );
    assert_eq!(
        ExtXServerControl::parse("#EXT-X-SERVER-CONTROL:CAN-SKIP-UNTIL=1e3"),
        Err(Error::Projection(ProjectionError::FieldDecodeError {
            name: "CAN-SKIP-UNTIL".to_string(),
            cause: DecodeError::InvalidDecimal,
        }))
    );
    assert_eq!(
        ExtXServerControl::parse("#EXT-X-SERVER-CONTROL:CAN-BLOCK-RELOAD=yes"),
        Err(Error::Projection(ProjectionError::FieldDecodeError {
            name: "CAN-BLOCK-RELOAD".to_string(),
            cause: DecodeError::UnknownToken {
                got: "yes".to_string(),
                expected: vec!["YES".to_string(), "NO".to_string()],
            },
        }))
    );
}

#[test]
fn skip_test_display() {
    let control = ExtXSkip::builder().skipped_segments(12).build().unwrap();
    assert_eq!(
        "#EXT-X-SKIP:SKIPPED-SEGMENTS=12".to_string(),
        control.to_string(),
    );
}

#[test]
fn skip_builder_needs_its_field() {
    assert_eq!(
        ExtXSkip::builder().build(),
        Err(BuilderError::UninitializedField("skipped_segments"))
    );
}

#[test]
fn skip_parse() {
    let tag = ExtXSkip::parse("#EXT-X-SKIP:SKIPPED-SEGMENTS=12").unwrap();
    assert_eq!(tag.skipped_segments(), 12);
    assert_eq!(tag.required_version(), ProtocolVersion::V8);
    assert_eq!(
        ExtXSkip::parse("#EXT-X-SKIP:"),
        Err(Error::Projection(ProjectionError::MissingRequiredField {
            name: "SKIPPED-SEGMENTS".to_string()
        }))
    );
    assert_eq!(
        ExtXSkip::parse("#EXT-X-SKIP:SKIPPED-SEGMENTS=-1"),
        Err(Error::Projection(ProjectionError::FieldDecodeError {
            name: "SKIPPED-SEGMENTS".to_string(),
            cause: DecodeError::InvalidInteger,
        }))
    );
    assert_eq!(
        ExtXSkip::parse("#EXT-X-SKIP:SKIPPED-SEGMENTS=4294967296"),
        Err(Error::Projection(ProjectionError::FieldDecodeError {
            name: "SKIPPED-SEGMENTS".to_string(),
            cause: DecodeError::InvalidInteger,
        }))
    );
    assert_eq!(
        ExtXSkip::parse("#EXT-X-SKIP:SKIPPED-SEGMENTS=4294967295").unwrap().skipped_segments(),
        u32::MAX
    );
}

#[test]
fn program_date_time_test_display() {
    let date_time = timestamp_of("2010-02-19T14:54:23.031+08:00");

    let program_date_time = ExtXProgramDateTime::new(date_time);

    assert_eq!(
        program_date_time.to_string(),
        "#EXT-X-PROGRAM-DATE-TIME:2010-02-19T14:54:23.031+08:00".to_string()
    );
}

#[test]
fn program_date_time_test_parser() {
    ExtXProgramDateTime::parse("#EXT-X-PROGRAM-DATE-TIME:2010-02-19T14:54:23.031+08:00").unwrap();
}

#[test]
fn test_requires_version() {
    let date_time = timestamp_of("2010-02-19T14:54:23.031+08:00");

    let program_date_time = ExtXProgramDateTime::new(date_time);

    assert_eq!(program_date_time.requires_version(), ProtocolVersion::V1);
}

#[test]
fn program_date_time_parse_gives_the_instant() {
    let tag =
        ExtXProgramDateTime::parse("#EXT-X-PROGRAM-DATE-TIME:2010-02-19T14:54:23.031+08:00")
            .unwrap();
    assert_eq!(tag.date_time().seconds(), 1_266_562_463);
    assert_eq!(tag.date_time().nanos(), 31_000_000);
    assert_eq!(tag.date_time().offset(), 8 * 3600);
    assert_eq!(*tag.date_time(), timestamp_of("2010-02-19T14:54:23.031+08:00"));
}

#[test]
fn program_date_time_parse_failures() {
    assert_eq!(
        ExtXProgramDateTime::parse("2010-02-19T14:54:23.031+08:00"),
        Err(Error::MissingTag)
    );
    assert_eq!(
        ExtXProgramDateTime::parse("#EXT-X-PROGRAM-DATE-TIME:2010-02-19T14:54:23.031"),
        Err(Error::Decode(DecodeError::InvalidTimestamp))
    );
    assert_eq!(
        ExtXProgramDateTime::parse("#EXT-X-PROGRAM-DATE-TIME:yesterday"),
        Err(Error::Decode(DecodeError::InvalidTimestamp))
    );
}

#[test]
fn any_tag_is_told_by_its_prefix() {
    let lines = [
        "#EXT-X-DISCONTINUITY-SEQUENCE:123",
        "#EXT-X-PREFETCH:http://path/to/segment.ts",
        "#EXT-X-PROGRAM-DATE-TIME:2010-02-19T14:54:23.031+08:00",
        "#EXT-X-SERVER-CONTROL:CAN-SKIP-UNTIL=12,CAN-BLOCK-RELOAD=YES",
        "#EXT-X-SKIP:SKIPPED-SEGMENTS=12",
    ];
    let versions = [
        ProtocolVersion::V1,
        ProtocolVersion::V1,
        ProtocolVersion::V1,
        ProtocolVersion::V8,
        ProtocolVersion::V8,
    ];
    let mut latest = vec![];
    for (line, version) in lines.iter().zip(versions) {
        let tag = AnyTag::parse(line).unwrap();
        assert_eq!(tag.to_string(), *line);
        assert_eq!(tag.required_version(), version);
        latest.push(tag.required_version());
    }
    assert_eq!(ProtocolVersion::latest(&latest), ProtocolVersion::V8);
    assert_eq!(
        AnyTag::parse(lines[0]),
        Ok(AnyTag::DiscontinuitySequence(ExtXDiscontinuitySequence::new(123)))
    );
    assert_eq!(
        AnyTag::parse(lines[4]),
        Ok(AnyTag::Skip(ExtXSkip::builder().skipped_segments(12).build().unwrap()))
    );
    assert_eq!(AnyTag::parse("#EXTM3U"), Err(Error::MissingTag));
    assert_eq!(AnyTag::parse(""), Err(Error::MissingTag));
    assert_eq!(
        AnyTag::parse("#EXT-X-SKIP:"),
        Err(Error::Projection(ProjectionError::MissingRequiredField {
            name: "SKIPPED-SEGMENTS".to_string()
        }))
    );
    assert_eq!(
        AnyTag::parse("#EXT-X-DISCONTINUITY-SEQUENCE:x"),
        Err(Error::Decode(DecodeError::InvalidInteger))
    );
}

#[test]
fn builders_start_empty() {
    assert_eq!(ExtXSkip::default().skipped_segments(), 0);
    assert_eq!(ExtXSkip::default().to_string(), "#EXT-X-SKIP:SKIPPED-SEGMENTS=0");
    assert_eq!(ExtXServerControl::builder().build(), Ok(ExtXServerControl::default()));
    let mut builder = ExtXServerControl::builder();
    builder.hold_back(Decimal::from_u16(9));
    builder.can_skip_dateranges(true);
    let control = builder.build().unwrap();
    assert_eq!(control.hold_back, Some(Decimal::from_u16(9)));
    assert_eq!(control.can_skip_dateranges, Some(true));
    assert_eq!(control.can_skip_until, None);
    assert_eq!(control.to_string(), "#EXT-X-SERVER-CONTROL:CAN-SKIP-DATERANGES=YES,HOLD-BACK=9");
}

#[test]
fn kind_of_a_line() {
    assert_eq!(AnyTag::kind_of("#EXT-X-SKIP:"), Some(TagKind::Skip));
    assert_eq!(AnyTag::kind_of("#EXT-X-SKIP"), None);
    assert_eq!(AnyTag::kind_of("#EXT-X-SERVER-CONTROL:x"), Some(TagKind::ServerControl));
    assert_eq!(AnyTag::kind_of("#EXT-X-PREFETCH:"), Some(TagKind::Prefetch));
    assert_eq!(
        AnyTag::kind_of("#EXT-X-PROGRAM-DATE-TIME:now"),
        Some(TagKind::ProgramDateTime)
    );
    assert_eq!(
        AnyTag::kind_of("#EXT-X-DISCONTINUITY-SEQUENCE:1"),
        Some(TagKind::DiscontinuitySequence)
    );
    assert_eq!(AnyTag::kind_of(" #EXT-X-SKIP:"), None);
}
