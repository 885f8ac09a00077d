use hls_m3u8::attribute::{
    decode, encode, parse_tag, project, tokenize, AttributeValue, FieldSchema, FieldSpec,
    RawAttributeList, Tag, ValueKind, VersionRule,
};
use hls_m3u8::error::{DecodeError, ProjectionError, TokenizeError};
use hls_m3u8::tags::{ExtXServerControl, ExtXSkip};
use hls_m3u8::types::{Decimal, DecimalResolution, ProtocolVersion, Timestamp};
use hls_m3u8::{Error, RequiredVersion};

fn levels() -> ValueKind {
    ValueKind::EnumeratedToken(vec!["TYPE-0".to_string(), "NONE".to_string()])
}

fn stream_schema() -> FieldSchema {
    FieldSchema::new("#EXT-X-STREAM:", ProtocolVersion::V1)
        .with_field(FieldSpec::required("BANDWIDTH", ValueKind::UnsignedInteger))
        .unwrap()
        .with_field(FieldSpec::optional("CODECS", ValueKind::QuotedString))
        .unwrap()
        .with_field(FieldSpec::optional("RESOLUTION", ValueKind::Resolution))
        .unwrap()
        .with_field(FieldSpec::optional("FRAME-RATE", ValueKind::Decimal))
        .unwrap()
        .with_field(
            FieldSpec::optional("HDCP-LEVEL", levels())
                .with_version(VersionRule::WhenPresent(ProtocolVersion::V7)),
        )
        .unwrap()
        .with_field(
            FieldSpec::optional("IV", ValueKind::HexSequence)
                .with_version(VersionRule::WhenPresent(ProtocolVersion::V2)),
        )
        .unwrap()
        .with_field(FieldSpec::optional("START-DATE", ValueKind::Timestamp))
        .unwrap()
}

fn pairs(list: &RawAttributeList) -> Vec<(String, String)> {
    let mut all = vec![];
    let mut i = 0;
    while let Some((name, value)) = list.entry(i) {
        all.push((name.to_string(), value.to_string()));
        i += 1;
    }
    assert_eq!(i, list.len());
    all
}

fn pair(name: &str, value: &str) -> (String, String) {
    (name.to_string(), value.to_string())
}

#[test]
fn tokenize_plain_list() {
    let list = tokenize("BANDWIDTH=1280000,RESOLUTION=1920x1080,FRAME-RATE=29.97").unwrap();
    assert_eq!(
        pairs(&list),
        vec![
            pair("BANDWIDTH", "1280000"),
            pair("RESOLUTION", "1920x1080"),
            pair("FRAME-RATE", "29.97"),
        ]
    );
    assert_eq!(list.get("RESOLUTION"), Some("1920x1080"));
    assert_eq!(list.get("CODECS"), None);
    assert_eq!(list.entry(3), None);
}

#[test]
fn tokenize_empty_input() {
    let list = tokenize("").unwrap();
    assert_eq!(list.len(), 0);
    assert_eq!(list, RawAttributeList::new());
}

#[test]
fn tokenize_quoted_comma_is_one_value() {
    let list = tokenize("CODECS=\"a,b\"").unwrap();
    assert_eq!(pairs(&list), vec![pair("CODECS", "\"a,b\"")]);
    let list = tokenize("A=1,CODECS=\"avc1.4d401e,mp4a.40.2\",B=\",\",C=2").unwrap();
    assert_eq!(
        pairs(&list),
        vec![
            pair("A", "1"),
            pair("CODECS", "\"avc1.4d401e,mp4a.40.2\""),
            pair("B", "\",\""),
            pair("C", "2"),
        ]
    );
}

#[test]
fn tokenize_value_is_verbatim() {
    let list = tokenize("A=b=c,B= x ,C=,D=\"=\",E=a\"b,c\"d").unwrap();
    assert_eq!(
        pairs(&list),
        vec![
            pair("A", "b=c"),
            pair("B", " x "),
            pair("C", ""),
            pair("D", "\"=\""),
            pair("E", "a\"b,c\"d"),
        ]
    );
}

#[test]
fn tokenize_duplicate_name_last_wins_first_place() {
    let list = tokenize("A=1,B=2,A=3,C=4,B=5").unwrap();
    assert_eq!(pairs(&list), vec![pair("A", "3"), pair("B", "5"), pair("C", "4")]);
}

#[test]
fn tokenize_missing_equals() {
    for text in ["A", "A=1,", "A=1,,B=2", ",", "A=1,B", "\"A=B\"", "A\"=1\"", " "] {
        assert_eq!(tokenize(text), Err(TokenizeError::MissingEquals), "{:?}", text);
    }
}

#[test]
fn tokenize_empty_name() {
    for text in ["=1", "a=1", "A B=1", " A=1", "A=1,=2", "A_B=1", "\"A\"=1", "A=1, B=2"] {
        assert_eq!(tokenize(text), Err(TokenizeError::EmptyName), "{:?}", text);
    }
}

#[test]
fn tokenize_unterminated_quote() {
    for text in ["A=\"abc", "A=\"", "A=1,B=\"x,C=3", "A=\"a\"\"", "A=x\"y"] {
        assert_eq!(tokenize(text), Err(TokenizeError::UnterminatedQuote), "{:?}", text);
    }
}

#[test]
fn tokenize_first_failure_decides() {
    assert_eq!(tokenize("a=1,B"), Err(TokenizeError::EmptyName));
    assert_eq!(tokenize("B,a=1"), Err(TokenizeError::MissingEquals));
    assert_eq!(tokenize("=1,B=\"x"), Err(TokenizeError::EmptyName));
}

#[test]
fn raw_list_insert_and_get() {
    let mut list = RawAttributeList::new();
    list.insert("A".to_string(), "1".to_string());
    list.insert("B".to_string(), "2".to_string());
    list.insert("A".to_string(), "3".to_string());
    assert_eq!(list.len(), 2);
    assert_eq!(list.entry(0), Some(("A", "3")));
    assert_eq!(list.entry(1), Some(("B", "2")));
    assert_eq!(list.get("A"), Some("3"));
    assert_eq!(list.get("B"), Some("2"));
    assert_eq!(list.get("C"), None);
    assert_eq!(list, tokenize("A=3,B=2").unwrap());
}

#[test]
fn decode_unsigned_integer() {
    let kind = ValueKind::UnsignedInteger;
    assert_eq!(decode(&kind, "123"), Ok(AttributeValue::UnsignedInteger(123)));
    assert_eq!(decode(&kind, "0"), Ok(AttributeValue::UnsignedInteger(0)));
    assert_eq!(decode(&kind, "007"), Ok(AttributeValue::UnsignedInteger(7)));
    assert_eq!(
        decode(&kind, "18446744073709551615"),
        Ok(AttributeValue::UnsignedInteger(u64::MAX))
    );
    for text in ["", "+1", "-1", "1.0", "12a", " 1", "18446744073709551616", "0x1", "\"1\""] {
        assert_eq!(decode(&kind, text), Err(DecodeError::InvalidInteger), "{:?}", text);
    }
    assert_eq!(encode(&AttributeValue::UnsignedInteger(0)), "0");
    assert_eq!(encode(&AttributeValue::UnsignedInteger(1280000)), "1280000");
    assert_eq!(encode(&AttributeValue::UnsignedInteger(u64::MAX)), "18446744073709551615");
}

#[test]
fn decode_decimal() {
    let kind = ValueKind::Decimal;
    assert_eq!(
        decode(&kind, "29.970"),
        Ok(AttributeValue::Decimal(Decimal::parse("29.97").unwrap()))
    );
    assert_eq!(decode(&kind, "12"), Ok(AttributeValue::Decimal(Decimal::from_u16(12))));
    assert_eq!(decode(&kind, "1e3"), Err(DecodeError::InvalidDecimal));
    assert_eq!(decode(&kind, ""), Err(DecodeError::InvalidDecimal));
    assert_eq!(encode(&decode(&kind, "-0.50").unwrap()), "-0.5");
}

#[test]
fn decode_quoted_string() {
    let kind = ValueKind::QuotedString;
    assert_eq!(
        decode(&kind, "\"a,b\""),
        Ok(AttributeValue::QuotedString("a,b".to_string()))
    );
    assert_eq!(decode(&kind, "\"\""), Ok(AttributeValue::QuotedString(String::new())));
    assert_eq!(
        decode(&kind, "\" caf\u{e9} \""),
        Ok(AttributeValue::QuotedString(" caf\u{e9} ".to_string()))
    );
    for text in ["", "\"", "\"abc", "abc\"", "abc", "\"abc\" "] {
        assert_eq!(decode(&kind, text), Err(DecodeError::UnterminatedQuote), "{:?}", text);
    }
    assert_eq!(encode(&AttributeValue::QuotedString("a,b".to_string())), "\"a,b\"");
    assert_eq!(encode(&AttributeValue::QuotedString(String::new())), "\"\"");
}

#[test]
fn decode_enumerated_token() {
    let kind = levels();
    assert_eq!(
        decode(&kind, "TYPE-0"),
        Ok(AttributeValue::EnumeratedToken("TYPE-0".to_string()))
    );
    assert_eq!(decode(&kind, "NONE"), Ok(AttributeValue::EnumeratedToken("NONE".to_string())));
    for text in ["none", "TYPE-1", "", "NONE ", "\"NONE\""] {
        assert_eq!(
            decode(&kind, text),
            Err(DecodeError::UnknownToken {
                got: text.to_string(),
                expected: vec!["TYPE-0".to_string(), "NONE".to_string()],
            }),
            "{:?}",
            text
        );
    }
    assert_eq!(encode(&AttributeValue::EnumeratedToken("NONE".to_string())), "NONE");
}

#[test]
fn decode_hex_sequence() {
    let kind = ValueKind::HexSequence;
    assert_eq!(
        decode(&kind, "0x0aFF10"),
        Ok(AttributeValue::HexSequence(vec![0x0a, 0xff, 0x10]))
    );
    assert_eq!(decode(&kind, "0X00"), Ok(AttributeValue::HexSequence(vec![0])));
    assert_eq!(decode(&kind, "0x"), Ok(AttributeValue::HexSequence(vec![])));
    for text in ["", "0", "0x0", "0xG0", "0aFF", "x00", "0x 00", "0x000", "1x00"] {
        assert_eq!(decode(&kind, text), Err(DecodeError::InvalidHex), "{:?}", text);
    }
    assert_eq!(encode(&AttributeValue::HexSequence(vec![0x0a, 0xff, 0x10])), "0x0AFF10");
    assert_eq!(encode(&AttributeValue::HexSequence(vec![0x00, 0x9f, 0xa0])), "0x009FA0");
    assert_eq!(encode(&AttributeValue::HexSequence(vec![])), "0x");
    let all: Vec<u8> = (0..=255).collect();
    assert_eq!(
        decode(&kind, &encode(&AttributeValue::HexSequence(all.clone()))),
        Ok(AttributeValue::HexSequence(all))
    );
}

#[test]
fn decode_resolution() {
    let kind = ValueKind::Resolution;
    let value = decode(&kind, "1920x1080").unwrap();
    assert_eq!(value, AttributeValue::Resolution(DecimalResolution::new(1920, 1080)));
    assert_eq!(encode(&value), "1920x1080");
    assert_eq!(decode(&kind, "1280"), Err(DecodeError::InvalidResolution));
    assert_eq!(decode(&kind, "1x2x3"), Err(DecodeError::InvalidResolution));
}

#[test]
fn decode_timestamp() {
    let kind = ValueKind::Timestamp;
    let value = decode(&kind, "2010-02-19T14:54:23.031+08:00").unwrap();
    assert_eq!(
        value,
        AttributeValue::Timestamp(Timestamp::new(1_266_562_463, 31_000_000, 28_800).unwrap())
    );
    assert_eq!(encode(&value), "2010-02-19T14:54:23.031+08:00");
    assert_eq!(
        decode(&kind, "2010-02-19T14:54:23.031"),
        Err(DecodeError::InvalidTimestamp)
    );
    assert_eq!(
        encode(&decode(&kind, "2010-02-19T14:54:23Z").unwrap()),
        "2010-02-19T14:54:23+00:00"
    );
}

#[test]
fn decoding_undoes_encoding() {
    let values = vec![
        (ValueKind::UnsignedInteger, AttributeValue::UnsignedInteger(0)),
        (ValueKind::UnsignedInteger, AttributeValue::UnsignedInteger(9_007_199_254_740_993)),
        (ValueKind::Decimal, AttributeValue::Decimal(Decimal::parse("-12.0625").unwrap())),
        (ValueKind::Decimal, AttributeValue::Decimal(Decimal::parse("0.001").unwrap())),
        (ValueKind::QuotedString, AttributeValue::QuotedString("a,b=\u{1F600}".to_string())),
        (levels(), AttributeValue::EnumeratedToken("TYPE-0".to_string())),
        (ValueKind::HexSequence, AttributeValue::HexSequence(vec![1, 2, 254, 255])),
        (ValueKind::Resolution, AttributeValue::Resolution(DecimalResolution::new(0, 4320))),
        (
            ValueKind::Timestamp,
            AttributeValue::Timestamp(Timestamp::new(-1, 999_000_000, -3600).unwrap()),
        ),
    ];
    for (kind, value) in values {
        assert_eq!(decode(&kind, &encode(&value)), Ok(value));
    }
}

#[test]
fn schema_refuses_bad_names() {
    let schema = FieldSchema::new("#X:", ProtocolVersion::V1)
        .with_field(FieldSpec::required("A", ValueKind::UnsignedInteger))
        .unwrap();
    assert!(schema.has_field("A"));
    assert!(!schema.has_field("B"));
    assert_eq!(schema.len(), 1);
    assert_eq!(schema.prefix(), "#X:");
    assert_eq!(schema.baseline(), ProtocolVersion::V1);
    assert_eq!(schema.get(0).unwrap().name, "A");
    assert!(schema.get(1).is_none());
    let schema = schema.with_field(FieldSpec::optional("B-2", ValueKind::Decimal)).unwrap();
    for name in ["", "a", "A B", "A=", "A,", "\"A\"", "A", "B-2"] {
        let again = FieldSchema::new("#X:", ProtocolVersion::V1)
            .with_field(FieldSpec::required("A", ValueKind::UnsignedInteger))
            .unwrap()
            .with_field(FieldSpec::optional("B-2", ValueKind::Decimal))
            .unwrap();
        assert_eq!(again, schema);
        assert!(
            again.with_field(FieldSpec::optional(name, ValueKind::Decimal)).is_none(),
            "{:?}",
            name
        );
    }
}

#[test]
fn scenario_can_skip_until() {
    let schema = ExtXServerControl::schema();
    let raw = tokenize("CAN-SKIP-UNTIL=12").unwrap();
    let tag = project(&schema, &raw).unwrap();
    assert_eq!(tag.get(0), Some(&AttributeValue::Decimal(Decimal::from_u16(12))));
    assert_eq!(tag.get(1), None);
    assert_eq!(tag.get(5), None);
    assert_eq!(tag.serialize_attributes(), "CAN-SKIP-UNTIL=12");
    assert_eq!(tag.serialize(), "#EXT-X-SERVER-CONTROL:CAN-SKIP-UNTIL=12");
    assert_eq!(
        ExtXServerControl::parse("#EXT-X-SERVER-CONTROL:CAN-SKIP-UNTIL=12")
            .unwrap()
            .can_skip_until,
        Some(Decimal::parse("12.0").unwrap())
    );
}

#[test]
fn scenario_skipped_segments() {
    let schema = ExtXSkip::schema();
    let tag = project(&schema, &tokenize("SKIPPED-SEGMENTS=12").unwrap()).unwrap();
    assert_eq!(tag.get(0), Some(&AttributeValue::UnsignedInteger(12)));
    assert_eq!(
        project(&schema, &tokenize("").unwrap()),
        Err(ProjectionError::MissingRequiredField { name: "SKIPPED-SEGMENTS".to_string() })
    );
}

#[test]
fn project_ignores_unknown_attributes() {
    let schema = stream_schema();
    let with = project(&schema, &tokenize("X-NEW=\"a,b\",BANDWIDTH=1,FUTURE=0x00").unwrap());
    let without = project(&schema, &tokenize("BANDWIDTH=1").unwrap());
    assert_eq!(with, without);
    assert_eq!(with.unwrap().serialize(), "#EXT-X-STREAM:BANDWIDTH=1");
}

#[test]
fn project_reports_the_first_failure_in_schema_order() {
    let schema = stream_schema();
    assert_eq!(
        project(&schema, &tokenize("IV=zz,FRAME-RATE=x,CODECS=abc").unwrap()),
        Err(ProjectionError::MissingRequiredField { name: "BANDWIDTH".to_string() })
    );
    assert_eq!(
        project(&schema, &tokenize("IV=zz,FRAME-RATE=x,CODECS=abc,BANDWIDTH=5").unwrap()),
        Err(ProjectionError::FieldDecodeError {
            name: "CODECS".to_string(),
            cause: DecodeError::UnterminatedQuote,
        })
    );
    assert_eq!(
        project(&schema, &tokenize("IV=zz,FRAME-RATE=x,BANDWIDTH=5").unwrap()),
        Err(ProjectionError::FieldDecodeError {
            name: "FRAME-RATE".to_string(),
            cause: DecodeError::InvalidDecimal,
        })
    );
    assert_eq!(
        project(&schema, &tokenize("IV=zz,BANDWIDTH=5").unwrap()),
        Err(ProjectionError::FieldDecodeError {
            name: "IV".to_string(),
            cause: DecodeError::InvalidHex,
        })
    );
    assert_eq!(
        project(&schema, &tokenize("BANDWIDTH=5,RESOLUTION=12,START-DATE=now").unwrap()),
        Err(ProjectionError::FieldDecodeError {
            name: "RESOLUTION".to_string(),
            cause: DecodeError::InvalidResolution,
        })
    );
    assert_eq!(
        project(&schema, &tokenize("BANDWIDTH=5,START-DATE=now").unwrap()),
        Err(ProjectionError::FieldDecodeError {
            name: "START-DATE".to_string(),
            cause: DecodeError::InvalidTimestamp,
        })
    );
    assert_eq!(
        project(&schema, &tokenize("BANDWIDTH=-5").unwrap()),
        Err(ProjectionError::FieldDecodeError {
            name: "BANDWIDTH".to_string(),
            cause: DecodeError::InvalidInteger,
        })
    );
}

#[test]
fn required_field_enforcement() {
    let schema = FieldSchema::new("#T:", ProtocolVersion::V1)
        .with_field(FieldSpec::required("A", ValueKind::UnsignedInteger))
        .unwrap()
        .with_field(FieldSpec::optional("B", ValueKind::UnsignedInteger))
        .unwrap()
        .with_field(FieldSpec::required("C", ValueKind::UnsignedInteger))
        .unwrap();
    assert!(project(&schema, &tokenize("A=1,B=2,C=3").unwrap()).is_ok());
    assert!(project(&schema, &tokenize("A=1,C=3").unwrap()).is_ok());
    assert_eq!(
        project(&schema, &tokenize("B=2,C=3").unwrap()),
        Err(ProjectionError::MissingRequiredField { name: "A".to_string() })
    );
    assert_eq!(
        project(&schema, &tokenize("A=1,B=2").unwrap()),
        Err(ProjectionError::MissingRequiredField { name: "C".to_string() })
    );
    assert_eq!(
        project(&schema, &tokenize("B=2").unwrap()),
        Err(ProjectionError::MissingRequiredField { name: "A".to_string() })
    );
}

#[test]
fn serialize_in_schema_order() {
    let schema = stream_schema();
    let text = "START-DATE=2010-02-19T14:54:23.031+08:00,IV=0xab,HDCP-LEVEL=NONE,\
                FRAME-RATE=25.00,RESOLUTION=0640x0480,CODECS=\"a,b\",BANDWIDTH=0100";
    let tag = project(&schema, &tokenize(text).unwrap()).unwrap();
    assert_eq!(
        tag.serialize(),
        "#EXT-X-STREAM:BANDWIDTH=100,CODECS=\"a,b\",RESOLUTION=640x480,FRAME-RATE=25,\
         HDCP-LEVEL=NONE,IV=0xAB,START-DATE=2010-02-19T14:54:23.031+08:00"
    );
    let tag = project(&schema, &tokenize("IV=0x01,BANDWIDTH=7").unwrap()).unwrap();
    assert_eq!(tag.serialize_attributes(), "BANDWIDTH=7,IV=0x01");
}

#[test]
fn serialize_tag_without_fields() {
    let schema = FieldSchema::new("#EXT-X-ENDLIST", ProtocolVersion::V3);
    let tag = project(&schema, &tokenize("ANY=1").unwrap()).unwrap();
    assert_eq!(tag.serialize(), "#EXT-X-ENDLIST");
    assert_eq!(tag.serialize_attributes(), "");
    assert_eq!(tag.required_version(), ProtocolVersion::V3);
    assert_eq!(parse_tag(&schema, "#EXT-X-ENDLIST").unwrap(), tag);
}

#[test]
fn round_trip_is_canonical() {
    let schema = stream_schema();
    for text in [
        "BANDWIDTH=1",
        "CODECS=\"avc1,mp4a\",BANDWIDTH=0012,X-OTHER=1",
        "FRAME-RATE=029.9700,BANDWIDTH=5,BANDWIDTH=6,IV=0xdeadBEEF",
        "START-DATE=2010-02-19T14:54:23.031+08:00,BANDWIDTH=1,HDCP-LEVEL=TYPE-0",
        "RESOLUTION=01x02,BANDWIDTH=18446744073709551615,CODECS=\"\"",
    ] {
        let tag = project(&schema, &tokenize(text).unwrap()).unwrap();
        let written = tag.serialize_attributes();
        let again = project(&schema, &tokenize(&written).unwrap()).unwrap();
        assert_eq!(again, tag, "{:?}", text);
        assert_eq!(again.serialize_attributes(), written);
        assert_eq!(parse_tag(&schema, &tag.serialize()).unwrap(), tag);
    }
}

#[test]
fn serialization_does_not_depend_on_input_order() {
    let schema = stream_schema();
    let a = project(
        &schema,
        &tokenize("BANDWIDTH=1,CODECS=\"x,y\",FRAME-RATE=1.5,IV=0xff").unwrap(),
    )
    .unwrap();
    let b = project(
        &schema,
        &tokenize("IV=0xFF,FRAME-RATE=01.50,CODECS=\"x,y\",BANDWIDTH=001").unwrap(),
    )
    .unwrap();
    assert_eq!(a, b);
    assert_eq!(a.serialize(), b.serialize());
    assert_eq!(a.serialize(), "#EXT-X-STREAM:BANDWIDTH=1,CODECS=\"x,y\",FRAME-RATE=1.5,IV=0xFF");
}

#[test]
fn required_version_follows_the_rules() {
    let schema = stream_schema();
    let version =
        |text: &str| project(&schema, &tokenize(text).unwrap()).unwrap().required_version();
    assert_eq!(version("BANDWIDTH=1"), ProtocolVersion::V1);
    assert_eq!(version("BANDWIDTH=1,IV=0x00"), ProtocolVersion::V2);
    assert_eq!(version("BANDWIDTH=1,HDCP-LEVEL=NONE"), ProtocolVersion::V7);
    assert_eq!(version("BANDWIDTH=1,HDCP-LEVEL=NONE,IV=0x00"), ProtocolVersion::V7);
    assert_eq!(version("BANDWIDTH=1,CODECS=\"a\""), ProtocolVersion::V1);
}

#[test]
fn required_version_has_a_baseline_and_unconditional_rules() {
    let schema = FieldSchema::new("#T:", ProtocolVersion::V4)
        .with_field(
            FieldSpec::optional("A", ValueKind::UnsignedInteger)
                .with_version(VersionRule::WhenPresent(ProtocolVersion::V6)),
        )
        .unwrap()
        .with_field(
            FieldSpec::optional("B", ValueKind::UnsignedInteger)
                .with_version(VersionRule::WhenPresent(ProtocolVersion::V2)),
        )
        .unwrap();
    let version =
        |text: &str| project(&schema, &tokenize(text).unwrap()).unwrap().required_version();
    assert_eq!(version(""), ProtocolVersion::V4);
    assert_eq!(version("B=1"), ProtocolVersion::V4);
    assert_eq!(version("A=1"), ProtocolVersion::V6);
    assert_eq!(version("A=1,B=1"), ProtocolVersion::V6);
    let always = FieldSchema::new("#T:", ProtocolVersion::V1)
        .with_field(
            FieldSpec::optional("A", ValueKind::UnsignedInteger)
                .with_version(VersionRule::Always(ProtocolVersion::V5)),
        )
        .unwrap();
    assert_eq!(
        project(&always, &tokenize("").unwrap()).unwrap().required_version(),
        ProtocolVersion::V5
    );
    assert_eq!(VersionRule::default().output(true), ProtocolVersion::V1);
    assert_eq!(VersionRule::WhenPresent(ProtocolVersion::V3).output(false), ProtocolVersion::V1);
    assert_eq!(VersionRule::WhenPresent(ProtocolVersion::V3).output(true), ProtocolVersion::V3);
    assert_eq!(VersionRule::Always(ProtocolVersion::V3).output(false), ProtocolVersion::V3);
}

#[test]
fn tag_from_values() {
    let schema = stream_schema();
    let values = vec![
        Some(AttributeValue::UnsignedInteger(5)),
        None,
        Some(AttributeValue::Resolution(DecimalResolution::new(1, 2))),
        None,
        None,
        None,
        None,
    ];
    let tag = Tag::new(&schema, values).unwrap();
    assert_eq!(tag.serialize(), "#EXT-X-STREAM:BANDWIDTH=5,RESOLUTION=1x2");
    assert_eq!(tag, project(&schema, &tokenize("RESOLUTION=1x2,BANDWIDTH=5").unwrap()).unwrap());
    assert_eq!(tag.schema(), &schema);

    let none = || -> Vec<Option<AttributeValue>> { vec![None, None, None, None, None, None, None] };
    assert!(Tag::new(&schema, none()).is_none());
    assert!(Tag::new(&schema, vec![Some(AttributeValue::UnsignedInteger(5))]).is_none());
    let mut wrong_kind = none();
    wrong_kind[0] = Some(AttributeValue::Decimal(Decimal::from_u16(5)));
    assert!(Tag::new(&schema, wrong_kind).is_none());
    let mut wrong_word = none();
    wrong_word[0] = Some(AttributeValue::UnsignedInteger(5));
    wrong_word[4] = Some(AttributeValue::EnumeratedToken("TYPE-1".to_string()));
    assert!(Tag::new(&schema, wrong_word).is_none());
    let mut right_word = none();
    right_word[0] = Some(AttributeValue::UnsignedInteger(5));
    right_word[4] = Some(AttributeValue::EnumeratedToken("TYPE-0".to_string()));
    assert_eq!(
        Tag::new(&schema, right_word).unwrap().serialize_attributes(),
        "BANDWIDTH=5,HDCP-LEVEL=TYPE-0"
    );
}

#[test]
fn parse_tag_failures() {
    let schema = stream_schema();
    assert_eq!(parse_tag(&schema, "#EXT-X-OTHER:BANDWIDTH=1"), Err(Error::MissingTag));
    assert_eq!(parse_tag(&schema, "BANDWIDTH=1"), Err(Error::MissingTag));
    assert_eq!(
        parse_tag(&schema, "#EXT-X-STREAM:BANDWIDTH"),
        Err(Error::Tokenize(TokenizeError::MissingEquals))
    );
    assert_eq!(
        parse_tag(&schema, "#EXT-X-STREAM:bandwidth=1"),
        Err(Error::Tokenize(TokenizeError::EmptyName))
    );
    assert_eq!(
        parse_tag(&schema, "#EXT-X-STREAM:BANDWIDTH=1,CODECS=\"a"),
        Err(Error::Tokenize(TokenizeError::UnterminatedQuote))
    );
    assert_eq!(
        parse_tag(&schema, "#EXT-X-STREAM:"),
        Err(Error::Projection(ProjectionError::MissingRequiredField {
            name: "BANDWIDTH".to_string()
        }))
    );
    assert_eq!(
        parse_tag(&schema, "#EXT-X-STREAM:BANDWIDTH=1").unwrap().serialize(),
        "#EXT-X-STREAM:BANDWIDTH=1"
    );
}

#[test]
fn tag_values_by_name() {
    let schema = stream_schema();
    let tag = project(&schema, &tokenize("IV=0x01,BANDWIDTH=7").unwrap()).unwrap();
    assert_eq!(tag.value("BANDWIDTH"), Some(&AttributeValue::UnsignedInteger(7)));
    assert_eq!(tag.value("IV"), Some(&AttributeValue::HexSequence(vec![1])));
    assert_eq!(tag.value("CODECS"), None);
    assert_eq!(tag.value("NO-SUCH-FIELD"), None);
    assert_eq!(schema.position("IV"), Some(5));
    assert_eq!(schema.position("NO-SUCH-FIELD"), None);
    assert_eq!(tag.get(5), tag.value("IV"));
}
