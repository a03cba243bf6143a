use tsoracle::codec::versioned::{
    decode_framed, decode_postcard_exact, encode_framed, encode_postcard, split_framed,
    VersionedCodec,
};
use tsoracle::codec::{codec_io_error, decode, encode, CodecError, IoKind};

type Sample = (u64, String);

fn write(version: u8, value: &Sample) -> Result<Vec<u8>, CodecError> {
    encode(
        version,
        postcard::to_allocvec(value).map_err(|error| error.to_string()),
    )
}

fn parse(body: &[u8]) -> Result<(Sample, usize), String> {
    postcard::take_from_bytes::<Sample>(body)
        .map(|(value, rest)| (value, rest.len()))
        .map_err(|error| error.to_string())
}

fn body<T>(written: Result<Vec<u8>, T>) -> Result<Vec<u8>, String>
where
    T: std::fmt::Display,
{
    written.map_err(|error| error.to_string())
}

fn read(version: u8, bytes: &[u8]) -> Result<Sample, CodecError> {
    decode(version, bytes, parse)
}

#[test]
fn encode_decode_roundtrip() {
    let original: Sample = (42, "tsoracle".into());
    let bytes = write(1, &original).expect("encode");
    assert_eq!(bytes[0], 1);
    let decoded = read(1, &bytes).expect("decode");
    assert_eq!(original, decoded);
}

#[test]
fn lib_decode_rejects_wrong_version() {
    let bytes = write(2, &(1, "x".into())).expect("encode");
    let err = read(1, &bytes).expect_err("must reject");
    assert!(matches!(
        err,
        CodecError::Version {
            expected: 1,
            actual: 2
        }
    ));
}

#[test]
fn lib_decode_rejects_empty() {
    let err = read(1, &[]).expect_err("must reject");
    assert!(matches!(err, CodecError::Empty));
}

#[test]
fn decode_rejects_truncated_input() {
    let original: Sample = (u64::MAX, "hello-world-storage-roundtrip".into());
    let bytes = write(1, &original).expect("encode");
    assert!(bytes.len() >= 16, "payload should be non-trivial");
    let truncated = &bytes[..bytes.len() / 2];
    assert!(matches!(read(1, truncated), Err(CodecError::Decode(_))));
}

#[test]
fn decode_rejects_trailing_bytes() {
    let mut bytes = write(1, &(7, "trailing".into())).expect("encode");
    bytes.extend_from_slice(&[0xAB, 0xCD, 0xEF]);
    assert!(matches!(
        read(1, &bytes),
        Err(CodecError::TrailingBytes { extra: 3 })
    ));
}

#[test]
fn codec_io_error_maps_version_mismatch_to_invalid_data() {
    let v2_bytes = write(2, &(1, "x".into())).unwrap();
    let err = read(1, &v2_bytes).expect_err("must reject");
    assert!(matches!(err, CodecError::Version { .. }));
    let io_err = codec_io_error("vote decode", err);
    assert_eq!(io_err.kind, IoKind::InvalidData);
    assert!(
        io_err.message.starts_with("vote decode: "),
        "context must prefix the message, got {}",
        io_err.message
    );
}

#[test]
fn codec_io_error_maps_other_variants_to_other_kind() {
    let io_err = codec_io_error("vote decode", CodecError::Empty);
    assert_ne!(io_err.kind, IoKind::InvalidData);
    assert!(io_err.message.starts_with("vote decode: "));
}

#[test]
fn codec_io_error_maps_version_unsupported_to_invalid_data() {
    let err = CodecError::VersionUnsupported {
        min: 3,
        max: 3,
        actual: 7,
    };
    let io_err = codec_io_error("log decode", err);
    assert_eq!(io_err.kind, IoKind::InvalidData);
    assert!(io_err.message.starts_with("log decode: "));
}

#[test]
fn codec_io_error_maps_not_representable_to_other_kind() {
    let io_err = codec_io_error(
        "snapshot encode",
        CodecError::NotRepresentable { version: 1 },
    );
    assert_ne!(io_err.kind, IoKind::InvalidData);
    assert!(io_err.message.starts_with("snapshot encode: "));
}

#[derive(Debug, Clone, PartialEq)]
struct Widget {
    id: u64,
    label: String,
    color: Option<String>,
}

type WidgetV1 = (u64, String);

type WidgetV2 = (u64, String, Option<String>);

const WIDGET_MIN: u8 = 1;
const WIDGET_MAX: u8 = 2;

impl VersionedCodec for Widget {
    fn decode_version(version: u8, body: &[u8]) -> Result<Self, CodecError> {
        match version {
            1 => {
                let parsed = postcard::take_from_bytes::<WidgetV1>(body);
                decode_postcard_exact(
                    parsed
                        .map(|(value, rest)| (value, rest.len()))
                        .map_err(|error| error.to_string()),
                ).map(
                    |(id, label)| Widget {
                        id,
                        label,
                        color: None,
                    },
                )
            }
            2 => {
                let parsed = postcard::take_from_bytes::<WidgetV2>(body);
                decode_postcard_exact(
                    parsed
                        .map(|(value, rest)| (value, rest.len()))
                        .map_err(|error| error.to_string()),
                )
                    .map(|(id, label, color)| Widget { id, label, color })
            }
            other => Err(CodecError::VersionUnsupported {
                min: WIDGET_MIN,
                max: WIDGET_MAX,
                actual: other,
            }),
        }
    }

    fn encode_version(&self, version: u8) -> Result<Vec<u8>, CodecError> {
        match version {
            1 => {
                if self.color.is_some() {
                    return Err(CodecError::NotRepresentable { version: 1 });
                }
                encode_postcard(body(postcard::to_allocvec(&(self.id, self.label.clone()))))
            }
            2 => encode_postcard(body(postcard::to_allocvec(&(
                self.id,
                self.label.clone(),
                self.color.clone(),
            )))),
            other => Err(CodecError::VersionUnsupported {
                min: WIDGET_MIN,
                max: WIDGET_MAX,
                actual: other,
            }),
        }
    }
}

#[test]
fn postcard_body_roundtrips() {
    let original: Sample = (7, "ts".into());
    let bytes = encode_postcard(body(postcard::to_allocvec(&original))).expect("encode");
    let decoded = decode_postcard_exact(parse(&bytes)).expect("decode");
    assert_eq!(original, decoded);
}

#[test]
fn postcard_body_rejects_trailing_bytes() {
    let original: Sample = (1, "x".into());
    let mut bytes = encode_postcard(body(postcard::to_allocvec(&original))).expect("encode");
    bytes.extend_from_slice(&[0xAB, 0xCD]);
    assert!(matches!(
        decode_postcard_exact(parse(&bytes)),
        Err(CodecError::TrailingBytes { extra: 2 })
    ));
}

#[test]
fn version_unsupported_carries_range_and_actual() {
    let err = CodecError::VersionUnsupported {
        min: 1,
        max: 2,
        actual: 9,
    };
    assert_eq!(
        err.text(),
        "version unsupported: 9 outside readable range [1, 2]"
    );
}

#[test]
fn not_representable_names_the_version() {
    let err = CodecError::NotRepresentable { version: 1 };
    assert_eq!(err.text(), "value not representable at version 1");
}

#[test]
fn trait_encode_decode_roundtrips_each_version() {
    let widget = Widget {
        id: 42,
        label: "tso".into(),
        color: Some("amber".into()),
    };
    let body_v2 = widget.encode_version(2).expect("encode v2");
    let decoded_v2 = Widget::decode_version(2, &body_v2).expect("decode v2");
    assert_eq!(widget, decoded_v2);

    let gated = Widget {
        id: 7,
        label: "old".into(),
        color: None,
    };
    let body_v1 = gated.encode_version(1).expect("encode v1");
    let decoded_v1 = Widget::decode_version(1, &body_v1).expect("decode v1");
    assert_eq!(gated, decoded_v1);
}

#[test]
fn down_convert_rejects_non_representable_state() {
    let widget = Widget {
        id: 1,
        label: "x".into(),
        color: Some("blue".into()),
    };
    assert!(matches!(
        widget.encode_version(1),
        Err(CodecError::NotRepresentable { version: 1 })
    ));
    assert!(matches!(
        encode_framed(1, &widget),
        Err(CodecError::NotRepresentable { version: 1 })
    ));
}

#[test]
fn encode_framed_prepends_version_and_matches_body() {
    let widget = Widget {
        id: 5,
        label: "z".into(),
        color: None,
    };
    let framed = encode_framed(1, &widget).expect("encode_framed v1");
    assert_eq!(framed[0], 1, "leading byte is the version");
    let expected_body = widget.encode_version(1).expect("encode v1 body");
    assert_eq!(&framed[1..], expected_body.as_slice());
}

#[test]
fn decode_framed_dispatches_and_up_converts() {
    let old: WidgetV1 = (9, "old".into());
    let v1_body = encode_postcard(body(postcard::to_allocvec(&old))).expect("body");
    let mut framed = vec![1u8];
    framed.extend_from_slice(&v1_body);
    let widget: Widget = decode_framed(WIDGET_MIN, WIDGET_MAX, &framed).expect("decode v1");
    assert_eq!(
        widget,
        Widget {
            id: 9,
            label: "old".into(),
            color: None
        }
    );
}

#[test]
fn decode_framed_roundtrips_current_version() {
    let widget = Widget {
        id: 1,
        label: "now".into(),
        color: Some("red".into()),
    };
    let framed = encode_framed(2, &widget).expect("encode");
    let back: Widget = decode_framed(WIDGET_MIN, WIDGET_MAX, &framed).expect("decode");
    assert_eq!(widget, back);
}

#[test]
fn decode_framed_rejects_out_of_range_version() {
    let framed = [3u8, 0x00];
    let err = decode_framed::<Widget>(WIDGET_MIN, WIDGET_MAX, &framed).expect_err("reject");
    assert!(matches!(
        err,
        CodecError::VersionUnsupported {
            min: 1,
            max: 2,
            actual: 3
        }
    ));
}

#[test]
fn decode_framed_rejects_below_range_version() {
    let framed = [0u8, 0x00];
    let err = decode_framed::<Widget>(WIDGET_MIN, WIDGET_MAX, &framed).expect_err("reject");
    assert!(matches!(
        err,
        CodecError::VersionUnsupported {
            min: 1,
            max: 2,
            actual: 0
        }
    ));
}

#[test]
fn decode_framed_rejects_empty() {
    let err = decode_framed::<Widget>(WIDGET_MIN, WIDGET_MAX, &[]).expect_err("reject");
    assert!(matches!(err, CodecError::Empty));
}

#[test]
fn every_version_is_read_back_and_every_other_refused() {
    for version in 0..=u8::MAX {
        let original: Sample = (version as u64, "any".into());
        let bytes = write(version, &original).unwrap();
        assert_eq!(bytes[0], version);
        assert_eq!(read(version, &bytes).unwrap(), original);
        let other = version.wrapping_add(1);
        match read(other, &bytes) {
            Err(CodecError::Version { expected, actual }) => {
                assert_eq!((expected, actual), (other, version));
            }
            refused => panic!("expected a version mismatch; got {refused:?}"),
        }
    }
}

#[test]
fn a_failure_to_serialize_is_passed_on() {
    let why = postcard::Error::SerializeBufferFull.to_string();
    let failed = encode(1, Err(why.clone()));
    assert!(matches!(failed, Err(CodecError::Encode(kept)) if kept == why));
}

#[test]
fn codec_errors_are_described() {
    assert_eq!(CodecError::Empty.text(), "payload empty");
    let version = CodecError::Version {
        expected: 12,
        actual: 205,
    };
    assert_eq!(version.text(), "version mismatch: expected 12, got 205");
    assert_eq!(
        CodecError::TrailingBytes { extra: 1234 }.text(),
        "trailing bytes: 1234 unconsumed after a valid body"
    );
    let decode = CodecError::Decode(postcard::Error::DeserializeUnexpectedEnd.to_string());
    assert_eq!(
        decode.text(),
        format!("decode failed: {}", postcard::Error::DeserializeUnexpectedEnd)
    );
    let io_err = codec_io_error("log decode", decode);
    assert_eq!(io_err.kind, IoKind::Other);
    assert_eq!(
        io_err.message,
        format!(
            "log decode: decode failed: {}",
            postcard::Error::DeserializeUnexpectedEnd
        )
    );
    let encode = CodecError::Encode(postcard::Error::SerializeBufferFull.to_string());
    assert_eq!(
        encode.text(),
        format!("encode failed: {}", postcard::Error::SerializeBufferFull)
    );
}

#[test]
fn splitting_a_record_leaves_the_body_alone() {
    assert!(matches!(split_framed(1, 3, &[2, 9, 8]), Ok((2, body)) if body == [9, 8]));
    assert!(matches!(split_framed(1, 3, &[]), Err(CodecError::Empty)));
}
