use resonite_anim::animation::{
    Animation, CurveData, CurveKeyframe, DiscreteData, DiscreteKeyframe, RawData, Track, TrackData,
    TrackTrait,
};
use resonite_anim::document::{Json, JsonNumber};
use resonite_anim::error::AnimXError;
use resonite_anim::reader::AnimXReader;
use resonite_anim::types::{Interpolation, OptString, TrackType, Value, ValueType};
use resonite_anim::wire::write_varint;

fn encode(anim: &Animation) -> Vec<u8> {
    let mut out = Vec::new();
    anim.write_animx(&mut out).expect("encodable");
    out
}

fn header(count: u8) -> Vec<u8> {
    let mut b = vec![5, b'A', b'n', b'i', b'm', b'X', 1, 0, 0, 0, count];
    b.extend_from_slice(&0f32.to_le_bytes());
    b.push(0); // empty name
    b.push(0); // encoding flag
    b
}

fn num(x: f64) -> Json {
    let integer = if x.fract() == 0.0 { Some(x as i128) } else { None };
    Json::Number(JsonNumber { integer, f32_bits: (x as f32).to_bits(), f64_bits: x.to_bits() })
}

fn text(s: &str) -> Json {
    Json::Str(s.to_string())
}

fn obj(members: Vec<(&str, Json)>) -> Json {
    Json::Object(members.into_iter().map(|(k, v)| (k.to_string(), v)).collect())
}

fn float_track_doc() -> Json {
    obj(vec![
        ("trackType", text("Raw")),
        ("valueType", text("float")),
        (
            "data",
            obj(vec![
                ("node", text("root")),
                ("interval", num(0.5)),
                ("keyframes", Json::Array(vec![num(1.0), num(2.0)])),
            ]),
        ),
    ])
}

#[test]
fn varint_300_is_two_bytes() {
    let mut out = Vec::new();
    write_varint(&mut out, 300);
    assert_eq!(out, vec![0xAC, 0x02]);
    let mut r = AnimXReader::new(out);
    assert_eq!(r.read_varint().unwrap(), 300);
    assert_eq!(r.consumed(), 2);
}

#[test]
fn varint_round_trips() {
    for n in [0u64, 1, 127, 128, 16383, 16384, u32::MAX as u64, u64::MAX] {
        let mut out = Vec::new();
        write_varint(&mut out, n);
        let len = out.len();
        out.push(0x55);
        let mut r = AnimXReader::new(out);
        assert_eq!(r.read_varint().unwrap(), n);
        assert_eq!(r.consumed(), len);
    }
}

#[test]
fn varint_too_large_is_rejected() {
    let mut r = AnimXReader::new(vec![0xFF; 10].into_iter().chain([0x01]).collect());
    assert!(matches!(r.read_varint(), Err(AnimXError::VarIntOverflow)));
    let mut r = AnimXReader::new(vec![0x80, 0x80]);
    assert!(matches!(r.read_varint(), Err(AnimXError::TruncatedInput)));
}

#[test]
fn header_round_trip() {
    let anim = Animation {
        name: Some("walk".to_string()),
        global_duration: Some(1.5f32.to_bits()),
        tracks: vec![],
    };
    let bytes = encode(&anim);
    let back = Animation::from_animx(bytes).unwrap();
    assert_eq!(back.name.as_deref(), Some("walk"));
    assert_eq!(f32::from_bits(back.global_duration.unwrap()), 1.5);
    assert!(back.tracks.is_empty());
}

#[test]
fn header_bytes_exact() {
    let anim = Animation { name: None, global_duration: None, tracks: vec![] };
    assert_eq!(encode(&anim), header(0));
}

#[test]
fn raw_track_round_trip() {
    let values = [0.0f32, 1.0, 2.0];
    let track = Track {
        value_type: ValueType::Float,
        data: TrackData::Raw(RawData {
            node: None,
            property: None,
            interval: Some(0.1f32.to_bits()),
            keyframes: values.iter().map(|v| Value::Float(v.to_bits())).collect(),
        }),
    };
    let anim = Animation { name: None, global_duration: None, tracks: vec![track] };
    let back = Animation::from_animx(encode(&anim)).unwrap();
    assert_eq!(back.tracks.len(), 1);
    assert_eq!(back.tracks[0].value_type, ValueType::Float);
    match &back.tracks[0].data {
        TrackData::Raw(d) => {
            assert_eq!(f32::from_bits(d.interval.unwrap()), 0.1);
            let got: Vec<f32> = d
                .keyframes
                .iter()
                .map(|v| match v {
                    Value::Float(b) => f32::from_bits(*b),
                    other => panic!("unexpected {:?}", other),
                })
                .collect();
            assert_eq!(got, values.to_vec());
        },
        other => panic!("unexpected {:?}", other),
    }
}

fn value_bytes(v: &Value) -> Vec<u8> {
    let mut out = Vec::new();
    v.write(&mut out);
    out
}

#[test]
fn bool2_packing() {
    assert_eq!(value_bytes(&Value::Bool2([true, false])), vec![0x01]);
    assert_eq!(value_bytes(&Value::Bool2([false, true])), vec![0x02]);
    assert_eq!(value_bytes(&Value::Bool2([true, true])), vec![0x03]);
    assert_eq!(value_bytes(&Value::Bool4([false, false, true, true])), vec![0x0C]);
    let mut r = AnimXReader::new(vec![0x06]);
    assert!(matches!(r.read_value(ValueType::Bool3), Ok(Value::Bool3([false, true, true]))));
}

#[test]
fn value_layouts() {
    assert_eq!(value_bytes(&Value::Int2([1, -1])), vec![1, 0, 0, 0, 0xFF, 0xFF, 0xFF, 0xFF]);
    assert_eq!(value_bytes(&Value::Short(-2)), vec![0xFE, 0xFF]);
    assert_eq!(value_bytes(&Value::Ulong(0x0102030405060708)), vec![8, 7, 6, 5, 4, 3, 2, 1]);
    assert_eq!(value_bytes(&Value::Color32([1, 2, 3, 4])), vec![1, 2, 3, 4]);
    assert_eq!(value_bytes(&Value::Bool(true)), vec![1]);
    assert_eq!(value_bytes(&Value::Float2x2([1, 2, 3, 4])).len(), 16);
    assert_eq!(value_bytes(&Value::Double4x4([0; 16])).len(), 128);
    assert_eq!(value_bytes(&Value::OptString(OptString(String::new()))), vec![0]);
    assert_eq!(value_bytes(&Value::OptString(OptString("ab".to_string()))), vec![1, 2, b'a', b'b']);
}

#[test]
fn value_kind_tags() {
    assert_eq!(ValueType::Byte.tag(), 0);
    assert_eq!(ValueType::Bool.tag(), 5);
    assert_eq!(ValueType::Float.tag(), 21);
    assert_eq!(ValueType::OptString.tag(), 39);
    assert_eq!(ValueType::from_u8(39), Some(ValueType::OptString));
    assert_eq!(ValueType::from_u8(40), None);
    assert_eq!(TrackType::from_u8(3), None);
    assert_eq!(Interpolation::from_u8(3), Some(Interpolation::CubicBezier));
}

fn curve_key(t: f32, left: Option<i32>, right: Option<i32>) -> CurveKeyframe {
    CurveKeyframe {
        time: t.to_bits(),
        value: Value::Int(7),
        interpolation: Interpolation::Tangent,
        left_tangent: left.map(Value::Int),
        right_tangent: right.map(Value::Int),
    }
}

fn curve_anim(keys: Vec<CurveKeyframe>) -> Animation {
    Animation {
        name: None,
        global_duration: None,
        tracks: vec![Track {
            value_type: ValueType::Int,
            data: TrackData::Curve(CurveData { node: None, property: None, keyframes: keys }),
        }],
    }
}

#[test]
fn curve_mixed_tangents_rejected() {
    let anim = curve_anim(vec![curve_key(0.0, Some(1), Some(2)), curve_key(1.0, None, None)]);
    let mut out = vec![9];
    assert!(matches!(anim.write_animx(&mut out), Err(AnimXError::InconsistentTangents)));
    assert_eq!(out, vec![9]);
}

#[test]
fn curve_with_tangents_round_trips() {
    let anim = curve_anim(vec![curve_key(0.0, Some(1), Some(2)), curve_key(1.0, Some(3), Some(4))]);
    let bytes = encode(&anim);
    let back = Animation::from_animx(bytes).unwrap();
    match &back.tracks[0].data {
        TrackData::Curve(d) => {
            assert_eq!(d.keyframes.len(), 2);
            assert!(matches!(d.keyframes[1].left_tangent, Some(Value::Int(3))));
            assert!(matches!(d.keyframes[1].right_tangent, Some(Value::Int(4))));
            assert_eq!(d.keyframes[0].interpolation, Interpolation::Tangent);
        },
        other => panic!("unexpected {:?}", other),
    }
}

#[test]
fn curve_info_byte() {
    let with = encode(&curve_anim(vec![curve_key(0.0, Some(1), Some(2))]));
    let without = encode(&curve_anim(vec![curve_key(0.0, None, None)]));
    let at = header(1).len() + 2 + 1 + 1 + 1;
    assert_eq!(with[at], 3);
    assert_eq!(without[at], 1);
}

#[test]
fn curve_shared_interpolation_decodes() {
    let mut b = header(1);
    b.extend_from_slice(&[2, ValueType::Byte.tag(), 0, 0, 2, 0x00, 1]);
    b.extend_from_slice(&0f32.to_le_bytes());
    b.push(10);
    b.extend_from_slice(&1f32.to_le_bytes());
    b.push(20);
    let anim = Animation::from_animx(b).unwrap();
    match &anim.tracks[0].data {
        TrackData::Curve(d) => {
            assert_eq!(d.keyframes.len(), 2);
            assert_eq!(d.keyframes[1].interpolation, Interpolation::Linear);
            assert!(matches!(d.keyframes[1].value, Value::Byte(20)));
            assert!(d.keyframes[0].left_tangent.is_none());
        },
        other => panic!("unexpected {:?}", other),
    }
}

#[test]
fn mismatched_value_kind_rejected() {
    let anim = Animation {
        name: None,
        global_duration: None,
        tracks: vec![Track {
            value_type: ValueType::Float,
            data: TrackData::Discrete(DiscreteData {
                node: None,
                property: None,
                keyframes: vec![DiscreteKeyframe { time: 0, value: Value::Int(1) }],
            }),
        }],
    };
    let mut out = Vec::new();
    assert!(matches!(anim.write_animx(&mut out), Err(AnimXError::IncorrectValueType)));
    assert!(out.is_empty());
}

#[test]
fn unknown_track_type_rejected() {
    let mut b = header(1);
    let at = b.len();
    b.extend_from_slice(&[0x04, 0x00, 0xAA, 0xBB]);
    let mut r = AnimXReader::new(b.clone());
    assert!(matches!(r.read_animx(), Err(AnimXError::IncorrectTrackType)));
    let mut r = AnimXReader::new(b[at..].to_vec());
    assert!(matches!(r.read_track(), Err(AnimXError::IncorrectTrackType)));
    assert_eq!(r.consumed(), 1);
    b[at] = 3;
    assert!(matches!(Animation::from_animx(b), Err(AnimXError::IncorrectTrackType)));
}

#[test]
fn header_errors() {
    let mut b = header(0);
    b[1] = b'B';
    assert!(matches!(Animation::from_animx(b), Err(AnimXError::IncorrectHeader)));
    let mut b = header(0);
    b[6] = 2;
    assert!(matches!(Animation::from_animx(b), Err(AnimXError::UnsupportedVersion)));
    let mut b = header(0);
    let last = b.len() - 1;
    b[last] = 1;
    assert!(matches!(Animation::from_animx(b), Err(AnimXError::UnsupportedEncoding)));
    let b = header(0);
    assert!(matches!(Animation::from_animx(b[..8].to_vec()), Err(AnimXError::TruncatedInput)));
    let mut b = header(0);
    b[1] = 0xFF;
    assert!(matches!(Animation::from_animx(b), Err(AnimXError::InvalidText)));
}

#[test]
fn bad_value_and_interpolation_tags() {
    let mut b = header(1);
    b.extend_from_slice(&[0, 40, 0, 0, 0]);
    assert!(matches!(Animation::from_animx(b), Err(AnimXError::IncorrectValueType)));
    let mut b = header(1);
    b.extend_from_slice(&[2, 0, 0, 0, 1, 0x01, 9]);
    assert!(matches!(Animation::from_animx(b), Err(AnimXError::IncorrectInterpolationType)));
}

#[test]
fn document_reads_tracks() {
    let doc = obj(vec![
        ("name", text("walk")),
        ("globalDuration", num(2.0)),
        ("tracks", Json::Array(vec![float_track_doc()])),
    ]);
    let anim = Animation::from_document(&doc).unwrap();
    assert_eq!(anim.name.as_deref(), Some("walk"));
    assert_eq!(f32::from_bits(anim.global_duration.unwrap()), 2.0);
    match &anim.tracks[0].data {
        TrackData::Raw(d) => {
            assert_eq!(d.node.as_deref(), Some("root"));
            assert_eq!(d.property, None);
            assert_eq!(f32::from_bits(d.interval.unwrap()), 0.5);
            assert!(matches!(d.keyframes[1], Value::Float(b) if f32::from_bits(b) == 2.0));
        },
        other => panic!("unexpected {:?}", other),
    }
}

#[test]
fn document_ignores_unknown_keys() {
    let plain = obj(vec![("name", text("a")), ("tracks", Json::Array(vec![float_track_doc()]))]);
    let extra = obj(vec![
        ("name", text("a")),
        ("foo", num(1.0)),
        ("tracks", Json::Array(vec![float_track_doc()])),
    ]);
    let a = Animation::from_document(&plain).unwrap();
    let b = Animation::from_document(&extra).unwrap();
    assert_eq!(format!("{:?}", a), format!("{:?}", b));
}

#[test]
fn document_errors() {
    let doc = obj(vec![("tracks", num(1.0))]);
    assert!(matches!(Animation::from_document(&doc), Err(AnimXError::StructuralError(f)) if f == "tracks"));
    let bezier = obj(vec![("trackType", text("Bezier")), ("valueType", text("float"))]);
    let doc = obj(vec![("tracks", Json::Array(vec![bezier]))]);
    assert!(matches!(Animation::from_document(&doc), Err(AnimXError::Unimplemented)));
    let bad = obj(vec![
        ("trackType", text("Raw")),
        ("valueType", text("byte")),
        ("keyframes", Json::Array(vec![num(300.0)])),
    ]);
    let doc = obj(vec![("tracks", Json::Array(vec![bad]))]);
    assert!(matches!(Animation::from_document(&doc), Err(AnimXError::StructuralError(f)) if f == "keyframes"));
}

#[test]
fn document_composite_values() {
    let vec2 = obj(vec![("x", num(1.0)), ("y", num(-2.0))]);
    let key = obj(vec![
        ("time", num(0.0)),
        ("value", vec2),
        ("interpolation", text("Linear")),
    ]);
    let track = obj(vec![
        ("trackType", text("Curve")),
        ("valueType", text("int2")),
        ("keyframes", Json::Array(vec![key])),
    ]);
    let doc = obj(vec![("tracks", Json::Array(vec![track]))]);
    let anim = Animation::from_document(&doc).unwrap();
    match &anim.tracks[0].data {
        TrackData::Curve(d) => {
            assert!(matches!(d.keyframes[0].value, Value::Int2([1, -2])));
            assert_eq!(d.keyframes[0].interpolation, Interpolation::Linear);
        },
        other => panic!("unexpected {:?}", other),
    }
    let m = Json::Array(vec![Json::Array(vec![num(1.0), num(0.0)]), Json::Array(vec![num(0.0), num(1.0)])]);
    let v = resonite_anim::document::read_document_value(&m, ValueType::Float2x2).unwrap();
    assert!(matches!(v, Value::Float2x2([a, 0, 0, d]) if a == 1f32.to_bits() && d == 1f32.to_bits()));
    let s = resonite_anim::document::read_document_value(&text("hi"), ValueType::OptString).unwrap();
    assert!(matches!(s, Value::OptString(OptString(ref t)) if t == "hi"));
}

#[test]
fn track_trait_reports_tags_and_record() {
    let track = Track {
        value_type: ValueType::Byte,
        data: TrackData::Discrete(DiscreteData {
            node: Some("n".to_string()),
            property: None,
            keyframes: vec![DiscreteKeyframe { time: 1f32.to_bits(), value: Value::Byte(9) }],
        }),
    };
    assert_eq!(track.tags(), (TrackType::Discrete, ValueType::Byte));
    let mut out = Vec::new();
    track.write_record(&mut out).unwrap();
    let mut expected = vec![1, 0, 1, b'n', 0, 1];
    expected.extend_from_slice(&1f32.to_le_bytes());
    expected.push(9);
    assert_eq!(out, expected);
}
