use resonatify::models::{RepeatType, Weekday};
use resonatify::repeat_codec::{decode_repeat_type, encode_repeat_type};

fn round_trip(rt: RepeatType) {
    let encoded = encode_repeat_type(&rt);
    let decoded = decode_repeat_type(encoded.as_str());
    assert_eq!(decoded, Some(rt));
}

#[test]
fn all_variants_round_trip() {
    round_trip(RepeatType::Once);
    round_trip(RepeatType::Daily);
    round_trip(RepeatType::Weekdays);
    round_trip(RepeatType::Weekends);
    round_trip(RepeatType::Weekly { days: Vec::new() });
    round_trip(RepeatType::Weekly {
        days: vec![Weekday::Mon, Weekday::Sat, Weekday::Sun],
    });
    round_trip(RepeatType::Custom {
        interval_minutes: 45,
    });
    round_trip(RepeatType::Custom { interval_minutes: 1 });
    round_trip(RepeatType::Custom {
        interval_minutes: u32::MAX,
    });
}

#[test]
fn encodings_are_canonical_json() {
    assert_eq!(
        encode_repeat_type(&RepeatType::Once),
        "{\"type\":\"once\"}"
    );
    assert_eq!(
        encode_repeat_type(&RepeatType::Daily),
        "{\"type\":\"daily\"}"
    );
    assert_eq!(
        encode_repeat_type(&RepeatType::Weekdays),
        "{\"type\":\"weekdays\"}"
    );
    assert_eq!(
        encode_repeat_type(&RepeatType::Weekends),
        "{\"type\":\"weekends\"}"
    );
    assert_eq!(
        encode_repeat_type(&RepeatType::Weekly {
            days: vec![Weekday::Tue, Weekday::Thu],
        }),
        "{\"type\":\"weekly\",\"days\":[\"Tue\",\"Thu\"]}"
    );
    assert_eq!(
        encode_repeat_type(&RepeatType::Custom {
            interval_minutes: 45,
        }),
        "{\"type\":\"custom\",\"interval_minutes\":45}"
    );
}

#[test]
fn encodings_parse_as_json() {
    let encoded = encode_repeat_type(&RepeatType::Weekly {
        days: vec![Weekday::Mon, Weekday::Fri],
    });
    let value: serde_json::Value = serde_json::from_str(encoded.as_str()).unwrap();
    assert_eq!(value.get("type").unwrap().as_str().unwrap(), "weekly");
    let days = value.get("days").unwrap().as_array().unwrap();
    assert_eq!(days.len(), 2);
    assert_eq!(days[0].as_str().unwrap(), "Mon");
    assert_eq!(days[1].as_str().unwrap(), "Fri");

    let encoded = encode_repeat_type(&RepeatType::Custom {
        interval_minutes: 30,
    });
    let value: serde_json::Value = serde_json::from_str(encoded.as_str()).unwrap();
    assert_eq!(value.get("type").unwrap().as_str().unwrap(), "custom");
    assert_eq!(value.get("interval_minutes").unwrap().as_u64().unwrap(), 30);
}

#[test]
fn decoder_rejects_other_text() {
    assert_eq!(decode_repeat_type(""), None);
    assert_eq!(decode_repeat_type("daily"), None);
    assert_eq!(decode_repeat_type("{\"type\":\"hourly\"}"), None);
    assert_eq!(decode_repeat_type("{\"type\":\"weekly\",\"days\":[\"Xyz\"]}"), None);
    assert_eq!(
        decode_repeat_type("{\"type\":\"custom\",\"interval_minutes\":007}"),
        None
    );
    assert_eq!(
        decode_repeat_type("{\"type\":\"custom\",\"interval_minutes\":4294967296}"),
        None
    );
    assert_eq!(
        decode_repeat_type("{\"type\":\"custom\",\"interval_minutes\":-1}"),
        None
    );
}

#[test]
fn repeat_days_encodes_weekly_days_from_sunday() {
    let rt = RepeatType::Weekly {
        days: vec![Weekday::Sun, Weekday::Mon, Weekday::Sat],
    };
    assert_eq!(rt.repeat_days(), Some(vec![0u8, 1u8, 6u8]));
    assert_eq!(RepeatType::Daily.repeat_days(), None);
    assert_eq!(RepeatType::Once.repeat_days(), None);
}
