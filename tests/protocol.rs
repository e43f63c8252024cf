use metric_meta::error::DecodeError;
use metric_meta::item::{Item, Location};
use metric_meta::json::{parse_json, JsonValue};
use metric_meta::meta::MetricMeta;
use metric_meta::timestamp::{StartOfDayUnixTimestamp, UnixTimestamp, MAX_CALENDAR_SECS};

fn day(secs: u64) -> Option<u64> {
    StartOfDayUnixTimestamp::new(UnixTimestamp::from_secs(secs)).map(|d| d.as_timestamp().as_secs())
}

fn empty_location() -> Location {
    Location {
        filename: None,
        abs_path: None,
        module: None,
        function: None,
        lineno: None,
        pre_context: vec![],
        context_line: None,
        post_context: vec![],
    }
}

const DOCUMENT: &str = r#"{"timestamp":1715904000,"mapping":{"d:memory.allocations@allocations":[{"type":"location","abs_path":"/rails/config/initializers/active_job.rb","function":"block in <main>","lineno":5,"filename":"config/initializers/active_job.rb","pre_context":[null,"  allocations = event.allocations\n","  allocations=#{allocations}\"\n"],"context_line":"  Sentry::Metrics.distribution('memory.allocations')\n","post_context":["end\n",null,null]}]}}"#;

#[test]
fn test_deserialize_null_context() {
    let json = r#"{
            "timestamp": 1715904000,
            "mapping": {
                "d:memory.allocations@allocations": [{ 
                    "abs_path": "/rails/config/initializers/active_job.rb",
                    "function": "block in <main>",
                    "lineno": 5,
                    "filename": "config/initializers/active_job.rb",
                    "pre_context": [null, "  allocations = event.allocations\n", "  allocations=#{allocations}\"\n"],
                    "context_line": "  Sentry::Metrics.distribution('memory.allocations')\n",
                    "post_context": ["end\n",null,null],
                    "type":"location"
                }]
            }
        }"#;

    let r = MetricMeta::from_json_text(json).unwrap();

    // The metric identifier is kept as written: normalising it is the job of
    // the identifier type, not of this library.
    let expected = r#"{
      "timestamp": 1715904000,
      "mapping": {
        "d:memory.allocations@allocations": [
          {
            "type": "location",
            "filename": "config/initializers/active_job.rb",
            "abs_path": "/rails/config/initializers/active_job.rb",
            "function": "block in <main>",
            "lineno": 5,
            "pre_context": [
              null,
              "  allocations = event.allocations\n",
              "  allocations=#{allocations}\"\n"
            ],
            "context_line": "  Sentry::Metrics.distribution('memory.allocations')\n",
            "post_context": [
              "end\n",
              null,
              null
            ]
          }
        ]
      }
    }"#;
    let got: serde_json::Value = serde_json::from_str(&r.to_json()).unwrap();
    let want: serde_json::Value = serde_json::from_str(expected).unwrap();
    assert_eq!(got, want);
}

#[test]
fn truncates_to_start_of_day() {
    assert_eq!(day(1715904000), Some(1715904000));
    assert_eq!(day(1715904000 + 86399), Some(1715904000));
    assert_eq!(day(1715904000 + 86400), Some(1715990400));
    assert_eq!(day(0), Some(0));
    assert_eq!(day(86399), Some(0));
}

#[test]
fn truncation_is_idempotent() {
    let once = StartOfDayUnixTimestamp::new(UnixTimestamp::from_secs(1715937123)).unwrap();
    let twice = StartOfDayUnixTimestamp::new(once.as_timestamp()).unwrap();
    assert_eq!(once, twice);
    assert_eq!(twice.as_timestamp().as_secs(), 1715904000);
}

#[test]
fn same_day_groups_and_earlier_day_orders_first() {
    let a = StartOfDayUnixTimestamp::new(UnixTimestamp::from_secs(1715904001)).unwrap();
    let b = StartOfDayUnixTimestamp::new(UnixTimestamp::from_secs(1715990399)).unwrap();
    let c = StartOfDayUnixTimestamp::new(UnixTimestamp::from_secs(1715990400)).unwrap();
    assert_eq!(a, b);
    assert!(a < c);
    assert!(a.as_timestamp().as_secs() < c.as_timestamp().as_secs());
}

#[test]
fn last_calendar_day_is_the_limit() {
    assert_eq!(MAX_CALENDAR_SECS, 8_210_266_876_799);
    assert_eq!(day(MAX_CALENDAR_SECS), Some(MAX_CALENDAR_SECS - 86399));
    assert_eq!(day(MAX_CALENDAR_SECS + 1), None);
    assert_eq!(day(i64::MAX as u64), None);
    assert_eq!(day(u64::MAX), None);
}

#[test]
fn unknown_item_kind_is_tolerated() {
    let it = Item::from_json_text(r#"{"type":"unknown_future_kind"}"#).unwrap();
    assert!(matches!(it, Item::Unknown));
    let it = Item::from_json_text(r#"{"type":"unknown_future_kind","lineno":"not a number"}"#).unwrap();
    assert!(matches!(it, Item::Unknown));
    let it = Item::from_json_text(r#"{"filename":"a.rs"}"#).unwrap();
    assert!(matches!(it, Item::Unknown));
}

#[test]
fn item_that_is_not_an_object_is_malformed() {
    assert!(matches!(Item::from_json_text("[1]"), Err(DecodeError::MalformedDocument)));
    assert!(matches!(Item::from_json_text("{"), Err(DecodeError::MalformedDocument)));
}

#[test]
fn empty_location_round_trip() {
    let l = empty_location();
    assert_eq!(l.to_json(), r#"{"type":"location"}"#);
    match Item::from_json_text(&l.to_json()).unwrap() {
        Item::Location(back) => assert_eq!(back, empty_location()),
        Item::Unknown => panic!("decoded as unknown"),
    }
}

#[test]
fn empty_context_is_omitted() {
    let mut l = empty_location();
    l.pre_context = vec![];
    l.context_line = Some("x".to_string());
    assert_eq!(l.to_json(), r#"{"type":"location","context_line":"x"}"#);
}

#[test]
fn context_keeps_null_positions() {
    let mut l = empty_location();
    l.pre_context = vec![None, Some("x".to_string())];
    let text = l.to_json();
    assert_eq!(text, r#"{"type":"location","pre_context":[null,"x"]}"#);
    match Item::from_json_text(&text).unwrap() {
        Item::Location(back) => assert_eq!(back.pre_context, vec![None, Some("x".to_string())]),
        Item::Unknown => panic!("decoded as unknown"),
    }
    match Item::from_json_text(r#"{"type":"location","post_context":["a",null,null]}"#).unwrap() {
        Item::Location(back) => {
            assert_eq!(back.post_context, vec![Some("a".to_string()), None, None]);
            assert!(back.pre_context.is_empty());
        }
        Item::Unknown => panic!("decoded as unknown"),
    }
}

#[test]
fn document_round_trip() {
    let meta = MetricMeta::from_json_text(DOCUMENT).unwrap();
    assert_eq!(meta.timestamp.as_timestamp().as_secs(), 1715904000);
    assert_eq!(meta.mapping.len(), 1);
    let expected = r#"{"timestamp":1715904000,"mapping":{"d:memory.allocations@allocations":[{"type":"location","filename":"config/initializers/active_job.rb","abs_path":"/rails/config/initializers/active_job.rb","function":"block in <main>","lineno":5,"pre_context":[null,"  allocations = event.allocations\n","  allocations=#{allocations}\"\n"],"context_line":"  Sentry::Metrics.distribution('memory.allocations')\n","post_context":["end\n",null,null]}]}}"#;
    assert_eq!(meta.to_json(), expected);
    let again = MetricMeta::from_json_text(&meta.to_json()).unwrap();
    assert_eq!(again.to_json(), expected);
}

#[test]
fn location_writes_every_field_in_order() {
    let l = Location {
        filename: Some("a.rs".to_string()),
        abs_path: Some("/src/a.rs".to_string()),
        module: Some("m".to_string()),
        function: Some("f".to_string()),
        lineno: Some(0),
        pre_context: vec![Some("p".to_string())],
        context_line: Some("c \"q\"".to_string()),
        post_context: vec![None],
    };
    assert_eq!(
        l.to_json(),
        r#"{"type":"location","filename":"a.rs","abs_path":"/src/a.rs","module":"m","function":"f","lineno":0,"pre_context":["p"],"context_line":"c \"q\"","post_context":[null]}"#
    );
}

#[test]
fn large_line_number_is_written_in_full() {
    let mut l = empty_location();
    l.lineno = Some(u64::MAX);
    assert_eq!(l.to_json(), r#"{"type":"location","lineno":18446744073709551615}"#);
    l.lineno = Some(1234567890);
    assert_eq!(l.to_json(), r#"{"type":"location","lineno":1234567890}"#);
}

#[test]
fn unknown_item_writes_its_tag() {
    assert_eq!(Item::Unknown.to_json(), r#"{"type":"unknown"}"#);
}

#[test]
fn strings_are_escaped() {
    let mut l = empty_location();
    l.filename = Some("a\"b\\c\n".to_string());
    assert_eq!(l.to_json(), r#"{"type":"location","filename":"a\"b\\c\n"}"#);
}

#[test]
fn out_of_calendar_timestamp_is_invalid() {
    let text = r#"{"timestamp":18446744073709551615,"mapping":{}}"#;
    assert!(matches!(MetricMeta::from_json_text(text), Err(DecodeError::InvalidTimestamp)));
}

#[test]
fn timestamp_is_truncated_on_decode() {
    let meta = MetricMeta::from_json_text(r#"{"timestamp":1715937123,"mapping":{}}"#).unwrap();
    assert_eq!(meta.timestamp.as_timestamp().as_secs(), 1715904000);
    assert_eq!(meta.to_json(), r#"{"timestamp":1715904000,"mapping":{}}"#);
}

#[test]
fn structural_faults_are_malformed() {
    let cases = [
        "not json",
        "[]",
        r#"{"mapping":{}}"#,
        r#"{"timestamp":-5,"mapping":{}}"#,
        r#"{"timestamp":"1715904000","mapping":{}}"#,
        r#"{"timestamp":1715904000}"#,
        r#"{"timestamp":1715904000,"mapping":[]}"#,
        r#"{"timestamp":1715904000,"mapping":{"c:a@none":{}}}"#,
        r#"{"timestamp":1715904000,"mapping":{"c:a@none":[5]}}"#,
        r#"{"timestamp":1715904000,"mapping":{"c:a@none":[{"type":"location","lineno":"5"}]}}"#,
        r#"{"timestamp":1715904000,"mapping":{"c:a@none":[{"type":"location","pre_context":null}]}}"#,
        r#"{"timestamp":1715904000,"mapping":{"c:a@none":[{"type":"location","pre_context":[1]}]}}"#,
        r#"{"timestamp":1715904000,"mapping":{"c:a@none":[{"type":"location","filename":7}]}}"#,
    ];
    for text in cases {
        assert!(matches!(MetricMeta::from_json_text(text), Err(DecodeError::MalformedDocument)), "{}", text);
    }
}

#[test]
fn malformed_wins_over_invalid_timestamp() {
    let text = r#"{"timestamp":18446744073709551615,"mapping":[]}"#;
    assert!(matches!(MetricMeta::from_json_text(text), Err(DecodeError::MalformedDocument)));
}

#[test]
fn unknown_items_stay_in_the_mapping() {
    let text = r#"{"timestamp":0,"mapping":{"c:a@none":[{"type":"future"},{"type":"location","lineno":3}]}}"#;
    let meta = MetricMeta::from_json_text(text).unwrap();
    assert_eq!(
        meta.to_json(),
        r#"{"timestamp":0,"mapping":{"c:a@none":[{"type":"unknown"},{"type":"location","lineno":3}]}}"#
    );
}

#[test]
fn duplicate_metric_keys_are_malformed() {
    let items = || JsonValue::Array(vec![]);
    let doc = JsonValue::Object(vec![
        ("timestamp".to_string(), JsonValue::UInt(0)),
        (
            "mapping".to_string(),
            JsonValue::Object(vec![("c:a@none".to_string(), items()), ("c:a@none".to_string(), items())]),
        ),
    ]);
    assert!(matches!(MetricMeta::from_json(&doc), Err(DecodeError::MalformedDocument)));
}

#[test]
fn parsed_numbers_keep_unsigned_integers_only() {
    assert!(matches!(parse_json("7"), Some(JsonValue::UInt(7))));
    assert!(matches!(parse_json("-7"), Some(JsonValue::OtherNumber)));
    assert!(matches!(parse_json("1.5"), Some(JsonValue::OtherNumber)));
    assert!(parse_json("{").is_none());
}

#[test]
fn new_envelope_keeps_its_parts() {
    let day = StartOfDayUnixTimestamp::new(UnixTimestamp::from_secs(86400 * 3 + 5)).unwrap();
    let meta = MetricMeta::new(day, vec![("c:a@none".to_string(), vec![Item::Unknown])]);
    assert_eq!(meta.to_json(), r#"{"timestamp":259200,"mapping":{"c:a@none":[{"type":"unknown"}]}}"#);
}

#[test]
fn day_derefs_to_its_timestamp() {
    let d = StartOfDayUnixTimestamp::new(UnixTimestamp::from_secs(90000)).unwrap();
    assert_eq!(d.as_secs(), 86400);
}

#[test]
fn repeated_metric_key_is_detected() {
    let meta = MetricMeta {
        timestamp: StartOfDayUnixTimestamp::new(UnixTimestamp::from_secs(0)).unwrap(),
        mapping: vec![("c:a@none".to_string(), vec![]), ("c:b@none".to_string(), vec![]), ("c:a@none".to_string(), vec![])],
    };
    assert!(!meta.has_unique_keys());
    let meta = MetricMeta::new(meta.timestamp, vec![("c:a@none".to_string(), vec![]), ("c:b@none".to_string(), vec![])]);
    assert!(meta.has_unique_keys());
}

#[test]
fn control_characters_are_escaped_in_hex() {
    let mut l = empty_location();
    l.function = Some("a\u{1}\u{8}\u{c}\t\r\u{1f}\u{7f}\u{e9}/".to_string());
    assert_eq!(l.to_json(), "{\"type\":\"location\",\"function\":\"a\\u0001\\b\\f\\t\\r\\u001f\u{7f}\u{e9}/\"}");
}

#[test]
fn equal_seconds_give_equal_days() {
    let noon = StartOfDayUnixTimestamp::new(UnixTimestamp::from_secs(1715947200)).unwrap();
    let midnight = StartOfDayUnixTimestamp::new(UnixTimestamp::from_secs(1715904000)).unwrap();
    assert_eq!(noon, midnight);
    assert_eq!(noon.as_timestamp().as_secs(), 1715904000);
    assert_eq!(StartOfDayUnixTimestamp::new(noon.as_timestamp()), Some(noon));
    assert_eq!(*noon, noon.as_timestamp());
}
