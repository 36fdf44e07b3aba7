use comment_board::config::{Config, PushConfig};
use comment_board::cors::CORS;
use comment_board::notify::PushData;
use comment_board::timestamp::{clamp_local, format_timestamp, now_string};

#[test]
fn epoch_formats_with_offset() {
    // local second 0 is 1970-01-01 00:00:00; the +8h offset is applied by clamp_local
    assert_eq!(format_timestamp(0), "1970-01-01 00:00:00");
    assert_eq!(format_timestamp(clamp_local(0)), "1970-01-01 08:00:00");
}

#[test]
fn leap_day_formats() {
    assert_eq!(format_timestamp(1_709_210_096), "2024-02-29 12:34:56");
}

#[test]
fn year_boundary_formats() {
    // 2021-12-31 23:59:59 local
    assert_eq!(format_timestamp(1_640_995_199), "2021-12-31 23:59:59");
    // one second later
    assert_eq!(format_timestamp(1_640_995_200), "2022-01-01 00:00:00");
}

#[test]
fn century_non_leap_year_formats() {
    // 2100 is not a leap year: day after 2100-02-28 is March 1st
    // 2100-02-28 12:00:00 local = 4107499200
    assert_eq!(format_timestamp(4_107_499_200), "2100-02-28 12:00:00");
    assert_eq!(format_timestamp(4_107_499_200 + 86_400), "2100-03-01 12:00:00");
}

#[test]
fn clock_readings_clamp_into_range() {
    // far before the epoch: clamped to local second 0
    assert_eq!(format_timestamp(clamp_local(-1_000_000_000_000)), "1970-01-01 00:00:00");
    // far in the future: clamped to the last accepted second
    assert_eq!(format_timestamp(clamp_local(i64::MAX)), "9992-01-25 23:59:59");
}

#[test]
fn now_has_timestamp_shape() {
    let s = now_string();
    let b = s.as_bytes();
    assert_eq!(b.len(), 19);
    for (i, c) in b.iter().enumerate() {
        match i {
            4 | 7 => assert_eq!(*c, b'-'),
            10 => assert_eq!(*c, b' '),
            13 | 16 => assert_eq!(*c, b':'),
            _ => assert!(c.is_ascii_digit()),
        }
    }
}

#[test]
fn payload_renders_as_json() {
    let p = PushData {
        title: "alice on blog".to_owned(),
        body: "hi".to_owned(),
        device_key: "key-1234".to_owned(),
    };
    assert_eq!(
        p.to_json(),
        "{\"title\":\"alice on blog\",\"body\":\"hi\",\"device_key\":\"key-1234\"}"
    );
}

#[test]
fn payload_escapes_special_characters() {
    let p = PushData {
        title: "a\"b\\c".to_owned(),
        body: "line1\nline2\ttab\r\u{8}\u{c}\u{1f}\u{7f}\u{e9}".to_owned(),
        device_key: "k".to_owned(),
    };
    assert_eq!(
        p.to_json(),
        "{\"title\":\"a\\\"b\\\\c\",\"body\":\"line1\\nline2\\ttab\\r\\b\\f\\u001f\u{7f}\u{e9}\",\"device_key\":\"k\"}"
    );
}

#[test]
fn payload_json_parses_back() {
    let p = PushData {
        title: "u on p\"q\\".to_owned(),
        body: "body\nwith\u{1}controls".to_owned(),
        device_key: "key-1234".to_owned(),
    };
    let v: serde_json::Value = serde_json::from_str(&p.to_json()).unwrap();
    assert_eq!(v.get("title").unwrap().as_str().unwrap(), "u on p\"q\\");
    assert_eq!(v.get("body").unwrap().as_str().unwrap(), "body\nwith\u{1}controls");
    assert_eq!(v.get("device_key").unwrap().as_str().unwrap(), "key-1234");
}

#[test]
fn cors_headers_are_permissive() {
    let h = CORS::response_headers();
    assert_eq!(h.len(), 4);
    assert_eq!(h[0].0, "Access-Control-Allow-Origin");
    assert_eq!(h[0].1, "*");
    assert_eq!(h[1].0, "Access-Control-Allow-Methods");
    assert_eq!(h[1].1, "POST, GET, PATCH, OPTIONS");
    assert_eq!(h[2].0, "Access-Control-Allow-Headers");
    assert_eq!(h[2].1, "*");
    assert_eq!(h[3].0, "Access-Control-Allow-Credentials");
    assert_eq!(h[3].1, "true");
}

#[test]
fn config_hands_out_its_push_settings() {
    let cfg = Config::new(PushConfig {
        url: "http://localhost:9/push".to_owned(),
        device_key: "key-1234".to_owned(),
    });
    assert_eq!(cfg.push().url, "http://localhost:9/push");
    assert_eq!(cfg.push().device_key, "key-1234");
}
