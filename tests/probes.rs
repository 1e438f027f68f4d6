use statusbar::probes::{
    clock_text, date_text, duration_text, gib_tenths, gib_text,
    memory_usage_text, parse_u64, uptime_text, GIB,
};

#[test]
fn clock_formats() {
    assert_eq!(clock_text(9, 5), "09:05");
    assert_eq!(clock_text(23, 59), "23:59");
    assert_eq!(clock_text(0, 0), "00:00");
}

#[test]
fn date_formats() {
    assert_eq!(date_text(0, 1, 5), "Mon Jan 05");
    assert_eq!(date_text(6, 12, 31), "Sun Dec 31");
    assert_eq!(date_text(3, 7, 14), "Thu Jul 14");
}

#[test]
fn gib_rounding() {
    assert_eq!(gib_tenths(0), 0);
    assert_eq!(gib_tenths(GIB / 20 + 1), 1);
    assert_eq!(gib_tenths(GIB / 20), 0);
    assert_eq!(gib_tenths(1342177280), 13);
    assert_eq!(gib_tenths(3 * GIB), 30);
    assert_eq!(gib_tenths(u64::MAX), 171798691840);
}

#[test]
fn gib_texts() {
    assert_eq!(gib_text(0), "0");
    assert_eq!(gib_text(3 * GIB), "3");
    assert_eq!(gib_text(1288490189), "1.2");
    assert_eq!(gib_text(15 * GIB + GIB / 2), "15.5");
}

#[test]
fn memory_usage_formats() {
    assert_eq!(memory_usage_text(3 * GIB + GIB / 5, 12 * GIB), "3.2|12G");
    assert_eq!(memory_usage_text(0, GIB / 10), "0|0.1G");
}

#[test]
fn uptime_formats() {
    assert_eq!(uptime_text("12345.67 54321.00\n"), Some("3:25:45".to_string()));
    assert_eq!(uptime_text("59.99 1.00"), Some("0:00:59".to_string()));
    assert_eq!(uptime_text("360000 1"), Some("100:00:00".to_string()));
    assert_eq!(uptime_text("+5 x"), Some("0:00:05".to_string()));
}

#[test]
fn uptime_rejects_non_numbers() {
    assert_eq!(uptime_text("abc 1"), None);
    assert_eq!(uptime_text(""), None);
    assert_eq!(uptime_text(".5 1"), None);
    assert_eq!(uptime_text("99999999999999999999 1"), None);
}

#[test]
fn duration_formats() {
    assert_eq!(duration_text(0), "0:00:00");
    assert_eq!(duration_text(3661), "1:01:01");
}

#[test]
fn parse_u64_accepts_plain_numbers() {
    assert_eq!(parse_u64("0"), Some(0));
    assert_eq!(parse_u64("+7"), Some(7));
    assert_eq!(parse_u64("00042"), Some(42));
    assert_eq!(parse_u64("18446744073709551615"), Some(u64::MAX));
}

#[test]
fn parse_u64_rejects() {
    assert_eq!(parse_u64(""), None);
    assert_eq!(parse_u64("+"), None);
    assert_eq!(parse_u64("-1"), None);
    assert_eq!(parse_u64("1a"), None);
    assert_eq!(parse_u64("18446744073709551616"), None);
    assert_eq!(parse_u64("99999999999999999999x"), None);
}
