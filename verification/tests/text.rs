use tokimo_bus::frame::DataPlaneSocket;
use tokimo_bus::text::{contains_str, parse_u64, starts_with, trim_text, u64_to_decimal};

#[test]
fn decimal_spelling() {
    assert_eq!(u64_to_decimal(0), "0");
    assert_eq!(u64_to_decimal(7), "7");
    assert_eq!(u64_to_decimal(300000), "300000");
    assert_eq!(u64_to_decimal(u64::MAX), "18446744073709551615");
}

#[test]
fn decimal_parsing_matches_std() {
    for s in ["0", "42", "+42", "007", "18446744073709551615", "", "+", "-1", "4x", " 4", "18446744073709551616"] {
        assert_eq!(parse_u64(s), s.parse::<u64>().ok(), "input {s:?}");
    }
    for n in [0u64, 1, 9, 10, 99, 12345, u64::MAX] {
        assert_eq!(parse_u64(&u64_to_decimal(n)), Some(n));
    }
}

#[test]
fn prefix_and_substring() {
    assert!(starts_with("pipe://bus", "pipe://"));
    assert!(!starts_with("pip", "pipe://"));
    assert!(contains_str("connect: Connection refused (os error 111)", "Connection refused"));
    assert!(!contains_str("permission denied", "Connection refused"));
    assert!(contains_str("abc", ""));
}

#[test]
fn trim_matches_std() {
    for s in ["  a b  ", "\t\r\n", "", "x", "\u{3000}全角\u{3000}"] {
        assert_eq!(trim_text(s), s.trim());
    }
}

#[test]
fn display_names() {
    let unix = DataPlaneSocket::Unix { path: "/run/apps/video.sock".into() };
    assert_eq!(unix.display_name(), "/run/apps/video.sock");
    let pipe = DataPlaneSocket::NamedPipe { name: "tokimo-app-video-7".into() };
    assert_eq!(pipe.display_name(), "pipe://tokimo-app-video-7");
}
