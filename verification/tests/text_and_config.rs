use rustrsssrv::config::{database_path, Config, EnvSettings, DEFAULT_PORT};
use rustrsssrv::text::{
    chars_of, collapse_whitespace, contains, eq_ignore_ascii_case, parse_u16, push_decimal,
    push_decimal_i64, starts_with, str_eq, trim, trim_start_chars,
};

#[test]
fn trim_removes_unicode_whitespace_on_both_sides() {
    assert_eq!(trim("  \t hello world \n"), "hello world");
    assert_eq!(trim("\u{3000}x\u{a0}"), "x");
    assert_eq!(trim("   "), "");
    assert_eq!(trim(""), "");
}

#[test]
fn trim_start_keeps_trailing_whitespace() {
    let v = trim_start_chars("  <rss> ");
    let s: String = v.into_iter().collect();
    assert_eq!(s, "<rss> ");
}

#[test]
fn collapse_whitespace_joins_words_with_single_spaces() {
    assert_eq!(collapse_whitespace("  a \n\t b   c  "), "a b c");
    assert_eq!(collapse_whitespace(""), "");
    assert_eq!(collapse_whitespace(" \n "), "");
}

#[test]
fn prefix_and_infix_search_on_characters() {
    let hay = chars_of("<?xml version=\"1.0\"?><feed>");
    assert!(starts_with(&hay, &chars_of("<?xml")));
    assert!(!starts_with(&hay, &chars_of("<feed")));
    assert!(contains(&hay, &chars_of("<feed")));
    assert!(!contains(&hay, &chars_of("<rss")));
    assert!(contains(&hay, &chars_of("")));
}

#[test]
fn string_helpers_compare_and_join() {
    assert!(str_eq("abc", "abc"));
    assert!(!str_eq("abc", "abd"));
    assert!(eq_ignore_ascii_case("TrUe", "true"));
    assert!(!eq_ignore_ascii_case("truth", "true"));
}

#[test]
fn decimal_printing_matches_std() {
    for n in [0u64, 7, 10, 304, 65535, u64::MAX] {
        let mut s = String::from("x");
        push_decimal(&mut s, n);
        assert_eq!(s, format!("x{}", n));
    }
    for n in [0i64, -1, 42, i64::MIN, i64::MAX] {
        let mut s = String::new();
        push_decimal_i64(&mut s, n);
        assert_eq!(s, n.to_string());
    }
}

#[test]
fn u16_parsing_matches_std() {
    for s in ["9119", "+80", "0", "65535", "65536", "", "+", "-1", "12a", " 80", "00080"] {
        assert_eq!(parse_u16(s), s.parse::<u16>().ok(), "input {:?}", s);
    }
}

#[test]
fn config_defaults_when_nothing_is_set() {
    let c = Config::from_settings(&EnvSettings::default());
    assert_eq!(c.database_url, "sqlite:./data/rustrsssrv.db");
    assert_eq!(c.jwt_secret, "dev-secret-do-not-use-in-production");
    assert_eq!(c.port, 9119);
    assert_eq!(DEFAULT_PORT, 9119);
    assert!(!c.enable_crawler);
    assert_eq!(c.log_dir, "./logs");
    assert_eq!(c.rust_log, "warn");
}

#[test]
fn config_reads_the_given_settings() {
    let env = EnvSettings {
        database_url: Some("sqlite:/tmp/x.db".to_string()),
        jwt_secret: Some("s3cret".to_string()),
        port: Some("8080".to_string()),
        enable_crawler: Some("TRUE".to_string()),
        log_dir: Some("/var/log/rss".to_string()),
        rust_log: Some("info".to_string()),
    };
    let c = Config::from_settings(&env);
    assert_eq!(c.database_url, "sqlite:/tmp/x.db");
    assert_eq!(c.jwt_secret, "s3cret");
    assert_eq!(c.port, 8080);
    assert!(c.enable_crawler);
    assert_eq!(c.log_dir, "/var/log/rss");
    assert_eq!(c.rust_log, "info");
}

#[test]
fn config_falls_back_on_unreadable_port_and_crawler_flag() {
    let env = EnvSettings {
        port: Some("99999".to_string()),
        enable_crawler: Some("yes".to_string()),
        ..EnvSettings::default()
    };
    let c = Config::from_settings(&env);
    assert_eq!(c.port, 9119);
    assert!(!c.enable_crawler);
}

#[test]
fn config_for_test_values() {
    let c = Config::for_test("sqlite::memory:");
    assert_eq!(c.database_url, "sqlite::memory:");
    assert_eq!(c.jwt_secret, "test-secret");
    assert_eq!(c.port, 0);
    assert!(!c.enable_crawler);
    assert_eq!(c.log_dir, "./logs");
    assert_eq!(c.rust_log, "error");
}

#[test]
fn database_path_strips_scheme_and_slashes() {
    assert_eq!(database_path("sqlite:./data/rustrsssrv.db"), "./data/rustrsssrv.db");
    assert_eq!(database_path("sqlite:///tmp/db.sqlite"), "/tmp/db.sqlite");
    assert_eq!(database_path("sqlite:sqlite:x.db"), "x.db");
    assert_eq!(database_path("plain.db"), "plain.db");
    assert_eq!(
        database_path("sqlite:///tmp/db.sqlite"),
        "sqlite:///tmp/db.sqlite".trim_start_matches("sqlite:").trim_start_matches("//")
    );
}

#[test]
fn every_port_written_in_decimal_reads_back() {
    for n in 0..=u16::MAX {
        let mut s = String::new();
        push_decimal(&mut s, n as u64);
        assert_eq!(parse_u16(&s), Some(n));
        let env = EnvSettings { port: Some(s), ..EnvSettings::default() };
        assert_eq!(Config::from_settings(&env).port, n);
    }
}
