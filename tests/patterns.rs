use fast_webhooks::args::{parse_i32, parse_u64, parse_usize, ConfigArgs};
use fast_webhooks::cache::{
    first_group, named_groups_json, regex_capture_group, regex_to_json, PatternsCache,
    RegexData, RegexError,
};
use fast_webhooks::config::{
    default_logger_level, default_regex_patterns_capacity, default_regex_patterns_limit,
    Config,
};

fn request(text: &str, pattern: &str) -> RegexData {
    RegexData { text: text.to_string(), pattern: pattern.to_string() }
}

#[test]
fn cache_overflow_clears_before_insert() {
    let mut cache = PatternsCache::new().limit(3);
    for p in ["a", "b", "c", "d"] {
        assert!(cache.get(p).is_ok());
    }
    assert_eq!(cache.len(), 1);
}

#[test]
fn cache_fills_up_to_limit() {
    let mut cache = PatternsCache::with_capacity(8).limit(3);
    for p in ["a", "b", "c"] {
        cache.get(p).unwrap();
    }
    assert_eq!(cache.len(), 3);
    assert!(cache.reached_limit());
    assert!(cache.is_limited());
    assert_eq!(cache.get_limit(), 3);
}

#[test]
fn cache_hit_keeps_size() {
    let mut cache = PatternsCache::new().limit(2);
    cache.get("a+").unwrap();
    cache.get("b+").unwrap();
    assert!(cache.get("a+").unwrap().is_match("aaa"));
    assert_eq!(cache.len(), 2);
}

#[test]
fn cache_without_limit_grows() {
    let mut cache = PatternsCache::new();
    for p in ["a", "b", "c", "d", "e"] {
        cache.get(p).unwrap();
    }
    assert_eq!(cache.len(), 5);
    assert!(!cache.is_limited());
    assert!(!cache.reached_limit());
    cache.clear();
    assert_eq!(cache.len(), 0);
}

#[test]
fn cache_invalid_pattern_is_an_error() {
    let mut cache = PatternsCache::new().limit(1);
    cache.get("a").unwrap();
    assert!(cache.get("(").is_err());
    assert_eq!(cache.len(), 1);
}

#[test]
fn regex_to_json_named_groups() {
    let mut cache = PatternsCache::new().limit(10);
    let req = request("2024-01-01", r"(?P<year>\d+)-(?P<month>\d+)-(?P<day>\d+)");
    assert_eq!(regex_to_json(&mut cache, &req).unwrap(), r#"{"year":"2024","month":"01","day":"01"}"#);
}

#[test]
fn regex_capture_group_first() {
    let mut cache = PatternsCache::new().limit(10);
    let req = request("2024-01-01", r"(?P<year>\d+)-(?P<month>\d+)-(?P<day>\d+)");
    assert_eq!(regex_capture_group(&mut cache, &req).unwrap(), "2024");
    assert_eq!(cache.len(), 1);
}

#[test]
fn regex_errors() {
    let mut cache = PatternsCache::new();
    assert_eq!(regex_capture_group(&mut cache, &request("abc", "(")), Err(RegexError::PatternCompile));
    assert_eq!(regex_capture_group(&mut cache, &request("abc", "x(y)")), Err(RegexError::NoMatch));
    assert_eq!(regex_capture_group(&mut cache, &request("abc", "b")), Err(RegexError::NoGroup));
    assert_eq!(regex_to_json(&mut cache, &request("abc", "z")), Err(RegexError::NoMatch));
}

#[test]
fn regex_to_json_without_named_groups() {
    let mut cache = PatternsCache::new();
    assert_eq!(regex_to_json(&mut cache, &request("abc", "(b)")).unwrap(), "{}");
}

#[test]
fn json_of_groups_skips_unnamed_and_missing() {
    let names = vec![None, Some("a".to_string()), None, Some("b".to_string()), Some("c".to_string())];
    let groups = vec![Some("xy".to_string()), Some("x".to_string()), Some("y".to_string()), None, Some("z".to_string())];
    assert_eq!(named_groups_json(&names, &groups), r#"{"a":"x","c":"z"}"#);
}

#[test]
fn first_group_cases() {
    assert_eq!(first_group(&vec![Some("ab".to_string()), Some("a".to_string())]), Some("a".to_string()));
    assert_eq!(first_group(&vec![Some("ab".to_string()), None]), None);
    assert_eq!(first_group(&vec![Some("ab".to_string())]), None);
}

#[test]
fn config_defaults() {
    let cfg = Config::default();
    assert_eq!(cfg.common.alt_encoding, "utf-8");
    assert_eq!(cfg.service.listen, "127.0.0.1:8080");
    assert_eq!(cfg.service.server_hostname, "localhost");
    assert!(cfg.service.workers >= 1);
    assert_eq!(cfg.service.backlog, 2048);
    assert_eq!(cfg.service.max_connections, 25_000);
    assert_eq!(cfg.service.max_connection_rate, 256);
    assert_eq!(cfg.service.keep_alive, 5);
    assert_eq!(cfg.service.client_timeout, 5_000);
    assert_eq!(cfg.service.client_shutdown, 5_000);
    assert_eq!(cfg.service.shutdown_timeout, 30);
    assert_eq!(cfg.cache.regex_patterns_limit, 10000);
    assert_eq!(cfg.cache.regex_patterns_capacity, 10000);
    assert_eq!(cfg.logger.log_level, "info");
    assert_eq!(default_logger_level(), "info");
    assert_eq!(default_regex_patterns_limit(), default_regex_patterns_capacity());
}

fn no_args() -> ConfigArgs {
    ConfigArgs {
        listen: None,
        server_hostname: None,
        workers: None,
        backlog: None,
        max_connections: None,
        max_connection_rate: None,
        keep_alive: None,
        client_timeout: None,
        client_shutdown: None,
        shutdown_timeout: None,
        alt_encoding: None,
        regex_patterns_limit: None,
        regex_patterns_capacity: None,
        log_level: None,
    }
}

#[test]
fn mix_without_args_keeps_base() {
    let cfg = Config::mix_from_args(no_args(), Config::default()).ok().unwrap();
    assert_eq!(cfg.service.listen, "127.0.0.1:8080");
    assert_eq!(cfg.cache.regex_patterns_limit, 10000);
}

#[test]
fn mix_puts_given_values_in_place() {
    let mut args = no_args();
    args.listen = Some("0.0.0.0:9000".to_string());
    args.backlog = Some("-12".to_string());
    args.client_timeout = Some("+7".to_string());
    args.alt_encoding = Some("latin1".to_string());
    args.regex_patterns_limit = Some("0".to_string());
    let cfg = Config::mix_from_args(args, Config::default()).ok().unwrap();
    assert_eq!(cfg.service.listen, "0.0.0.0:9000");
    assert_eq!(cfg.service.backlog, -12);
    assert_eq!(cfg.service.client_timeout, 7);
    assert_eq!(cfg.common.alt_encoding, "latin1");
    assert_eq!(cfg.cache.regex_patterns_limit, 0);
    assert_eq!(cfg.service.keep_alive, 5);
}

#[test]
fn mix_rejects_bad_numbers() {
    let mut args = no_args();
    args.workers = Some("many".to_string());
    let e = Config::mix_from_args(args, Config::default()).err().unwrap();
    assert_eq!(e.arg, "workers");
    assert_eq!(e.value, "many");
    let mut args = no_args();
    args.keep_alive = Some("-1".to_string());
    assert!(Config::mix_from_args(args, Config::default()).is_err());
}

#[test]
fn integer_parsing_follows_from_str() {
    for s in ["0", "+5", "18446744073709551615", "", "+", "-1", "1a", " 1", "18446744073709551616"] {
        assert_eq!(parse_u64(s), s.parse::<u64>().ok(), "{:?}", s);
    }
    for s in ["-2147483648", "2147483647", "2147483648", "-2147483649", "-0", "+-1", "-", "12"] {
        assert_eq!(parse_i32(s), s.parse::<i32>().ok(), "{:?}", s);
    }
    for s in ["42", "+0", "x"] {
        assert_eq!(parse_usize(s), s.parse::<usize>().ok(), "{:?}", s);
    }
}

#[test]
fn fresh_unlimited_cache_has_not_reached_its_limit() {
    assert!(!PatternsCache::new().reached_limit());
}

#[test]
fn json_escapes_quotes_backslashes_and_controls() {
    let names = vec![None, Some("q".to_string())];
    let groups = vec![Some("x".to_string()), Some("a\"b\\c\nd".to_string())];
    assert_eq!(named_groups_json(&names, &groups), r#"{"q":"a\"b\\c\u000ad"}"#);
}

#[test]
fn regex_to_json_escapes_matched_text() {
    let mut cache = PatternsCache::new();
    let req = request(r#"say "hi""#, r#"(?P<quote>".*")"#);
    assert_eq!(regex_to_json(&mut cache, &req).unwrap(), r#"{"quote":"\"hi\""}"#);
}

#[test]
fn mix_names_the_first_bad_argument() {
    let mut args = no_args();
    args.backlog = Some("x".to_string());
    args.workers = Some("y".to_string());
    args.regex_patterns_limit = Some("z".to_string());
    let e = Config::mix_from_args(args, Config::default()).err().unwrap();
    assert_eq!(e.arg, "workers");
    assert_eq!(e.value, "y");
}
