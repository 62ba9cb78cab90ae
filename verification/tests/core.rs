//! Text, maps, documents, commands and shared values.

use mando::cache::{Cache, Lookup};
use mando::dict::{display_name, Dict};
use mando::json::{Integer, Json};
use mando::subprocess::{invocation, ExecOutcome, ExecResult, Lanes};
use mando::text;
use mando::text::Cut;
use mando::wire;

#[test]
fn maps_exit_codes() {
    assert_eq!(ExecOutcome::from_code(Some(0)), ExecOutcome::Success);
    assert_eq!(ExecOutcome::from_code(Some(3)), ExecOutcome::Timeout);
    assert_eq!(ExecOutcome::from_code(Some(4)), ExecOutcome::Rejected);
    assert_eq!(ExecOutcome::from_code(Some(5)), ExecOutcome::NetworkError);
    assert_eq!(ExecOutcome::from_code(Some(1)), ExecOutcome::Failed);
    assert_eq!(ExecOutcome::from_code(None), ExecOutcome::Failed);
}

#[test]
fn finished_commands_keep_their_output() {
    let r = ExecResult::finished(Some(0), b"hello", b"");
    assert_eq!(r.outcome, ExecOutcome::Success);
    assert_eq!(r.stdout, "hello");
}

#[test]
fn output_that_is_not_utf8_is_mended() {
    let r = ExecResult::finished(Some(1), b"a\xffb", "é".as_bytes());
    assert_eq!(r.outcome, ExecOutcome::Failed);
    assert_eq!(r.stdout, "a\u{fffd}b");
    assert_eq!(r.stderr, "é");
}

#[test]
fn commands_that_do_not_start() {
    let r = ExecResult::not_started("no such file");
    assert_eq!(r.outcome, ExecOutcome::SpawnFailed);
    assert_eq!(r.stdout, "");
    assert_eq!(r.stderr, "no such file");
}

#[test]
fn words_for_outcomes() {
    for (outcome, word) in [
        (ExecOutcome::Success, "success"),
        (ExecOutcome::Timeout, "timeout"),
        (ExecOutcome::Rejected, "rejected"),
        (ExecOutcome::NetworkError, "network_error"),
        (ExecOutcome::Failed, "failed"),
        (ExecOutcome::SpawnFailed, "spawn_failed"),
    ] {
        assert_eq!(outcome.word(), word);
    }
}

#[test]
fn command_lines_are_taken_apart() {
    let cmd = vec!["sh".to_string(), "-c".to_string(), "x".to_string()];
    let (program, args) = invocation(&cmd);
    assert_eq!(program, "sh");
    assert_eq!(args, vec!["-c", "x"]);
}

#[test]
fn lanes_keep_their_numbers() {
    let mut lanes = Lanes::new();
    assert_eq!(lanes.lane("a"), 0);
    assert_eq!(lanes.lane("b"), 1);
    assert_eq!(lanes.lane("a"), 0);
    assert_eq!(lanes.lane("c"), 2);
    assert_eq!(lanes.lane("b"), 1);
}

fn hit(cache: &Cache<u32>, key: &str, arrival: u64, now: u64, ttl: u64) -> Option<u32> {
    match cache.get_or_fetch(key, arrival, now, ttl) {
        Lookup::Hit(v) => Some(*v),
        Lookup::Fetch => None,
    }
}

#[test]
fn ttl_hit_skips_fetch() {
    let mut cache: Cache<u32> = Cache::default();
    assert_eq!(hit(&cache, "k", 100, 100, 500), None);
    cache.settle("k", 100, 7, true);
    assert_eq!(hit(&cache, "k", 599, 599, 500), Some(7));
}

#[test]
fn ttl_expiry_refetches() {
    let mut cache: Cache<u32> = Cache::default();
    cache.settle("k", 0, 1, true);
    assert_eq!(hit(&cache, "k", 29, 29, 30), Some(1));
    assert_eq!(hit(&cache, "k", 30, 30, 30), None);
    cache.settle("k", 60, 2, true);
    assert_eq!(hit(&cache, "k", 61, 61, 30), Some(2));
}

#[test]
fn non_cacheable_is_not_stored() {
    let mut cache: Cache<u32> = Cache::default();
    cache.settle("k", 0, 0, false);
    assert_eq!(hit(&cache, "k", 1, 1, 500), None);
}

#[test]
fn single_flight_coalesces_with_zero_ttl() {
    let mut cache: Cache<u32> = Cache::default();
    assert_eq!(hit(&cache, "k", 0, 0, 0), None);
    cache.settle("k", 50, 42, true);
    for arrival in [0, 10, 50] {
        assert_eq!(hit(&cache, "k", arrival, 60, 0), Some(42));
    }
    assert_eq!(hit(&cache, "k", 51, 60, 0), None);
}

#[test]
fn store_overwrites_for_subsequent_reads() {
    let mut cache: Cache<u32> = Cache::default();
    cache.store("k", 0, 4);
    cache.store("k", 1, 5);
    assert_eq!(hit(&cache, "k", 2, 2, 500), Some(5));
}

#[test]
fn distinct_keys_are_independent() {
    let mut cache: Cache<u32> = Cache::default();
    cache.settle("a", 0, 1, true);
    cache.settle("b", 0, 2, true);
    assert_eq!(hit(&cache, "a", 1, 1, 500), Some(1));
    assert_eq!(hit(&cache, "b", 1, 1, 500), Some(2));
}

#[test]
fn texts_are_trimmed_and_lowered() {
    assert_eq!(text::trim(" \u{3000}\tAb c\u{a0}\n"), "Ab c");
    assert_eq!(text::trim("   "), "");
    assert_eq!(text::to_lower("ÀBC-xyZ"), "Àbc-xyz");
}

#[test]
fn texts_are_compared() {
    assert!(text::same("", ""));
    assert!(!text::same("a", "ab"));
    assert!(text::precedes("a", "ab"));
    assert!(text::precedes("Z", "a"));
    assert!(!text::precedes("a", "a"));
    assert!(!text::precedes("b", "ab"));
    assert!(text::starts_with("node:5", "node:"));
    assert!(!text::starts_with("nod", "node:"));
}

#[test]
fn patterns_are_counted_and_replaced() {
    assert_eq!(text::count("aaaa", "aa"), 2);
    assert_eq!(text::count("x{p}y{p}", "{p}"), 2);
    assert_eq!(text::count("", "x"), 0);
    assert_eq!(text::replace("x{p}y{p}z", "{p}", "é"), "xéyéz");
    assert_eq!(text::replace("aaa", "aa", "b"), "ba");
    assert_eq!(text::replace("abc", "x", "y"), "abc");
}

#[test]
fn numbers_are_written_in_decimal() {
    assert_eq!(text::to_decimal(0), "0");
    assert_eq!(text::to_decimal(100), "100");
    assert_eq!(text::to_decimal(u64::MAX), "18446744073709551615");
}

#[test]
fn texts_are_cut_between_characters() {
    assert!(matches!(text::cut("abc", 4), Cut::Short));
    assert!(matches!(text::cut("abcd", 4), Cut::Clean(t) if t == "abcd"));
    assert!(matches!(text::cut("abcde", 4), Cut::Clean(t) if t == "abcd"));
    assert!(matches!(text::cut("あaz", 4), Cut::Clean(t) if t == "あa"));
    assert!(matches!(text::cut("abあ", 4), Cut::Torn));
    assert!(matches!(text::cut("x", 0), Cut::Clean(t) if t.is_empty()));
}

#[test]
fn names_are_looked_up() {
    let mut d: Dict<String> = Dict::new();
    assert!(d.get("a").is_none());
    d.insert("a".to_string(), "1".to_string());
    d.insert("b".to_string(), "2".to_string());
    d.insert("a".to_string(), "3".to_string());
    assert_eq!(d.get("a").unwrap(), "3");
    assert_eq!(display_name(Some(&d), "b"), "2");
    assert_eq!(display_name(Some(&d), "c"), "c");
    assert_eq!(display_name(None, "a"), "a");
    assert_eq!(d.remove("a"), Some("3".to_string()));
    assert!(d.remove("a").is_none());
    d.clear();
    assert!(d.get("b").is_none());
}

#[test]
fn documents_are_read() {
    let doc = wire::parse(r#"{"a": [1, -2, 2.5, "x", null, true], "b": {"c": 18446744073709551615}}"#)
        .unwrap();
    let list = doc.array_at("a").unwrap();
    assert_eq!(list.len(), 6);
    assert!(matches!(&list[0], Json::Number(n) if n.as_u64() == Some(1) && n.as_i64() == Some(1)
        && f64::from_bits(n.double.bits) == 1.0));
    assert!(matches!(&list[1], Json::Number(n) if n.as_u64().is_none() && n.as_i64() == Some(-2)
        && f64::from_bits(n.double.bits) == -2.0));
    assert!(matches!(&list[2], Json::Number(n) if n.integer == Integer::No
        && f64::from_bits(n.double.bits) == 2.5));
    assert_eq!(list[3].as_str(), Some("x"));
    assert!(matches!(&list[4], Json::Null));
    assert!(matches!(&list[5], Json::Bool(true)));
    let b = doc.get("b").unwrap();
    assert_eq!(b.u64_at("c"), Some(u64::MAX));
    assert_eq!(b.i64_at("c"), None);
    assert!(doc.get("d").is_none());
    assert!(doc.str_at("a").is_none());
    assert!(wire::parse("{").is_none());
    assert!(wire::parse("").is_none());
    let copy = doc.clone();
    assert_eq!(copy.get("b").unwrap().u64_at("c"), Some(u64::MAX));
}

#[test]
fn texts_are_quoted() {
    assert_eq!(wire::json_str("a\"b\\c\n"), r#""a\"b\\c\n""#);
    assert_eq!(wire::json_str(""), "\"\"");
    assert_eq!(wire::json_str("太"), "\"太\"");
    assert_eq!(
        wire::json_str("\u{8}\t\n\u{c}\r"),
        r#""\b\t\n\f\r""#
    );
    assert_eq!(
        wire::json_str("\u{0}\u{1}\u{b}\u{1f}"),
        r#""\u0000\u0001\u000b\u001f""#
    );
    assert_eq!(wire::json_str("\u{7f}/ \u{2028}"), "\"\u{7f}/ \u{2028}\"");
}

#[test]
fn documents_are_displayed() {
    let value: serde_json::Value = serde_json::from_str(r#" {"b": [1, 2.5], "a": "x"} "#).unwrap();
    let (doc, shown) = wire::import_displayed(value);
    assert_eq!(shown, r#"{"a":"x","b":[1,2.5]}"#);
    assert_eq!(doc.str_at("a"), Some("x"));
}
