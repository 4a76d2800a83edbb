use kache::entry::CacheEntry;
use kache::error::CacheError;
use kache::key::{cache_key, frame_command};
use kache::record::{decode, encode, CacheEntryInfo};
use kache::session::{
    complete, directory_failure, is_record_file, lookup, resolve_expiry, should_purge,
    status_word, Completion, Lookup, Relay, RelayEvent,
};
use kache::strings::OsString;
use kache::timestamp::{read_duration, SystemTime};
use speedy::Writable;

fn cmd(parts: &[&str]) -> Vec<OsString> {
    parts.iter().map(|p| OsString::from_bytes(p.as_bytes().to_vec())).collect()
}

fn info(parts: &[&str], expiry: Option<SystemTime>, code: i32) -> CacheEntryInfo {
    CacheEntryInfo::new(cmd(parts), expiry, code)
}

fn same(a: &CacheEntryInfo, b: &CacheEntryInfo) -> bool {
    a.command == b.command && a.expiry == b.expiry && a.exit_code == b.exit_code
}

#[test]
fn round_trip_without_expiry() {
    let i = info(&["echo", "hello"], None, 0);
    let b = encode(&i).unwrap();
    assert!(same(&decode(&b).unwrap(), &i));
}

#[test]
fn round_trip_with_expiry() {
    let i = info(&["sleep", "1"], Some(SystemTime::new(1_700_000_000, 123_456_789)), -3);
    let b = encode(&i).unwrap();
    assert!(same(&decode(&b).unwrap(), &i));
}

#[test]
fn round_trip_empty_command_and_strings() {
    let i = info(&[], None, 7);
    assert!(same(&decode(&encode(&i).unwrap()).unwrap(), &i));
    let j = info(&["", "x", ""], Some(SystemTime::new(0, 0)), i32::MIN);
    assert!(same(&decode(&encode(&j).unwrap()).unwrap(), &j));
}

#[test]
fn round_trip_non_ascii_argument() {
    let i = info(&["grep", "héllo wörld ✓"], None, i32::MAX);
    assert!(same(&decode(&encode(&i).unwrap()).unwrap(), &i));
}

#[test]
fn encoding_is_exact() {
    let i = info(&["ab"], None, -1);
    let b = encode(&i).unwrap();
    assert_eq!(b, vec![1, 0, 0, 0, 2, 0, 0, 0, b'a', b'b', 0, 0xff, 0xff, 0xff, 0xff]);
}

#[test]
fn encoding_matches_speedy_layout() {
    let t = std::time::UNIX_EPOCH + std::time::Duration::new(1_518_568_087, 5);
    let value = (vec!["echo".to_string(), "hi".to_string()], Some(t), 42i32);
    let expected = Writable::<speedy::LittleEndian>::write_to_vec_with_ctx(&value, speedy::LittleEndian::default()).unwrap();
    let i = info(&["echo", "hi"], Some(SystemTime::new(1_518_568_087, 5)), 42);
    assert_eq!(encode(&i).unwrap(), expected);
}

#[test]
fn encoding_rejects_non_text() {
    let i = CacheEntryInfo::new(vec![OsString::from_bytes(vec![0x66, 0xff, 0x6f])], None, 0);
    assert_eq!(encode(&i).unwrap_err(), CacheError::EncodingError);
}

#[test]
fn decoding_rejects_corrupt_bytes() {
    let i = info(&["echo", "hi"], Some(SystemTime::new(5, 6)), 1);
    let b = encode(&i).unwrap();
    assert_eq!(decode(&b[..b.len() - 1]).unwrap_err(), CacheError::CorruptRecord);
    let mut longer = b.clone();
    longer.push(0);
    assert_eq!(decode(&longer).unwrap_err(), CacheError::CorruptRecord);
    assert_eq!(decode(&[]).unwrap_err(), CacheError::CorruptRecord);
    // nanoseconds of one full second
    let bad = vec![0, 0, 0, 0, 1, 0, 0, 0, 0, 0, 0, 0, 0, 0, 0xca, 0x9a, 0x3b, 0, 0, 0, 0];
    assert_eq!(decode(&bad).unwrap_err(), CacheError::CorruptRecord);
    // a string that is not UTF-8
    let bad_text = vec![1, 0, 0, 0, 1, 0, 0, 0, 0xff, 0, 0, 0, 0, 0];
    assert_eq!(decode(&bad_text).unwrap_err(), CacheError::CorruptRecord);
}

#[test]
fn validity_boundary() {
    let t = SystemTime::new(100, 500);
    let i = info(&["x"], Some(t), 0);
    assert!(!i.valid_at(&t));
    assert!(i.valid_at(&SystemTime::new(100, 499)));
    assert!(i.valid_at(&SystemTime::new(99, 999_999_999)));
    assert!(!i.valid_at(&SystemTime::new(100, 501)));
    assert!(!i.valid_at(&SystemTime::new(101, 0)));
    let never = info(&["x"], None, 0);
    assert!(never.valid_at(&SystemTime::new(u64::MAX, 999_999_999)));
    assert!(never.valid());
}

#[test]
fn valid_uses_the_clock() {
    let past = info(&["x"], Some(SystemTime::new(1, 0)), 0);
    assert!(!past.valid());
    let future = info(&["x"], Some(SystemTime::new(u64::MAX, 0)), 0);
    assert!(future.valid());
}

#[test]
fn keys_separate_boundaries_and_order() {
    let a = cache_key(&cmd(&["a", "bc"]));
    let b = cache_key(&cmd(&["ab", "c"]));
    let c = cache_key(&cmd(&["bc", "a"]));
    let d = cache_key(&cmd(&["a", "bc", ""]));
    assert_ne!(a, b);
    assert_ne!(a, c);
    assert_ne!(a, d);
    assert_eq!(a, cache_key(&cmd(&["a", "bc"])));
    assert_eq!(a.len(), 16);
    assert!(a.chars().all(|ch| ch.is_ascii_digit() || ('a'..='f').contains(&ch)));
}

#[test]
fn frame_is_exact() {
    let f = frame_command(&cmd(&["ab", ""]));
    assert_eq!(
        f,
        vec![2, 0, 0, 0, 0, 0, 0, 0, 2, 0, 0, 0, 0, 0, 0, 0, b'a', b'b', 0, 0, 0, 0, 0, 0, 0, 0]
    );
}

#[test]
fn entry_paths() {
    let c = cmd(&["echo", "hello"]);
    let e = CacheEntry::new("/tmp/kache", &c);
    assert_eq!(e.id, cache_key(&c));
    assert_eq!(e.info_path, format!("/tmp/kache/{}", e.id));
    assert_eq!(e.stdout_path, format!("/tmp/kache/{}.stdout", e.id));
    assert_eq!(e.stderr_path, format!("/tmp/kache/{}.stderr", e.id));
}

#[test]
fn entry_from_info_path() {
    let e = CacheEntry::load("/tmp/kache/0123456789abcdef").unwrap();
    assert_eq!(e.id, "0123456789abcdef");
    assert_eq!(e.info_path, "/tmp/kache/0123456789abcdef");
    assert_eq!(e.stdout_path, "/tmp/kache/0123456789abcdef.stdout");
    assert_eq!(e.stderr_path, "/tmp/kache/0123456789abcdef.stderr");
    assert_eq!(CacheEntry::load("/").unwrap_err(), CacheError::InvalidPath);
    assert_eq!(CacheEntry::load("a/..").unwrap_err(), CacheError::InvalidPath);
    assert!(!e.info_exists());
}

#[test]
fn second_run_replays() {
    let stored = info(&["echo", "hello"], None, 0);
    let now = SystemTime::new(1_000, 0);
    assert_eq!(lookup(None, &Some(now)), Lookup::Run);
    assert_eq!(lookup(Some(&stored), &Some(now)), Lookup::Replay);
    let stale = info(&["echo", "hello"], Some(SystemTime::new(999, 0)), 0);
    assert_eq!(lookup(Some(&stale), &Some(now)), Lookup::Refresh);
    assert_eq!(lookup(Some(&stale), &None), Lookup::Replay);
}

#[test]
fn zero_duration_expires_at_once() {
    let now = SystemTime::new(1_700_000_000, 250);
    let d = read_duration("0s").unwrap();
    assert_eq!(d, (0, 0));
    let expiry = resolve_expiry(None, Some(d), &now);
    assert_eq!(expiry, Some(now));
    let i = info(&["echo", "hi"], expiry, 0);
    assert!(!i.valid_at(&now));
    assert_eq!(status_word(&i, &Some(now)), "expired");
    let j = info(&["echo", "hi"], None, 0);
    assert_eq!(status_word(&j, &Some(now)), "valid");
}

#[test]
fn expiry_resolution() {
    let now = SystemTime::new(10, 900_000_000);
    let given = SystemTime::new(5, 0);
    assert_eq!(resolve_expiry(Some(given), Some((1, 0)), &now), Some(given));
    assert_eq!(resolve_expiry(None, None, &now), None);
    assert_eq!(resolve_expiry(None, Some((2, 200_000_000)), &now), Some(SystemTime::new(13, 100_000_000)));
    assert_eq!(read_duration("2h 37min"), Some((9420, 0)));
    assert_eq!(read_duration("4.2s"), Some((4, 200_000_000)));
    assert_eq!(read_duration("soon"), None);
    assert_eq!(read_duration("99999999999s"), Some((99_999_999_999, 0)));
    assert_eq!(read_duration("18446744073709551615s 1000ms"), None);
    assert_eq!(read_duration("1 year 6 months"), Some((31_557_600 + 6 * 2_630_016, 0)));
}

#[test]
fn timestamps_from_text() {
    assert_eq!(SystemTime::from_rfc3339("2018-02-14T00:28:07Z"), Some(SystemTime::new(1_518_568_087, 0)));
    assert_eq!(SystemTime::from_rfc3339("2018-02-14 00:28:07"), Some(SystemTime::new(1_518_568_087, 0)));
    assert_eq!(SystemTime::from_rfc3339("yesterday"), None);
    assert_eq!(SystemTime::new(1, 999_999_999).checked_add(0, 1), Some(SystemTime::new(2, 0)));
    assert_eq!(SystemTime::new(u64::MAX, 0).checked_add(1, 0), None);
}

#[test]
fn purge_removes_only_expired() {
    let now = SystemTime::new(50, 0);
    let expired = info(&["a"], Some(SystemTime::new(50, 0)), 0);
    let fresh = info(&["b"], Some(SystemTime::new(51, 0)), 0);
    assert!(should_purge(&expired, &Some(now)));
    assert!(!should_purge(&fresh, &Some(now)));
    assert!(!should_purge(&expired, &None));
    assert!(is_record_file(true, false));
    assert!(!is_record_file(true, true));
    assert!(!is_record_file(false, false));
    assert_eq!(directory_failure(true), Some(CacheError::CacheDirectoryNotFound));
    assert_eq!(directory_failure(false), None);
}

#[test]
fn relay_ends_only_when_both_streams_are_quiet() {
    let mut r = Relay::new();
    assert!(!r.observe(RelayEvent::Stdout(65535)));
    assert!(!r.observe(RelayEvent::Quiet));
    assert!(!r.observe(RelayEvent::Stdout(0)));
    assert!(!r.stdout_open);
    assert!(r.stderr_open);
    assert!(!r.observe(RelayEvent::Stderr(100000)));
    assert!(!r.observe(RelayEvent::Quiet));
    assert!(r.observe(RelayEvent::Stderr(0)));
    assert!(!r.stderr_open);
    assert!(r.observe(RelayEvent::Quiet));
    let mut s = Relay::new();
    assert!(!s.observe(RelayEvent::Stderr(0)));
    assert!(s.observe(RelayEvent::Stdout(0)));
}

#[test]
fn completion_records_exit_code() {
    match complete(cmd(&["false"]), None, Some(1)) {
        Completion::Record(i) => {
            assert_eq!(i.exit_code, 1);
            assert!(same(&i, &info(&["false"], None, 1)));
        },
        Completion::Discard => panic!("expected a record"),
    }
    assert!(matches!(complete(cmd(&["kill"]), None, None), Completion::Discard));
}

#[test]
fn timestamps_to_text() {
    assert_eq!(SystemTime::new(1_518_568_087, 0).to_rfc3339(), "2018-02-14T00:28:07Z");
    assert_eq!(SystemTime::new(0, 500_000_000).to_rfc3339(), "1970-01-01T00:00:00.500000000Z");
}
