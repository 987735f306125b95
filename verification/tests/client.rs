use synsyu_core::aur::{
    backoff_delay_ms, chunk_records, entry_needs_size_probe, make_batches, merge_chunk_maps,
    rate_limit_delay, retry_after_status_failure, throttle_delay, AurEntry, AurSettings,
    RetryDecision,
};
use synsyu_core::gate::AdmissionGate;
use synsyu_core::version_map::VersionMap;

fn names(list: &[&str]) -> Vec<String> {
    list.iter().map(|s| s.to_string()).collect()
}

#[test]
fn throttle_delay_matches_ceiling_division() {
    // 2048 bytes at 1 KiB/s: ceil(2048 * 1000 / 1024) = 2000 ms.
    assert_eq!(throttle_delay(2048, 1), Some(2000));
    // 1 byte still rounds up to a full millisecond.
    assert_eq!(throttle_delay(1, 1), Some(1));
    // An exact multiple stays exact: 1024 bytes at 1 KiB/s is 1000 ms.
    assert_eq!(throttle_delay(1024, 1), Some(1000));
}

#[test]
fn throttle_delay_disabled_when_cap_is_zero() {
    assert_eq!(throttle_delay(2048, 0), None);
    assert_eq!(throttle_delay(u64::MAX, 0), None);
}

#[test]
fn throttle_delay_zero_bytes_sleeps_not_at_all() {
    assert_eq!(throttle_delay(0, 1), None);
}

#[test]
fn throttle_delay_saturates_on_huge_transfers() {
    // bytes * 1000 saturates at u64::MAX before the division.
    assert_eq!(throttle_delay(u64::MAX, 2), Some(u64::MAX / 2048));
}

#[test]
fn rate_limit_delay_needs_cap_and_size() {
    assert_eq!(rate_limit_delay(Some(2048), 1), Some(2000));
    assert_eq!(rate_limit_delay(Some(2048), 0), None);
    assert_eq!(rate_limit_delay(None, 1), None);
}

#[test]
fn backoff_grows_and_caps() {
    assert_eq!(backoff_delay_ms(0), 200);
    assert_eq!(backoff_delay_ms(1), 400);
    assert_eq!(backoff_delay_ms(2), 800);
    assert_eq!(backoff_delay_ms(8), 51200);
    // The 8th doubling is the ceiling; later attempts stay there.
    assert_eq!(backoff_delay_ms(9), 51200);
    assert_eq!(backoff_delay_ms(100), 51200);
    // Delays never shrink from one attempt to the next.
    let mut previous = 0;
    for attempt in 0..20 {
        let delay = backoff_delay_ms(attempt);
        assert!(delay >= previous);
        assert!(delay <= 200 * 256);
        previous = delay;
    }
}

#[test]
fn retry_decision_respects_retry_budget() {
    // One allowed attempt: the first failure is terminal.
    assert_eq!(retry_after_status_failure(0, 1), RetryDecision::GiveUp);
    // With budget left, the batch sleeps the backoff of the new count.
    assert_eq!(
        retry_after_status_failure(0, 3),
        RetryDecision::Retry { delay_ms: 400 }
    );
    assert_eq!(
        retry_after_status_failure(1, 3),
        RetryDecision::Retry { delay_ms: 800 }
    );
    assert_eq!(retry_after_status_failure(2, 3), RetryDecision::GiveUp);
}

#[test]
fn batches_partition_the_input() {
    let input = names(&["a", "b", "c", "d", "e"]);
    let batches = make_batches(&input, 2);
    assert_eq!(batches.len(), 3);
    assert_eq!(batches[0], names(&["a", "b"]));
    assert_eq!(batches[1], names(&["c", "d"]));
    assert_eq!(batches[2], names(&["e"]));
    // Union of the batches is exactly the input, nothing shared.
    let flat: Vec<String> = batches.iter().flatten().cloned().collect();
    assert_eq!(flat, input);
    for (i, b1) in batches.iter().enumerate() {
        for b2 in batches.iter().skip(i + 1) {
            assert!(b1.iter().all(|x| !b2.contains(x)));
        }
    }
}

#[test]
fn batches_of_one_and_oversized_limit() {
    let input = names(&["a", "b"]);
    let singles = make_batches(&input, 1);
    assert_eq!(singles.len(), 2);
    let one = make_batches(&input, 100);
    assert_eq!(one.len(), 1);
    assert_eq!(one[0], input);
    let empty: Vec<String> = Vec::new();
    assert!(make_batches(&empty, 5).is_empty());
}

#[test]
fn settings_clamp_and_trim() {
    let s = AurSettings::new("https://aur.archlinux.org/rpc//", 30, 0, 0, 0, 5);
    assert_eq!(s.base_url, "https://aur.archlinux.org/rpc");
    assert_eq!(s.max_args, 1);
    assert_eq!(s.max_retries, 1);
    assert_eq!(s.max_parallel_requests, 1);
    assert_eq!(s.max_kib_per_sec, 5);
    assert_eq!(s.timeout_secs, 30);
    let s2 = AurSettings::new("https://aur.archlinux.org/rpc", 10, 150, 3, 4, 0);
    assert_eq!(s2.max_args, 150);
    assert_eq!(s2.max_retries, 3);
    assert_eq!(s2.max_parallel_requests, 4);
}

#[test]
fn compose_url_urlencodes_each_name() {
    let s = AurSettings::new("https://aur.archlinux.org/rpc", 30, 50, 3, 4, 0);
    let url = s.compose_url(&names(&["foo bar", "baz"]));
    assert_eq!(
        url,
        "https://aur.archlinux.org/rpc?v=5&type=info&arg[]=foo%20bar&arg[]=baz"
    );
    let plain = s.compose_url(&Vec::new());
    assert_eq!(plain, "https://aur.archlinux.org/rpc?v=5&type=info");
}

#[test]
fn probe_urls_derive_from_host_root() {
    let s = AurSettings::new("https://aur.archlinux.org/rpc", 30, 50, 3, 4, 0);
    assert_eq!(s.aur_base_url(), "https://aur.archlinux.org");
    assert_eq!(
        s.probe_url("/cgit/aur.git/snapshot/foo.tar.gz"),
        "https://aur.archlinux.org/cgit/aur.git/snapshot/foo.tar.gz"
    );
    assert_eq!(
        s.probe_url("https://mirror.example/foo.tar.gz"),
        "https://mirror.example/foo.tar.gz"
    );
    assert_eq!(
        s.probe_url("http://mirror.example/foo.tar.gz"),
        "http://mirror.example/foo.tar.gz"
    );
}

#[test]
fn host_root_without_rpc_segment_stays_whole() {
    let s = AurSettings::new("https://mirror.example/api///", 30, 50, 3, 4, 0);
    assert_eq!(s.base_url, "https://mirror.example/api");
    assert_eq!(s.aur_base_url(), "https://mirror.example/api");
}

#[test]
fn chunk_records_of_empty_response_is_empty() {
    let requested = names(&["alpha"]);
    let entries: Vec<AurEntry> = Vec::new();
    let probed: Vec<Option<u64>> = Vec::new();
    let map = chunk_records(&requested, &entries, &probed);
    assert!(map.get(&"alpha".to_string()).is_none());
}

fn entry(
    name: &str,
    version: &str,
    url_path: Option<&str>,
    compressed: Option<u64>,
    installed: Option<u64>,
) -> AurEntry {
    AurEntry {
        name: name.to_string(),
        version: version.to_string(),
        url_path: url_path.map(|p| p.to_string()),
        compressed_size: compressed,
        installed_size: installed,
    }
}

#[test]
fn size_probe_needed_only_without_explicit_size() {
    assert!(entry_needs_size_probe(&entry("a", "1", Some("/p"), None, None)));
    assert!(!entry_needs_size_probe(&entry("a", "1", Some("/p"), Some(3), None)));
    assert!(!entry_needs_size_probe(&entry("a", "1", None, None, None)));
}

#[test]
fn chunk_records_keeps_only_requested_names() {
    let requested = names(&["alpha", "beta"]);
    let entries = vec![
        entry("alpha", "1.0-1", None, Some(100), Some(400)),
        entry("intruder", "9.9-9", None, Some(1), Some(1)),
        entry("beta", "2.0-1", Some("/cgit/beta"), None, Some(800)),
    ];
    let probed = vec![None, None, Some(42)];
    let map = chunk_records(&requested, &entries, &probed);
    let alpha = map.get(&"alpha".to_string()).unwrap();
    assert_eq!(alpha.version, "1.0-1");
    assert_eq!(alpha.download_size, Some(100));
    assert_eq!(alpha.installed_size, Some(400));
    // The probe result fills in the missing download size.
    let beta = map.get(&"beta".to_string()).unwrap();
    assert_eq!(beta.download_size, Some(42));
    // A name the batch never requested is dropped.
    assert!(map.get(&"intruder".to_string()).is_none());
}

#[test]
fn chunk_records_without_size_or_path() {
    let requested = names(&["bare"]);
    let entries = vec![entry("bare", "1.0-1", None, None, None)];
    let probed = vec![None];
    let map = chunk_records(&requested, &entries, &probed);
    let bare = map.get(&"bare".to_string()).unwrap();
    assert_eq!(bare.download_size, None);
}

#[test]
fn merge_prefers_later_chunks() {
    let requested1 = names(&["a", "b"]);
    let entries1 = vec![
        entry("a", "1.0-1", None, Some(1), None),
        entry("b", "1.0-1", None, Some(2), None),
    ];
    let map1 = chunk_records(&requested1, &entries1, &vec![None, None]);
    let requested2 = names(&["b", "c"]);
    let entries2 = vec![
        entry("b", "2.0-1", None, Some(20), None),
        entry("c", "1.0-1", None, Some(3), None),
    ];
    let map2 = chunk_records(&requested2, &entries2, &vec![None, None]);
    let merged = merge_chunk_maps(&vec![map1, map2]);
    assert_eq!(merged.get(&"a".to_string()).unwrap().download_size, Some(1));
    assert_eq!(merged.get(&"b".to_string()).unwrap().version, "2.0-1");
    assert_eq!(merged.get(&"c".to_string()).unwrap().download_size, Some(3));
    assert!(merged.get(&"d".to_string()).is_none());
}

#[test]
fn version_map_insert_overwrites() {
    let mut m = VersionMap::new();
    assert!(!m.contains(&"x".to_string()));
    m.insert(
        "x".to_string(),
        synsyu_core::package_info::VersionInfo::new("1".to_string(), None, None),
    );
    m.insert(
        "x".to_string(),
        synsyu_core::package_info::VersionInfo::new("2".to_string(), Some(9), None),
    );
    let v = m.get(&"x".to_string()).unwrap();
    assert_eq!(v.version, "2");
    assert_eq!(v.download_size, Some(9));
    assert!(m.contains(&"x".to_string()));
}

#[test]
fn gate_admits_at_most_its_limit() {
    let mut gate = AdmissionGate::new(2);
    assert_eq!(gate.limit(), 2);
    assert!(gate.try_acquire());
    assert!(gate.try_acquire());
    // Both slots taken: admission is refused, the count stays bounded.
    assert!(!gate.try_acquire());
    assert_eq!(gate.in_flight(), 2);
    assert!(gate.in_flight() <= gate.limit());
    // A failed batch releases its slot like a successful one.
    gate.release();
    assert_eq!(gate.in_flight(), 1);
    assert!(gate.try_acquire());
    assert!(!gate.try_acquire());
    assert!(gate.in_flight() <= gate.limit());
    gate.release();
    gate.release();
    assert_eq!(gate.in_flight(), 0);
}

#[test]
fn gate_limit_clamped_to_one() {
    let mut gate = AdmissionGate::new(0);
    assert_eq!(gate.limit(), 1);
    assert!(gate.try_acquire());
    assert!(!gate.try_acquire());
}
