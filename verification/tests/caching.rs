//! The response cache: merge by key, expiration pruning, and the
//! minimum-refresh rate limit.
use ssdp_search::cache::search;
use ssdp_search::message::Header;
use ssdp_search::options::Options;
use ssdp_search::response::Response;
use ssdp_search::target::SearchTarget;
use ssdp_search::Error;

fn header(name: &str, value: &str) -> Header {
    Header { name: name.to_string(), value: value.to_string() }
}

fn advertisement(usn: &str, max_age: &str) -> Response {
    let hs = vec![
        header("BOOTID.UPNP.ORG", "1"),
        header("CACHE-CONTROL", &format!("max-age={}", max_age)),
        header("DATE", "Sat, 01 Jan 2022 00:00:00 GMT"),
        header("EXT", ""),
        header("LOCATION", "http://192.168.1.20:5000/desc.xml"),
        header("SERVER", "linux/5.0 UPnP/1.0 homectl/3.1"),
        header("ST", "upnp:rootdevice"),
        header("USN", usn),
    ];
    Response::parse(&hs, &SearchTarget::RootDevices).unwrap()
}

#[test]
fn search_refuses_invalid_options() {
    let mut options = Options::default();
    options.max_wait_time = 0;
    let r = search(options, 30, Vec::new(), 1000);
    assert!(matches!(r, Err(Error::InvalidFieldValue(_))));
}

#[test]
fn search_caches_the_initial_batch() {
    let batch = vec![advertisement("A", "100"), advertisement("B", "200")];
    let cache = search(Options::default(), 30, batch, 1000).unwrap();
    let seen = cache.responses(1000);
    assert_eq!(seen.len(), 2);
    assert_eq!(seen[0].service_name, "A");
    assert_eq!(seen[1].service_name, "B");
}

#[test]
fn same_key_in_one_batch_never_duplicates() {
    let batch = vec![advertisement("A", "100"), advertisement("A", "300")];
    let cache = search(Options::default(), 30, batch, 1000).unwrap();
    let seen = cache.responses(1000);
    assert_eq!(seen.len(), 1);
    // The later response won: it stays alive past the first one's lapse.
    assert_eq!(cache.responses(1200).len(), 1);
}

#[test]
fn merge_replaces_and_refreshes_one_entry() {
    // A cached entry lapses at 1100; a refresh at 1050 brings the same key
    // with a later expiration. Exactly one entry remains, with the new one.
    let cache0 = search(Options::default(), 30, vec![advertisement("A", "100")], 1000).unwrap();
    let mut cache = cache0;
    cache.refresh(vec![advertisement("A", "500")], 1050);
    let seen = cache.responses(1050);
    assert_eq!(seen.len(), 1);
    assert_eq!(seen[0].service_name, "A");
    // Alive well past the old expiration, until the refreshed one.
    assert_eq!(cache.responses(1500).len(), 1);
    assert_eq!(cache.responses(1551).len(), 0);
}

#[test]
fn merge_keeps_other_keys() {
    let mut cache =
        search(Options::default(), 30, vec![advertisement("A", "100")], 1000).unwrap();
    cache.refresh(vec![advertisement("B", "100")], 1040);
    let seen = cache.responses(1040);
    assert_eq!(seen.len(), 2);
}

#[test]
fn expired_entries_are_pruned_on_refresh_and_read() {
    let batch = vec![advertisement("A", "50"), advertisement("B", "500")];
    let mut cache = search(Options::default(), 30, batch, 1000).unwrap();
    // At 1100, entry A (lapsed at 1050) is gone from any read.
    let seen = cache.responses(1100);
    assert_eq!(seen.len(), 1);
    assert_eq!(seen[0].service_name, "B");
    // A refresh that brings nothing new also drops it from the store.
    cache.refresh(Vec::new(), 1100);
    let seen = cache.responses(1100);
    assert_eq!(seen.len(), 1);
    assert_eq!(seen[0].service_name, "B");
}

#[test]
fn refresh_within_the_window_changes_nothing() {
    let mut cache =
        search(Options::default(), 60, vec![advertisement("A", "500")], 1000).unwrap();
    assert!(!cache.needs_refresh(1030));
    // Called early anyway, the cache stands as it was: the new response is
    // not merged and the update time does not move.
    cache.refresh(vec![advertisement("B", "500")], 1030);
    assert_eq!(cache.responses(1030).len(), 1);
    assert!(cache.needs_refresh(1060));
    cache.refresh(vec![advertisement("B", "500")], 1060);
    assert_eq!(cache.responses(1060).len(), 2);
    assert_eq!(cache.last_updated(), 1060);
}

#[test]
fn last_updated_records_the_merge_time() {
    let cache = search(Options::default(), 30, Vec::new(), 1234).unwrap();
    assert_eq!(cache.last_updated(), 1234);
}
