//! The search-target codec: canonical encodings and the decode round trip.
use ssdp_search::target::SearchTarget;
use ssdp_search::Error;

#[test]
fn encode_all_variants() {
    assert_eq!(SearchTarget::All.encode(), "ssdp::all");
    assert_eq!(SearchTarget::RootDevices.encode(), "upnp:rootdevice");
    assert_eq!(SearchTarget::Device("abc-123".to_string()).encode(), "uuid:abc-123");
    assert_eq!(
        SearchTarget::DeviceType("Basic:1".to_string()).encode(),
        "urn:schemas-upnp-org:device:Basic:1"
    );
    assert_eq!(
        SearchTarget::ServiceType("Printer:1".to_string()).encode(),
        "urn:schemas-upnp-org:service:Printer:1"
    );
    assert_eq!(
        SearchTarget::DomainDeviceType("example-com".to_string(), "Lamp:2".to_string()).encode(),
        "urn:example-com:device:Lamp:2"
    );
    assert_eq!(
        SearchTarget::DomainServiceType("example-com".to_string(), "Dim:1".to_string()).encode(),
        "urn:example-com:service:Dim:1"
    );
}

fn round_trips(t: &SearchTarget) -> bool {
    let decoded = SearchTarget::decode(&t.encode()).expect("decodable variant");
    decoded.same_target(t)
}

#[test]
fn decode_inverts_encode_on_decodable_variants() {
    assert!(round_trips(&SearchTarget::All));
    assert!(round_trips(&SearchTarget::RootDevices));
    assert!(round_trips(&SearchTarget::Device("abc-123".to_string())));
    assert!(round_trips(&SearchTarget::DeviceType("Basic:1".to_string())));
    assert!(round_trips(&SearchTarget::ServiceType("Printer:1".to_string())));
}

#[test]
fn decode_rejects_unknown_forms() {
    let r = SearchTarget::decode("who-knows");
    assert!(match r {
        Err(Error::InvalidFieldValue(f)) => f == "ST",
        _ => false,
    });
    assert!(SearchTarget::decode("").is_err());
    assert!(SearchTarget::decode("urn:example-com:device:Lamp:2").is_err());
}

#[test]
fn decode_literal_forms() {
    assert!(matches!(SearchTarget::decode("ssdp::all"), Ok(SearchTarget::All)));
    assert!(matches!(SearchTarget::decode("upnp:rootdevice"), Ok(SearchTarget::RootDevices)));
    let d = SearchTarget::decode("uuid:device-7").unwrap();
    assert!(match d {
        SearchTarget::Device(id) => id == "device-7",
        _ => false,
    });
}
