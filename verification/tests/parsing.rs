//! Response parsing: the required-header rules and the typed extraction.
use ssdp_search::message::Header;
use ssdp_search::response::Response;
use ssdp_search::target::SearchTarget;
use ssdp_search::Error;

fn header(name: &str, value: &str) -> Header {
    Header { name: name.to_string(), value: value.to_string() }
}

fn full_headers() -> Vec<Header> {
    vec![
        header("BOOTID.UPNP.ORG", "7"),
        header("CACHE-CONTROL", "max-age=1800"),
        header("DATE", "Sat, 01 Jan 2022 00:00:00 GMT"),
        header("EXT", ""),
        header("LOCATION", "http://192.168.1.20:5000/desc.xml"),
        header("SERVER", "linux/5.0 UPnP/1.0 homectl/3.1"),
        header("ST", "upnp:rootdevice"),
        header("USN", "uuid:device-7::upnp:rootdevice"),
    ]
}

#[test]
fn parses_a_complete_response() {
    let r = Response::parse(&full_headers(), &SearchTarget::RootDevices).unwrap();
    assert_eq!(r.max_age, 1800);
    assert_eq!(r.boot_id, 7);
    assert_eq!(r.date, "Sat, 01 Jan 2022 00:00:00 GMT");
    assert_eq!(r.server, "linux/5.0 UPnP/1.0 homectl/3.1");
    assert_eq!(r.location, "http://192.168.1.20:5000/desc.xml");
    assert_eq!(r.service_name, "uuid:device-7::upnp:rootdevice");
    assert!(r.search_target.same_target(&SearchTarget::RootDevices));
    assert!(r.other_headers.is_empty());
}

#[test]
fn each_missing_required_header_is_named() {
    let names = [
        "BOOTID.UPNP.ORG",
        "CACHE-CONTROL",
        "DATE",
        "EXT",
        "LOCATION",
        "SERVER",
        "ST",
        "USN",
    ];
    for name in names {
        let hs: Vec<Header> =
            full_headers().into_iter().filter(|h| h.name != name).collect();
        let r = Response::parse(&hs, &SearchTarget::All);
        assert!(
            match r {
                Err(Error::MissingRequiredField(f)) => f == name,
                _ => false,
            },
            "expected a missing-field error for {}",
            name
        );
    }
}

#[test]
fn nonempty_ext_is_rejected() {
    let hs: Vec<Header> = full_headers()
        .into_iter()
        .map(|h| if h.name == "EXT" { header("EXT", "yes") } else { h })
        .collect();
    let r = Response::parse(&hs, &SearchTarget::All);
    assert!(match r {
        Err(Error::InvalidFieldValue(f)) => f == "EXT",
        _ => false,
    });
}

#[test]
fn malformed_boot_id_is_rejected() {
    let hs: Vec<Header> = full_headers()
        .into_iter()
        .map(|h| if h.name == "BOOTID.UPNP.ORG" { header("BOOTID.UPNP.ORG", "x7") } else { h })
        .collect();
    let r = Response::parse(&hs, &SearchTarget::All);
    assert!(match r {
        Err(Error::InvalidFieldValue(f)) => f == "BOOTID.UPNP.ORG",
        _ => false,
    });
}

#[test]
fn cache_control_needs_a_max_age_directive() {
    let cases = [
        ("max-age=1800", Some(1800u64)),
        ("public, max-age = 600", Some(600)),
        ("max-age=0", Some(0)),
        ("no-cache", None),
        ("max-age=", None),
        ("max-age=big", None),
    ];
    for (value, expected) in cases {
        let hs: Vec<Header> = full_headers()
            .into_iter()
            .map(|h| if h.name == "CACHE-CONTROL" { header("CACHE-CONTROL", value) } else { h })
            .collect();
        let r = Response::parse(&hs, &SearchTarget::All);
        match expected {
            Some(age) => assert_eq!(r.unwrap().max_age, age),
            None => assert!(
                match r {
                    Err(Error::InvalidFieldValue(f)) => f == "CACHE-CONTROL",
                    _ => false,
                },
                "expected rejection of {:?}",
                value
            ),
        }
    }
}

#[test]
fn empty_required_values_are_rejected() {
    for name in ["DATE", "SERVER", "LOCATION", "USN"] {
        let hs: Vec<Header> = full_headers()
            .into_iter()
            .map(|h| if h.name == name { header(name, "") } else { h })
            .collect();
        let r = Response::parse(&hs, &SearchTarget::All);
        assert!(
            match r {
                Err(Error::InvalidFieldValue(f)) => f == name,
                _ => false,
            },
            "expected rejection of empty {}",
            name
        );
    }
}

#[test]
fn extra_headers_are_kept_with_last_value_winning() {
    let mut hs = full_headers();
    hs.push(header("X-EXTRA", "one"));
    hs.push(header("NTS", "alive"));
    hs.push(header("X-EXTRA", "two"));
    let r = Response::parse(&hs, &SearchTarget::All).unwrap();
    assert_eq!(r.other_headers.len(), 2);
    assert_eq!(r.other_headers[0].name, "NTS");
    assert_eq!(r.other_headers[0].value, "alive");
    assert_eq!(r.other_headers[1].name, "X-EXTRA");
    assert_eq!(r.other_headers[1].value, "two");
}

#[test]
fn search_target_comes_from_the_request() {
    let target = SearchTarget::Device("abc".to_string());
    let r = Response::parse(&full_headers(), &target).unwrap();
    assert!(r.search_target.same_target(&target));
}

#[test]
fn numbers_too_large_for_a_counter_are_rejected() {
    // Way past what a 64-bit counter can hold.
    let big = "99999999999999999999999999";
    let hs: Vec<Header> = full_headers()
        .into_iter()
        .map(|h| if h.name == "BOOTID.UPNP.ORG" { header("BOOTID.UPNP.ORG", big) } else { h })
        .collect();
    assert!(matches!(
        Response::parse(&hs, &SearchTarget::All),
        Err(Error::InvalidFieldValue(_))
    ));
    let hs: Vec<Header> = full_headers()
        .into_iter()
        .map(|h| {
            if h.name == "CACHE-CONTROL" {
                header("CACHE-CONTROL", "max-age=99999999999999999999999999")
            } else {
                h
            }
        })
        .collect();
    assert!(matches!(
        Response::parse(&hs, &SearchTarget::All),
        Err(Error::InvalidFieldValue(_))
    ));
}

#[test]
fn largest_counter_values_parse() {
    let max = "18446744073709551615";
    let hs: Vec<Header> = full_headers()
        .into_iter()
        .map(|h| {
            if h.name == "BOOTID.UPNP.ORG" {
                header("BOOTID.UPNP.ORG", max)
            } else if h.name == "CACHE-CONTROL" {
                header("CACHE-CONTROL", &format!("max-age={}", max))
            } else {
                h
            }
        })
        .collect();
    let r = Response::parse(&hs, &SearchTarget::All).unwrap();
    assert_eq!(r.boot_id, u64::MAX);
    assert_eq!(r.max_age, u64::MAX);
}

#[test]
fn no_headers_at_all_names_the_first_missing_one() {
    let r = Response::parse(&Vec::new(), &SearchTarget::All);
    assert!(match r {
        Err(Error::MissingRequiredField(f)) => f == "BOOTID.UPNP.ORG",
        _ => false,
    });
}
