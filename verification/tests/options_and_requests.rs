//! Option validation and request construction under each protocol revision.
use ssdp_search::message::{search_once, search_once_to_device};
use ssdp_search::options::{ControlPoint, Options};
use ssdp_search::target::SearchTarget;
use ssdp_search::version::SpecVersion;
use ssdp_search::Error;

fn control_point(name: &str) -> ControlPoint {
    ControlPoint { friendly_name: name.to_string(), port: None, uuid: None }
}

#[test]
fn validate_wait_time_bounds() {
    let mut options = Options::default();
    options.max_wait_time = 0;
    assert!(matches!(options.validate(), Err(Error::InvalidFieldValue(_))));
    options.max_wait_time = 121;
    assert!(matches!(options.validate(), Err(Error::InvalidFieldValue(_))));
    options.max_wait_time = 1;
    assert!(options.validate().is_ok());
    options.max_wait_time = 120;
    assert!(options.validate().is_ok());
    options.max_wait_time = 2;
    assert!(options.validate().is_ok());
}

#[test]
fn validate_requires_control_point_under_v20() {
    let options = Options::new(SpecVersion::V20);
    let r = options.validate();
    assert!(match r {
        Err(Error::InvalidFieldValue(f)) => f == "control_point",
        _ => false,
    });
    let with_cp = Options::for_control_point(control_point("front door"));
    assert!(with_cp.validate().is_ok());
    let empty_name = Options::for_control_point(control_point(""));
    assert!(matches!(empty_name.validate(), Err(Error::InvalidFieldValue(_))));
}

#[test]
fn validate_product_shape_from_v11_on() {
    let mut options = Options::new(SpecVersion::V11);
    options.product_and_version = Some("homectl/3.1".to_string());
    assert!(options.validate().is_ok());
    options.product_and_version = Some("no-separator".to_string());
    let r = options.validate();
    assert!(match r {
        Err(Error::InvalidFieldValue(f)) => f == "product_and_version",
        _ => false,
    });
    let mut v10 = Options::default();
    v10.product_and_version = Some("no-separator".to_string());
    assert!(v10.validate().is_ok());
}

#[test]
fn multicast_request_v10_headers() {
    let options = Options::default();
    let hs = search_once(&options).unwrap();
    assert_eq!(hs.len(), 4);
    assert_eq!(hs[0].name, "HOST");
    assert_eq!(hs[0].value, "239.255.255.250:1900");
    assert_eq!(hs[1].name, "MAN");
    assert_eq!(hs[1].value, "\"ssdp:discover\"");
    assert_eq!(hs[2].name, "MX");
    assert_eq!(hs[2].value, "2");
    assert_eq!(hs[3].name, "ST");
    assert_eq!(hs[3].value, "upnp:rootdevice");
}

#[test]
fn multicast_request_v11_adds_user_agent() {
    let mut options = Options::new(SpecVersion::V11);
    options.product_and_version = Some("homectl/3.1".to_string());
    options.max_wait_time = 5;
    options.search_target = SearchTarget::All;
    let hs = search_once(&options).unwrap();
    assert_eq!(hs.len(), 5);
    assert_eq!(hs[2].value, "5");
    assert_eq!(hs[3].value, "ssdp::all");
    assert_eq!(hs[4].name, "USER-AGENT");
    assert_eq!(hs[4].value, "UPnP/1.1 homectl/3.1");
}

#[test]
fn multicast_request_v20_uses_distinct_port_and_uuid_headers() {
    let mut cp = control_point("hall");
    cp.port = Some(40000);
    cp.uuid = Some("cp-uuid-9".to_string());
    let options = Options::for_control_point(cp);
    let hs = search_once(&options).unwrap();
    assert_eq!(hs.len(), 8);
    assert_eq!(hs[5].name, "CPFN.UPNP.ORG");
    assert_eq!(hs[5].value, "hall");
    assert_eq!(hs[6].name, "TCPPORT.UPNP.ORG");
    assert_eq!(hs[6].value, "40000");
    assert_eq!(hs[7].name, "CPUUID.UPNP.ORG");
    assert_eq!(hs[7].value, "cp-uuid-9");
}

#[test]
fn invalid_options_refuse_request_construction() {
    let mut options = Options::default();
    options.max_wait_time = 0;
    assert!(search_once(&options).is_err());
}

#[test]
fn unicast_request_needs_v11() {
    let options = Options::default();
    assert!(matches!(search_once_to_device(&options), Err(Error::Unsupported)));
    let v11 = Options::new(SpecVersion::V11);
    let hs = search_once_to_device(&v11).unwrap();
    assert_eq!(hs.len(), 4);
    assert_eq!(hs[0].name, "HOST");
    assert_eq!(hs[1].name, "MAN");
    assert_eq!(hs[2].name, "ST");
    assert_eq!(hs[3].name, "USER-AGENT");
    assert_eq!(hs[3].value, "UPnP/1.1");
}

#[test]
fn wait_time_and_port_render_in_decimal() {
    let mut options = Options::default();
    options.max_wait_time = 120;
    let hs = search_once(&options).unwrap();
    assert_eq!(hs[2].value, "120");
    let mut cp = control_point("hall");
    cp.port = Some(65535);
    let mut v20 = Options::for_control_point(cp);
    v20.max_wait_time = 100;
    let hs = search_once(&v20).unwrap();
    assert_eq!(hs[2].value, "100");
    assert_eq!(hs[6].value, "65535");
}
