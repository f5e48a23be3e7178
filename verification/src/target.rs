//! The search-target codec: the scope filter a search request advertises,
//! with its canonical string encoding and the inverse decoding.
use vstd::prelude::*;

use crate::text::{is_prefix_of, starts_with, str_eq, suffix_from};
use crate::Error;

verus! {

/// The scope of a search, as carried by the `ST` request header.
#[derive(Clone, Debug)]
pub enum SearchTarget {
    /// Every device and service: `ssdp::all`.
    All,
    /// Root devices only: `upnp:rootdevice`.
    RootDevices,
    /// One device by identifier: `uuid:{device-UUID}`.
    Device(String),
    /// Devices of a standard type: `urn:schemas-upnp-org:device:{type}`.
    DeviceType(String),
    /// Services of a standard type: `urn:schemas-upnp-org:service:{type}`.
    ServiceType(String),
    /// Devices of a vendor type: `urn:{domain}:device:{type}`.
    DomainDeviceType(String, String),
    /// Services of a vendor type: `urn:{domain}:service:{type}`.
    DomainServiceType(String, String),
}

/// The mathematical shape of a search target: the same variants over
/// character sequences.
pub enum TargetView {
    All,
    RootDevices,
    Device(Seq<char>),
    DeviceType(Seq<char>),
    ServiceType(Seq<char>),
    DomainDeviceType(Seq<char>, Seq<char>),
    DomainServiceType(Seq<char>, Seq<char>),
}

impl View for SearchTarget {
    type V = TargetView;

    open spec fn view(&self) -> TargetView {
        match self {
            SearchTarget::All => TargetView::All,
            SearchTarget::RootDevices => TargetView::RootDevices,
            SearchTarget::Device(d) => TargetView::Device(d@),
            SearchTarget::DeviceType(t) => TargetView::DeviceType(t@),
            SearchTarget::ServiceType(t) => TargetView::ServiceType(t@),
            SearchTarget::DomainDeviceType(d, t) => TargetView::DomainDeviceType(d@, t@),
            SearchTarget::DomainServiceType(d, t) => TargetView::DomainServiceType(d@, t@),
        }
    }
}

impl DeepView for SearchTarget {
    type V = TargetView;

    open spec fn deep_view(&self) -> TargetView {
        self.view()
    }
}

/// The canonical string form of a search target.
pub open spec fn spec_encode(t: TargetView) -> Seq<char> {
    match t {
        TargetView::All => "ssdp::all"@,
        TargetView::RootDevices => "upnp:rootdevice"@,
        TargetView::Device(d) => "uuid:"@ + d,
        TargetView::DeviceType(t) => "urn:schemas-upnp-org:device:"@ + t,
        TargetView::ServiceType(t) => "urn:schemas-upnp-org:service:"@ + t,
        TargetView::DomainDeviceType(d, t) => "urn:"@ + d + ":device:"@ + t,
        TargetView::DomainServiceType(d, t) => "urn:"@ + d + ":service:"@ + t,
    }
}

/// What decoding recognizes: the two literals, then the three open prefixes,
/// tried in that order. Domain-qualified forms have no decoding.
pub open spec fn spec_decode(s: Seq<char>) -> Option<TargetView> {
    if s == "ssdp::all"@ {
        Some(TargetView::All)
    } else if s == "upnp:rootdevice"@ {
        Some(TargetView::RootDevices)
    } else if is_prefix_of("uuid:"@, s) {
        Some(TargetView::Device(s.skip(5)))
    } else if is_prefix_of("urn:schemas-upnp-org:device:"@, s) {
        Some(TargetView::DeviceType(s.skip(28)))
    } else if is_prefix_of("urn:schemas-upnp-org:service:"@, s) {
        Some(TargetView::ServiceType(s.skip(29)))
    } else {
        None
    }
}

/// Holds of the variants whose encoding can be decoded back.
pub open spec fn is_decodable_variant(t: TargetView) -> bool {
    match t {
        TargetView::DomainDeviceType(_, _) => false,
        TargetView::DomainServiceType(_, _) => false,
        _ => true,
    }
}

impl SearchTarget {
    /// An owned copy of this target, with the same shape.
    pub fn duplicate(&self) -> (r: SearchTarget)
        ensures
            r@ == self@,
    {
        match self {
            SearchTarget::All => SearchTarget::All,
            SearchTarget::RootDevices => SearchTarget::RootDevices,
            SearchTarget::Device(d) => SearchTarget::Device(d.clone()),
            SearchTarget::DeviceType(t) => SearchTarget::DeviceType(t.clone()),
            SearchTarget::ServiceType(t) => SearchTarget::ServiceType(t.clone()),
            SearchTarget::DomainDeviceType(d, t) => SearchTarget::DomainDeviceType(
                d.clone(),
                t.clone(),
            ),
            SearchTarget::DomainServiceType(d, t) => SearchTarget::DomainServiceType(
                d.clone(),
                t.clone(),
            ),
        }
    }

    /// Shape equality: the same variant with the same strings.
    pub fn same_target(&self, other: &SearchTarget) -> (r: bool)
        ensures
            r == (self@ == other@),
    {
        match (self, other) {
            (SearchTarget::All, SearchTarget::All) => true,
            (SearchTarget::RootDevices, SearchTarget::RootDevices) => true,
            (SearchTarget::Device(a), SearchTarget::Device(b)) => str_eq(a.as_str(), b.as_str()),
            (SearchTarget::DeviceType(a), SearchTarget::DeviceType(b)) => str_eq(
                a.as_str(),
                b.as_str(),
            ),
            (SearchTarget::ServiceType(a), SearchTarget::ServiceType(b)) => str_eq(
                a.as_str(),
                b.as_str(),
            ),
            (SearchTarget::DomainDeviceType(a, x), SearchTarget::DomainDeviceType(b, y)) => str_eq(
                a.as_str(),
                b.as_str(),
            ) && str_eq(x.as_str(), y.as_str()),
            (SearchTarget::DomainServiceType(a, x), SearchTarget::DomainServiceType(b, y)) => str_eq(
                a.as_str(),
                b.as_str(),
            ) && str_eq(x.as_str(), y.as_str()),
            _ => false,
        }
    }

    /// Encodes this target in its canonical string form.
    pub fn encode(&self) -> (r: String)
        ensures
            r@ == spec_encode(self@),
    {
        match self {
            SearchTarget::All => "ssdp::all".to_owned(),
            SearchTarget::RootDevices => "upnp:rootdevice".to_owned(),
            SearchTarget::Device(d) => "uuid:".to_owned().concat(d.as_str()),
            SearchTarget::DeviceType(t) => "urn:schemas-upnp-org:device:".to_owned().concat(
                t.as_str(),
            ),
            SearchTarget::ServiceType(t) => "urn:schemas-upnp-org:service:".to_owned().concat(
                t.as_str(),
            ),
            SearchTarget::DomainDeviceType(d, t) => "urn:".to_owned().concat(d.as_str()).concat(
                ":device:",
            ).concat(t.as_str()),
            SearchTarget::DomainServiceType(d, t) => "urn:".to_owned().concat(d.as_str()).concat(
                ":service:",
            ).concat(t.as_str()),
        }
    }

    /// Decodes a canonical string form back into a search target. Strings in
    /// none of the recognized forms are rejected as invalid `ST` values.
    pub fn decode(s: &str) -> (r: Result<SearchTarget, Error>)
        ensures
            match r {
                Ok(t) => spec_decode(s@) == Some(t@),
                Err(e) => spec_decode(s@) is None && crate::is_invalid_field(e, "ST"@),
            },
    {
        if str_eq(s, "ssdp::all") {
            Ok(SearchTarget::All)
        } else if str_eq(s, "upnp:rootdevice") {
            Ok(SearchTarget::RootDevices)
        } else if starts_with(s, "uuid:") {
            proof {
                reveal_strlit("uuid:");
            }
            Ok(SearchTarget::Device(suffix_from(s, 5)))
        } else if starts_with(s, "urn:schemas-upnp-org:device:") {
            proof {
                reveal_strlit("urn:schemas-upnp-org:device:");
            }
            Ok(SearchTarget::DeviceType(suffix_from(s, 28)))
        } else if starts_with(s, "urn:schemas-upnp-org:service:") {
            proof {
                reveal_strlit("urn:schemas-upnp-org:service:");
            }
            Ok(SearchTarget::ServiceType(suffix_from(s, 29)))
        } else {
            Err(Error::InvalidFieldValue("ST".to_owned()))
        }
    }
}

/// Law: decoding inverts encoding on every variant that has a decoding.
pub proof fn lemma_decode_encode_roundtrip(t: TargetView)
    requires
        is_decodable_variant(t),
    ensures
        spec_decode(spec_encode(t)) == Some(t),
{
    reveal_strlit("ssdp::all");
    reveal_strlit("upnp:rootdevice");
    reveal_strlit("uuid:");
    reveal_strlit("urn:schemas-upnp-org:device:");
    reveal_strlit("urn:schemas-upnp-org:service:");
    let e = spec_encode(t);
    match t {
        TargetView::All => {
            assert(e == "ssdp::all"@);
        },
        TargetView::RootDevices => {
            assert(e[0] == 'u');
            assert(e != "ssdp::all"@);
            assert(spec_decode(e) == Some(TargetView::RootDevices));
        },
        TargetView::Device(d) => {
            assert(e == "uuid:"@ + d);
            assert(e[0] == 'u');
            assert(e[1] == 'u');
            assert(e != "ssdp::all"@);
            assert(e != "upnp:rootdevice"@);
            assert(e.subrange(0, 5) =~= "uuid:"@);
            assert(is_prefix_of("uuid:"@, e));
            assert(e.skip(5) =~= d);
        },
        TargetView::DeviceType(ty) => {
            assert(e == "urn:schemas-upnp-org:device:"@ + ty);
            assert(e[0] == 'u');
            assert(e[1] == 'r');
            assert(e != "ssdp::all"@);
            assert(e != "upnp:rootdevice"@);
            assert(!is_prefix_of("uuid:"@, e)) by {
                if is_prefix_of("uuid:"@, e) {
                    assert(e.subrange(0, 5)[1] == e[1]);
                }
            }
            assert(e.subrange(0, 28) =~= "urn:schemas-upnp-org:device:"@);
            assert(is_prefix_of("urn:schemas-upnp-org:device:"@, e));
            assert(e.skip(28) =~= ty);
        },
        TargetView::ServiceType(ty) => {
            assert(e == "urn:schemas-upnp-org:service:"@ + ty);
            assert(e[0] == 'u');
            assert(e[1] == 'r');
            assert(e != "ssdp::all"@);
            assert(e != "upnp:rootdevice"@);
            assert(!is_prefix_of("uuid:"@, e)) by {
                if is_prefix_of("uuid:"@, e) {
                    assert(e.subrange(0, 5)[1] == e[1]);
                }
            }
            assert(e[21] == 's');
            assert(!is_prefix_of("urn:schemas-upnp-org:device:"@, e)) by {
                if is_prefix_of("urn:schemas-upnp-org:device:"@, e) {
                    assert(e.subrange(0, 28)[21] == e[21]);
                }
            }
            assert(e.subrange(0, 29) =~= "urn:schemas-upnp-org:service:"@);
            assert(is_prefix_of("urn:schemas-upnp-org:service:"@, e));
            assert(e.skip(29) =~= ty);
        },
        _ => {},
    }
}

} // verus!
