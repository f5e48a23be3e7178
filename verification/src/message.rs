//! Request construction: turns validated options into the ordered list of
//! protocol headers a search request carries. The transport collaborator
//! sends the result and collects the raw responses.
use vstd::prelude::*;

use crate::options::{valid_options, validation_error, Options, OptionsView};
use crate::target::spec_encode;
use crate::text::{dec_str, u64_to_dec};
use crate::version::SpecVersion;
use crate::Error;

verus! {

/// One protocol header: a name and its value.
#[derive(Clone, Debug)]
pub struct Header {
    pub name: String,
    pub value: String,
}

/// The mathematical shape of a header.
pub struct HeaderView {
    pub name: Seq<char>,
    pub value: Seq<char>,
}

impl View for Header {
    type V = HeaderView;

    open spec fn view(&self) -> HeaderView {
        HeaderView { name: self.name@, value: self.value@ }
    }
}

impl DeepView for Header {
    type V = HeaderView;

    open spec fn deep_view(&self) -> HeaderView {
        self.view()
    }
}

impl Header {
    /// An owned copy of this header.
    pub fn duplicate(&self) -> (r: Header)
        ensures
            r == *self,
    {
        Header { name: self.name.clone(), value: self.value.clone() }
    }

    /// Builds a header from a name and a value.
    pub fn new(name: &str, value: String) -> (r: Header)
        ensures
            r@.name == name@,
            r@.value == value@,
    {
        Header { name: name.to_owned(), value }
    }
}

/// A header with both parts given as sequences.
pub open spec fn hv(name: Seq<char>, value: Seq<char>) -> HeaderView {
    HeaderView { name, value }
}

/// The revision part of the user-agent value.
pub open spec fn spec_version_str(v: SpecVersion) -> Seq<char> {
    match v {
        SpecVersion::V10 => "1.0"@,
        SpecVersion::V11 => "1.1"@,
        SpecVersion::V20 => "2.0"@,
    }
}

/// The user-agent value: the protocol name and revision, then the product
/// name and version when one was given.
pub open spec fn spec_user_agent(v: SpecVersion, product: Option<Seq<char>>) -> Seq<char> {
    let head = "UPnP/"@ + spec_version_str(v);
    match product {
        Some(p) => head + " "@ + p,
        None => head,
    }
}

/// Renders the revision part of the user-agent value.
fn version_str(v: SpecVersion) -> (r: &'static str)
    ensures
        r@ == spec_version_str(v),
{
    match v {
        SpecVersion::V10 => "1.0",
        SpecVersion::V11 => "1.1",
        SpecVersion::V20 => "2.0",
    }
}

/// Renders the user-agent value.
pub fn make_user_agent(v: SpecVersion, product: &Option<String>) -> (r: String)
    ensures
        r@ == spec_user_agent(
            v,
            match product {
                Some(p) => Some(p@),
                None => None,
            },
        ),
{
    let mut s = "UPnP/".to_owned();
    s.append(version_str(v));
    match product {
        Some(p) => {
            s.append(" ");
            s.append(p.as_str());
        },
        None => {},
    }
    s
}

/// The headers of a multicast search request built from `o`: the four
/// headers of revision 1.0, the user-agent from revision 1.1 on, and the
/// control-point headers under revision 2.0. Meaningful when `o` carries a
/// control point wherever revision 2.0 asks for one.
pub open spec fn spec_multicast_headers(o: OptionsView) -> Seq<HeaderView> {
    let base = seq![
        hv("HOST"@, "239.255.255.250:1900"@),
        hv("MAN"@, "\"ssdp:discover\""@),
        hv("MX"@, dec_str(o.max_wait_time as int)),
        hv("ST"@, spec_encode(o.search_target)),
    ];
    let with_ua = if o.spec_version.spec_at_least(SpecVersion::V11) {
        base.push(hv("USER-AGENT"@, spec_user_agent(o.spec_version, o.product_and_version)))
    } else {
        base
    };
    if o.spec_version.spec_at_least(SpecVersion::V20) {
        let cp = o.control_point->Some_0;
        let a = with_ua.push(hv("CPFN.UPNP.ORG"@, cp.friendly_name));
        let b = match cp.port {
            Some(p) => a.push(hv("TCPPORT.UPNP.ORG"@, dec_str(p as int))),
            None => a,
        };
        match cp.uuid {
            Some(u) => b.push(hv("CPUUID.UPNP.ORG"@, u)),
            None => b,
        }
    } else {
        with_ua
    }
}

/// The headers of a unicast search request built from `o`: as the multicast
/// form of revision 1.1, but without the wait-time header.
pub open spec fn spec_unicast_headers(o: OptionsView) -> Seq<HeaderView> {
    seq![
        hv("HOST"@, "239.255.255.250:1900"@),
        hv("MAN"@, "\"ssdp:discover\""@),
        hv("ST"@, spec_encode(o.search_target)),
        hv("USER-AGENT"@, spec_user_agent(o.spec_version, o.product_and_version)),
    ]
}

/// Validates `o` and, on success, builds the headers of a multicast search
/// request. The transport collaborator takes the result, sends it to the
/// multicast group, and collects the raw responses within the wait window.
pub fn search_once(options: &Options) -> (r: Result<Vec<Header>, Error>)
    ensures
        match r {
            Ok(hs) => valid_options(options@) && hs.deep_view() == spec_multicast_headers(
                options@,
            ),
            Err(e) => validation_error(options@, e),
        },
{
    if let Err(e) = options.validate() {
        return Err(e);
    }
    let mut hs: Vec<Header> = Vec::new();
    hs.push(Header::new("HOST", "239.255.255.250:1900".to_owned()));
    hs.push(Header::new("MAN", "\"ssdp:discover\"".to_owned()));
    hs.push(Header::new("MX", u64_to_dec(options.max_wait_time as u64)));
    hs.push(Header::new("ST", options.search_target.encode()));
    if options.spec_version.at_least(SpecVersion::V11) {
        hs.push(
            Header::new(
                "USER-AGENT",
                make_user_agent(options.spec_version, &options.product_and_version),
            ),
        );
    }
    if options.spec_version.at_least(SpecVersion::V20) {
        match &options.control_point {
            Some(cp) => {
                hs.push(Header::new("CPFN.UPNP.ORG", cp.friendly_name.clone()));
                if let Some(port) = cp.port {
                    hs.push(Header::new("TCPPORT.UPNP.ORG", u64_to_dec(port as u64)));
                }
                if let Some(uuid) = &cp.uuid {
                    hs.push(Header::new("CPUUID.UPNP.ORG", uuid.clone()));
                }
            },
            None => {
                // Defence in depth: validation already requires a control
                // point under revision 2.0, so this arm cannot be reached.
                assert(false);
                return Err(Error::MissingRequiredField("control_point".to_owned()));
            },
        }
    }
    proof {
        assert(hs.deep_view() =~= spec_multicast_headers(options@));
    }
    Ok(hs)
}

/// Validates `o` and, on success, builds the headers of a unicast search
/// request for one chosen device. Unicast search arrived with revision 1.1,
/// so earlier revisions are unsupported. The transport collaborator takes
/// the result and sends it to the device's own address.
pub fn search_once_to_device(options: &Options) -> (r: Result<Vec<Header>, Error>)
    ensures
        match r {
            Ok(hs) => valid_options(options@) && options@.spec_version.spec_at_least(
                SpecVersion::V11,
            ) && hs.deep_view() == spec_unicast_headers(options@),
            Err(Error::Unsupported) => valid_options(options@)
                && !options@.spec_version.spec_at_least(SpecVersion::V11),
            Err(e) => validation_error(options@, e),
        },
{
    if let Err(e) = options.validate() {
        return Err(e);
    }
    if options.spec_version.at_least(SpecVersion::V11) {
        let mut hs: Vec<Header> = Vec::new();
        hs.push(Header::new("HOST", "239.255.255.250:1900".to_owned()));
        hs.push(Header::new("MAN", "\"ssdp:discover\"".to_owned()));
        hs.push(Header::new("ST", options.search_target.encode()));
        hs.push(
            Header::new(
                "USER-AGENT",
                make_user_agent(options.spec_version, &options.product_and_version),
            ),
        );
        proof {
            assert(hs.deep_view() =~= spec_unicast_headers(options@));
        }
        Ok(hs)
    } else {
        Err(Error::Unsupported)
    }
}

} // verus!
