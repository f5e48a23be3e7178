//! Strict parsing of raw search responses into typed records. The framing
//! collaborator hands in each raw response as a list of header name/value
//! pairs with the names in their canonical upper-case form.
use vstd::prelude::*;

use crate::message::{Header, HeaderView};
use crate::target::{SearchTarget, TargetView};
use crate::text::{dec_val, is_digits, parse_u64, str_eq};
use crate::Error;

verus! {

/// The value of the last header with the given name, if any. Later entries
/// win, as they do in the framing collaborator's header container.
pub open spec fn lookup(hs: Seq<HeaderView>, name: Seq<char>) -> Option<Seq<char>>
    decreases hs.len(),
{
    if hs.len() == 0 {
        None
    } else if hs.last().name == name {
        Some(hs.last().value)
    } else {
        lookup(hs.drop_last(), name)
    }
}

/// Finds the value of the last header with the given name.
pub fn lookup_value(hs: &Vec<Header>, name: &str) -> (r: Option<String>)
    ensures
        match r {
            Some(v) => lookup(hs.deep_view(), name@) == Some(v@),
            None => lookup(hs.deep_view(), name@) is None,
        },
{
    let ghost dv = hs.deep_view();
    let mut i: usize = hs.len();
    proof {
        assert(dv.take(hs.len() as int) =~= dv);
    }
    while i > 0
        invariant
            i <= hs.len(),
            dv == hs.deep_view(),
            hs.len() == dv.len(),
            lookup(dv, name@) == lookup(dv.take(i as int), name@),
        decreases i,
    {
        i = i - 1;
        proof {
            assert(dv.take(i + 1).drop_last() =~= dv.take(i as int));
            assert(dv.take(i + 1).last() == dv[i as int]);
        }
        if str_eq(hs[i].name.as_str(), name) {
            return Some(hs[i].value.clone());
        }
    }
    proof {
        assert(dv.take(0) =~= Seq::<HeaderView>::empty());
    }
    None
}

/// Holds of the header names every response must carry.
pub open spec fn is_required_name(n: Seq<char>) -> bool {
    ||| n == "BOOTID.UPNP.ORG"@
    ||| n == "CACHE-CONTROL"@
    ||| n == "DATE"@
    ||| n == "EXT"@
    ||| n == "LOCATION"@
    ||| n == "SERVER"@
    ||| n == "ST"@
    ||| n == "USN"@
}

/// Tests whether `n` is a required header name.
pub fn check_required_name(n: &str) -> (r: bool)
    ensures
        r == is_required_name(n@),
{
    str_eq(n, "BOOTID.UPNP.ORG") || str_eq(n, "CACHE-CONTROL") || str_eq(n, "DATE") || str_eq(
        n,
        "EXT",
    ) || str_eq(n, "LOCATION") || str_eq(n, "SERVER") || str_eq(n, "ST") || str_eq(n, "USN")
}

/// The first required header that is absent, in the fixed check order.
pub open spec fn missing_header(hs: Seq<HeaderView>) -> Option<Seq<char>> {
    if lookup(hs, "BOOTID.UPNP.ORG"@) is None {
        Some("BOOTID.UPNP.ORG"@)
    } else if lookup(hs, "CACHE-CONTROL"@) is None {
        Some("CACHE-CONTROL"@)
    } else if lookup(hs, "DATE"@) is None {
        Some("DATE"@)
    } else if lookup(hs, "EXT"@) is None {
        Some("EXT"@)
    } else if lookup(hs, "LOCATION"@) is None {
        Some("LOCATION"@)
    } else if lookup(hs, "SERVER"@) is None {
        Some("SERVER"@)
    } else if lookup(hs, "ST"@) is None {
        Some("ST"@)
    } else if lookup(hs, "USN"@) is None {
        Some("USN"@)
    } else {
        None
    }
}

/// `hs` without the headers of the given name.
pub open spec fn remove_name(hs: Seq<HeaderView>, n: Seq<char>) -> Seq<HeaderView>
    decreases hs.len(),
{
    if hs.len() == 0 {
        Seq::empty()
    } else {
        let rest = remove_name(hs.drop_last(), n);
        if hs.last().name == n {
            rest
        } else {
            rest.push(hs.last())
        }
    }
}

/// The headers outside the required set, one entry per name; on a repeated
/// name the last value wins.
pub open spec fn extras(hs: Seq<HeaderView>) -> Seq<HeaderView>
    decreases hs.len(),
{
    if hs.len() == 0 {
        Seq::empty()
    } else {
        let rest = extras(hs.drop_last());
        let h = hs.last();
        if is_required_name(h.name) {
            rest
        } else {
            remove_name(rest, h.name).push(h)
        }
    }
}

/// Removes the headers of name `n` from `hs`.
fn remove_name_exec(hs: &Vec<Header>, n: &str) -> (r: Vec<Header>)
    ensures
        r.deep_view() == remove_name(hs.deep_view(), n@),
{
    let ghost dv = hs.deep_view();
    let mut out: Vec<Header> = Vec::new();
    let mut i: usize = 0;
    while i < hs.len()
        invariant
            i <= hs.len(),
            dv == hs.deep_view(),
            hs.len() == dv.len(),
            out.deep_view() == remove_name(dv.take(i as int), n@),
        decreases hs.len() - i,
    {
        proof {
            assert(dv.take(i + 1).drop_last() =~= dv.take(i as int));
            assert(dv.take(i + 1).last() == dv[i as int]);
        }
        if !str_eq(hs[i].name.as_str(), n) {
            out.push(hs[i].duplicate());
            proof {
                assert(out.deep_view() =~= remove_name(dv.take(i + 1), n@));
            }
        }
        i = i + 1;
    }
    proof {
        assert(dv.take(hs.len() as int) =~= dv);
    }
    out
}

/// Collects the headers outside the required set, later values overwriting
/// earlier ones of the same name.
fn extras_exec(hs: &Vec<Header>) -> (r: Vec<Header>)
    ensures
        r.deep_view() == extras(hs.deep_view()),
{
    let ghost dv = hs.deep_view();
    let mut out: Vec<Header> = Vec::new();
    let mut i: usize = 0;
    while i < hs.len()
        invariant
            i <= hs.len(),
            dv == hs.deep_view(),
            hs.len() == dv.len(),
            out.deep_view() == extras(dv.take(i as int)),
        decreases hs.len() - i,
    {
        proof {
            assert(dv.take(i + 1).drop_last() =~= dv.take(i as int));
            assert(dv.take(i + 1).last() == dv[i as int]);
        }
        if !check_required_name(hs[i].name.as_str()) {
            let mut cleaned = remove_name_exec(&out, hs[i].name.as_str());
            cleaned.push(hs[i].duplicate());
            out = cleaned;
            proof {
                assert(out.deep_view() =~= extras(dv.take(i + 1)));
            }
        }
        i = i + 1;
    }
    proof {
        assert(dv.take(hs.len() as int) =~= dv);
    }
    out
}

/// One parsed device or service advertisement.
#[derive(Clone, Debug)]
pub struct Response {
    /// How long, in seconds, the advertisement stays valid.
    pub max_age: u64,
    /// The response's date header value.
    pub date: String,
    /// The responding device's server description.
    pub server: String,
    /// Where the device description can be fetched.
    pub location: String,
    /// The scope of the originating search; a response does not self-report
    /// its scope, so the caller passes the target it searched for.
    pub search_target: SearchTarget,
    /// The advertisement's unique service name, the cache merge key.
    pub service_name: String,
    /// The responder's boot counter.
    pub boot_id: u64,
    /// Every header outside the required set, keys unique.
    pub other_headers: Vec<Header>,
}

/// The mathematical shape of a parsed response.
pub struct ResponseView {
    pub max_age: u64,
    pub date: Seq<char>,
    pub server: Seq<char>,
    pub location: Seq<char>,
    pub search_target: TargetView,
    pub service_name: Seq<char>,
    pub boot_id: u64,
    pub other_headers: Seq<HeaderView>,
}

impl View for Response {
    type V = ResponseView;

    open spec fn view(&self) -> ResponseView {
        ResponseView {
            max_age: self.max_age,
            date: self.date@,
            server: self.server@,
            location: self.location@,
            search_target: self.search_target@,
            service_name: self.service_name@,
            boot_id: self.boot_id,
            other_headers: self.other_headers.deep_view(),
        }
    }
}

impl DeepView for Response {
    type V = ResponseView;

    open spec fn deep_view(&self) -> ResponseView {
        self.view()
    }
}

/// What parsing a raw response yields: a record, or the name of the header
/// that is missing or malformed.
pub enum ParseOutcome {
    Parsed(ResponseView),
    Missing(Seq<char>),
    Invalid(Seq<char>),
}

/// The parse of `hs` under originating target `t`: the required headers must
/// all be present, `EXT` must be empty, the boot counter must be a decimal
/// number, the cache-control value must carry a `max-age` directive, and the
/// date, server, location and service-name values must be non-empty.
pub open spec fn spec_parse(hs: Seq<HeaderView>, t: TargetView) -> ParseOutcome {
    if missing_header(hs) is Some {
        ParseOutcome::Missing(missing_header(hs)->Some_0)
    } else if (lookup(hs, "EXT"@)->Some_0).len() != 0 {
        ParseOutcome::Invalid("EXT"@)
    } else {
        let boot = lookup(hs, "BOOTID.UPNP.ORG"@)->Some_0;
        if !(boot.len() > 0 && is_digits(boot) && dec_val(boot) <= u64::MAX) {
            ParseOutcome::Invalid("BOOTID.UPNP.ORG"@)
        } else {
            let cc = lookup(hs, "CACHE-CONTROL"@)->Some_0;
            let cap = crate::maxage::spec_max_age(cc);
            if !(cap is Some && dec_val(cap->Some_0) <= u64::MAX) {
                ParseOutcome::Invalid("CACHE-CONTROL"@)
            } else if (lookup(hs, "DATE"@)->Some_0).len() == 0 {
                ParseOutcome::Invalid("DATE"@)
            } else if (lookup(hs, "SERVER"@)->Some_0).len() == 0 {
                ParseOutcome::Invalid("SERVER"@)
            } else if (lookup(hs, "LOCATION"@)->Some_0).len() == 0 {
                ParseOutcome::Invalid("LOCATION"@)
            } else if (lookup(hs, "USN"@)->Some_0).len() == 0 {
                ParseOutcome::Invalid("USN"@)
            } else {
                ParseOutcome::Parsed(
                    ResponseView {
                        max_age: dec_val(cap->Some_0) as u64,
                        date: lookup(hs, "DATE"@)->Some_0,
                        server: lookup(hs, "SERVER"@)->Some_0,
                        location: lookup(hs, "LOCATION"@)->Some_0,
                        search_target: t,
                        service_name: lookup(hs, "USN"@)->Some_0,
                        boot_id: dec_val(boot) as u64,
                        other_headers: extras(hs),
                    },
                )
            }
        }
    }
}

/// An owned copy of a header list, entry for entry.
pub fn copy_headers(hs: &Vec<Header>) -> (r: Vec<Header>)
    ensures
        r.deep_view() == hs.deep_view(),
{
    let mut out: Vec<Header> = Vec::new();
    let mut i: usize = 0;
    while i < hs.len()
        invariant
            i <= hs.len(),
            out@.len() == i,
            out.deep_view() == hs.deep_view().take(i as int),
        decreases hs.len() - i,
    {
        out.push(hs[i].duplicate());
        proof {
            assert(out.deep_view() =~= hs.deep_view().take(i + 1));
        }
        i = i + 1;
    }
    proof {
        assert(hs.deep_view().take(hs.len() as int) =~= hs.deep_view());
    }
    out
}

impl Response {
    /// An owned copy of this record, with the same shape.
    pub fn duplicate(&self) -> (r: Response)
        ensures
            r@ == self@,
    {
        Response {
            max_age: self.max_age,
            date: self.date.clone(),
            server: self.server.clone(),
            location: self.location.clone(),
            search_target: self.search_target.duplicate(),
            service_name: self.service_name.clone(),
            boot_id: self.boot_id,
            other_headers: copy_headers(&self.other_headers),
        }
    }

    /// Parses one raw response, handed in as its list of headers, into a
    /// typed record. `search_target` is the scope of the originating search,
    /// which the record carries; the response itself does not report it. A
    /// failure names the missing or malformed header and leaves the other
    /// responses of a batch unaffected.
    pub fn parse(headers: &Vec<Header>, search_target: &SearchTarget) -> (r: Result<
        Response,
        Error,
    >)
        ensures
            match r {
                Ok(resp) => spec_parse(headers.deep_view(), search_target@) == ParseOutcome::Parsed(
                    resp@,
                ),
                Err(e) => match spec_parse(headers.deep_view(), search_target@) {
                    ParseOutcome::Parsed(_) => false,
                    ParseOutcome::Missing(n) => crate::is_missing_field(e, n),
                    ParseOutcome::Invalid(n) => crate::is_invalid_field(e, n),
                },
            },
    {
        let boot_value = match lookup_value(headers, "BOOTID.UPNP.ORG") {
            Some(v) => v,
            None => {
                return Err(Error::MissingRequiredField("BOOTID.UPNP.ORG".to_owned()));
            },
        };
        let cc_value = match lookup_value(headers, "CACHE-CONTROL") {
            Some(v) => v,
            None => {
                return Err(Error::MissingRequiredField("CACHE-CONTROL".to_owned()));
            },
        };
        let date = match lookup_value(headers, "DATE") {
            Some(v) => v,
            None => {
                return Err(Error::MissingRequiredField("DATE".to_owned()));
            },
        };
        let ext_value = match lookup_value(headers, "EXT") {
            Some(v) => v,
            None => {
                return Err(Error::MissingRequiredField("EXT".to_owned()));
            },
        };
        let location = match lookup_value(headers, "LOCATION") {
            Some(v) => v,
            None => {
                return Err(Error::MissingRequiredField("LOCATION".to_owned()));
            },
        };
        let server = match lookup_value(headers, "SERVER") {
            Some(v) => v,
            None => {
                return Err(Error::MissingRequiredField("SERVER".to_owned()));
            },
        };
        if lookup_value(headers, "ST").is_none() {
            return Err(Error::MissingRequiredField("ST".to_owned()));
        }
        let service_name = match lookup_value(headers, "USN") {
            Some(v) => v,
            None => {
                return Err(Error::MissingRequiredField("USN".to_owned()));
            },
        };
        if !ext_value.as_str().is_empty() {
            return Err(Error::InvalidFieldValue("EXT".to_owned()));
        }
        let boot_id = match parse_u64(boot_value.as_str()) {
            Some(n) => n,
            None => {
                return Err(Error::InvalidFieldValue("BOOTID.UPNP.ORG".to_owned()));
            },
        };
        let max_age = match crate::maxage::find_max_age(cc_value.as_str()) {
            Some(n) => n,
            None => {
                return Err(Error::InvalidFieldValue("CACHE-CONTROL".to_owned()));
            },
        };
        if date.as_str().is_empty() {
            return Err(Error::InvalidFieldValue("DATE".to_owned()));
        }
        if server.as_str().is_empty() {
            return Err(Error::InvalidFieldValue("SERVER".to_owned()));
        }
        if location.as_str().is_empty() {
            return Err(Error::InvalidFieldValue("LOCATION".to_owned()));
        }
        if service_name.as_str().is_empty() {
            return Err(Error::InvalidFieldValue("USN".to_owned()));
        }
        let other_headers = extras_exec(headers);
        Ok(
            Response {
                max_age,
                date,
                server,
                location,
                search_target: search_target.duplicate(),
                service_name,
                boot_id,
                other_headers,
            },
        )
    }
}

} // verus!
