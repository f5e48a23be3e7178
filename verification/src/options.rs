//! Search configuration and its validation against the version rules.
use vstd::prelude::*;

use crate::target::{SearchTarget, TargetView};
use crate::version::SpecVersion;
use crate::Error;

verus! {

/// The identity of the client performing discovery; required metadata under
/// the protocol's 2.0 revision.
#[derive(Clone, Debug)]
pub struct ControlPoint {
    /// A human-readable name for the client; must not be empty when used.
    pub friendly_name: String,
    /// The TCP port the client listens on, when advertised.
    pub port: Option<u16>,
    /// The client's unique identifier, when advertised.
    pub uuid: Option<String>,
}

/// The mathematical shape of a control point.
pub struct ControlPointView {
    pub friendly_name: Seq<char>,
    pub port: Option<u16>,
    pub uuid: Option<Seq<char>>,
}

impl View for ControlPoint {
    type V = ControlPointView;

    open spec fn view(&self) -> ControlPointView {
        ControlPointView {
            friendly_name: self.friendly_name@,
            port: self.port,
            uuid: match self.uuid {
                Some(ref u) => Some(u@),
                None => None,
            },
        }
    }
}

/// Per-search configuration, built by the caller and validated once before
/// any request is constructed.
#[derive(Clone, Debug)]
pub struct Options {
    /// The protocol revision used to construct requests and check responses.
    pub spec_version: SpecVersion,
    /// The scope of the search.
    pub search_target: SearchTarget,
    /// A specific local interface for the transport to bind to.
    pub network_interface: Option<String>,
    /// The longest time, in seconds, devices may wait before responding; also
    /// the transport read timeout. Must lie in `[1, 120]`.
    pub max_wait_time: u8,
    /// The `ProductName/Version` part of the user-agent value, when given.
    pub product_and_version: Option<String>,
    /// The client identity; required under the 2.0 revision, unused below it.
    pub control_point: Option<ControlPoint>,
}

/// The mathematical shape of the options.
pub struct OptionsView {
    pub spec_version: SpecVersion,
    pub search_target: TargetView,
    pub network_interface: Option<Seq<char>>,
    pub max_wait_time: u8,
    pub product_and_version: Option<Seq<char>>,
    pub control_point: Option<ControlPointView>,
}

impl View for Options {
    type V = OptionsView;

    open spec fn view(&self) -> OptionsView {
        OptionsView {
            spec_version: self.spec_version,
            search_target: self.search_target@,
            network_interface: match self.network_interface {
                Some(ref s) => Some(s@),
                None => None,
            },
            max_wait_time: self.max_wait_time,
            product_and_version: match self.product_and_version {
                Some(ref s) => Some(s@),
                None => None,
            },
            control_point: match self.control_point {
                Some(ref cp) => Some(cp@),
                None => None,
            },
        }
    }
}

/// Holds when `s` has the `ProductName/Version` shape: a separating `/` with
/// at least one character on each side.
pub open spec fn is_product_and_version(s: Seq<char>) -> bool {
    exists|i: int| 1 <= i < s.len() - 1 && #[trigger] s[i] == '/'
}

/// Tests the `ProductName/Version` shape.
pub fn check_product_and_version(s: &str) -> (r: bool)
    ensures
        r == is_product_and_version(s@),
{
    let len = s.unicode_len();
    let mut i: usize = 1;
    if len < 3 {
        assert(!is_product_and_version(s@));
        return false;
    }
    while i + 1 < len
        invariant
            1 <= i <= len - 1,
            3 <= len == s@.len(),
            forall|j: int| 1 <= j < i ==> #[trigger] s@[j] != '/',
        decreases len - i,
    {
        if s.get_char(i) == '/' {
            assert(is_product_and_version(s@));
            return true;
        }
        i = i + 1;
    }
    assert(!is_product_and_version(s@));
    false
}

/// The wait-time rule: `max_wait_time` lies in `[1, 120]`.
pub open spec fn wait_time_ok(o: OptionsView) -> bool {
    1 <= o.max_wait_time <= 120
}

/// The product rule: from revision 1.1 on, a given `product_and_version`
/// has the `ProductName/Version` shape.
pub open spec fn product_ok(o: OptionsView) -> bool {
    o.spec_version.spec_at_least(SpecVersion::V11) ==> match o.product_and_version {
        Some(p) => is_product_and_version(p),
        None => true,
    }
}

/// The control-point rule: under revision 2.0 a control point is present and
/// its friendly name is not empty.
pub open spec fn control_point_ok(o: OptionsView) -> bool {
    o.spec_version.spec_at_least(SpecVersion::V20) ==> match o.control_point {
        Some(cp) => cp.friendly_name.len() > 0,
        None => false,
    }
}

/// Holds when the options pass every validation rule.
pub open spec fn valid_options(o: OptionsView) -> bool {
    wait_time_ok(o) && product_ok(o) && control_point_ok(o)
}

/// The exact error validation reports for invalid options: the first rule
/// broken, in the fixed check order, names its field.
pub open spec fn validation_error(o: OptionsView, e: crate::Error) -> bool {
    &&& !valid_options(o)
    &&& if !wait_time_ok(o) {
        crate::is_invalid_field(e, "max_wait_time"@)
    } else if !product_ok(o) {
        crate::is_invalid_field(e, "product_and_version"@)
    } else {
        crate::is_invalid_field(e, "control_point"@)
    }
}

impl Options {
    /// The defaults: revision 1.0, root devices, a two-second wait.
    pub fn default() -> (r: Options)
        ensures
            r@.spec_version == SpecVersion::V10,
            r@.search_target == TargetView::RootDevices,
            r@.network_interface is None,
            r@.max_wait_time == 2,
            r@.product_and_version is None,
            r@.control_point is None,
    {
        Options {
            spec_version: SpecVersion::V10,
            search_target: SearchTarget::RootDevices,
            network_interface: None,
            max_wait_time: 2,
            product_and_version: None,
            control_point: None,
        }
    }

    /// The defaults under a chosen protocol revision.
    pub fn new(spec_version: SpecVersion) -> (r: Options)
        ensures
            r@.spec_version == spec_version,
            r@.search_target == TargetView::RootDevices,
            r@.network_interface is None,
            r@.max_wait_time == 2,
            r@.product_and_version is None,
            r@.control_point is None,
    {
        let mut new = Self::default();
        new.spec_version = spec_version;
        new
    }

    /// The defaults under revision 2.0 with the given control point.
    pub fn for_control_point(control_point: ControlPoint) -> (r: Options)
        ensures
            r@.spec_version == SpecVersion::V20,
            r@.search_target == TargetView::RootDevices,
            r@.network_interface is None,
            r@.max_wait_time == 2,
            r@.product_and_version is None,
            r@.control_point == Some(control_point@),
    {
        let mut new = Self::default();
        new.spec_version = SpecVersion::V20;
        new.control_point = Some(control_point);
        new
    }

    /// Checks the options against the version rules: the wait-time range,
    /// the product shape from revision 1.1 on, and the control-point
    /// requirement under revision 2.0. Succeeds exactly on valid options; a
    /// failure names the offending field.
    pub fn validate(&self) -> (r: Result<(), Error>)
        ensures
            match r {
                Ok(()) => valid_options(self@),
                Err(e) => validation_error(self@, e),
            },
    {
        if self.max_wait_time < 1 || self.max_wait_time > 120 {
            return Err(Error::InvalidFieldValue("max_wait_time".to_owned()));
        }
        if self.spec_version.at_least(SpecVersion::V11) {
            if let Some(product) = &self.product_and_version {
                if !check_product_and_version(product.as_str()) {
                    return Err(Error::InvalidFieldValue("product_and_version".to_owned()));
                }
            }
        }
        if self.spec_version.at_least(SpecVersion::V20) {
            match &self.control_point {
                None => {
                    return Err(Error::InvalidFieldValue("control_point".to_owned()));
                },
                Some(control_point) => {
                    if control_point.friendly_name.as_str().is_empty() {
                        return Err(Error::InvalidFieldValue("control_point".to_owned()));
                    }
                },
            }
        }
        Ok(())
    }
}

} // verus!
