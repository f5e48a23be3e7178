//! The protocol revisions a search can speak, ordered so that feature
//! availability can be gated with "at least" comparisons.
use vstd::prelude::*;

verus! {

/// The protocol specification revision in use. Feature availability grows
/// with the revision, so the ordering of the variants matters.
#[derive(Clone, Copy, Debug, PartialEq, Eq, Structural)]
pub enum SpecVersion {
    /// Revision 1.0, the base protocol.
    V10,
    /// Revision 1.1, which added the user-agent header and unicast search.
    V11,
    /// Revision 2.0, which added the control-point headers.
    V20,
}

impl SpecVersion {
    /// The rank of this revision in the version order.
    pub open spec fn ord(self) -> int {
        match self {
            SpecVersion::V10 => 0,
            SpecVersion::V11 => 1,
            SpecVersion::V20 => 2,
        }
    }

    /// Holds when `self` is `other` or a later revision.
    pub open spec fn spec_at_least(self, other: SpecVersion) -> bool {
        self.ord() >= other.ord()
    }

    /// The rank of this revision as a machine integer.
    pub fn rank(self) -> (r: u8)
        ensures
            r as int == self.ord(),
    {
        match self {
            SpecVersion::V10 => 0,
            SpecVersion::V11 => 1,
            SpecVersion::V20 => 2,
        }
    }

    /// Version-gate test: `self` is `other` or a later revision.
    pub fn at_least(self, other: SpecVersion) -> (r: bool)
        ensures
            r == self.spec_at_least(other),
    {
        self.rank() >= other.rank()
    }
}

} // verus!
