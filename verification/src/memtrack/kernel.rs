//! Versions of the kernel.
use vstd::prelude::*;

verus! {

/// A release of the kernel.
#[derive(Debug, Clone, Copy, PartialEq, Eq, Structural)]
pub struct KernelVersion {
    pub major: u32,
    pub minor: u32,
}

impl KernelVersion {
    pub fn new(major: u32, minor: u32) -> (r: Self)
        ensures
            r.major == major,
            r.minor == minor,
    {
        Self { major, minor }
    }

    /// Whether this release came before another.
    pub open spec fn before(self, other: Self) -> bool {
        self.major < other.major || (self.major == other.major && self.minor < other.minor)
    }

    /// Whether this release came before another.
    pub fn is_before(&self, other: KernelVersion) -> (r: bool)
        ensures
            r == self.before(other),
    {
        self.major < other.major || (self.major == other.major && self.minor < other.minor)
    }
}

/// A release came before another if its major number is smaller, whatever the minor ones are, or if
/// only its minor number is.
pub proof fn law_releases_are_ordered(a: KernelVersion, b: KernelVersion, r: bool, back: bool)
    requires
        call_ensures(KernelVersion::is_before, (&a, b), r),
        call_ensures(KernelVersion::is_before, (&b, a), back),
    ensures
        a.major < b.major ==> r,
        a.major == b.major ==> (r <==> a.minor < b.minor),
        !(r && back),
        a != b ==> r || back,
{
}

} // verus!
