//! Which hooks on reverse mappings a kernel offers.
use vstd::prelude::*;

use crate::memtrack::kernel::KernelVersion;

verus! {

/// How much of the set of hooks on the reverse mappings of folios can be attached.
///
/// The hooks account for pages that are added and removed, so a level is attached as a whole:
/// additions without removals would make the memory of a process seem to grow for ever.
#[derive(Debug, Copy, Clone, PartialEq, Eq, Structural)]
pub enum RmapSupport {
    /// No hooks.
    Unsupported,
    /// The hooks on the lower two levels of page tables, from kernel 6.8 on.
    Core,
    /// Those on the third level as well, from kernel 6.15 on.
    CoreAndPud,
}

/// The support of a release.
pub open spec fn support_of(version: KernelVersion) -> RmapSupport {
    if version.before(KernelVersion { major: 6, minor: 8 }) {
        RmapSupport::Unsupported
    } else if version.before(KernelVersion { major: 6, minor: 15 }) {
        RmapSupport::Core
    } else {
        RmapSupport::CoreAndPud
    }
}

impl RmapSupport {
    /// How much there is, from nothing to everything.
    pub open spec fn level(self) -> int {
        match self {
            RmapSupport::Unsupported => 0,
            RmapSupport::Core => 1,
            RmapSupport::CoreAndPud => 2,
        }
    }

    /// What the running kernel offers: nothing where its release, `current`, cannot be read.
    pub fn detect(current: Option<KernelVersion>) -> (r: Self)
        ensures
            match current {
                Some(version) => r == support_of(version),
                None => r is Unsupported,
            },
    {
        match current {
            Some(version) => Self::for_version(version),
            None => RmapSupport::Unsupported,
        }
    }

    /// What a release offers.
    pub fn for_version(version: KernelVersion) -> (r: Self)
        ensures
            r == support_of(version),
    {
        if version.is_before(KernelVersion::new(6, 8)) {
            return RmapSupport::Unsupported;
        }
        if version.is_before(KernelVersion::new(6, 15)) {
            return RmapSupport::Core;
        }
        RmapSupport::CoreAndPud
    }
}

/// A later release offers no less.
pub proof fn law_later_kernels_offer_more(a: KernelVersion, b: KernelVersion)
    requires
        a.before(b),
    ensures
        support_of(a).level() <= support_of(b).level(),
{
}

/// The hooks on the lower two levels of page tables came with kernel 6.8, those on the third with
/// 6.15. Without a release that can be read none are used.
pub proof fn law_hooks_came_with_releases(current: Option<KernelVersion>, r: RmapSupport)
    requires
        call_ensures(RmapSupport::detect, (current,), r),
    ensures
        current is None ==> r is Unsupported,
        current matches Some(v) ==> (r is Unsupported <==> v.major < 6 || v.major == 6 && v.minor
            < 8),
        current matches Some(v) ==> (r is CoreAndPud <==> v.major > 6 || v.major == 6 && v.minor
            >= 15),
{
}

} // verus!
