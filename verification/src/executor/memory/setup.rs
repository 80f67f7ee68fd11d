//! Setting up the tool that tracks memory.
use caps::Capability;
use vstd::prelude::*;

use crate::bytes::from_utf8_lossy;
use crate::executor::helpers::capabilities::binary_has_capabilities;
use crate::executor::tool_status::{ToolInstallStatus, ToolStatus};
use crate::text::{after_char, join, trim};

verus! {

pub const MEMTRACK_COMMAND: &'static str = "codspeed-memtrack";

/// The capabilities that the tool needs to be run without privileges.
#[derive(Debug, Clone, Copy, PartialEq, Eq, Structural)]
pub enum MemtrackCap {
    DacReadSearch,
    SysAdmin,
    Perfmon,
    Bpf,
    SysResource,
}

impl MemtrackCap {
    /// The bit of the capability.
    pub open spec fn bit(self) -> u64 {
        match self {
            MemtrackCap::DacReadSearch => 0x4,
            MemtrackCap::SysAdmin => 0x20_0000,
            MemtrackCap::Perfmon => 0x40_0000_0000,
            MemtrackCap::Bpf => 0x80_0000_0000,
            MemtrackCap::SysResource => 0x100_0000,
        }
    }

    /// The name of the capability.
    pub open spec fn name(self) -> Seq<char> {
        match self {
            MemtrackCap::DacReadSearch => "CAP_DAC_READ_SEARCH"@,
            MemtrackCap::SysAdmin => "CAP_SYS_ADMIN"@,
            MemtrackCap::Perfmon => "CAP_PERFMON"@,
            MemtrackCap::Bpf => "CAP_BPF"@,
            MemtrackCap::SysResource => "CAP_SYS_RESOURCE"@,
        }
    }

    /// `caps::Capability::bitmask`: one shifted by the number of the capability in the kernel.
    #[verifier::external_body]
    fn bitmask(self) -> (r: u64)
        ensures
            r == self.bit(),
    {
        match self {
            MemtrackCap::DacReadSearch => Capability::CAP_DAC_READ_SEARCH.bitmask(),
            MemtrackCap::SysAdmin => Capability::CAP_SYS_ADMIN.bitmask(),
            MemtrackCap::Perfmon => Capability::CAP_PERFMON.bitmask(),
            MemtrackCap::Bpf => Capability::CAP_BPF.bitmask(),
            MemtrackCap::SysResource => Capability::CAP_SYS_RESOURCE.bitmask(),
        }
    }

    /// `Display` of `caps::Capability`: the name of the capability in the kernel.
    #[verifier::external_body]
    fn kernel_name(self) -> (r: String)
        ensures
            r@ == self.name(),
    {
        match self {
            MemtrackCap::DacReadSearch => Capability::CAP_DAC_READ_SEARCH.to_string(),
            MemtrackCap::SysAdmin => Capability::CAP_SYS_ADMIN.to_string(),
            MemtrackCap::Perfmon => Capability::CAP_PERFMON.to_string(),
            MemtrackCap::Bpf => Capability::CAP_BPF.to_string(),
            MemtrackCap::SysResource => Capability::CAP_SYS_RESOURCE.to_string(),
        }
    }
}

/// The capabilities that the tool needs.
pub open spec fn required_caps() -> Seq<MemtrackCap> {
    seq![
        MemtrackCap::DacReadSearch,
        MemtrackCap::SysAdmin,
        MemtrackCap::Perfmon,
        MemtrackCap::Bpf,
        MemtrackCap::SysResource,
    ]
}

fn memtrack_required_caps() -> (r: Vec<MemtrackCap>)
    ensures
        r@ == required_caps(),
{
    let r = vec![
        MemtrackCap::DacReadSearch,
        MemtrackCap::SysAdmin,
        MemtrackCap::Perfmon,
        MemtrackCap::Bpf,
        MemtrackCap::SysResource,
    ];
    assert(r@ =~= required_caps());
    r
}

/// The bits of some capabilities.
pub open spec fn mask_of(caps: Seq<MemtrackCap>) -> u64
    decreases caps.len(),
{
    if caps.len() == 0 {
        0
    } else {
        mask_of(caps.drop_last()) | caps.last().bit()
    }
}

/// The bits of the capabilities that the tool needs.
pub fn memtrack_required_caps_mask() -> (r: u64)
    ensures
        r == mask_of(required_caps()),
{
    let caps = memtrack_required_caps();
    let mut mask: u64 = 0;
    let mut i: usize = 0;
    assert(caps@.take(0) =~= seq![]);
    while i < caps.len()
        invariant
            i <= caps@.len(),
            mask == mask_of(caps@.take(i as int)),
        decreases caps.len() - i,
    {
        assert(caps@.take(i + 1).drop_last() =~= caps@.take(i as int));
        mask = mask | caps[i].bitmask();
        i = i + 1;
    }
    assert(caps@.take(caps@.len() as int) =~= caps@);
    mask
}

/// A letter in lower case.
pub open spec fn lower(c: char) -> char {
    if 'A' <= c <= 'Z' {
        (c as u8 + 32) as char
    } else {
        c
    }
}

/// A text in lower case, where its letters are those of ASCII.
pub open spec fn lowercase(s: Seq<char>) -> Seq<char> {
    Seq::new(s.len(), |i: int| lower(s[i]))
}

fn to_lowercase(s: &str) -> (r: String)
    ensures
        r@ == lowercase(s@),
{
    let mut out = String::new();
    assert(out@ =~= lowercase(s@.take(0)));
    for c in it: s.chars()
        invariant
            it.seq() == s@,
            out@ == lowercase(s@.take(it.index())),
    {
        let ghost n = it.index();
        let ghost before = out@;
        let l: char = if 'A' <= c && c <= 'Z' {
            (c as u8 + 32) as char
        } else {
            c
        };
        out.push(l);
        assert(out@ =~= lowercase(s@.take(n + 1)));
    }
    assert(s@.take(s@.len() as int) =~= s@);
    out
}

/// The names of capabilities, in lower case.
pub open spec fn lowercase_names(caps: Seq<MemtrackCap>) -> Seq<Seq<char>> {
    Seq::new(caps.len(), |i: int| lowercase(caps[i].name()))
}

/// The capabilities that the tool needs, in the language of `setcap`: effective and permitted.
pub open spec fn setcap_spec() -> Seq<char> {
    crate::text::joined(lowercase_names(required_caps()), seq![',']) + "+ep"@
}

/// The capabilities that the tool needs, in the language of `setcap`.
pub fn memtrack_setcap_spec() -> (r: String)
    ensures
        r@ == setcap_spec(),
{
    let caps = memtrack_required_caps();
    let mut names: Vec<String> = Vec::new();
    let mut i: usize = 0;
    while i < caps.len()
        invariant
            i <= caps@.len(),
            names@.len() == i,
            forall|j: int|
                0 <= j < i ==> (#[trigger] names@[j])@ == lowercase(caps@[j].name()),
        decreases caps.len() - i,
    {
        names.push(to_lowercase(caps[i].kernel_name().as_str()));
        i = i + 1;
    }
    proof {
        assert(names.deep_view() =~= lowercase_names(required_caps()));
        reveal_strlit(",");
        assert(","@ =~= seq![',']);
    }
    let mut text = join(&names, ",");
    text.append("+ep");
    text
}

/// Whether the tool holds the capabilities it needs. `attribute` is the value of
/// `security.capability` of its file, where the tool is found and has one.
pub fn has_memtrack_capabilities(is_found: bool, attribute: Option<&[u8]>) -> (r: bool)
    ensures
        r == (is_found && crate::executor::helpers::capabilities::caps_granted(
            crate::elf::bytes_of(attribute),
            mask_of(required_caps()),
        )),
{
    is_found && binary_has_capabilities(attribute, memtrack_required_caps_mask())
}

/// What is to be done for the tool to have the capabilities it needs.
#[derive(Debug, PartialEq, Eq)]
pub enum CapabilityStep {
    /// Nothing: the superuser needs none.
    RunningAsRoot,
    /// Nothing can be done, as the tool is not found.
    NotFound,
    /// Nothing: it has them.
    AlreadyGranted,
    /// `setcap` is to be run with these arguments, with privileges.
    Grant(Vec<String>),
}

/// What is to be done for the tool at `path`, if it is found, to have the capabilities it needs.
pub fn ensure_memtrack_capabilities(
    is_root: bool,
    path: Option<&str>,
    attribute: Option<&[u8]>,
) -> (r: CapabilityStep)
    ensures
        is_root <==> r is RunningAsRoot,
        !is_root && path is None <==> r is NotFound,
        !is_root && path is Some && crate::executor::helpers::capabilities::caps_granted(
            crate::elf::bytes_of(attribute),
            mask_of(required_caps()),
        ) <==> r is AlreadyGranted,
        r matches CapabilityStep::Grant(args) ==> args.deep_view() == seq![setcap_spec(), path->0@],
{
    if is_root {
        return CapabilityStep::RunningAsRoot;
    }
    let Some(path) = path else {
        return CapabilityStep::NotFound;
    };
    if binary_has_capabilities(attribute, memtrack_required_caps_mask()) {
        return CapabilityStep::AlreadyGranted;
    }
    let args = vec![memtrack_setcap_spec(), path.to_owned()];
    assert(args.deep_view() =~= seq![setcap_spec(), path@]);
    CapabilityStep::Grant(args)
}

/// What to say after `setcap` was run on the tool at `path`: nothing where the capabilities are
/// there, and otherwise that the file system may not keep them.
pub fn check_granted(path: &str, attribute: Option<&[u8]>) -> (r: Option<String>)
    ensures
        match r {
            Some(text) => !crate::executor::helpers::capabilities::caps_granted(
                crate::elf::bytes_of(attribute),
                mask_of(required_caps()),
            ) && text@ == "Capabilities did not stick on "@ + path@
                + ". The filesystem may not support file capabilities (e.g. nosuid, overlayfs, NFS). Memory profiling will require running as root."@,
            None => crate::executor::helpers::capabilities::caps_granted(
                crate::elf::bytes_of(attribute),
                mask_of(required_caps()),
            ),
        },
{
    if binary_has_capabilities(attribute, memtrack_required_caps_mask()) {
        return None;
    }
    let mut text = "Capabilities did not stick on ".to_owned();
    text.append(path);
    text.append(
        ". The filesystem may not support file capabilities (e.g. nosuid, overlayfs, NFS). Memory profiling will require running as root.",
    );
    Some(text)
}

// ---------------------------------------------------------------------------------------------
// Versions
// ---------------------------------------------------------------------------------------------

/// Whether a text is a version.
pub uninterp spec fn is_version(text: Seq<char>) -> bool;

/// Whether the version that the first text is comes before that which the second is.
pub uninterp spec fn version_before(a: Seq<char>, b: Seq<char>) -> bool;

/// `semver::Version::parse`: whether it accepts a text.
#[verifier::external_body]
fn parses_as_version(text: &str) -> (r: bool)
    ensures
        r == is_version(text@),
{
    semver::Version::parse(text).is_ok()
}

/// `<` of `semver::Version`, on the versions that two texts are. No version comes before itself.
#[verifier::external_body]
fn comes_before(a: &str, b: &str) -> (r: bool)
    requires
        is_version(a@),
        is_version(b@),
    ensures
        r == version_before(a@, b@),
        a@ == b@ ==> !r,
{
    semver::Version::parse(a).unwrap() < semver::Version::parse(b).unwrap()
}

/// A version of a tool.
#[derive(Debug)]
pub struct ToolVersion {
    text: String,
}

impl ToolVersion {
    pub closed spec fn view(self) -> Seq<char> {
        self.text@
    }

    #[verifier::type_invariant]
    spec fn inv(self) -> bool {
        is_version(self.text@)
    }

    /// The version that a text is, if it is one.
    pub fn parse(text: &str) -> (r: Option<Self>)
        ensures
            match r {
                Some(version) => is_version(text@) && version@ == text@,
                None => !is_version(text@),
            },
    {
        if parses_as_version(text) {
            Some(ToolVersion { text: text.to_owned() })
        } else {
            None
        }
    }

    /// Whether this version comes before another.
    pub fn is_before(&self, other: &ToolVersion) -> (r: bool)
        ensures
            r == version_before(self@, other@),
            self@ == other@ ==> !r,
    {
        proof {
            use_type_invariant(self);
            use_type_invariant(other);
        }
        comes_before(self.text.as_str(), other.text.as_str())
    }

    pub fn as_str(&self) -> (r: &str)
        ensures
            r@ == self@,
    {
        self.text.as_str()
    }
}

/// What a tool printed when it was asked for its version.
#[derive(Debug)]
pub struct VersionOutput {
    pub success: bool,
    pub stdout: Vec<u8>,
}

/// The version in what the tool prints, such as `memtrack 1.2.2`: what follows the first space.
pub open spec fn printed_version(version: Seq<char>) -> Option<Seq<char>> {
    match crate::text::after_first(version, ' ') {
        Some(rest) => Some(crate::text::trimmed(rest)),
        None => None,
    }
}

/// The status of the tool, from the line it prints.
pub open spec fn status_of(version: Seq<char>, expected: Seq<char>, r: ToolInstallStatus) -> bool {
    match printed_version(version) {
        Some(installed) => if is_version(installed) {
            if version_before(installed, expected) {
                r matches ToolInstallStatus::IncorrectVersion { version: v, message: m } && v@
                    == version && m@ == "version too old, expecting "@ + expected + " or higher"@
            } else {
                r matches ToolInstallStatus::Installed { version: v } && v@ == version
            }
        } else {
            r matches ToolInstallStatus::IncorrectVersion { version: v, message: m } && v@
                == version && m@ == "could not parse version"@
        },
        None => r matches ToolInstallStatus::IncorrectVersion { version: v, message: m } && v@
            == version && m@ == "could not parse version"@,
    }
}

/// Whether the tool is installed in a version that is not older than `expected`. `is_available`
/// tells whether it is found, and `output` what it printed, if it could be run.
pub fn get_memtrack_status(
    is_available: bool,
    output: Option<&VersionOutput>,
    expected: &ToolVersion,
) -> (r: ToolStatus)
    ensures
        r.tool_name@ == MEMTRACK_COMMAND@,
        match output {
            Some(o) => if is_available && o.success {
                status_of(
                    crate::text::trimmed(crate::bytes::lossy_text(o.stdout@)),
                    expected@,
                    r.status,
                )
            } else {
                r.status is NotInstalled
            },
            None => r.status is NotInstalled,
        },
{
    let tool_name = MEMTRACK_COMMAND.to_owned();
    if !is_available {
        return ToolStatus { tool_name, status: ToolInstallStatus::NotInstalled };
    }
    let Some(output) = output else {
        return ToolStatus { tool_name, status: ToolInstallStatus::NotInstalled };
    };
    if !output.success {
        return ToolStatus { tool_name, status: ToolInstallStatus::NotInstalled };
    }
    let version = trim(from_utf8_lossy(output.stdout.as_slice()).as_str());
    ToolStatus { tool_name, status: status_of_version(version, expected) }
}

/// The status of the tool, from the line it prints.
pub fn status_of_version(version: String, expected: &ToolVersion) -> (r: ToolInstallStatus)
    ensures
        status_of(version@, expected@, r),
{
    if let Some(rest) = after_char(version.as_str(), ' ') {
        if let Some(installed) = ToolVersion::parse(trim(rest.as_str()).as_str()) {
            if installed.is_before(expected) {
                let mut message = "version too old, expecting ".to_owned();
                message.append(expected.as_str());
                message.append(" or higher");
                return ToolInstallStatus::IncorrectVersion { version, message };
            }
            return ToolInstallStatus::Installed { version };
        }
    }
    ToolInstallStatus::IncorrectVersion {
        version,
        message: "could not parse version".to_owned(),
    }
}

/// The tool needs five capabilities, whose numbers in the kernel are 2, 21, 24, 38 and 39.
pub proof fn law_tool_needs_five_capabilities(mask: u64)
    requires
        call_ensures(memtrack_required_caps_mask, (), mask),
    ensures
        mask == (1u64 << 2) | (1u64 << 21) | (1u64 << 24) | (1u64 << 38) | (1u64 << 39),
{
    reveal_with_fuel(mask_of, 6);
    let all = required_caps();
    let four = all.drop_last();
    let three = four.drop_last();
    let two = three.drop_last();
    let one = two.drop_last();
    assert(one.drop_last().len() == 0);
    assert(all.last() is SysResource && four.last() is Bpf && three.last() is Perfmon && two.last()
        is SysAdmin && one.last() is DacReadSearch);
    assert(mask == ((((0u64 | 0x4) | 0x20_0000) | 0x40_0000_0000) | 0x80_0000_0000) | 0x100_0000);
    assert(((((0u64 | 0x4) | 0x20_0000) | 0x40_0000_0000) | 0x80_0000_0000) | 0x100_0000 == (1u64
        << 2) | (1u64 << 21) | (1u64 << 24) | (1u64 << 38) | (1u64 << 39)) by (bit_vector);
}

/// The tool is ready if it is found and its file permits all that it needs. Where it is not run by the
/// superuser and is found but not ready, `setcap` is run on it.
pub proof fn law_missing_capabilities_are_granted(
    is_root: bool,
    path: Option<&str>,
    attribute: Option<&[u8]>,
    mask: u64,
    held: bool,
    ready: bool,
    step: CapabilityStep,
    spec: String,
)
    requires
        call_ensures(memtrack_required_caps_mask, (), mask),
        call_ensures(binary_has_capabilities, (attribute, mask), held),
        call_ensures(has_memtrack_capabilities, (path is Some, attribute), ready),
        call_ensures(ensure_memtrack_capabilities, (is_root, path, attribute), step),
        call_ensures(memtrack_setcap_spec, (), spec),
    ensures
        ready <==> path is Some && held,
        is_root <==> step is RunningAsRoot,
        !is_root && path is None <==> step is NotFound,
        !is_root && ready <==> step is AlreadyGranted,
        !is_root && path is Some && !held <==> step is Grant,
        step matches CapabilityStep::Grant(args) ==> args@.len() == 2 && args@[0]@ == spec@ && args@[1]@
            == path->0@,
{
    if let CapabilityStep::Grant(args) = step {
        let all = args.deep_view();
        assert(all.len() == args@.len());
        assert(all[0] == args@[0]@ && all[1] == args@[1]@);
    }
}

/// A tool that prints its name and a version is installed if that version does not come before the one
/// that is expected; the very version that is expected is. A line without a version, or with one that
/// cannot be read, is of no use.
pub proof fn law_version_must_not_be_older(
    line: String,
    expected: &ToolVersion,
    r: ToolInstallStatus,
    tool: Seq<char>,
    rest: Seq<char>,
)
    requires
        call_ensures(status_of_version, (line, expected), r),
        forall|i: int| 0 <= i < tool.len() ==> #[trigger] tool[i] != ' ',
    ensures
        line@ == tool + seq![' '] + rest ==> {
            let version = crate::text::trimmed(rest);
            &&& r is Installed <==> is_version(version) && !version_before(version, expected@)
            &&& !(r is NotInstalled)
        },
        line@ == tool ==> r is IncorrectVersion,
        r matches ToolInstallStatus::Installed { version } ==> version@ == line@,
        r matches ToolInstallStatus::IncorrectVersion { version, message } ==> version@ == line@,
{
    crate::text::law_text_after_a_character(tool, ' ', rest);
}

/// A tool that is not found or cannot be run is not installed; of one that can, what it prints tells.
pub proof fn law_tool_is_asked_for_its_version(
    is_available: bool,
    output: Option<&VersionOutput>,
    expected: &ToolVersion,
    r: ToolStatus,
    line: String,
    status: ToolInstallStatus,
)
    requires
        call_ensures(get_memtrack_status, (is_available, output, expected), r),
        call_ensures(status_of_version, (line, expected), status),
        output matches Some(o) ==> line@ == crate::text::trimmed(crate::bytes::lossy_text(o.stdout@)),
    ensures
        !is_available || output is None ==> r.status is NotInstalled,
        output matches Some(o) ==> (!o.success ==> r.status is NotInstalled),
        output matches Some(o) ==> (is_available && o.success ==> (r.status is Installed <==> status
            is Installed) && !(r.status is NotInstalled)),
        r.tool_name@ == "codspeed-memtrack"@,
{
}

/// A version that cannot be told and one that is too old are told apart.
pub proof fn law_wrong_versions_say_why(
    line: String,
    expected: &ToolVersion,
    r: ToolInstallStatus,
    tool: Seq<char>,
    rest: Seq<char>,
)
    requires
        call_ensures(status_of_version, (line, expected), r),
        forall|i: int| 0 <= i < tool.len() ==> #[trigger] tool[i] != ' ',
        line@ == tool + seq![' '] + rest,
    ensures
        r matches ToolInstallStatus::IncorrectVersion { version, message } ==> if is_version(
            crate::text::trimmed(rest),
        ) {
            message@ == "version too old, expecting "@ + expected@ + " or higher"@
        } else {
            message@ == "could not parse version"@
        },
{
    crate::text::law_text_after_a_character(tool, ' ', rest);
}

/// Capabilities are checked after they were granted: a file that does not hold them all is told.
pub proof fn law_capabilities_are_checked_afterwards(
    path: &str,
    attribute: Option<&[u8]>,
    mask: u64,
    held: bool,
    r: Option<String>,
)
    requires
        call_ensures(memtrack_required_caps_mask, (), mask),
        call_ensures(binary_has_capabilities, (attribute, mask), held),
        call_ensures(check_granted, (path, attribute), r),
    ensures
        r is None <==> held,
        r matches Some(text) ==> ("Capabilities did not stick on "@ + path@).is_prefix_of(text@),
{
    if let Some(text) = r {
        let start = "Capabilities did not stick on "@ + path@;
        assert(text@.subrange(0, start.len() as int) =~= start);
    }
}

/// The five capabilities are asked for by their names, to be permitted and in effect.
pub proof fn law_capabilities_are_asked_for_by_name(spec: String)
    requires
        call_ensures(memtrack_setcap_spec, (), spec),
    ensures
        spec@ == "cap_dac_read_search"@ + ","@ + "cap_sys_admin"@ + ","@ + "cap_perfmon"@ + ","@
            + "cap_bpf"@ + ","@ + "cap_sys_resource"@ + "+ep"@,
{
    reveal_strlit("CAP_DAC_READ_SEARCH");
    reveal_strlit("CAP_SYS_ADMIN");
    reveal_strlit("CAP_PERFMON");
    reveal_strlit("CAP_BPF");
    reveal_strlit("CAP_SYS_RESOURCE");
    reveal_strlit("cap_dac_read_search");
    reveal_strlit("cap_sys_admin");
    reveal_strlit("cap_perfmon");
    reveal_strlit("cap_bpf");
    reveal_strlit("cap_sys_resource");
    reveal_strlit(",");
    assert(lowercase("CAP_DAC_READ_SEARCH"@) =~= "cap_dac_read_search"@);
    assert(lowercase("CAP_SYS_ADMIN"@) =~= "cap_sys_admin"@);
    assert(lowercase("CAP_PERFMON"@) =~= "cap_perfmon"@);
    assert(lowercase("CAP_BPF"@) =~= "cap_bpf"@);
    assert(lowercase("CAP_SYS_RESOURCE"@) =~= "cap_sys_resource"@);
    assert(","@ =~= seq![',']);
    let all = lowercase_names(required_caps());
    let four = all.drop_last();
    let three = four.drop_last();
    let two = three.drop_last();
    let one = two.drop_last();
    let sep = seq![','];
    assert(crate::text::joined(one, sep) == one[0]);
    assert(crate::text::joined(two, sep) == one[0] + sep + two.last());
    assert(crate::text::joined(three, sep) == one[0] + sep + two.last() + sep + three.last());
    assert(crate::text::joined(four, sep) == one[0] + sep + two.last() + sep + three.last() + sep
        + four.last());
}

} // verus!
