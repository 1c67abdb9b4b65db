//! The pre-flight check: whether everything a rotation needs is in place.

use vstd::prelude::*;

verus! {

/// The arguments of the command.
pub struct CheckArgs {
    pub config: Option<String>,
}

/// What a look at the machine found.
pub struct Findings {
    /// Whether `kubectl` is on the path.
    pub kubectl_found: bool,
    /// Whether the repository has an `apps` directory.
    pub apps_found: bool,
    /// How many manifests stand under that directory.
    pub manifests: usize,
    /// How many of them could not be read or parsed.
    pub unreadable: usize,
}

/// The check passes where `kubectl` is there, the `apps` directory is there
/// and every manifest under it could be read. A missing `kubeseal` and
/// missing credentials are warnings only.
pub open spec fn passes_spec(findings: Findings) -> bool {
    findings.kubectl_found && findings.apps_found && findings.unreadable == 0
}

/// Whether the check passes.
pub fn preflight_passes(findings: &Findings) -> (r: bool)
    ensures
        r == passes_spec(*findings),
{
    findings.kubectl_found && findings.apps_found && findings.unreadable == 0
}

/// How many manifests could be read: all of them but the unreadable ones.
pub fn readable_manifests(findings: &Findings) -> (r: usize)
    ensures
        findings.unreadable <= findings.manifests ==> r == findings.manifests - findings.unreadable,
        findings.unreadable > findings.manifests ==> r == 0,
{
    if findings.unreadable <= findings.manifests {
        findings.manifests - findings.unreadable
    } else {
        0
    }
}

} // verus!
