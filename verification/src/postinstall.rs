//! The post-install context and the choice of the root that post-install
//! modules must modify.
//!
//! `bootc install to-filesystem` creates an OSTree sysroot, so the root of the
//! target filesystem is only storage: the system that will boot is the
//! deployment that OSTree's active boot link points at. Reading links and
//! directories is left to the caller; this module decides which boot link is
//! active and which of the deployments found there is the target.

use vstd::prelude::*;
use vstd::string::*;

use crate::initial_setup::InitialSetup;
use crate::keyboard::Keyboard;
use crate::language::Language;
use crate::paths::{is_within, lemma_joined_is_within, lemma_within_is_transitive, path_within};
use crate::initial_setup::first_boot_marker_file;
use crate::keyboard::xorg_keyboard_conf_file;
use crate::language::locale_conf_file;

verus! {

/// What every post-install module is handed.
#[derive(Debug, Clone)]
pub struct Context {
    pub destination_disk: String,
    pub uefi: bool,
    /// Root of the system that will actually boot.
    ///
    /// For a traditional installation this is `/`. A bootc filesystem is an
    /// OSTree sysroot, so `/` is only the storage root and the bootable system
    /// lives below `/ostree/deploy/.../deploy/<checksum>.<serial>`.
    pub root: String,
}

/// The post-install modules whose configuration lives in this library.
#[derive(Debug, Clone)]
pub enum Module {
    InitialSetup(InitialSetup),
    Keyboard(Keyboard),
    Language(Language),
}

/// Name under which each module is reported.
pub open spec fn module_name(m: Module) -> Seq<char> {
    match m {
        Module::InitialSetup(_) => "InitialSetup"@,
        Module::Keyboard(_) => "Keyboard"@,
        Module::Language(_) => "Language"@,
    }
}

impl Module {
    /// The name of the wrapped module.
    pub fn name(&self) -> (n: &'static str)
        ensures
            n@ == module_name(*self),
    {
        match self {
            Module::InitialSetup(m) => m.name(),
            Module::Keyboard(m) => m.name(),
            Module::Language(m) => m.name(),
        }
    }
}

/// Why no single target root could be chosen below an OSTree sysroot.
#[derive(Debug, Clone)]
pub enum ResolveError {
    /// The active loader link names neither `loader.0` nor `loader.1`.
    UnexpectedLoaderTarget(String),
    /// No boot slot leads to a deployment inside the sysroot.
    NoActiveDeployment,
    /// This many distinct deployments are active at once.
    AmbiguousDeployments(usize),
}

/// The boot link that belongs to a loader generation, if it is one.
pub open spec fn boot_link_for(loader_name: Seq<char>) -> Option<Seq<char>> {
    if loader_name == "loader.0"@ {
        Some("boot.0"@)
    } else if loader_name == "loader.1"@ {
        Some("boot.1"@)
    } else {
        None
    }
}

/// The boot link (below `ostree/`) that the active loader link selects.
///
/// OSTree keeps two loader generations and points `boot/loader` at the
/// active one, `loader.0` or `loader.1`; the matching boot link is
/// `boot.0` or `boot.1`. Any other target is refused.
pub fn active_boot_link(loader_name: &str) -> (res: Result<String, ResolveError>)
    ensures
        match (boot_link_for(loader_name@), res) {
            (Some(expected), Ok(link)) => link@ == expected,
            (None, Err(ResolveError::UnexpectedLoaderTarget(name))) => name@ == loader_name@,
            _ => false,
        },
{
    let name = String::from_str(loader_name);
    if name == String::from_str("loader.0") {
        Ok(String::from_str("boot.0"))
    } else if name == String::from_str("loader.1") {
        Ok(String::from_str("boot.1"))
    } else {
        Err(ResolveError::UnexpectedLoaderTarget(name))
    }
}

/// A boot slot found below the active boot link, after the caller resolved it.
#[derive(Debug, Clone)]
pub struct DeploymentCandidate {
    /// Canonical path the boot slot resolves to.
    pub path: String,
    /// Whether `.ostree.cfs` is a regular file in that path.
    pub has_composefs_marker: bool,
}

/// A candidate counts as a deployment of the sysroot at canonical path
/// `sysroot` when it lies within it and carries the composefs marker.
pub open spec fn is_deployment(c: DeploymentCandidate, sysroot: Seq<char>) -> bool {
    is_within(c.path@, sysroot) && c.has_composefs_marker
}

/// The distinct deployment paths among the first `n` candidates.
pub open spec fn deployments_among(
    cands: Seq<DeploymentCandidate>,
    sysroot: Seq<char>,
    n: int,
) -> Set<Seq<char>> {
    Set::new(
        |p: Seq<char>|
            exists|j: int|
                0 <= j < n && #[trigger] is_deployment(cands[j], sysroot) && cands[j].path@ == p,
    )
}

/// The distinct deployment paths among all candidates.
pub open spec fn active_deployments(cands: Seq<DeploymentCandidate>, sysroot: Seq<char>) -> Set<
    Seq<char>,
> {
    deployments_among(cands, sysroot, cands.len() as int)
}

/// Choose the deployment that will boot among the resolved boot slots.
///
/// `sysroot` is the canonical path of the installation sysroot. Candidates
/// outside it or without an OSTree composefs marker are
/// ignored, and a deployment reached through several slots counts once.
/// Exactly one deployment is chosen; none or several is an error, the latter
/// with the number of distinct deployments found.
pub fn select_deployment(sysroot: &str, candidates: &Vec<DeploymentCandidate>) -> (res: Result<String, ResolveError>)
    ensures
        active_deployments(candidates@, sysroot@).finite(),
        match res {
            Ok(p) => active_deployments(candidates@, sysroot@) == set![p@],
            Err(ResolveError::NoActiveDeployment) => active_deployments(candidates@, sysroot@).len() == 0,
            Err(ResolveError::AmbiguousDeployments(n)) => {
                &&& n == active_deployments(candidates@, sysroot@).len()
                &&& n >= 2
            },
            Err(ResolveError::UnexpectedLoaderTarget(_)) => false,
        },
{
    let mut found: Vec<String> = Vec::new();
    let ghost mut seen: Seq<Seq<char>> = Seq::empty();
    let mut i: usize = 0;
    while i < candidates.len()
        invariant
            0 <= i <= candidates.len(),
            seen.len() == found.len(),
            forall|k: int| 0 <= k < found.len() ==> #[trigger] seen[k] == found[k]@,
            seen.no_duplicates(),
            seen.to_set() == deployments_among(candidates@, sysroot@, i as int),
        decreases candidates.len() - i,
    {
        let c = &candidates[i];
        let ghost before = deployments_among(candidates@, sysroot@, i as int);
        let ghost after = deployments_among(candidates@, sysroot@, i + 1);
        if c.has_composefs_marker && path_within(c.path.as_str(), sysroot) {
            let mut dup = false;
            let mut k: usize = 0;
            while k < found.len()
                invariant
                    0 <= k <= found.len(),
                    seen.len() == found.len(),
                    forall|q: int| 0 <= q < found.len() ==> #[trigger] seen[q] == found[q]@,
                    !dup ==> forall|q: int| 0 <= q < k ==> seen[q] != c.path@,
                    dup ==> seen.contains(c.path@),
                decreases found.len() - k,
            {
                if found[k] == c.path {
                    dup = true;
                    assert(seen[k as int] == c.path@);
                }
                k = k + 1;
            }
            proof {
                assert forall|p: Seq<char>| after.contains(p) <==> before.insert(c.path@).contains(p) by {
                    if after.contains(p) {
                        let j = choose|j: int| 0 <= j < i + 1 && #[trigger] is_deployment(candidates@[j], sysroot@) && candidates@[j].path@ == p;
                        if j < i {
                            assert(before.contains(p));
                        }
                    }
                    if before.contains(p) {
                        let j = choose|j: int| 0 <= j < i && #[trigger] is_deployment(candidates@[j], sysroot@) && candidates@[j].path@ == p;
                        assert(after.contains(p));
                    }
                    if p == c.path@ {
                        assert(is_deployment(candidates@[i as int], sysroot@));
                        assert(after.contains(p));
                    }
                }
                assert(after =~= before.insert(c.path@));
            }
            if !dup {
                proof {
                    seen.lemma_push_to_set_commute(c.path@);
                    assert(!seen.contains(c.path@));
                    seen = seen.push(c.path@);
                }
                found.push(c.path.clone());
            } else {
                proof {
                    assert(seen.to_set().contains(c.path@));
                    assert(before.insert(c.path@) =~= before);
                }
            }
        } else {
            proof {
                assert forall|p: Seq<char>| after.contains(p) <==> before.contains(p) by {
                    if after.contains(p) {
                        let j = choose|j: int| 0 <= j < i + 1 && #[trigger] is_deployment(candidates@[j], sysroot@) && candidates@[j].path@ == p;
                        assert(j != i);
                    }
                    if before.contains(p) {
                        let j = choose|j: int| 0 <= j < i && #[trigger] is_deployment(candidates@[j], sysroot@) && candidates@[j].path@ == p;
                        assert(after.contains(p));
                    }
                }
                assert(after =~= before);
            }
        }
        i = i + 1;
    }
    proof {
        seen.unique_seq_to_set();
        vstd::seq_lib::seq_to_set_is_finite(seen);
    }
    if found.len() == 0 {
        Err(ResolveError::NoActiveDeployment)
    } else if found.len() == 1 {
        proof {
            assert(seen =~= seq![seen[0]]);
            assert(seen.to_set() =~= set![seen[0]]) by {
                assert forall|p: Seq<char>| seen.to_set().contains(p) <==> p == seen[0] by {
                    if seen.to_set().contains(p) {
                        assert(seen.contains(p));
                    }
                    if p == seen[0] {
                        assert(seen.contains(seen[0]));
                    }
                }
            }
        }
        Ok(found[0].clone())
    } else {
        Err(ResolveError::AmbiguousDeployments(found.len()))
    }
}

/// The deployment chosen below an OSTree sysroot lies within that sysroot.
pub proof fn lemma_chosen_deployment_is_within_sysroot(
    candidates: Seq<DeploymentCandidate>,
    sysroot: Seq<char>,
    chosen: Seq<char>,
)
    requires
        active_deployments(candidates, sysroot) == set![chosen],
    ensures
        is_within(chosen, sysroot),
{
    assert(set![chosen].contains(chosen));
    let j = choose|j: int|
        0 <= j < candidates.len() && #[trigger] is_deployment(candidates[j], sysroot)
            && candidates[j].path@ == chosen;
}

/// Every file a post-install module writes for the target root `root`
/// (the marker, the keyboard and the locale configuration) lies below
/// that root, and so within any directory that holds the root: modules
/// write into the system that will boot.
pub proof fn lemma_module_files_are_within_root(root: Seq<char>, sysroot: Seq<char>)
    requires
        root.len() > 0,
        is_within(root, sysroot),
    ensures
        is_within(first_boot_marker_file(root), root),
        first_boot_marker_file(root) != root,
        is_within(xorg_keyboard_conf_file(root), root),
        xorg_keyboard_conf_file(root) != root,
        is_within(locale_conf_file(root), root),
        locale_conf_file(root) != root,
        is_within(first_boot_marker_file(root), sysroot),
        is_within(xorg_keyboard_conf_file(root), sysroot),
        is_within(locale_conf_file(root), sysroot),
{
    reveal_strlit(".unconfigured");
    reveal_strlit("etc/X11/xorg.conf.d/00-keyboard.conf");
    reveal_strlit("etc/locale.conf");
    lemma_joined_is_within(root, ".unconfigured"@);
    lemma_joined_is_within(root, "etc/X11/xorg.conf.d/00-keyboard.conf"@);
    lemma_joined_is_within(root, "etc/locale.conf"@);
    lemma_within_is_transitive(first_boot_marker_file(root), root, sysroot);
    lemma_within_is_transitive(xorg_keyboard_conf_file(root), root, sysroot);
    lemma_within_is_transitive(locale_conf_file(root), root, sysroot);
}

} // verus!
