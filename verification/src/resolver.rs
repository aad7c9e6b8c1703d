//! The resolver's state, its error vocabulary, and the launch command.
use vstd::prelude::*;

use crate::platform::Arch;

verus! {

/// Why a provisioning attempt failed.
///
/// An unreachable registry is not listed here: it is not an error of the
/// library but the signal that the host must take the offline path.
#[derive(PartialEq, Eq, Structural, Debug)]
pub enum Error {
    /// The running architecture is not one the tool is published for.
    UnsupportedArchitecture { arch: Arch },
    /// The located release carries no asset under the derived archive name.
    AssetNotFound,
    /// Offline, and no installed directory matches the current platform.
    NoInstallationFound,
}

/// The name an architecture is reported under in an error message.
pub open spec fn spec_arch_name(arch: Arch) -> Seq<char> {
    match arch {
        Arch::Aarch64 => "Aarch64"@,
        Arch::X86 => "X86"@,
        Arch::X8664 => "X8664"@,
    }
}

/// The human-readable message of an error.
pub open spec fn spec_message(e: Error) -> Seq<char> {
    match e {
        Error::UnsupportedArchitecture { arch } => spec_arch_name(arch)
            + " is not supported by MPLS"@,
        Error::AssetNotFound => "Can't find the executable in MPLS GitHub release."@,
        Error::NoInstallationFound =>
            "No installation of MPLS has found. We can't install it because we have no internet connection."@,
    }
}

impl Error {
    /// The message the host surfaces to the user.
    pub fn message(&self) -> (r: String)
        ensures
            r@ == spec_message(*self),
    {
        match self {
            Error::UnsupportedArchitecture { arch } => {
                let name = match arch {
                    Arch::Aarch64 => "Aarch64",
                    Arch::X86 => "X86",
                    Arch::X8664 => "X8664",
                };
                String::from_str(name).concat(" is not supported by MPLS")
            },
            Error::AssetNotFound => String::from_str(
                "Can't find the executable in MPLS GitHub release.",
            ),
            Error::NoInstallationFound => String::from_str(
                "No installation of MPLS has found. We can't install it because we have no internet connection.",
            ),
        }
    }
}

/// The resolver: holds the executable path once resolved, for the lifetime
/// of this instance. The filesystem stays the source of truth; this is a
/// non-owning cache, set by the host after a provisioning step succeeds.
pub struct Mpls {
    pub language_server_path: Option<String>,
}

/// What the host must do next to resolve the executable.
#[derive(Clone, Copy, PartialEq, Eq, Structural, Debug)]
pub enum ResolveStep {
    /// A path is already cached; use it, perform no further work.
    AlreadyResolved,
    /// An ambient installation was found on the search path; it has been
    /// cached, perform no download.
    UseAmbient,
    /// Query the registry for the latest release; fall back to the offline
    /// scan when the registry is unreachable.
    FetchRelease,
}

impl Mpls {
    /// A fresh, unresolved instance.
    pub fn new() -> (r: Mpls)
        ensures
            r.language_server_path is None,
    {
        Mpls { language_server_path: None }
    }

    /// Whether a path is already cached. While this holds, a resolution is
    /// a no-op: the host need not probe, query or touch the disk at all.
    pub fn is_resolved(&self) -> (r: bool)
        ensures
            r == (self.language_server_path is Some),
    {
        self.language_server_path.is_some()
    }

    /// The first decision of a resolution: short-circuit on the cached path,
    /// adopt an ambient installation when the host found one, otherwise
    /// direct the host to the registry. A cached path is never re-resolved.
    pub fn begin_resolution(&mut self, ambient: Option<String>) -> (r: ResolveStep)
        ensures
            old(self).language_server_path is Some ==> r == ResolveStep::AlreadyResolved
                && *final(self) == *old(self),
            old(self).language_server_path is None && ambient is Some ==> r
                == ResolveStep::UseAmbient && final(self).language_server_path == ambient,
            old(self).language_server_path is None && ambient is None ==> r
                == ResolveStep::FetchRelease && final(self).language_server_path is None,
    {
        if self.language_server_path.is_some() {
            return ResolveStep::AlreadyResolved;
        }
        match ambient {
            Some(path) => {
                self.language_server_path = Some(path);
                ResolveStep::UseAmbient
            },
            None => ResolveStep::FetchRelease,
        }
    }

    /// Caches the path of a successfully provisioned executable.
    pub fn commit(&mut self, path: String)
        ensures
            final(self).language_server_path == Some(path),
    {
        self.language_server_path = Some(path);
    }

    /// The launch specification: the resolved executable and its fixed
    /// feature flags. `None` exactly when nothing has been resolved.
    pub fn launch_command(&self) -> (r: Option<(String, Vec<String>)>)
        ensures
            match self.language_server_path {
                Some(p) => r matches Some(c) && c.0@ == p@ && c.1.deep_view()
                    == spec_launch_args(),
                None => r is None,
            },
    {
        match &self.language_server_path {
            Some(p) => Some((p.clone(), launch_args())),
            None => None,
        }
    }
}

/// The three feature flags every launch carries, whichever provisioning path
/// produced the executable.
pub open spec fn spec_launch_args() -> Seq<Seq<char>> {
    seq!["--enable-emoji"@, "--enable-wikilinks"@, "--enable-footnotes"@]
}

pub fn launch_args() -> (r: Vec<String>)
    ensures
        r.deep_view() == spec_launch_args(),
{
    let mut v: Vec<String> = Vec::new();
    v.push(String::from_str("--enable-emoji"));
    v.push(String::from_str("--enable-wikilinks"));
    v.push(String::from_str("--enable-footnotes"));
    proof {
        assert(v.deep_view() =~= spec_launch_args());
    }
    v
}

} // verus!
