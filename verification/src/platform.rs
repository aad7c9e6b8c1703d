//! Canonical platform identification.
//!
//! The host reports an operating system and a CPU architecture; this module
//! maps the pair to the fixed vocabulary of tokens used in release asset
//! names, rejecting architectures the tool is not built for.
use vstd::prelude::*;

verus! {

/// Operating systems the host may report.
#[derive(Clone, Copy, PartialEq, Eq, Structural, Debug)]
pub enum Os {
    Linux,
    Mac,
    Windows,
}

/// CPU architectures the host may report.
#[derive(Clone, Copy, PartialEq, Eq, Structural, Debug)]
pub enum Arch {
    Aarch64,
    X86,
    X8664,
}

/// Architectures the tool is published for, under their asset-name tokens.
#[derive(Clone, Copy, PartialEq, Eq, Structural, Debug)]
pub enum PlatformArch {
    Arm64,
    Amd64,
}

/// A supported (operating system, architecture) pair.
#[derive(Clone, Copy, PartialEq, Eq, Structural, Debug)]
pub struct Platform {
    pub os: Os,
    pub arch: PlatformArch,
}

/// The token an operating system contributes to asset names.
pub open spec fn spec_os_token(os: Os) -> Seq<char> {
    match os {
        Os::Linux => "linux"@,
        Os::Mac => "darwin"@,
        Os::Windows => "windows"@,
    }
}

/// The token an architecture contributes to asset names.
pub open spec fn spec_arch_token(arch: PlatformArch) -> Seq<char> {
    match arch {
        PlatformArch::Arm64 => "arm64"@,
        PlatformArch::Amd64 => "amd64"@,
    }
}

pub fn os_token(os: Os) -> (r: &'static str)
    ensures
        r@ == spec_os_token(os),
{
    match os {
        Os::Linux => "linux",
        Os::Mac => "darwin",
        Os::Windows => "windows",
    }
}

pub fn arch_token(arch: PlatformArch) -> (r: &'static str)
    ensures
        r@ == spec_arch_token(arch),
{
    match arch {
        PlatformArch::Arm64 => "arm64",
        PlatformArch::Amd64 => "amd64",
    }
}

/// Which architectures are published.
pub open spec fn spec_supported(arch: Arch) -> bool {
    arch == Arch::Aarch64 || arch == Arch::X8664
}

/// The canonical platform for a supported architecture.
pub open spec fn spec_platform(os: Os, arch: Arch) -> Platform
    recommends
        spec_supported(arch),
{
    Platform {
        os,
        arch: if arch == Arch::Aarch64 {
            PlatformArch::Arm64
        } else {
            PlatformArch::Amd64
        },
    }
}

/// Maps the reported operating system and architecture to the canonical
/// platform tokens, or rejects an architecture the tool is not built for.
pub fn identify(os: Os, arch: Arch) -> (r: Result<Platform, crate::resolver::Error>)
    ensures
        spec_supported(arch) ==> r == Ok::<Platform, crate::resolver::Error>(
            spec_platform(os, arch),
        ),
        !spec_supported(arch) ==> r == Err::<Platform, crate::resolver::Error>(
            crate::resolver::Error::UnsupportedArchitecture { arch },
        ),
{
    let parch = match arch {
        Arch::Aarch64 => PlatformArch::Arm64,
        Arch::X8664 => PlatformArch::Amd64,
        Arch::X86 => {
            return Err(crate::resolver::Error::UnsupportedArchitecture { arch });
        },
    };
    Ok(Platform { os, arch: parch })
}

} // verus!
