//! Derivation of release asset names and on-disk paths.
//!
//! A release version and a platform determine, character for character, the
//! archive to download, the directory it unpacks into, and the executable's
//! path inside that directory.
use vstd::prelude::*;

use crate::platform::Platform;
use crate::platform::Os;
use crate::platform::arch_token;
use crate::platform::os_token;
use crate::platform::spec_arch_token;
use crate::platform::spec_os_token;

verus! {

/// How a downloaded archive is to be unpacked.
#[derive(Clone, Copy, PartialEq, Eq, Structural, Debug)]
pub enum FileType {
    Zip,
    GzipTar,
    Gzip,
    Uncompressed,
}

/// The archive kind a release publishes for an operating system.
pub open spec fn spec_file_type(os: Os) -> FileType {
    match os {
        Os::Windows => FileType::Zip,
        Os::Linux => FileType::GzipTar,
        Os::Mac => FileType::GzipTar,
    }
}

pub fn file_type_for(os: Os) -> (r: FileType)
    ensures
        r == spec_file_type(os),
{
    match os {
        Os::Windows => FileType::Zip,
        Os::Linux => FileType::GzipTar,
        Os::Mac => FileType::GzipTar,
    }
}

/// The filename extension of an archive kind.
pub open spec fn spec_extension(ft: FileType) -> Seq<char> {
    match ft {
        FileType::Zip => "zip"@,
        FileType::GzipTar => "tar.gz"@,
        FileType::Gzip => "gz"@,
        FileType::Uncompressed => ""@,
    }
}

pub fn extension(ft: FileType) -> (r: &'static str)
    ensures
        r@ == spec_extension(ft),
{
    match ft {
        FileType::Zip => "zip",
        FileType::GzipTar => "tar.gz",
        FileType::Gzip => "gz",
        FileType::Uncompressed => "",
    }
}

/// The directory a release unpacks into: the tool's name, the bare version,
/// and the platform tokens, joined by underscores.
pub open spec fn spec_unarchived_name(version: Seq<char>, p: Platform) -> Seq<char> {
    "mpls_"@ + version + "_"@ + spec_os_token(p.os) + "_"@ + spec_arch_token(p.arch)
}

/// The archive asset's filename: the unarchived name plus the extension the
/// operating system calls for.
pub open spec fn spec_archived_name(version: Seq<char>, p: Platform) -> Seq<char> {
    spec_unarchived_name(version, p) + "."@ + spec_extension(spec_file_type(p.os))
}

/// The executable's path inside the unarchived directory.
pub open spec fn spec_executable_path(version: Seq<char>, p: Platform) -> Seq<char> {
    spec_unarchived_name(version, p) + "/mpls"@
}

/// Drops the leading version-prefix character of a registry version string
/// ("v1.2.3" becomes "1.2.3").
pub fn strip_version_prefix(version: &str) -> (r: String)
    requires
        version@.len() >= 1,
    ensures
        r@ == version@.subrange(1, version@.len() as int),
{
    let n = version.unicode_len();
    String::from_str(version.substring_char(1, n))
}

pub fn unarchived_name(version: &str, p: Platform) -> (r: String)
    ensures
        r@ == spec_unarchived_name(version@, p),
{
    let mut s = String::from_str("mpls_");
    s.append(version);
    s.append("_");
    s.append(os_token(p.os));
    s.append("_");
    s.append(arch_token(p.arch));
    s
}

pub fn archived_name(version: &str, p: Platform) -> (r: String)
    ensures
        r@ == spec_archived_name(version@, p),
{
    let mut s = unarchived_name(version, p);
    s.append(".");
    s.append(extension(file_type_for(p.os)));
    s
}

pub fn executable_path(version: &str, p: Platform) -> (r: String)
    ensures
        r@ == spec_executable_path(version@, p),
{
    let mut s = unarchived_name(version, p);
    s.append("/mpls");
    s
}

} // verus!
