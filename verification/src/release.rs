//! Locating the right asset of a release and planning the online install.
//!
//! The host fetches release metadata; the decisions here are pure: which
//! names the release implies for this platform, whether a previously
//! unarchived executable may be reused, and which asset to download when not.
use vstd::prelude::*;

use crate::names::FileType;
use crate::names::archived_name;
use crate::names::executable_path;
use crate::names::file_type_for;
use crate::names::spec_archived_name;
use crate::names::spec_executable_path;
use crate::names::spec_file_type;
use crate::names::spec_unarchived_name;
use crate::names::strip_version_prefix;
use crate::names::unarchived_name;
use crate::platform::Platform;
use crate::resolver::Error;

verus! {

/// One downloadable artifact of a release, identified by exact filename.
pub struct Asset {
    pub name: String,
    pub download_url: String,
}

/// A published release: a version string as the registry reports it
/// (prefix character included) and its attached assets.
pub struct Release {
    pub version: String,
    pub assets: Vec<Asset>,
}

/// Everything the online path derives from a release and a platform.
pub struct OnlinePlan {
    pub archived_name: String,
    pub unarchived_name: String,
    pub executable_path: String,
    pub file_type: FileType,
}

/// The version string with its leading prefix character dropped.
pub open spec fn spec_stripped(version: Seq<char>) -> Seq<char> {
    version.subrange(1, version.len() as int)
}

/// What a correct plan for a release version and platform holds.
pub open spec fn plan_matches(plan: OnlinePlan, version: Seq<char>, p: Platform) -> bool {
    &&& plan.archived_name@ == spec_archived_name(spec_stripped(version), p)
    &&& plan.unarchived_name@ == spec_unarchived_name(spec_stripped(version), p)
    &&& plan.executable_path@ == spec_executable_path(spec_stripped(version), p)
    &&& plan.file_type == spec_file_type(p.os)
}

/// Derives archive name, unarchived directory name, executable path and
/// archive kind for a release version on a platform.
pub fn plan_online(version: &str, p: Platform) -> (r: OnlinePlan)
    requires
        version@.len() >= 1,
    ensures
        plan_matches(r, version@, p),
{
    let stripped = strip_version_prefix(version);
    OnlinePlan {
        archived_name: archived_name(stripped.as_str(), p),
        unarchived_name: unarchived_name(stripped.as_str(), p),
        executable_path: executable_path(stripped.as_str(), p),
        file_type: file_type_for(p.os),
    }
}

/// The index of the first asset whose name is exactly `name`.
pub fn find_asset(assets: &Vec<Asset>, name: &String) -> (r: Option<usize>)
    ensures
        match r {
            Some(i) => i < assets@.len() && assets@[i as int].name@ == name@ && forall|j: int|
                0 <= j < i ==> assets@[j].name@ != name@,
            None => forall|j: int| 0 <= j < assets@.len() ==> assets@[j].name@ != name@,
        },
{
    let mut i: usize = 0;
    while i < assets.len()
        invariant
            i <= assets@.len(),
            forall|j: int| 0 <= j < i ==> assets@[j].name@ != name@,
        decreases assets@.len() - i,
    {
        if assets[i].name.eq(name) {
            return Some(i);
        }
        i += 1;
    }
    None
}

/// What the host must do next on the online path.
#[derive(Clone, Copy, PartialEq, Eq, Structural, Debug)]
pub enum OnlineDirective {
    /// The unarchived executable is already on disk: mark it runnable and
    /// use it; nothing is downloaded.
    UseExisting,
    /// Download and unpack the asset at this index of the release's list.
    Download { asset: usize },
}

/// Decides the online path: reuse the unarchived executable when it already
/// exists, otherwise name the exact asset to download, and fail when the
/// release carries no asset under the derived archive name.
pub fn online_step(plan: &OnlinePlan, executable_exists: bool, assets: &Vec<Asset>) -> (r: Result<
    OnlineDirective,
    Error,
>)
    ensures
        executable_exists ==> r == Ok::<OnlineDirective, Error>(OnlineDirective::UseExisting),
        !executable_exists ==> match r {
            Ok(d) => d matches OnlineDirective::Download { asset } && asset < assets@.len()
                && assets@[asset as int].name@ == plan.archived_name@ && forall|j: int|
                0 <= j < asset ==> assets@[j].name@ != plan.archived_name@,
            Err(e) => e == Error::AssetNotFound && forall|j: int|
                0 <= j < assets@.len() ==> assets@[j].name@ != plan.archived_name@,
        },
{
    if executable_exists {
        return Ok(OnlineDirective::UseExisting);
    }
    match find_asset(assets, &plan.archived_name) {
        Some(i) => Ok(OnlineDirective::Download { asset: i }),
        None => Err(Error::AssetNotFound),
    }
}

} // verus!
