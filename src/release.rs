//! Update targets published as releases: where their version marker lives,
//! where their release is described, whether they need an update, and which
//! release asset replaces each managed file.

use vstd::prelude::*;
use crate::paths::{AssetPath, opt_view, owned, split_asset_path, split_spec};
use crate::swap::FsOp;

verus! {

/// Why a target cannot be updated from what the library was given.
#[derive(Debug)]
pub enum UpdateError {
    /// The release service answered with an error message.
    Api(String),
    /// The release has no asset named like this managed file.
    MissingAsset(String),
    /// A managed path that does not end in a plain file name.
    InvalidAssetPath(String),
}

/// One downloadable file of a release.
pub struct GitHubReleaseAsset {
    pub browser_download_url: String,
    pub name: String,
    pub size: usize,
}

/// A release as the release service describes it.
pub struct GitHubRelease {
    /// The service's error message, present when the request failed.
    pub message: Option<String>,
    pub tag_name: String,
    pub assets: Vec<GitHubReleaseAsset>,
    pub published_at: String,
}

/// One update target: a display name, the repository whose latest release
/// it follows, and the files it manages.
pub struct GitHubReleaseChecker {
    pub name: String,
    pub owner: String,
    pub repo: String,
    pub asset_paths: Vec<String>,
}

/// What a target needs after its version check.
pub enum UpdatePlan {
    /// Every managed file is present and the marker holds the remote version.
    UpToDate,
    /// Download the release asset `sources[i]` for the managed file `i`,
    /// commit each, then write `marker`.
    Update { sources: Vec<usize>, marker: FsOp },
}

pub open spec fn version_path_spec(repo: Seq<char>) -> Seq<char> {
    "cef/"@ + repo + ".txt"@
}

pub open spec fn url_spec(owner: Seq<char>, repo: Seq<char>) -> Seq<char> {
    "https://api.github.com/repos/"@ + owner + "/"@ + repo + "/releases/latest"@
}

/// A target needs an update when a managed file is missing, when no version
/// is recorded, or when the recorded version is not the remote one.
pub open spec fn needs_update_spec(
    missing_asset: bool,
    current_version: Option<Seq<char>>,
    remote_version: Seq<char>,
) -> bool {
    missing_asset || current_version != Some(remote_version)
}

pub open spec fn has_asset_named(release: GitHubRelease, name: Seq<char>) -> bool {
    exists|j: int| 0 <= j < release.assets.len() && (#[trigger] release.assets[j]).name@ == name
}

/// `j` is the first asset of the release named `name`.
pub open spec fn is_first_named(release: GitHubRelease, name: Seq<char>, j: int) -> bool {
    &&& 0 <= j < release.assets.len()
    &&& release.assets[j].name@ == name
    &&& forall|k: int| 0 <= k < j ==> (#[trigger] release.assets[k]).name@ != name
}

impl GitHubReleaseChecker {
    pub fn new(name: &str, owner: &str, repo: &str, asset_paths: Vec<String>) -> (r: Self)
        ensures
            r.name@ == name@,
            r.owner@ == owner@,
            r.repo@ == repo@,
            r.asset_paths@ == asset_paths@,
    {
        GitHubReleaseChecker {
            name: owned(name),
            owner: owned(owner),
            repo: owned(repo),
            asset_paths,
        }
    }

    /// The version marker of this target: `cef/<repo>.txt`.
    pub fn version_path(&self) -> (r: String)
        ensures
            r@ == version_path_spec(self.repo@),
    {
        let mut r = owned("cef/");
        r.append(self.repo.as_str());
        r.append(".txt");
        r
    }

    /// Where the latest release of this target is described.
    pub fn url(&self) -> (r: String)
        ensures
            r@ == url_spec(self.owner@, self.repo@),
    {
        let mut r = owned("https://api.github.com/repos/");
        r.append(self.owner.as_str());
        r.append("/");
        r.append(self.repo.as_str());
        r.append("/releases/latest");
        r
    }

    /// Each managed path split into directory and file name, in order.
    pub fn assets(&self) -> (r: Result<Vec<AssetPath>, UpdateError>)
        ensures
            match r {
                Ok(v) => {
                    &&& v@.len() == self.asset_paths@.len()
                    &&& forall|i: int|
                        0 <= i < v@.len() ==> split_spec(self.asset_paths@[i]@) == Some(
                            ((#[trigger] v@[i]).dir@, v@[i].name@),
                        )
                },
                Err(e) => {
                    &&& e is InvalidAssetPath
                    &&& exists|i: int|
                        0 <= i < self.asset_paths@.len() && #[trigger] split_spec(
                            self.asset_paths@[i]@,
                        ) is None
                },
            },
    {
        let mut v: Vec<AssetPath> = Vec::new();
        let mut i: usize = 0;
        while i < self.asset_paths.len()
            invariant
                i <= self.asset_paths@.len(),
                v@.len() == i,
                forall|k: int|
                    0 <= k < i ==> split_spec(self.asset_paths@[k]@) == Some(
                        ((#[trigger] v@[k]).dir@, v@[k].name@),
                    ),
            decreases self.asset_paths@.len() - i,
        {
            match split_asset_path(self.asset_paths[i].as_str()) {
                Some(a) => v.push(a),
                None => {
                    return Err(UpdateError::InvalidAssetPath(self.asset_paths[i].clone()));
                },
            }
            i = i + 1;
        }
        Ok(v)
    }

    /// Writes the remote version into this target's marker.
    pub fn marker_op(&self, release: &GitHubRelease) -> (r: FsOp)
        ensures
            r@ == crate::swap::OpView::Write(
                version_path_spec(self.repo@),
                release.published_at@,
            ),
    {
        FsOp::Write { path: self.version_path(), text: release.published_at.clone() }
    }

    /// The version check of this target. `any_missing` says whether a managed
    /// file is absent from disk, `current_version` is the marker's content.
    /// Up to date exactly when nothing is missing and the marker holds the
    /// release's publication time; otherwise every managed file must have an
    /// asset of the same name in the release.
    pub fn plan_update(
        &self,
        assets: &Vec<AssetPath>,
        any_missing: bool,
        current_version: &Option<String>,
        release: &GitHubRelease,
    ) -> (r: Result<UpdatePlan, UpdateError>)
        ensures
            !needs_update_spec(any_missing, opt_view(*current_version), release.published_at@)
                <==> (r matches Ok(UpdatePlan::UpToDate)),
            needs_update_spec(any_missing, opt_view(*current_version), release.published_at@) ==> {
                match r {
                    Ok(UpdatePlan::Update { sources, marker }) => {
                        &&& sources@.len() == assets@.len()
                        &&& forall|i: int|
                            0 <= i < assets@.len() ==> is_first_named(
                                *release,
                                assets@[i].name@,
                                #[trigger] sources@[i] as int,
                            )
                        &&& marker@ == crate::swap::OpView::Write(
                            version_path_spec(self.repo@),
                            release.published_at@,
                        )
                    },
                    Ok(UpdatePlan::UpToDate) => false,
                    Err(e) => {
                        &&& e is MissingAsset
                        &&& exists|i: int|
                            0 <= i < assets@.len() && !has_asset_named(
                                *release,
                                (#[trigger] assets@[i]).name@,
                            )
                    },
                }
            },
    {
        if !needs_update(any_missing, current_version, &release.published_at) {
            return Ok(UpdatePlan::UpToDate);
        }
        let mut sources: Vec<usize> = Vec::new();
        let mut i: usize = 0;
        while i < assets.len()
            invariant
                needs_update_spec(any_missing, opt_view(*current_version), release.published_at@),
                i <= assets@.len(),
                sources@.len() == i,
                forall|k: int|
                    0 <= k < i ==> is_first_named(
                        *release,
                        assets@[k].name@,
                        #[trigger] sources@[k] as int,
                    ),
            decreases assets@.len() - i,
        {
            match find_asset(release, &assets[i].name) {
                Some(j) => sources.push(j),
                None => {
                    return Err(UpdateError::MissingAsset(assets[i].name.clone()));
                },
            }
            i = i + 1;
        }
        Ok(UpdatePlan::Update { sources, marker: self.marker_op(release) })
    }
}

/// Whether a target needs an update; see `needs_update_spec`.
pub fn needs_update(
    missing_asset: bool,
    current_version: &Option<String>,
    remote_version: &String,
) -> (r: bool)
    ensures
        r == needs_update_spec(missing_asset, opt_view(*current_version), remote_version@),
{
    if missing_asset {
        return true;
    }
    match current_version {
        Some(cur) => !cur.eq(remote_version),
        None => true,
    }
}

/// The first asset of `release` named `name`.
pub fn find_asset(release: &GitHubRelease, name: &String) -> (r: Option<usize>)
    ensures
        match r {
            Some(j) => is_first_named(*release, name@, j as int),
            None => !has_asset_named(*release, name@),
        },
{
    let mut j: usize = 0;
    while j < release.assets.len()
        invariant
            j <= release.assets@.len(),
            forall|k: int| 0 <= k < j ==> (#[trigger] release.assets@[k]).name@ != name@,
        decreases release.assets@.len() - j,
    {
        if release.assets[j].name == *name {
            return Some(j);
        }
        j = j + 1;
    }
    None
}

/// Accepts a release description only when it carries no error message.
pub fn check_release(release: GitHubRelease) -> (r: Result<GitHubRelease, UpdateError>)
    ensures
        match release.message {
            Some(m) => r matches Err(UpdateError::Api(e)) && e@ == m@,
            None => r == Ok::<GitHubRelease, UpdateError>(release),
        },
{
    match release.message {
        Some(m) => Err(UpdateError::Api(m)),
        None => Ok(release),
    }
}

} // verus!
