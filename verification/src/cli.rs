//! Release selection for `acquire_cli`: which CLI build to download into
//! the cache before spawning it. With a commit given the release is fixed
//! here; without one the update service must be asked for the latest
//! commit.

use vstd::prelude::*;

verus! {

/// The kind of build a release refers to.
pub enum TargetKind {
    Server,
    Archive,
    Web,
    Cli,
}

/// One downloadable build.
pub struct Release {
    pub name: String,
    pub commit: String,
    pub platform: String,
    pub quality: String,
    pub target: TargetKind,
}

/// The outcome of choosing a CLI release.
pub enum CliReleaseChoice {
    /// Download exactly this release.
    Chosen(Release),
    /// Ask the update service for the latest CLI commit of this platform
    /// and quality, and download that.
    NeedLatest,
}

/// Choose the CLI release for `acquire_cli`: a given commit fixes the
/// release, named after the product; without one the latest commit must
/// be fetched.
pub fn choose_cli_release(
    product_name: &str,
    platform: String,
    quality: String,
    commit_id: Option<String>,
) -> (r: CliReleaseChoice)
    ensures
        (commit_id matches Some(c) ==> r matches CliReleaseChoice::Chosen(rel) && rel.commit@ == c@
            && rel.platform@ == platform@ && rel.quality@ == quality@ && rel.target is Cli
            && rel.name@ == product_name@ + " CLI"@),
        (commit_id is None ==> r is NeedLatest),
{
    match commit_id {
        Some(commit) => {
            let name = String::from_str(product_name).concat(" CLI");
            CliReleaseChoice::Chosen(Release {
                name,
                commit,
                platform,
                quality,
                target: TargetKind::Cli,
            })
        },
        None => CliReleaseChoice::NeedLatest,
    }
}

} // verus!
