//! Where the program of a server is fetched from.

use vstd::prelude::*;
use vstd::string::StringExecFns;
use crate::text::{decimal, push_decimal};

verus! {

/// The address under which the builds of Paper are listed.
pub const PAPER_VERSIONS: &'static str = "https://papermc.io/api/v2/projects/paper/versions/";

/// The first part of the address of a Pufferfish job.
pub const PUFFERFISH_JOBS: &'static str = "https://ci.pufferfish.host/job/Pufferfish-";

/// The key under which a build of Paper lists the server's program.
pub const PAPER_APPLICATION: &'static str = "application";

/// The source of Paper servers.
#[derive(Debug, Clone, Copy)]
pub struct PaperJarProvider;

/// The source of Pufferfish servers.
#[derive(Debug, Clone, Copy)]
pub struct PufferfishJarProvider;

impl PaperJarProvider {
    /// The address that lists the builds of a version.
    pub fn version_url(version: &str) -> (url: String)
        ensures
            url@ == PAPER_VERSIONS@ + version@,
    {
        let mut url = String::from_str(PAPER_VERSIONS);
        url.append(version);
        url
    }

    /// The latest of the builds of a version: the one with the largest
    /// number. There is none where no build is listed.
    pub fn latest_build(builds: &Vec<u16>) -> (latest: Option<u16>)
        ensures
            latest is None <==> builds.len() == 0,
            latest is Some ==> builds@.contains(latest->0),
            latest is Some ==> forall|i: int| 0 <= i < builds.len() ==> builds[i] <= latest->0,
    {
        if builds.len() == 0 {
            return None;
        }
        let mut latest: u16 = builds[0];
        let mut i: usize = 1;
        while i < builds.len()
            invariant
                1 <= i <= builds.len(),
                exists|j: int| 0 <= j < i && builds[j] == latest,
                forall|j: int| 0 <= j < i ==> builds[j] <= latest,
            decreases builds.len() - i,
        {
            if builds[i] >= latest {
                latest = builds[i];
            }
            i += 1;
        }
        Some(latest)
    }

    /// The address that describes one build of a version.
    pub fn build_url(version: &str, build_id: u16) -> (url: String)
        ensures
            url@ == PAPER_VERSIONS@ + version@ + "/builds/"@ + decimal(build_id as nat),
    {
        let mut url = PaperJarProvider::version_url(version);
        url.append("/builds/");
        push_decimal(&mut url, build_id as u64);
        url
    }

    /// The address of the file `file_name` of one build of a version.
    pub fn download_url(version: &str, build_id: u16, file_name: &str) -> (url: String)
        ensures
            url@ == PAPER_VERSIONS@ + version@ + "/builds/"@ + decimal(build_id as nat)
                + "/downloads/"@ + file_name@,
    {
        let mut url = PaperJarProvider::build_url(version, build_id);
        url.append("/downloads/");
        url.append(file_name);
        url
    }
}

impl PufferfishJarProvider {
    /// The address that describes the last good build of a version.
    pub fn build_url(version: &str) -> (url: String)
        ensures
            url@ == PUFFERFISH_JOBS@ + version@ + "/lastSuccessfulBuild/api/json"@,
    {
        let mut url = String::from_str(PUFFERFISH_JOBS);
        url.append(version);
        url.append("/lastSuccessfulBuild/api/json");
        url
    }

    /// The address of the file at `relative_path` in the last good build of
    /// a version.
    pub fn artifact_url(version: &str, relative_path: &str) -> (url: String)
        ensures
            url@ == PUFFERFISH_JOBS@ + version@ + "/lastSuccessfulBuild/artifact/"@
                + relative_path@,
    {
        let mut url = String::from_str(PUFFERFISH_JOBS);
        url.append(version);
        url.append("/lastSuccessfulBuild/artifact/");
        url.append(relative_path);
        url
    }
}

} // verus!
