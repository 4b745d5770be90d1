//! Download addresses on the code forge.

use vstd::prelude::*;
use vstd::string::*;

verus! {

/// Prefix of every address on the forge, up to and including the slash
/// before the owner.
pub const FORGE: &'static str = "https://github.com/";

/// Address of the snapshot archive of `project`, owned by `user`, at the
/// branch or other reference `reference`.
pub open spec fn mission_archive_url(
    user: Seq<char>,
    project: Seq<char>,
    reference: Seq<char>,
) -> Seq<char> {
    FORGE@ + user + "/"@ + project + "/zipball/"@ + reference + "/"@
}

/// Name of the release asset that holds `library` at `version`:
/// `<library>_<version>.<extension>`.
pub open spec fn artifact_file_name(
    library: Seq<char>,
    version: Seq<char>,
    extension: Seq<char>,
) -> Seq<char> {
    library + "_"@ + version + "."@ + extension
}

/// Address of the release asset of `repo`, owned by `user`, that holds
/// `library` at the release tagged `version`.
pub open spec fn library_artifact_url(
    user: Seq<char>,
    repo: Seq<char>,
    version: Seq<char>,
    library: Seq<char>,
    extension: Seq<char>,
) -> Seq<char> {
    FORGE@ + user + "/"@ + repo + "/releases/download/"@ + version + "/"@ + artifact_file_name(
        library,
        version,
        extension,
    )
}

/// Builds the name of a release asset.
pub fn build_artifact_file_name(library: &str, version: &str, extension: &str) -> (name: String)
    ensures
        name@ == artifact_file_name(library@, version@, extension@),
{
    let mut name = String::from_str(library);
    name.append("_");
    name.append(version);
    name.append(".");
    name.append(extension);
    name
}

/// Builds the address of a mission's snapshot archive.
pub fn build_mission_archive_url(user: &str, project: &str, reference: &str) -> (url: String)
    ensures
        url@ == mission_archive_url(user@, project@, reference@),
{
    let mut url = String::from_str(FORGE);
    url.append(user);
    url.append("/");
    url.append(project);
    url.append("/zipball/");
    url.append(reference);
    url.append("/");
    url
}

/// Builds the address of a library's release asset.
pub fn build_library_artifact_url(
    user: &str,
    repo: &str,
    version: &str,
    library: &str,
    extension: &str,
) -> (url: String)
    ensures
        url@ == library_artifact_url(user@, repo@, version@, library@, extension@),
{
    let mut url = String::from_str(FORGE);
    url.append(user);
    url.append("/");
    url.append(repo);
    url.append("/releases/download/");
    url.append(version);
    url.append("/");
    let name = build_artifact_file_name(library, version, extension);
    url.append(name.as_str());
    url
}

} // verus!
