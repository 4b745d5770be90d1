//! The libraries that a mission depends on: what each manifest asks for,
//! where it is downloaded from, and where it is stored.

use vstd::prelude::*;
use vstd::string::*;
use crate::manifest::{
    lemma_lines_are_independent, resolve, resolved, ManifestLine, ManifestLineView,
};
use crate::mission::FetchArgs;
use crate::url::{
    artifact_file_name, build_artifact_file_name, build_library_artifact_url,
    library_artifact_url,
};

verus! {

/// Kind of the libraries that a mission is built on. It names their
/// manifest, `sbslib.txt`, and is the extension of their files.
pub const PRIMARY_KIND: &'static str = "sbslib";

/// Kind of the add-on libraries. It names their manifest, `mastlib.txt`,
/// and is the extension of their files.
pub const ADDON_KIND: &'static str = "mastlib";

/// The folder, inside the mission folder, that holds the add-on libraries.
pub const ADDON_FOLDER: &'static str = "addons";

/// One library to fetch.
#[derive(Clone, Debug, PartialEq, Eq)]
pub struct FetchLibArgs {
    /// The user or organization that owns the repository.
    pub user: String,
    /// The repository that released the library.
    pub repo: String,
    /// The name of the library.
    pub lib: String,
    /// The tag of the release.
    pub version: String,
    /// The extension of the library's file, which is the kind of the
    /// library.
    pub libext: String,
    /// The folder of the mission that needs the library.
    pub mission_folder: String,
}

/// A `FetchLibArgs` as sequences of characters.
pub struct FetchLibArgsView {
    pub user: Seq<char>,
    pub repo: Seq<char>,
    pub lib: Seq<char>,
    pub version: Seq<char>,
    pub libext: Seq<char>,
    pub mission_folder: Seq<char>,
}

impl View for FetchLibArgs {
    type V = FetchLibArgsView;

    open spec fn view(&self) -> FetchLibArgsView {
        FetchLibArgsView {
            user: self.user@,
            repo: self.repo@,
            lib: self.lib@,
            version: self.version@,
            libext: self.libext@,
            mission_folder: self.mission_folder@,
        }
    }
}

/// One download: the file at `url` is stored as `local`, once the
/// directory `folder` exists.
#[derive(Clone, Debug, PartialEq, Eq)]
pub struct LibDownload {
    /// The address to download from.
    pub url: String,
    /// The file to store the download in, replacing what is there.
    pub local: String,
    /// The directory that holds the file: the mission folder, or the
    /// sub-folder inside it. It is created where it is missing, with the
    /// directories above it.
    pub folder: String,
}

/// A `LibDownload` as sequences of characters.
pub struct LibDownloadView {
    pub url: Seq<char>,
    pub local: Seq<char>,
    pub folder: Seq<char>,
}

impl View for LibDownload {
    type V = LibDownloadView;

    open spec fn view(&self) -> LibDownloadView {
        LibDownloadView { url: self.url@, local: self.local@, folder: self.folder@ }
    }
}

impl DeepView for LibDownload {
    type V = LibDownloadView;

    open spec fn deep_view(&self) -> LibDownloadView {
        self.view()
    }
}

/// The mission folder `mission_folder` under the destination root.
pub open spec fn mission_dir(base_dir: Seq<char>, mission_folder: Seq<char>) -> Seq<char> {
    base_dir + "/"@ + mission_folder
}

/// The directory that holds the libraries of one kind: the mission
/// folder, or `sub_folder` inside it.
pub open spec fn library_dir(
    base_dir: Seq<char>,
    mission_folder: Seq<char>,
    sub_folder: Option<Seq<char>>,
) -> Seq<char> {
    match sub_folder {
        Some(folder) => mission_dir(base_dir, mission_folder) + "/"@ + folder,
        None => mission_dir(base_dir, mission_folder),
    }
}

/// The file that a library is stored in: `<lib>_<version>.<libext>` in the
/// directory that holds the libraries of its kind.
pub open spec fn local_path(
    args: FetchLibArgsView,
    base_dir: Seq<char>,
    sub_folder: Option<Seq<char>>,
) -> Seq<char> {
    library_dir(base_dir, args.mission_folder, sub_folder) + "/"@ + artifact_file_name(
        args.lib,
        args.version,
        args.libext,
    )
}

/// The download that fetches the library `args`.
pub open spec fn planned_download(
    args: FetchLibArgsView,
    base_dir: Seq<char>,
    sub_folder: Option<Seq<char>>,
) -> LibDownloadView {
    LibDownloadView {
        url: library_artifact_url(args.user, args.repo, args.version, args.lib, args.libext),
        local: local_path(args, base_dir, sub_folder),
        folder: library_dir(base_dir, args.mission_folder, sub_folder),
    }
}

/// Decides where a library is downloaded from and where it is stored.
pub fn fetch_sbs_lib(
    args: &FetchLibArgs,
    base_dir: &str,
    sub_folder: &Option<String>,
) -> (download: LibDownload)
    ensures
        download@ == planned_download(args@, base_dir@, sub_folder.deep_view()),
{
    let url = build_library_artifact_url(
        args.user.as_str(),
        args.repo.as_str(),
        args.version.as_str(),
        args.lib.as_str(),
        args.libext.as_str(),
    );
    let mut folder = String::from_str(base_dir);
    folder.append("/");
    folder.append(args.mission_folder.as_str());
    match sub_folder {
        Some(inner) => {
            folder.append("/");
            folder.append(inner.as_str());
        },
        None => {},
    }
    let mut local = folder.clone();
    local.append("/");
    let name = build_artifact_file_name(
        args.lib.as_str(),
        args.version.as_str(),
        args.libext.as_str(),
    );
    local.append(name.as_str());
    LibDownload { url, local, folder }
}

/// The library that a line of the manifest of the kind `lib_type` asks
/// for, on behalf of the mission in `mission_folder`.
pub open spec fn library_request(
    line: ManifestLineView,
    lib_type: Seq<char>,
    mission_folder: Seq<char>,
) -> FetchLibArgsView {
    FetchLibArgsView {
        user: line.user,
        repo: line.repo,
        lib: line.lib,
        version: line.version,
        libext: lib_type,
        mission_folder,
    }
}

/// Names the library that a line of a manifest asks for.
pub fn request_library(
    line: &ManifestLine,
    lib_type: &str,
    mission_folder: &str,
) -> (args: FetchLibArgs)
    ensures
        args@ == library_request(line@, lib_type@, mission_folder@),
{
    FetchLibArgs {
        user: line.user.clone(),
        repo: line.repo.clone(),
        lib: line.lib.clone(),
        version: line.version.clone(),
        libext: String::from_str(lib_type),
        mission_folder: String::from_str(mission_folder),
    }
}

/// The downloads for `lines`, one for each, in their order.
pub open spec fn planned_downloads(
    lines: Seq<ManifestLineView>,
    lib_type: Seq<char>,
    mission_folder: Seq<char>,
    base_dir: Seq<char>,
    sub_folder: Option<Seq<char>>,
) -> Seq<LibDownloadView> {
    lines.map_values(
        |line: ManifestLineView|
            planned_download(
                library_request(line, lib_type, mission_folder),
                base_dir,
                sub_folder,
            ),
    )
}

/// The downloads that a manifest asks for. `None` stands for a manifest
/// that does not exist, which asks for nothing.
pub open spec fn mission_downloads(
    manifest: Option<Seq<char>>,
    lib_type: Seq<char>,
    mission_folder: Seq<char>,
    base_dir: Seq<char>,
    sub_folder: Option<Seq<char>>,
) -> Seq<LibDownloadView> {
    match manifest {
        None => Seq::empty(),
        Some(text) => planned_downloads(
            resolved(text),
            lib_type,
            mission_folder,
            base_dir,
            sub_folder,
        ),
    }
}

/// The file, under the destination root, that holds the manifest of the
/// kind `lib_type`: `<lib_type>.txt` in the mission folder.
pub open spec fn manifest_file(
    base_dir: Seq<char>,
    mission_folder: Seq<char>,
    lib_type: Seq<char>,
) -> Seq<char> {
    mission_dir(base_dir, mission_folder) + "/"@ + lib_type + ".txt"@
}

/// Names the file that holds a mission's manifest of the kind `lib_type`.
pub fn manifest_path(args: &FetchArgs, lib_type: &str, base_dir: &str) -> (path: String)
    ensures
        path@ == manifest_file(base_dir@, args.folder(), lib_type@),
{
    let folder = args.folder_name();
    let mut path = String::from_str(base_dir);
    path.append("/");
    path.append(folder.as_str());
    path.append("/");
    path.append(lib_type);
    path.append(".txt");
    path
}

/// Decides which libraries of the kind `lib_type` a mission needs: one
/// download for each line of `manifest` that asks for a library, in the
/// order of the lines. `manifest` is the text of the manifest, or `None`
/// where the mission has none.
pub fn fetch_mission_deps(
    args: &FetchArgs,
    lib_type: &str,
    base_dir: &str,
    sub_folder: &Option<String>,
    manifest: &Option<String>,
) -> (downloads: Vec<LibDownload>)
    ensures
        downloads.deep_view() == mission_downloads(
            manifest.deep_view(),
            lib_type@,
            args.folder(),
            base_dir@,
            sub_folder.deep_view(),
        ),
        manifest is None ==> downloads.len() == 0,
{
    let mut downloads: Vec<LibDownload> = Vec::new();
    let text = match manifest {
        None => {
            assert(downloads.deep_view() =~= Seq::<LibDownloadView>::empty());
            return downloads;
        },
        Some(text) => text,
    };
    let mission_folder = args.folder_name();
    let lines = resolve(text.as_str());
    let ghost all = lines.deep_view();
    let ghost wanted = planned_downloads(
        all,
        lib_type@,
        args.folder(),
        base_dir@,
        sub_folder.deep_view(),
    );
    let mut i: usize = 0;
    while i < lines.len()
        invariant
            i <= lines.len(),
            all == lines.deep_view(),
            mission_folder@ == args.folder(),
            wanted == planned_downloads(
                all,
                lib_type@,
                args.folder(),
                base_dir@,
                sub_folder.deep_view(),
            ),
            downloads.deep_view() == wanted.take(i as int),
        decreases lines.len() - i,
    {
        let ghost before = downloads.deep_view();
        let request = request_library(&lines[i], lib_type, mission_folder.as_str());
        let download = fetch_sbs_lib(&request, base_dir, sub_folder);
        downloads.push(download);
        assert(downloads.deep_view() =~= before.push(download@));
        assert(wanted.take(i + 1) =~= wanted.take(i as int).push(wanted[i as int]));
        i += 1;
    }
    assert(wanted.take(lines.len() as int) =~= wanted);
    downloads
}

/// Decides which libraries a mission is built on: what its manifest
/// `sbslib.txt` asks for, stored in the mission folder.
pub fn fetch_mission_sbs_deps(
    args: &FetchArgs,
    base_dir: &str,
    manifest: &Option<String>,
) -> (downloads: Vec<LibDownload>)
    ensures
        downloads.deep_view() == mission_downloads(
            manifest.deep_view(),
            PRIMARY_KIND@,
            args.folder(),
            base_dir@,
            None,
        ),
        manifest is None ==> downloads.len() == 0,
{
    fetch_mission_deps(args, PRIMARY_KIND, base_dir, &None, manifest)
}

/// Decides which add-on libraries a mission needs: what its manifest
/// `mastlib.txt` asks for, stored in the folder `addons` inside the mission
/// folder.
pub fn fetch_mission_mast_deps(
    args: &FetchArgs,
    base_dir: &str,
    manifest: &Option<String>,
) -> (downloads: Vec<LibDownload>)
    ensures
        downloads.deep_view() == mission_downloads(
            manifest.deep_view(),
            ADDON_KIND@,
            args.folder(),
            base_dir@,
            Some(ADDON_FOLDER@),
        ),
        manifest is None ==> downloads.len() == 0,
{
    fetch_mission_deps(args, ADDON_KIND, base_dir, &Some(String::from_str(ADDON_FOLDER)), manifest)
}

/// Each line asks for its library by itself: the downloads of a manifest
/// are those of what stands before one of its line feeds, followed by those
/// of what stands after it.
pub proof fn lemma_downloads_by_line(
    before: Seq<char>,
    after: Seq<char>,
    lib_type: Seq<char>,
    mission_folder: Seq<char>,
    base_dir: Seq<char>,
    sub_folder: Option<Seq<char>>,
)
    ensures
        mission_downloads(
            Some(before + seq!['\n'] + after),
            lib_type,
            mission_folder,
            base_dir,
            sub_folder,
        ) == mission_downloads(Some(before), lib_type, mission_folder, base_dir, sub_folder)
            + mission_downloads(Some(after), lib_type, mission_folder, base_dir, sub_folder),
{
    lemma_lines_are_independent(before, after);
    assert(planned_downloads(
        resolved(before) + resolved(after),
        lib_type,
        mission_folder,
        base_dir,
        sub_folder,
    ) =~= planned_downloads(resolved(before), lib_type, mission_folder, base_dir, sub_folder)
        + planned_downloads(resolved(after), lib_type, mission_folder, base_dir, sub_folder));
}

} // verus!
