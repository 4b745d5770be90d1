use mission_fetch::deps::{
    fetch_mission_mast_deps, fetch_mission_sbs_deps, manifest_path, LibDownload, ADDON_KIND,
    PRIMARY_KIND,
};
use mission_fetch::extract::{EntryAction, ExtractStep};
use mission_fetch::mission::{fetch_mission_code, FetchArgs};
use mission_fetch::orchestrator::{Outcome, Run, Task, Verdict};
use std::collections::{BTreeMap, BTreeSet};
use std::io::{Cursor, Write};
use zip::write::SimpleFileOptions;
use zip::ZipWriter;

const BASE: &str = "/opt/game";

/// A forge and a file system that exist in memory only.
struct World {
    /// What each address serves.
    served: BTreeMap<String, Vec<u8>>,
    /// The files on disk.
    files: BTreeMap<String, Vec<u8>>,
    /// The directories on disk.
    dirs: BTreeSet<String>,
    /// The addresses that were asked for, in order.
    asked: Vec<String>,
}

impl World {
    fn new() -> World {
        World {
            served: BTreeMap::new(),
            files: BTreeMap::new(),
            dirs: BTreeSet::new(),
            asked: Vec::new(),
        }
    }

    fn get(&mut self, url: &str) -> Option<Vec<u8>> {
        self.asked.push(url.to_string());
        self.served.get(url).cloned()
    }

    fn apply(&mut self, step: &ExtractStep) {
        match &step.action {
            EntryAction::Skip(_) => {},
            EntryAction::CreateDir { path } => {
                self.dirs.insert(path.clone());
            },
            EntryAction::WriteFile { path, parent, data } => {
                self.dirs.insert(parent.clone());
                self.files.insert(path.clone(), data.clone());
            },
        }
    }

    fn read_manifest(&self, path: &str) -> Option<String> {
        self.files.get(path).map(|bytes| String::from_utf8(bytes.clone()).unwrap())
    }

    fn fetch_libraries(&mut self, downloads: &[LibDownload]) -> Outcome {
        let mut outcome = Outcome::Succeeded;
        for download in downloads {
            self.dirs.insert(download.folder.clone());
            match self.get(&download.url) {
                Some(bytes) => {
                    self.files.insert(download.local.clone(), bytes);
                },
                None => outcome = Outcome::Failed,
            }
        }
        outcome
    }
}

/// Runs a fetch against `world`, as a driver does against the real one.
fn drive(args: &FetchArgs, world: &mut World) -> Verdict {
    let mut run = Run::start().advance(Outcome::Succeeded);
    let mut archive: Option<Vec<u8>> = None;
    while !run.stage.is_over() {
        let outcome = match run.stage.task() {
            Task::Nothing => Outcome::Succeeded,
            Task::DownloadArchive => match world.get(&args.archive_url()) {
                Some(bytes) => {
                    archive = Some(bytes);
                    Outcome::Succeeded
                },
                None => Outcome::Failed,
            },
            Task::ExtractArchive => match fetch_mission_code(args, BASE, archive.take().unwrap()) {
                Ok(steps) => {
                    for step in &steps {
                        world.apply(step);
                    }
                    Outcome::Succeeded
                },
                Err(_) => Outcome::Failed,
            },
            Task::FetchPrimaryLibraries => {
                let manifest = world.read_manifest(&manifest_path(args, PRIMARY_KIND, BASE));
                world.fetch_libraries(&fetch_mission_sbs_deps(args, BASE, &manifest))
            },
            Task::FetchAddonLibraries => {
                let manifest = world.read_manifest(&manifest_path(args, ADDON_KIND, BASE));
                world.fetch_libraries(&fetch_mission_mast_deps(args, BASE, &manifest))
            },
        };
        run = run.advance(outcome);
    }
    run.verdict()
}

fn archive(entries: &[(&str, &[u8])]) -> Vec<u8> {
    let mut writer = ZipWriter::new(Cursor::new(Vec::new()));
    for (name, content) in entries {
        if name.ends_with('/') {
            writer.add_directory(*name, SimpleFileOptions::default()).unwrap();
        } else {
            writer.start_file(*name, SimpleFileOptions::default()).unwrap();
            writer.write_all(content).unwrap();
        }
    }
    writer.finish().unwrap().into_inner()
}

fn foo() -> FetchArgs {
    FetchArgs {
        user: "org".to_string(),
        mission: "Foo".to_string(),
        mission_folder: None,
        branch: "main".to_string(),
        docs: false,
    }
}

const FOO_URL: &str = "https://github.com/org/Foo/zipball/main/";

fn release(repo: &str, version: &str, file: &str) -> String {
    format!("https://github.com/artemis-sbs/{}/releases/download/{}/{}", repo, version, file)
}

fn names(files: &BTreeMap<String, Vec<u8>>) -> Vec<&str> {
    files.keys().map(|name| name.as_str()).collect()
}

#[test]
fn mission_without_manifests_is_unpacked_and_asks_for_no_library() {
    let mut world = World::new();
    world.served.insert(
        FOO_URL.to_string(),
        archive(&[
            ("org-Foo-1a2b3c/", b""),
            ("org-Foo-1a2b3c/script.py", b"import sbs"),
            ("org-Foo-1a2b3c/media/", b""),
            ("org-Foo-1a2b3c/media/ship.png", b"\x89PNG"),
        ]),
    );
    assert_eq!(drive(&foo(), &mut world), Verdict::Complete);
    assert_eq!(world.asked, vec![FOO_URL.to_string()]);
    assert_eq!(
        names(&world.files),
        vec!["/opt/game/Foo/media/ship.png", "/opt/game/Foo/script.py"]
    );
    assert_eq!(world.files["/opt/game/Foo/script.py"], b"import sbs".to_vec());
    assert!(world.dirs.contains("/opt/game/Foo/media"));
}

#[test]
fn libraries_of_both_manifests_are_fetched() {
    let mut world = World::new();
    world.served.insert(
        FOO_URL.to_string(),
        archive(&[
            ("org-Foo-1a2b3c/script.py", b"import sbs"),
            (
                "org-Foo-1a2b3c/sbslib.txt",
                b"artemis-sbs sbs_utils v3.9.30b\nartemis-sbs LegendaryMissions v3.9.30b zadmiral\n",
            ),
            ("org-Foo-1a2b3c/mastlib.txt", b"artemis-sbs mast_addons v1.0.0 comms\n"),
        ]),
    );
    let utils = release("sbs_utils", "v3.9.30b", "sbs_utils_v3.9.30b.sbslib");
    let admiral = release("LegendaryMissions", "v3.9.30b", "zadmiral_v3.9.30b.sbslib");
    let comms = release("mast_addons", "v1.0.0", "comms_v1.0.0.mastlib");
    world.served.insert(utils.clone(), b"utils".to_vec());
    world.served.insert(admiral.clone(), b"admiral".to_vec());
    world.served.insert(comms.clone(), b"comms".to_vec());
    assert_eq!(drive(&foo(), &mut world), Verdict::Complete);
    assert_eq!(world.asked, vec![FOO_URL.to_string(), utils, admiral, comms]);
    assert_eq!(world.files["/opt/game/Foo/sbs_utils_v3.9.30b.sbslib"], b"utils".to_vec());
    assert_eq!(world.files["/opt/game/Foo/zadmiral_v3.9.30b.sbslib"], b"admiral".to_vec());
    assert_eq!(world.files["/opt/game/Foo/addons/comms_v1.0.0.mastlib"], b"comms".to_vec());
}

#[test]
fn library_that_cannot_be_fetched_does_not_keep_the_others_from_being_tried() {
    let mut world = World::new();
    world.served.insert(
        FOO_URL.to_string(),
        archive(&[
            ("org-Foo-1a2b3c/sbslib.txt", b"artemis-sbs gone v1\nartemis-sbs sbs_utils v3.9.30b\n"),
            ("org-Foo-1a2b3c/mastlib.txt", b"artemis-sbs mast_addons v1.0.0 comms\n"),
        ]),
    );
    let gone = release("gone", "v1", "gone_v1.sbslib");
    let utils = release("sbs_utils", "v3.9.30b", "sbs_utils_v3.9.30b.sbslib");
    let comms = release("mast_addons", "v1.0.0", "comms_v1.0.0.mastlib");
    world.served.insert(utils.clone(), b"utils".to_vec());
    world.served.insert(comms.clone(), b"comms".to_vec());
    assert_eq!(drive(&foo(), &mut world), Verdict::LibrariesMissing);
    assert_eq!(world.asked, vec![FOO_URL.to_string(), gone, utils, comms]);
    assert!(!world.files.contains_key("/opt/game/Foo/gone_v1.sbslib"));
    assert_eq!(world.files["/opt/game/Foo/sbs_utils_v3.9.30b.sbslib"], b"utils".to_vec());
    assert_eq!(world.files["/opt/game/Foo/addons/comms_v1.0.0.mastlib"], b"comms".to_vec());
}

#[test]
fn mission_that_cannot_be_downloaded_asks_for_no_library() {
    let mut world = World::new();
    world.files.insert(
        "/opt/game/Foo/sbslib.txt".to_string(),
        b"artemis-sbs sbs_utils v3.9.30b\n".to_vec(),
    );
    assert_eq!(drive(&foo(), &mut world), Verdict::Failed);
    assert_eq!(world.asked, vec![FOO_URL.to_string()]);
}

#[test]
fn mission_that_cannot_be_unpacked_asks_for_no_library() {
    let mut world = World::new();
    world.served.insert(FOO_URL.to_string(), b"<html>rate limited</html>".to_vec());
    world.files.insert(
        "/opt/game/Foo/sbslib.txt".to_string(),
        b"artemis-sbs sbs_utils v3.9.30b\n".to_vec(),
    );
    assert_eq!(drive(&foo(), &mut world), Verdict::Failed);
    assert_eq!(world.asked, vec![FOO_URL.to_string()]);
    assert_eq!(names(&world.files), vec!["/opt/game/Foo/sbslib.txt"]);
}

#[test]
fn documentation_and_hidden_files_are_absent_from_what_is_unpacked() {
    let content: &[(&str, &[u8])] = &[
        ("org-Foo-1a2b3c/.gitignore", b"*.pyc"),
        ("org-Foo-1a2b3c/.github/workflows/ci.yml", b"on: push"),
        ("org-Foo-1a2b3c/mkdocs/index.md", b"# Foo"),
        ("org-Foo-1a2b3c/script.py", b"import sbs"),
    ];
    let mut world = World::new();
    world.served.insert(FOO_URL.to_string(), archive(content));
    assert_eq!(drive(&foo(), &mut world), Verdict::Complete);
    assert_eq!(names(&world.files), vec!["/opt/game/Foo/script.py"]);

    let mut with_docs = foo();
    with_docs.docs = true;
    let mut world = World::new();
    world.served.insert(FOO_URL.to_string(), archive(content));
    assert_eq!(drive(&with_docs, &mut world), Verdict::Complete);
    assert_eq!(
        names(&world.files),
        vec!["/opt/game/Foo/mkdocs/index.md", "/opt/game/Foo/script.py"]
    );
}
