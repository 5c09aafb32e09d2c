//! Mirrors of a wiki: what is listed, compared, sent and applied.

use std::collections::{BTreeMap, BTreeSet};

use wikidesk::sync::apply::{
    ensure_local_mirror_safe, validate_relative_path, FileAction, FileReply, MirrorFound,
    MirrorUpdate,
};
use wikidesk::sync::exchange::{
    compute_sync, snapshot_files, snapshot_local_mirror, FileContent, FileEntry, ReadFile,
    SyncResponse, SyncSummary,
};
use wikidesk::sync::tree::{walk_dir, walk_markdown_files, Entry, Listing};
use wikidesk::sync::{is_local_mirror_control_path, WikiSyncError};

fn file(name: &str) -> Entry {
    Entry::File { name: name.into() }
}

fn dir(name: &str, entries: Vec<Entry>) -> Entry {
    Entry::Dir {
        name: name.into(),
        listing: Listing::Entries(entries),
    }
}

fn read(path: &str, content: &str) -> ReadFile {
    ReadFile {
        path: path.into(),
        read: Ok(content.as_bytes().to_vec()),
    }
}

fn wiki_files() -> Vec<ReadFile> {
    vec![read("concepts/RLHF.md", "# RLHF"), read("topics.md", "# Topics")]
}

/// A file system in memory.
struct Disk {
    files: BTreeMap<String, String>,
    dirs: BTreeSet<String>,
    links: BTreeMap<String, String>,
}

impl Disk {
    fn new(dirs: &[&str], files: &[(&str, &str)]) -> Self {
        Disk {
            files: files
                .iter()
                .map(|(path, content)| (path.to_string(), content.to_string()))
                .collect(),
            dirs: dirs.iter().map(|path| path.to_string()).collect(),
            links: BTreeMap::new(),
        }
    }

    fn perform(&mut self, action: FileAction) -> FileReply {
        match action {
            FileAction::Inspect { path } => FileReply::Found(MirrorFound {
                exists: self.dirs.contains(&path),
                marker: self.files.get(&format!("{path}/.gitignore")).cloned(),
            }),
            FileAction::CreateDirs { path } => {
                self.dirs.insert(path);
                FileReply::Done
            }
            FileAction::Canonicalize { path } => match self.links.get(&path) {
                Some(target) => FileReply::Canonical(target.clone()),
                None if self.files.contains_key(&path) || self.dirs.contains(&path) => {
                    FileReply::Canonical(path)
                }
                None => FileReply::Missing("no such file".into()),
            },
            FileAction::Write { path, content } => {
                self.files.insert(path, content);
                FileReply::Done
            }
            FileAction::Remove { path } => match self.files.remove(&path) {
                Some(_) => FileReply::Done,
                None => FileReply::Missing("no such file".into()),
            },
        }
    }

    fn apply(&mut self, wiki: &str, sync: SyncResponse) -> Result<(), WikiSyncError> {
        let mut update = MirrorUpdate::new(wiki, sync);
        while let Some(action) = update.next() {
            let reply = self.perform(action);
            update = update.resume(reply);
        }
        update.outcome().unwrap()
    }

    fn read(&self, path: &str) -> Option<&str> {
        self.files.get(path).map(|content| content.as_str())
    }

    fn snapshot(&self, wiki: &str) -> Vec<ReadFile> {
        self.files
            .iter()
            .filter_map(|(path, content)| {
                path.strip_prefix(wiki)
                    .map(|rest| read(rest.trim_start_matches('/'), content))
            })
            .collect()
    }
}

fn upsert(path: &str, content: &str) -> FileContent {
    FileContent {
        path: path.into(),
        content: content.into(),
    }
}

#[test]
fn walk_markdown_files_filters_to_markdown_paths() {
    let found = Some(Listing::Entries(vec![
        dir("concepts", vec![file("RLHF.md")]),
        file("image.png"),
    ]));

    let paths: Vec<_> = walk_markdown_files("/tmp/wiki", &found)
        .unwrap()
        .into_iter()
        .map(|file| file.path)
        .collect();

    assert_eq!(paths, vec!["concepts/RLHF.md"]);
}

#[test]
fn walks_give_both_paths_of_a_file() {
    let found = Some(Listing::Entries(vec![
        file("b.txt"),
        dir("a", vec![dir("b", vec![file("c.md")])]),
    ]));
    let files = walk_dir("/srv/wiki", &found).unwrap();
    let deep = files.iter().find(|file| file.path == "a/b/c.md").unwrap();
    assert_eq!(deep.absolute_path, "/srv/wiki/a/b/c.md");
    assert_eq!(files.len(), 2);
    assert_eq!(walk_dir("/srv/wiki", &None).unwrap().len(), 0);
}

#[test]
fn walks_stop_at_what_cannot_be_read() {
    let unreadable = Some(Listing::Unreadable("denied".into()));
    assert_eq!(
        walk_dir("/srv/wiki", &unreadable).unwrap_err(),
        WikiSyncError::Io {
            path: "/srv/wiki".into(),
            reason: "denied".into(),
        }
    );
    let broken = Some(Listing::Entries(vec![Entry::Broken {
        reason: "bad entry".into(),
    }]));
    assert!(walk_dir("/srv/wiki", &broken).is_err());
    let untyped = Some(Listing::Entries(vec![Entry::Untyped {
        name: "x".into(),
        reason: "no type".into(),
    }]));
    assert_eq!(
        walk_dir("/srv/wiki", &untyped).unwrap_err(),
        WikiSyncError::Io {
            path: "/srv/wiki/x".into(),
            reason: "no type".into(),
        }
    );
}

#[test]
fn snapshot_local_mirror_ignores_control_gitignore() {
    let paths: Vec<_> = snapshot_local_mirror(&vec![read(".gitignore", "*\n"), read("notes.md", "notes")])
        .unwrap()
        .into_iter()
        .map(|file| file.path)
        .collect();

    assert_eq!(paths, vec!["notes.md"]);
    assert!(is_local_mirror_control_path(".gitignore"));
    assert!(!is_local_mirror_control_path("a/.gitignore"));
}

#[test]
fn snapshots_hold_sha256_digests() {
    let entries = snapshot_files(&vec![read("a.md", "abc")]).unwrap();
    let hex: String = entries[0]
        .checksum
        .iter()
        .map(|byte| format!("{byte:02x}"))
        .collect();
    assert_eq!(
        hex,
        "ba7816bf8f01cfea414140de5dae2223b00361a396177a9cb410ff61f20015ad"
    );
    let failed = vec![ReadFile {
        path: "a.md".into(),
        read: Err("denied".into()),
    }];
    assert!(matches!(
        snapshot_files(&failed).unwrap_err(),
        WikiSyncError::Io { reason, .. } if reason == "denied"
    ));
}

#[test]
fn sync_new_client_gets_all_files() {
    let resp = compute_sync(&wiki_files(), &vec![]).unwrap();
    assert_eq!(resp.deletes.len(), 0);
    assert_eq!(resp.upserts.len(), 2);
}

#[test]
fn sync_up_to_date_client_gets_nothing() {
    let client_files = snapshot_files(&wiki_files()).unwrap();
    let resp = compute_sync(&wiki_files(), &client_files).unwrap();
    assert!(resp.upserts.is_empty());
    assert!(resp.deletes.is_empty());
}

#[test]
fn sync_detects_deleted_server_file() {
    let client_files = vec![FileEntry {
        path: "gone.md".into(),
        checksum: [0xab; 32],
    }];

    let resp = compute_sync(&wiki_files(), &client_files).unwrap();
    assert!(resp.deletes.contains(&"gone.md".to_string()));
}

#[test]
fn sync_detects_changed_file() {
    let client_files = vec![FileEntry {
        path: "topics.md".into(),
        checksum: [0; 32],
    }];

    let resp = compute_sync(&wiki_files(), &client_files).unwrap();
    assert_eq!(resp.upserts.len(), 2);
    assert!(resp.upserts.iter().any(|f| f.path == "topics.md"));
}

#[test]
fn sync_sends_the_text_that_the_bytes_encode() {
    let resp = compute_sync(&vec![read("a.md", "grün")], &vec![]).unwrap();
    assert_eq!(resp.upserts, vec![upsert("a.md", "grün")]);
    let invalid = vec![ReadFile {
        path: "a.md".into(),
        read: Ok(vec![0xff, 0xfe]),
    }];
    assert!(matches!(
        compute_sync(&invalid, &vec![]).unwrap_err(),
        WikiSyncError::Io { .. }
    ));
}

#[test]
fn apply_sync_writes_upserts_and_removes_deletes() {
    let mut disk = Disk::new(
        &["/tmp/wiki"],
        &[("/tmp/wiki/.gitignore", "*\n"), ("/tmp/wiki/old.md", "old")],
    );

    disk.apply(
        "/tmp/wiki",
        SyncResponse {
            upserts: vec![upsert("concepts/RLHF.md", "# RLHF")],
            deletes: vec!["old.md".into()],
        },
    )
    .unwrap();

    assert_eq!(disk.read("/tmp/wiki/concepts/RLHF.md"), Some("# RLHF"));
    assert_eq!(disk.read("/tmp/wiki/old.md"), None);
    assert_eq!(disk.read("/tmp/wiki/.gitignore"), Some("*\n"));
}

#[test]
fn apply_sync_owns_local_gitignore() {
    let mut disk = Disk::new(&["/tmp/wiki"], &[("/tmp/wiki/.gitignore", "*\n")]);
    let sync = SyncResponse {
        upserts: vec![upsert(".gitignore", "server\n")],
        deletes: vec![".gitignore".into()],
    };

    assert_eq!(
        sync.summary(),
        SyncSummary {
            updated: 0,
            deleted: 0,
        }
    );
    disk.apply("/tmp/wiki", sync).unwrap();

    assert_eq!(disk.read("/tmp/wiki/.gitignore"), Some("*\n"));
}

#[test]
fn apply_sync_rejects_parent_dir_paths() {
    let mut disk = Disk::new(&["/tmp/wiki"], &[("/tmp/wiki/.gitignore", "*\n")]);
    let err = disk
        .apply(
            "/tmp/wiki",
            SyncResponse {
                upserts: vec![upsert("../escape.md", "nope")],
                deletes: vec![],
            },
        )
        .unwrap_err();

    assert!(matches!(err, WikiSyncError::ParentDir(_)));
    assert_eq!(disk.read("/tmp/escape.md"), None);
}

#[test]
fn apply_sync_rejects_absolute_paths() {
    assert_eq!(
        validate_relative_path("/etc/passwd"),
        Err(WikiSyncError::AbsolutePath("/etc/passwd".into()))
    );
    assert_eq!(
        validate_relative_path("a/../b"),
        Err(WikiSyncError::ParentDir("a/../b".into()))
    );
    assert_eq!(validate_relative_path("a/./b.md"), Ok(()));
}

#[test]
fn apply_sync_refuses_existing_unmarked_directory() {
    let mut disk = Disk::new(&["/tmp/wiki"], &[]);

    let err = disk
        .apply(
            "/tmp/wiki",
            SyncResponse {
                upserts: vec![],
                deletes: vec![],
            },
        )
        .unwrap_err();

    assert!(matches!(err, WikiSyncError::UnsafeLocalMirrorPath { .. }));
}

#[test]
fn safe_mirrors_are_new_or_marked() {
    let found = |exists: bool, marker: Option<&str>| MirrorFound {
        exists,
        marker: marker.map(|content| content.to_string()),
    };
    assert!(ensure_local_mirror_safe("wiki", &found(false, None)).is_ok());
    assert!(ensure_local_mirror_safe("wiki", &found(true, Some("*\n"))).is_ok());
    assert_eq!(
        ensure_local_mirror_safe("wiki", &found(true, Some("*"))),
        Err(WikiSyncError::UnsafeLocalMirrorPath {
            path: "wiki".into()
        })
    );
}

#[test]
fn files_that_are_gone_already_need_no_removal() {
    let mut disk = Disk::new(&[], &[]);
    disk.apply(
        "/tmp/wiki",
        SyncResponse {
            upserts: vec![],
            deletes: vec!["gone.md".into()],
        },
    )
    .unwrap();
    assert_eq!(disk.read("/tmp/wiki/.gitignore"), Some("*\n"));
}

#[test]
fn synchronised_mirrors_hold_what_the_wiki_holds() {
    let mut disk = Disk::new(
        &["/tmp/wiki"],
        &[
            ("/tmp/wiki/.gitignore", "*\n"),
            ("/tmp/wiki/topics.md", "old"),
            ("/tmp/wiki/gone.md", "gone"),
        ],
    );
    let client = snapshot_local_mirror(&disk.snapshot("/tmp/wiki")).unwrap();
    let sync = compute_sync(&wiki_files(), &client).unwrap();
    assert_eq!(
        sync.summary(),
        SyncSummary {
            updated: 2,
            deleted: 1
        }
    );
    disk.apply("/tmp/wiki", sync).unwrap();

    assert_eq!(disk.read("/tmp/wiki/topics.md"), Some("# Topics"));
    assert_eq!(disk.read("/tmp/wiki/concepts/RLHF.md"), Some("# RLHF"));
    assert_eq!(disk.read("/tmp/wiki/gone.md"), None);

    let client = snapshot_local_mirror(&disk.snapshot("/tmp/wiki")).unwrap();
    let again = compute_sync(&wiki_files(), &client).unwrap();
    assert_eq!(again.summary().total(), 0);
}

#[test]
fn synchronising_again_changes_nothing_beside_a_marker_of_the_server() {
    let mut server = wiki_files();
    server.push(read(".gitignore", "target\n"));
    let mut disk = Disk::new(&[], &[]);
    let client = snapshot_local_mirror(&disk.snapshot("/tmp/wiki")).unwrap();
    let sync = compute_sync(&server, &client).unwrap();
    assert_eq!(sync.summary().total(), 2);
    disk.apply("/tmp/wiki", sync).unwrap();
    assert_eq!(disk.read("/tmp/wiki/.gitignore"), Some("*\n"));

    let client = snapshot_local_mirror(&disk.snapshot("/tmp/wiki")).unwrap();
    let again = compute_sync(&server, &client).unwrap();
    assert_eq!(again.upserts.len(), 1);
    assert_eq!(again.summary().total(), 0);
}

#[test]
fn mirrors_may_be_named_by_other_paths() {
    for named in ["wiki", "/home/me/link"] {
        let mut disk = Disk::new(&["/tmp/wiki"], &[("/tmp/wiki/gone.md", "gone")]);
        disk.links.insert(named.to_string(), "/tmp/wiki".to_string());
        let client = snapshot_local_mirror(&disk.snapshot("/tmp/wiki")).unwrap();
        let sync = compute_sync(&wiki_files(), &client).unwrap();
        disk.apply(named, sync).unwrap();

        assert_eq!(disk.read("/tmp/wiki/topics.md"), Some("# Topics"));
        assert_eq!(disk.read("/tmp/wiki/concepts/RLHF.md"), Some("# RLHF"));
        assert_eq!(disk.read("/tmp/wiki/gone.md"), None);
        assert_eq!(disk.read("/tmp/wiki/.gitignore"), Some("*\n"));
        let client = snapshot_local_mirror(&disk.snapshot("/tmp/wiki")).unwrap();
        let again = compute_sync(&wiki_files(), &client).unwrap();
        assert_eq!(again.summary().total(), 0);
    }
}

#[test]
fn removals_do_not_follow_links_out_of_the_mirror() {
    let mut disk = Disk::new(
        &["/tmp/wiki"],
        &[
            ("/tmp/wiki/.gitignore", "*\n"),
            ("/tmp/wiki/link.md", ""),
            ("/etc/passwd", "root"),
        ],
    );
    disk.links
        .insert("/tmp/wiki/link.md".into(), "/etc/passwd".into());
    let err = disk
        .apply(
            "/tmp/wiki",
            SyncResponse {
                upserts: vec![],
                deletes: vec!["link.md".into()],
            },
        )
        .unwrap_err();
    assert_eq!(err, WikiSyncError::EscapedPath("link.md".into()));
    assert_eq!(disk.read("/etc/passwd"), Some("root"));
}

#[test]
fn failed_writes_end_the_update() {
    let mut update = MirrorUpdate::new(
        "/tmp/wiki",
        SyncResponse {
            upserts: vec![upsert("a.md", "a")],
            deletes: vec![],
        },
    );
    let mut disk = Disk::new(&[], &[]);
    while let Some(action) = update.next() {
        let reply = match action {
            FileAction::Write { .. } => FileReply::Failed("disk full".into()),
            action => disk.perform(action),
        };
        update = update.resume(reply);
    }
    assert_eq!(
        update.outcome().unwrap(),
        Err(WikiSyncError::Io {
            path: "/tmp/wiki/a.md".into(),
            reason: "disk full".into(),
        })
    );
}
