use git2::Repository;
use scadline::cache::{
    cache_path_of_keys, get_cache_dir, persistent_cache_path, EnvironmentDirectories, Platform,
};
use scadline::config::ModelBackend;
use scadline::loader::ModelLoader;
use scadline::migrate::{CacheMigration, MigrationEvent, MigrationTask};
use scadline::prune::{CacheEntry, CachePruning};
use scadline::revision::{GitCommit, GitRevision};
use scadline::service::ModelService;
use std::collections::hash_map::DefaultHasher;
use std::collections::BTreeMap;
use std::hash::{Hash, Hasher};
use std::path::{Path, PathBuf};

fn revision(root: &str, path: &str, hash: &str) -> GitRevision {
    GitRevision {
        root: PathBuf::from(root),
        relative_path: PathBuf::from(path),
        commit: GitCommit {
            hash: hash.to_owned(),
            short_hash: String::new(),
            date: String::new(),
            subject: String::new(),
        },
    }
}

fn key(path: impl AsRef<Path>) -> u64 {
    let mut hasher = DefaultHasher::new();
    path.as_ref().hash(&mut hasher);
    hasher.finish()
}

/// Paths of these bytes, as a repository that holds such files gives them.
fn paths_of_bytes(names: &[&[u8]]) -> Vec<PathBuf> {
    let temporary = tempfile::tempdir().expect("create repository directory");
    let repository = Repository::init(temporary.path()).expect("initialize repository");
    let blob = repository.blob(b"cube(10);").expect("write model");
    let mut builder = repository.treebuilder(None).expect("start tree");
    for name in names {
        builder.insert(*name, blob, 0o100644).expect("add model");
    }
    let id = builder.write().expect("write tree");
    let tree = repository.find_tree(id).expect("find tree");
    let diff = repository
        .diff_tree_to_tree(None, Some(&tree), None)
        .expect("compare trees");
    diff.deltas()
        .map(|delta| delta.new_file().path().expect("path").to_owned())
        .collect()
}

/// Prunes as if each removal had the outcome given for it, and tells which files are left.
fn survivors(entries: &[(u64, i128)], limit: u64, removable: &[bool]) -> Vec<usize> {
    let files = entries
        .iter()
        .map(|&(size, modified)| CacheEntry { size, modified })
        .collect();
    let mut pruning = CachePruning::new(files, limit);
    let mut left: Vec<usize> = (0..entries.len()).collect();
    while let Some(victim) = pruning.next_victim() {
        let removed = removable[victim];
        if removed {
            left.retain(|&place| place != victim);
        }
        pruning.record(victim, removed);
    }
    left
}

#[test]
fn cache_pruning_keeps_total_under_limit() {
    let left = survivors(&[(10, 0), (10, 0), (10, 0)], 15, &[true; 3]);
    let remaining_size: u64 = left.iter().map(|_| 10).sum();
    assert!(remaining_size <= 15);
    assert_eq!(left.len(), 1);
}

#[test]
fn cache_access_refresh_preserves_a_recently_used_entry() {
    let (accessed, evicted, retained) = (0, 1, 2);
    let origin: i128 = 1_000_000_000_000;
    let now: i128 = 1_700_000_000_000_000_000;
    let left = survivors(
        &[
            (10, now),
            (10, origin + 1_000_000_000),
            (10, origin + 2_000_000_000),
        ],
        20,
        &[true; 3],
    );
    assert!(left.contains(&accessed));
    assert!(!left.contains(&evicted));
    assert!(left.contains(&retained));
}

#[test]
fn cache_entry_larger_than_the_limit_is_not_retained() {
    assert!(survivors(&[(21, 5)], 20, &[true]).is_empty());
}

#[test]
fn a_cache_within_its_limit_is_left_alone() {
    assert_eq!(survivors(&[(10, 3), (10, 1)], 20, &[true; 2]), vec![0, 1]);
    assert!(survivors(&[], 0, &[]).is_empty());
}

#[test]
fn a_file_that_cannot_be_removed_is_passed_over() {
    assert_eq!(
        survivors(&[(10, 1), (10, 2), (10, 3)], 20, &[false, true, true]),
        vec![0, 2]
    );
    assert_eq!(survivors(&[(10, 1), (10, 2)], 5, &[false; 2]), vec![0, 1]);
}

#[test]
fn sizes_beyond_64_bits_are_held_at_the_greatest() {
    assert!(survivors(&[(u64::MAX, 1), (u64::MAX, 2)], 0, &[true; 2]).len() == 1);
}

#[test]
fn models_are_filed_by_repository_commit_backend_and_path() {
    let commit = revision("/repo", "parts/model.scad", "abc123");
    let repository = format!("{:016x}", key("/repo"));
    let path = format!("{:016x}", key("parts/model.scad"));
    assert_eq!(
        persistent_cache_path(&commit, None),
        vec![
            "scadline".to_owned(),
            repository.clone(),
            "abc123".to_owned(),
            format!("{path}.stl")
        ]
    );
    for (backend, name) in [
        (ModelBackend::Cgal, "cgal"),
        (ModelBackend::Manifold, "manifold"),
        (ModelBackend::Openrscad, "openrscad"),
    ] {
        assert_eq!(
            persistent_cache_path(&commit, Some(backend)),
            vec![
                "scadline".to_owned(),
                repository.clone(),
                "abc123".to_owned(),
                format!("{name}-{path}.stl")
            ]
        );
    }
}

#[test]
fn keys_are_written_with_sixteen_digits() {
    assert_eq!(
        cache_path_of_keys(0xbeef, "c0ffee", u64::MAX, Some(ModelBackend::Manifold)),
        vec![
            "scadline",
            "000000000000beef",
            "c0ffee",
            "manifold-ffffffffffffffff.stl"
        ]
    );
}

#[test]
fn the_cache_holds_what_lies_in_the_file_of_the_revision() {
    let loader = ModelLoader::new(true, 100, Some(ModelBackend::Cgal));
    let wanted = revision("/repo", "model.scad", "abc");
    let other = revision("/repo", "model.scad", "abd");
    let files = vec![
        persistent_cache_path(&other, Some(ModelBackend::Cgal)),
        loader.cache_file(&wanted).expect("cache file"),
    ];
    let service = ModelService::new(loader);
    assert!(service.is_cached(&wanted, &files));
    assert!(service.is_cached(&other, &files));
    assert!(!service.is_cached(&wanted, &vec![files[0].clone()]));
    assert!(!service.is_cached(&wanted, &vec![persistent_cache_path(&wanted, None)]));
    let without = ModelLoader::new(false, 100, Some(ModelBackend::Cgal));
    assert!(without.cache_file(&wanted).is_none());
    assert!(!without.is_cached(&wanted, &files));
}

fn environment(
    xdg: Option<&'static str>,
    home: Option<&'static str>,
    local: Option<&'static str>,
) -> EnvironmentDirectories<&'static str> {
    EnvironmentDirectories {
        xdg_cache_home: xdg,
        home,
        local_app_data: local,
    }
}

#[test]
fn caches_lie_where_the_platform_puts_them() {
    let all = || environment(Some("/x"), Some("/h"), Some("L"));
    let linux = get_cache_dir(Platform::Linux, all()).expect("linux");
    assert_eq!((linux.base, linux.parts.len()), ("/x", 0));
    let linux =
        get_cache_dir(Platform::Linux, environment(None, Some("/h"), Some("L"))).expect("linux");
    assert_eq!(linux.base, "/h");
    assert_eq!(linux.parts, vec![".cache"]);
    let mac = get_cache_dir(Platform::MacOs, all()).expect("mac");
    assert_eq!(mac.base, "/h");
    assert_eq!(mac.parts, vec!["Library", "Caches"]);
    let windows = get_cache_dir(Platform::Windows, all()).expect("windows");
    assert_eq!((windows.base, windows.parts.len()), ("L", 0));
    assert!(get_cache_dir(Platform::Other, all()).is_none());
    assert!(get_cache_dir(Platform::Linux, environment(None, None, Some("L"))).is_none());
    assert!(get_cache_dir(Platform::MacOs, environment(Some("/x"), None, None)).is_none());
    assert!(get_cache_dir(Platform::Windows, environment(Some("/x"), Some("/h"), None)).is_none());
}

#[test]
fn files_whose_names_are_not_text_have_keys_of_their_own() {
    let paths = paths_of_bytes(&[b"a\xfe.scad", b"a\xff.scad"]);
    assert_eq!(paths.len(), 2);
    assert!(paths[0] != paths[1]);
    assert_eq!(paths[0].to_string_lossy(), paths[1].to_string_lossy());
    let mut files = Vec::new();
    for path in &paths {
        let mut commit = revision("/repo", "", "abc");
        commit.relative_path = path.clone();
        let parts = persistent_cache_path(&commit, None);
        assert_eq!(parts[3], format!("{:016x}.stl", key(path)));
        files.push(parts);
    }
    assert!(files[0] != files[1]);
}

/// The files of a cache by their paths; directories have no content.
type Files = BTreeMap<&'static str, Option<u8>>;

fn is_directory(files: &Files, path: &str) -> bool {
    path.is_empty() || matches!(files.get(path), Some(None))
}

fn joined(directory: &str, name: &str) -> &'static str {
    let path = if directory.is_empty() {
        name.to_owned()
    } else {
        format!("{directory}/{name}")
    };
    path.leak()
}

/// Does what a task asks for to files in memory. A file named `stiff` cannot be moved.
fn perform(files: &mut Files, task: &MigrationTask<&'static str>) -> MigrationEvent<&'static str> {
    match task {
        MigrationTask::Enter {
            source,
            destination,
        } => {
            if !is_directory(files, source) {
                return MigrationEvent::NotEntered;
            }
            if matches!(files.get(destination), Some(Some(_))) {
                return MigrationEvent::Failed;
            }
            if !destination.is_empty() {
                files.insert(destination, None);
            }
            let start = format!("{source}/");
            let entries = files
                .keys()
                .filter_map(|path| path.strip_prefix(start.as_str()))
                .filter(|name| !name.contains('/'))
                .map(|name| (joined(source, name), joined(destination, name)))
                .collect();
            MigrationEvent::Entered {
                entries,
                complete: true,
            }
        }
        MigrationTask::Inspect {
            source,
            destination,
        } => MigrationEvent::Found {
            is_directory: is_directory(files, source),
            destination_exists: files.contains_key(destination),
        },
        MigrationTask::Discard { source, .. } => {
            MigrationEvent::Done(files.remove(source).is_some())
        }
        MigrationTask::Move { source, .. } if source.ends_with("stiff") => {
            MigrationEvent::Done(false)
        }
        MigrationTask::Move {
            source,
            destination,
        }
        | MigrationTask::Copy {
            source,
            destination,
        } => {
            let content = files.remove(source).expect("file");
            files.insert(destination, content);
            MigrationEvent::Done(true)
        }
        MigrationTask::Close { source } => {
            let start = format!("{source}/");
            let empty = !files.keys().any(|path| path.starts_with(&start));
            if empty {
                files.remove(source);
            }
            MigrationEvent::Done(empty)
        }
        MigrationTask::Stop => MigrationEvent::Failed,
        MigrationTask::RemoveTree { path } => {
            let start = format!("{path}/");
            if is_directory(files, path) {
                files.retain(|other, _| other != path && !other.starts_with(&start));
            }
            MigrationEvent::Done(true)
        }
    }
}

fn migrate(files: &mut Files) {
    let mut migration = CacheMigration::new("stl-v2", "", "stl-v1");
    while let Some(task) = migration.current() {
        let event = perform(files, task);
        migration.advance(event);
    }
}

#[test]
fn migration_keeps_every_file() {
    let mut files = Files::from([
        ("own", None),
        ("own/a", Some(1)),
        ("own/both", Some(2)),
        ("stl-v1", None),
        ("stl-v1/gone", Some(3)),
        ("stl-v2", None),
        ("stl-v2/new", None),
        ("stl-v2/new/deep", None),
        ("stl-v2/new/deep/stiff", Some(4)),
        ("stl-v2/own", None),
        ("stl-v2/own/both", Some(5)),
        ("stl-v2/own/c", Some(6)),
        ("stl-v2/top", Some(7)),
    ]);
    migrate(&mut files);
    let expected = Files::from([
        ("new", None),
        ("new/deep", None),
        ("new/deep/stiff", Some(4)),
        ("own", None),
        ("own/a", Some(1)),
        ("own/both", Some(2)),
        ("own/c", Some(6)),
        ("top", Some(7)),
    ]);
    assert_eq!(files, expected);
    migrate(&mut files);
    assert_eq!(files, expected);
}

#[test]
fn migration_stops_at_a_file_in_the_way() {
    let mut files = Files::from([
        ("a", Some(1)),
        ("stl-v1", None),
        ("stl-v2", None),
        ("stl-v2/a", None),
        ("stl-v2/a/x", Some(2)),
        ("stl-v2/b", Some(3)),
    ]);
    migrate(&mut files);
    assert_eq!(
        files,
        Files::from([
            ("a", Some(1)),
            ("stl-v2", None),
            ("stl-v2/a", None),
            ("stl-v2/a/x", Some(2)),
            ("stl-v2/b", Some(3)),
        ])
    );
}

#[test]
fn migration_leaves_plain_files_of_the_old_names() {
    let mut files = Files::from([("stl-v1", Some(1)), ("stl-v2", Some(2))]);
    let before = files.clone();
    migrate(&mut files);
    assert_eq!(files, before);
}

#[test]
fn a_migration_that_cannot_go_on_still_removes_the_obsolete_directory() {
    let mut migration = CacheMigration::new("old", "cache", "obsolete");
    assert!(matches!(
        migration.current(),
        Some(MigrationTask::Enter { source: "old", .. })
    ));
    migration.advance(MigrationEvent::Entered {
        entries: vec![("old/a", "cache/a"), ("old/b", "cache/b")],
        complete: false,
    });
    for name in ["old/a", "old/b"] {
        assert!(matches!(
            migration.current(),
            Some(MigrationTask::Inspect { source, .. }) if *source == name
        ));
        migration.advance(MigrationEvent::Found {
            is_directory: false,
            destination_exists: true,
        });
        assert!(matches!(
            migration.current(),
            Some(MigrationTask::Discard { .. })
        ));
        migration.advance(MigrationEvent::Done(false));
    }
    assert!(matches!(migration.current(), Some(MigrationTask::Stop)));
    migration.advance(MigrationEvent::Failed);
    assert!(matches!(
        migration.current(),
        Some(MigrationTask::RemoveTree { path: "obsolete" })
    ));
    migration.advance(MigrationEvent::Done(false));
    assert!(migration.current().is_none());

    let mut refused = CacheMigration::new("old", "cache", "obsolete");
    refused.advance(MigrationEvent::Entered {
        entries: vec![("old/a", "cache/a")],
        complete: true,
    });
    refused.advance(MigrationEvent::Found {
        is_directory: false,
        destination_exists: false,
    });
    refused.advance(MigrationEvent::Done(false));
    assert!(matches!(refused.current(), Some(MigrationTask::Copy { .. })));
    refused.advance(MigrationEvent::Done(false));
    assert!(matches!(
        refused.current(),
        Some(MigrationTask::RemoveTree { .. })
    ));
}

#[test]
fn the_newest_file_stays_unless_it_is_too_large() {
    assert_eq!(survivors(&[(15, 1), (20, 9), (15, 2)], 20, &[true; 3]), vec![1]);
    assert!(survivors(&[(15, 1), (21, 9), (15, 2)], 20, &[true; 3]).is_empty());
}

#[test]
fn pruning_again_removes_nothing() {
    let entries = [(10, 4), (7, 1), (9, 3), (8, 2)];
    let left = survivors(&entries, 20, &[true; 4]);
    assert_eq!(left, vec![0, 2]);
    let remaining: Vec<(u64, i128)> = left.iter().map(|&place| entries[place]).collect();
    assert_eq!(survivors(&remaining, 20, &[true; 2]), vec![0, 1]);
}
