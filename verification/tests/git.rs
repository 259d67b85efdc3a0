use git2::build::RepoBuilder;
use git2::{Oid, Repository, Signature, Sort};
use scadline::git::{
    format_git_date, offered_branches, CheckoutStage, CheckoutStep, GitRepository, WalkedCommit,
};
use scadline::revision::{GitCommit, GitHistory, GitRevision};
use std::path::{Path, PathBuf};

fn names(list: &[&str]) -> Vec<String> {
    list.iter().map(|name| name.to_string()).collect()
}

fn walked(hash: &str, seconds: i64, summary: Option<&str>) -> WalkedCommit {
    WalkedCommit {
        hash: hash.to_owned(),
        seconds,
        offset_minutes: 0,
        summary: summary.map(str::to_owned),
    }
}

fn history(branches: &[&str], head: Option<&str>) -> Option<GitHistory> {
    GitRepository::discover(
        &PathBuf::from("/repo/model.scad"),
        PathBuf::from("/repo"),
        names(branches),
        head.map(str::to_owned),
    )
}

fn revision(hash: &str) -> GitRevision {
    GitRevision {
        root: PathBuf::from("/repo"),
        relative_path: PathBuf::from("model.scad"),
        commit: GitCommit {
            hash: hash.to_owned(),
            short_hash: hash.chars().take(7).collect(),
            date: "2024-01-01".to_owned(),
            subject: "Initial model".to_owned(),
        },
    }
}

#[test]
fn formats_git_timestamp_with_its_offset() {
    assert_eq!(format_git_date(0, 0), "1970-01-01");
    assert_eq!(format_git_date(0, -60), "1969-12-31");
}

#[test]
fn dates_follow_the_calendar() {
    assert_eq!(format_git_date(951_782_400, 0), "2000-02-29");
    assert_eq!(format_git_date(951_868_800, 0), "2000-03-01");
    assert_eq!(format_git_date(4_107_542_400, 0), "2100-03-01");
    assert_eq!(format_git_date(4_107_542_399, 0), "2100-02-28");
    assert_eq!(format_git_date(1_735_689_599, 0), "2024-12-31");
    assert_eq!(format_git_date(1_735_689_599, 1), "2025-01-01");
    assert_eq!(format_git_date(253_402_300_800, 0), "10000-01-01");
    assert_eq!(format_git_date(-62_167_219_200, 0), "0000-01-01");
    assert_eq!(format_git_date(-62_167_219_201, 0), "-001-12-31");
}

#[test]
fn extreme_timestamps_have_dates() {
    assert_eq!(
        format_git_date(i64::MAX, i32::MAX),
        format_git_date(i64::MAX, 0)
    );
    assert_eq!(
        format_git_date(i64::MIN, i32::MIN),
        format_git_date(i64::MIN, 0)
    );
    assert_eq!(format_git_date(i64::MAX, 0), "292277026596-12-04");
    assert_eq!(format_git_date(i64::MIN, 0), "-292277022657-01-27");
}

#[test]
fn branches_are_sorted_once_each_without_remote_heads() {
    assert_eq!(
        offered_branches(names(&[
            "origin/main",
            "main",
            "origin/HEAD",
            "feature",
            "main",
            "HEAD",
            "あ"
        ])),
        names(&["HEAD", "feature", "main", "origin/main", "あ"])
    );
    assert_eq!(
        offered_branches(names(&["あ", "main", "origin/main", "HEAD", "feature", "あ"])),
        names(&["HEAD", "feature", "main", "origin/main", "あ"])
    );
}

#[test]
fn discovery_selects_the_branch_that_is_checked_out() {
    let found = history(&["main", "feature", "origin/main"], Some("main")).expect("history");
    assert_eq!(found.branches, names(&["feature", "main", "origin/main"]));
    assert_eq!(found.selected_branch, 1);
    assert_eq!(found.root, Path::new("/repo"));
    assert_eq!(found.relative_path, Path::new("model.scad"));
    assert_eq!(found.position, 0);
    assert!(found.commits.is_empty());
    assert_eq!(
        history(&["main"], Some("gone"))
            .expect("history")
            .selected_branch,
        0
    );
    assert_eq!(history(&["main"], None).expect("history").selected_branch, 0);
    assert!(history(&[], Some("main")).is_none());
    assert!(history(&["origin/HEAD"], None).is_none());
    for (source, root, relative) in [
        ("/repo/parts/model.scad", "/repo", Some("parts/model.scad")),
        ("/repository/model.scad", "/repo", None),
        ("/elsewhere/model.scad", "/repo", None),
    ] {
        let found = GitRepository::discover(
            &PathBuf::from(source),
            PathBuf::from(root),
            names(&["main"]),
            None,
        );
        assert_eq!(
            found.as_ref().map(|found| found.relative_path.as_path()),
            relative.map(Path::new)
        );
        if let Some(found) = found {
            assert_eq!(found.root.join(&found.relative_path), Path::new(source));
        }
    }
}

#[test]
fn commits_run_from_the_oldest_to_the_work_tree() {
    let mut found = history(&["main"], Some("main")).expect("history");
    GitRepository::load_commits(
        &mut found,
        vec![
            walked("2222222222", 86_400, Some("Second")),
            walked("1111111111", 0, None),
        ],
    );
    assert_eq!(found.position, 2);
    assert!(found.selected_revision().is_none());
    assert_eq!(found.commits[0].hash, "1111111111");
    assert_eq!(found.commits[0].short_hash, "1111111");
    assert_eq!(found.commits[0].date, "1970-01-01");
    assert_eq!(found.commits[0].subject, "(no message)");
    assert_eq!(found.commits[1].subject, "Second");
    assert_eq!(found.commits[1].date, "1970-01-02");

    found.position = 1;
    let selected = found.selected_revision().expect("select revision");
    assert_eq!(selected.commit.hash, "2222222222");
    assert_eq!(selected.root, Path::new("/repo"));
    assert_eq!(selected.relative_path, Path::new("model.scad"));

    GitRepository::load_commits(&mut found, Vec::new());
    assert_eq!(found.position, 0);
    assert!(found.commits.is_empty());
}

#[test]
fn a_checkout_takes_its_stages_in_turn() {
    let hash = "00ff10aBCDEF0123456789abcdef0123456789ab";
    let target = revision(hash);
    let CheckoutStep::FindCommit(id) =
        GitRepository::checkout_revision(&target, CheckoutStage::Clone, Ok(()))
    else {
        panic!("expected the commit to be looked for");
    };
    assert_eq!(id.len(), 20);
    assert_eq!(&id[..4], &[0x00, 0xff, 0x10, 0xab]);
    assert_eq!(id[19], 0xab);
    assert!(matches!(
        GitRepository::checkout_revision(&target, CheckoutStage::FindCommit, Ok(())),
        CheckoutStep::WriteTree
    ));
    assert!(matches!(
        GitRepository::checkout_revision(&target, CheckoutStage::WriteTree, Ok(())),
        CheckoutStep::DetachHead
    ));
    assert!(matches!(
        GitRepository::checkout_revision(&target, CheckoutStage::DetachHead, Ok(())),
        CheckoutStep::Finished(Ok(()))
    ));
}

#[test]
fn short_commit_ids_are_filled_with_zeros() {
    let CheckoutStep::FindCommit(id) =
        GitRepository::checkout_revision(&revision("abc"), CheckoutStage::Clone, Ok(()))
    else {
        panic!("expected the commit to be looked for");
    };
    assert_eq!(id[..3], [0xab, 0xc0, 0x00]);
    assert_eq!(id[3..], [0; 17]);
}

fn clone_failure(hash: &str) -> String {
    match GitRepository::checkout_revision(&revision(hash), CheckoutStage::Clone, Ok(())) {
        CheckoutStep::Finished(Err(message)) => message,
        _ => panic!("expected a failure"),
    }
}

#[test]
fn what_is_not_a_commit_id_is_refused() {
    assert_eq!(
        clone_failure(""),
        "Git commit IDが不正です: unable to parse OID - too short; class=Invalid (3)"
    );
    assert_eq!(
        clone_failure(&"a".repeat(41)),
        "Git commit IDが不正です: unable to parse OID - too long; class=Invalid (3)"
    );
    assert_eq!(
        clone_failure("xyz"),
        "Git commit IDが不正です: unable to parse OID - contains invalid characters; class=Invalid (3)"
    );
    assert_eq!(
        clone_failure(&"あ".repeat(14)),
        "Git commit IDが不正です: unable to parse OID - too long; class=Invalid (3)"
    );
}

#[test]
fn each_stage_of_a_checkout_has_its_message() {
    let expected = [
        (
            CheckoutStage::Clone,
            "Gitスナップショットを準備できません: why",
        ),
        (CheckoutStage::FindCommit, "Git commitを読み込めません: why"),
        (CheckoutStage::WriteTree, "Git treeを展開できません: why"),
        (CheckoutStage::DetachHead, "Git HEADを設定できません: why"),
    ];
    for (stage, message) in expected {
        match GitRepository::checkout_revision(&revision("abc"), stage, Err("why".to_owned())) {
            CheckoutStep::Finished(Err(text)) => assert_eq!(text, message),
            _ => panic!("expected a failure"),
        }
    }
}

/// The commits that a walk from a branch meets.
fn walk(repository: &Repository, branch: &str) -> Vec<WalkedCommit> {
    let target = repository
        .revparse_single(branch)
        .and_then(|object| object.peel_to_commit())
        .expect("find branch");
    let mut walk = repository.revwalk().expect("start walk");
    walk.set_sorting(Sort::TOPOLOGICAL | Sort::TIME)
        .expect("sort walk");
    walk.push(target.id()).expect("push branch");
    walk.map(|id| {
        let commit = repository
            .find_commit(id.expect("walk"))
            .expect("find commit");
        WalkedCommit {
            hash: commit.id().to_string(),
            seconds: commit.time().seconds(),
            offset_minutes: commit.time().offset_minutes(),
            summary: commit.summary().ok().flatten().map(str::to_owned),
        }
    })
    .collect()
}

#[test]
fn discovers_history_without_a_git_executable() {
    let temporary = tempfile::tempdir().expect("create repository directory");
    let repository = Repository::init(temporary.path()).expect("initialize repository");
    let blob = repository.blob(b"cube(10);").expect("write model");

    let mut builder = repository.treebuilder(None).expect("open index");
    builder
        .insert("model.scad", blob, 0o100644)
        .expect("add model");
    let tree_id = builder.write().expect("write tree");
    let tree = repository.find_tree(tree_id).expect("find tree");
    let signature =
        Signature::now("Scadline test", "test@scadline.invalid").expect("create signature");
    repository
        .commit(
            Some("HEAD"),
            &signature,
            &signature,
            "Initial model",
            &tree,
            &[],
        )
        .expect("commit model");

    let branches: Vec<String> = repository
        .branches(None)
        .expect("list branches")
        .flatten()
        .filter_map(|(branch, _)| branch.name().ok().flatten().map(str::to_owned))
        .collect();
    let head = repository
        .head()
        .ok()
        .and_then(|head| head.shorthand().ok().map(str::to_owned));
    let mut history = GitRepository::discover(
        &temporary.path().join("model.scad"),
        temporary.path().to_owned(),
        branches,
        head,
    )
    .expect("discover history");
    let branch = history.branch_to_walk().expect("selected branch");
    GitRepository::load_commits(&mut history, walk(&repository, &branch));
    assert_eq!(history.relative_path, Path::new("model.scad"));
    assert_eq!(history.commits.len(), 1);
    assert_eq!(history.commits[0].subject, "Initial model");

    history.position = 0;
    let revision = history.selected_revision().expect("select revision");
    let checkout = tempfile::tempdir().expect("create checkout parent");
    let destination = checkout.path().join("snapshot");
    let snapshot = RepoBuilder::new()
        .clone(revision.root.to_string_lossy().as_ref(), &destination)
        .expect("clone repository");
    let CheckoutStep::FindCommit(id) =
        GitRepository::checkout_revision(&revision, CheckoutStage::Clone, Ok(()))
    else {
        panic!("expected the commit to be looked for");
    };
    let commit = snapshot
        .find_commit(Oid::from_bytes(&id).expect("commit id"))
        .expect("find commit in the snapshot");
    snapshot
        .checkout_tree(commit.as_object(), None)
        .expect("checkout revision");
    snapshot
        .set_head_detached(commit.id())
        .expect("set head of the snapshot");
    assert_eq!(
        snapshot
            .blob_path(&destination.join(Path::new("model.scad")))
            .expect("read checkout"),
        snapshot.blob(b"cube(10);").expect("write model")
    );
}
