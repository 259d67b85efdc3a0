use scadline::app_state::{
    has_scad_extension, key_of_texts, AppState, PrefetchPoll, RenderStep, TimelinePoll, IDLE_DELAY,
    TIMELINE_DELAY, WATCH_DELAY,
};
use scadline::git::WalkedCommit;
use scadline::mesh::Mesh;
use scadline::revision::{GitCommit, GitHistory};
use scadline::service::RenderOutcome;
use std::path::PathBuf;
use std::sync::Arc;

fn commit(number: usize) -> GitCommit {
    GitCommit {
        hash: format!("{number}{number}{number}{number}{number}{number}{number}{number}"),
        short_hash: format!("{number}{number}{number}{number}{number}{number}{number}"),
        date: "2024-05-06".to_owned(),
        subject: format!("Commit {number}"),
    }
}

fn history(commits: usize, position: usize) -> GitHistory {
    GitHistory {
        root: PathBuf::from("/repo"),
        relative_path: PathBuf::from("model.scad"),
        branches: vec!["feature".to_owned(), "main".to_owned()],
        selected_branch: 1,
        commits: (0..commits).map(commit).collect(),
        position,
    }
}

fn mesh(faces: usize) -> Mesh {
    Mesh {
        vertices: vec![[0; 3]; 3],
        triangles: vec![[0, 1, 2]; faces],
    }
}

fn finished(faces: usize, key: Option<&str>) -> RenderOutcome {
    RenderOutcome::Finished {
        mesh: Arc::new(mesh(faces)),
        source_modified: None,
        cache_key: key.map(str::to_owned),
        loaded_from_disk_cache: false,
    }
}

/// A state with a file that is open, whose model is being made.
fn opened(history: Option<GitHistory>) -> AppState {
    let mut state = AppState::new(0);
    let step = state.open_path(PathBuf::from("/repo/model.scad"), history, 10);
    assert!(matches!(step, RenderStep::Start(_)));
    state
}

#[test]
fn the_first_state_asks_for_a_file() {
    let mut state = AppState::new(7);
    assert_eq!(state.status, "OpenSCADファイルを開いてください");
    assert!(state.auto_reload && state.show_edges && state.show_axes);
    assert!(state.source_path.is_none() && state.mesh.is_none() && state.git_history.is_none());
    assert_eq!((state.last_watch_check, state.idle_since), (7, 7));
    assert!(matches!(state.start_render(9), RenderStep::Nothing));
    assert!(!state.is_rendering);
}

#[test]
fn only_scad_files_are_opened() {
    for name in ["model.scad", "..scad", "a.b.scad", "モデル.scad"] {
        assert!(has_scad_extension(name), "{name}");
    }
    for name in ["model.stl", ".scad", "scad", "model.SCAD", "model.scad.bak", ""] {
        assert!(!has_scad_extension(name), "{name}");
    }
    let mut state = AppState::new(0);
    assert!(state.accept_path(Some("model.scad")));
    assert_eq!(state.status, "OpenSCADファイルを開いてください");
    assert!(!state.accept_path(Some("model.stl")));
    assert_eq!(state.status, "拡張子 .scad のファイルを選択してください");
    assert!(!state.accept_path(None));
}

#[test]
fn opening_a_file_starts_its_model() {
    let mut state = AppState::new(0);
    let step = state.open_path(PathBuf::from("/repo/model.scad"), None, 10);
    let RenderStep::Start(request) = step else {
        panic!("expected a model to be made");
    };
    assert!(request.revision.is_none() && request.cache_key.is_none());
    assert!(state.is_rendering && !state.render_pending);
    assert_eq!(state.status, "OpenSCADでモデルを生成中…");
    assert_eq!(state.idle_since, 10);
    assert_eq!(
        state.source_path,
        Some(PathBuf::from("/repo/model.scad"))
    );
}

#[test]
fn a_commit_is_made_by_its_key() {
    let mut state = AppState::new(0);
    let step = state.open_path(PathBuf::from("/repo/model.scad"), Some(history(3, 1)), 10);
    let RenderStep::Start(request) = step else {
        panic!("expected a model to be made");
    };
    assert_eq!(request.revision.expect("revision").commit.hash, "11111111");
    assert_eq!(
        request.cache_key.as_deref(),
        Some("/repo:model.scad:11111111")
    );
    assert_eq!(state.status, "1111111 (2024-05-06) を生成中…");
}

#[test]
fn received_models_are_shown() {
    let mut state = opened(None);
    let (shown, step) = state.receive_render(
        RenderOutcome::Finished {
            mesh: Arc::new(mesh(12)),
            source_modified: Some(99),
            cache_key: None,
            loaded_from_disk_cache: false,
        },
        20,
    );
    assert_eq!(shown.expect("mesh").triangles.len(), 12);
    assert!(matches!(step, RenderStep::Nothing));
    assert_eq!(state.status, "12 面を表示中");
    assert_eq!(state.last_source_modified, Some(99));
    assert_eq!(state.idle_since, 20);
    assert!(!state.is_rendering);

    assert!(matches!(state.start_render(30), RenderStep::Start(_)));
    state.receive_render(
        RenderOutcome::Finished {
            mesh: Arc::new(mesh(1)),
            source_modified: None,
            cache_key: Some("key".to_owned()),
            loaded_from_disk_cache: true,
        },
        40,
    );
    assert_eq!(state.status, "1 面をディスクキャッシュから表示中");

    assert!(matches!(state.start_render(50), RenderStep::Start(_)));
    let (shown, step) = state.receive_render(RenderOutcome::Failed("why".to_owned()), 60);
    assert!(shown.is_none());
    assert!(matches!(step, RenderStep::Nothing));
    assert_eq!(state.status, "why");
    assert_eq!(state.mesh.as_ref().expect("mesh").triangles.len(), 1);
}

#[test]
fn one_model_is_made_at_a_time() {
    let mut state = opened(Some(history(3, 3)));
    assert!(matches!(state.start_render(20), RenderStep::Nothing));
    assert!(matches!(state.start_render(21), RenderStep::Nothing));
    assert!(state.render_pending);
    state.select_position(0, 22);
    let (shown, step) = state.receive_render(finished(2, None), 30);
    assert!(shown.is_some());
    let RenderStep::Start(request) = step else {
        panic!("expected the pending model to be made");
    };
    assert_eq!(request.revision.expect("revision").commit.hash, "00000000");
    assert!(state.is_rendering && !state.render_pending);
}

#[test]
fn a_revisited_commit_is_shown_at_once() {
    let mut state = opened(Some(history(3, 1)));
    let outcome = finished(7, Some("/repo:model.scad:11111111"));
    let (shown, _) = state.receive_render(outcome, 20);
    let first = shown.expect("mesh");
    state.select_position(0, 30);
    let TimelinePoll::Render(RenderStep::Start(_)) = state.poll_timeline(30 + TIMELINE_DELAY)
    else {
        panic!("expected another commit to be made");
    };
    state.receive_render(finished(2, Some("/repo:model.scad:00000000")), 40 + TIMELINE_DELAY);
    state.select_position(1, 50 + TIMELINE_DELAY);
    let TimelinePoll::Render(RenderStep::Show(again)) =
        state.poll_timeline(50 + 2 * TIMELINE_DELAY)
    else {
        panic!("expected the commit to be shown");
    };
    assert!(Arc::ptr_eq(&first, &again));
    assert_eq!(state.status, "7 面をキャッシュから表示中");
    assert!(!state.is_rendering);
}

#[test]
fn opening_another_file_forgets_the_models() {
    let mut state = opened(Some(history(3, 1)));
    state.receive_render(finished(7, Some("/repo:model.scad:11111111")), 20);
    let step = state.open_path(PathBuf::from("/repo/model.scad"), Some(history(3, 1)), 30);
    assert!(matches!(step, RenderStep::Start(_)));
}

#[test]
fn only_the_place_where_the_timeline_rests_is_made() {
    let mut state = opened(Some(history(5, 5)));
    state.receive_render(finished(1, None), 20);
    state.select_position(4, 1_000);
    assert_eq!(state.status, "コミットを選択中…");
    assert!(matches!(
        state.poll_timeline(1_000 + TIMELINE_DELAY - 1),
        TimelinePoll::Wait(1)
    ));
    state.select_position(2, 2_000);
    assert!(matches!(
        state.poll_timeline(1_000 + TIMELINE_DELAY),
        TimelinePoll::Wait(1_000)
    ));
    let TimelinePoll::Render(RenderStep::Start(request)) =
        state.poll_timeline(2_000 + TIMELINE_DELAY)
    else {
        panic!("expected a model to be made");
    };
    assert_eq!(request.revision.expect("revision").commit.hash, "22222222");
    assert!(matches!(
        state.poll_timeline(3_000 + TIMELINE_DELAY),
        TimelinePoll::Idle
    ));
}

#[test]
fn selecting_the_selected_place_changes_nothing() {
    let mut state = opened(Some(history(3, 1)));
    state.select_position(1, 20);
    assert_eq!(state.timeline_changed_at, None);
    assert_eq!(state.idle_since, 10);
    state.select_branch(1, Vec::new(), 20);
    assert_eq!(state.timeline_changed_at, None);
    let mut without = AppState::new(0);
    without.select_position(4, 20);
    without.select_branch(4, Vec::new(), 20);
    assert_eq!(without.timeline_changed_at, None);
}

#[test]
fn another_branch_starts_at_its_newest_commit() {
    let walked = |hash: &str| WalkedCommit {
        hash: hash.to_owned(),
        seconds: 0,
        offset_minutes: 0,
        summary: Some(hash.to_owned()),
    };
    let mut state = opened(Some(history(3, 3)));
    state.select_branch(0, vec![walked("new"), walked("old")], 20);
    assert_eq!(state.timeline_changed_at, Some(20));
    let history = state.git_history.as_ref().expect("history");
    assert_eq!((history.selected_branch, history.position), (0, 1));
    assert_eq!(history.commits[0].subject, "old");
    assert_eq!(history.commits[1].subject, "new");
    state.select_branch(1, Vec::new(), 30);
    let history = state.git_history.as_ref().expect("history");
    assert_eq!((history.selected_branch, history.position), (1, 0));
    assert!(history.commits.is_empty());
}

#[test]
fn a_saved_file_is_made_anew() {
    let mut state = opened(None);
    assert!(!state.watch_due(WATCH_DELAY));
    state.receive_render(
        RenderOutcome::Finished {
            mesh: Arc::new(mesh(1)),
            source_modified: Some(5),
            cache_key: None,
            loaded_from_disk_cache: false,
        },
        20,
    );
    assert!(!state.watch_due(WATCH_DELAY - 1));
    assert!(state.watch_due(WATCH_DELAY));
    assert!(!state.watch_due(WATCH_DELAY + 1));
    assert!(matches!(
        state.watch_source(Some(5), WATCH_DELAY),
        RenderStep::Nothing
    ));
    assert!(matches!(
        state.watch_source(None, WATCH_DELAY),
        RenderStep::Nothing
    ));
    assert!(matches!(
        state.watch_source(Some(6), WATCH_DELAY),
        RenderStep::Start(_)
    ));
}

#[test]
fn a_file_is_watched_only_while_it_is_shown() {
    let mut state = opened(Some(history(2, 2)));
    state.receive_render(finished(1, None), 20);
    state.auto_reload = false;
    assert!(!state.watch_due(WATCH_DELAY));
    state.auto_reload = true;
    state.select_position(0, 30);
    assert!(!state.watch_due(WATCH_DELAY));
    state.select_position(2, 40);
    assert!(state.watch_due(WATCH_DELAY));
}

#[test]
fn models_are_made_ahead_when_the_program_is_idle() {
    let mut state = opened(Some(history(5, 2)));
    assert!(matches!(state.poll_prefetch(IDLE_DELAY * 2), PrefetchPoll::Busy));
    state.receive_render(finished(1, Some("/repo:model.scad:22222222")), 100);
    assert!(matches!(
        state.poll_prefetch(100 + IDLE_DELAY - 3),
        PrefetchPoll::Wait(3)
    ));
    assert!(matches!(
        state.poll_prefetch(100 + IDLE_DELAY),
        PrefetchPoll::Ready
    ));
    state.select_position(1, 200);
    assert!(matches!(
        state.poll_prefetch(200 + IDLE_DELAY),
        PrefetchPoll::Busy
    ));
}

#[test]
fn the_nearest_commits_come_first() {
    let candidates = |commits, position| opened(Some(history(commits, position))).prefetch_candidates();
    assert_eq!(candidates(9, 4), vec![3, 5, 2, 6]);
    assert_eq!(candidates(9, 0), vec![1, 2]);
    assert_eq!(candidates(9, 8), vec![7, 6]);
    assert_eq!(candidates(9, 9), vec![8, 7]);
    assert_eq!(candidates(1, 1), vec![0]);
    assert!(candidates(0, 0).is_empty());
    assert!(AppState::new(0).prefetch_candidates().is_empty());
}

#[test]
fn no_commit_is_made_ahead_twice() {
    let mut state = opened(Some(history(9, 4)));
    let cached = vec![true, false, false, false];
    let chosen = |state: &mut AppState| {
        let revision = state.start_prefetch(&cached)?;
        assert!(state.is_prefetching);
        state.receive_prefetch(false, 500);
        assert!(state.is_prefetching);
        state.receive_prefetch(true, 600);
        assert!(!state.is_prefetching);
        assert_eq!(state.idle_since, 600);
        Some(revision.commit.hash)
    };
    assert_eq!(chosen(&mut state).as_deref(), Some("55555555"));
    assert_eq!(chosen(&mut state).as_deref(), Some("22222222"));
    assert_eq!(chosen(&mut state).as_deref(), Some("66666666"));
    assert_eq!(chosen(&mut state), None);
    assert!(!state.is_prefetching);
}

#[test]
fn a_waiting_request_answered_from_memory_does_not_block_prefetching() {
    let mut state = opened(Some(history(5, 2)));
    state.receive_render(finished(1, Some("/repo:model.scad:22222222")), 100);
    state.select_position(3, 200);
    let TimelinePoll::Render(RenderStep::Start(_)) = state.poll_timeline(200 + TIMELINE_DELAY)
    else {
        panic!("expected another commit to be made");
    };
    let back = 300 + TIMELINE_DELAY;
    state.select_position(2, back);
    let TimelinePoll::Render(RenderStep::Nothing) = state.poll_timeline(back + TIMELINE_DELAY)
    else {
        panic!("expected the request to wait");
    };
    assert!(state.render_pending);
    let (shown, step) = state.receive_render(
        finished(2, Some("/repo:model.scad:33333333")),
        back + TIMELINE_DELAY + 1,
    );
    assert_eq!(shown.expect("mesh").triangles.len(), 2);
    let RenderStep::Show(remembered) = step else {
        panic!("expected the remembered model");
    };
    assert_eq!(remembered.triangles.len(), 1);
    assert!(!state.render_pending && !state.is_rendering);
    assert!(matches!(
        state.poll_prefetch(back + IDLE_DELAY - 1),
        PrefetchPoll::Wait(1)
    ));
    assert!(matches!(
        state.poll_prefetch(back + IDLE_DELAY),
        PrefetchPoll::Ready
    ));
}

#[test]
fn models_are_remembered_by_repository_path_and_commit() {
    assert_eq!(
        key_of_texts("/repo", "parts/model.scad", "abc"),
        "/repo:parts/model.scad:abc"
    );
}
