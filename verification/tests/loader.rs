use scadline::config::ModelBackend;
use scadline::loader::{
    cache_duty, command_for, failure_message, load_or_render_revision, revision_result,
    run_openscad, store_step, CacheDuty, CommandWord, ModelLoader, ModelRun, RevisionEvent,
    RevisionStep, StoreEvent, StoreStep,
};
use scadline::mesh::StlFile;
use scadline::revision::{GitCommit, GitRevision};
use scadline::service::{ModelService, RenderOutcome, RenderStart};
use std::path::PathBuf;

const MODEL: &str = "solid model
facet normal 0 0 1
  outer loop
    vertex 0 0 0
    vertex 1 0 0
    vertex 0 1 0
  endloop
endfacet
endsolid model
";

fn model() -> StlFile {
    StlFile::Bytes(MODEL.as_bytes().to_vec())
}

fn command_line(backend: Option<ModelBackend>) -> Vec<String> {
    let command = command_for(backend);
    let mut line = vec![command.program.to_owned()];
    line.extend(command.arguments.iter().map(|word| match word {
        CommandWord::Text(text) => text.to_string(),
        CommandWord::Source => "model.scad".to_owned(),
        CommandWord::Output => "out.stl".to_owned(),
    }));
    line
}

fn failure(step: RevisionStep) -> String {
    match step {
        RevisionStep::Failed(message) => message,
        _ => panic!("expected a failure"),
    }
}

#[test]
fn each_backend_has_its_command() {
    assert_eq!(
        command_line(None),
        vec!["openscad", "--export-format", "binstl", "-o", "out.stl", "model.scad"]
    );
    assert_eq!(
        command_line(Some(ModelBackend::Manifold)),
        vec![
            "openscad",
            "--backend",
            "Manifold",
            "--export-format",
            "binstl",
            "-o",
            "out.stl",
            "model.scad"
        ]
    );
    assert_eq!(
        command_line(Some(ModelBackend::Cgal))[1..3],
        ["--backend", "CGAL"]
    );
    assert_eq!(
        command_line(Some(ModelBackend::Openrscad)),
        vec!["openrscad", "model.scad", "-o", "out.stl"]
    );
    let loader = ModelLoader::new(false, 0, Some(ModelBackend::Openrscad));
    assert_eq!(loader.command().program, "openrscad");
}

#[test]
fn what_a_failed_command_wrote_is_shown_trimmed() {
    assert_eq!(
        run_openscad(ModelRun::Failed(b"\n  ERROR: line 1 \r\n\n".to_vec())).err(),
        Some("OpenSCADエラー:\nERROR: line 1".to_owned())
    );
    assert_eq!(
        run_openscad(ModelRun::Failed(b"bad \xff byte\n".to_vec())).err(),
        Some("OpenSCADエラー:\nbad \u{fffd} byte".to_owned())
    );
    assert_eq!(
        run_openscad(ModelRun::Failed("構文エラー".as_bytes().to_vec())).err(),
        Some("OpenSCADエラー:\n構文エラー".to_owned())
    );
    assert_eq!(failure_message("\u{3000} \t\u{a0}"), "OpenSCADエラー:\n");
}

#[test]
fn a_command_that_is_not_there_is_told() {
    assert_eq!(
        run_openscad(ModelRun::NotStarted("why".to_owned())).err(),
        Some(
            "OpenSCADを起動できません: why\nOpenSCADがインストールされているか確認してください。"
                .to_owned()
        )
    );
}

#[test]
fn a_model_that_was_made_is_read() {
    let mesh = run_openscad(ModelRun::Succeeded(model())).expect("mesh");
    assert_eq!(mesh.triangles, vec![[0, 1, 2]]);
    assert_eq!(
        run_openscad(ModelRun::Succeeded(StlFile::Unopened("why".to_owned()))).err(),
        Some("STLを開けません: why".to_owned())
    );
}

#[test]
fn the_work_tree_needs_a_temporary_file() {
    let loader = ModelLoader::new(true, 0, None);
    assert_eq!(
        loader.render_worktree(Err("why".to_owned())).err(),
        Some("一時STLファイルを作成できません: why".to_owned())
    );
    let mesh = loader
        .render_worktree(Ok(ModelRun::Succeeded(model())))
        .expect("mesh");
    assert_eq!(mesh.vertices.len(), 3);
}

#[test]
fn a_cached_model_is_not_made_again() {
    let loader = ModelLoader::new(true, 0, None);
    assert!(matches!(
        loader.render_revision(RevisionEvent::Asked),
        RevisionStep::ReadCache
    ));
    let RevisionStep::Made { mesh, store } =
        loader.render_revision(RevisionEvent::Ran(ModelRun::Succeeded(model())))
    else {
        panic!("expected a model");
    };
    assert!(store);
    let RevisionStep::Cached(cached) =
        loader.render_revision(RevisionEvent::CacheRead(Some(model())))
    else {
        panic!("expected the cached model");
    };
    assert_eq!(cached.vertices, mesh.vertices);
    assert_eq!(cached.triangles, mesh.triangles);
}

#[test]
fn a_broken_cache_file_is_passed_over() {
    for read in [
        None,
        Some(StlFile::Bytes(b"solid cut\n".to_vec())),
        Some(StlFile::Unopened("why".to_owned())),
        Some(StlFile::Unread("why".to_owned())),
    ] {
        assert!(matches!(
            load_or_render_revision(true, RevisionEvent::CacheRead(read)),
            RevisionStep::MakeDirectory
        ));
    }
}

#[test]
fn a_revision_is_made_step_by_step() {
    assert!(matches!(
        load_or_render_revision(false, RevisionEvent::Asked),
        RevisionStep::MakeDirectory
    ));
    assert!(matches!(
        load_or_render_revision(false, RevisionEvent::DirectoryMade(Ok(()))),
        RevisionStep::MakeFile
    ));
    assert!(matches!(
        load_or_render_revision(false, RevisionEvent::FileMade(Ok(()))),
        RevisionStep::CheckOut
    ));
    assert!(matches!(
        load_or_render_revision(false, RevisionEvent::CheckedOut(Ok(()))),
        RevisionStep::Run
    ));
    let made = load_or_render_revision(
        false,
        RevisionEvent::Ran(ModelRun::Succeeded(model())),
    );
    assert!(matches!(made, RevisionStep::Made { store: false, .. }));
}

#[test]
fn each_step_to_a_revision_has_its_message() {
    let why = || Err("why".to_owned());
    let failed = |event| failure(load_or_render_revision(true, event));
    assert_eq!(
        failed(RevisionEvent::DirectoryMade(why())),
        "一時ディレクトリを作成できません: why"
    );
    assert_eq!(
        failed(RevisionEvent::FileMade(why())),
        "一時STLファイルを作成できません: why"
    );
    assert_eq!(failed(RevisionEvent::CheckedOut(why())), "why");
    assert_eq!(
        failed(RevisionEvent::Ran(ModelRun::Failed(b"oops".to_vec()))),
        "OpenSCADエラー:\noops"
    );
}

#[test]
fn prefetching_takes_the_steps_of_a_revision() {
    let service = ModelService::new(ModelLoader::new(true, 0, None));
    assert!(matches!(
        service.prefetch(RevisionEvent::Asked),
        RevisionStep::ReadCache
    ));
    assert!(matches!(
        service.prefetch(RevisionEvent::CacheRead(None)),
        RevisionStep::MakeDirectory
    ));
}

#[test]
fn outcomes_tell_commits_and_the_work_tree_apart() {
    let service = ModelService::new(ModelLoader::new(true, 0, None));
    let mesh = || run_openscad(ModelRun::Succeeded(model())).expect("mesh");
    match service.render(true, Some(5), Ok((mesh(), true)), Some("key".to_owned())) {
        RenderOutcome::Finished {
            mesh,
            source_modified,
            cache_key,
            loaded_from_disk_cache,
        } => {
            assert_eq!(mesh.triangles.len(), 1);
            assert_eq!(source_modified, None);
            assert_eq!(cache_key.as_deref(), Some("key"));
            assert!(loaded_from_disk_cache);
        }
        RenderOutcome::Failed(_) => panic!("expected a model"),
    }
    match service.render(false, Some(5), Ok((mesh(), false)), None) {
        RenderOutcome::Finished {
            source_modified,
            cache_key,
            loaded_from_disk_cache,
            ..
        } => {
            assert_eq!(source_modified, Some(5));
            assert_eq!(cache_key, None);
            assert!(!loaded_from_disk_cache);
        }
        RenderOutcome::Failed(_) => panic!("expected a model"),
    }
    match service.render(true, None, Err("why".to_owned()), None) {
        RenderOutcome::Failed(message) => assert_eq!(message, "why"),
        RenderOutcome::Finished { .. } => panic!("expected a failure"),
    }
}

#[test]
fn the_cache_is_changed_only_by_a_complete_copy() {
    assert_eq!(store_step(StoreEvent::Made), StoreStep::MakeDirectory);
    assert_eq!(store_step(StoreEvent::DirectoryMade(true)), StoreStep::MakeFile);
    assert_eq!(store_step(StoreEvent::FileMade(true)), StoreStep::Copy);
    assert_eq!(store_step(StoreEvent::Copied(true)), StoreStep::ReplaceAndPrune);
    for failed in [
        StoreEvent::DirectoryMade(false),
        StoreEvent::FileMade(false),
        StoreEvent::Copied(false),
    ] {
        assert_eq!(store_step(failed), StoreStep::GiveUp);
    }
}

#[test]
fn a_prefetched_model_is_shown_from_the_cache() {
    let service = ModelService::new(ModelLoader::new(true, 0, Some(ModelBackend::Manifold)));
    let revision = GitRevision {
        root: PathBuf::from("/repo"),
        relative_path: PathBuf::from("model.scad"),
        commit: GitCommit {
            hash: "abc".to_owned(),
            short_hash: "abc".to_owned(),
            date: "2024-05-06".to_owned(),
            subject: "Subject".to_owned(),
        },
    };
    assert!(!service.is_cached(&revision, &Vec::new()));
    let made = service.prefetch(RevisionEvent::Ran(ModelRun::Succeeded(model())));
    assert!(matches!(made, RevisionStep::Made { store: true, .. }));
    let file = service.loader.cache_file(&revision).expect("cache file");
    assert!(service.is_cached(&revision, &vec![file]));
    let RevisionStep::Cached(mesh) = service
        .loader
        .render_revision(RevisionEvent::CacheRead(Some(model())))
    else {
        panic!("expected the cached model");
    };
    match service.render(true, None, Ok((mesh, true)), None) {
        RenderOutcome::Finished {
            loaded_from_disk_cache,
            ..
        } => assert!(loaded_from_disk_cache),
        RenderOutcome::Failed(_) => panic!("expected a model"),
    }
}

#[test]
fn a_model_from_the_cache_counts_as_used() {
    let cached = load_or_render_revision(true, RevisionEvent::CacheRead(Some(model())));
    assert_eq!(cache_duty(&cached), CacheDuty::Touch);
    assert!(matches!(revision_result(cached), Some(Ok((_, true)))));
    let ran = || RevisionEvent::Ran(ModelRun::Succeeded(model()));
    let made = load_or_render_revision(true, ran());
    assert_eq!(cache_duty(&made), CacheDuty::Store);
    assert!(matches!(revision_result(made), Some(Ok((_, false)))));
    let made = load_or_render_revision(false, ran());
    assert_eq!(cache_duty(&made), CacheDuty::Nothing);
    let failed = RevisionStep::Failed("why".to_owned());
    assert_eq!(cache_duty(&failed), CacheDuty::Nothing);
    assert!(matches!(revision_result(failed), Some(Err(message)) if message == "why"));
    assert_eq!(cache_duty(&RevisionStep::Run), CacheDuty::Nothing);
    assert!(revision_result(RevisionStep::Run).is_none());
}

#[test]
fn commits_and_the_work_tree_begin_differently() {
    let service = ModelService::new(ModelLoader::new(true, 0, Some(ModelBackend::Openrscad)));
    assert!(matches!(
        service.start(true),
        RenderStart::Revision(RevisionStep::ReadCache)
    ));
    match service.start(false) {
        RenderStart::Worktree(command) => assert_eq!(command.program, "openrscad"),
        RenderStart::Revision(_) => panic!("expected the work tree"),
    }
    let without = ModelService::new(ModelLoader::new(false, 0, None));
    assert!(matches!(
        without.start(true),
        RenderStart::Revision(RevisionStep::MakeDirectory)
    ));
}
