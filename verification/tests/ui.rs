use scadline::app_state::{AppState, RenderStep};
use scadline::cube::{
    camera_response, cube_click, cube_corner, draw_order, hovered_place, point_in_convex_polygon,
    CubeFace, EdgeSide, PointerInput,
};
use scadline::revision::{GitCommit, GitHistory};
use scadline::timeline::{Caption, PointKind};
use scadline::ui::{
    shortcut_action, CameraMove, Shortcut, StandardView, UiAction, UiEffect,
    RENDERING_REPAINT_DELAY,
};
use std::path::PathBuf;

#[test]
fn keys_ask_for_actions() {
    assert!(matches!(shortcut_action(Shortcut::CtrlO), UiAction::OpenFile));
    assert!(matches!(shortcut_action(Shortcut::CtrlR), UiAction::Reload));
    assert!(matches!(shortcut_action(Shortcut::Home), UiAction::ResetView));
    assert!(matches!(shortcut_action(Shortcut::Digit0), UiAction::ResetView));
    assert!(matches!(
        shortcut_action(Shortcut::Digit1),
        UiAction::SetStandardView(StandardView::Front)
    ));
    assert!(matches!(
        shortcut_action(Shortcut::Digit2),
        UiAction::SetStandardView(StandardView::Right)
    ));
    assert!(matches!(
        shortcut_action(Shortcut::Digit3),
        UiAction::SetStandardView(StandardView::Top)
    ));
    assert!(matches!(shortcut_action(Shortcut::E), UiAction::ToggleEdges));
    assert!(matches!(shortcut_action(Shortcut::A), UiAction::ToggleAxes));
}

#[test]
fn actions_change_the_state() {
    let mut state = AppState::new(0);
    assert!(matches!(state.dispatch(UiAction::OpenFile, 1), UiEffect::PickFile));
    assert!(matches!(state.dispatch(UiAction::Reload, 1), UiEffect::Nothing));
    assert!(matches!(
        state.dispatch(UiAction::ResetView, 1),
        UiEffect::MoveCamera(CameraMove::Reset)
    ));
    assert!(matches!(
        state.dispatch(UiAction::SetStandardView(StandardView::Left), 1),
        UiEffect::MoveCamera(CameraMove::Turn(StandardView::Left))
    ));
    assert!(matches!(state.dispatch(UiAction::ToggleEdges, 1), UiEffect::Nothing));
    assert!(!state.show_edges && state.show_axes);
    assert!(matches!(state.dispatch(UiAction::ToggleAxes, 1), UiEffect::Nothing));
    assert!(!state.show_edges && !state.show_axes);
    state.dispatch(UiAction::ToggleEdges, 1);
    assert!(state.show_edges);
}

#[test]
fn files_are_opened_by_their_names() {
    let mut state = AppState::new(0);
    let open = |name: Option<&str>| UiAction::OpenPath {
        file_name: name.map(str::to_owned),
    };
    assert!(matches!(
        state.dispatch(open(Some("model.scad")), 1),
        UiEffect::Open
    ));
    assert_eq!(state.status, "OpenSCADファイルを開いてください");
    for name in [Some("model.stl"), None] {
        assert!(matches!(state.dispatch(open(name), 1), UiEffect::Nothing));
        assert_eq!(state.status, "拡張子 .scad のファイルを選択してください");
    }
}

#[test]
fn reloading_makes_the_model_anew() {
    let mut state = AppState::new(0);
    assert!(!state.can_reload());
    assert!(state.accepts_drop());
    assert_eq!(state.repaint_delay(), None);
    state.open_path(PathBuf::from("model.scad"), None, 1);
    assert!(!state.can_reload());
    assert!(!state.accepts_drop());
    assert_eq!(state.repaint_delay(), Some(RENDERING_REPAINT_DELAY));
    assert_eq!(RENDERING_REPAINT_DELAY, 80_000_000);
    assert!(matches!(
        state.dispatch(UiAction::Reload, 2),
        UiEffect::Render(RenderStep::Nothing)
    ));
    assert!(state.render_pending);
    state.is_rendering = false;
    assert!(state.can_reload());
    assert!(matches!(
        state.dispatch(UiAction::Reload, 3),
        UiEffect::Render(RenderStep::Start(_))
    ));
}

fn history(position: usize) -> GitHistory {
    let commit = |hash: &str| GitCommit {
        hash: hash.to_owned(),
        short_hash: hash.to_owned(),
        date: "2024-05-06".to_owned(),
        subject: "Subject".to_owned(),
    };
    GitHistory {
        root: PathBuf::from("/repo"),
        relative_path: PathBuf::from("model.scad"),
        branches: vec!["main".to_owned()],
        selected_branch: 0,
        commits: vec![commit("a"), commit("b")],
        position,
    }
}

#[test]
fn points_of_the_timeline_tell_what_they_are() {
    let shown = history(1);
    assert_eq!(shown.point(0, false), PointKind::Plain);
    assert_eq!(shown.point(0, true), PointKind::Cached);
    assert_eq!(shown.point(1, true), PointKind::Selected);
    assert_eq!(shown.point(2, false), PointKind::Worktree);
    assert_eq!(shown.point(3, true), PointKind::Plain);
    assert_eq!(history(2).point(2, false), PointKind::Selected);
}

#[test]
fn the_timeline_names_the_selection() {
    assert!(matches!(history(2).caption(), Caption::Worktree));
    assert!(matches!(history(3).caption(), Caption::NoHistory));
    match history(1).caption() {
        Caption::Commit(commit) => assert_eq!(commit.hash, "b"),
        _ => panic!("expected a commit"),
    }
    assert_eq!(history(0).branch_label(), "main");
    let mut lost = history(0);
    lost.selected_branch = 1;
    assert_eq!(lost.branch_label(), "不明");
    assert_eq!(history(0).branch_to_walk().as_deref(), Some("main"));
    assert_eq!(lost.branch_to_walk(), None);
}

#[test]
fn the_cube_has_six_sides() {
    let corners: Vec<[i8; 3]> = (0..8).map(cube_corner).collect();
    assert_eq!(
        corners,
        vec![
            [-1, -1, -1],
            [1, -1, -1],
            [1, 1, -1],
            [-1, 1, -1],
            [-1, -1, 1],
            [1, -1, 1],
            [1, 1, 1],
            [-1, 1, 1]
        ]
    );
    let sides = [
        (StandardView::Front, [4, 5, 6, 7], [0, 0, 1], "前"),
        (StandardView::Back, [1, 0, 3, 2], [0, 0, -1], "後"),
        (StandardView::Right, [5, 1, 2, 6], [1, 0, 0], "右"),
        (StandardView::Left, [0, 4, 7, 3], [-1, 0, 0], "左"),
        (StandardView::Top, [7, 6, 2, 3], [0, 1, 0], "上"),
        (StandardView::Bottom, [0, 1, 5, 4], [0, -1, 0], "下"),
    ];
    for (side, corners, normal, label) in sides {
        assert_eq!(side.corners(), corners);
        assert_eq!(side.normal(), normal);
        assert_eq!(side.label(), label);
    }
}

fn face(side: StandardView, depth: i32, under_pointer: bool) -> CubeFace {
    CubeFace {
        side,
        depth,
        under_pointer,
    }
}

#[test]
fn the_nearest_side_is_clicked() {
    let faces = vec![
        face(StandardView::Front, 5, true),
        face(StandardView::Right, 9, false),
        face(StandardView::Top, 7, true),
        face(StandardView::Left, 5, true),
    ];
    let order = draw_order(&faces);
    assert_eq!(order, vec![0, 3, 2, 1]);
    assert_eq!(hovered_place(&faces, &order), Some(2));
    assert!(matches!(
        cube_click(&faces),
        Some(UiAction::SetStandardView(StandardView::Top))
    ));
    let missed = vec![face(StandardView::Front, 5, false)];
    assert_eq!(hovered_place(&missed, &draw_order(&missed)), None);
    assert!(cube_click(&missed).is_none());
    assert!(cube_click(&Vec::new()).is_none());
}

#[test]
fn a_point_within_a_polygon_is_on_one_side_of_its_edges() {
    let (left, on, right) = (EdgeSide::Left, EdgeSide::On, EdgeSide::Right);
    assert!(point_in_convex_polygon(&vec![left, left, on, left]));
    assert!(point_in_convex_polygon(&vec![right, on, right, right]));
    assert!(point_in_convex_polygon(&vec![on, on]));
    assert!(point_in_convex_polygon(&Vec::new()));
    assert!(!point_in_convex_polygon(&vec![left, on, right, left]));
}

#[test]
fn the_cube_goes_before_the_model() {
    let input = PointerInput {
        cube_dragged: true,
        dragged: true,
        dragged_aside: true,
        hovers: true,
        hovers_cube: true,
        scrolled: true,
        double_clicked: false,
    };
    let response = camera_response(input);
    assert!(response.turns_with_cube && !response.turns_with_model);
    assert!(response.pans && !response.zooms && !response.resets);
    let response = camera_response(PointerInput {
        cube_dragged: false,
        hovers_cube: false,
        double_clicked: true,
        ..input
    });
    assert!(!response.turns_with_cube && response.turns_with_model);
    assert!(response.zooms && response.resets);
}
