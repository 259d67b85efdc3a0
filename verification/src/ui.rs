//! What the user can ask for, and what is asked of the window in turn.

use crate::app_state::{is_scad_name, AppState, AppView, RenderStep};
use vstd::prelude::*;

verus! {

/// How long until the window is drawn again while a model is made, in nanoseconds.
pub const RENDERING_REPAINT_DELAY: u64 = 80_000_000;

/// A view straight at one side of the model.
#[derive(Clone, Copy, Debug, Eq, PartialEq, Structural)]
pub enum StandardView {
    Front,
    Back,
    Right,
    Left,
    Top,
    Bottom,
}

/// What the user asks for.
pub enum UiAction {
    /// Choose a file to open.
    OpenFile,
    /// Open a file. Its name is the last of its path, if there is one.
    OpenPath { file_name: Option<String> },
    Reload,
    ResetView,
    SetStandardView(StandardView),
    ToggleEdges,
    ToggleAxes,
}

/// How the camera is to move.
#[derive(Clone, Copy, Debug, Eq, PartialEq, Structural)]
pub enum CameraMove {
    /// Back to where it is when a file is opened: angles, distance and place.
    Reset,
    /// To the angles of a view; distance and place stay.
    Turn(StandardView),
}

/// What the window is to do.
pub enum UiEffect {
    Nothing,
    /// Let the user choose a file.
    PickFile,
    /// Open the file, with its history.
    Open,
    Render(RenderStep),
    MoveCamera(CameraMove),
}

/// A key, or two together, that asks for something.
#[derive(Clone, Copy, Debug, Eq, PartialEq, Structural)]
pub enum Shortcut {
    CtrlO,
    CtrlR,
    Home,
    Digit0,
    Digit1,
    Digit2,
    Digit3,
    E,
    A,
}

/// What a key asks for.
pub open spec fn shortcut_meaning(shortcut: Shortcut) -> UiAction {
    match shortcut {
        Shortcut::CtrlO => UiAction::OpenFile,
        Shortcut::CtrlR => UiAction::Reload,
        Shortcut::Home | Shortcut::Digit0 => UiAction::ResetView,
        Shortcut::Digit1 => UiAction::SetStandardView(StandardView::Front),
        Shortcut::Digit2 => UiAction::SetStandardView(StandardView::Right),
        Shortcut::Digit3 => UiAction::SetStandardView(StandardView::Top),
        Shortcut::E => UiAction::ToggleEdges,
        Shortcut::A => UiAction::ToggleAxes,
    }
}

/// What a key asks for.
pub fn shortcut_action(shortcut: Shortcut) -> (action: UiAction)
    ensures
        action == shortcut_meaning(shortcut),
{
    match shortcut {
        Shortcut::CtrlO => UiAction::OpenFile,
        Shortcut::CtrlR => UiAction::Reload,
        Shortcut::Home => UiAction::ResetView,
        Shortcut::Digit0 => UiAction::ResetView,
        Shortcut::Digit1 => UiAction::SetStandardView(StandardView::Front),
        Shortcut::Digit2 => UiAction::SetStandardView(StandardView::Right),
        Shortcut::Digit3 => UiAction::SetStandardView(StandardView::Top),
        Shortcut::E => UiAction::ToggleEdges,
        Shortcut::A => UiAction::ToggleAxes,
    }
}

impl AppState {
    /// Does what the user asks for, as far as the state goes.
    pub fn dispatch(&mut self, action: UiAction, now: u64) -> (effect: UiEffect)
        ensures
            match action {
                UiAction::OpenFile => effect is PickFile && final(self)@ == old(self)@,
                UiAction::OpenPath { file_name } => if file_name matches Some(name) && is_scad_name(
                    name@,
                ) {
                    effect is Open && final(self)@ == old(self)@
                } else {
                    effect is Nothing && final(self)@ == (AppView {
                        status: "拡張子 .scad のファイルを選択してください"@,
                        ..old(self)@
                    })
                },
                UiAction::Reload => if old(self)@.source_path is Some {
                    effect matches UiEffect::Render(step) && (final(self)@, step@) == old(self)@.asked(now)
                } else {
                    effect is Nothing && final(self)@ == old(self)@
                },
                UiAction::ResetView => effect == UiEffect::MoveCamera(CameraMove::Reset) && final(self)@ == old(self)@,
                UiAction::SetStandardView(view) => effect == UiEffect::MoveCamera(
                    CameraMove::Turn(view),
                ) && final(self)@ == old(self)@,
                UiAction::ToggleEdges => effect is Nothing && final(self)@ == (AppView {
                    show_edges: !old(self)@.show_edges,
                    ..old(self)@
                }),
                UiAction::ToggleAxes => effect is Nothing && final(self)@ == (AppView {
                    show_axes: !old(self)@.show_axes,
                    ..old(self)@
                }),
            },
    {
        match action {
            UiAction::OpenFile => UiEffect::PickFile,
            UiAction::OpenPath { file_name } => {
                let accepted = match &file_name {
                    Some(name) => self.accept_path(Some(name.as_str())),
                    None => self.accept_path(None),
                };
                if accepted {
                    UiEffect::Open
                } else {
                    UiEffect::Nothing
                }
            },
            UiAction::Reload => if self.source_path.is_some() {
                UiEffect::Render(self.start_render(now))
            } else {
                UiEffect::Nothing
            },
            UiAction::ResetView => UiEffect::MoveCamera(CameraMove::Reset),
            UiAction::SetStandardView(view) => UiEffect::MoveCamera(CameraMove::Turn(view)),
            UiAction::ToggleEdges => {
                self.show_edges = !self.show_edges;
                UiEffect::Nothing
            },
            UiAction::ToggleAxes => {
                self.show_axes = !self.show_axes;
                UiEffect::Nothing
            },
        }
    }

    /// Whether the button that makes the model anew is enabled.
    pub fn can_reload(&self) -> (enabled: bool)
        ensures
            enabled == (self@.source_path is Some && !self@.is_rendering),
    {
        self.source_path.is_some() && !self.is_rendering
    }

    /// Whether a file that is dropped on the window is opened.
    pub fn accepts_drop(&self) -> (accepts: bool)
        ensures
            accepts == !self@.is_rendering,
    {
        !self.is_rendering
    }

    /// How long until the window is drawn again, if it cannot wait for the user.
    pub fn repaint_delay(&self) -> (delay: Option<u64>)
        ensures
            delay == (if self@.is_rendering {
                Some(RENDERING_REPAINT_DELAY)
            } else {
                None
            }),
    {
        if self.is_rendering {
            Some(RENDERING_REPAINT_DELAY)
        } else {
            None
        }
    }
}

/// What each key asks for: a file, the model anew, the view of the start, a view of a side, edges
/// or axes.
pub proof fn law_keys_and_their_meaning(key: Shortcut)
    ensures
        shortcut_meaning(key) is OpenFile <==> key == Shortcut::CtrlO,
        shortcut_meaning(key) is Reload <==> key == Shortcut::CtrlR,
        shortcut_meaning(key) is ResetView <==> key == Shortcut::Home || key == Shortcut::Digit0,
        shortcut_meaning(key) == UiAction::SetStandardView(StandardView::Front) <==> key
            == Shortcut::Digit1,
        shortcut_meaning(key) == UiAction::SetStandardView(StandardView::Right) <==> key
            == Shortcut::Digit2,
        shortcut_meaning(key) == UiAction::SetStandardView(StandardView::Top) <==> key
            == Shortcut::Digit3,
        shortcut_meaning(key) is ToggleEdges <==> key == Shortcut::E,
        shortcut_meaning(key) is ToggleAxes <==> key == Shortcut::A,
        !(shortcut_meaning(key) is OpenPath),
{
}

/// While a model is made, the window is drawn again every 80 milliseconds.
pub proof fn law_repaint_delay()
    ensures
        RENDERING_REPAINT_DELAY == 80_000_000,
{
}

} // verus!
