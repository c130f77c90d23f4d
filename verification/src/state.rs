//! The state of the screen that outlives a restart, kept in a file beside the
//! configuration.

use vstd::prelude::*;

verus! {

/// The name of the file.
pub const STATE_FILE_NAME: &'static str = "forge-state.toml";

/// Whether the side panes are shown.
#[derive(Debug, Clone, Copy, PartialEq, Eq, Structural)]
pub struct PersistedUiState {
    pub projects_pane_visible: bool,
    pub inspector_pane_visible: bool,
}

/// What the file holds.
#[derive(Debug, Clone, Copy, PartialEq, Eq, Structural)]
pub struct PersistedState {
    pub ui: PersistedUiState,
}

/// What a pane is that the file does not speak of.
pub fn default_pane_visible() -> (visible: bool)
    ensures
        visible,
{
    true
}

/// The panes as at the first launch: both shown.
pub open spec fn first_panes() -> PersistedUiState {
    PersistedUiState { projects_pane_visible: true, inspector_pane_visible: true }
}

impl Default for PersistedUiState {
    fn default() -> (panes: Self)
        ensures
            panes == first_panes(),
    {
        PersistedUiState {
            projects_pane_visible: default_pane_visible(),
            inspector_pane_visible: default_pane_visible(),
        }
    }
}

impl Default for PersistedState {
    fn default() -> (state: Self)
        ensures
            state.ui == first_panes(),
    {
        PersistedState { ui: PersistedUiState::default() }
    }
}

/// What the file said of one pane each, where it said anything.
#[derive(Debug, Clone, Copy, PartialEq, Eq, Structural)]
pub struct SavedPanes {
    pub projects_pane_visible: Option<bool>,
    pub inspector_pane_visible: Option<bool>,
}

/// What the file came to when it was read.
#[derive(Debug, Clone, Copy, PartialEq, Eq, Structural)]
pub enum StateFile {
    /// There is no such file, or it could not be read.
    Absent,
    /// It could not be parsed.
    Unparseable,
    /// It was parsed; the panes may be missing from it.
    Parsed { panes: Option<SavedPanes> },
}

/// What a pane is where the file said `saved` of it.
pub open spec fn pane(saved: Option<bool>) -> bool {
    match saved {
        Some(visible) => visible,
        None => true,
    }
}

fn pane_or_default(saved: Option<bool>) -> (visible: bool)
    ensures
        visible == pane(saved),
{
    match saved {
        Some(visible) => visible,
        None => default_pane_visible(),
    }
}

/// What is saved of the panes: of each whether it is shown.
pub open spec fn saved_panes(ui: PersistedUiState) -> SavedPanes {
    SavedPanes {
        projects_pane_visible: Some(ui.projects_pane_visible),
        inspector_pane_visible: Some(ui.inspector_pane_visible),
    }
}

/// What the file is to say of the panes.
pub fn saved(state: &PersistedState) -> (panes: SavedPanes)
    ensures
        panes == saved_panes(state.ui),
{
    SavedPanes {
        projects_pane_visible: Some(state.ui.projects_pane_visible),
        inspector_pane_visible: Some(state.ui.inspector_pane_visible),
    }
}

/// The panes that the file gives.
pub open spec fn loaded_panes(file: StateFile) -> PersistedUiState {
    match file {
        StateFile::Parsed { panes: Some(panes) } => PersistedUiState {
            projects_pane_visible: pane(panes.projects_pane_visible),
            inspector_pane_visible: pane(panes.inspector_pane_visible),
        },
        _ => first_panes(),
    }
}

/// What was saved is what is loaded.
pub proof fn saved_is_loaded(ui: PersistedUiState)
    ensures
        loaded_panes(StateFile::Parsed { panes: Some(saved_panes(ui)) }) == ui,
{
}

/// The state that the file gives. A file that is not there or makes no sense
/// gives the state of the first launch, and so does what it leaves out: a
/// launch never fails over it.
pub fn load_or_default(file: StateFile) -> (state: PersistedState)
    ensures
        state.ui == loaded_panes(file),
{
    match file {
        StateFile::Parsed { panes: Some(panes) } => PersistedState {
            ui: PersistedUiState {
                projects_pane_visible: pane_or_default(panes.projects_pane_visible),
                inspector_pane_visible: pane_or_default(panes.inspector_pane_visible),
            },
        },
        _ => PersistedState::default(),
    }
}

/// A pane is as it was saved, and visible where nothing was saved of it,
/// whatever became of the other.
pub proof fn an_unsaved_pane_is_visible(file: StateFile)
    ensures
        ({
            let loaded = loaded_panes(file);
            match file {
                StateFile::Parsed { panes: Some(panes) } => {
                    &&& panes.projects_pane_visible matches Some(v) ==> loaded.projects_pane_visible
                        == v
                    &&& panes.projects_pane_visible is None ==> loaded.projects_pane_visible
                    &&& panes.inspector_pane_visible matches Some(v)
                        ==> loaded.inspector_pane_visible == v
                    &&& panes.inspector_pane_visible is None ==> loaded.inspector_pane_visible
                },
                _ => loaded.projects_pane_visible && loaded.inspector_pane_visible,
            }
        }),
{
}

/// What is saved of the panes is both of them, each as it is.
pub proof fn both_panes_are_saved(ui: PersistedUiState)
    ensures
        saved_panes(ui).projects_pane_visible == Some(ui.projects_pane_visible),
        saved_panes(ui).inspector_pane_visible == Some(ui.inspector_pane_visible),
{
}

} // verus!
