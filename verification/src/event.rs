use vstd::prelude::*;
use crate::domain::{
    clone_jobs, clone_notes, clone_opt_string, clone_pipelines, clone_projects, jobs_view,
    notes_view, opt_string_view, pipelines_view, projects_view, Job, JobView, MrNote, MrNoteView,
    MrView, MrViewModel, Pipeline, PipelineView, Project, ProjectView,
};
use crate::glim_app::{GlimConfig, GlimConfigView, LogLevel};
use crate::id::{JobId, MrIid, PipelineId, ProjectId};

verus! {

/// A key on the keyboard, as far as the input handling tells keys apart.
#[derive(Debug, Clone, Copy, PartialEq, Eq, Structural)]
pub enum Key {
    Char(char),
    Esc,
    Enter,
    Tab,
    BackTab,
    Backspace,
    Delete,
    Insert,
    Up,
    Down,
    Left,
    Right,
    Home,
    End,
    PageUp,
    PageDown,
    F(u8),
    Other,
}

/// A key press with its modifier keys, as bits: 1 shift, 2 control, 4 alt, 8 super,
/// 16 hyper, 32 meta.
#[derive(Debug, Clone, Copy, PartialEq, Eq, Structural)]
pub struct KeyPress {
    pub code: Key,
    pub modifiers: u8,
}

impl KeyPress {
    /// A key pressed without modifiers.
    pub fn plain(code: Key) -> (r: KeyPress)
        ensures
            r == (KeyPress { code, modifiers: 0 }),
    {
        KeyPress { code, modifiers: 0 }
    }
}

/// The command posted to Atlantis on a merge request.
#[derive(Debug, Clone, Copy, PartialEq, Eq, Structural)]
pub enum AtlantisAction {
    Plan,
    Apply,
}

impl AtlantisAction {
    pub open spec fn body(self) -> Seq<char> {
        match self {
            AtlantisAction::Plan => seq!['a', 't', 'l', 'a', 'n', 't', 'i', 's', ' ', 'p', 'l', 'a', 'n'],
            AtlantisAction::Apply => seq!['a', 't', 'l', 'a', 'n', 't', 'i', 's', ' ', 'a', 'p', 'p', 'l', 'y'],
        }
    }

    /// The text of the comment that triggers the action.
    pub fn comment_body(&self) -> (r: &'static str)
        ensures
            r@ == self.body(),
    {
        match self {
            AtlantisAction::Plan => {
                let s = "atlantis plan";
                proof {
                    reveal_strlit("atlantis plan");
                }
                s
            },
            AtlantisAction::Apply => {
                let s = "atlantis apply";
                proof {
                    reveal_strlit("atlantis apply");
                }
                s
            },
        }
    }
}

/// An error shown to the user.
pub enum GlimError {
    GeneralError(String),
    ConfigValidationError(String),
    ConfigConnectionError(String),
    /// The settings file (first) could not be read or parsed, for the reason given second.
    ConfigLoadError(String, String),
    ConfigFileNotFound(String),
}

pub enum GlimErrorView {
    GeneralError(Seq<char>),
    ConfigValidationError(Seq<char>),
    ConfigConnectionError(Seq<char>),
    ConfigLoadError(Seq<char>, Seq<char>),
    ConfigFileNotFound(Seq<char>),
}

impl View for GlimError {
    type V = GlimErrorView;

    open spec fn view(&self) -> GlimErrorView {
        match self {
            GlimError::GeneralError(s) => GlimErrorView::GeneralError(s@),
            GlimError::ConfigValidationError(s) => GlimErrorView::ConfigValidationError(s@),
            GlimError::ConfigConnectionError(s) => GlimErrorView::ConfigConnectionError(s@),
            GlimError::ConfigLoadError(p, s) => GlimErrorView::ConfigLoadError(p@, s@),
            GlimError::ConfigFileNotFound(s) => GlimErrorView::ConfigFileNotFound(s@),
        }
    }
}

impl Clone for GlimError {
    fn clone(&self) -> (r: Self)
        ensures
            r@ == self@,
    {
        match self {
            GlimError::GeneralError(s) => GlimError::GeneralError(s.clone()),
            GlimError::ConfigValidationError(s) => GlimError::ConfigValidationError(s.clone()),
            GlimError::ConfigConnectionError(s) => GlimError::ConfigConnectionError(s.clone()),
            GlimError::ConfigLoadError(p, s) => GlimError::ConfigLoadError(p.clone(), s.clone()),
            GlimError::ConfigFileNotFound(s) => GlimError::ConfigFileNotFound(s.clone()),
        }
    }
}

/// Everything that happens in the application: requests, loaded data and user input.
pub enum GlimEvent {
    AppExit,
    AppError(GlimError),
    LogEntry(String),
    InputKey(KeyPress),
    ProjectsFetch,
    ProjectFetch(ProjectId),
    ProjectsLoaded(Vec<Project>),
    ProjectUpdated(Box<Project>),
    ProjectSelected(ProjectId),
    ProjectDetailsOpen(ProjectId),
    ProjectDetailsClose,
    ProjectOpenUrl(ProjectId),
    PipelinesFetch(ProjectId),
    PipelinesLoaded(Vec<Pipeline>),
    PipelineSelected(PipelineId),
    PipelineOpenUrl(ProjectId, PipelineId),
    PipelineActionsOpen(ProjectId, PipelineId),
    PipelineActionsClose,
    PipelineRetry(ProjectId, PipelineId),
    PipelineCancel(ProjectId, PipelineId),
    PipelineDelete(ProjectId, PipelineId),
    JobsActiveFetch,
    JobsFetch(ProjectId, PipelineId),
    JobsLoaded(ProjectId, PipelineId, Vec<Job>),
    JobOpenUrl(ProjectId, PipelineId, JobId),
    JobLogFetch(ProjectId, PipelineId),
    JobLogDownloaded(ProjectId, JobId, String),
    MrViewOpen(ProjectId, PipelineId),
    MrViewClose,
    MrLoaded(ProjectId, MrView),
    MrNotFound(ProjectId, PipelineId),
    MrNotesFetch(ProjectId, MrIid),
    MrNotesLoaded(ProjectId, MrIid, Vec<MrNote>),
    MrNotePost(ProjectId, MrIid, String),
    MrNotePosted(ProjectId, MrIid),
    MrAtlantisAction(ProjectId, MrIid, AtlantisAction),
    ConfigOpen,
    ConfigClose,
    ConfigApply,
    ConfigUpdate(GlimConfig),
    LogLevelChanged(LogLevel),
    ApplyTemporaryFilter(Option<String>),
    FilterClear,
    FilterMenuShow,
    FilterMenuClose,
    NotificationLast,
    NotificationDismiss,
    ScreenCapture,
    ScreenCaptureToClipboard(String),
    ViewSwitch(usize),
    CurrentUserLoaded(u64),
    ViewProjectsFetched(usize, Vec<ProjectId>),
}

pub enum GlimEventView {
    AppExit,
    AppError(GlimErrorView),
    LogEntry(Seq<char>),
    InputKey(KeyPress),
    ProjectsFetch,
    ProjectFetch(ProjectId),
    ProjectsLoaded(Seq<ProjectView>),
    ProjectUpdated(ProjectView),
    ProjectSelected(ProjectId),
    ProjectDetailsOpen(ProjectId),
    ProjectDetailsClose,
    ProjectOpenUrl(ProjectId),
    PipelinesFetch(ProjectId),
    PipelinesLoaded(Seq<PipelineView>),
    PipelineSelected(PipelineId),
    PipelineOpenUrl(ProjectId, PipelineId),
    PipelineActionsOpen(ProjectId, PipelineId),
    PipelineActionsClose,
    PipelineRetry(ProjectId, PipelineId),
    PipelineCancel(ProjectId, PipelineId),
    PipelineDelete(ProjectId, PipelineId),
    JobsActiveFetch,
    JobsFetch(ProjectId, PipelineId),
    JobsLoaded(ProjectId, PipelineId, Seq<JobView>),
    JobOpenUrl(ProjectId, PipelineId, JobId),
    JobLogFetch(ProjectId, PipelineId),
    JobLogDownloaded(ProjectId, JobId, Seq<char>),
    MrViewOpen(ProjectId, PipelineId),
    MrViewClose,
    MrLoaded(ProjectId, MrViewModel),
    MrNotFound(ProjectId, PipelineId),
    MrNotesFetch(ProjectId, MrIid),
    MrNotesLoaded(ProjectId, MrIid, Seq<MrNoteView>),
    MrNotePost(ProjectId, MrIid, Seq<char>),
    MrNotePosted(ProjectId, MrIid),
    MrAtlantisAction(ProjectId, MrIid, AtlantisAction),
    ConfigOpen,
    ConfigClose,
    ConfigApply,
    ConfigUpdate(GlimConfigView),
    LogLevelChanged(LogLevel),
    ApplyTemporaryFilter(Option<Seq<char>>),
    FilterClear,
    FilterMenuShow,
    FilterMenuClose,
    NotificationLast,
    NotificationDismiss,
    ScreenCapture,
    ScreenCaptureToClipboard(Seq<char>),
    ViewSwitch(usize),
    CurrentUserLoaded(u64),
    ViewProjectsFetched(usize, Seq<ProjectId>),
}

impl View for GlimEvent {
    type V = GlimEventView;

    open spec fn view(&self) -> GlimEventView {
        match self {
            GlimEvent::AppExit => GlimEventView::AppExit,
            GlimEvent::AppError(a0) => GlimEventView::AppError(a0@),
            GlimEvent::LogEntry(a0) => GlimEventView::LogEntry(a0@),
            GlimEvent::InputKey(a0) => GlimEventView::InputKey(*a0),
            GlimEvent::ProjectsFetch => GlimEventView::ProjectsFetch,
            GlimEvent::ProjectFetch(a0) => GlimEventView::ProjectFetch(*a0),
            GlimEvent::ProjectsLoaded(a0) => GlimEventView::ProjectsLoaded(projects_view(a0@)),
            GlimEvent::ProjectUpdated(a0) => GlimEventView::ProjectUpdated(a0@),
            GlimEvent::ProjectSelected(a0) => GlimEventView::ProjectSelected(*a0),
            GlimEvent::ProjectDetailsOpen(a0) => GlimEventView::ProjectDetailsOpen(*a0),
            GlimEvent::ProjectDetailsClose => GlimEventView::ProjectDetailsClose,
            GlimEvent::ProjectOpenUrl(a0) => GlimEventView::ProjectOpenUrl(*a0),
            GlimEvent::PipelinesFetch(a0) => GlimEventView::PipelinesFetch(*a0),
            GlimEvent::PipelinesLoaded(a0) => GlimEventView::PipelinesLoaded(pipelines_view(a0@)),
            GlimEvent::PipelineSelected(a0) => GlimEventView::PipelineSelected(*a0),
            GlimEvent::PipelineOpenUrl(a0, a1) => GlimEventView::PipelineOpenUrl(*a0, *a1),
            GlimEvent::PipelineActionsOpen(a0, a1) => GlimEventView::PipelineActionsOpen(*a0, *a1),
            GlimEvent::PipelineActionsClose => GlimEventView::PipelineActionsClose,
            GlimEvent::PipelineRetry(a0, a1) => GlimEventView::PipelineRetry(*a0, *a1),
            GlimEvent::PipelineCancel(a0, a1) => GlimEventView::PipelineCancel(*a0, *a1),
            GlimEvent::PipelineDelete(a0, a1) => GlimEventView::PipelineDelete(*a0, *a1),
            GlimEvent::JobsActiveFetch => GlimEventView::JobsActiveFetch,
            GlimEvent::JobsFetch(a0, a1) => GlimEventView::JobsFetch(*a0, *a1),
            GlimEvent::JobsLoaded(a0, a1, a2) => GlimEventView::JobsLoaded(*a0, *a1, jobs_view(a2@)),
            GlimEvent::JobOpenUrl(a0, a1, a2) => GlimEventView::JobOpenUrl(*a0, *a1, *a2),
            GlimEvent::JobLogFetch(a0, a1) => GlimEventView::JobLogFetch(*a0, *a1),
            GlimEvent::JobLogDownloaded(a0, a1, a2) => GlimEventView::JobLogDownloaded(*a0, *a1, a2@),
            GlimEvent::MrViewOpen(a0, a1) => GlimEventView::MrViewOpen(*a0, *a1),
            GlimEvent::MrViewClose => GlimEventView::MrViewClose,
            GlimEvent::MrLoaded(a0, a1) => GlimEventView::MrLoaded(*a0, a1@),
            GlimEvent::MrNotFound(a0, a1) => GlimEventView::MrNotFound(*a0, *a1),
            GlimEvent::MrNotesFetch(a0, a1) => GlimEventView::MrNotesFetch(*a0, *a1),
            GlimEvent::MrNotesLoaded(a0, a1, a2) => GlimEventView::MrNotesLoaded(*a0, *a1, notes_view(a2@)),
            GlimEvent::MrNotePost(a0, a1, a2) => GlimEventView::MrNotePost(*a0, *a1, a2@),
            GlimEvent::MrNotePosted(a0, a1) => GlimEventView::MrNotePosted(*a0, *a1),
            GlimEvent::MrAtlantisAction(a0, a1, a2) => GlimEventView::MrAtlantisAction(*a0, *a1, *a2),
            GlimEvent::ConfigOpen => GlimEventView::ConfigOpen,
            GlimEvent::ConfigClose => GlimEventView::ConfigClose,
            GlimEvent::ConfigApply => GlimEventView::ConfigApply,
            GlimEvent::ConfigUpdate(a0) => GlimEventView::ConfigUpdate(a0@),
            GlimEvent::LogLevelChanged(a0) => GlimEventView::LogLevelChanged(*a0),
            GlimEvent::ApplyTemporaryFilter(a0) => GlimEventView::ApplyTemporaryFilter(opt_string_view(*a0)),
            GlimEvent::FilterClear => GlimEventView::FilterClear,
            GlimEvent::FilterMenuShow => GlimEventView::FilterMenuShow,
            GlimEvent::FilterMenuClose => GlimEventView::FilterMenuClose,
            GlimEvent::NotificationLast => GlimEventView::NotificationLast,
            GlimEvent::NotificationDismiss => GlimEventView::NotificationDismiss,
            GlimEvent::ScreenCapture => GlimEventView::ScreenCapture,
            GlimEvent::ScreenCaptureToClipboard(a0) => GlimEventView::ScreenCaptureToClipboard(a0@),
            GlimEvent::ViewSwitch(a0) => GlimEventView::ViewSwitch(*a0),
            GlimEvent::CurrentUserLoaded(a0) => GlimEventView::CurrentUserLoaded(*a0),
            GlimEvent::ViewProjectsFetched(a0, a1) => GlimEventView::ViewProjectsFetched(*a0, a1@),
        }
    }
}

impl Clone for GlimEvent {
    fn clone(&self) -> (r: Self)
        ensures
            r@ == self@,
    {
        match self {
            GlimEvent::AppExit => GlimEvent::AppExit,
            GlimEvent::AppError(a0) => GlimEvent::AppError(a0.clone()),
            GlimEvent::LogEntry(a0) => GlimEvent::LogEntry(a0.clone()),
            GlimEvent::InputKey(a0) => GlimEvent::InputKey(*a0),
            GlimEvent::ProjectsFetch => GlimEvent::ProjectsFetch,
            GlimEvent::ProjectFetch(a0) => GlimEvent::ProjectFetch(*a0),
            GlimEvent::ProjectsLoaded(a0) => GlimEvent::ProjectsLoaded(clone_projects(a0)),
            GlimEvent::ProjectUpdated(a0) => GlimEvent::ProjectUpdated(Box::new((**a0).clone())),
            GlimEvent::ProjectSelected(a0) => GlimEvent::ProjectSelected(*a0),
            GlimEvent::ProjectDetailsOpen(a0) => GlimEvent::ProjectDetailsOpen(*a0),
            GlimEvent::ProjectDetailsClose => GlimEvent::ProjectDetailsClose,
            GlimEvent::ProjectOpenUrl(a0) => GlimEvent::ProjectOpenUrl(*a0),
            GlimEvent::PipelinesFetch(a0) => GlimEvent::PipelinesFetch(*a0),
            GlimEvent::PipelinesLoaded(a0) => GlimEvent::PipelinesLoaded(clone_pipelines(a0)),
            GlimEvent::PipelineSelected(a0) => GlimEvent::PipelineSelected(*a0),
            GlimEvent::PipelineOpenUrl(a0, a1) => GlimEvent::PipelineOpenUrl(*a0, *a1),
            GlimEvent::PipelineActionsOpen(a0, a1) => GlimEvent::PipelineActionsOpen(*a0, *a1),
            GlimEvent::PipelineActionsClose => GlimEvent::PipelineActionsClose,
            GlimEvent::PipelineRetry(a0, a1) => GlimEvent::PipelineRetry(*a0, *a1),
            GlimEvent::PipelineCancel(a0, a1) => GlimEvent::PipelineCancel(*a0, *a1),
            GlimEvent::PipelineDelete(a0, a1) => GlimEvent::PipelineDelete(*a0, *a1),
            GlimEvent::JobsActiveFetch => GlimEvent::JobsActiveFetch,
            GlimEvent::JobsFetch(a0, a1) => GlimEvent::JobsFetch(*a0, *a1),
            GlimEvent::JobsLoaded(a0, a1, a2) => GlimEvent::JobsLoaded(*a0, *a1, clone_jobs(a2)),
            GlimEvent::JobOpenUrl(a0, a1, a2) => GlimEvent::JobOpenUrl(*a0, *a1, *a2),
            GlimEvent::JobLogFetch(a0, a1) => GlimEvent::JobLogFetch(*a0, *a1),
            GlimEvent::JobLogDownloaded(a0, a1, a2) => GlimEvent::JobLogDownloaded(*a0, *a1, a2.clone()),
            GlimEvent::MrViewOpen(a0, a1) => GlimEvent::MrViewOpen(*a0, *a1),
            GlimEvent::MrViewClose => GlimEvent::MrViewClose,
            GlimEvent::MrLoaded(a0, a1) => GlimEvent::MrLoaded(*a0, a1.clone()),
            GlimEvent::MrNotFound(a0, a1) => GlimEvent::MrNotFound(*a0, *a1),
            GlimEvent::MrNotesFetch(a0, a1) => GlimEvent::MrNotesFetch(*a0, *a1),
            GlimEvent::MrNotesLoaded(a0, a1, a2) => GlimEvent::MrNotesLoaded(*a0, *a1, clone_notes(a2)),
            GlimEvent::MrNotePost(a0, a1, a2) => GlimEvent::MrNotePost(*a0, *a1, a2.clone()),
            GlimEvent::MrNotePosted(a0, a1) => GlimEvent::MrNotePosted(*a0, *a1),
            GlimEvent::MrAtlantisAction(a0, a1, a2) => GlimEvent::MrAtlantisAction(*a0, *a1, *a2),
            GlimEvent::ConfigOpen => GlimEvent::ConfigOpen,
            GlimEvent::ConfigClose => GlimEvent::ConfigClose,
            GlimEvent::ConfigApply => GlimEvent::ConfigApply,
            GlimEvent::ConfigUpdate(a0) => GlimEvent::ConfigUpdate(a0.clone()),
            GlimEvent::LogLevelChanged(a0) => GlimEvent::LogLevelChanged(*a0),
            GlimEvent::ApplyTemporaryFilter(a0) => GlimEvent::ApplyTemporaryFilter(clone_opt_string(a0)),
            GlimEvent::FilterClear => GlimEvent::FilterClear,
            GlimEvent::FilterMenuShow => GlimEvent::FilterMenuShow,
            GlimEvent::FilterMenuClose => GlimEvent::FilterMenuClose,
            GlimEvent::NotificationLast => GlimEvent::NotificationLast,
            GlimEvent::NotificationDismiss => GlimEvent::NotificationDismiss,
            GlimEvent::ScreenCapture => GlimEvent::ScreenCapture,
            GlimEvent::ScreenCaptureToClipboard(a0) => GlimEvent::ScreenCaptureToClipboard(a0.clone()),
            GlimEvent::ViewSwitch(a0) => GlimEvent::ViewSwitch(*a0),
            GlimEvent::CurrentUserLoaded(a0) => GlimEvent::CurrentUserLoaded(*a0),
            GlimEvent::ViewProjectsFetched(a0, a1) => GlimEvent::ViewProjectsFetched(*a0, a1.clone()),
        }
    }
}

/// The views of a sequence of events.
pub open spec fn events_view(s: Seq<GlimEvent>) -> Seq<GlimEventView> {
    s.map_values(|e: GlimEvent| e@)
}

/// Appending an event appends its view.
pub proof fn lemma_events_push(s: Seq<GlimEvent>, e: GlimEvent)
    ensures
        events_view(s.push(e)) == events_view(s).push(e@),
{
    assert(events_view(s.push(e)) =~= events_view(s).push(e@));
}

} // verus!
