use vstd::prelude::*;
use crate::domain::{clone_opt_string, opt_string_view};
use crate::event::{GlimError, GlimErrorView, GlimEvent, GlimEventView};
use crate::id::{JobId, MrIid, PipelineId, ProjectId};
use crate::clock::{instant_now, millis_since, utc_now_secs, TIME_BOUND};
use crate::domain::{pipelines_view, projects_view, Pipeline, Project, ProjectView, PipelineView};
use crate::stores::{index_of, loaded_pipelines, store_transition, ProjectStore, StoreView};
use crate::text::{blank, contains, contains_seq, is_blank, lowercase, text_eq, to_lowercase};
use crate::views::{view_configs_view, InvolvementFilter, ViewConfig, ViewConfigView};
use std::collections::{HashMap, HashSet};

verus! {

/// How much the application logs; `Off` logs nothing.
#[derive(Debug, Clone, Copy, PartialEq, Eq, Structural)]
pub enum LogLevel {
    Off,
    Error,
    Warn,
    Info,
    Debug,
    Trace,
}

/// The user's settings.
pub struct GlimConfig {
    /// The URL of the GitLab instance
    pub gitlab_url: String,
    /// The Personal Access Token to authenticate with GitLab
    pub gitlab_token: String,
    /// Filter applied to the projects list
    pub search_filter: Option<String>,
    /// Logging level: Off, Error, Warn, Info, Debug, Trace
    pub log_level: Option<String>,
    /// Enable animations (default: true)
    pub animations: bool,
}

pub struct GlimConfigView {
    pub gitlab_url: Seq<char>,
    pub gitlab_token: Seq<char>,
    pub search_filter: Option<Seq<char>>,
    pub log_level: Option<Seq<char>>,
    pub animations: bool,
}

impl View for GlimConfig {
    type V = GlimConfigView;

    open spec fn view(&self) -> GlimConfigView {
        GlimConfigView {
            gitlab_url: self.gitlab_url@,
            gitlab_token: self.gitlab_token@,
            search_filter: opt_string_view(self.search_filter),
            log_level: opt_string_view(self.log_level),
            animations: self.animations,
        }
    }
}

impl Clone for GlimConfig {
    fn clone(&self) -> (r: Self)
        ensures
            r@ == self@,
    {
        GlimConfig {
            gitlab_url: self.gitlab_url.clone(),
            gitlab_token: self.gitlab_token.clone(),
            search_filter: clone_opt_string(&self.search_filter),
            log_level: clone_opt_string(&self.log_level),
            animations: self.animations,
        }
    }
}

impl Default for GlimConfig {
    fn default() -> (r: Self)
        ensures
            r@ == (GlimConfigView {
                gitlab_url: seq!['h', 't', 't', 'p', 's', ':', '/', '/'],
                gitlab_token: Seq::empty(),
                search_filter: None,
                log_level: Some(seq!['E', 'r', 'r', 'o', 'r']),
                animations: true,
            }),
    {
        let url = String::from_str("https://");
        let level = String::from_str("Error");
        proof {
            reveal_strlit("https://");
            reveal_strlit("Error");
            assert(url@ =~= seq!['h', 't', 't', 'p', 's', ':', '/', '/']);
            assert(level@ =~= seq!['E', 'r', 'r', 'o', 'r']);
        }
        GlimConfig {
            gitlab_url: url,
            gitlab_token: String::new(),
            search_filter: None,
            log_level: Some(level),
            animations: true,
        }
    }
}

/// ASCII letters folded to lower case; other characters unchanged.
pub open spec fn ascii_lower(c: char) -> int {
    if 65 <= (c as u32) <= 90 {
        (c as u32) + 32
    } else {
        c as u32 as int
    }
}

/// The two texts are equal when ASCII letters are compared without regard to case.
pub open spec fn eq_ignore_ascii_case(a: Seq<char>, b: Seq<char>) -> bool {
    a.len() == b.len() && forall|i: int| 0 <= i < a.len() ==> ascii_lower(a[i]) == ascii_lower(b[i])
}

/// An ASCII decimal digit.
pub open spec fn is_digit(c: char) -> bool {
    48 <= (c as u32) <= 57
}

/// The number written by a string of decimal digits.
pub open spec fn digits_value(d: Seq<char>) -> nat
    decreases d.len(),
{
    if d.len() == 0 {
        0
    } else {
        digits_value(d.drop_last()) * 10 + ((d.last() as u32) - 48) as nat
    }
}

/// The level that a number from one to five stands for.
pub open spec fn level_of_number(n: nat) -> Option<LogLevel> {
    if n == 1 {
        Some(LogLevel::Error)
    } else if n == 2 {
        Some(LogLevel::Warn)
    } else if n == 3 {
        Some(LogLevel::Info)
    } else if n == 4 {
        Some(LogLevel::Debug)
    } else if n == 5 {
        Some(LogLevel::Trace)
    } else {
        None
    }
}

/// What `tracing::Level` parses a text as: an unsigned decimal number (an optional `+`,
/// then digits) from one (error) to five (trace), or a level's name in any ASCII case.
pub open spec fn level_from_str(s: Seq<char>) -> Option<LogLevel> {
    let d = if s.len() > 0 && s[0] == '+' {
        s.drop_first()
    } else {
        s
    };
    let numeric = if d.len() > 0 && (forall|i: int| 0 <= i < d.len() ==> is_digit(#[trigger] d[i])) {
        level_of_number(digits_value(d))
    } else {
        None
    };
    if numeric is Some {
        numeric
    } else if eq_ignore_ascii_case(s, "error"@) {
        Some(LogLevel::Error)
    } else if eq_ignore_ascii_case(s, "warn"@) {
        Some(LogLevel::Warn)
    } else if eq_ignore_ascii_case(s, "info"@) {
        Some(LogLevel::Info)
    } else if eq_ignore_ascii_case(s, "debug"@) {
        Some(LogLevel::Debug)
    } else if eq_ignore_ascii_case(s, "trace"@) {
        Some(LogLevel::Trace)
    } else {
        None
    }
}

/// Parses a logging level.
///
/// Calls `str::parse::<tracing::Level>`, whose `FromStr` impl accepts `1` to `5` as an
/// unsigned integer and otherwise the level names compared ASCII-case-insensitively; the
/// contract restates that rule as `level_from_str`.
#[verifier::external_body]
fn parse_level(s: &str) -> (r: Option<LogLevel>)
    ensures
        r == level_from_str(s@),
{
    match s.parse::<tracing::Level>() {
        Ok(l) if l == tracing::Level::ERROR => Some(LogLevel::Error),
        Ok(l) if l == tracing::Level::WARN => Some(LogLevel::Warn),
        Ok(l) if l == tracing::Level::INFO => Some(LogLevel::Info),
        Ok(l) if l == tracing::Level::DEBUG => Some(LogLevel::Debug),
        Ok(_) => Some(LogLevel::Trace),
        Err(_) => None,
    }
}

/// The level a configured level text selects at start-up: `Off` for "off" in any ASCII
/// case, else the level `tracing` reads from it; `Error` where it names none.
pub open spec fn initial_level(log_level: Option<Seq<char>>) -> LogLevel {
    match log_level {
        Some(s) => if eq_ignore_ascii_case(s, "off"@) {
            LogLevel::Off
        } else {
            match level_from_str(s) {
                Some(l) => l,
                None => LogLevel::Error,
            }
        },
        None => LogLevel::Error,
    }
}

/// Whether a text is "off" in any ASCII case.
fn is_off_name(s: &str) -> (r: bool)
    ensures
        r == eq_ignore_ascii_case(s@, "off"@),
{
    proof {
        reveal_strlit("off");
    }
    if s.unicode_len() != 3 {
        return false;
    }
    let a = s.get_char(0) as u32;
    let b = s.get_char(1) as u32;
    let c = s.get_char(2) as u32;
    let la: u32 = if 65 <= a && a <= 90 { a + 32 } else { a };
    let lb: u32 = if 65 <= b && b <= 90 { b + 32 } else { b };
    let lc: u32 = if 65 <= c && c <= 90 { c + 32 } else { c };
    let r = la == 111 && lb == 102 && lc == 102;
    proof {
        assert(ascii_lower('o') == 111);
        assert(ascii_lower('f') == 102);
        if r {
            assert forall|i: int| 0 <= i < s@.len() implies ascii_lower(s@[i]) == ascii_lower("off"@[i]) by {
                if i == 0 {
                } else if i == 1 {
                } else {
                }
            }
        } else {
            if eq_ignore_ascii_case(s@, "off"@) {
                assert(ascii_lower(s@[0]) == ascii_lower("off"@[0]));
                assert(ascii_lower(s@[1]) == ascii_lower("off"@[1]));
                assert(ascii_lower(s@[2]) == ascii_lower("off"@[2]));
            }
        }
    }
    r
}

/// The level whose lowercase name is `s` exactly.
pub open spec fn level_named(s: Seq<char>) -> Option<LogLevel> {
    if s == "off"@ {
        Some(LogLevel::Off)
    } else if s == "error"@ {
        Some(LogLevel::Error)
    } else if s == "warn"@ {
        Some(LogLevel::Warn)
    } else if s == "info"@ {
        Some(LogLevel::Info)
    } else if s == "debug"@ {
        Some(LogLevel::Debug)
    } else if s == "trace"@ {
        Some(LogLevel::Trace)
    } else {
        None
    }
}

/// The level a lowercase level name selects.
fn level_by_name(s: &str) -> (r: Option<LogLevel>)
    ensures
        r == level_named(s@),
{
    if text_eq(s, "off") {
        Some(LogLevel::Off)
    } else if text_eq(s, "error") {
        Some(LogLevel::Error)
    } else if text_eq(s, "warn") {
        Some(LogLevel::Warn)
    } else if text_eq(s, "info") {
        Some(LogLevel::Info)
    } else if text_eq(s, "debug") {
        Some(LogLevel::Debug)
    } else if text_eq(s, "trace") {
        Some(LogLevel::Trace)
    } else {
        None
    }
}

/// How serious a notice is.
#[derive(Debug, Clone, Copy, PartialEq, Eq, Structural)]
pub enum NoticeLevel {
    Info,
    Warning,
    Error,
}

/// A message for the user.
pub struct Notice {
    pub level: NoticeLevel,
    pub message: String,
}

pub struct NoticeView {
    pub level: NoticeLevel,
    pub message: Seq<char>,
}

impl View for Notice {
    type V = NoticeView;

    open spec fn view(&self) -> NoticeView {
        NoticeView { level: self.level, message: self.message@ }
    }
}

impl Clone for Notice {
    fn clone(&self) -> (r: Self)
        ensures
            r@ == self@,
    {
        Notice { level: self.level, message: self.message.clone() }
    }
}

pub open spec fn notices_view(s: Seq<Notice>) -> Seq<NoticeView> {
    s.map_values(|n: Notice| n@)
}

pub open spec fn opt_notice_view(n: Option<Notice>) -> Option<NoticeView> {
    match n {
        Some(n) => Some(n@),
        None => None,
    }
}

/// The text of an error.
pub open spec fn error_message(e: GlimErrorView) -> Seq<char> {
    match e {
        GlimErrorView::GeneralError(s) => s,
        GlimErrorView::ConfigValidationError(s) => s,
        GlimErrorView::ConfigConnectionError(s) => s,
        GlimErrorView::ConfigLoadError(p, s) => p + ": "@ + s,
        GlimErrorView::ConfigFileNotFound(s) => s,
    }
}

pub(crate) fn error_text(e: &GlimError) -> (r: String)
    ensures
        r@ == error_message(e@),
{
    match e {
        GlimError::GeneralError(s) => s.clone(),
        GlimError::ConfigValidationError(s) => s.clone(),
        GlimError::ConfigConnectionError(s) => s.clone(),
        GlimError::ConfigLoadError(p, s) => {
            let mut t = p.clone();
            t.append(": ");
            t.append(s.as_str());
            t
        },
        GlimError::ConfigFileNotFound(s) => s.clone(),
    }
}

/// Notices waiting to be shown, and the one shown last.
pub struct NoticeService {
    queue: Vec<Notice>,
    last: Option<Notice>,
}

pub struct NoticesModel {
    pub queue: Seq<NoticeView>,
    pub last: Option<NoticeView>,
}

impl View for NoticeService {
    type V = NoticesModel;

    closed spec fn view(&self) -> NoticesModel {
        NoticesModel { queue: notices_view(self.queue@), last: opt_notice_view(self.last) }
    }
}

/// Notices after an event: an application error queues an error notice with its text.
pub open spec fn notices_after(n: NoticesModel, e: GlimEventView) -> NoticesModel {
    match e {
        GlimEventView::AppError(err) => NoticesModel {
            queue: n.queue.push(NoticeView { level: NoticeLevel::Error, message: error_message(err) }),
            ..n
        },
        _ => n,
    }
}

/// Some waiting notice is an error.
pub open spec fn has_error_notice(q: Seq<NoticeView>) -> bool {
    exists|i: int| 0 <= i < q.len() && (#[trigger] q[i]).level == NoticeLevel::Error
}

impl NoticeService {
    pub fn new() -> (r: Self)
        ensures
            r@.queue == Seq::<NoticeView>::empty(),
            r@.last is None,
    {
        let r = NoticeService { queue: Vec::new(), last: None };
        assert(r@.queue =~= Seq::<NoticeView>::empty());
        r
    }

    /// Records what an event means for the user.
    pub fn apply(&mut self, event: &GlimEvent)
        ensures
            final(self)@ == notices_after(old(self)@, event@),
    {
        match event {
            GlimEvent::AppError(err) => {
                let n = Notice { level: NoticeLevel::Error, message: error_text(err) };
                self.queue.push(n);
                assert(self@.queue =~= old(self)@.queue.push(
                    NoticeView { level: NoticeLevel::Error, message: error_message(err@) },
                ));
            },
            _ => {},
        }
    }

    /// Takes the oldest waiting notice; it becomes the last one shown.
    pub fn pop_notice(&mut self) -> (r: Option<Notice>)
        ensures
            old(self)@.queue.len() == 0 ==> r is None && final(self)@ == old(self)@,
            old(self)@.queue.len() > 0 ==> {
                &&& r matches Some(n) && n@ == old(self)@.queue[0]
                &&& final(self)@.queue == old(self)@.queue.drop_first()
                &&& final(self)@.last == Some(old(self)@.queue[0])
            },
    {
        if self.queue.len() == 0 {
            return None;
        }
        let n = self.queue.remove(0);
        self.last = Some(n.clone());
        assert(self@.queue =~= old(self)@.queue.drop_first());
        Some(n)
    }

    /// The notice shown last.
    pub fn last_notification(&self) -> (r: Option<&Notice>)
        ensures
            opt_notice_view(match r { Some(n) => Some(*n), None => None }) == self@.last,
    {
        self.last.as_ref()
    }

    /// Whether an error notice is waiting.
    pub fn has_error(&self) -> (r: bool)
        ensures
            r == has_error_notice(self@.queue),
    {
        let ghost q = self@.queue;
        for i in 0..self.queue.len()
            invariant
                q == notices_view(self.queue@),
                forall|k: int| 0 <= k < i ==> (#[trigger] q[k]).level != NoticeLevel::Error,
        {
            if self.queue[i].level == NoticeLevel::Error {
                assert(q[i as int].level == NoticeLevel::Error);
                return true;
            }
        }
        false
    }
}

/// The parts of the screen state that the application's event handling reads or sets.
pub struct AppUi {
    /// The notification on screen.
    pub notice: Option<Notice>,
    /// The project filter input is open.
    pub filter_input_active: bool,
    /// A screen capture is wanted at the next drawing.
    pub capture_screen_requested: bool,
    /// The settings in the open configuration popup, if it is open.
    pub config_popup: Option<GlimConfig>,
}

pub struct AppUiView {
    pub notice: Option<NoticeView>,
    pub filter_input_active: bool,
    pub capture_screen_requested: bool,
    pub config_popup: Option<GlimConfigView>,
}

pub open spec fn opt_config_view(c: Option<GlimConfig>) -> Option<GlimConfigView> {
    match c {
        Some(c) => Some(c@),
        None => None,
    }
}

impl View for AppUi {
    type V = AppUiView;

    open spec fn view(&self) -> AppUiView {
        AppUiView {
            notice: opt_notice_view(self.notice),
            filter_input_active: self.filter_input_active,
            capture_screen_requested: self.capture_screen_requested,
            config_popup: opt_config_view(self.config_popup),
        }
    }
}

/// Outside work that the application decides on and the surrounding program performs.
pub enum AppAction {
    /// Send an event to the application's queue.
    Dispatch(GlimEvent),
    /// Open a page in the browser; failing is fatal.
    OpenUrl(String),
    /// Download the log of a job in the background.
    DownloadJobLog(ProjectId, JobId),
    /// Put a downloaded job log on the clipboard; failing is fatal.
    CopyJobLog(String),
    /// Put a screen capture on the clipboard; failing is only logged.
    CopyScreenCapture(String),
    /// Request the jobs of a pipeline.
    FetchJobs(ProjectId, PipelineId),
    /// Request the pipelines of a project.
    FetchPipelines(ProjectId),
    /// Request projects, those updated after the given time (seconds) where there is one.
    FetchProjects(Option<i64>),
    /// Request the merge request of a commit.
    FetchMr(ProjectId, String),
    /// Request the comments of a merge request.
    FetchMrNotes(ProjectId, MrIid),
    /// Post a comment on a merge request.
    PostMrNote(ProjectId, MrIid, String),
    /// Retry a pipeline.
    RetryPipeline(ProjectId, PipelineId),
    /// Cancel a pipeline.
    CancelPipeline(ProjectId, PipelineId),
    /// Delete a pipeline.
    DeletePipeline(ProjectId, PipelineId),
    /// Reconfigure the GitLab client; the outcome is ignored.
    UpdateClientConfig(GlimConfig),
    /// Validate the settings and connect with them, then hand the outcome to `GlimApp::config_applied`.
    ConnectWithConfig(GlimConfig),
    /// Write the settings to the configuration file; failing is fatal.
    SaveConfig(GlimConfig),
    /// Change the logging level.
    SetLogLevel(LogLevel),
    /// Request the projects the user contributed to since the given time (seconds), for a view.
    FetchContributorProjects(usize, i64),
    /// Request the projects where the given user is asked to approve changes, for a view.
    FetchReviewerProjects(usize, u64),
    /// Request the current user.
    FetchCurrentUser,
    /// Show a notice as the current notification.
    ShowNotice(Notice),
}

pub enum AppActionView {
    Dispatch(GlimEventView),
    OpenUrl(Seq<char>),
    DownloadJobLog(ProjectId, JobId),
    CopyJobLog(Seq<char>),
    CopyScreenCapture(Seq<char>),
    FetchJobs(ProjectId, PipelineId),
    FetchPipelines(ProjectId),
    FetchProjects(Option<i64>),
    FetchMr(ProjectId, Seq<char>),
    FetchMrNotes(ProjectId, MrIid),
    PostMrNote(ProjectId, MrIid, Seq<char>),
    RetryPipeline(ProjectId, PipelineId),
    CancelPipeline(ProjectId, PipelineId),
    DeletePipeline(ProjectId, PipelineId),
    UpdateClientConfig(GlimConfigView),
    ConnectWithConfig(GlimConfigView),
    SaveConfig(GlimConfigView),
    SetLogLevel(LogLevel),
    FetchContributorProjects(usize, i64),
    FetchReviewerProjects(usize, u64),
    FetchCurrentUser,
    ShowNotice(NoticeView),
}

impl View for AppAction {
    type V = AppActionView;

    open spec fn view(&self) -> AppActionView {
        match self {
            AppAction::Dispatch(a0) => AppActionView::Dispatch(a0@),
            AppAction::OpenUrl(a0) => AppActionView::OpenUrl(a0@),
            AppAction::DownloadJobLog(a0, a1) => AppActionView::DownloadJobLog(*a0, *a1),
            AppAction::CopyJobLog(a0) => AppActionView::CopyJobLog(a0@),
            AppAction::CopyScreenCapture(a0) => AppActionView::CopyScreenCapture(a0@),
            AppAction::FetchJobs(a0, a1) => AppActionView::FetchJobs(*a0, *a1),
            AppAction::FetchPipelines(a0) => AppActionView::FetchPipelines(*a0),
            AppAction::FetchProjects(a0) => AppActionView::FetchProjects(*a0),
            AppAction::FetchMr(a0, a1) => AppActionView::FetchMr(*a0, a1@),
            AppAction::FetchMrNotes(a0, a1) => AppActionView::FetchMrNotes(*a0, *a1),
            AppAction::PostMrNote(a0, a1, a2) => AppActionView::PostMrNote(*a0, *a1, a2@),
            AppAction::RetryPipeline(a0, a1) => AppActionView::RetryPipeline(*a0, *a1),
            AppAction::CancelPipeline(a0, a1) => AppActionView::CancelPipeline(*a0, *a1),
            AppAction::DeletePipeline(a0, a1) => AppActionView::DeletePipeline(*a0, *a1),
            AppAction::UpdateClientConfig(a0) => AppActionView::UpdateClientConfig(a0@),
            AppAction::ConnectWithConfig(a0) => AppActionView::ConnectWithConfig(a0@),
            AppAction::SaveConfig(a0) => AppActionView::SaveConfig(a0@),
            AppAction::SetLogLevel(a0) => AppActionView::SetLogLevel(*a0),
            AppAction::FetchContributorProjects(a0, a1) => AppActionView::FetchContributorProjects(*a0, *a1),
            AppAction::FetchReviewerProjects(a0, a1) => AppActionView::FetchReviewerProjects(*a0, *a1),
            AppAction::FetchCurrentUser => AppActionView::FetchCurrentUser,
            AppAction::ShowNotice(a0) => AppActionView::ShowNotice(a0@),
        }
    }
}

/// The views of a sequence of actions.
pub open spec fn actions_view(s: Seq<AppAction>) -> Seq<AppActionView> {
    s.map_values(|a: AppAction| a@)
}

/// Appending an action appends its view.
pub proof fn lemma_actions_push(s: Seq<AppAction>, a: AppAction)
    ensures
        actions_view(s.push(a)) == actions_view(s).push(a@),
{
    assert(actions_view(s.push(a)) =~= actions_view(s).push(a@));
}

/// How long the project ids fetched for a view stay fresh, in seconds.
pub const VIEW_CACHE_TTL_SECS: u64 = 60;

/// The state of the application as its event handling sees it.
pub struct AppModel {
    pub running: bool,
    pub store: StoreView,
    pub notices: NoticesModel,
    pub active_view_index: usize,
    pub views: Seq<ViewConfigView>,
    pub current_user_id: Option<u64>,
    pub log_level: LogLevel,
    /// Per view: the project ids fetched for it and when, in milliseconds on the
    /// monotonic clock.
    pub cache: Map<usize, (Set<u64>, u64)>,
    pub view_loading: bool,
    /// Where the settings are stored.
    pub config_path: Seq<char>,
    /// The previous reading of the animation clock, in milliseconds on the monotonic clock.
    pub last_tick: u64,
}

/// The application: loaded projects, views, notices and settings.
pub struct GlimApp {
    running: bool,
    config_path: String,
    started: std::time::Instant,
    last_tick: u64,
    project_store: ProjectStore,
    notices: NoticeService,
    pub active_view_index: usize,
    pub views: Vec<ViewConfig>,
    current_user_id: Option<u64>,
    current_log_level: LogLevel,
    view_project_cache: HashMap<usize, (HashSet<u64>, u64)>,
    pub view_loading: bool,
}

impl View for GlimApp {
    type V = AppModel;

    closed spec fn view(&self) -> AppModel {
        AppModel {
            running: self.running,
            store: self.project_store@,
            notices: self.notices@,
            active_view_index: self.active_view_index,
            views: view_configs_view(self.views@),
            current_user_id: self.current_user_id,
            log_level: self.current_log_level,
            cache: self.view_project_cache@.map_values(|v: (HashSet<u64>, u64)| (v.0@, v.1)),
            view_loading: self.view_loading,
            config_path: self.config_path@,
            last_tick: self.last_tick,
        }
    }
}

/// Whether the project ids of a view, fetched at `fetched` (milliseconds), are still fresh
/// at `mono`.
pub open spec fn cache_fresh(fetched: u64, mono: u64) -> bool {
    mono < fetched + VIEW_CACHE_TTL_SECS * 1000
}

/// Switching to view `idx` at time `now` (seconds) and `mono` (milliseconds).
/// A view with an involvement filter whose project ids are missing or out of date is
/// marked as loading and gets its projects requested. With the `Contributor` filter these
/// are the projects active within `recent_days`, fourteen days when unset; with the other
/// filter they are the signed-in account's, or the account itself is requested while its
/// id is missing.
pub open spec fn view_fetch(m: AppModel, idx: usize, now: i64, mono: u64) -> (AppModel, Seq<AppActionView>) {
    if idx >= m.views.len() {
        (m, Seq::empty())
    } else {
        let v = m.views[idx as int];
        match v.involvement {
            None => (m, Seq::empty()),
            Some(inv) => if m.cache.contains_key(idx) && cache_fresh(m.cache[idx].1, mono) {
                (m, Seq::empty())
            } else {
                let m2 = AppModel { view_loading: true, ..m };
                match inv {
                    InvolvementFilter::Contributor => {
                        let days: int = match v.recent_days {
                            Some(d) => d as int,
                            None => 14,
                        };
                        (m2, seq![AppActionView::FetchContributorProjects(idx, (now - days * 86400) as i64)])
                    },
                    InvolvementFilter::Reviewer => match m.current_user_id {
                        Some(u) => (m2, seq![AppActionView::FetchReviewerProjects(idx, u)]),
                        None => (m2, seq![AppActionView::FetchCurrentUser]),
                    },
                }
            },
        }
    }
}

/// Requests for the jobs of every loaded pipeline that is still going, pipeline by pipeline.
pub open spec fn pipeline_job_fetches(pls: Seq<PipelineView>) -> Seq<AppActionView>
    decreases pls.len(),
{
    if pls.len() == 0 {
        Seq::empty()
    } else {
        let prev = pipeline_job_fetches(pls.drop_last());
        if pls.last().in_progress() {
            prev.push(AppActionView::FetchJobs(pls.last().project_id, pls.last().id))
        } else {
            prev
        }
    }
}

/// Job requests for every project in order.
pub open spec fn active_job_fetches(ps: Seq<ProjectView>) -> Seq<AppActionView>
    decreases ps.len(),
{
    if ps.len() == 0 {
        Seq::empty()
    } else {
        active_job_fetches(ps.drop_last()) + pipeline_job_fetches(loaded_pipelines(ps.last()))
    }
}

/// The latest `last_activity_at` among the projects.
pub open spec fn latest_activity_at(ps: Seq<ProjectView>) -> Option<i64>
    decreases ps.len(),
{
    if ps.len() == 0 {
        None
    } else {
        let t = ps.last().last_activity_at;
        match latest_activity_at(ps.drop_last()) {
            Some(u) => Some(if u < t { t } else { u }),
            None => Some(t),
        }
    }
}

/// The earliest `last_activity_at` among the projects with a pipeline still going.
pub open spec fn oldest_active_at(ps: Seq<ProjectView>) -> Option<i64>
    decreases ps.len(),
{
    if ps.len() == 0 {
        None
    } else {
        let prev = oldest_active_at(ps.drop_last());
        if ps.last().active_pipelines() {
            let t = ps.last().last_activity_at;
            match prev {
                Some(u) => Some(if t < u { t } else { u }),
                None => Some(t),
            }
        } else {
            prev
        }
    }
}

/// Projects are requested from the oldest activity among projects with running pipelines,
/// so that those are refreshed; without such projects, from the latest activity.
pub open spec fn projects_updated_after(ps: Seq<ProjectView>) -> Option<i64> {
    match oldest_active_at(ps) {
        Some(t) => Some(t),
        None => latest_activity_at(ps),
    }
}

/// The commit of pipeline `plid` of project `pid`, or empty where either is unknown.
pub open spec fn pipeline_sha(store: StoreView, pid: ProjectId, plid: PipelineId) -> Seq<char> {
    match index_of(store.projects, pid) {
        Some(i) => match store.projects[i].pipeline(plid) {
            Some(p) => p.sha,
            None => Seq::empty(),
        },
        None => Seq::empty(),
    }
}

/// Changing the logging level by name: an unknown name keeps the level; a new level is
/// set and announced.
pub open spec fn log_level_change(m: AppModel, name: Seq<char>) -> (AppModel, Seq<AppActionView>) {
    match level_named(lowercase(name)) {
        Some(l) => if l != m.log_level {
            (
                AppModel { log_level: l, ..m },
                seq![AppActionView::SetLogLevel(l), AppActionView::Dispatch(GlimEventView::LogLevelChanged(l))],
            )
        } else {
            (m, Seq::empty())
        },
        None => (m, Seq::empty()),
    }
}

/// The error shown when a pipeline has no merge request.
pub open spec fn mr_not_found_error() -> GlimEventView {
    GlimEventView::AppError(GlimErrorView::GeneralError("No open MR found for this pipeline"@))
}

/// Whether the application can handle an event: the project, pipeline or job that opening
/// a page or fetching a log refers to must be loaded, and a log is fetched from a failed job.
pub open spec fn event_handled(m: AppModel, e: GlimEventView) -> bool {
    let ps = m.store.projects;
    match e {
        GlimEventView::ProjectOpenUrl(id) => index_of(ps, id) is Some,
        GlimEventView::PipelineOpenUrl(pid, plid) => match index_of(ps, pid) {
            Some(i) => ps[i].pipeline(plid) is Some,
            None => false,
        },
        GlimEventView::JobOpenUrl(pid, plid, jid) => match index_of(ps, pid) {
            Some(i) => match ps[i].pipeline(plid) {
                Some(p) => p.first_job(crate::domain::job_has_id(jid)) is Some,
                None => false,
            },
            None => false,
        },
        GlimEventView::JobLogFetch(pid, plid) => match index_of(ps, pid) {
            Some(i) => match ps[i].pipeline(plid) {
                Some(p) => p.first_job(crate::domain::job_failed()) is Some,
                None => false,
            },
            None => false,
        },
        _ => true,
    }
}

/// What the application itself does with an event, after the store and the notices took
/// theirs: the state and screen afterwards and the outside work it asks for.
#[verifier::opaque]
pub open spec fn app_react(m: AppModel, e: GlimEventView, ui: AppUiView, now: i64, mono: u64) -> (
    AppModel,
    AppUiView,
    Seq<AppActionView>,
) {
    let ps = m.store.projects;
    match e {
        GlimEventView::AppExit => (AppModel { running: false, ..m }, ui, Seq::empty()),
        GlimEventView::ProjectOpenUrl(id) => (
            m,
            ui,
            seq![AppActionView::OpenUrl(ps[index_of(ps, id)->0].url)],
        ),
        GlimEventView::PipelineOpenUrl(pid, plid) => (
            m,
            ui,
            seq![AppActionView::OpenUrl(ps[index_of(ps, pid)->0].pipeline(plid)->0.url)],
        ),
        GlimEventView::JobOpenUrl(pid, plid, jid) => (
            m,
            ui,
            seq![AppActionView::OpenUrl(ps[index_of(ps, pid)->0].pipeline(plid)->0.first_job(
                crate::domain::job_has_id(jid),
            )->0.url)],
        ),
        GlimEventView::JobLogFetch(pid, plid) => (
            m,
            ui,
            seq![AppActionView::DownloadJobLog(pid, ps[index_of(ps, pid)->0].pipeline(plid)->0.first_job(
                crate::domain::job_failed(),
            )->0.id)],
        ),
        GlimEventView::JobLogDownloaded(_, _, trace) => (m, ui, seq![AppActionView::CopyJobLog(trace)]),
        GlimEventView::JobsActiveFetch => (m, ui, active_job_fetches(m.store.sorted)),
        GlimEventView::PipelinesFetch(id) => (m, ui, seq![AppActionView::FetchPipelines(id)]),
        GlimEventView::ProjectsFetch => (
            m,
            ui,
            seq![AppActionView::FetchProjects(projects_updated_after(m.store.sorted))],
        ),
        GlimEventView::JobsFetch(pid, plid) => (m, ui, seq![AppActionView::FetchJobs(pid, plid)]),
        GlimEventView::MrViewOpen(pid, plid) => {
            let sha = pipeline_sha(m.store, pid, plid);
            if sha.len() == 0 {
                (m, ui, seq![AppActionView::Dispatch(GlimEventView::MrNotFound(pid, plid))])
            } else {
                (m, ui, seq![AppActionView::FetchMr(pid, sha)])
            }
        },
        GlimEventView::MrNotFound(_, _) => (m, ui, seq![AppActionView::Dispatch(mr_not_found_error())]),
        GlimEventView::MrLoaded(pid, mr) => (m, ui, seq![AppActionView::FetchMrNotes(pid, mr.iid)]),
        GlimEventView::MrNotePost(pid, iid, body) => (m, ui, seq![AppActionView::PostMrNote(pid, iid, body)]),
        GlimEventView::MrNotePosted(pid, iid) => (m, ui, seq![AppActionView::FetchMrNotes(pid, iid)]),
        GlimEventView::MrAtlantisAction(pid, iid, action) => (
            m,
            ui,
            seq![AppActionView::Dispatch(GlimEventView::MrNotePost(pid, iid, action.body()))],
        ),
        GlimEventView::PipelineRetry(pid, plid) => (m, ui, seq![AppActionView::RetryPipeline(pid, plid)]),
        GlimEventView::PipelineCancel(pid, plid) => (m, ui, seq![AppActionView::CancelPipeline(pid, plid)]),
        GlimEventView::PipelineDelete(pid, plid) => (m, ui, seq![AppActionView::DeletePipeline(pid, plid)]),
        GlimEventView::ConfigUpdate(config) => match config.log_level {
            Some(name) => {
                let c = log_level_change(m, name);
                (c.0, ui, seq![AppActionView::UpdateClientConfig(config)] + c.1)
            },
            None => (m, ui, seq![AppActionView::UpdateClientConfig(config)]),
        },
        GlimEventView::ConfigApply => match ui.config_popup {
            Some(config) => (m, ui, seq![AppActionView::ConnectWithConfig(config)]),
            None => (m, ui, Seq::empty()),
        },
        GlimEventView::NotificationLast => match m.notices.last {
            Some(n) => (m, AppUiView { notice: Some(n), ..ui }, seq![AppActionView::ShowNotice(n)]),
            None => (m, ui, Seq::empty()),
        },
        GlimEventView::NotificationDismiss => (m, AppUiView { notice: None, ..ui }, Seq::empty()),
        GlimEventView::FilterMenuShow => (m, AppUiView { filter_input_active: true, ..ui }, Seq::empty()),
        GlimEventView::ScreenCapture => (m, AppUiView { capture_screen_requested: true, ..ui }, Seq::empty()),
        GlimEventView::ScreenCaptureToClipboard(s) => (m, ui, seq![AppActionView::CopyScreenCapture(s)]),
        GlimEventView::ViewSwitch(idx) => if idx < m.views.len() {
            let f = view_fetch(AppModel { active_view_index: idx, ..m }, idx, now, mono);
            (f.0, ui, f.1)
        } else {
            (m, ui, Seq::empty())
        },
        GlimEventView::CurrentUserLoaded(uid) => {
            let m2 = AppModel { current_user_id: Some(uid), ..m };
            let idx = m.active_view_index;
            if idx < m.views.len() && m.views[idx as int].involvement == Some(InvolvementFilter::Reviewer) {
                (m2, ui, seq![AppActionView::FetchReviewerProjects(idx, uid)])
            } else {
                (m2, ui, Seq::empty())
            }
        },
        GlimEventView::ViewProjectsFetched(idx, ids) => (
            AppModel { cache: m.cache.insert(idx, (id_numbers(ids), mono)), view_loading: false, ..m },
            ui,
            Seq::empty(),
        ),
        _ => (m, ui, Seq::empty()),
    }
}

/// After an event: an informational notification gives way while an error waits; an empty
/// notification slot takes the oldest waiting notice.
pub open spec fn settle_notice(m: AppModel, ui: AppUiView) -> (AppModel, AppUiView, Seq<AppActionView>) {
    let ui1 = if has_error_notice(m.notices.queue) && (ui.notice matches Some(n) && n.level
        == NoticeLevel::Info) {
        AppUiView { notice: None, ..ui }
    } else {
        ui
    };
    if ui1.notice is None && m.notices.queue.len() > 0 {
        let n = m.notices.queue[0];
        (
            AppModel {
                notices: NoticesModel { queue: m.notices.queue.drop_first(), last: Some(n) },
                ..m
            },
            AppUiView { notice: Some(n), ..ui1 },
            seq![AppActionView::ShowNotice(n)],
        )
    } else {
        (m, ui1, Seq::empty())
    }
}

/// Applying the settings of the open configuration popup leaves the notification step to
/// `GlimApp::config_applied`, once the outcome is known.
pub open spec fn defers_notice(e: GlimEventView, ui: AppUiView) -> bool {
    e is ConfigApply && ui.config_popup is Some
}

/// The store's events, to be sent.
pub open spec fn dispatches(s: Seq<GlimEventView>) -> Seq<AppActionView> {
    s.map_values(|e: GlimEventView| AppActionView::Dispatch(e))
}

/// The whole handling of an event at time `now` (seconds) and `mono` (milliseconds):
/// the store, then the notices, then the application's own reaction, then the notification.
pub open spec fn app_transition(
    old: AppModel,
    e: GlimEventView,
    ui: AppUiView,
    now: i64,
    mono: u64,
    new: AppModel,
    new_ui: AppUiView,
    out: Seq<AppActionView>,
) -> bool {
    exists|sev: Seq<GlimEventView>|
        {
            &&& #[trigger] store_transition(old.store, e, now, new.store, sev)
            &&& {
                let m1 = AppModel { store: new.store, notices: notices_after(old.notices, e), ..old };
                let r = app_react(m1, e, ui, now, mono);
                let st = if defers_notice(e, ui) {
                    (r.0, r.1, Seq::<AppActionView>::empty())
                } else {
                    settle_notice(r.0, r.1)
                };
                &&& new == st.0
                &&& new_ui == st.1
                &&& out == dispatches(sev) + r.2 + st.2
            }
        }
}

/// What reading the configuration file gave.
pub enum ConfigRead {
    /// There is no such file.
    Missing,
    /// The file is there but could not be read or parsed, with this message.
    Failed(String),
    /// The settings in the file.
    Loaded(GlimConfig),
}

pub enum ConfigReadView {
    Missing,
    Failed(Seq<char>),
    Loaded(GlimConfigView),
}

impl View for ConfigRead {
    type V = ConfigReadView;

    open spec fn view(&self) -> ConfigReadView {
        match self {
            ConfigRead::Missing => ConfigReadView::Missing,
            ConfigRead::Failed(s) => ConfigReadView::Failed(s@),
            ConfigRead::Loaded(c) => ConfigReadView::Loaded(c@),
        }
    }
}

/// How applying new settings went, as found by the surrounding program.
pub enum ConfigOutcome {
    /// The settings were refused before connecting, with this message.
    Invalid(String),
    /// Connecting with the settings failed, with this message.
    ConnectFailed(String),
    /// The client now works with the settings.
    Connected,
}

pub enum ConfigOutcomeView {
    Invalid(Seq<char>),
    ConnectFailed(Seq<char>),
    Connected,
}

impl View for ConfigOutcome {
    type V = ConfigOutcomeView;

    open spec fn view(&self) -> ConfigOutcomeView {
        match self {
            ConfigOutcome::Invalid(s) => ConfigOutcomeView::Invalid(s@),
            ConfigOutcome::ConnectFailed(s) => ConfigOutcomeView::ConnectFailed(s@),
            ConfigOutcome::Connected => ConfigOutcomeView::Connected,
        }
    }
}

/// What follows an attempt to apply settings: on success they are saved, announced, the
/// popup closes and projects are fetched again; otherwise the error is shown.
pub open spec fn config_outcome_actions(config: GlimConfigView, outcome: ConfigOutcomeView) -> Seq<AppActionView> {
    match outcome {
        ConfigOutcomeView::Invalid(msg) => seq![
            AppActionView::Dispatch(GlimEventView::AppError(GlimErrorView::ConfigValidationError(msg))),
        ],
        ConfigOutcomeView::ConnectFailed(msg) => seq![
            AppActionView::Dispatch(GlimEventView::AppError(GlimErrorView::ConfigConnectionError(msg))),
        ],
        ConfigOutcomeView::Connected => seq![
            AppActionView::SaveConfig(config),
            AppActionView::Dispatch(GlimEventView::ConfigUpdate(config)),
            AppActionView::Dispatch(GlimEventView::ConfigClose),
            AppActionView::Dispatch(GlimEventView::ProjectsFetch),
        ],
    }
}

impl GlimApp {
    /// The store inside is well formed.
    pub closed spec fn wf(&self) -> bool {
        self.project_store.wf()
    }

    /// A running application with no projects yet, the given views and the first one
    /// active, at the logging level the settings name, keeping its settings at `config_path`.
    pub fn new(config_path: String, config: &GlimConfig, views: Vec<ViewConfig>) -> (r: Self)
        ensures
            r@.config_path == config_path@,
            r@.last_tick == 0,
            r.wf(),
            r@.running,
            r@.store.projects.len() == 0,
            r@.store.sorted.len() == 0,
            r@.notices.queue.len() == 0,
            r@.notices.last is None,
            r@.active_view_index == 0,
            r@.views == view_configs_view(views@),
            r@.current_user_id is None,
            r@.log_level == initial_level(config@.log_level),
            r@.cache == Map::<usize, (Set<u64>, u64)>::empty(),
            !r@.view_loading,
    {
        let current_log_level = match &config.log_level {
            Some(s) => if is_off_name(s.as_str()) {
                LogLevel::Off
            } else {
                match parse_level(s.as_str()) {
                    Some(l) => l,
                    None => LogLevel::Error,
                }
            },
            None => LogLevel::Error,
        };
        let r = GlimApp {
            running: true,
            config_path,
            started: instant_now(),
            last_tick: 0,
            project_store: ProjectStore::new(),
            notices: NoticeService::new(),
            active_view_index: 0,
            views,
            current_user_id: None,
            current_log_level,
            view_project_cache: HashMap::new(),
            view_loading: false,
        };
        assert(r@.cache =~= Map::<usize, (Set<u64>, u64)>::empty());
        r
    }

    /// Where the settings are stored.
    pub fn config_path(&self) -> (r: &str)
        ensures
            r@ == self@.config_path,
    {
        self.config_path.as_str()
    }

    /// The settings, from what reading the configuration file gave: a missing file and a
    /// file that cannot be read are errors that name the file or say what went wrong.
    pub fn load_config(&self, read: ConfigRead) -> (r: Result<GlimConfig, GlimError>)
        ensures
            (match read@ {
                ConfigReadView::Loaded(c) => r matches Ok(x) && x@ == c,
                ConfigReadView::Failed(msg) => r matches Err(GlimError::ConfigLoadError(p, m)) && p@ == self@.config_path
                    && m@ == msg,
                ConfigReadView::Missing => r matches Err(GlimError::ConfigFileNotFound(p)) && p@ == self@.config_path,
            }),
    {
        match read {
            ConfigRead::Loaded(c) => Ok(c),
            ConfigRead::Failed(msg) => Err(GlimError::ConfigLoadError(self.config_path.clone(), msg)),
            ConfigRead::Missing => Err(GlimError::ConfigFileNotFound(self.config_path.clone())),
        }
    }

    /// Moves the animation clock to `mono` (milliseconds on the monotonic clock) and returns
    /// the milliseconds since its previous reading, cut to 32 bits; none where the clock
    /// reads earlier than before.
    pub fn process_timers_at(&mut self, mono: u64) -> (r: u32)
        ensures
            final(self)@ == (AppModel { last_tick: mono, ..old(self)@ }),
            final(self).wf() == old(self).wf(),
            mono >= old(self)@.last_tick ==> r == (mono - old(self)@.last_tick) % 0x1_0000_0000,
            mono < old(self)@.last_tick ==> r == 0,
    {
        let elapsed: u64 = if mono >= self.last_tick { mono - self.last_tick } else { 0 };
        self.last_tick = mono;
        let r = elapsed as u32;
        assert(r == elapsed % 0x1_0000_0000) by (bit_vector)
            requires r == elapsed as u32;
        r
    }

    /// Moves the animation clock to now and returns the milliseconds since its previous
    /// reading, cut to 32 bits.
    pub fn process_timers(&mut self) -> (r: u32)
        ensures
            final(self)@ == (AppModel { last_tick: final(self)@.last_tick, ..old(self)@ }),
            final(self)@.last_tick >= old(self)@.last_tick ==> r == (final(self)@.last_tick - old(self)@.last_tick)
                % 0x1_0000_0000,
            final(self)@.last_tick < old(self)@.last_tick ==> r == 0,
            final(self).wf() == old(self).wf(),
    {
        let mono = millis_since(&self.started);
        self.process_timers_at(mono)
    }

    /// Whether the application has not been asked to exit.
    pub fn is_running(&self) -> (r: bool)
        ensures
            r == self@.running,
    {
        self.running
    }

    /// The loaded project with the given id.
    pub fn project(&self, id: ProjectId) -> (r: &Project)
        requires
            self.wf(),
            index_of(self@.store.projects, id) is Some,
        ensures
            r@ == self@.store.projects[index_of(self@.store.projects, id)->0],
    {
        self.project_store.find(id).unwrap()
    }

    /// The projects, most recent activity first.
    pub fn projects(&self) -> (r: &[Project])
        ensures
            crate::domain::projects_view(r@) == self@.store.sorted,
            self.wf() ==> crate::stores::activity_ordered(crate::domain::projects_view(r@)),
    {
        self.project_store.sorted_projects()
    }

    /// Takes the oldest waiting notice.
    pub fn pop_notice(&mut self) -> (r: Option<Notice>)
        ensures
            old(self)@.notices.queue.len() == 0 ==> r is None && final(self)@ == old(self)@,
            old(self)@.notices.queue.len() > 0 ==> {
                &&& r matches Some(n) && n@ == old(self)@.notices.queue[0]
                &&& final(self)@ == (AppModel {
                    notices: NoticesModel {
                        queue: old(self)@.notices.queue.drop_first(),
                        last: Some(old(self)@.notices.queue[0]),
                    },
                    ..old(self)@
                })
            },
            final(self).wf() == old(self).wf(),
    {
        self.notices.pop_notice()
    }

    /// What to do once applying new settings has gone as `outcome` says.
    /// Settings refused before connecting end the handling there; otherwise the
    /// notification step follows, as after any event.
    pub fn config_applied(&mut self, config: GlimConfig, outcome: ConfigOutcome, ui: &mut AppUi) -> (r: Vec<AppAction>)
        requires
            old(self).wf(),
        ensures
            final(self).wf(),
            outcome@ is Invalid ==> {
                &&& actions_view(r@) == config_outcome_actions(config@, outcome@)
                &&& final(self)@ == old(self)@
                &&& final(ui)@ == old(ui)@
            },
            !(outcome@ is Invalid) ==> {
                &&& actions_view(r@) == config_outcome_actions(config@, outcome@) + settle_notice(old(self)@, old(ui)@).2
                &&& final(self)@ == settle_notice(old(self)@, old(ui)@).0
                &&& final(ui)@ == settle_notice(old(self)@, old(ui)@).1
            },
    {
        let invalid = match &outcome {
            ConfigOutcome::Invalid(_) => true,
            _ => false,
        };
        let mut out: Vec<AppAction> = Vec::new();
        match outcome {
            ConfigOutcome::Invalid(msg) => {
                out.push(AppAction::Dispatch(GlimEvent::AppError(GlimError::ConfigValidationError(msg))));
            },
            ConfigOutcome::ConnectFailed(msg) => {
                out.push(AppAction::Dispatch(GlimEvent::AppError(GlimError::ConfigConnectionError(msg))));
            },
            ConfigOutcome::Connected => {
                out.push(AppAction::SaveConfig(config.clone()));
                out.push(AppAction::Dispatch(GlimEvent::ConfigUpdate(config)));
                out.push(AppAction::Dispatch(GlimEvent::ConfigClose));
                out.push(AppAction::Dispatch(GlimEvent::ProjectsFetch));
            },
        }
        assert(actions_view(out@) =~= config_outcome_actions(config@, outcome@));
        if !invalid {
            self.settle(ui, &mut out);
        }
        out
    }
}

fn push_action(out: &mut Vec<AppAction>, a: AppAction)
    ensures
        actions_view(final(out)@) == actions_view(old(out)@).push(a@),
{
    proof {
        lemma_actions_push(out@, a);
    }
    out.push(a);
}

/// Requests the jobs of every pipeline in `pls` that is still going.
fn push_pipeline_job_fetches(pls: &Vec<Pipeline>, out: &mut Vec<AppAction>)
    ensures
        actions_view(final(out)@) == actions_view(old(out)@) + pipeline_job_fetches(pipelines_view(pls@)),
{
    let ghost base = actions_view(out@);
    let ghost s = pipelines_view(pls@);
    assert(s.take(0) =~= Seq::<PipelineView>::empty());
    assert(actions_view(out@) =~= base + pipeline_job_fetches(s.take(0)));
    for i in 0..pls.len()
        invariant
            s == pipelines_view(pls@),
            actions_view(out@) == base + pipeline_job_fetches(s.take(i as int)),
    {
        assert(s.take(i + 1).drop_last() =~= s.take(i as int));
        assert(s.take(i + 1).last() == s[i as int]);
        if pls[i].status.is_active() || pls[i].has_active_jobs() {
            push_action(out, AppAction::FetchJobs(pls[i].project_id, pls[i].id));
            assert(actions_view(out@) =~= base + pipeline_job_fetches(s.take(i + 1)));
        }
    }
    assert(s.take(pls.len() as int) =~= s);
}

/// Requests the jobs of every pipeline still going, project by project.
fn push_active_job_fetches(ps: &[Project], out: &mut Vec<AppAction>)
    ensures
        actions_view(final(out)@) == actions_view(old(out)@) + active_job_fetches(projects_view(ps@)),
{
    let ghost base = actions_view(out@);
    let ghost s = projects_view(ps@);
    assert(s.take(0) =~= Seq::<ProjectView>::empty());
    assert(actions_view(out@) =~= base + active_job_fetches(s.take(0)));
    for i in 0..ps.len()
        invariant
            s == projects_view(ps@),
            actions_view(out@) == base + active_job_fetches(s.take(i as int)),
    {
        assert(s.take(i + 1).drop_last() =~= s.take(i as int));
        assert(s.take(i + 1).last() == s[i as int]);
        let ghost before = actions_view(out@);
        match &ps[i].pipelines {
            Some(pls) => {
                push_pipeline_job_fetches(pls, out);
            },
            None => {
                assert(loaded_pipelines(s[i as int]) =~= Seq::<PipelineView>::empty());
                assert(pipeline_job_fetches(Seq::<PipelineView>::empty()) =~= Seq::<AppActionView>::empty());
                assert(actions_view(out@) =~= before + Seq::<AppActionView>::empty());
            },
        }
        assert(actions_view(out@) =~= base + active_job_fetches(s.take(i + 1)));
    }
    assert(s.take(ps.len() as int) =~= s);
}

/// The time from which projects are fetched again.
fn updated_after(ps: &[Project]) -> (r: Option<i64>)
    ensures
        r == projects_updated_after(projects_view(ps@)),
{
    let ghost s = projects_view(ps@);
    let mut latest: Option<i64> = None;
    let mut oldest: Option<i64> = None;
    for i in 0..ps.len()
        invariant
            s == projects_view(ps@),
            latest == latest_activity_at(s.take(i as int)),
            oldest == oldest_active_at(s.take(i as int)),
    {
        assert(s.take(i + 1).drop_last() =~= s.take(i as int));
        assert(s.take(i + 1).last() == s[i as int]);
        let t = ps[i].last_activity_at;
        latest = match latest {
            Some(u) => Some(if u < t { t } else { u }),
            None => Some(t),
        };
        if ps[i].has_active_pipelines() {
            oldest = match oldest {
                Some(u) => Some(if t < u { t } else { u }),
                None => Some(t),
            };
        }
    }
    assert(s.take(ps.len() as int) =~= s);
    match oldest {
        Some(t) => Some(t),
        None => latest,
    }
}

impl GlimApp {
    /// Changes the logging level to the one `name` names, ignoring case.
    fn update_logging_level(&mut self, name: &str, out: &mut Vec<AppAction>)
        ensures
            final(self)@ == log_level_change(old(self)@, name@).0,
            final(self).wf() == old(self).wf(),
            actions_view(final(out)@) == actions_view(old(out)@) + log_level_change(old(self)@, name@).1,
    {
        let lower = to_lowercase(name);
        let level = match level_by_name(lower.as_str()) {
            Some(l) => l,
            None => {
                assert(actions_view(out@) =~= actions_view(out@) + Seq::<AppActionView>::empty());
                return;
            },
        };
        if level != self.current_log_level {
            let ghost before = actions_view(out@);
            self.current_log_level = level;
            push_action(out, AppAction::SetLogLevel(level));
            push_action(out, AppAction::Dispatch(GlimEvent::LogLevelChanged(level)));
            assert(actions_view(out@) =~= before + seq![
                AppActionView::SetLogLevel(level),
                AppActionView::Dispatch(GlimEventView::LogLevelChanged(level)),
            ]);
        } else {
            assert(actions_view(out@) =~= actions_view(out@) + Seq::<AppActionView>::empty());
        }
    }

    /// Requests the projects of view `idx` where they are missing or stale.
    fn trigger_view_fetch(&mut self, idx: usize, now: i64, mono: u64, out: &mut Vec<AppAction>)
        requires
            -TIME_BOUND <= now <= TIME_BOUND,
        ensures
            final(self)@ == view_fetch(old(self)@, idx, now, mono).0,
            final(self).wf() == old(self).wf(),
            actions_view(final(out)@) == actions_view(old(out)@) + view_fetch(old(self)@, idx, now, mono).1,
    {
        let ghost before = actions_view(out@);
        if idx >= self.views.len() {
            assert(actions_view(out@) =~= before + Seq::<AppActionView>::empty());
            return;
        }
        let involvement = match self.views[idx].involvement {
            Some(inv) => inv,
            None => {
                assert(actions_view(out@) =~= before + Seq::<AppActionView>::empty());
                return;
            },
        };
        let recent_days = self.views[idx].recent_days;
        match self.view_project_cache.get(&idx) {
            Some(entry) => {
                let fetched = entry.1;
                proof {
                    assert(self@.cache.contains_key(idx));
                    assert(self@.cache[idx].1 == fetched);
                }
                if (mono as u128) < (fetched as u128) + 60000 {
                    assert(actions_view(out@) =~= before + Seq::<AppActionView>::empty());
                    return;
                }
            },
            None => {
                assert(!self@.cache.contains_key(idx));
            },
        }
        self.view_loading = true;
        match involvement {
            InvolvementFilter::Contributor => {
                let days: i64 = match recent_days {
                    Some(d) => d as i64,
                    None => 14,
                };
                let after = now - days * 86400;
                push_action(out, AppAction::FetchContributorProjects(idx, after));
            },
            InvolvementFilter::Reviewer => {
                match self.current_user_id {
                    Some(user_id) => push_action(out, AppAction::FetchReviewerProjects(idx, user_id)),
                    None => push_action(out, AppAction::FetchCurrentUser),
                }
            },
        }
        assert(actions_view(out@) =~= before + view_fetch(old(self)@, idx, now, mono).1);
    }

    /// The commit of a loaded pipeline, or empty.
    fn pipeline_sha_of(&self, pid: ProjectId, plid: PipelineId) -> (r: String)
        requires
            self.wf(),
        ensures
            r@ == pipeline_sha(self@.store, pid, plid),
    {
        match self.project_store.find(pid) {
            Some(p) => match p.pipeline(plid) {
                Some(pl) => pl.sha.clone(),
                None => String::new(),
            },
            None => String::new(),
        }
    }

    /// Whether the application can handle `event` in its current state.
    pub fn can_apply(&self, event: &GlimEvent) -> (r: bool)
        requires
            self.wf(),
        ensures
            r == event_handled(self@, event@),
    {
        match event {
            GlimEvent::ProjectOpenUrl(id) => self.project_store.find(*id).is_some(),
            GlimEvent::PipelineOpenUrl(pid, plid) => match self.project_store.find(*pid) {
                Some(p) => p.pipeline(*plid).is_some(),
                None => false,
            },
            GlimEvent::JobOpenUrl(pid, plid, jid) => match self.project_store.find(*pid) {
                Some(p) => match p.pipeline(*plid) {
                    Some(pl) => pl.job(*jid).is_some(),
                    None => false,
                },
                None => false,
            },
            GlimEvent::JobLogFetch(pid, plid) => match self.project_store.find(*pid) {
                Some(p) => match p.pipeline(*plid) {
                    Some(pl) => pl.failed_job().is_some(),
                    None => false,
                },
                None => false,
            },
            _ => true,
        }
    }
}

impl GlimApp {
    /// The application's own reaction to an event.
    #[verifier::rlimit(40)]
    fn react(&mut self, event: GlimEvent, ui: &mut AppUi, now: i64, mono: u64, out: &mut Vec<AppAction>)
        requires
            old(self).wf(),
            event_handled(old(self)@, event@),
            -TIME_BOUND <= now <= TIME_BOUND,
        ensures
            final(self).wf(),
            final(self)@.store == old(self)@.store,
            final(self)@ == app_react(old(self)@, event@, old(ui)@, now, mono).0,
            final(ui)@ == app_react(old(self)@, event@, old(ui)@, now, mono).1,
            actions_view(final(out)@) == actions_view(old(out)@) + app_react(old(self)@, event@, old(ui)@, now, mono).2,
    {
        let ghost before = actions_view(out@);
        let ghost e = event@;
        reveal(app_react);
        match event {
            GlimEvent::AppExit => {
                self.running = false;
            },
            GlimEvent::ProjectOpenUrl(id) => {
                let url = self.project(id).url.clone();
                push_action(out, AppAction::OpenUrl(url));
            },
            GlimEvent::PipelineOpenUrl(pid, plid) => {
                let url = self.project(pid).pipeline(plid).unwrap().url.clone();
                push_action(out, AppAction::OpenUrl(url));
            },
            GlimEvent::JobOpenUrl(pid, plid, jid) => {
                let url = self.project(pid).pipeline(plid).unwrap().job(jid).unwrap().url.clone();
                push_action(out, AppAction::OpenUrl(url));
            },
            GlimEvent::JobLogFetch(pid, plid) => {
                let job_id = self.project(pid).pipeline(plid).unwrap().failed_job().unwrap().id;
                push_action(out, AppAction::DownloadJobLog(pid, job_id));
            },
            GlimEvent::JobLogDownloaded(_, _, trace) => {
                push_action(out, AppAction::CopyJobLog(trace));
            },
            GlimEvent::JobsActiveFetch => {
                push_active_job_fetches(self.project_store.sorted_projects(), out);
            },
            GlimEvent::PipelinesFetch(id) => {
                push_action(out, AppAction::FetchPipelines(id));
            },
            GlimEvent::ProjectsFetch => {
                let after = updated_after(self.project_store.sorted_projects());
                push_action(out, AppAction::FetchProjects(after));
            },
            GlimEvent::JobsFetch(pid, plid) => {
                push_action(out, AppAction::FetchJobs(pid, plid));
            },
            GlimEvent::MrViewOpen(pid, plid) => {
                let sha = self.pipeline_sha_of(pid, plid);
                if sha.unicode_len() == 0 {
                    push_action(out, AppAction::Dispatch(GlimEvent::MrNotFound(pid, plid)));
                } else {
                    push_action(out, AppAction::FetchMr(pid, sha));
                }
            },
            GlimEvent::MrNotFound(_, _) => {
                let msg = String::from_str("No open MR found for this pipeline");
                push_action(out, AppAction::Dispatch(GlimEvent::AppError(GlimError::GeneralError(msg))));
            },
            GlimEvent::MrLoaded(pid, mr) => {
                push_action(out, AppAction::FetchMrNotes(pid, mr.iid));
            },
            GlimEvent::MrNotePost(pid, iid, body) => {
                push_action(out, AppAction::PostMrNote(pid, iid, body));
            },
            GlimEvent::MrNotePosted(pid, iid) => {
                push_action(out, AppAction::FetchMrNotes(pid, iid));
            },
            GlimEvent::MrAtlantisAction(pid, iid, action) => {
                let body = String::from_str(action.comment_body());
                push_action(out, AppAction::Dispatch(GlimEvent::MrNotePost(pid, iid, body)));
            },
            GlimEvent::PipelineRetry(pid, plid) => {
                push_action(out, AppAction::RetryPipeline(pid, plid));
            },
            GlimEvent::PipelineCancel(pid, plid) => {
                push_action(out, AppAction::CancelPipeline(pid, plid));
            },
            GlimEvent::PipelineDelete(pid, plid) => {
                push_action(out, AppAction::DeletePipeline(pid, plid));
            },
            GlimEvent::ConfigUpdate(config) => {
                let level_name = crate::domain::clone_opt_string(&config.log_level);
                push_action(out, AppAction::UpdateClientConfig(config));
                match level_name {
                    Some(name) => {
                        let ghost mid = actions_view(out@);
                        self.update_logging_level(name.as_str(), out);
                        assert(actions_view(out@) =~= before + (seq![
                            AppActionView::UpdateClientConfig(e->ConfigUpdate_0),
                        ] + log_level_change(old(self)@, name@).1));
                    },
                    None => {},
                }
            },
            GlimEvent::ConfigApply => {
                match &ui.config_popup {
                    Some(config) => push_action(out, AppAction::ConnectWithConfig(config.clone())),
                    None => {},
                }
            },
            GlimEvent::NotificationLast => {
                match self.notices.last_notification() {
                    Some(n) => {
                        let shown = n.clone();
                        ui.notice = Some(n.clone());
                        push_action(out, AppAction::ShowNotice(shown));
                    },
                    None => {},
                }
            },
            GlimEvent::NotificationDismiss => {
                ui.notice = None;
            },
            GlimEvent::FilterMenuShow => {
                ui.filter_input_active = true;
            },
            GlimEvent::ScreenCapture => {
                ui.capture_screen_requested = true;
            },
            GlimEvent::ScreenCaptureToClipboard(text) => {
                push_action(out, AppAction::CopyScreenCapture(text));
            },
            GlimEvent::ViewSwitch(idx) => {
                if idx < self.views.len() {
                    self.active_view_index = idx;
                    self.trigger_view_fetch(idx, now, mono, out);
                }
            },
            GlimEvent::CurrentUserLoaded(user_id) => {
                self.current_user_id = Some(user_id);
                let idx = self.active_view_index;
                if idx < self.views.len() {
                    if self.views[idx].involvement == Some(InvolvementFilter::Reviewer) {
                        push_action(out, AppAction::FetchReviewerProjects(idx, user_id));
                    }
                }
            },
            GlimEvent::ViewProjectsFetched(idx, ids) => {
                let ghost ids_view = ids@;
                let set = id_set(&ids);
                self.view_project_cache.insert(idx, (set, mono));
                self.view_loading = false;
                assert(self@.cache =~= old(self)@.cache.insert(idx, (id_numbers(ids_view), mono)));
            },
            _ => {},
        }
        proof {
            let r = app_react(old(self)@, e, old(ui)@, now, mono);
            assert(actions_view(out@) =~= before + r.2);
        }
    }
}

impl GlimApp {
    /// Puts the notification slot in order after an event.
    fn settle(&mut self, ui: &mut AppUi, out: &mut Vec<AppAction>)
        requires
            old(self).wf(),
        ensures
            final(self).wf(),
            final(self)@.store == old(self)@.store,
            final(self)@ == settle_notice(old(self)@, old(ui)@).0,
            final(ui)@ == settle_notice(old(self)@, old(ui)@).1,
            actions_view(final(out)@) == actions_view(old(out)@) + settle_notice(old(self)@, old(ui)@).2,
    {
        let ghost before = actions_view(out@);
        let dismiss_info = match &ui.notice {
            Some(n) => n.level == NoticeLevel::Info,
            None => false,
        };
        if self.notices.has_error() && dismiss_info {
            ui.notice = None;
        }
        if ui.notice.is_none() {
            match self.pop_notice() {
                Some(n) => {
                    let shown = n.clone();
                    ui.notice = Some(n);
                    push_action(out, AppAction::ShowNotice(shown));
                },
                None => {},
            }
        }
        assert(actions_view(out@) =~= before + settle_notice(old(self)@, old(ui)@).2);
    }

    /// Handles an event that arrived at time `now` (seconds since the epoch) and `mono`
    /// (milliseconds on the monotonic clock since the application started) and returns the
    /// outside work to do, in order.
    pub fn apply_at(&mut self, event: GlimEvent, ui: &mut AppUi, now: i64, mono: u64) -> (r: Vec<AppAction>)
        requires
            old(self).wf(),
            event_handled(old(self)@, event@),
            -TIME_BOUND <= now <= TIME_BOUND,
        ensures
            final(self).wf(),
            app_transition(old(self)@, event@, old(ui)@, now, mono, final(self)@, final(ui)@, actions_view(r@)),
    {
        let ghost e = event@;
        self.notices.apply(&event);
        let store_events = self.project_store.apply_at(&event, now);
        let ghost sev = crate::event::events_view(store_events@);
        let mut out: Vec<AppAction> = Vec::new();
        assert(actions_view(out@) =~= dispatches(sev.take(0)));
        for i in 0..store_events.len()
            invariant
                sev == crate::event::events_view(store_events@),
                actions_view(out@) == dispatches(sev.take(i as int)),
        {
            let ev = store_events[i].clone();
            push_action(&mut out, AppAction::Dispatch(ev));
            assert(actions_view(out@) =~= dispatches(sev.take(i + 1)));
        }
        assert(sev.take(store_events.len() as int) =~= sev);
        let ghost m1 = self@;
        let ghost ui0 = ui@;
        assert(event_handled(m1, e)) by {
            reveal(store_transition);
        }
        let defer = match &event {
            GlimEvent::ConfigApply => ui.config_popup.is_some(),
            _ => false,
        };
        self.react(event, ui, now, mono, &mut out);
        let ghost r = app_react(m1, e, ui0, now, mono);
        if !defer {
            self.settle(ui, &mut out);
        }
        proof {
            let st = if defers_notice(e, ui0) {
                (r.0, r.1, Seq::<AppActionView>::empty())
            } else {
                settle_notice(r.0, r.1)
            };
            assert(actions_view(out@) =~= dispatches(sev) + r.2 + st.2);
            assert(store_transition(old(self)@.store, e, now, self@.store, sev));
            let m1x = AppModel { store: self@.store, notices: notices_after(old(self)@.notices, e), ..old(self)@ };
            assert(m1 == m1x);
        }
        out
    }

    /// Handles an event now and returns the outside work to do, in order.
    pub fn apply(&mut self, event: GlimEvent, ui: &mut AppUi) -> (r: Vec<AppAction>)
        requires
            old(self).wf(),
            event_handled(old(self)@, event@),
        ensures
            final(self).wf(),
            exists|now: i64, mono: u64|
                app_transition(old(self)@, event@, old(ui)@, now, mono, final(self)@, final(ui)@, actions_view(r@)),
    {
        let now = utc_now_secs();
        let mono = millis_since(&self.started);
        self.apply_at(event, ui, now, mono)
    }
}

/// The text filter in force: the live input unless it is blank, else the active view's
/// own filter.
pub open spec fn text_filter(temp: Option<Seq<char>>, view: Option<ViewConfigView>) -> Option<Seq<char>> {
    match temp {
        Some(f) if !blank(f) => Some(f),
        _ => match view {
            Some(v) => v.search_filter,
            None => None,
        },
    }
}

/// The active view, if the index names one.
pub open spec fn active_view(m: AppModel) -> Option<ViewConfigView> {
    if m.active_view_index < m.views.len() {
        Some(m.views[m.active_view_index as int])
    } else {
        None
    }
}

/// Whether a project is shown in the active view at time `now` (seconds): a view with an
/// involvement filter and fetched ids shows only those projects; a view with `recent_days`
/// shows only projects active since then; a text filter must occur, ignoring case, in the
/// path or the description.
pub open spec fn shown_in_view(m: AppModel, temp: Option<Seq<char>>, now: i64, p: ProjectView) -> bool {
    let view = active_view(m);
    let idx = m.active_view_index;
    &&& !(m.cache.contains_key(idx) && (view matches Some(v) && v.involvement is Some)
        && !m.cache[idx].0.contains(p.id.id()))
    &&& match view {
        Some(v) => match v.recent_days {
            Some(d) => p.last_activity_at >= now - d * 86400,
            None => true,
        },
        None => true,
    }
    &&& (text_filter(temp, view) matches Some(f) ==> {
        ||| contains_seq(lowercase(p.path), lowercase(f))
        ||| (p.description matches Some(d) && contains_seq(lowercase(d), lowercase(f)))
    })
}

/// Positions, in order, of the projects of `ps` that the view shows.
pub open spec fn shown_positions(m: AppModel, temp: Option<Seq<char>>, now: i64, ps: Seq<ProjectView>) -> Seq<int>
    decreases ps.len(),
{
    if ps.len() == 0 {
        Seq::empty()
    } else {
        let prev = shown_positions(m, temp, now, ps.drop_last());
        if shown_in_view(m, temp, now, ps.last()) {
            prev.push(ps.len() - 1)
        } else {
            prev
        }
    }
}

/// The numbers of the given ids.
pub open spec fn id_numbers(ids: Seq<ProjectId>) -> Set<u64> {
    Set::new(|n: u64| exists|k: int| 0 <= k < ids.len() && #[trigger] ids[k].id() == n)
}

/// The set of the numbers of the given ids.
fn id_set(ids: &Vec<ProjectId>) -> (r: HashSet<u64>)
    ensures
        r@ == id_numbers(ids@),
{
    broadcast use vstd::std_specs::hash::group_hash_axioms;

    let mut set: HashSet<u64> = HashSet::new();
    assert(set@ =~= id_numbers(ids@.take(0)));
    for i in 0..ids.len()
        invariant
            set@ == id_numbers(ids@.take(i as int)),
    {
        let n = ids[i].value();
        set.insert(n);
        assert(set@ =~= id_numbers(ids@.take(i + 1))) by {
            let t = ids@.take(i + 1);
            assert forall|x: u64| set@.contains(x) implies id_numbers(t).contains(x) by {
                if x == n {
                    assert(t[i as int].id() == x);
                } else {
                    let k = choose|k: int| 0 <= k < i && #[trigger] ids@.take(i as int)[k].id() == x;
                    assert(t[k].id() == x);
                }
            }
            assert forall|x: u64| id_numbers(t).contains(x) implies set@.contains(x) by {
                let k = choose|k: int| 0 <= k < t.len() && #[trigger] t[k].id() == x;
                if k < i {
                    assert(ids@.take(i as int)[k].id() == x);
                }
            }
        }
    }
    assert(ids@.take(ids@.len() as int) =~= ids@);
    set
}

impl GlimApp {
    /// The projects the active view shows at time `now` (seconds), most recent activity
    /// first, with their positions in the list of all projects.
    pub fn filtered_projects_at(&self, temporary_filter: &Option<String>, now: i64) -> (r: (Vec<Project>, Vec<usize>))
        requires
            -TIME_BOUND <= now <= TIME_BOUND,
        ensures
            r.1@.map_values(|i: usize| i as int) == shown_positions(
                self@,
                crate::domain::opt_string_view(*temporary_filter),
                now,
                self@.store.sorted,
            ),
            r.0@.len() == r.1@.len(),
            forall|k: int| 0 <= k < r.0@.len() ==> (#[trigger] r.0@[k])@ == self@.store.sorted[r.1@[k] as int],
    {
        let all = self.project_store.sorted_projects();
        let ghost m = self@;
        let ghost temp = crate::domain::opt_string_view(*temporary_filter);
        let ghost ps = projects_view(all@);
        let idx = self.active_view_index;
        let view: Option<&ViewConfig> = if idx < self.views.len() {
            Some(&self.views[idx])
        } else {
            None
        };
        let cached: Option<&(HashSet<u64>, u64)> = self.view_project_cache.get(&idx);
        let involvement = match view {
            Some(v) => v.involvement.is_some(),
            None => false,
        };
        let filter: Option<String> = match temporary_filter {
            Some(f) if !is_blank(f.as_str()) => Some(f.clone()),
            _ => match view {
                Some(v) => crate::domain::clone_opt_string(&v.search_filter),
                None => None,
            },
        };
        let filter_lower: Option<String> = match &filter {
            Some(f) => Some(to_lowercase(f.as_str())),
            None => None,
        };
        let cutoff: Option<i64> = match view {
            Some(v) => match v.recent_days {
                Some(d) => Some(now - (d as i64) * 86400),
                None => None,
            },
            None => None,
        };
        proof {
            match cached {
                Some(c) => {
                    assert(m.cache.contains_key(idx));
                    assert(m.cache[idx].0 == c.0@);
                },
                None => {
                    assert(!m.cache.contains_key(idx));
                },
            }
            assert(opt_string_view(filter) == text_filter(temp, active_view(m)));
        }
        let mut projects: Vec<Project> = Vec::new();
        let mut indices: Vec<usize> = Vec::new();
        assert(ps.take(0) =~= Seq::<ProjectView>::empty());
        assert(indices@.map_values(|i: usize| i as int) =~= Seq::<int>::empty());
        for i in 0..all.len()
            invariant
                ps == projects_view(all@),
                ps == m.store.sorted,
                m == self@,
                projects@.len() == indices@.len(),
                indices@.map_values(|i: usize| i as int) == shown_positions(m, temp, now, ps.take(i as int)),
                forall|k: int| 0 <= k < projects@.len() ==> (#[trigger] projects@[k])@ == ps[indices@[k] as int],
                forall|k: int| 0 <= k < indices@.len() ==> #[trigger] indices@[k] < i,
                cached matches Some(c) ==> m.cache.contains_key(m.active_view_index) && m.cache[m.active_view_index].0 == c.0@,
                cached is None ==> !m.cache.contains_key(m.active_view_index),
                idx == m.active_view_index,
                involvement == (active_view(m) matches Some(v) && v.involvement is Some),
                (cutoff is Some) == (active_view(m) matches Some(v) && v.recent_days is Some),
                cutoff matches Some(c) ==> c == now - active_view(m)->0.recent_days->0 * 86400,
                -TIME_BOUND <= now <= TIME_BOUND,
                match filter_lower {
                    Some(fl) => text_filter(temp, active_view(m)) matches Some(f) && fl@ == lowercase(f),
                    None => text_filter(temp, active_view(m)) is None,
                },
        {
            assert(ps.take(i + 1).drop_last() =~= ps.take(i as int));
            assert(ps.take(i + 1).last() == ps[i as int]);
            let project = &all[i];
            let ghost pv = ps[i as int];
            assert(project@ == pv);
            let ids_ok = match cached {
                Some(c) => !(involvement && !c.0.contains(&project.id.value())),
                None => true,
            };
            assert(ids_ok == !(m.cache.contains_key(idx) && (active_view(m) matches Some(v) && v.involvement is Some)
                && !m.cache[idx].0.contains(pv.id.id())));
            let recent_ok = match cutoff {
                Some(c) => !(project.last_activity_at < c),
                None => true,
            };
            proof {
                match active_view(m) {
                    Some(v) => match v.recent_days {
                        Some(d) => {
                            assert(cutoff is Some);
                            assert(cutoff->0 == now - d * 86400);
                            assert(recent_ok == (pv.last_activity_at >= now - d * 86400));
                        },
                        None => {
                            assert(cutoff is None);
                        },
                    },
                    None => {
                        assert(cutoff is None);
                    },
                }
            }

            let text_ok = match &filter_lower {
                Some(fl) => {
                    let path_lower = to_lowercase(project.path.as_str());
                    contains(path_lower.as_str(), fl.as_str()) || match &project.description {
                        Some(d) => {
                            let d_lower = to_lowercase(d.as_str());
                            contains(d_lower.as_str(), fl.as_str())
                        },
                        None => false,
                    }
                },
                None => true,
            };
            assert(text_ok == (text_filter(temp, active_view(m)) matches Some(f) ==> {
                ||| contains_seq(lowercase(pv.path), lowercase(f))
                ||| (pv.description matches Some(d) && contains_seq(lowercase(d), lowercase(f)))
            }));
            let shown = ids_ok && recent_ok && text_ok;
            assert(shown == shown_in_view(m, temp, now, ps[i as int]));
            if shown {
                projects.push(project.clone());
                indices.push(i);
                assert(indices@.map_values(|i: usize| i as int) =~= shown_positions(m, temp, now, ps.take(i + 1)));
            }
        }
        assert(ps.take(all.len() as int) =~= ps);
        (projects, indices)
    }

    /// The projects the active view shows now, most recent activity first, with their
    /// positions in the list of all projects.
    pub fn filtered_projects(&self, temporary_filter: &Option<String>) -> (r: (Vec<Project>, Vec<usize>))
        ensures
            exists|now: i64|
                r.1@.map_values(|i: usize| i as int) == shown_positions(
                    self@,
                    crate::domain::opt_string_view(*temporary_filter),
                    now,
                    self@.store.sorted,
                ),
            r.0@.len() == r.1@.len(),
            forall|k: int| 0 <= k < r.0@.len() ==> (#[trigger] r.0@[k])@ == self@.store.sorted[r.1@[k] as int],
    {
        let now = utc_now_secs();
        self.filtered_projects_at(temporary_filter, now)
    }
}

/// Once the projects of a view have arrived, switching to that view within the next minute
/// fetches nothing and changes nothing but the active view.
pub proof fn law_fetched_view_stays_fresh(
    m: AppModel,
    idx: usize,
    ids: Seq<ProjectId>,
    ui: AppUiView,
    now: i64,
    t: u64,
    later: i64,
    t2: u64,
)
    requires
        idx < m.views.len(),
        t <= t2 < t + VIEW_CACHE_TTL_SECS * 1000,
    ensures
        ({
            let a = app_react(m, GlimEventView::ViewProjectsFetched(idx, ids), ui, now, t);
            let b = app_react(a.0, GlimEventView::ViewSwitch(idx), a.1, later, t2);
            &&& b.0 == (AppModel { active_view_index: idx, ..a.0 })
            &&& b.1 == a.1
            &&& b.2 == Seq::<AppActionView>::empty()
        }),
{
    reveal(app_react);
}

/// Asking twice for the same logging level changes it at most once: the second request
/// finds the level already set and does nothing.
pub proof fn law_log_level_change_idempotent(m: AppModel, name: Seq<char>)
    ensures
        log_level_change(log_level_change(m, name).0, name) == (log_level_change(m, name).0, Seq::<
            AppActionView,
        >::empty()),
{
}

/// The filtered positions are exactly the shown projects, in order: each position names a
/// project, positions increase, and a project is listed exactly when the view shows it.
pub proof fn law_shown_positions_exact(m: AppModel, temp: Option<Seq<char>>, now: i64, ps: Seq<ProjectView>)
    ensures
        forall|k: int|
            0 <= k < shown_positions(m, temp, now, ps).len() ==> 0 <= #[trigger] shown_positions(m, temp, now, ps)[k]
                < ps.len(),
        forall|a: int, b: int|
            0 <= a < b < shown_positions(m, temp, now, ps).len() ==> #[trigger] shown_positions(m, temp, now, ps)[a]
                < #[trigger] shown_positions(m, temp, now, ps)[b],
        forall|j: int|
            0 <= j < ps.len() ==> (shown_positions(m, temp, now, ps).contains(j) <==> shown_in_view(
                m,
                temp,
                now,
                #[trigger] ps[j],
            )),
    decreases ps.len(),
{
    if ps.len() > 0 {
        let init = ps.drop_last();
        law_shown_positions_exact(m, temp, now, init);
        let prev = shown_positions(m, temp, now, init);
        let cur = shown_positions(m, temp, now, ps);
        assert forall|j: int| 0 <= j < ps.len() implies (cur.contains(j) <==> shown_in_view(
            m,
            temp,
            now,
            #[trigger] ps[j],
        )) by {
            if j < ps.len() - 1 {
                assert(init[j] == ps[j]);
                if cur.contains(j) {
                    let k = choose|k: int| 0 <= k < cur.len() && cur[k] == j;
                    if k < prev.len() {
                        assert(prev[k] == j);
                    }
                }
                if prev.contains(j) {
                    let k = choose|k: int| 0 <= k < prev.len() && prev[k] == j;
                    assert(cur[k] == j);
                }
            } else {
                if cur.contains(j) {
                    let k = choose|k: int| 0 <= k < cur.len() && cur[k] == j;
                    if k < prev.len() {
                        assert(prev[k] < init.len());
                    }
                }
                if shown_in_view(m, temp, now, ps[j]) {
                    assert(cur[prev.len() as int] == j);
                }
            }
        }
    }
}

/// Exiting stops the application, and nothing starts a stopped application again.
pub proof fn law_exit_is_final(
    old: AppModel,
    e: GlimEventView,
    ui: AppUiView,
    now: i64,
    mono: u64,
    new: AppModel,
    new_ui: AppUiView,
    out: Seq<AppActionView>,
)
    requires
        app_transition(old, e, ui, now, mono, new, new_ui, out),
    ensures
        e is AppExit ==> !new.running,
        !old.running ==> !new.running,
{
    reveal(app_react);
    let sev = choose|sev: Seq<GlimEventView>|
        {
            &&& #[trigger] store_transition(old.store, e, now, new.store, sev)
            &&& {
                let m1 = AppModel { store: new.store, notices: notices_after(old.notices, e), ..old };
                let r = app_react(m1, e, ui, now, mono);
                let st = if defers_notice(e, ui) {
                    (r.0, r.1, Seq::<AppActionView>::empty())
                } else {
                    settle_notice(r.0, r.1)
                };
                &&& new == st.0
                &&& new_ui == st.1
                &&& out == dispatches(sev) + r.2 + st.2
            }
        };
    let m1 = AppModel { store: new.store, notices: notices_after(old.notices, e), ..old };
    let r = app_react(m1, e, ui, now, mono);
    match e {
        GlimEventView::ViewSwitch(idx) => {
            if idx < m1.views.len() {
                let f = view_fetch(AppModel { active_view_index: idx, ..m1 }, idx, now, mono);
                assert(f.0.running == m1.running);
            }
        },
        GlimEventView::ConfigUpdate(config) => {
            if config.log_level is Some {
                assert(log_level_change(m1, config.log_level->0).0.running == m1.running);
            }
        },
        _ => {},
    }
    if e is AppExit {
        assert(!r.0.running);
    } else {
        assert(r.0.running == old.running);
    }
}

/// After an event, no notice waits while none is shown, except while applying settings,
/// where `GlimApp::config_applied` takes the notification step.
pub proof fn law_no_notice_left_waiting(
    old: AppModel,
    e: GlimEventView,
    ui: AppUiView,
    now: i64,
    mono: u64,
    new: AppModel,
    new_ui: AppUiView,
    out: Seq<AppActionView>,
)
    requires
        app_transition(old, e, ui, now, mono, new, new_ui, out),
        !defers_notice(e, ui),
    ensures
        new_ui.notice is None ==> new.notices.queue.len() == 0,
{
}

/// Two filters that agree on every project list the same positions.
proof fn lemma_same_shown(
    m1: AppModel,
    t1: Option<Seq<char>>,
    m2: AppModel,
    t2: Option<Seq<char>>,
    now: i64,
    ps: Seq<ProjectView>,
)
    requires
        forall|p: ProjectView| #[trigger] shown_in_view(m1, t1, now, p) == shown_in_view(m2, t2, now, p),
    ensures
        shown_positions(m1, t1, now, ps) == shown_positions(m2, t2, now, ps),
    decreases ps.len(),
{
    if ps.len() > 0 {
        lemma_same_shown(m1, t1, m2, t2, now, ps.drop_last());
        assert(shown_in_view(m1, t1, now, ps.last()) == shown_in_view(m2, t2, now, ps.last()));
    }
}

/// A blank live filter filters as no live filter does.
pub proof fn law_blank_filter_is_no_filter(m: AppModel, s: Seq<char>, now: i64, ps: Seq<ProjectView>)
    requires
        blank(s),
    ensures
        shown_positions(m, Some(s), now, ps) == shown_positions(m, None, now, ps),
{
    assert forall|p: ProjectView| #[trigger] shown_in_view(m, Some(s), now, p) == shown_in_view(m, None, now, p) by {
        assert(text_filter(Some(s), active_view(m)) == text_filter(None, active_view(m)));
    }
    lemma_same_shown(m, Some(s), m, None, now, ps);
}

/// A live filter that is not blank takes precedence: the active view's own search filter
/// makes no difference then.
pub proof fn law_live_filter_overrides_view(
    m: AppModel,
    u: Seq<char>,
    f: Option<Seq<char>>,
    now: i64,
    ps: Seq<ProjectView>,
)
    requires
        !blank(u),
        m.active_view_index < m.views.len(),
    ensures
        shown_positions(m, Some(u), now, ps) == shown_positions(
            AppModel {
                views: m.views.update(
                    m.active_view_index as int,
                    ViewConfigView { search_filter: f, ..m.views[m.active_view_index as int] },
                ),
                ..m
            },
            Some(u),
            now,
            ps,
        ),
{
    let idx = m.active_view_index as int;
    let m2 = AppModel {
        views: m.views.update(idx, ViewConfigView { search_filter: f, ..m.views[idx] }),
        ..m
    };
    assert(active_view(m2) == Some(ViewConfigView { search_filter: f, ..m.views[idx] }));
    assert forall|p: ProjectView| #[trigger] shown_in_view(m, Some(u), now, p) == shown_in_view(m2, Some(u), now, p) by {
        assert(text_filter(Some(u), active_view(m)) == Some(u));
        assert(text_filter(Some(u), active_view(m2)) == Some(u));
    }
    lemma_same_shown(m, Some(u), m2, Some(u), now, ps);
}

/// Fetched project ids stay in force: only new ids for a view replace that view's entry,
/// so a view keeps filtering by the ids it last received whatever other events come.
pub proof fn law_fetched_ids_kept(
    old: AppModel,
    e: GlimEventView,
    ui: AppUiView,
    now: i64,
    mono: u64,
    new: AppModel,
    new_ui: AppUiView,
    out: Seq<AppActionView>,
)
    requires
        app_transition(old, e, ui, now, mono, new, new_ui, out),
    ensures
        !(e is ViewProjectsFetched) ==> new.cache == old.cache,
        e matches GlimEventView::ViewProjectsFetched(idx, ids) ==> new.cache == old.cache.insert(
            idx,
            (id_numbers(ids), mono),
        ) && !new.view_loading,
{
    reveal(app_react);
    let m1 = AppModel { store: new.store, notices: notices_after(old.notices, e), ..old };
    match e {
        GlimEventView::ViewSwitch(idx) => {
            if idx < m1.views.len() {
                let f = view_fetch(AppModel { active_view_index: idx, ..m1 }, idx, now, mono);
                assert(f.0.cache == m1.cache);
            }
        },
        GlimEventView::ConfigUpdate(config) => {
            if config.log_level is Some {
                assert(log_level_change(m1, config.log_level->0).0.cache == m1.cache);
            }
        },
        _ => {},
    }
}

proof fn lemma_oldest_active(ps: Seq<ProjectView>)
    ensures
        match oldest_active_at(ps) {
            Some(x) => {
                &&& forall|k: int| 0 <= k < ps.len() && (#[trigger] ps[k]).active_pipelines() ==> x <= ps[k].last_activity_at
                &&& exists|k: int| 0 <= k < ps.len() && (#[trigger] ps[k]).active_pipelines() && x == ps[k].last_activity_at
            },
            None => forall|k: int| 0 <= k < ps.len() ==> !(#[trigger] ps[k]).active_pipelines(),
        },
    decreases ps.len(),
{
    if ps.len() > 0 {
        let init = ps.drop_last();
        lemma_oldest_active(init);
        let n = ps.len() - 1;
        let last = ps[n];
        assert(last == ps.last());
        let t = last.last_activity_at;
        let prev = oldest_active_at(init);
        let r = oldest_active_at(ps);
        if last.active_pipelines() {
            let x: i64 = match prev {
                Some(u) => if t < u { t } else { u },
                None => t,
            };
            assert(r == Some(x));
            assert forall|k: int| 0 <= k < ps.len() && (#[trigger] ps[k]).active_pipelines() implies x <= ps[k].last_activity_at by {
                if k < n {
                    assert(init[k] == ps[k]);
                }
            }
            let w: int = match prev {
                Some(u) => if t < u {
                    n
                } else {
                    let k0 = choose|k: int| 0 <= k < init.len() && (#[trigger] init[k]).active_pipelines() && u == init[k].last_activity_at;
                    assert(init[k0] == ps[k0]);
                    k0
                },
                None => n,
            };
            assert(0 <= w < ps.len() && ps[w].active_pipelines() && x == ps[w].last_activity_at);
        } else {
            assert(r == prev);
            match prev {
                Some(u) => {
                    assert forall|k: int| 0 <= k < ps.len() && (#[trigger] ps[k]).active_pipelines() implies u <= ps[k].last_activity_at by {
                        if k < n {
                            assert(init[k] == ps[k]);
                        }
                    }
                    let k0 = choose|k: int| 0 <= k < init.len() && (#[trigger] init[k]).active_pipelines() && u == init[k].last_activity_at;
                    assert(init[k0] == ps[k0]);
                    assert(ps[k0].active_pipelines());
                },
                None => {
                    assert forall|k: int| 0 <= k < ps.len() implies !(#[trigger] ps[k]).active_pipelines() by {
                        if k < n {
                            assert(init[k] == ps[k]);
                        }
                    }
                },
            }
        }
    }
}

proof fn lemma_latest_activity(ps: Seq<ProjectView>)
    ensures
        match latest_activity_at(ps) {
            Some(x) => {
                &&& forall|k: int| 0 <= k < ps.len() ==> x >= (#[trigger] ps[k]).last_activity_at
                &&& exists|k: int| 0 <= k < ps.len() && x == (#[trigger] ps[k]).last_activity_at
            },
            None => ps.len() == 0,
        },
    decreases ps.len(),
{
    if ps.len() > 0 {
        let init = ps.drop_last();
        lemma_latest_activity(init);
        let n = ps.len() - 1;
        let last = ps[n];
        assert(last == ps.last());
        let t = last.last_activity_at;
        let prev = latest_activity_at(init);
        let x: i64 = match prev {
            Some(u) => if u < t { t } else { u },
            None => t,
        };
        assert(latest_activity_at(ps) == Some(x));
        assert forall|k: int| 0 <= k < ps.len() implies x >= (#[trigger] ps[k]).last_activity_at by {
            if k < n {
                assert(init[k] == ps[k]);
            }
        }
        let w: int = match prev {
            Some(u) => if u < t {
                n
            } else {
                let k0 = choose|k: int| 0 <= k < init.len() && u == (#[trigger] init[k]).last_activity_at;
                assert(init[k0] == ps[k0]);
                k0
            },
            None => n,
        };
        assert(0 <= w < ps.len() && x == ps[w].last_activity_at);
    }
}

/// Fetching projects asks for those updated since the oldest activity among projects with
/// an active pipeline, so that every running pipeline is refreshed; with no active
/// pipeline, since the latest activity of any project; with no projects, for all of them.
pub proof fn law_projects_fetch_from_oldest_active(m: AppModel, ui: AppUiView, now: i64, mono: u64)
    ensures
        ({
            let ps = m.store.sorted;
            let r = app_react(m, GlimEventView::ProjectsFetch, ui, now, mono);
            &&& r.0 == m
            &&& r.1 == ui
            &&& r.2.len() == 1
            &&& r.2[0] is FetchProjects
            &&& (exists|k: int| 0 <= k < ps.len() && (#[trigger] ps[k]).active_pipelines()) ==> {
                &&& r.2[0]->FetchProjects_0 is Some
                &&& forall|k: int|
                    0 <= k < ps.len() && (#[trigger] ps[k]).active_pipelines() ==> r.2[0]->FetchProjects_0->0
                        <= ps[k].last_activity_at
                &&& exists|k: int|
                    0 <= k < ps.len() && (#[trigger] ps[k]).active_pipelines() && r.2[0]->FetchProjects_0->0
                        == ps[k].last_activity_at
            }
            &&& (!(exists|k: int| 0 <= k < ps.len() && (#[trigger] ps[k]).active_pipelines()) && ps.len() > 0)
                ==> {
                &&& r.2[0]->FetchProjects_0 is Some
                &&& forall|k: int| 0 <= k < ps.len() ==> r.2[0]->FetchProjects_0->0 >= (#[trigger] ps[k]).last_activity_at
                &&& exists|k: int| 0 <= k < ps.len() && r.2[0]->FetchProjects_0->0 == (#[trigger] ps[k]).last_activity_at
            }
            &&& ps.len() == 0 ==> r.2[0]->FetchProjects_0 is None
        }),
{
    reveal(app_react);
    let ps = m.store.sorted;
    lemma_oldest_active(ps);
    lemma_latest_activity(ps);
    if exists|k: int| 0 <= k < ps.len() && (#[trigger] ps[k]).active_pipelines() {
        let k = choose|k: int| 0 <= k < ps.len() && (#[trigger] ps[k]).active_pipelines();
        assert(ps[k].active_pipelines());
    }
    if ps.len() == 0 {
        assert(oldest_active_at(ps) is None);
    }
}

/// With a live text filter that is not blank, a project that passes the view's id and
/// recency checks is listed exactly when the filter, ignoring case, occurs in its path or
/// in its description.
pub proof fn law_text_filter_searches_path_and_description(
    m: AppModel,
    u: Seq<char>,
    now: i64,
    ps: Seq<ProjectView>,
    j: int,
)
    requires
        0 <= j < ps.len(),
        !blank(u),
        !(m.cache.contains_key(m.active_view_index) && (match active_view(m) {
            Some(v) => v.involvement is Some,
            None => false,
        }) && !m.cache[m.active_view_index].0.contains(ps[j].id.id())),
        match active_view(m) {
            Some(v) => match v.recent_days {
                Some(d) => ps[j].last_activity_at >= now - d * 86400,
                None => true,
            },
            None => true,
        },
    ensures
        shown_positions(m, Some(u), now, ps).contains(j) <==> {
            ||| contains_seq(lowercase(ps[j].path), lowercase(u))
            ||| match ps[j].description {
                Some(d) => contains_seq(lowercase(d), lowercase(u)),
                None => false,
            }
        },
{
    law_shown_positions_exact(m, Some(u), now, ps);
    assert(text_filter(Some(u), active_view(m)) == Some(u));
}

/// The lowercase name of a level.
pub open spec fn level_name(l: LogLevel) -> Seq<char> {
    match l {
        LogLevel::Off => seq!['o', 'f', 'f'],
        LogLevel::Error => seq!['e', 'r', 'r', 'o', 'r'],
        LogLevel::Warn => seq!['w', 'a', 'r', 'n'],
        LogLevel::Info => seq!['i', 'n', 'f', 'o'],
        LogLevel::Debug => seq!['d', 'e', 'b', 'u', 'g'],
        LogLevel::Trace => seq!['t', 'r', 'a', 'c', 'e'],
    }
}

/// Each of the six levels is chosen by its own lowercase name and by nothing else, so
/// changing the level by a name that lowercases to a level's name sets that level, and
/// announces it when it differs from the current one.
pub proof fn law_level_names(m: AppModel, l: LogLevel, s: Seq<char>)
    ensures
        level_named(level_name(l)) == Some(l),
        level_named(s) == Some(l) ==> s == level_name(l),
        lowercase(s) == level_name(l) ==> {
            &&& log_level_change(m, s).0 == (AppModel { log_level: l, ..m })
            &&& l != m.log_level ==> log_level_change(m, s).1 == seq![
                AppActionView::SetLogLevel(l),
                AppActionView::Dispatch(GlimEventView::LogLevelChanged(l)),
            ]
            &&& l == m.log_level ==> log_level_change(m, s).1 == Seq::<AppActionView>::empty()
        },
{
    reveal_strlit("off");
    reveal_strlit("error");
    reveal_strlit("warn");
    reveal_strlit("info");
    reveal_strlit("debug");
    reveal_strlit("trace");
    assert("off"@ =~= level_name(LogLevel::Off));
    assert("error"@ =~= level_name(LogLevel::Error));
    assert("warn"@ =~= level_name(LogLevel::Warn));
    assert("info"@ =~= level_name(LogLevel::Info));
    assert("debug"@ =~= level_name(LogLevel::Debug));
    assert("trace"@ =~= level_name(LogLevel::Trace));
}

} // verus!
