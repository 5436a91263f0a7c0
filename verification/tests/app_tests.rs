use glim::domain::{Pipeline, PipelineStatus, Project};
use glim::event::{AtlantisAction, GlimError, GlimEvent};
use glim::glim_app::{
    AppAction, AppUi, ConfigOutcome, ConfigRead, GlimApp, GlimConfig, LogLevel, NoticeLevel,
};
use glim::id::{MrIid, PipelineId, ProjectId};
use glim::views::{InvolvementFilter, ViewConfig};

const DAY: i64 = 86400;
const NOW: i64 = 1_700_000_000;

fn ui() -> AppUi {
    AppUi { notice: None, filter_input_active: false, capture_screen_requested: false, config_popup: None }
}

fn view(name: &str, key: &str, recent_days: Option<u32>, involvement: Option<InvolvementFilter>) -> ViewConfig {
    ViewConfig { name: name.to_string(), key: key.to_string(), search_filter: None, recent_days, involvement }
}

fn views() -> Vec<ViewConfig> {
    vec![
        view("My Work", "1", Some(14), Some(InvolvementFilter::Contributor)),
        view("Reviewing", "2", None, Some(InvolvementFilter::Reviewer)),
        view("All", "3", None, None),
    ]
}

fn app() -> GlimApp {
    GlimApp::new("/tmp/glim.toml".to_string(), &GlimConfig::default(), views())
}

fn project(id: u64, path: &str, last: i64) -> Project {
    Project {
        id: ProjectId::new(id),
        path: path.to_string(),
        description: None,
        url: format!("https://gitlab.example/{}", path),
        last_activity_at: last,
        pipelines: None,
    }
}

fn pipeline(id: u64, project_id: u64, status: PipelineStatus, sha: &str) -> Pipeline {
    Pipeline {
        id: PipelineId::new(id),
        project_id: ProjectId::new(project_id),
        status,
        sha: sha.to_string(),
        url: format!("https://gitlab.example/p/{}", id),
        updated_at: NOW - 100,
        jobs: None,
        commit: None,
    }
}

fn loaded_app() -> (GlimApp, AppUi) {
    let mut a = app();
    let mut u = ui();
    a.apply_at(
        GlimEvent::ProjectsLoaded(vec![project(1, "group/alpha", NOW - DAY), project(2, "group/Beta", NOW - 3 * DAY)]),
        &mut u,
        NOW,
        0,
    );
    (a, u)
}

#[test]
fn default_config_values() {
    let c = GlimConfig::default();
    assert_eq!(c.gitlab_url, "https://");
    assert_eq!(c.gitlab_token, "");
    assert!(c.search_filter.is_none());
    assert_eq!(c.log_level.as_deref(), Some("Error"));
    assert!(c.animations);
}

#[test]
fn new_app_is_running_with_first_view() {
    let a = app();
    assert!(a.is_running());
    assert_eq!(a.active_view_index, 0);
    assert!(!a.view_loading);
    assert!(a.projects().is_empty());
    assert_eq!(a.config_path(), "/tmp/glim.toml");
}

#[test]
fn exit_stops_the_app() {
    let mut a = app();
    let mut u = ui();
    let out = a.apply_at(GlimEvent::AppExit, &mut u, NOW, 0);
    assert!(out.is_empty());
    assert!(!a.is_running());
}

#[test]
fn loaded_projects_are_dispatched_by_the_store() {
    let mut a = app();
    let mut u = ui();
    let out = a.apply_at(GlimEvent::ProjectsLoaded(vec![project(1, "a", NOW - DAY)]), &mut u, NOW, 0);
    assert_eq!(out.len(), 3);
    assert!(matches!(out[0], AppAction::Dispatch(GlimEvent::PipelinesFetch(_))));
    assert!(matches!(out[1], AppAction::Dispatch(GlimEvent::ProjectUpdated(_))));
    assert!(matches!(out[2], AppAction::Dispatch(GlimEvent::ProjectSelected(_))));
    assert_eq!(a.projects().len(), 1);
    assert_eq!(a.project(ProjectId::new(1)).path, "a");
}

#[test]
fn opening_a_project_opens_its_page() {
    let (mut a, mut u) = loaded_app();
    assert!(a.can_apply(&GlimEvent::ProjectOpenUrl(ProjectId::new(1))));
    assert!(!a.can_apply(&GlimEvent::ProjectOpenUrl(ProjectId::new(9))));
    let out = a.apply_at(GlimEvent::ProjectOpenUrl(ProjectId::new(1)), &mut u, NOW, 0);
    assert_eq!(out.len(), 1);
    assert!(matches!(&out[0], AppAction::OpenUrl(url) if url == "https://gitlab.example/group/alpha"));
}

#[test]
fn mr_view_needs_a_commit() {
    let (mut a, mut u) = loaded_app();
    a.apply_at(
        GlimEvent::PipelinesLoaded(vec![pipeline(10, 1, PipelineStatus::Success, "abc"), pipeline(11, 1, PipelineStatus::Success, "")]),
        &mut u,
        NOW,
        0,
    );
    let out = a.apply_at(GlimEvent::MrViewOpen(ProjectId::new(1), PipelineId::new(10)), &mut u, NOW, 0);
    assert!(matches!(&out[..], [AppAction::FetchMr(p, sha)] if *p == ProjectId::new(1) && sha == "abc"));
    let out = a.apply_at(GlimEvent::MrViewOpen(ProjectId::new(1), PipelineId::new(11)), &mut u, NOW, 0);
    assert!(matches!(&out[..], [AppAction::Dispatch(GlimEvent::MrNotFound(_, _))]));
    let out = a.apply_at(GlimEvent::MrViewOpen(ProjectId::new(5), PipelineId::new(11)), &mut u, NOW, 0);
    assert!(matches!(&out[..], [AppAction::Dispatch(GlimEvent::MrNotFound(_, _))]));
}

#[test]
fn missing_mr_becomes_an_error() {
    let mut a = app();
    let mut u = ui();
    let out = a.apply_at(GlimEvent::MrNotFound(ProjectId::new(1), PipelineId::new(2)), &mut u, NOW, 0);
    assert!(matches!(
        &out[..],
        [AppAction::Dispatch(GlimEvent::AppError(GlimError::GeneralError(m)))] if m == "No open MR found for this pipeline"
    ));
}

#[test]
fn atlantis_actions_post_their_command() {
    let mut a = app();
    let mut u = ui();
    let out = a.apply_at(GlimEvent::MrAtlantisAction(ProjectId::new(1), MrIid::new(4), AtlantisAction::Plan), &mut u, NOW, 0);
    assert!(matches!(&out[..], [AppAction::Dispatch(GlimEvent::MrNotePost(_, iid, body))] if *iid == MrIid::new(4) && body == "atlantis plan"));
    let out = a.apply_at(GlimEvent::MrAtlantisAction(ProjectId::new(1), MrIid::new(4), AtlantisAction::Apply), &mut u, NOW, 0);
    assert!(matches!(&out[..], [AppAction::Dispatch(GlimEvent::MrNotePost(_, _, body))] if body == "atlantis apply"));
}

#[test]
fn errors_show_as_notifications() {
    let mut a = app();
    let mut u = ui();
    let out = a.apply_at(GlimEvent::AppError(GlimError::GeneralError("boom".to_string())), &mut u, NOW, 0);
    assert!(matches!(&out[..], [AppAction::ShowNotice(n)] if n.level == NoticeLevel::Error && n.message == "boom"));
    assert!(matches!(&u.notice, Some(n) if n.message == "boom"));
    // a second error waits while the first is on screen
    let out = a.apply_at(GlimEvent::AppError(GlimError::GeneralError("again".to_string())), &mut u, NOW, 0);
    assert!(out.is_empty());
    let out = a.apply_at(GlimEvent::NotificationDismiss, &mut u, NOW, 0);
    assert!(matches!(&out[..], [AppAction::ShowNotice(n)] if n.message == "again"));
    let out = a.apply_at(GlimEvent::NotificationDismiss, &mut u, NOW, 0);
    assert!(out.is_empty());
    assert!(u.notice.is_none());
    let out = a.apply_at(GlimEvent::NotificationLast, &mut u, NOW, 0);
    assert!(matches!(&out[..], [AppAction::ShowNotice(n)] if n.message == "again"));
}

#[test]
fn ui_flags_follow_events() {
    let mut a = app();
    let mut u = ui();
    a.apply_at(GlimEvent::FilterMenuShow, &mut u, NOW, 0);
    a.apply_at(GlimEvent::ScreenCapture, &mut u, NOW, 0);
    assert!(u.filter_input_active);
    assert!(u.capture_screen_requested);
    let out = a.apply_at(GlimEvent::ScreenCaptureToClipboard("x".to_string()), &mut u, NOW, 0);
    assert!(matches!(&out[..], [AppAction::CopyScreenCapture(s)] if s == "x"));
}

#[test]
fn contributor_view_fetches_recent_projects() {
    let mut a = app();
    let mut u = ui();
    let out = a.apply_at(GlimEvent::ViewSwitch(0), &mut u, NOW, 0);
    assert!(matches!(&out[..], [AppAction::FetchContributorProjects(0, t)] if *t == NOW - 14 * DAY));
    assert!(a.view_loading);
}

#[test]
fn reviewer_view_fetches_the_user_first() {
    let mut a = app();
    let mut u = ui();
    let out = a.apply_at(GlimEvent::ViewSwitch(1), &mut u, NOW, 0);
    assert!(matches!(&out[..], [AppAction::FetchCurrentUser]));
    assert_eq!(a.active_view_index, 1);
    assert!(a.view_loading);
    let out = a.apply_at(GlimEvent::CurrentUserLoaded(42), &mut u, NOW, 10);
    assert!(matches!(&out[..], [AppAction::FetchReviewerProjects(1, 42)]));
    let out = a.apply_at(GlimEvent::ViewProjectsFetched(1, vec![ProjectId::new(2)]), &mut u, NOW, 1000);
    assert!(out.is_empty());
    assert!(!a.view_loading);
    // fresh for a minute
    let out = a.apply_at(GlimEvent::ViewSwitch(1), &mut u, NOW, 60_999);
    assert!(out.is_empty());
    let out = a.apply_at(GlimEvent::ViewSwitch(1), &mut u, NOW, 61_000);
    assert!(matches!(&out[..], [AppAction::FetchReviewerProjects(1, 42)]));
}

#[test]
fn plain_view_and_unknown_view_fetch_nothing() {
    let mut a = app();
    let mut u = ui();
    let out = a.apply_at(GlimEvent::ViewSwitch(2), &mut u, NOW, 0);
    assert!(out.is_empty());
    assert_eq!(a.active_view_index, 2);
    let out = a.apply_at(GlimEvent::ViewSwitch(7), &mut u, NOW, 0);
    assert!(out.is_empty());
    assert_eq!(a.active_view_index, 2);
}

#[test]
fn projects_fetch_starts_at_oldest_running_project() {
    let (mut a, mut u) = loaded_app();
    let out = a.apply_at(GlimEvent::ProjectsFetch, &mut u, NOW, 0);
    assert!(matches!(&out[..], [AppAction::FetchProjects(Some(t))] if *t == NOW - DAY));
    a.apply_at(GlimEvent::PipelinesLoaded(vec![pipeline(20, 2, PipelineStatus::Running, "s")]), &mut u, NOW, 0);
    // project 2 now has a running pipeline, so projects are fetched from its own activity
    let out = a.apply_at(GlimEvent::ProjectsFetch, &mut u, NOW, 0);
    assert!(matches!(&out[..], [AppAction::FetchProjects(Some(t))] if *t == NOW - 3 * DAY));
    let out = a.apply_at(GlimEvent::JobsActiveFetch, &mut u, NOW, 0);
    assert!(matches!(&out[..], [AppAction::FetchJobs(p, pl)] if *p == ProjectId::new(2) && *pl == PipelineId::new(20)));
}

#[test]
fn empty_store_fetches_all_projects() {
    let mut a = app();
    let mut u = ui();
    let out = a.apply_at(GlimEvent::ProjectsFetch, &mut u, NOW, 0);
    assert!(matches!(&out[..], [AppAction::FetchProjects(None)]));
}

#[test]
fn log_level_changes_once() {
    let mut a = app();
    let mut u = ui();
    let mut c = GlimConfig::default();
    c.log_level = Some("INFO".to_string());
    let out = a.apply_at(GlimEvent::ConfigUpdate(c.clone()), &mut u, NOW, 0);
    assert_eq!(out.len(), 3);
    assert!(matches!(out[0], AppAction::UpdateClientConfig(_)));
    assert!(matches!(out[1], AppAction::SetLogLevel(LogLevel::Info)));
    assert!(matches!(out[2], AppAction::Dispatch(GlimEvent::LogLevelChanged(LogLevel::Info))));
    let out = a.apply_at(GlimEvent::ConfigUpdate(c), &mut u, NOW, 0);
    assert_eq!(out.len(), 1);
    let mut bad = GlimConfig::default();
    bad.log_level = Some("loud".to_string());
    let out = a.apply_at(GlimEvent::ConfigUpdate(bad), &mut u, NOW, 0);
    assert_eq!(out.len(), 1);
}

#[test]
fn initial_log_level_comes_from_the_config() {
    let mut c = GlimConfig::default();
    c.log_level = Some("debug".to_string());
    let mut a = GlimApp::new("p".to_string(), &c, views());
    let mut u = ui();
    let out = a.apply_at(GlimEvent::ConfigUpdate(c), &mut u, NOW, 0);
    assert_eq!(out.len(), 1);
}

#[test]
fn applying_config_connects_with_the_popup_settings() {
    let mut a = app();
    let mut u = ui();
    let out = a.apply_at(GlimEvent::ConfigApply, &mut u, NOW, 0);
    assert!(out.is_empty());
    u.config_popup = Some(GlimConfig::default());
    let out = a.apply_at(GlimEvent::ConfigApply, &mut u, NOW, 0);
    assert!(matches!(&out[..], [AppAction::ConnectWithConfig(c)] if c.gitlab_url == "https://"));
}

#[test]
fn config_outcomes() {
    let mut a = app();
    let mut u = ui();
    let out = a.config_applied(GlimConfig::default(), ConfigOutcome::Connected, &mut u);
    assert_eq!(out.len(), 4);
    assert!(matches!(out[0], AppAction::SaveConfig(_)));
    assert!(matches!(out[1], AppAction::Dispatch(GlimEvent::ConfigUpdate(_))));
    assert!(matches!(out[2], AppAction::Dispatch(GlimEvent::ConfigClose)));
    assert!(matches!(out[3], AppAction::Dispatch(GlimEvent::ProjectsFetch)));
    let out = a.config_applied(GlimConfig::default(), ConfigOutcome::Invalid("bad url".to_string()), &mut u);
    assert!(matches!(&out[..], [AppAction::Dispatch(GlimEvent::AppError(GlimError::ConfigValidationError(m)))] if m == "bad url"));
    let out = a.config_applied(GlimConfig::default(), ConfigOutcome::ConnectFailed("401".to_string()), &mut u);
    assert!(matches!(&out[..], [AppAction::Dispatch(GlimEvent::AppError(GlimError::ConfigConnectionError(m)))] if m == "401"));
}

#[test]
fn loading_config_outcomes() {
    let a = app();
    assert!(matches!(a.load_config(ConfigRead::Missing), Err(GlimError::ConfigFileNotFound(p)) if p == "/tmp/glim.toml"));
    assert!(matches!(a.load_config(ConfigRead::Failed("parse".to_string())), Err(GlimError::ConfigLoadError(p, m)) if p == "/tmp/glim.toml" && m == "parse"));
    assert!(matches!(a.load_config(ConfigRead::Loaded(GlimConfig::default())), Ok(c) if c.gitlab_url == "https://"));
}

#[test]
fn timers_report_elapsed_milliseconds() {
    let mut a = app();
    assert_eq!(a.process_timers_at(250), 250);
    assert_eq!(a.process_timers_at(300), 50);
    assert_eq!(a.process_timers_at(100), 0);
    assert_eq!(a.process_timers_at(100 + (1u64 << 32) + 5), 5);
}

#[test]
fn filter_matches_path_or_description_ignoring_case() {
    let (mut a, mut u) = loaded_app();
    a.apply_at(GlimEvent::ViewSwitch(2), &mut u, NOW, 0);
    let (ps, idx) = a.filtered_projects_at(&Some("beta".to_string()), NOW);
    assert_eq!(idx, vec![1]);
    assert_eq!(ps[0].id, ProjectId::new(2));
    let (_, idx) = a.filtered_projects_at(&Some("GROUP".to_string()), NOW);
    assert_eq!(idx, vec![0, 1]);
    let (_, idx) = a.filtered_projects_at(&Some("   ".to_string()), NOW);
    assert_eq!(idx, vec![0, 1]);
    let (_, idx) = a.filtered_projects_at(&Some("gamma".to_string()), NOW);
    assert!(idx.is_empty());
}

#[test]
fn recent_days_and_involvement_narrow_the_view() {
    let (mut a, mut u) = loaded_app();
    // "My Work": fourteen days, and only fetched ids once they arrived
    a.apply_at(GlimEvent::ViewSwitch(0), &mut u, NOW, 0);
    let (_, idx) = a.filtered_projects_at(&None, NOW);
    assert_eq!(idx, vec![0, 1]);
    let (_, idx) = a.filtered_projects_at(&None, NOW + 12 * DAY);
    assert_eq!(idx, vec![0]);
    a.apply_at(GlimEvent::ViewProjectsFetched(0, vec![ProjectId::new(2)]), &mut u, NOW, 0);
    let (ps, idx) = a.filtered_projects_at(&None, NOW);
    assert_eq!(idx, vec![1]);
    assert_eq!(ps.len(), 1);
}

#[test]
fn off_switches_logging_off() {
    let mut a = app();
    let mut u = ui();
    let mut c = GlimConfig::default();
    c.log_level = Some("Off".to_string());
    let out = a.apply_at(GlimEvent::ConfigUpdate(c.clone()), &mut u, NOW, 0);
    assert_eq!(out.len(), 3);
    assert!(matches!(out[1], AppAction::SetLogLevel(LogLevel::Off)));
    let mut b = GlimApp::new("p".to_string(), &c, views());
    let out = b.apply_at(GlimEvent::ConfigUpdate(c), &mut u, NOW, 0);
    assert_eq!(out.len(), 1);
}

#[test]
fn applying_settings_waits_for_the_outcome_to_notify() {
    let mut a = app();
    let mut u = ui();
    a.apply_at(GlimEvent::AppError(GlimError::GeneralError("boom".to_string())), &mut u, NOW, 0);
    assert!(matches!(&u.notice, Some(n) if n.message == "boom"));
    a.apply_at(GlimEvent::AppError(GlimError::GeneralError("second".to_string())), &mut u, NOW, 0);
    u.notice = None;
    u.config_popup = Some(GlimConfig::default());
    let out = a.apply_at(GlimEvent::ConfigApply, &mut u, NOW, 0);
    assert!(matches!(&out[..], [AppAction::ConnectWithConfig(_)]));
    assert!(u.notice.is_none());
    // refused settings end the handling: no notification step
    let out = a.config_applied(GlimConfig::default(), ConfigOutcome::Invalid("bad".to_string()), &mut u);
    assert_eq!(out.len(), 1);
    assert!(u.notice.is_none());
    // a failed connection is followed by the notification step
    let out = a.config_applied(GlimConfig::default(), ConfigOutcome::ConnectFailed("x".to_string()), &mut u);
    assert_eq!(out.len(), 2);
    assert!(matches!(&out[1], AppAction::ShowNotice(n) if n.message == "second"));
    assert!(matches!(&u.notice, Some(n) if n.message == "second"));
}
