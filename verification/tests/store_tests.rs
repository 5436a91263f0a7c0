use glim::domain::{Commit, Job, Pipeline, PipelineStatus, Project};
use glim::event::GlimEvent;
use glim::glim_app::LogLevel;
use glim::id::{JobId, PipelineId, ProjectId};
use glim::stores::{is_older_than_7d, log_event, ProjectStore};

const DAY: i64 = 86400;
const NOW: i64 = 1_700_000_000;

fn project(id: u64, path: &str, last: i64) -> Project {
    Project {
        id: ProjectId::new(id),
        path: path.to_string(),
        description: None,
        url: format!("https://gitlab.example/{}", path),
        last_activity_at: last,
        pipelines: None,
    }
}

fn pipeline(id: u64, project_id: u64, status: PipelineStatus, updated_at: i64) -> Pipeline {
    Pipeline {
        id: PipelineId::new(id),
        project_id: ProjectId::new(project_id),
        status,
        sha: format!("sha{}", id),
        url: format!("https://gitlab.example/p/{}", id),
        updated_at,
        jobs: None,
        commit: None,
    }
}

fn job(id: u64, status: PipelineStatus, commit: Option<&str>) -> Job {
    Job {
        id: JobId::new(id),
        name: format!("job{}", id),
        status,
        url: format!("https://gitlab.example/j/{}", id),
        commit: commit.map(|t| Commit { title: t.to_string(), author_name: "ann".to_string() }),
    }
}

fn ids(store: &ProjectStore) -> Vec<u64> {
    store.sorted_projects().iter().map(|p| p.id.value()).collect()
}

#[test]
fn new_store_is_empty() {
    let store = ProjectStore::new();
    assert!(store.sorted_projects().is_empty());
    assert!(store.find(ProjectId::new(1)).is_none());
}

#[test]
fn first_load_requests_pipelines_and_selects_most_recent() {
    let mut store = ProjectStore::new();
    let out = store.apply_at(
        &GlimEvent::ProjectsLoaded(vec![project(1, "a", NOW - DAY), project(2, "b", NOW - 2 * DAY)]),
        NOW,
    );
    assert_eq!(out.len(), 5);
    assert!(matches!(out[0], GlimEvent::PipelinesFetch(id) if id == ProjectId::new(1)));
    assert!(matches!(&out[1], GlimEvent::ProjectUpdated(p) if p.id == ProjectId::new(1)));
    assert!(matches!(out[2], GlimEvent::PipelinesFetch(id) if id == ProjectId::new(2)));
    assert!(matches!(&out[3], GlimEvent::ProjectUpdated(p) if p.id == ProjectId::new(2)));
    assert!(matches!(out[4], GlimEvent::ProjectSelected(id) if id == ProjectId::new(1)));
    assert_eq!(store.find(ProjectId::new(1)).unwrap().pipelines.as_ref().map(|p| p.len()), Some(0));
    assert_eq!(ids(&store), vec![1, 2]);
}

#[test]
fn idle_project_gets_no_pipeline_request() {
    let mut store = ProjectStore::new();
    let out = store.apply_at(&GlimEvent::ProjectsLoaded(vec![project(7, "old", NOW - 8 * DAY)]), NOW);
    assert_eq!(out.len(), 2);
    assert!(matches!(&out[0], GlimEvent::ProjectUpdated(p) if p.id == ProjectId::new(7)));
    assert!(matches!(out[1], GlimEvent::ProjectSelected(_)));
    assert!(store.find(ProjectId::new(7)).unwrap().pipelines.is_none());
}

#[test]
fn seven_days_and_a_bit_is_not_older_than_a_week() {
    assert!(!is_older_than_7d(NOW, NOW - 8 * DAY + 1));
    assert!(is_older_than_7d(NOW, NOW - 8 * DAY));
    assert!(!is_older_than_7d(NOW, NOW));
}

#[test]
fn reloading_known_project_updates_it_and_keeps_pipelines() {
    let mut store = ProjectStore::new();
    store.apply_at(&GlimEvent::ProjectsLoaded(vec![project(1, "a", NOW - DAY)]), NOW);
    let mut changed = project(1, "a-renamed", NOW - DAY);
    changed.description = Some("new".to_string());
    let out = store.apply_at(&GlimEvent::ProjectsLoaded(vec![changed]), NOW);
    // known project: pipelines requested again, and no selection since projects were there
    assert_eq!(out.len(), 2);
    assert!(matches!(out[0], GlimEvent::PipelinesFetch(id) if id == ProjectId::new(1)));
    assert!(matches!(&out[1], GlimEvent::ProjectUpdated(_)));
    let p = store.find(ProjectId::new(1)).unwrap();
    assert_eq!(p.path, "a-renamed");
    assert_eq!(p.description.as_deref(), Some("new"));
    assert!(p.pipelines.is_some());
    assert_eq!(store.sorted_projects().len(), 1);
}

#[test]
fn projects_are_sorted_by_latest_activity_including_pipelines() {
    let mut store = ProjectStore::new();
    store.apply_at(
        &GlimEvent::ProjectsLoaded(vec![project(1, "a", NOW - 3 * DAY), project(2, "b", NOW - DAY)]),
        NOW,
    );
    assert_eq!(ids(&store), vec![2, 1]);
    // a fresh pipeline on project 1 moves it to the front
    let out = store.apply_at(
        &GlimEvent::PipelinesLoaded(vec![pipeline(10, 1, PipelineStatus::Success, NOW - 60)]),
        NOW,
    );
    assert_eq!(out.len(), 1);
    assert!(matches!(&out[0], GlimEvent::ProjectUpdated(p) if p.id == ProjectId::new(1)));
    assert_eq!(ids(&store), vec![1, 2]);
}

#[test]
fn equal_activity_keeps_load_order() {
    let mut store = ProjectStore::new();
    store.apply_at(
        &GlimEvent::ProjectsLoaded(vec![
            project(3, "c", NOW - DAY),
            project(1, "a", NOW - DAY),
            project(2, "b", NOW - DAY),
        ]),
        NOW,
    );
    assert_eq!(ids(&store), vec![3, 1, 2]);
}

#[test]
fn running_pipelines_get_their_jobs_requested() {
    let mut store = ProjectStore::new();
    store.apply_at(&GlimEvent::ProjectsLoaded(vec![project(1, "a", NOW - DAY)]), NOW);
    let out = store.apply_at(
        &GlimEvent::PipelinesLoaded(vec![
            pipeline(10, 1, PipelineStatus::Running, NOW - 10),
            pipeline(11, 1, PipelineStatus::Failed, NOW - 20),
            pipeline(12, 1, PipelineStatus::Pending, NOW - 30),
        ]),
        NOW,
    );
    assert_eq!(out.len(), 3);
    assert!(matches!(out[0], GlimEvent::JobsFetch(p, pl) if p == ProjectId::new(1) && pl == PipelineId::new(10)));
    assert!(matches!(out[1], GlimEvent::JobsFetch(p, pl) if p == ProjectId::new(1) && pl == PipelineId::new(12)));
    assert!(matches!(&out[2], GlimEvent::ProjectUpdated(p) if p.pipelines.as_ref().unwrap().len() == 3));
}

#[test]
fn pipelines_of_unknown_project_are_ignored() {
    let mut store = ProjectStore::new();
    let out = store.apply_at(
        &GlimEvent::PipelinesLoaded(vec![pipeline(10, 99, PipelineStatus::Running, NOW)]),
        NOW,
    );
    assert!(out.is_empty());
    assert!(store.sorted_projects().is_empty());
    let out = store.apply_at(&GlimEvent::PipelinesLoaded(vec![]), NOW);
    assert!(out.is_empty());
}

#[test]
fn loaded_jobs_set_the_pipeline_commit() {
    let mut store = ProjectStore::new();
    store.apply_at(&GlimEvent::ProjectsLoaded(vec![project(1, "a", NOW - DAY)]), NOW);
    store.apply_at(
        &GlimEvent::PipelinesLoaded(vec![pipeline(10, 1, PipelineStatus::Failed, NOW - 10)]),
        NOW,
    );
    let out = store.apply_at(
        &GlimEvent::JobsLoaded(
            ProjectId::new(1),
            PipelineId::new(10),
            vec![job(100, PipelineStatus::Failed, Some("fix build")), job(101, PipelineStatus::Success, None)],
        ),
        NOW,
    );
    assert_eq!(out.len(), 1);
    let p = store.find(ProjectId::new(1)).unwrap();
    let pl = p.pipeline(PipelineId::new(10)).unwrap();
    assert_eq!(pl.jobs.as_ref().unwrap().len(), 2);
    assert_eq!(pl.commit.as_ref().unwrap().title, "fix build");
    assert_eq!(pl.failed_job().unwrap().id, JobId::new(100));
    assert!(pl.job(JobId::new(101)).is_some());
    assert!(pl.job(JobId::new(102)).is_none());
}

#[test]
fn selecting_project_without_pipelines_requests_them_once() {
    let mut store = ProjectStore::new();
    store.apply_at(&GlimEvent::ProjectsLoaded(vec![project(7, "old", NOW - 30 * DAY)]), NOW);
    let out = store.apply_at(&GlimEvent::ProjectSelected(ProjectId::new(7)), NOW);
    assert_eq!(out.len(), 1);
    assert!(matches!(out[0], GlimEvent::PipelinesFetch(id) if id == ProjectId::new(7)));
    let out = store.apply_at(&GlimEvent::ProjectSelected(ProjectId::new(7)), NOW);
    assert!(out.is_empty());
}

#[test]
fn opening_details_requests_missing_jobs() {
    let mut store = ProjectStore::new();
    store.apply_at(&GlimEvent::ProjectsLoaded(vec![project(1, "a", NOW - DAY)]), NOW);
    store.apply_at(
        &GlimEvent::PipelinesLoaded(vec![
            pipeline(10, 1, PipelineStatus::Success, NOW - 10),
            pipeline(11, 1, PipelineStatus::Success, NOW - 20),
        ]),
        NOW,
    );
    store.apply_at(&GlimEvent::JobsLoaded(ProjectId::new(1), PipelineId::new(10), vec![]), NOW);
    let out = store.apply_at(&GlimEvent::ProjectDetailsOpen(ProjectId::new(1)), NOW);
    assert_eq!(out.len(), 1);
    assert!(matches!(out[0], GlimEvent::JobsFetch(_, pl) if pl == PipelineId::new(11)));
}

#[test]
fn other_events_leave_the_store_alone() {
    let mut store = ProjectStore::new();
    store.apply_at(&GlimEvent::ProjectsLoaded(vec![project(1, "a", NOW - DAY)]), NOW);
    let out = store.apply_at(&GlimEvent::AppExit, NOW);
    assert!(out.is_empty());
    assert_eq!(ids(&store), vec![1]);
}

#[test]
fn events_are_logged_at_their_level() {
    let line = log_event(&GlimEvent::ProjectsFetch).unwrap();
    assert_eq!(line.level, LogLevel::Info);
    assert_eq!(line.message, "Requesting all projects from GitLab");
    let line = log_event(&GlimEvent::JobsFetch(ProjectId::new(1), PipelineId::new(2))).unwrap();
    assert_eq!(line.level, LogLevel::Debug);
    assert_eq!(line.message, "Requesting jobs");
    assert_eq!(line.fields, vec![("project_id", "1".to_string()), ("pipeline_id", "2".to_string())]);
    assert!(log_event(&GlimEvent::LogEntry("x".to_string())).is_none());
    assert!(log_event(&GlimEvent::ScreenCapture).is_none());
}

#[test]
fn log_fields_count_and_measure() {
    let line = log_event(&GlimEvent::JobLogDownloaded(ProjectId::new(3), JobId::new(40), "h\u{e9}llo".to_string())).unwrap();
    assert_eq!(
        line.fields,
        vec![
            ("project_id", "3".to_string()),
            ("job_id", "40".to_string()),
            ("content_length", "6".to_string()),
        ]
    );
    let line = log_event(&GlimEvent::PipelinesLoaded(vec![pipeline(1, 5, PipelineStatus::Success, NOW)])).unwrap();
    assert_eq!(line.fields, vec![("count", "1".to_string()), ("project_id", "Some(ProjectId { value: 5 })".to_string())]);
    let line = log_event(&GlimEvent::PipelinesLoaded(vec![])).unwrap();
    assert_eq!(line.fields, vec![("count", "0".to_string()), ("project_id", "None".to_string())]);
    let line = log_event(&GlimEvent::ProjectsLoaded(vec![project(1, "a", NOW), project(2, "b", NOW)])).unwrap();
    assert_eq!(line.fields, vec![("count", "2".to_string())]);
}

#[test]
fn filter_and_error_log_fields() {
    let line = log_event(&GlimEvent::ApplyTemporaryFilter(Some("ab\"c".to_string()))).unwrap();
    assert_eq!(line.fields, vec![("filter", "Some(\"ab\\\"c\")".to_string())]);
    let line = log_event(&GlimEvent::ApplyTemporaryFilter(None)).unwrap();
    assert_eq!(line.fields, vec![("filter", "None".to_string())]);
    let line = log_event(&GlimEvent::AppError(glim::event::GlimError::GeneralError("boom".to_string()))).unwrap();
    assert_eq!(line.fields[0], ("error", "boom".to_string()));
    assert_eq!(line.fields[1].0, "error_type");
    assert!(line.fields[1].1.starts_with("Discriminant("));
}
