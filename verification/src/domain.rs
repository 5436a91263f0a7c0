use vstd::prelude::*;
use crate::id::{JobId, MrIid, PipelineId, ProjectId};
use crate::seqs::{first_match, is_first_match, lemma_first_match, lemma_no_match, no_match};

verus! {

/// The state of a pipeline or of a job.
#[derive(Debug, Clone, Copy, PartialEq, Eq, Structural)]
pub enum PipelineStatus {
    Created,
    WaitingForResource,
    Preparing,
    Pending,
    Running,
    Success,
    Failed,
    Canceled,
    Skipped,
    Manual,
    Scheduled,
}

impl PipelineStatus {
    /// Still going: it has not reached a final state.
    pub open spec fn active(self) -> bool {
        match self {
            PipelineStatus::Created | PipelineStatus::WaitingForResource
            | PipelineStatus::Preparing | PipelineStatus::Pending
            | PipelineStatus::Running => true,
            _ => false,
        }
    }

    pub fn is_active(&self) -> (r: bool)
        ensures
            r == self.active(),
    {
        match self {
            PipelineStatus::Created | PipelineStatus::WaitingForResource
            | PipelineStatus::Preparing | PipelineStatus::Pending
            | PipelineStatus::Running => true,
            _ => false,
        }
    }
}

/// The commit a job ran on.
pub struct Commit {
    pub title: String,
    pub author_name: String,
}

pub struct CommitView {
    pub title: Seq<char>,
    pub author_name: Seq<char>,
}

impl View for Commit {
    type V = CommitView;

    open spec fn view(&self) -> CommitView {
        CommitView { title: self.title@, author_name: self.author_name@ }
    }
}

impl Clone for Commit {
    fn clone(&self) -> (r: Self)
        ensures
            r@ == self@,
    {
        Commit { title: self.title.clone(), author_name: self.author_name.clone() }
    }
}

/// A job of a pipeline.
pub struct Job {
    pub id: JobId,
    pub name: String,
    pub status: PipelineStatus,
    pub url: String,
    pub commit: Option<Commit>,
}

pub struct JobView {
    pub id: JobId,
    pub name: Seq<char>,
    pub status: PipelineStatus,
    pub url: Seq<char>,
    pub commit: Option<CommitView>,
}

pub open spec fn opt_commit_view(c: Option<Commit>) -> Option<CommitView> {
    match c {
        Some(c) => Some(c@),
        None => None,
    }
}

fn clone_opt_commit(c: &Option<Commit>) -> (r: Option<Commit>)
    ensures
        opt_commit_view(r) == opt_commit_view(*c),
{
    match c {
        Some(c) => Some(c.clone()),
        None => None,
    }
}

impl View for Job {
    type V = JobView;

    open spec fn view(&self) -> JobView {
        JobView {
            id: self.id,
            name: self.name@,
            status: self.status,
            url: self.url@,
            commit: opt_commit_view(self.commit),
        }
    }
}

impl Clone for Job {
    fn clone(&self) -> (r: Self)
        ensures
            r@ == self@,
    {
        Job {
            id: self.id,
            name: self.name.clone(),
            status: self.status,
            url: self.url.clone(),
            commit: clone_opt_commit(&self.commit),
        }
    }
}

pub open spec fn jobs_view(v: Seq<Job>) -> Seq<JobView> {
    v.map_values(|j: Job| j@)
}

pub open spec fn opt_jobs_view(v: Option<Vec<Job>>) -> Option<Seq<JobView>> {
    match v {
        Some(v) => Some(jobs_view(v@)),
        None => None,
    }
}

/// A pipeline of a project.
pub struct Pipeline {
    pub id: PipelineId,
    pub project_id: ProjectId,
    pub status: PipelineStatus,
    pub sha: String,
    pub url: String,
    /// Seconds since the epoch.
    pub updated_at: i64,
    pub jobs: Option<Vec<Job>>,
    pub commit: Option<Commit>,
}

pub struct PipelineView {
    pub id: PipelineId,
    pub project_id: ProjectId,
    pub status: PipelineStatus,
    pub sha: Seq<char>,
    pub url: Seq<char>,
    pub updated_at: i64,
    pub jobs: Option<Seq<JobView>>,
    pub commit: Option<CommitView>,
}

impl View for Pipeline {
    type V = PipelineView;

    open spec fn view(&self) -> PipelineView {
        PipelineView {
            id: self.id,
            project_id: self.project_id,
            status: self.status,
            sha: self.sha@,
            url: self.url@,
            updated_at: self.updated_at,
            jobs: opt_jobs_view(self.jobs),
            commit: opt_commit_view(self.commit),
        }
    }
}

pub fn clone_jobs(v: &Vec<Job>) -> (r: Vec<Job>)
    ensures
        jobs_view(r@) == jobs_view(v@),
{
    let mut r: Vec<Job> = Vec::new();
    for i in 0..v.len()
        invariant
            r.len() == i,
            jobs_view(r@) == jobs_view(v@.take(i as int)),
    {
        let ghost old_r = r@;
        let c = v[i].clone();
        r.push(c);
        assert forall|k: int| 0 <= k < r@.len() implies jobs_view(r@)[k] == jobs_view(v@.take(i + 1))[k] by {
            if k < i {
                assert(jobs_view(old_r)[k] == jobs_view(v@.take(i as int))[k]);
            }
        }
        assert(jobs_view(r@) =~= jobs_view(v@.take(i + 1)));
    }
    assert(v@.take(v.len() as int) == v@);
    r
}

fn clone_opt_jobs(v: &Option<Vec<Job>>) -> (r: Option<Vec<Job>>)
    ensures
        opt_jobs_view(r) == opt_jobs_view(*v),
{
    match v {
        Some(v) => Some(clone_jobs(v)),
        None => None,
    }
}

impl Clone for Pipeline {
    fn clone(&self) -> (r: Self)
        ensures
            r@ == self@,
    {
        Pipeline {
            id: self.id,
            project_id: self.project_id,
            status: self.status,
            sha: self.sha.clone(),
            url: self.url.clone(),
            updated_at: self.updated_at,
            jobs: clone_opt_jobs(&self.jobs),
            commit: clone_opt_commit(&self.commit),
        }
    }
}

/// A job view has the given id.
pub open spec fn job_has_id(id: JobId) -> spec_fn(JobView) -> bool {
    |j: JobView| j.id == id
}

/// A job view has failed.
pub open spec fn job_failed() -> spec_fn(JobView) -> bool {
    |j: JobView| j.status == PipelineStatus::Failed
}

impl PipelineView {
    /// The first loaded job that satisfies `p`.
    pub open spec fn first_job(self, p: spec_fn(JobView) -> bool) -> Option<JobView> {
        match self.jobs {
            Some(jobs) => match first_match(jobs, p) {
                Some(i) => Some(jobs[i]),
                None => None,
            },
            None => None,
        }
    }

    /// Some loaded job is still going.
    pub open spec fn active_jobs(self) -> bool {
        &&& self.jobs is Some
        &&& exists|i: int| 0 <= i < self.jobs->0.len() && (#[trigger] self.jobs->0[i]).status.active()
    }

    /// The pipeline itself or one of its loaded jobs is still going.
    pub open spec fn in_progress(self) -> bool {
        self.status.active() || self.active_jobs()
    }
}

impl Pipeline {
    /// Index of the first loaded job that satisfies `p`.
    fn find_job(&self, Ghost(p): Ghost<spec_fn(JobView) -> bool>, id: JobId, failed: bool) -> (r: Option<usize>)
        requires
            failed ==> p == job_failed(),
            !failed ==> p == job_has_id(id),
        ensures
            match r {
                Some(i) => self.jobs is Some && is_first_match(jobs_view(self.jobs->0@), p, i as int),
                None => self.jobs is None || no_match(jobs_view(self.jobs->0@), p),
            },
    {
        match &self.jobs {
            None => None,
            Some(jobs) => {
                let ghost s = jobs_view(jobs@);
                for i in 0..jobs.len()
                    invariant
                        s == jobs_view(jobs@),
                        self.jobs == Some(*jobs),
                        failed ==> p == job_failed(),
                        !failed ==> p == job_has_id(id),
                        forall|k: int| 0 <= k < i ==> !p(#[trigger] s[k]),
                {
                    let hit = if failed {
                        match jobs[i].status {
                            PipelineStatus::Failed => true,
                            _ => false,
                        }
                    } else {
                        jobs[i].id == id
                    };
                    assert(hit == p(s[i as int]));
                    if hit {
                        assert(s.len() == jobs@.len());
                        assert(is_first_match(s, p, i as int));
                        return Some(i);
                    }
                }
                None
            },
        }
    }

    /// The first loaded job with the given id.
    pub fn job(&self, id: JobId) -> (r: Option<&Job>)
        ensures
            match r {
                Some(j) => self@.first_job(job_has_id(id)) == Some(j@),
                None => self@.first_job(job_has_id(id)) is None,
            },
    {
        let found = self.find_job(Ghost(job_has_id(id)), id, false);
        match found {
            Some(i) => {
                proof {
                    lemma_first_match(jobs_view(self.jobs->0@), job_has_id(id), i as int);
                }
                let jobs = self.jobs.as_ref().unwrap();
                Some(&jobs[i])
            },
            None => {
                proof {
                    if self.jobs is Some {
                        lemma_no_match(jobs_view(self.jobs->0@), job_has_id(id));
                    }
                }
                None
            },
        }
    }

    /// The first loaded job that has failed.
    pub fn failed_job(&self) -> (r: Option<&Job>)
        ensures
            match r {
                Some(j) => self@.first_job(job_failed()) == Some(j@),
                None => self@.first_job(job_failed()) is None,
            },
    {
        let found = self.find_job(Ghost(job_failed()), JobId::new(0), true);
        match found {
            Some(i) => {
                proof {
                    lemma_first_match(jobs_view(self.jobs->0@), job_failed(), i as int);
                }
                let jobs = self.jobs.as_ref().unwrap();
                Some(&jobs[i])
            },
            None => {
                proof {
                    if self.jobs is Some {
                        lemma_no_match(jobs_view(self.jobs->0@), job_failed());
                    }
                }
                None
            },
        }
    }

    /// Whether some loaded job is still going.
    pub fn has_active_jobs(&self) -> (r: bool)
        ensures
            r == self@.active_jobs(),
    {
        match &self.jobs {
            None => false,
            Some(jobs) => {
                let ghost s = jobs_view(jobs@);
                for i in 0..jobs.len()
                    invariant
                        s == jobs_view(jobs@),
                        self.jobs == Some(*jobs),
                        forall|k: int| 0 <= k < i ==> !(#[trigger] s[k]).status.active(),
                {
                    if jobs[i].status.is_active() {
                        assert(s[i as int].status.active());
                        assert(self@.jobs == Some(s));
                        assert(s.len() == jobs@.len());
                        return true;
                    }
                }
                false
            },
        }
    }
}

pub open spec fn pipelines_view(v: Seq<Pipeline>) -> Seq<PipelineView> {
    v.map_values(|p: Pipeline| p@)
}

pub open spec fn opt_pipelines_view(v: Option<Vec<Pipeline>>) -> Option<Seq<PipelineView>> {
    match v {
        Some(v) => Some(pipelines_view(v@)),
        None => None,
    }
}

pub fn clone_pipelines(v: &Vec<Pipeline>) -> (r: Vec<Pipeline>)
    ensures
        pipelines_view(r@) == pipelines_view(v@),
{
    let mut r: Vec<Pipeline> = Vec::new();
    for i in 0..v.len()
        invariant
            r.len() == i,
            pipelines_view(r@) == pipelines_view(v@.take(i as int)),
    {
        let ghost old_r = r@;
        let c = v[i].clone();
        r.push(c);
        assert forall|k: int| 0 <= k < r@.len() implies pipelines_view(r@)[k] == pipelines_view(
            v@.take(i + 1),
        )[k] by {
            if k < i {
                assert(pipelines_view(old_r)[k] == pipelines_view(v@.take(i as int))[k]);
            }
        }
        assert(pipelines_view(r@) =~= pipelines_view(v@.take(i + 1)));
    }
    assert(v@.take(v.len() as int) == v@);
    r
}

fn clone_opt_pipelines(v: &Option<Vec<Pipeline>>) -> (r: Option<Vec<Pipeline>>)
    ensures
        opt_pipelines_view(r) == opt_pipelines_view(*v),
{
    match v {
        Some(v) => Some(clone_pipelines(v)),
        None => None,
    }
}

pub open spec fn opt_string_view(s: Option<String>) -> Option<Seq<char>> {
    match s {
        Some(s) => Some(s@),
        None => None,
    }
}

pub fn clone_opt_string(s: &Option<String>) -> (r: Option<String>)
    ensures
        opt_string_view(r) == opt_string_view(*s),
{
    match s {
        Some(s) => Some(s.clone()),
        None => None,
    }
}

/// A project and, once loaded, its pipelines.
pub struct Project {
    pub id: ProjectId,
    pub path: String,
    pub description: Option<String>,
    pub url: String,
    /// Seconds since the epoch.
    pub last_activity_at: i64,
    pub pipelines: Option<Vec<Pipeline>>,
}

pub struct ProjectView {
    pub id: ProjectId,
    pub path: Seq<char>,
    pub description: Option<Seq<char>>,
    pub url: Seq<char>,
    pub last_activity_at: i64,
    pub pipelines: Option<Seq<PipelineView>>,
}

impl View for Project {
    type V = ProjectView;

    open spec fn view(&self) -> ProjectView {
        ProjectView {
            id: self.id,
            path: self.path@,
            description: opt_string_view(self.description),
            url: self.url@,
            last_activity_at: self.last_activity_at,
            pipelines: opt_pipelines_view(self.pipelines),
        }
    }
}

impl Clone for Project {
    fn clone(&self) -> (r: Self)
        ensures
            r@ == self@,
    {
        Project {
            id: self.id,
            path: self.path.clone(),
            description: clone_opt_string(&self.description),
            url: self.url.clone(),
            last_activity_at: self.last_activity_at,
            pipelines: clone_opt_pipelines(&self.pipelines),
        }
    }
}

pub open spec fn max_i64(a: i64, b: i64) -> i64 {
    if a < b {
        b
    } else {
        a
    }
}

/// The latest of `since` and the update times of the pipelines in `s`.
pub open spec fn latest_update(s: Seq<PipelineView>, since: i64) -> i64
    decreases s.len(),
{
    if s.len() == 0 {
        since
    } else {
        max_i64(latest_update(s.drop_last(), since), s.last().updated_at)
    }
}

/// A pipeline view has the given id.
pub open spec fn pipeline_has_id(id: PipelineId) -> spec_fn(PipelineView) -> bool {
    |p: PipelineView| p.id == id
}

impl ProjectView {
    /// The pipelines the project shows as recent: those loaded for it, which are the latest
    /// that GitLab returned; none before they are loaded.
    pub open spec fn recent_pipelines(self) -> Seq<PipelineView> {
        match self.pipelines {
            Some(ps) => ps,
            None => Seq::empty(),
        }
    }

    /// When the project last saw activity: its own timestamp or the latest update of a
    /// loaded pipeline, whichever is later.
    pub open spec fn last_activity(self) -> i64 {
        match self.pipelines {
            Some(ps) => latest_update(ps, self.last_activity_at),
            None => self.last_activity_at,
        }
    }

    /// Position of the first loaded pipeline with the given id.
    pub open spec fn pipeline_index(self, id: PipelineId) -> Option<int> {
        match self.pipelines {
            Some(ps) => first_match(ps, pipeline_has_id(id)),
            None => None,
        }
    }

    /// The first loaded pipeline with the given id.
    pub open spec fn pipeline(self, id: PipelineId) -> Option<PipelineView> {
        match self.pipeline_index(id) {
            Some(i) => Some(self.pipelines->0[i]),
            None => None,
        }
    }

    /// Some loaded pipeline is still going, itself or through a job.
    pub open spec fn active_pipelines(self) -> bool {
        &&& self.pipelines is Some
        &&& exists|i: int|
            0 <= i < self.pipelines->0.len() && #[trigger] self.pipelines->0[i].in_progress()
    }

    /// The project with the pipeline at position `i` changed by `f`.
    pub open spec fn with_pipeline_at(self, i: int, p: PipelineView) -> ProjectView {
        ProjectView { pipelines: Some(self.pipelines->0.update(i, p)), ..self }
    }

    /// The project after its loaded jobs for pipeline `id` were replaced; unchanged where
    /// no such pipeline is loaded.
    pub open spec fn with_jobs(self, id: PipelineId, jobs: Seq<JobView>) -> ProjectView {
        match self.pipeline_index(id) {
            Some(i) => self.with_pipeline_at(
                i,
                PipelineView { jobs: Some(jobs), ..self.pipelines->0[i] },
            ),
            None => self,
        }
    }

    /// The project after the commit of pipeline `id` was set; unchanged where no such
    /// pipeline is loaded.
    pub open spec fn with_commit(self, id: PipelineId, commit: CommitView) -> ProjectView {
        match self.pipeline_index(id) {
            Some(i) => self.with_pipeline_at(
                i,
                PipelineView { commit: Some(commit), ..self.pipelines->0[i] },
            ),
            None => self,
        }
    }

    /// The fields of `other`, keeping the pipelines already loaded here.
    pub open spec fn updated_from(self, other: ProjectView) -> ProjectView {
        ProjectView { pipelines: self.pipelines, ..other }
    }
}

impl Project {
    fn pipeline_idx(&self, id: PipelineId) -> (r: Option<usize>)
        ensures
            match r {
                Some(i) => self@.pipeline_index(id) == Some(i as int) && i < self.pipelines->0.len(),
                None => self@.pipeline_index(id) is None,
            },
    {
        match &self.pipelines {
            None => None,
            Some(ps) => {
                let ghost s = pipelines_view(ps@);
                for i in 0..ps.len()
                    invariant
                        s == pipelines_view(ps@),
                        self.pipelines == Some(*ps),
                        forall|k: int| 0 <= k < i ==> !pipeline_has_id(id)(#[trigger] s[k]),
                {
                    if ps[i].id == id {
                        proof {
                            assert(s.len() == ps@.len());
                            lemma_first_match(s, pipeline_has_id(id), i as int);
                        }
                        return Some(i);
                    }
                }
                proof {
                    lemma_no_match(s, pipeline_has_id(id));
                }
                None
            },
        }
    }

    /// The first loaded pipeline with the given id.
    pub fn pipeline(&self, id: PipelineId) -> (r: Option<&Pipeline>)
        ensures
            match r {
                Some(p) => self@.pipeline(id) == Some(p@),
                None => self@.pipeline(id) is None,
            },
    {
        match self.pipeline_idx(id) {
            Some(i) => Some(&self.pipelines.as_ref().unwrap()[i]),
            None => None,
        }
    }

    /// Whether some loaded pipeline, or one of its jobs, is still going.
    pub fn has_active_pipelines(&self) -> (r: bool)
        ensures
            r == self@.active_pipelines(),
    {
        match &self.pipelines {
            None => false,
            Some(ps) => {
                let ghost s = pipelines_view(ps@);
                for i in 0..ps.len()
                    invariant
                        s == pipelines_view(ps@),
                        self.pipelines == Some(*ps),
                        forall|k: int| 0 <= k < i ==> !(#[trigger] s[k]).in_progress(),
                {
                    if ps[i].status.is_active() || ps[i].has_active_jobs() {
                        assert(s.len() == ps@.len());
                        assert(s[i as int].in_progress());
                        assert(self@.pipelines->0[i as int].in_progress());
                        return true;
                    }
                }
                false
            },
        }
    }

    /// When the project last saw activity.
    pub fn last_activity(&self) -> (r: i64)
        ensures
            r == self@.last_activity(),
    {
        match &self.pipelines {
            None => self.last_activity_at,
            Some(ps) => {
                let ghost s = pipelines_view(ps@);
                let mut latest = self.last_activity_at;
                for i in 0..ps.len()
                    invariant
                        s == pipelines_view(ps@),
                        self.pipelines == Some(*ps),
                        latest == latest_update(s.take(i as int), self.last_activity_at),
                {
                    assert(s.take(i + 1).drop_last() == s.take(i as int));
                    if latest < ps[i].updated_at {
                        latest = ps[i].updated_at;
                    }
                }
                assert(s.take(ps.len() as int) == s);
                latest
            },
        }
    }

    /// Replaces the loaded pipelines.
    pub fn update_pipelines(&mut self, pipelines: Vec<Pipeline>)
        ensures
            final(self)@ == (ProjectView { pipelines: Some(pipelines_view(pipelines@)), ..old(self)@ }),
    {
        self.pipelines = Some(pipelines);
    }

    /// Replaces the loaded jobs of pipeline `id`.
    pub fn update_jobs(&mut self, id: PipelineId, jobs: Vec<Job>)
        ensures
            final(self)@ == old(self)@.with_jobs(id, jobs_view(jobs@)),
    {
        match self.pipeline_idx(id) {
            None => {},
            Some(i) => {
                let mut ps = self.pipelines.take().unwrap();
                let mut p = ps[i].clone();
                p.jobs = Some(jobs);
                ps.set(i, p);
                self.pipelines = Some(ps);
                proof {
                    assert(pipelines_view(self.pipelines->0@) =~= old(self)@.pipelines->0.update(
                        i as int,
                        PipelineView { jobs: Some(jobs_view(jobs@)), ..old(self)@.pipelines->0[i as int] },
                    ));
                }
            },
        }
    }

    /// Records the commit of pipeline `id`.
    pub fn update_commit(&mut self, id: PipelineId, commit: Commit)
        ensures
            final(self)@ == old(self)@.with_commit(id, commit@),
    {
        match self.pipeline_idx(id) {
            None => {},
            Some(i) => {
                let mut ps = self.pipelines.take().unwrap();
                let mut p = ps[i].clone();
                p.commit = Some(commit);
                ps.set(i, p);
                self.pipelines = Some(ps);
                proof {
                    assert(pipelines_view(self.pipelines->0@) =~= old(self)@.pipelines->0.update(
                        i as int,
                        PipelineView { commit: Some(commit@), ..old(self)@.pipelines->0[i as int] },
                    ));
                }
            },
        }
    }

    /// Takes the fields of `other`, keeping the pipelines already loaded here.
    pub fn update_project(&mut self, other: Project)
        ensures
            final(self)@ == old(self)@.updated_from(other@),
    {
        let pipelines = self.pipelines.take();
        *self = Project { pipelines, ..other };
    }
}

/// A comment on a merge request.
pub struct MrNote {
    pub author_username: String,
    pub body: String,
    /// Seconds since the epoch.
    pub created_at: Option<i64>,
    pub is_atlantis: bool,
}

pub struct MrNoteView {
    pub author_username: Seq<char>,
    pub body: Seq<char>,
    pub created_at: Option<i64>,
    pub is_atlantis: bool,
}

impl View for MrNote {
    type V = MrNoteView;

    open spec fn view(&self) -> MrNoteView {
        MrNoteView {
            author_username: self.author_username@,
            body: self.body@,
            created_at: self.created_at,
            is_atlantis: self.is_atlantis,
        }
    }
}

impl Clone for MrNote {
    fn clone(&self) -> (r: Self)
        ensures
            r@ == self@,
    {
        MrNote {
            author_username: self.author_username.clone(),
            body: self.body.clone(),
            created_at: self.created_at,
            is_atlantis: self.is_atlantis,
        }
    }
}

pub open spec fn notes_view(v: Seq<MrNote>) -> Seq<MrNoteView> {
    v.map_values(|n: MrNote| n@)
}

pub fn clone_notes(v: &Vec<MrNote>) -> (r: Vec<MrNote>)
    ensures
        notes_view(r@) == notes_view(v@),
{
    let mut r: Vec<MrNote> = Vec::new();
    for i in 0..v.len()
        invariant
            r.len() == i,
            notes_view(r@) == notes_view(v@.take(i as int)),
    {
        let ghost old_r = r@;
        let c = v[i].clone();
        r.push(c);
        assert forall|k: int| 0 <= k < r@.len() implies notes_view(r@)[k] == notes_view(
            v@.take(i + 1),
        )[k] by {
            if k < i {
                assert(notes_view(old_r)[k] == notes_view(v@.take(i as int))[k]);
            }
        }
        assert(notes_view(r@) =~= notes_view(v@.take(i + 1)));
    }
    assert(v@.take(v.len() as int) == v@);
    r
}

/// A merge request with its comments.
pub struct MrView {
    pub iid: MrIid,
    pub title: String,
    pub state: String,
    pub author_username: String,
    pub web_url: String,
    pub notes: Vec<MrNote>,
}

pub struct MrViewModel {
    pub iid: MrIid,
    pub title: Seq<char>,
    pub state: Seq<char>,
    pub author_username: Seq<char>,
    pub web_url: Seq<char>,
    pub notes: Seq<MrNoteView>,
}

impl View for MrView {
    type V = MrViewModel;

    open spec fn view(&self) -> MrViewModel {
        MrViewModel {
            iid: self.iid,
            title: self.title@,
            state: self.state@,
            author_username: self.author_username@,
            web_url: self.web_url@,
            notes: notes_view(self.notes@),
        }
    }
}

impl Clone for MrView {
    fn clone(&self) -> (r: Self)
        ensures
            r@ == self@,
    {
        MrView {
            iid: self.iid,
            title: self.title.clone(),
            state: self.state.clone(),
            author_username: self.author_username.clone(),
            web_url: self.web_url.clone(),
            notes: clone_notes(&self.notes),
        }
    }
}

pub open spec fn projects_view(v: Seq<Project>) -> Seq<ProjectView> {
    v.map_values(|p: Project| p@)
}

pub fn clone_projects(v: &Vec<Project>) -> (r: Vec<Project>)
    ensures
        projects_view(r@) == projects_view(v@),
{
    let mut r: Vec<Project> = Vec::new();
    for i in 0..v.len()
        invariant
            r.len() == i,
            projects_view(r@) == projects_view(v@.take(i as int)),
    {
        let ghost old_r = r@;
        let c = v[i].clone();
        r.push(c);
        assert forall|k: int| 0 <= k < r@.len() implies projects_view(r@)[k] == projects_view(
            v@.take(i + 1),
        )[k] by {
            if k < i {
                assert(projects_view(old_r)[k] == projects_view(v@.take(i as int))[k]);
            }
        }
        assert(projects_view(r@) =~= projects_view(v@.take(i + 1)));
    }
    assert(v@.take(v.len() as int) == v@);
    r
}

} // verus!
