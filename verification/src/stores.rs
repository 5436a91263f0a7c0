use vstd::prelude::*;
use std::collections::HashMap;
use crate::domain::{
    jobs_view, pipelines_view, projects_view, JobView, Pipeline, PipelineView, Project, ProjectView,
};
use crate::event::{events_view, lemma_events_push, GlimEvent, GlimEventView};
use crate::glim_app::{error_message, error_text, LogLevel};
use crate::event::{GlimError, GlimErrorView};
use crate::domain::opt_string_view;
use crate::id::{MrIid, PipelineId, ProjectId};
use crate::text::{decimal, decimal_text};
use vstd::utf8::encode_utf8;
use crate::seqs::{first_match, is_first_match, lemma_first_match, lemma_no_match, lemma_none_means_no_match};

verus! {

broadcast use vstd::std_specs::hash::group_hash_axioms, crate::id::group_ids;

/// A project view has the given id.
pub open spec fn project_has_id(id: ProjectId) -> spec_fn(ProjectView) -> bool {
    |p: ProjectView| p.id == id
}

/// Position of the project with the given id.
pub open spec fn index_of(ps: Seq<ProjectView>, id: ProjectId) -> Option<int> {
    first_match(ps, project_has_id(id))
}

/// Project `i` comes before project `j` when it saw activity more recently, or as
/// recently and stands earlier.
pub open spec fn activity_before(ps: Seq<ProjectView>, i: int, j: int) -> bool {
    ps[i].last_activity() > ps[j].last_activity() || (ps[i].last_activity()
        == ps[j].last_activity() && i < j)
}

/// `ord` lists every position of `ps` once, most recent activity first, ties in their
/// order of the list.
pub open spec fn is_activity_order(ps: Seq<ProjectView>, ord: Seq<int>) -> bool {
    &&& ord.len() == ps.len()
    &&& forall|k: int| 0 <= k < ord.len() ==> 0 <= #[trigger] ord[k] < ps.len()
    &&& ord.no_duplicates()
    &&& forall|a: int, b: int|
        0 <= a < b < ord.len() ==> activity_before(ps, #[trigger] ord[a], #[trigger] ord[b])
}

/// `out` holds the projects of `ps`, most recent activity first; projects with the same
/// activity keep their order.
pub open spec fn sorted_by_activity(ps: Seq<ProjectView>, out: Seq<ProjectView>) -> bool {
    exists|ord: Seq<int>|
        #[trigger] is_activity_order(ps, ord) && out.len() == ord.len() && forall|k: int|
            0 <= k < out.len() ==> out[k] == ps[#[trigger] ord[k]]
}

/// Lexicographic order on pairs.
pub open spec fn pair_le(a: (i128, usize), b: (i128, usize)) -> bool {
    a.0 < b.0 || (a.0 == b.0 && a.1 <= b.1)
}

/// Sorts pairs in ascending lexicographic order.
///
/// Calls `itertools::Itertools::sorted`, which sorts all elements into ascending order
/// (by `Ord`, lexicographic on tuples). The contract claims that the result holds the
/// same elements and is in ascending order.
#[verifier::external_body]
fn sorted_pairs(v: Vec<(i128, usize)>) -> (r: Vec<(i128, usize)>)
    ensures
        r@.to_multiset() == v@.to_multiset(),
        forall|a: int, b: int| 0 <= a < b < r@.len() ==> pair_le(r@[a], r@[b]),
{
    itertools::Itertools::sorted(v.into_iter()).collect()
}

/// A project last active at `t` counts as older than a week at time `now` when more
/// than seven whole days lie between them.
pub open spec fn older_than_week(now: i64, t: i64) -> bool {
    now - t >= 8 * 86400
}

/// Whether more than seven whole days lie between `date` and `now`.
pub fn is_older_than_7d(now: i64, date: i64) -> (r: bool)
    ensures
        r == older_than_week(now, date),
{
    (now as i128) - (date as i128) >= 691200
}

/// The project with an empty, loaded list of pipelines.
pub open spec fn with_empty_pipelines(p: ProjectView) -> ProjectView {
    ProjectView { pipelines: Some(Seq::empty()), ..p }
}

/// The loaded pipelines of a project, or none.
pub open spec fn loaded_pipelines(p: ProjectView) -> Seq<PipelineView> {
    match p.pipelines {
        Some(ps) => ps,
        None => Seq::empty(),
    }
}

/// Job requests for the pipelines of project `pid` whose jobs are not loaded yet, in order.
pub open spec fn missing_jobs_requests(pid: ProjectId, ps: Seq<PipelineView>) -> Seq<GlimEventView>
    decreases ps.len(),
{
    if ps.len() == 0 {
        Seq::empty()
    } else {
        let prev = missing_jobs_requests(pid, ps.drop_last());
        if ps.last().jobs is None {
            prev.push(GlimEventView::JobsFetch(pid, ps.last().id))
        } else {
            prev
        }
    }
}

/// Job requests for the pipelines of project `pid` that are still going, in order.
pub open spec fn active_jobs_requests(pid: ProjectId, ps: Seq<PipelineView>) -> Seq<GlimEventView>
    decreases ps.len(),
{
    if ps.len() == 0 {
        Seq::empty()
    } else {
        let prev = active_jobs_requests(pid, ps.drop_last());
        if ps.last().in_progress() {
            prev.push(GlimEventView::JobsFetch(pid, ps.last().id))
        } else {
            prev
        }
    }
}

/// Merges one received project into the store: a known project takes the new fields and
/// has its pipelines requested; a new one is appended and, unless it has been idle for
/// more than a week, gets an empty pipeline list and a pipeline request; an idle new one
/// requests nothing.
pub open spec fn sync_one(ps: Seq<ProjectView>, p: ProjectView, now: i64) -> (
    Seq<ProjectView>,
    Seq<GlimEventView>,
) {
    match index_of(ps, p.id) {
        Some(i) => (ps.update(i, ps[i].updated_from(p)), seq![GlimEventView::PipelinesFetch(p.id)]),
        None => if older_than_week(now, p.last_activity()) {
            (ps.push(p), Seq::empty())
        } else {
            (ps.push(with_empty_pipelines(p)), seq![GlimEventView::PipelinesFetch(p.id)])
        },
    }
}

/// Merges the received projects one after the other, announcing each as it came right
/// after merging it.
pub open spec fn sync_all(ps: Seq<ProjectView>, incoming: Seq<ProjectView>, now: i64) -> (
    Seq<ProjectView>,
    Seq<GlimEventView>,
)
    decreases incoming.len(),
{
    if incoming.len() == 0 {
        (ps, Seq::empty())
    } else {
        let prev = sync_all(ps, incoming.drop_last(), now);
        let step = sync_one(prev.0, incoming.last(), now);
        (step.0, prev.1 + step.1 + seq![GlimEventView::ProjectUpdated(incoming.last())])
    }
}

/// The project after jobs for pipeline `plid` arrived: the jobs replace the loaded ones,
/// and the commit of the first job, if it has one, becomes the pipeline's commit.
pub open spec fn with_loaded_jobs(p: ProjectView, plid: PipelineId, jobs: Seq<JobView>) -> ProjectView {
    let p1 = p.with_jobs(plid, jobs);
    if jobs.len() > 0 && jobs[0].commit is Some {
        p1.with_commit(plid, jobs[0].commit->0)
    } else {
        p1
    }
}

/// What the store does with an event: `new` is the store afterwards, `out` the events it
/// sends, `now` the time of the call in seconds.
#[verifier::opaque]
pub open spec fn store_transition(
    old: StoreView,
    e: GlimEventView,
    now: i64,
    new: StoreView,
    out: Seq<GlimEventView>,
) -> bool {
    let ps = old.projects;
    match e {
        GlimEventView::ProjectDetailsOpen(id) => {
            &&& new == old
            &&& out == match index_of(ps, id) {
                Some(i) => missing_jobs_requests(id, ps[i].recent_pipelines()),
                None => Seq::empty(),
            }
        },
        GlimEventView::ProjectsLoaded(incoming) => {
            let synced = sync_all(ps, incoming, now);
            &&& new.projects == synced.0
            &&& new.received == old.received.union(received_ids(incoming))
            &&& sorted_by_activity(new.projects, new.sorted)
            &&& out == if old.sorted.len() == 0 && new.sorted.len() > 0 {
                synced.1.push(GlimEventView::ProjectSelected(new.sorted[0].id))
            } else {
                synced.1
            }
        },
        GlimEventView::PipelinesLoaded(pls) => if pls.len() == 0 {
            new == old && out == Seq::<GlimEventView>::empty()
        } else {
            let pid = pls[0].project_id;
            &&& match index_of(ps, pid) {
                Some(i) => {
                    let p2 = ProjectView { pipelines: Some(pls), ..ps[i] };
                    &&& new.projects == ps.update(i, p2)
                    &&& out == active_jobs_requests(pid, pls).push(GlimEventView::ProjectUpdated(p2))
                },
                None => new.projects == ps && out == Seq::<GlimEventView>::empty(),
            }
            &&& sorted_by_activity(new.projects, new.sorted)
            &&& new.received == old.received
        },
        GlimEventView::JobsLoaded(pid, plid, jobs) => {
            &&& match index_of(ps, pid) {
                Some(i) => {
                    let p2 = with_loaded_jobs(ps[i], plid, jobs);
                    &&& new.projects == ps.update(i, p2)
                    &&& out == seq![GlimEventView::ProjectUpdated(p2)]
                },
                None => new.projects == ps && out == Seq::<GlimEventView>::empty(),
            }
            &&& sorted_by_activity(new.projects, new.sorted)
            &&& new.received == old.received
        },
        GlimEventView::ProjectSelected(id) => {
            &&& new.sorted == old.sorted
            &&& new.received == old.received
            &&& match index_of(ps, id) {
                Some(i) => if ps[i].pipelines is None {
                    &&& new.projects == ps.update(i, with_empty_pipelines(ps[i]))
                    &&& out == seq![GlimEventView::PipelinesFetch(id)]
                } else {
                    new.projects == ps && out == Seq::<GlimEventView>::empty()
                },
                None => new.projects == ps && out == Seq::<GlimEventView>::empty(),
            }
        },
        _ => new == old && out == Seq::<GlimEventView>::empty(),
    }
}

/// Some project of `ps` has the id.
pub open spec fn known(ps: Seq<ProjectView>, id: ProjectId) -> bool {
    exists|i: int| 0 <= i < ps.len() && #[trigger] ps[i].id == id
}

/// A project with the id is found exactly when one is there.
pub proof fn lemma_index_of_known(ps: Seq<ProjectView>, id: ProjectId)
    ensures
        index_of(ps, id) is Some <==> known(ps, id),
{
    if known(ps, id) {
        let i = choose|i: int| 0 <= i < ps.len() && #[trigger] ps[i].id == id;
        crate::seqs::lemma_match_gives_first(ps, project_has_id(id), i);
    }
    if index_of(ps, id) is Some {
        let i = choose|i: int| is_first_match(ps, project_has_id(id), i);
        assert(ps[i].id == id);
    }
}

proof fn lemma_sync_one_known(ps: Seq<ProjectView>, p: ProjectView, now: i64)
    ensures
        forall|id: ProjectId| known(ps, id) ==> #[trigger] known(sync_one(ps, p, now).0, id),
        known(sync_one(ps, p, now).0, p.id),
{
    let r = sync_one(ps, p, now).0;
    match index_of(ps, p.id) {
        Some(i) => {
            let j = choose|j: int| is_first_match(ps, project_has_id(p.id), j);
            assert(r[i].id == p.id);
            assert forall|id: ProjectId| known(ps, id) implies #[trigger] known(r, id) by {
                let k = choose|k: int| 0 <= k < ps.len() && #[trigger] ps[k].id == id;
                assert(r[k].id == id);
            }
        },
        None => {
            assert(r[ps.len() as int].id == p.id);
            assert forall|id: ProjectId| known(ps, id) implies #[trigger] known(r, id) by {
                let k = choose|k: int| 0 <= k < ps.len() && #[trigger] ps[k].id == id;
                assert(r[k].id == id);
            }
        },
    }
}

proof fn lemma_sync_all_known(ps: Seq<ProjectView>, incoming: Seq<ProjectView>, now: i64)
    ensures
        forall|id: ProjectId| known(ps, id) ==> #[trigger] known(sync_all(ps, incoming, now).0, id),
        forall|k: int| 0 <= k < incoming.len() ==> known(sync_all(ps, incoming, now).0, #[trigger] incoming[k].id),
    decreases incoming.len(),
{
    if incoming.len() > 0 {
        let init = incoming.drop_last();
        lemma_sync_all_known(ps, init, now);
        let prev = sync_all(ps, init, now).0;
        lemma_sync_one_known(prev, incoming.last(), now);
        assert forall|k: int| 0 <= k < incoming.len() implies known(
            sync_all(ps, incoming, now).0,
            #[trigger] incoming[k].id,
        ) by {
            if k < incoming.len() - 1 {
                assert(init[k] == incoming[k]);
                assert(known(prev, init[k].id));
            }
        }
    }
}

/// Loading projects loses none: every project known before is found afterwards, and so is
/// every project received.
pub proof fn law_loading_keeps_and_adds(ps: Seq<ProjectView>, incoming: Seq<ProjectView>, now: i64)
    ensures
        forall|id: ProjectId|
            index_of(ps, id) is Some ==> (#[trigger] index_of(sync_all(ps, incoming, now).0, id)) is Some,
        forall|k: int|
            0 <= k < incoming.len() ==> index_of(sync_all(ps, incoming, now).0, #[trigger] incoming[k].id) is Some,
{
    let r = sync_all(ps, incoming, now).0;
    lemma_sync_all_known(ps, incoming, now);
    assert forall|id: ProjectId| index_of(ps, id) is Some implies (#[trigger] index_of(r, id)) is Some by {
        lemma_index_of_known(ps, id);
        lemma_index_of_known(r, id);
    }
    assert forall|k: int| 0 <= k < incoming.len() implies index_of(r, #[trigger] incoming[k].id) is Some by {
        lemma_index_of_known(r, incoming[k].id);
    }
}

/// `p` is one of the projects in `out`.
pub open spec fn listed_project(out: Seq<ProjectView>, p: ProjectView) -> bool {
    exists|k: int| 0 <= k < out.len() && out[k] == p
}

/// The ordered copy holds every project once, most recent activity first: it is as long as
/// the projects, each project is in it, and no project is more recently active than one
/// ahead of it.
pub proof fn law_sorted_projects_permute_in_activity_order(ps: Seq<ProjectView>, out: Seq<ProjectView>)
    requires
        sorted_by_activity(ps, out),
    ensures
        out.len() == ps.len(),
        forall|i: int| 0 <= i < ps.len() ==> #[trigger] listed_project(out, ps[i]),
        forall|a: int, b: int|
            0 <= a < b < out.len() ==> (#[trigger] out[a]).last_activity() >= (#[trigger] out[b]).last_activity(),
{
    let ord = choose|ord: Seq<int>|
        #[trigger] is_activity_order(ps, ord) && out.len() == ord.len() && forall|k: int|
            0 <= k < out.len() ==> out[k] == ps[#[trigger] ord[k]];
    let n = ps.len() as int;
    assert forall|i: int| 0 <= i < ps.len() implies #[trigger] listed_project(out, ps[i]) by {
        ord.unique_seq_to_set();
        vstd::set_lib::lemma_int_range(0, n);
        assert(ord.to_set().subset_of(vstd::set_lib::set_int_range(0, n))) by {
            assert forall|x: int| ord.to_set().contains(x) implies vstd::set_lib::set_int_range(0, n).contains(x) by {
                let k = choose|k: int| 0 <= k < ord.len() && ord[k] == x;
                assert(0 <= ord[k] < n);
            }
        }
        vstd::set_lib::lemma_len_subset(ord.to_set(), vstd::set_lib::set_int_range(0, n));
        vstd::set_lib::lemma_subset_equality(ord.to_set(), vstd::set_lib::set_int_range(0, n));
        assert(vstd::set_lib::set_int_range(0, n).contains(i));
        assert(ord.to_set().contains(i));
        let k = choose|k: int| 0 <= k < ord.len() && ord[k] == i;
        assert(out[k] == ps[ord[k]]);
    }
    assert forall|a: int, b: int| 0 <= a < b < out.len() implies (#[trigger] out[a]).last_activity() >= (
    #[trigger] out[b]).last_activity() by {
        assert(activity_before(ps, ord[a], ord[b]));
        assert(out[a] == ps[ord[a]]);
        assert(out[b] == ps[ord[b]]);
    }
}

/// Some received project has the id.
pub open spec fn received(incoming: Seq<ProjectView>, id: ProjectId) -> bool {
    exists|k: int| 0 <= k < incoming.len() && #[trigger] incoming[k].id == id
}

proof fn lemma_sync_all_only_received(ps: Seq<ProjectView>, incoming: Seq<ProjectView>, now: i64, id: ProjectId)
    requires
        known(sync_all(ps, incoming, now).0, id),
    ensures
        known(ps, id) || received(incoming, id),
    decreases incoming.len(),
{
    if incoming.len() > 0 {
        let init = incoming.drop_last();
        let prev = sync_all(ps, init, now).0;
        let p = incoming.last();
        let r = sync_one(prev, p, now).0;
        let j = choose|j: int| 0 <= j < r.len() && #[trigger] r[j].id == id;
        if j < prev.len() {
            match index_of(prev, p.id) {
                Some(i) => {
                    if j == i {
                        assert(incoming[incoming.len() - 1].id == id);
                    } else {
                        assert(prev[j].id == id);
                        lemma_sync_all_only_received(ps, init, now, id);
                    }
                },
                None => {
                    assert(prev[j].id == id);
                    lemma_sync_all_only_received(ps, init, now, id);
                },
            }
            if received(init, id) {
                let k = choose|k: int| 0 <= k < init.len() && #[trigger] init[k].id == id;
                assert(incoming[k].id == id);
            }
        } else {
            assert(incoming[incoming.len() - 1].id == id);
        }
    }
}

/// Only received projects are ever found: a project known after an event was known before
/// or came with the projects that the event delivered.
pub proof fn law_only_received_projects_known(
    old: StoreView,
    e: GlimEventView,
    now: i64,
    new: StoreView,
    out: Seq<GlimEventView>,
    id: ProjectId,
)
    requires
        store_transition(old, e, now, new, out),
        index_of(new.projects, id) is Some,
    ensures
        index_of(old.projects, id) is Some || (e matches GlimEventView::ProjectsLoaded(incoming) && received(
            incoming,
            id,
        )),
{
    reveal(store_transition);
    lemma_index_of_known(new.projects, id);
    lemma_index_of_known(old.projects, id);
    let ps = old.projects;
    let j = choose|j: int| 0 <= j < new.projects.len() && #[trigger] new.projects[j].id == id;
    match e {
        GlimEventView::ProjectsLoaded(incoming) => {
            lemma_sync_all_only_received(ps, incoming, now, id);
        },
        _ => {
            assert(new.projects.len() == ps.len());
            assert(ps[j].id == id);
        },
    }
}

/// The received ids after an event: loading projects adds theirs.
pub open spec fn received_after(r: Set<ProjectId>, e: GlimEventView) -> Set<ProjectId> {
    match e {
        GlimEventView::ProjectsLoaded(incoming) => r.union(received_ids(incoming)),
        _ => r,
    }
}

/// Every event keeps the found projects exactly the received ones.
proof fn lemma_history(old: StoreView, e: GlimEventView, now: i64, new: StoreView, out: Seq<GlimEventView>)
    requires
        store_transition(old, e, now, new, out),
        forall|id: ProjectId|
            #![trigger known(old.projects, id)]
            #![trigger old.received.contains(id)]
            known(old.projects, id) <==> old.received.contains(id),
    ensures
        forall|id: ProjectId|
            #![trigger known(new.projects, id)]
            #![trigger new.received.contains(id)]
            known(new.projects, id) <==> new.received.contains(id),
{
    assert forall|id: ProjectId| known(new.projects, id) <==> new.received.contains(id) by {
        lemma_index_of_known(new.projects, id);
        lemma_index_of_known(old.projects, id);
        if known(new.projects, id) {
            law_only_received_projects_known(old, e, now, new, out, id);
        }
        reveal(store_transition);
        let ps = old.projects;
        match e {
            GlimEventView::ProjectsLoaded(incoming) => {
                lemma_sync_all_known(ps, incoming, now);
                if received(incoming, id) {
                    let k = choose|k: int| 0 <= k < incoming.len() && #[trigger] incoming[k].id == id;
                    assert(known(new.projects, incoming[k].id));
                }
            },
            _ => {
                if known(ps, id) {
                    let j = choose|j: int| 0 <= j < ps.len() && #[trigger] ps[j].id == id;
                    assert(new.projects[j].id == id);
                }
            },
        }
    }
}

/// A pipeline whose jobs are not loaded yet.
pub open spec fn jobs_missing() -> spec_fn(PipelineView) -> bool {
    |p: PipelineView| p.jobs is None
}

/// The request for the jobs of a pipeline of project `pid`.
pub open spec fn jobs_fetch_of(pid: ProjectId) -> spec_fn(PipelineView) -> GlimEventView {
    |p: PipelineView| GlimEventView::JobsFetch(pid, p.id)
}

proof fn lemma_missing_jobs_filter(pid: ProjectId, ps: Seq<PipelineView>)
    ensures
        missing_jobs_requests(pid, ps) == ps.filter(jobs_missing()).map_values(jobs_fetch_of(pid)),
    decreases ps.len(),
{
    let g = jobs_fetch_of(pid);
    reveal(Seq::filter);
    if ps.len() == 0 {
        assert(ps.filter(jobs_missing()).map_values(g) =~= Seq::<GlimEventView>::empty());
    } else {
        lemma_missing_jobs_filter(pid, ps.drop_last());
        let f = ps.drop_last().filter(jobs_missing());
        if ps.last().jobs is None {
            assert(ps.filter(jobs_missing()) == f.push(ps.last()));
            assert(f.push(ps.last()).map_values(g) =~= f.map_values(g).push(g(ps.last())));
        } else {
            assert(ps.filter(jobs_missing()) == f);
        }
    }
}

proof fn lemma_missing_jobs_cover(pid: ProjectId, ps: Seq<PipelineView>, k: int)
    requires
        0 <= k < ps.len(),
        ps[k].jobs is None,
    ensures
        missing_jobs_requests(pid, ps).contains(GlimEventView::JobsFetch(pid, ps[k].id)),
    decreases ps.len(),
{
    let prev = missing_jobs_requests(pid, ps.drop_last());
    if k == ps.len() - 1 {
        assert(missing_jobs_requests(pid, ps).last() == GlimEventView::JobsFetch(pid, ps[k].id));
    } else {
        assert(ps.drop_last()[k] == ps[k]);
        lemma_missing_jobs_cover(pid, ps.drop_last(), k);
        let j = choose|j: int| 0 <= j < prev.len() && prev[j] == GlimEventView::JobsFetch(pid, ps[k].id);
        if ps.last().jobs is None {
            assert(missing_jobs_requests(pid, ps)[j] == prev[j]);
        }
    }
}

proof fn lemma_missing_jobs_only(pid: ProjectId, ps: Seq<PipelineView>, j: int)
    requires
        0 <= j < missing_jobs_requests(pid, ps).len(),
    ensures
        exists|k: int|
            0 <= k < ps.len() && ps[k].jobs is None && missing_jobs_requests(pid, ps)[j]
                == GlimEventView::JobsFetch(pid, #[trigger] ps[k].id),
    decreases ps.len(),
{
    let prev = missing_jobs_requests(pid, ps.drop_last());
    if j < prev.len() {
        lemma_missing_jobs_only(pid, ps.drop_last(), j);
        let k = choose|k: int|
            0 <= k < ps.drop_last().len() && ps.drop_last()[k].jobs is None && prev[j]
                == GlimEventView::JobsFetch(pid, #[trigger] ps.drop_last()[k].id);
        assert(ps[k] == ps.drop_last()[k]);
        assert(missing_jobs_requests(pid, ps)[j] == prev[j]);
    } else {
        assert(ps[ps.len() - 1].jobs is None);
    }
}

/// Opening a project's details requests the jobs of every recent pipeline whose jobs are
/// not loaded, one request per such pipeline in their order, and nothing else; the store
/// is unchanged.
pub proof fn law_details_request_every_missing_job(
    old: StoreView,
    id: ProjectId,
    now: i64,
    new: StoreView,
    out: Seq<GlimEventView>,
)
    requires
        store_transition(old, GlimEventView::ProjectDetailsOpen(id), now, new, out),
    ensures
        new == old,
        index_of(old.projects, id) is None ==> out.len() == 0,
        index_of(old.projects, id) matches Some(i) ==> {
            let pls = old.projects[i].recent_pipelines();
            &&& out == pls.filter(jobs_missing()).map_values(jobs_fetch_of(id))
            &&& forall|k: int|
                0 <= k < pls.len() && (#[trigger] pls[k]).jobs is None ==> out.contains(
                    GlimEventView::JobsFetch(id, pls[k].id),
                )
            &&& forall|j: int|
                0 <= j < out.len() ==> exists|k: int|
                    0 <= k < pls.len() && pls[k].jobs is None && #[trigger] out[j] == GlimEventView::JobsFetch(
                        id,
                        pls[k].id,
                    )
        },
{
    reveal(store_transition);
    if let Some(i) = index_of(old.projects, id) {
        let pls = old.projects[i].recent_pipelines();
        lemma_missing_jobs_filter(id, pls);
        assert forall|k: int| 0 <= k < pls.len() && (#[trigger] pls[k]).jobs is None implies out.contains(
            GlimEventView::JobsFetch(id, pls[k].id),
        ) by {
            lemma_missing_jobs_cover(id, pls, k);
        }
        assert forall|j: int| 0 <= j < out.len() implies exists|k: int|
            0 <= k < pls.len() && pls[k].jobs is None && #[trigger] out[j] == GlimEventView::JobsFetch(
                id,
                pls[k].id,
            ) by {
            lemma_missing_jobs_only(id, pls, j);
        }
    }
}

/// No project is more recently active than one ahead of it.
pub open spec fn activity_ordered(s: Seq<ProjectView>) -> bool {
    forall|a: int, b: int| 0 <= a < b < s.len() ==> (#[trigger] s[a]).last_activity() >= (#[trigger] s[b]).last_activity()
}

/// Every event keeps the ordered copy of the projects in activity order.
pub proof fn law_sorted_stays_ordered(old: StoreView, e: GlimEventView, now: i64, new: StoreView, out: Seq<GlimEventView>)
    requires
        activity_ordered(old.sorted),
        store_transition(old, e, now, new, out),
    ensures
        activity_ordered(new.sorted),
{
    reveal(store_transition);
    match e {
        GlimEventView::ProjectsLoaded(_) | GlimEventView::JobsLoaded(_, _, _) => {
            law_sorted_projects_permute_in_activity_order(new.projects, new.sorted);
        },
        GlimEventView::PipelinesLoaded(pls) => {
            if pls.len() > 0 {
                law_sorted_projects_permute_in_activity_order(new.projects, new.sorted);
            }
        },
        _ => {},
    }
}

pub struct StoreView {
    pub projects: Seq<ProjectView>,
    pub sorted: Seq<ProjectView>,
    /// The ids of all projects received so far.
    pub received: Set<ProjectId>,
}

/// The ids of the received projects.
pub open spec fn received_ids(incoming: Seq<ProjectView>) -> Set<ProjectId> {
    Set::new(|id: ProjectId| received(incoming, id))
}

/// The loaded projects, looked up by id, and a copy of them ordered by activity.
pub struct ProjectStore {
    projects: Vec<Project>,
    project_id_lookup: HashMap<u64, usize>,
    sorted: Vec<Project>,
    received: Ghost<Set<ProjectId>>,
}

impl View for ProjectStore {
    type V = StoreView;

    closed spec fn view(&self) -> StoreView {
        StoreView {
            projects: projects_view(self.projects@),
            sorted: projects_view(self.sorted@),
            received: self.received@,
        }
    }
}

impl ProjectStore {
    /// The store is well formed, and exactly the projects received so far are found.
    pub closed spec fn wf(&self) -> bool {
        &&& self.indexed()
        &&& forall|id: ProjectId|
            #![trigger known(self@.projects, id)]
            #![trigger self@.received.contains(id)]
            known(self@.projects, id) <==> self@.received.contains(id)
    }

    /// The lookup table indexes exactly the stored projects, and the ordered copy is in
    /// activity order.
    closed spec fn indexed(&self) -> bool {
        &&& forall|i: int|
            0 <= i < self.projects@.len() ==> {
                &&& #[trigger] self.project_id_lookup@.contains_key(self.projects@[i].id.id())
                &&& self.project_id_lookup@[self.projects@[i].id.id()] == i
            }
        &&& forall|k: u64| #[trigger]
            self.project_id_lookup@.contains_key(k) ==> {
                &&& self.project_id_lookup@[k] < self.projects@.len()
                &&& self.projects@[self.project_id_lookup@[k] as int].id.id() == k
            }
        &&& activity_ordered(projects_view(self.sorted@))
    }

    /// Ids are unique in a well-formed store.
    pub proof fn lemma_unique_ids(&self)
        requires
            self.wf(),
        ensures
            forall|i: int, j: int|
                0 <= i < j < self@.projects.len() ==> #[trigger] self@.projects[i].id
                    != #[trigger] self@.projects[j].id,
    {
        assert forall|i: int, j: int|
            0 <= i < j < self@.projects.len() implies #[trigger] self@.projects[i].id
            != #[trigger] self@.projects[j].id by {
            assert(self.project_id_lookup@.contains_key(self.projects@[i].id.id()));
            assert(self.project_id_lookup@.contains_key(self.projects@[j].id.id()));
        }
    }

    pub fn new() -> (r: Self)
        ensures
            r.wf(),
            r@.projects == Seq::<ProjectView>::empty(),
            r@.sorted == Seq::<ProjectView>::empty(),
            r@.received == Set::<ProjectId>::empty(),
    {
        let r = ProjectStore {
            projects: Vec::new(),
            project_id_lookup: HashMap::new(),
            sorted: Vec::new(),
            received: Ghost(Set::empty()),
        };
        assert(r@.projects =~= Seq::<ProjectView>::empty());
        assert(r@.sorted =~= Seq::<ProjectView>::empty());
        r
    }

    fn project_idx(&self, id: ProjectId) -> (r: Option<usize>)
        requires
            self.indexed(),
        ensures
            match r {
                Some(i) => index_of(self@.projects, id) == Some(i as int) && i < self.projects.len(),
                None => index_of(self@.projects, id) is None,
            },
    {
        let k = id.value();
        match self.project_id_lookup.get(&k) {
            Some(i) => {
                let i = *i;
                proof {
                    let ps = self@.projects;
                    assert(ps[i as int].id == id);
                    assert forall|j: int| 0 <= j < i implies !project_has_id(id)(#[trigger] ps[j]) by {
                        if ps[j].id == id {
                            assert(self.project_id_lookup@.contains_key(self.projects@[j].id.id()));
                        }
                    }
                    lemma_first_match(ps, project_has_id(id), i as int);
                }
                Some(i)
            },
            None => {
                proof {
                    let ps = self@.projects;
                    assert forall|j: int| 0 <= j < ps.len() implies !project_has_id(id)(#[trigger] ps[j]) by {
                        if ps[j].id == id {
                            assert(self.project_id_lookup@.contains_key(self.projects@[j].id.id()));
                        }
                    }
                    lemma_no_match(ps, project_has_id(id));
                }
                None
            },
        }
    }

    /// The project with the given id; one is found exactly when a project with that id
    /// was received.
    pub fn find(&self, id: ProjectId) -> (r: Option<&Project>)
        requires
            self.wf(),
        ensures
            r is Some <==> self@.received.contains(id),
            match r {
                Some(p) => index_of(self@.projects, id) matches Some(i) && p@ == self@.projects[i],
                None => index_of(self@.projects, id) is None,
            },
    {
        proof {
            lemma_index_of_known(self@.projects, id);
        }
        match self.project_idx(id) {
            Some(i) => Some(&self.projects[i]),
            None => None,
        }
    }

    /// The projects, most recent activity first, as ordered when data last arrived.
    pub fn sorted_projects(&self) -> (r: &[Project])
        ensures
            projects_view(r@) == self@.sorted,
            self.wf() ==> activity_ordered(projects_view(r@)),
    {
        self.sorted.as_slice()
    }

    /// Requests the jobs of every recent pipeline of `project` whose jobs are missing.
    fn request_missing_jobs(project: &Project, out: &mut Vec<GlimEvent>)
        ensures
            events_view(final(out)@) == events_view(old(out)@) + missing_jobs_requests(
                project.id,
                project@.recent_pipelines(),
            ),
    {
        let ghost base = events_view(out@);
        match &project.pipelines {
            None => {
                assert(events_view(out@) =~= base + Seq::<GlimEventView>::empty());
            },
            Some(ps) => {
                let ghost s = pipelines_view(ps@);
                assert(s.take(0) =~= Seq::<PipelineView>::empty());
                assert(events_view(out@) =~= base + missing_jobs_requests(project.id, s.take(0)));
                for i in 0..ps.len()
                    invariant
                        s == pipelines_view(ps@),
                        events_view(out@) == base + missing_jobs_requests(project.id, s.take(i as int)),
                {
                    assert(s.take(i + 1).drop_last() =~= s.take(i as int));
                    assert(s.take(i + 1).last() == s[i as int]);
                    if ps[i].jobs.is_none() {
                        let e = GlimEvent::JobsFetch(project.id, ps[i].id);
                        proof {
                            lemma_events_push(out@, e);
                        }
                        out.push(e);
                        assert(events_view(out@) =~= base + missing_jobs_requests(project.id, s.take(i + 1)));
                    }
                }
                assert(s.take(ps.len() as int) =~= s);
            },
        }
    }

    /// Requests the jobs of every pipeline in `pls` that is still going.
    fn request_active_jobs(pid: ProjectId, pls: &Vec<Pipeline>, out: &mut Vec<GlimEvent>)
        ensures
            events_view(final(out)@) == events_view(old(out)@) + active_jobs_requests(pid, pipelines_view(pls@)),
    {
        let ghost base = events_view(out@);
        let ghost s = pipelines_view(pls@);
        assert(s.take(0) =~= Seq::<PipelineView>::empty());
        assert(events_view(out@) =~= base + active_jobs_requests(pid, s.take(0)));
        for i in 0..pls.len()
            invariant
                s == pipelines_view(pls@),
                events_view(out@) == base + active_jobs_requests(pid, s.take(i as int)),
        {
            assert(s.take(i + 1).drop_last() =~= s.take(i as int));
            assert(s.take(i + 1).last() == s[i as int]);
            if pls[i].status.is_active() || pls[i].has_active_jobs() {
                let e = GlimEvent::JobsFetch(pid, pls[i].id);
                proof {
                    lemma_events_push(out@, e);
                }
                out.push(e);
                assert(events_view(out@) =~= base + active_jobs_requests(pid, s.take(i + 1)));
            }
        }
        assert(s.take(pls.len() as int) =~= s);
    }

    /// Merges one received project into the store.
    fn sync_project(&mut self, project: Project, now: i64, out: &mut Vec<GlimEvent>)
        requires
            old(self).indexed(),
        ensures
            final(self).indexed(),
            final(self)@.projects == sync_one(old(self)@.projects, project@, now).0,
            final(self)@.sorted == old(self)@.sorted,
            final(self)@.received == old(self)@.received,
            events_view(final(out)@) == events_view(old(out)@) + sync_one(old(self)@.projects, project@, now).1,
    {
        let ghost ps = self@.projects;
        let ghost base = events_view(out@);
        let ghost pv = project@;
        let id = project.id;
        match self.project_idx(id) {
            Some(i) => {
                let e = GlimEvent::PipelinesFetch(id);
                proof {
                    lemma_events_push(out@, e);
                }
                out.push(e);
                let mut existing = self.projects[i].clone();
                existing.update_project(project);
                self.projects.set(i, existing);
                proof {
                    assert(self@.projects =~= ps.update(i as int, ps[i as int].updated_from(pv)));
                    assert forall|j: int| 0 <= j < self.projects@.len() implies
                        self.projects@[j].id == old(self).projects@[j].id by {}
                }
            },
            None => {
                let mut project = project;
                let len = self.projects.len();
                proof {
                    lemma_none_means_no_match(ps, project_has_id(id));
                    assert forall|j: int| 0 <= j < ps.len() implies ps[j].id != id by {
                        assert(!project_has_id(id)(ps[j]));
                    }
                    if self.project_id_lookup@.contains_key(id.id()) {
                        let j = self.project_id_lookup@[id.id()] as int;
                        assert(ps[j].id.id() == id.id());
                    }
                }
                self.project_id_lookup.insert(id.value(), len);
                if !is_older_than_7d(now, project.last_activity()) {
                    let e = GlimEvent::PipelinesFetch(id);
                    proof {
                        lemma_events_push(out@, e);
                    }
                    out.push(e);
                    project.pipelines = Some(Vec::new());
                    proof {
                        assert(pipelines_view(project.pipelines->0@) =~= Seq::<PipelineView>::empty());
                        assert(project@ == with_empty_pipelines(pv));
                    }
                }
                self.projects.push(project);
                proof {
                    assert forall|j: int| 0 <= j < self.projects@.len() implies {
                        &&& #[trigger] self.project_id_lookup@.contains_key(self.projects@[j].id.id())
                        &&& self.project_id_lookup@[self.projects@[j].id.id()] == j
                    } by {
                        if j < len {
                            assert(old(self).project_id_lookup@.contains_key(old(self).projects@[j].id.id()));
                        }
                    }
                }
            },
        }
        assert(events_view(out@) =~= base + sync_one(ps, pv, now).1);
    }

    /// Puts `p` in place of the project at position `i`, which has the same id.
    fn replace_project(&mut self, i: usize, p: Project)
        requires
            old(self).indexed(),
            i < old(self)@.projects.len(),
            p.id == old(self)@.projects[i as int].id,
        ensures
            final(self).indexed(),
            final(self)@.projects == old(self)@.projects.update(i as int, p@),
            final(self)@.sorted == old(self)@.sorted,
            final(self)@.received == old(self)@.received,
    {
        self.projects.set(i, p);
        proof {
            assert(self@.projects =~= old(self)@.projects.update(i as int, p@));
            assert forall|j: int| 0 <= j < self.projects@.len() implies self.projects@[j].id
                == old(self).projects@[j].id by {}
        }
    }

    /// Applies an event that arrived at time `now` (seconds since the epoch) and returns
    /// the events the store sends in response, in order.
    pub fn apply_at(&mut self, event: &GlimEvent, now: i64) -> (r: Vec<GlimEvent>)
        requires
            old(self).wf(),
        ensures
            final(self).wf(),
            store_transition(old(self)@, event@, now, final(self)@, events_view(r@)),
    {
        let ghost before = self@;
        let r = self.apply_indexed(event, now);
        self.received = Ghost(received_after(before.received, event@));
        proof {
            lemma_history(before, event@, now, self@, events_view(r@));
        }
        r
    }

    /// The work of `apply_at` but for recording the received ids.
    fn apply_indexed(&mut self, event: &GlimEvent, now: i64) -> (r: Vec<GlimEvent>)
        requires
            old(self).indexed(),
        ensures
            final(self).indexed(),
            final(self)@.received == old(self)@.received,
            store_transition(
                old(self)@,
                event@,
                now,
                StoreView { received: received_after(old(self)@.received, event@), ..final(self)@ },
                events_view(r@),
            ),
    {
        reveal(store_transition);
        let mut out: Vec<GlimEvent> = Vec::new();
        assert(events_view(out@) =~= Seq::<GlimEventView>::empty());
        match event {
            GlimEvent::ProjectDetailsOpen(id) => {
                match self.project_idx(*id) {
                    Some(i) => {
                        Self::request_missing_jobs(&self.projects[i], &mut out);
                        assert(events_view(out@) =~= missing_jobs_requests(*id, self@.projects[i as int].recent_pipelines()));
                    },
                    None => {},
                }
            },
            GlimEvent::ProjectsLoaded(projects) => {
                let first_projects = self.sorted.len() == 0;
                let ghost ps0 = self@.projects;
                let ghost sorted0 = self@.sorted;
                let ghost received0 = self@.received;
                let ghost inc = projects_view(projects@);
                assert(inc.take(0) =~= Seq::<ProjectView>::empty());
                for i in 0..projects.len()
                    invariant
                        self.indexed(),
                        inc == projects_view(projects@),
                        self@.projects == sync_all(ps0, inc.take(i as int), now).0,
                        events_view(out@) == sync_all(ps0, inc.take(i as int), now).1,
                        self@.sorted == sorted0,
                        self@.received == received0,
                {
                    let p = projects[i].clone();
                    let announced = GlimEvent::ProjectUpdated(Box::new(projects[i].clone()));
                    let ghost before = events_view(out@);
                    self.sync_project(p, now, &mut out);
                    proof {
                        lemma_events_push(out@, announced);
                    }
                    out.push(announced);
                    assert(events_view(out@) =~= sync_all(ps0, inc.take(i + 1), now).1) by {
                        assert(inc.take(i + 1).drop_last() =~= inc.take(i as int));
                        assert(inc.take(i + 1).last() == inc[i as int]);
                    }
                    assert(inc.take(i + 1).drop_last() =~= inc.take(i as int));
                    assert(inc.take(i + 1).last() == inc[i as int]);
                }
                assert(inc.take(projects.len() as int) =~= inc);
                self.sorted = self.projects_sorted_by_last_activity();
                if first_projects && self.sorted.len() > 0 {
                    let e = GlimEvent::ProjectSelected(self.sorted[0].id);
                    proof {
                        lemma_events_push(out@, e);
                    }
                    out.push(e);
                }
            },
            GlimEvent::PipelinesLoaded(pipelines) => {
                if pipelines.len() == 0 {
                    return out;
                }
                let pid = pipelines[0].project_id;
                match self.project_idx(pid) {
                    Some(i) => {
                        Self::request_active_jobs(pid, pipelines, &mut out);
                        let mut project = self.projects[i].clone();
                        project.update_pipelines(crate::domain::clone_pipelines(pipelines));
                        let announced = GlimEvent::ProjectUpdated(Box::new(project.clone()));
                        self.replace_project(i, project);
                        proof {
                            lemma_events_push(out@, announced);
                        }
                        out.push(announced);
                    },
                    None => {},
                }
                self.sorted = self.projects_sorted_by_last_activity();
            },
            GlimEvent::JobsLoaded(pid, plid, jobs) => {
                match self.project_idx(*pid) {
                    Some(i) => {
                        let mut project = self.projects[i].clone();
                        project.update_jobs(*plid, crate::domain::clone_jobs(jobs));
                        if jobs.len() > 0 {
                            match &jobs[0].commit {
                                Some(c) => project.update_commit(*plid, c.clone()),
                                None => {},
                            }
                        }
                        let announced = GlimEvent::ProjectUpdated(Box::new(project.clone()));
                        self.replace_project(i, project);
                        proof {
                            lemma_events_push(out@, announced);
                        }
                        out.push(announced);
                        assert(events_view(out@) =~= seq![announced@]);
                    },
                    None => {},
                }
                self.sorted = self.projects_sorted_by_last_activity();
            },
            GlimEvent::ProjectSelected(id) => {
                match self.project_idx(*id) {
                    Some(i) => {
                        if self.projects[i].pipelines.is_none() {
                            let mut project = self.projects[i].clone();
                            project.pipelines = Some(Vec::new());
                            proof {
                                assert(pipelines_view(project.pipelines->0@) =~= Seq::<PipelineView>::empty());
                                assert(project@ == with_empty_pipelines(self@.projects[i as int]));
                            }
                            self.replace_project(i, project);
                            let e = GlimEvent::PipelinesFetch(*id);
                            proof {
                                lemma_events_push(out@, e);
                            }
                            out.push(e);
                            assert(events_view(out@) =~= seq![e@]);
                        }
                    },
                    None => {},
                }
            },
            _ => {},
        }
        out
    }

    /// Applies an event at the current time and returns the events the store sends in
    /// response, in order.
    pub fn apply(&mut self, event: &GlimEvent) -> (r: Vec<GlimEvent>)
        requires
            old(self).wf(),
        ensures
            final(self).wf(),
            exists|now: i64| store_transition(old(self)@, event@, now, final(self)@, events_view(r@)),
    {
        let now = crate::clock::utc_now_secs();
        self.apply_at(event, now)
    }

    /// A fresh copy of the projects, most recent activity first.
    fn projects_sorted_by_last_activity(&self) -> (r: Vec<Project>)
        ensures
            sorted_by_activity(self@.projects, projects_view(r@)),
            activity_ordered(projects_view(r@)),
    {
        let n = self.projects.len();
        let ghost ps = self@.projects;
        let mut keys: Vec<(i128, usize)> = Vec::new();
        for i in 0..n
            invariant
                n == self.projects.len(),
                ps == self@.projects,
                keys@.len() == i,
                forall|k: int| 0 <= k < i ==> #[trigger] keys@[k] == (-(ps[k].last_activity() as int)
                    as i128, k as usize),
        {
            let t = self.projects[i].last_activity();
            keys.push((-(t as i128), i));
        }
        proof {
            assert(keys@.no_duplicates()) by {
                assert forall|a: int, b: int|
                    0 <= a < keys@.len() && 0 <= b < keys@.len() && a != b implies keys@[a]
                    != keys@[b] by {
                    assert(keys@[a].1 == a);
                    assert(keys@[b].1 == b);
                }
            }
            keys@.lemma_multiset_has_no_duplicates();
        }
        let order = sorted_pairs(keys);
        let ghost ord = order@.map_values(|p: (i128, usize)| p.1 as int);
        proof {
            broadcast use vstd::seq_lib::group_to_multiset_ensures;

            assert(order@.len() == keys@.len()) by {
                assert(order@.len() == order@.to_multiset().len());
                assert(keys@.len() == keys@.to_multiset().len());
            }
            order@.lemma_multiset_has_no_duplicates_conv();
            // every sorted pair is one of the keys
            assert forall|k: int| 0 <= k < order@.len() implies #[trigger] order@[k] == (-(
            ps[order@[k].1 as int].last_activity() as int) as i128, order@[k].1) && order@[k].1 < n by {
                assert(order@.contains(order@[k]));
                assert(order@.to_multiset().count(order@[k]) > 0);
                assert(keys@.contains(order@[k]));
                let j = choose|j: int| 0 <= j < keys@.len() && keys@[j] == order@[k];
                assert(keys@[j] == order@[k]);
            }
            assert forall|k: int| 0 <= k < ord.len() implies 0 <= #[trigger] ord[k] < ps.len() by {
                assert(order@[k] == order@[k]);
            }
            assert(ord.no_duplicates()) by {
                assert forall|a: int, b: int|
                    0 <= a < ord.len() && 0 <= b < ord.len() && a != b implies ord[a] != ord[b] by {
                    assert(order@[a] == order@[a]);
                    assert(order@[b] == order@[b]);
                }
            }
            assert forall|a: int, b: int|
                0 <= a < b < ord.len() implies activity_before(ps, #[trigger] ord[a], #[trigger] ord[b]) by {
                assert(order@[a] == order@[a]);
                assert(order@[b] == order@[b]);
                assert(pair_le(order@[a], order@[b]));
                assert(order@[a] != order@[b]);
            }
            assert(is_activity_order(ps, ord));
        }
        let mut out: Vec<Project> = Vec::new();
        for k in 0..n
            invariant
                n == self.projects.len(),
                ps == self@.projects,
                order@.len() == n,
                ord == order@.map_values(|p: (i128, usize)| p.1 as int),
                forall|k: int| 0 <= k < ord.len() ==> 0 <= #[trigger] ord[k] < ps.len(),
                out@.len() == k,
                forall|j: int| 0 <= j < k ==> #[trigger] out@[j]@ == ps[ord[j]],
        {
            let idx = order[k].1;
            assert(ord[k as int] == idx);
            let p = self.projects[idx].clone();
            out.push(p);
        }
        proof {
            let ov = projects_view(out@);
            assert forall|k: int| 0 <= k < ov.len() implies ov[k] == ps[#[trigger] ord[k]] by {
                assert(out@[k]@ == ps[ord[k]]);
            }
            assert(is_activity_order(ps, ord));
            law_sorted_projects_permute_in_activity_order(ps, ov);
        }
        out
    }
}

/// A log record: how severe, what it says, and its named values.
pub struct LogLine {
    pub level: LogLevel,
    pub message: &'static str,
    pub fields: Vec<(&'static str, String)>,
}

/// The named values of a log record, as text.
pub open spec fn fields_view(f: Seq<(&'static str, String)>) -> Seq<(Seq<char>, Seq<char>)> {
    f.map_values(|x: (&'static str, String)| (x.0@, x.1@))
}

/// A named number, written in decimal.
pub open spec fn num(name: Seq<char>, n: nat) -> (Seq<char>, Seq<char>) {
    (name, decimal(n))
}

/// An optional text as `Debug` writes it (`None`, or `Some` of the quoted, escaped text).
pub uninterp spec fn debug_opt_text(s: Option<Seq<char>>) -> Seq<char>;

/// The variant of an error as `Debug` writes `std::mem::discriminant` of it.
pub uninterp spec fn discriminant_text(e: GlimErrorView) -> Seq<char>;

/// Writes an optional text as `Debug` does.
///
/// Calls `<Option<String> as Debug>::fmt` through `format!`; the result is named
/// `debug_opt_text`, and `None` is written as `None`.
#[verifier::external_body]
fn debug_opt_string(s: &Option<String>) -> (r: String)
    ensures
        r@ == debug_opt_text(opt_string_view(*s)),
        s is None ==> r@ == "None"@,
{
    format!("{:?}", s)
}

/// Writes the variant of an error as `Debug` writes its discriminant.
///
/// Calls `<std::mem::Discriminant<GlimError> as Debug>::fmt` on `std::mem::discriminant`
/// through `format!`; the result is named `discriminant_text`.
#[verifier::external_body]
fn error_discriminant_text(e: &GlimError) -> (r: String)
    ensures
        r@ == discriminant_text(e@),
{
    format!("{:?}", std::mem::discriminant(e))
}

/// The project id as `Debug` writes an optional id.
pub open spec fn opt_project_id_debug(id: Option<ProjectId>) -> Seq<char> {
    match id {
        Some(i) => "Some(ProjectId { value: "@ + decimal(i.id() as nat) + " })"@,
        None => "None"@,
    }
}

/// A log record with the project and pipeline ids.
pub open spec fn pp(pid: ProjectId, plid: PipelineId) -> Seq<(Seq<char>, Seq<char>)> {
    seq![num("project_id"@, pid.id() as nat), num("pipeline_id"@, plid.id() as nat)]
}

/// A log record with the project and merge request ids.
pub open spec fn pm(pid: ProjectId, iid: MrIid) -> Seq<(Seq<char>, Seq<char>)> {
    seq![num("project_id"@, pid.id() as nat), num("mr_iid"@, iid.id() as nat)]
}

/// The log record that an event gets, if any: level, message and named values. `LogEntry`
/// events are never logged, so that logging cannot feed itself.
pub open spec fn log_line_of(e: GlimEventView) -> Option<(LogLevel, Seq<char>, Seq<(Seq<char>, Seq<char>)>)> {
    match e {
        GlimEventView::ProjectsFetch => Some((LogLevel::Info, "Requesting all projects from GitLab"@, Seq::empty())),
        GlimEventView::ProjectsLoaded(ps) => Some(
            (LogLevel::Info, "Received projects from GitLab API"@, seq![num("count"@, ps.len())]),
        ),
        GlimEventView::ProjectFetch(id) => Some(
            (LogLevel::Debug, "Refreshing project"@, seq![num("project_id"@, id.id() as nat)]),
        ),
        GlimEventView::JobsActiveFetch => Some((LogLevel::Debug, "Requesting active pipelines for all projects"@, Seq::empty())),
        GlimEventView::PipelinesFetch(id) => Some(
            (LogLevel::Debug, "Requesting pipelines for project"@, seq![num("project_id"@, id.id() as nat)]),
        ),
        GlimEventView::JobsFetch(pid, plid) => Some((LogLevel::Debug, "Requesting jobs"@, pp(pid, plid))),
        GlimEventView::PipelinesLoaded(pls) => Some(
            (
                LogLevel::Debug,
                "Received pipelines from GitLab API"@,
                seq![
                    num("count"@, pls.len()),
                    ("project_id"@, opt_project_id_debug(if pls.len() > 0 { Some(pls[0].project_id) } else { None })),
                ],
            ),
        ),
        GlimEventView::JobsLoaded(pid, plid, jobs) => Some(
            (LogLevel::Debug, "Received jobs"@, pp(pid, plid).push(num("count"@, jobs.len()))),
        ),
        GlimEventView::ProjectDetailsOpen(id) => Some(
            (LogLevel::Debug, "Opening project details"@, seq![num("project_id"@, id.id() as nat)]),
        ),
        GlimEventView::ProjectDetailsClose => Some((LogLevel::Debug, "Closing project details popup"@, Seq::empty())),
        GlimEventView::PipelineActionsOpen(pid, plid) => Some((LogLevel::Debug, "Opening pipeline actions"@, pp(pid, plid))),
        GlimEventView::ProjectSelected(id) => Some(
            (LogLevel::Debug, "Selected project"@, seq![num("project_id"@, id.id() as nat)]),
        ),
        GlimEventView::PipelineSelected(id) => Some(
            (LogLevel::Debug, "Selected pipeline"@, seq![num("pipeline_id"@, id.id() as nat)]),
        ),
        GlimEventView::ProjectOpenUrl(id) => Some(
            (LogLevel::Info, "Opening project in browser"@, seq![num("project_id"@, id.id() as nat)]),
        ),
        GlimEventView::PipelineOpenUrl(pid, plid) => Some((LogLevel::Info, "Opening pipeline in browser"@, pp(pid, plid))),
        GlimEventView::JobOpenUrl(pid, plid, jid) => Some(
            (LogLevel::Info, "Opening job in browser"@, pp(pid, plid).push(num("job_id"@, jid.id() as nat))),
        ),
        GlimEventView::JobLogFetch(pid, plid) => Some((LogLevel::Info, "Downloading job error log"@, pp(pid, plid))),
        GlimEventView::JobLogDownloaded(pid, jid, trace) => Some(
            (
                LogLevel::Info,
                "Job log downloaded successfully"@,
                seq![
                    num("project_id"@, pid.id() as nat),
                    num("job_id"@, jid.id() as nat),
                    num("content_length"@, (encode_utf8(trace).len() as usize) as nat),
                ],
            ),
        ),
        GlimEventView::MrViewOpen(pid, plid) => Some((LogLevel::Debug, "Opening MR view"@, pp(pid, plid))),
        GlimEventView::MrViewClose => Some((LogLevel::Debug, "Closing MR view"@, Seq::empty())),
        GlimEventView::MrLoaded(pid, mr) => Some((LogLevel::Debug, "MR loaded"@, pm(pid, mr.iid))),
        GlimEventView::MrNotFound(pid, plid) => Some((LogLevel::Debug, "No MR found for pipeline"@, pp(pid, plid))),
        GlimEventView::MrNotesFetch(pid, iid) => Some((LogLevel::Debug, "Fetching MR notes"@, pm(pid, iid))),
        GlimEventView::MrNotesLoaded(pid, iid, notes) => Some(
            (LogLevel::Debug, "MR notes loaded"@, pm(pid, iid).push(num("count"@, notes.len()))),
        ),
        GlimEventView::MrNotePost(pid, iid, _) => Some((LogLevel::Debug, "Posting MR note"@, pm(pid, iid))),
        GlimEventView::MrNotePosted(pid, iid) => Some((LogLevel::Info, "MR note posted"@, pm(pid, iid))),
        GlimEventView::MrAtlantisAction(pid, iid, _) => Some((LogLevel::Info, "Triggering Atlantis action"@, pm(pid, iid))),
        GlimEventView::ConfigOpen => Some((LogLevel::Debug, "Displaying configuration"@, Seq::empty())),
        GlimEventView::ConfigApply => Some((LogLevel::Info, "Applying new configuration"@, Seq::empty())),
        GlimEventView::ConfigUpdate(_) => Some((LogLevel::Debug, "Updating configuration"@, Seq::empty())),
        GlimEventView::ApplyTemporaryFilter(f) => Some(
            (LogLevel::Debug, "Applying temporary filter"@, seq![("filter"@, debug_opt_text(f))]),
        ),
        GlimEventView::FilterClear => Some((LogLevel::Info, "Clearing project filter"@, Seq::empty())),
        GlimEventView::FilterMenuClose => Some((LogLevel::Debug, "Closing filter input"@, Seq::empty())),
        GlimEventView::AppExit => Some((LogLevel::Info, "Application shutting down"@, Seq::empty())),
        GlimEventView::AppError(err) => Some(
            (
                LogLevel::Warn,
                "Application error occurred"@,
                seq![("error"@, error_message(err)), ("error_type"@, discriminant_text(err))],
            ),
        ),
        _ => None,
    }
}

fn num_field(name: &'static str, n: u64) -> (r: (&'static str, String))
    ensures
        (r.0@, r.1@) == num(name@, n as nat),
{
    (name, decimal_text(n))
}

fn line(level: LogLevel, message: &'static str, fields: Vec<(&'static str, String)>) -> (r: Option<LogLine>)
    ensures
        r matches Some(l) && l.level == level && l.message == message && l.fields@ == fields@,
{
    Some(LogLine { level, message, fields })
}

fn pp_fields(pid: ProjectId, plid: PipelineId) -> (r: Vec<(&'static str, String)>)
    ensures
        fields_view(r@) == pp(pid, plid),
{
    let r = vec![num_field("project_id", pid.value()), num_field("pipeline_id", plid.value())];
    assert(fields_view(r@) =~= pp(pid, plid));
    r
}

fn pm_fields(pid: ProjectId, iid: MrIid) -> (r: Vec<(&'static str, String)>)
    ensures
        fields_view(r@) == pm(pid, iid),
{
    let r = vec![num_field("project_id", pid.value()), num_field("mr_iid", iid.value())];
    assert(fields_view(r@) =~= pm(pid, iid));
    r
}

fn one_field(name: &'static str, n: u64) -> (r: Vec<(&'static str, String)>)
    ensures
        fields_view(r@) == seq![num(name@, n as nat)],
{
    let r = vec![num_field(name, n)];
    assert(fields_view(r@) =~= seq![num(name@, n as nat)]);
    r
}

fn push_field(v: &mut Vec<(&'static str, String)>, name: &'static str, n: u64)
    ensures
        fields_view(final(v)@) == fields_view(old(v)@).push(num(name@, n as nat)),
{
    let f = num_field(name, n);
    v.push(f);
    assert(fields_view(v@) =~= fields_view(old(v)@).push(num(name@, n as nat)));
}

fn no_fields() -> (r: Vec<(&'static str, String)>)
    ensures
        fields_view(r@) == Seq::<(Seq<char>, Seq<char>)>::empty(),
{
    let r: Vec<(&'static str, String)> = Vec::new();
    assert(fields_view(r@) =~= Seq::<(Seq<char>, Seq<char>)>::empty());
    r
}

fn opt_project_id_text(pls: &Vec<crate::domain::Pipeline>) -> (r: String)
    ensures
        r@ == opt_project_id_debug(if pls@.len() > 0 { Some(pls@[0].project_id) } else { None }),
{
    if pls.len() > 0 {
        let mut s = String::from_str("Some(ProjectId { value: ");
        let n = decimal_text(pls[0].project_id.value());
        s.append(n.as_str());
        s.append(" })");
        s
    } else {
        String::from_str("None")
    }
}

/// The log record for an event, if it gets one.
#[verifier::rlimit(50)]
#[verifier::spinoff_prover]
pub fn log_event(event: &GlimEvent) -> (r: Option<LogLine>)
    ensures
        match r {
            Some(l) => log_line_of(event@) == Some((l.level, l.message@, fields_view(l.fields@))),
            None => log_line_of(event@) is None,
        },
{
    match event {
        GlimEvent::ProjectsFetch => line(LogLevel::Info, "Requesting all projects from GitLab", no_fields()),
        GlimEvent::ProjectsLoaded(ps) => {
            let f = one_field("count", ps.len() as u64);
            proof {
                assert(crate::domain::projects_view(ps@).len() == ps@.len());
            }
            line(LogLevel::Info, "Received projects from GitLab API", f)
        },
        GlimEvent::ProjectFetch(id) => line(LogLevel::Debug, "Refreshing project", one_field("project_id", id.value())),
        GlimEvent::JobsActiveFetch => line(LogLevel::Debug, "Requesting active pipelines for all projects", no_fields()),
        GlimEvent::PipelinesFetch(id) => line(
            LogLevel::Debug,
            "Requesting pipelines for project",
            one_field("project_id", id.value()),
        ),
        GlimEvent::JobsFetch(pid, plid) => line(LogLevel::Debug, "Requesting jobs", pp_fields(*pid, *plid)),
        GlimEvent::PipelinesLoaded(pls) => {
            let mut f = one_field("count", pls.len() as u64);
            let t = opt_project_id_text(pls);
            let ghost before = f@;
            f.push(("project_id", t));
            proof {
                assert(fields_view(f@) =~= fields_view(before).push(("project_id"@, t@)));
                assert(crate::domain::pipelines_view(pls@).len() == pls@.len());
                if pls@.len() > 0 {
                    assert(crate::domain::pipelines_view(pls@)[0] == pls@[0]@);
                }
            }
            line(LogLevel::Debug, "Received pipelines from GitLab API", f)
        },
        GlimEvent::JobsLoaded(pid, plid, jobs) => {
            let mut f = pp_fields(*pid, *plid);
            push_field(&mut f, "count", jobs.len() as u64);
            proof {
                assert(crate::domain::jobs_view(jobs@).len() == jobs@.len());
            }
            line(LogLevel::Debug, "Received jobs", f)
        },
        GlimEvent::ProjectDetailsOpen(id) => line(
            LogLevel::Debug,
            "Opening project details",
            one_field("project_id", id.value()),
        ),
        GlimEvent::ProjectDetailsClose => line(LogLevel::Debug, "Closing project details popup", no_fields()),
        GlimEvent::PipelineActionsOpen(pid, plid) => line(
            LogLevel::Debug,
            "Opening pipeline actions",
            pp_fields(*pid, *plid),
        ),
        GlimEvent::ProjectSelected(id) => line(LogLevel::Debug, "Selected project", one_field("project_id", id.value())),
        GlimEvent::PipelineSelected(id) => line(LogLevel::Debug, "Selected pipeline", one_field("pipeline_id", id.value())),
        GlimEvent::ProjectOpenUrl(id) => line(
            LogLevel::Info,
            "Opening project in browser",
            one_field("project_id", id.value()),
        ),
        GlimEvent::PipelineOpenUrl(pid, plid) => line(
            LogLevel::Info,
            "Opening pipeline in browser",
            pp_fields(*pid, *plid),
        ),
        GlimEvent::JobOpenUrl(pid, plid, jid) => {
            let mut f = pp_fields(*pid, *plid);
            push_field(&mut f, "job_id", jid.value());
            line(LogLevel::Info, "Opening job in browser", f)
        },
        GlimEvent::JobLogFetch(pid, plid) => line(LogLevel::Info, "Downloading job error log", pp_fields(*pid, *plid)),
        GlimEvent::JobLogDownloaded(pid, jid, trace) => {
            let mut f = one_field("project_id", pid.value());
            push_field(&mut f, "job_id", jid.value());
            let len = trace.as_str().len();
            push_field(&mut f, "content_length", len as u64);
            line(LogLevel::Info, "Job log downloaded successfully", f)
        },
        GlimEvent::MrViewOpen(pid, plid) => line(LogLevel::Debug, "Opening MR view", pp_fields(*pid, *plid)),
        GlimEvent::MrViewClose => line(LogLevel::Debug, "Closing MR view", no_fields()),
        GlimEvent::MrLoaded(pid, mr) => line(LogLevel::Debug, "MR loaded", pm_fields(*pid, mr.iid)),
        GlimEvent::MrNotFound(pid, plid) => line(LogLevel::Debug, "No MR found for pipeline", pp_fields(*pid, *plid)),
        GlimEvent::MrNotesFetch(pid, iid) => line(LogLevel::Debug, "Fetching MR notes", pm_fields(*pid, *iid)),
        GlimEvent::MrNotesLoaded(pid, iid, notes) => {
            let mut f = pm_fields(*pid, *iid);
            push_field(&mut f, "count", notes.len() as u64);
            proof {
                assert(crate::domain::notes_view(notes@).len() == notes@.len());
            }
            line(LogLevel::Debug, "MR notes loaded", f)
        },
        GlimEvent::MrNotePost(pid, iid, _) => line(LogLevel::Debug, "Posting MR note", pm_fields(*pid, *iid)),
        GlimEvent::MrNotePosted(pid, iid) => line(LogLevel::Info, "MR note posted", pm_fields(*pid, *iid)),
        GlimEvent::MrAtlantisAction(pid, iid, _) => line(
            LogLevel::Info,
            "Triggering Atlantis action",
            pm_fields(*pid, *iid),
        ),
        GlimEvent::ConfigOpen => line(LogLevel::Debug, "Displaying configuration", no_fields()),
        GlimEvent::ConfigApply => line(LogLevel::Info, "Applying new configuration", no_fields()),
        GlimEvent::ConfigUpdate(_) => line(LogLevel::Debug, "Updating configuration", no_fields()),
        GlimEvent::ApplyTemporaryFilter(f) => {
            let t = debug_opt_string(f);
            let r = vec![("filter", t)];
            assert(fields_view(r@) =~= seq![("filter"@, debug_opt_text(opt_string_view(*f)))]);
            line(LogLevel::Debug, "Applying temporary filter", r)
        },
        GlimEvent::FilterClear => line(LogLevel::Info, "Clearing project filter", no_fields()),
        GlimEvent::FilterMenuClose => line(LogLevel::Debug, "Closing filter input", no_fields()),
        GlimEvent::AppExit => line(LogLevel::Info, "Application shutting down", no_fields()),
        GlimEvent::AppError(err) => {
            let r = vec![("error", error_text(err)), ("error_type", error_discriminant_text(err))];
            assert(fields_view(r@) =~= seq![("error"@, error_message(err@)), ("error_type"@, discriminant_text(err@))]);
            line(LogLevel::Warn, "Application error occurred", r)
        },
        _ => None,
    }
}

} // verus!
