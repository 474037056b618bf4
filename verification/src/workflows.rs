//! The workflows that modules run, and how far each came.

use crate::json::JsonValue;
use crate::snapshot::{self, Snapshot};
use crate::state_engine;
use crate::text;
use crate::types::{RuntimeState, RuntimeView, WorkflowState, WorkflowStatus, WorkflowView};
use vstd::prelude::*;

verus! {

/// The workflow has the given name.
pub open spec fn workflow_of(name: Seq<char>) -> spec_fn(WorkflowView) -> bool {
    |w: WorkflowView| w.name == name
}

/// The place of the workflow of the given name, or the number of workflows.
pub open spec fn place_of(ws: Seq<WorkflowView>, name: Seq<char>) -> int {
    state_engine::first_where(ws, workflow_of(name), 0)
}

/// The workflow of the given name, if there is one.
pub open spec fn workflow(ws: Seq<WorkflowView>, name: Seq<char>) -> Option<WorkflowView> {
    let i = place_of(ws, name);
    if i < ws.len() {
        Some(ws[i])
    } else {
        None
    }
}

/// A workflow that has just begun.
pub open spec fn begun(name: Seq<char>, now: u64) -> WorkflowView {
    WorkflowView {
        name,
        state: WorkflowState::Running,
        step: None,
        started_at: now,
        updated_at: now,
        error: None,
    }
}

/// The workflows after one has begun, for the first time or again.
pub open spec fn registered(ws: Seq<WorkflowView>, name: Seq<char>, now: u64) -> Seq<WorkflowView> {
    let i = place_of(ws, name);
    if i < ws.len() {
        ws.update(i, begun(name, now))
    } else {
        ws.push(begun(name, now))
    }
}

/// What happens to a workflow.
pub enum Progress {
    Step(Seq<char>),
    Finish,
    Fail(Seq<char>),
    Timeout,
}

/// The workflow after what happened to it. Only one that runs times out.
pub open spec fn progressed(w: WorkflowView, p: Progress, now: u64) -> WorkflowView {
    match p {
        Progress::Step(label) => WorkflowView { step: Some(label), updated_at: now, ..w },
        Progress::Finish => WorkflowView { state: WorkflowState::Done, updated_at: now, ..w },
        Progress::Fail(error) => WorkflowView {
            state: WorkflowState::Failed,
            error: Some(error),
            updated_at: now,
            ..w
        },
        Progress::Timeout => if w.state == WorkflowState::Running {
            WorkflowView { state: WorkflowState::TimedOut, updated_at: now, ..w }
        } else {
            w
        },
    }
}

/// The workflows after something happened to one. A name that none has changes
/// nothing.
pub open spec fn advanced(
    ws: Seq<WorkflowView>,
    name: Seq<char>,
    p: Progress,
    now: u64,
) -> Seq<WorkflowView> {
    let i = place_of(ws, name);
    if i < ws.len() {
        ws.update(i, progressed(ws[i], p, now))
    } else {
        ws
    }
}

fn find_workflow(ws: &Vec<WorkflowStatus>, name: &str) -> (r: usize)
    ensures
        r == place_of(ws.deep_view(), name@),
        r <= ws.len(),
        r < ws.len() ==> ws@[r as int].name@ == name@,
{
    let mut i: usize = 0;
    while i < ws.len()
        invariant
            i <= ws.len(),
            place_of(ws.deep_view(), name@) == state_engine::first_where(
                ws.deep_view(),
                workflow_of(name@),
                i as int,
            ),
        decreases ws.len() - i,
    {
        assert(ws.deep_view()[i as int] == ws@[i as int].deep_view());
        if text::same(ws[i].name.as_str(), name) {
            return i;
        }
        i += 1;
    }
    assert(ws.deep_view().len() == ws@.len());
    i
}

/// Notes that a workflow has begun.
pub fn workflow_register(state: &mut RuntimeState, name: &str, now: u64)
    ensures
        final(state)@ == (RuntimeView {
            workflows: registered(old(state)@.workflows, name@, now),
            ..old(state)@
        }),
{
    let i = find_workflow(&state.workflows, name);
    let ghost before = state.workflows.deep_view();
    let w = WorkflowStatus {
        name: name.to_owned(),
        state: WorkflowState::Running,
        step: None,
        started_at: now,
        updated_at: now,
        error: None,
    };
    assert(w.deep_view() == begun(name@, now));
    if i < state.workflows.len() {
        state.workflows.set(i, w);
    } else {
        state.workflows.push(w);
    }
    assert(state.workflows.deep_view() =~= registered(before, name@, now));
}

/// Notes the step that a workflow has reached.
pub fn workflow_step(state: &mut RuntimeState, name: &str, label: &str, now: u64)
    ensures
        final(state)@ == (RuntimeView {
            workflows: advanced(old(state)@.workflows, name@, Progress::Step(label@), now),
            ..old(state)@
        }),
{
    let i = find_workflow(&state.workflows, name);
    let ghost before = state.workflows.deep_view();
    if i < state.workflows.len() {
        assert(before[i as int] == state.workflows@[i as int].deep_view());
        state.workflows[i].step = Some(label.to_owned());
        state.workflows[i].updated_at = now;
    }
    assert(state.workflows.deep_view() =~= advanced(before, name@, Progress::Step(label@), now));
}

/// Notes that a workflow is done.
pub fn workflow_finish(state: &mut RuntimeState, name: &str, now: u64)
    ensures
        final(state)@ == (RuntimeView {
            workflows: advanced(old(state)@.workflows, name@, Progress::Finish, now),
            ..old(state)@
        }),
{
    let i = find_workflow(&state.workflows, name);
    let ghost before = state.workflows.deep_view();
    if i < state.workflows.len() {
        assert(before[i as int] == state.workflows@[i as int].deep_view());
        state.workflows[i].state = WorkflowState::Done;
        state.workflows[i].updated_at = now;
    }
    assert(state.workflows.deep_view() =~= advanced(before, name@, Progress::Finish, now));
}

/// Notes that a workflow has failed.
pub fn workflow_fail(state: &mut RuntimeState, name: &str, error: &str, now: u64)
    ensures
        final(state)@ == (RuntimeView {
            workflows: advanced(old(state)@.workflows, name@, Progress::Fail(error@), now),
            ..old(state)@
        }),
{
    let i = find_workflow(&state.workflows, name);
    let ghost before = state.workflows.deep_view();
    if i < state.workflows.len() {
        assert(before[i as int] == state.workflows@[i as int].deep_view());
        state.workflows[i].state = WorkflowState::Failed;
        state.workflows[i].error = Some(error.to_owned());
        state.workflows[i].updated_at = now;
    }
    assert(state.workflows.deep_view() =~= advanced(before, name@, Progress::Fail(error@), now));
}

/// Notes that the time of a workflow has run out, if it still runs.
pub fn workflow_timeout(state: &mut RuntimeState, name: &str, now: u64)
    ensures
        final(state)@ == (RuntimeView {
            workflows: advanced(old(state)@.workflows, name@, Progress::Timeout, now),
            ..old(state)@
        }),
{
    let i = find_workflow(&state.workflows, name);
    let ghost before = state.workflows.deep_view();
    if i < state.workflows.len() {
        assert(before[i as int] == state.workflows@[i as int].deep_view());
        if state.workflows[i].state == WorkflowState::Running {
            state.workflows[i].state = WorkflowState::TimedOut;
            state.workflows[i].updated_at = now;
        }
    }
    assert(state.workflows.deep_view() =~= advanced(before, name@, Progress::Timeout, now));
}

/// How far a workflow came, if it was ever begun.
pub fn workflow_status_json(state: &RuntimeState, name: &str) -> (r: Option<JsonValue>)
    ensures
        r.deep_view() == (match workflow(state@.workflows, name@) {
            Some(w) => Some(WorkflowStatus::json(w)),
            None => None,
        }),
{
    let i = find_workflow(&state.workflows, name);
    assert(state@.workflows.len() == state.workflows@.len());
    if i < state.workflows.len() {
        assert(state@.workflows[i as int] == state.workflows@[i as int].deep_view());
        Some(state.workflows[i].to_value())
    } else {
        None
    }
}

/// How far each workflow came.
pub fn workflow_list_json(state: &RuntimeState) -> (r: JsonValue)
    ensures
        r@ == snapshot::list_json::<WorkflowStatus>(state@.workflows),
{
    snapshot::list_value(&state.workflows)
}

/// Every name has at most one workflow.
pub open spec fn unique_workflows(ws: Seq<WorkflowView>) -> bool {
    forall|i: int, j: int|
        0 <= i < j < ws.len() ==> (#[trigger] ws[i]).name != (#[trigger] ws[j]).name
}

/// A workflow that has ended does not time out: the time that runs out
/// afterwards changes nothing.
pub proof fn law_ended_workflows_stay(ws: Seq<WorkflowView>, name: Seq<char>, now: u64)
    requires
        workflow(ws, name) matches Some(w) ==> w.state != WorkflowState::Running,
    ensures
        advanced(ws, name, Progress::Timeout, now) == ws,
{
    let i = place_of(ws, name);
    state_engine::lemma_first_where(ws, workflow_of(name), 0);
    if i < ws.len() {
        assert(ws.update(i, ws[i]) =~= ws);
    }
}

/// A workflow that is begun can be looked up, runs, and has neither a step nor
/// an error, whatever became of an earlier run.
pub proof fn law_begun_workflow_runs(ws: Seq<WorkflowView>, name: Seq<char>, now: u64)
    ensures
        workflow(registered(ws, name, now), name) == Some(begun(name, now)),
{
    let i = place_of(ws, name);
    let after = registered(ws, name, now);
    let k = place_of(after, name);
    state_engine::lemma_first_where(ws, workflow_of(name), 0);
    state_engine::lemma_first_where(after, workflow_of(name), 0);
    assert(workflow_of(name)(after[i]));
    if k < i {
        assert(after[k] == ws[k]);
        assert(workflow_of(name)(ws[k]));
    }
}

/// What happens to one workflow leaves the others as they were, and takes none
/// away.
pub proof fn law_other_workflows_stay(
    ws: Seq<WorkflowView>,
    name: Seq<char>,
    p: Progress,
    now: u64,
    k: int,
)
    requires
        0 <= k < ws.len(),
        ws[k].name != name,
    ensures
        advanced(ws, name, p, now).len() == ws.len(),
        advanced(ws, name, p, now)[k] == ws[k],
{
    state_engine::lemma_first_where(ws, workflow_of(name), 0);
}

/// Beginning and advancing workflows keeps every name to one workflow.
pub proof fn law_workflows_stay_unique(
    ws: Seq<WorkflowView>,
    name: Seq<char>,
    p: Progress,
    now: u64,
)
    requires
        unique_workflows(ws),
    ensures
        unique_workflows(registered(ws, name, now)),
        unique_workflows(advanced(ws, name, p, now)),
{
    state_engine::lemma_first_where(ws, workflow_of(name), 0);
    let after = registered(ws, name, now);
    assert forall|i: int, j: int| 0 <= i < j < after.len() implies (#[trigger] after[i]).name != (
    #[trigger] after[j]).name by {
        if j < ws.len() {
            assert(after[i].name == ws[i].name && after[j].name == ws[j].name);
        } else {
            assert(after[i] == ws[i]);
            assert(!workflow_of(name)(ws[i]));
        }
    }
    let moved = advanced(ws, name, p, now);
    assert forall|i: int, j: int| 0 <= i < j < moved.len() implies (#[trigger] moved[i]).name != (
    #[trigger] moved[j]).name by {
        assert(moved[i].name == ws[i].name && moved[j].name == ws[j].name);
    }
}

/// A workflow that begins runs from that moment on, with no step and no error.
pub proof fn law_workflows_begin_running(ws: Seq<WorkflowView>, name: Seq<char>, now: u64)
    ensures
        workflow(registered(ws, name, now), name) matches Some(w) && w.name == name && w.state
            == WorkflowState::Running && w.step is None && w.error is None && w.started_at == now
            && w.updated_at == now,
{
    law_begun_workflow_runs(ws, name, now);
}

/// A workflow tells its step, its end, its failure or that its time is up; each is
/// found under its name from then on, with the moment at which it was told. A workflow
/// that has ended does not run out of time.
pub proof fn law_progress_is_found(
    ws: Seq<WorkflowView>,
    name: Seq<char>,
    w: WorkflowView,
    said: Seq<char>,
    now: u64,
)
    requires
        workflow(ws, name) == Some(w),
    ensures
        workflow(advanced(ws, name, Progress::Step(said), now), name)
            == Some(WorkflowView { step: Some(said), updated_at: now, ..w }),
        workflow(advanced(ws, name, Progress::Finish, now), name)
            == Some(WorkflowView { state: WorkflowState::Done, updated_at: now, ..w }),
        workflow(advanced(ws, name, Progress::Fail(said), now), name) == Some(
            WorkflowView { state: WorkflowState::Failed, error: Some(said), updated_at: now,
                ..w },
        ),
        w.state == WorkflowState::Running ==>
            workflow(advanced(ws, name, Progress::Timeout, now), name) == Some(
            WorkflowView { state: WorkflowState::TimedOut, updated_at: now, ..w },
        ),
        w.state != WorkflowState::Running ==>
            workflow(advanced(ws, name, Progress::Timeout, now), name) == Some(w),
{
    lemma_place_is_kept(ws, name, Progress::Step(said), now);
    lemma_place_is_kept(ws, name, Progress::Finish, now);
    lemma_place_is_kept(ws, name, Progress::Fail(said), now);
    lemma_place_is_kept(ws, name, Progress::Timeout, now);
}

proof fn lemma_place_is_kept(ws: Seq<WorkflowView>, name: Seq<char>, p: Progress, now: u64)
    ensures
        0 <= place_of(ws, name),
        place_of(advanced(ws, name, p, now), name) == place_of(ws, name),
        advanced(ws, name, p, now).len() == ws.len(),
{
    let f = workflow_of(name);
    let after = advanced(ws, name, p, now);
    state_engine::lemma_first_where(ws, f, 0);
    state_engine::lemma_first_where(after, f, 0);
    let i = place_of(ws, name);
    let j = place_of(after, name);
    if i < ws.len() {
        assert(f(ws[i]));
        assert(f(after[i]));
        if j < i {
            assert(f(after[j]));
            assert(after[j] == ws[j]);
            assert(!f(ws[j]));
        }
    }
}

/// Nothing is told of a workflow that never began.
pub proof fn law_unknown_workflows_stay_unknown(ws: Seq<WorkflowView>, name: Seq<char>,
    p: Progress, now: u64)
    requires
        forall|k: int| 0 <= k < ws.len() ==> (#[trigger] ws[k]).name != name,
    ensures
        advanced(ws, name, p, now) == ws,
        workflow(ws, name) is None,
{
    let f = workflow_of(name);
    state_engine::lemma_first_where(ws, f, 0);
    let i = place_of(ws, name);
    if i < ws.len() {
        assert(f(ws[i]));
    }
}

} // verus!
