//! A build with nothing to do.
//!
//! Where every target exists and no file that a job depends on is newer than
//! the job's target, the engine runs no command, whatever the jobs are: it
//! only asks about files and tells the user that there is nothing to do.

use vstd::prelude::*;
use crate::execution::model::{
    Time, JobView, Phase, Event, ActionView, EngineView, find_job, lemma_step_wf,
};

verus! {

/// The files that exist, each with its modification time.
pub type Files = Map<Seq<char>, Time>;

/// What a driver answers to a request that asks about the files, with the
/// files as they are given. Every other request is answered with `Done`.
pub open spec fn answer(files: Files, action: ActionView) -> Event {
    match action {
        ActionView::ModTime(path) => Event::ModTime(
            if files.contains_key(path) {
                Some(files[path])
            } else {
                None
            },
        ),
        ActionView::Exists(path) => Event::Exists(files.contains_key(path)),
        _ => Event::Done,
    }
}

/// The engine after `n` requests, each answered from the given files.
pub open spec fn run(start: EngineView, files: Files, n: nat) -> EngineView
    decreases n,
{
    if n == 0 {
        start
    } else {
        let before = run(start, files, (n - 1) as nat);
        before.step(answer(files, before.pending()))
    }
}

/// Whether every job is up to date: its target exists, and each of its
/// dependencies that names no job is a file that exists and is not newer
/// than the target.
pub open spec fn up_to_date(jobs: Seq<JobView>, files: Files) -> bool {
    &&& forall|j: int| 0 <= j < jobs.len() ==> files.contains_key((#[trigger] jobs[j]).target)
    &&& forall|j: int, d: int|
        0 <= j < jobs.len() && 0 <= d < jobs[j].dependencies.len() && find_job(
            jobs,
            #[trigger] jobs[j].dependencies[d],
        ) is None ==> {
            &&& files.contains_key(jobs[j].dependencies[d])
            &&& files[jobs[j].dependencies[d]] <= files[jobs[j].target]
        }
}

/// Whether the engine is at a point of a build that has run no command and
/// has met no fault: it asks about a file, takes up a job or leaves one with
/// the notice that there is nothing to do, and no time that it has noted is
/// later than that of the target it was noted for.
pub open spec fn quiet(s: EngineView, files: Files) -> bool {
    &&& s.wf()
    &&& match s.phase {
        Phase::Enter | Phase::DepTime | Phase::TargetExists | Phase::TargetTime | Phase::Notice
        | Phase::Finished => true,
        _ => false,
    }
    &&& forall|i: int, k: int|
        0 <= i < s.stack.len() && 0 <= k < s.stack[i].times.len() ==> #[trigger] s.stack[i].times[k]
            <= files[s.jobs[s.stack[i].job].target]
}

/// With every job up to date, one answered request leaves a quiet engine
/// quiet; and the answer to the question for the target's time is followed
/// by the notice for that target.
pub proof fn lemma_quiet_step(s: EngineView, files: Files)
    requires
        quiet(s, files),
        up_to_date(s.jobs, files),
    ensures
        quiet(s.step(answer(files, s.pending())), files),
        s.step(answer(files, s.pending())).jobs == s.jobs,
        s.phase == Phase::TargetTime ==> s.step(answer(files, s.pending())).pending()
            == ActionView::NothingToDo(s.job().target),
{
    lemma_step_wf(s, answer(files, s.pending()));
}

/// A second build runs nothing: with every job up to date, the engine never
/// asks for a command to be run and never fails, however long it is driven.
/// All it asks for is to look at a file, to take up a job, or to tell the
/// user that there is nothing to do.
pub proof fn lemma_nothing_to_do(jobs: Seq<JobView>, files: Files, n: nat)
    requires
        up_to_date(jobs, files),
    ensures
        quiet(run(EngineView::start(jobs), files, n), files),
        run(EngineView::start(jobs), files, n).jobs == jobs,
        match run(EngineView::start(jobs), files, n).pending() {
            ActionView::Run(_) | ActionView::Relay | ActionView::Abort(_) | ActionView::Missing(_) => false,
            _ => true,
        },
    decreases n,
{
    if n > 0 {
        lemma_nothing_to_do(jobs, files, (n - 1) as nat);
        lemma_quiet_step(run(EngineView::start(jobs), files, (n - 1) as nat), files);
    }
}

} // verus!
