//! The execution engine as a state machine on mathematical values.
//!
//! The engine walks the dependencies of the first job depth first. It never
//! touches the file system and never runs a command: in every state it has
//! one request pending, the driver performs it and answers with an event,
//! and the event moves the engine to its next state.

use vstd::prelude::*;
use crate::text::signed_decimal;

verus! {

/// A modification time: nanoseconds since the Unix epoch.
pub type Time = i128;

/// A job as a mathematical value.
pub struct JobView {
    pub target: Seq<char>,
    pub dependencies: Seq<Seq<char>>,
    pub body: Seq<Seq<Seq<char>>>,
}

impl JobView {
    /// Whether the job is fit to be built: its target has a name.
    pub open spec fn wf(self) -> bool {
        self.target.len() > 0
    }
}

/// The work on one job: which job, how many of its dependencies are
/// resolved, and the modification times of those among them that are files.
pub struct FrameView {
    pub job: int,
    pub dep: int,
    pub times: Seq<Time>,
}

/// Where the engine stands in its work on the job on top of the stack.
#[derive(Clone, Copy, Debug, PartialEq, Eq, Structural)]
pub enum Phase {
    /// The job has just been taken up.
    Enter,
    /// The modification time of the current dependency is asked for.
    DepTime,
    /// It is asked whether the target exists.
    TargetExists,
    /// The modification time of the target is asked for.
    TargetTime,
    /// The command line of this index is to be run.
    Run { line: usize },
    /// The output of the command line of this index is to be relayed.
    Relay { line: usize },
    /// The job is up to date, and the user is to be told so.
    Notice,
    /// The current dependency has no modification time. Final.
    MissingDep,
    /// The target exists and has no modification time. Final.
    MissingTarget,
    /// A command line has exited with this code, which is not zero. Final.
    Aborted { code: i32 },
    /// All is done. Final.
    Finished,
}

/// What the driver reports back to the engine.
#[derive(Clone, Copy, Debug, PartialEq, Eq, Structural)]
pub enum Event {
    /// A request that asks for no answer has been performed.
    Done,
    /// The modification time of the path asked for, if it could be had.
    ModTime(Option<Time>),
    /// Whether the path asked for exists.
    Exists(bool),
    /// The command has run; its exit code, if it has one.
    Exited(Option<i32>),
}

/// A request to the driver, as a mathematical value.
pub enum ActionView {
    Enter(Seq<char>),
    ModTime(Seq<char>),
    Exists(Seq<char>),
    Run(Seq<char>),
    Relay,
    NothingToDo(Seq<char>),
    Missing(Seq<char>),
    Abort(i32),
    Finish,
}

impl ActionView {
    /// The line that the user is to see with this request, if there is one:
    /// the command line that is run, the notice that there is nothing to do,
    /// or what went wrong.
    pub open spec fn message(self) -> Option<Seq<char>> {
        match self {
            ActionView::Run(line) => Some(line),
            ActionView::NothingToDo(target) => Some("Nothing to do for \""@ + target + "\""@),
            ActionView::Missing(path) => Some(
                "[ERROR] Failed to get last modification time of \""@ + path
                    + "\", apparently it does not exist"@,
            ),
            ActionView::Abort(code) => Some(
                "Process exited abnormally with code "@ + signed_decimal(code as int),
            ),
            _ => None,
        }
    }

    /// The status with which the process ends on this request, if the
    /// request ends the build and the build decides the status: 0 after a
    /// complete build, 1 after a command that failed.
    pub open spec fn exit_status(self) -> Option<i32> {
        match self {
            ActionView::Finish => Some(0i32),
            ActionView::Abort(_) => Some(1i32),
            _ => None,
        }
    }
}

/// The engine as a mathematical value.
pub struct EngineView {
    pub jobs: Seq<JobView>,
    pub stack: Seq<FrameView>,
    pub phase: Phase,
}

/// Whether `i` is the index of the first job with the given target.
pub open spec fn is_first_job(jobs: Seq<JobView>, name: Seq<char>, i: int) -> bool {
    &&& 0 <= i < jobs.len()
    &&& jobs[i].target == name
    &&& forall|j: int| 0 <= j < i ==> (#[trigger] jobs[j]).target != name
}

/// The index of the first job with the given target, if there is one.
pub open spec fn find_job(jobs: Seq<JobView>, name: Seq<char>) -> Option<int> {
    if exists|i: int| 0 <= i < jobs.len() && (#[trigger] jobs[i]).target == name {
        Some(choose|i: int| is_first_job(jobs, name, i))
    } else {
        None
    }
}

/// Whether a job has to be rebuilt: always if its target does not exist,
/// else if one of its file dependencies is strictly newer than the target.
pub open spec fn must_rebuild(target: Option<Time>, times: Seq<Time>) -> bool {
    match target {
        None => true,
        Some(t) => exists|i: int| 0 <= i < times.len() && #[trigger] times[i] > t,
    }
}

/// The words of a command line joined by single spaces.
pub open spec fn render(cmd: Seq<Seq<char>>) -> Seq<char>
    decreases cmd.len(),
{
    if cmd.len() == 0 {
        Seq::empty()
    } else if cmd.len() == 1 {
        cmd[0]
    } else {
        render(cmd.drop_last()) + seq![' '] + cmd.last()
    }
}

impl EngineView {
    /// The work on top of the stack.
    pub open spec fn top(self) -> FrameView {
        self.stack.last()
    }

    /// The job on top of the stack.
    pub open spec fn job(self) -> JobView {
        self.jobs[self.top().job]
    }

    /// The same engine in another phase.
    pub open spec fn at(self, phase: Phase) -> EngineView {
        EngineView { phase, ..self }
    }

    /// Whether the engine has come to an end.
    pub open spec fn is_final(self) -> bool {
        match self.phase {
            Phase::MissingDep | Phase::MissingTarget | Phase::Aborted { .. } | Phase::Finished => true,
            _ => false,
        }
    }

    /// The name of the dependency that frame `i` stands at.
    pub open spec fn dep_name(self, i: int) -> Seq<char> {
        self.jobs[self.stack[i].job].dependencies[self.stack[i].dep]
    }

    /// Whether the frames fit the jobs and one another: every frame names a
    /// job, counts dependencies of that job and has noted no more times than
    /// it has counted dependencies, and every frame but the top one waits
    /// for the job above it, which is the job that its current dependency
    /// names.
    pub open spec fn fits(self) -> bool {
        &&& forall|i: int|
            0 <= i < self.stack.len() ==> {
                &&& 0 <= (#[trigger] self.stack[i]).job < self.jobs.len()
                &&& 0 <= self.stack[i].dep <= self.jobs[self.stack[i].job].dependencies.len()
                &&& self.stack[i].times.len() <= self.stack[i].dep
            }
        &&& forall|i: int|
            0 <= i < self.stack.len() - 1 ==> {
                &&& (#[trigger] self.stack[i]).dep < self.jobs[self.stack[i].job].dependencies.len()
                &&& find_job(self.jobs, self.dep_name(i)) == Some(self.stack[i + 1].job)
            }
    }

    /// Whether the state can be reached: the frames fit, and the phase fits
    /// the job on top. In particular a dependency whose time is asked for
    /// names no job, and the target of a job is looked at, and the job is
    /// rebuilt, only after all its dependencies are resolved.
    pub open spec fn wf(self) -> bool {
        &&& self.fits()
        &&& match self.phase {
            Phase::Finished => self.stack.len() == 0,
            Phase::Aborted { code } => code != 0,
            Phase::Enter => self.stack.len() > 0 && self.top().dep == 0,
            Phase::DepTime | Phase::MissingDep => {
                &&& self.stack.len() > 0
                &&& self.top().dep < self.job().dependencies.len()
                &&& find_job(self.jobs, self.dep_name(self.stack.len() - 1)) is None
            },
            Phase::Run { line } | Phase::Relay { line } => {
                &&& self.stack.len() > 0
                &&& self.top().dep == self.job().dependencies.len()
                &&& line < self.job().body.len()
            },
            Phase::TargetExists | Phase::TargetTime | Phase::Notice | Phase::MissingTarget => {
                &&& self.stack.len() > 0
                &&& self.top().dep == self.job().dependencies.len()
            },
        }
    }

    /// The engine at its start: at work on the first job, or finished if
    /// there is no job.
    pub open spec fn start(jobs: Seq<JobView>) -> EngineView {
        if jobs.len() == 0 {
            EngineView { jobs, stack: Seq::empty(), phase: Phase::Finished }
        } else {
            EngineView {
                jobs,
                stack: seq![FrameView { job: 0, dep: 0, times: Seq::empty() }],
                phase: Phase::Enter,
            }
        }
    }

    /// Turns to the current dependency of the job on top: takes up the job
    /// of that name if there is one, else asks for the modification time of
    /// the file of that name. With all dependencies resolved, asks whether
    /// the target exists.
    pub open spec fn settle(self) -> EngineView {
        let top = self.top();
        let job = self.job();
        if top.dep < job.dependencies.len() {
            match find_job(self.jobs, job.dependencies[top.dep]) {
                Some(j) => EngineView {
                    stack: self.stack.push(FrameView { job: j, dep: 0, times: Seq::empty() }),
                    phase: Phase::Enter,
                    ..self
                },
                None => self.at(Phase::DepTime),
            }
        } else {
            self.at(Phase::TargetExists)
        }
    }

    /// Leaves the job on top. The job below, which waited for it, goes on
    /// with its next dependency; with no job below, all is done.
    pub open spec fn finish(self) -> EngineView {
        let rest = self.stack.drop_last();
        if rest.len() == 0 {
            EngineView { stack: rest, phase: Phase::Finished, ..self }
        } else {
            let parent = rest.last();
            EngineView {
                stack: rest.drop_last().push(FrameView { dep: parent.dep + 1, ..parent }),
                ..self
            }.settle()
        }
    }

    /// Starts to rebuild the job on top: with its first command line, or by
    /// leaving it if it has none.
    pub open spec fn rebuild(self) -> EngineView {
        if self.job().body.len() == 0 {
            self.finish()
        } else {
            self.at(Phase::Run { line: 0 })
        }
    }

    /// Notes the modification time of the current dependency and goes on
    /// with the next.
    pub open spec fn note_time(self, time: Time) -> EngineView {
        let top = self.top();
        EngineView {
            stack: self.stack.drop_last().push(
                FrameView { dep: top.dep + 1, times: top.times.push(time), ..top },
            ),
            ..self
        }.settle()
    }

    /// The state after `event`. An event that does not answer the pending
    /// request leaves the state as it is, and so does every event in a final
    /// state.
    pub open spec fn step(self, event: Event) -> EngineView {
        match (self.phase, event) {
            (Phase::Enter, Event::Done) => self.settle(),
            (Phase::DepTime, Event::ModTime(Some(time))) => self.note_time(time),
            (Phase::DepTime, Event::ModTime(None)) => self.at(Phase::MissingDep),
            (Phase::TargetExists, Event::Exists(true)) => self.at(Phase::TargetTime),
            (Phase::TargetExists, Event::Exists(false)) => self.rebuild(),
            (Phase::TargetTime, Event::ModTime(Some(time))) => if must_rebuild(
                Some(time),
                self.top().times,
            ) {
                self.rebuild()
            } else {
                self.at(Phase::Notice)
            },
            (Phase::TargetTime, Event::ModTime(None)) => self.at(Phase::MissingTarget),
            (Phase::Run { line }, Event::Exited(Some(code))) => if code != 0 {
                self.at(Phase::Aborted { code })
            } else {
                self.at(Phase::Relay { line })
            },
            (Phase::Run { line }, Event::Exited(None)) => self.at(Phase::Relay { line }),
            (Phase::Relay { line }, Event::Done) => if line + 1 < self.job().body.len() {
                self.at(Phase::Run { line: (line + 1) as usize })
            } else {
                self.finish()
            },
            (Phase::Notice, Event::Done) => self.finish(),
            _ => self,
        }
    }

    /// The request that is pending in this state.
    pub open spec fn pending(self) -> ActionView {
        match self.phase {
            Phase::Enter => ActionView::Enter(self.job().target),
            Phase::DepTime => ActionView::ModTime(self.job().dependencies[self.top().dep]),
            Phase::TargetExists => ActionView::Exists(self.job().target),
            Phase::TargetTime => ActionView::ModTime(self.job().target),
            Phase::Run { line } => ActionView::Run(render(self.job().body[line as int])),
            Phase::Relay { .. } => ActionView::Relay,
            Phase::Notice => ActionView::NothingToDo(self.job().target),
            Phase::MissingDep => ActionView::Missing(self.job().dependencies[self.top().dep]),
            Phase::MissingTarget => ActionView::Missing(self.job().target),
            Phase::Aborted { code } => ActionView::Abort(code),
            Phase::Finished => ActionView::Finish,
        }
    }
}

/// `find_job` is the one index that `is_first_job` holds of.
pub proof fn lemma_find_job(jobs: Seq<JobView>, name: Seq<char>, i: int)
    requires
        is_first_job(jobs, name, i),
    ensures
        find_job(jobs, name) == Some(i),
{
    let j = choose|j: int| is_first_job(jobs, name, j);
}

/// What `find_job` finds is the first job of that name.
pub proof fn lemma_found_job(jobs: Seq<JobView>, name: Seq<char>)
    requires
        find_job(jobs, name) is Some,
    ensures
        is_first_job(jobs, name, find_job(jobs, name)->0),
{
    let w = choose|i: int| 0 <= i < jobs.len() && (#[trigger] jobs[i]).target == name;
    lemma_first_job_exists(jobs, name, w);
}

/// Where a job has the given name, there is a first job of that name.
pub proof fn lemma_first_job_exists(jobs: Seq<JobView>, name: Seq<char>, w: int)
    requires
        0 <= w < jobs.len(),
        jobs[w].target == name,
    ensures
        exists|i: int| is_first_job(jobs, name, i),
    decreases w,
{
    if exists|j: int| 0 <= j < w && (#[trigger] jobs[j]).target == name {
        let j = choose|j: int| 0 <= j < w && (#[trigger] jobs[j]).target == name;
        lemma_first_job_exists(jobs, name, j);
    } else {
        assert(is_first_job(jobs, name, w));
    }
}

/// `settle` keeps a reachable state reachable, and keeps the jobs.
pub proof fn lemma_settle_wf(s: EngineView)
    requires
        s.stack.len() > 0,
        s.fits(),
    ensures
        s.settle().wf(),
        s.settle().jobs == s.jobs,
{
    if s.top().dep < s.job().dependencies.len() {
        let name = s.job().dependencies[s.top().dep];
        if find_job(s.jobs, name) is Some {
            lemma_found_job(s.jobs, name);
        }
    }
}

/// `finish` keeps a reachable state reachable, and keeps the jobs.
pub proof fn lemma_finish_wf(s: EngineView)
    requires
        s.stack.len() > 0,
        s.fits(),
    ensures
        s.finish().wf(),
        s.finish().jobs == s.jobs,
{
    let rest = s.stack.drop_last();
    if rest.len() > 0 {
        let parent = rest.last();
        lemma_settle_wf(
            EngineView {
                stack: rest.drop_last().push(FrameView { dep: parent.dep + 1, ..parent }),
                ..s
            },
        );
    }
}

/// `note_time` keeps a reachable state reachable, and keeps the jobs.
pub proof fn lemma_note_time_wf(s: EngineView, time: Time)
    requires
        s.wf(),
        s.phase == Phase::DepTime,
    ensures
        s.note_time(time).wf(),
        s.note_time(time).jobs == s.jobs,
{
    let top = s.top();
    lemma_settle_wf(
        EngineView {
            stack: s.stack.drop_last().push(
                FrameView { dep: top.dep + 1, times: top.times.push(time), ..top },
            ),
            ..s
        },
    );
}

/// Every step keeps a reachable state reachable, and keeps the jobs.
pub proof fn lemma_step_wf(s: EngineView, event: Event)
    requires
        s.wf(),
    ensures
        s.step(event).wf(),
        s.step(event).jobs == s.jobs,
{
    if s.stack.len() > 0 {
        match s.phase {
            Phase::Enter | Phase::TargetExists | Phase::TargetTime | Phase::Notice | Phase::Relay { .. } => {
                lemma_settle_wf(s);
                lemma_finish_wf(s);
            },
            Phase::DepTime => {
                if let Event::ModTime(Some(time)) = event {
                    lemma_note_time_wf(s, time);
                }
            },
            _ => {},
        }
    }
}

/// A job whose target does not exist is rebuilt, whatever the times of its
/// dependencies: the engine goes on with the first command line of the job,
/// or leaves the job if it has none.
pub proof fn lemma_missing_target(s: EngineView)
    requires
        s.wf(),
        s.phase == Phase::TargetExists,
    ensures
        s.step(Event::Exists(false)) == s.rebuild(),
        s.job().body.len() > 0 ==> s.step(Event::Exists(false)).pending() == ActionView::Run(
            render(s.job().body[0]),
        ),
{
}

/// A job whose target is newer than every file it depends on is not
/// rebuilt: the engine tells the user that there is nothing to do for it.
pub proof fn lemma_newer_target(s: EngineView, time: Time)
    requires
        s.wf(),
        s.phase == Phase::TargetTime,
        forall|k: int| 0 <= k < s.top().times.len() ==> s.top().times[k] < time,
    ensures
        s.step(Event::ModTime(Some(time))).pending() == ActionView::NothingToDo(s.job().target),
        s.step(Event::ModTime(Some(time))).stack == s.stack,
{
}

} // verus!
