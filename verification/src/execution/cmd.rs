//! The jobs and the engine that executes them.

use vstd::prelude::*;
use vstd::string::*;
use crate::text::to_signed_decimal;
use crate::execution::model::{
    Time, JobView, FrameView, Phase, Event, ActionView, EngineView, find_job, must_rebuild, render,
    lemma_find_job, lemma_step_wf,
};

verus! {

/// The strings of a vector, each by its view.
pub open spec fn words(v: Seq<String>) -> Seq<Seq<char>> {
    v.map_values(|s: String| s@)
}

/// The command lines of a body, each by the views of its words.
pub open spec fn command_lines(body: Seq<Vec<String>>) -> Seq<Seq<Seq<char>>> {
    body.map_values(|line: Vec<String>| words(line@))
}

/// One build rule after expansion: the target, the names it depends on, and
/// the command lines that produce it, each as a list of words.
pub struct Job {
    target: String,
    dependencies: Vec<String>,
    body: Vec<Vec<String>>,
}

impl View for Job {
    type V = JobView;

    closed spec fn view(&self) -> JobView {
        JobView {
            target: self.target@,
            dependencies: words(self.dependencies@),
            body: command_lines(self.body@),
        }
    }
}

impl Job {
    /// A job with the given target, dependencies and command lines. The
    /// target must have a name.
    #[inline]
    pub fn new(target: String, dependencies: Vec<String>, body: Vec<Vec<String>>) -> (job: Self)
        requires
            target@.len() > 0,
        ensures
            job@.wf(),
            job@ == (JobView {
                target: target@,
                dependencies: words(dependencies@),
                body: command_lines(body@),
            }),
    {
        Self { target, dependencies, body }
    }
}

/// The jobs of a build, the default goal first.
pub type Jobs = Vec<Job>;

/// The jobs of a list, each by its view.
pub open spec fn jobs_view(jobs: Seq<Job>) -> Seq<JobView> {
    jobs.map_values(|job: Job| job@)
}

/// A request of the engine to its driver.
#[derive(Debug, PartialEq, Eq)]
pub enum Action {
    /// The engine turns to the job of this target. Nothing is to be done;
    /// the answer is `Event::Done`.
    Enter(String),
    /// Get the modification time of this path. The answer is
    /// `Event::ModTime`.
    ModTime(String),
    /// Find out whether this path exists. The answer is `Event::Exists`.
    Exists(String),
    /// Print this command line and run it through the shell. The answer is
    /// `Event::Exited`.
    Run(String),
    /// Relay what the last command wrote to its standard output, if
    /// anything. The answer is `Event::Done`.
    Relay,
    /// Tell the user that there is nothing to do for this target. The answer
    /// is `Event::Done`.
    NothingToDo(String),
    /// The build fails: this path has no modification time.
    Missing(String),
    /// The build fails: the last command exited with this code. Relay what
    /// it wrote to its standard error, report the code, and end the process
    /// with status 1.
    Abort(i32),
    /// The build is complete.
    Finish,
}

impl View for Action {
    type V = ActionView;

    open spec fn view(&self) -> ActionView {
        match self {
            Action::Enter(s) => ActionView::Enter(s@),
            Action::ModTime(s) => ActionView::ModTime(s@),
            Action::Exists(s) => ActionView::Exists(s@),
            Action::Run(s) => ActionView::Run(s@),
            Action::Relay => ActionView::Relay,
            Action::NothingToDo(s) => ActionView::NothingToDo(s@),
            Action::Missing(s) => ActionView::Missing(s@),
            Action::Abort(code) => ActionView::Abort(*code),
            Action::Finish => ActionView::Finish,
        }
    }
}

/// The view of a string that may be absent.
pub open spec fn string_option_view(s: Option<String>) -> Option<Seq<char>> {
    match s {
        Some(s) => Some(s@),
        None => None,
    }
}

impl Action {
    /// The line that the user is to see with this request, if there is one.
    pub fn message(&self) -> (line: Option<String>)
        ensures
            string_option_view(line) == self@.message(),
    {
        match self {
            Action::Run(rendered) => Some(rendered.clone()),
            Action::NothingToDo(target) => {
                let mut line = String::from_str("Nothing to do for \"");
                line.append(target.as_str());
                line.append("\"");
                Some(line)
            },
            Action::Missing(path) => {
                let mut line = String::from_str("[ERROR] Failed to get last modification time of \"");
                line.append(path.as_str());
                line.append("\", apparently it does not exist");
                Some(line)
            },
            Action::Abort(code) => {
                let mut line = String::from_str("Process exited abnormally with code ");
                line.append(to_signed_decimal(*code).as_str());
                Some(line)
            },
            _ => None,
        }
    }

    /// The status with which the process ends on this request, if the
    /// request ends the build and the build decides the status.
    pub fn exit_status(&self) -> (status: Option<i32>)
        ensures
            status == self@.exit_status(),
    {
        match self {
            Action::Finish => Some(0),
            Action::Abort(_) => Some(1),
            _ => None,
        }
    }
}

/// The work on one job.
struct Frame {
    job: usize,
    dep: usize,
    times: Vec<Time>,
}

impl View for Frame {
    type V = FrameView;

    closed spec fn view(&self) -> FrameView {
        FrameView { job: self.job as int, dep: self.dep as int, times: self.times@ }
    }
}

/// The index of the first job with the given target.
fn find(jobs: &Vec<Job>, name: &String) -> (found: Option<usize>)
    ensures
        match found {
            Some(i) => i < jobs.len() && find_job(jobs_view(jobs@), name@) == Some(i as int),
            None => find_job(jobs_view(jobs@), name@) is None,
        },
{
    let mut i: usize = 0;
    while i < jobs.len()
        invariant
            i <= jobs.len(),
            forall|j: int| 0 <= j < i ==> (#[trigger] jobs_view(jobs@)[j]).target != name@,
        decreases jobs.len() - i,
    {
        if jobs[i].target == *name {
            proof {
                lemma_find_job(jobs_view(jobs@), name@, i as int);
            }
            return Some(i);
        }
        i += 1;
    }
    None
}

/// The state of the engine: the jobs, the work in progress on them, the
/// innermost job last, and the phase of the work on that job.
struct Engine {
    jobs: Jobs,
    stack: Vec<Frame>,
    phase: Phase,
}

impl View for Engine {
    type V = EngineView;

    closed spec fn view(&self) -> EngineView {
        EngineView {
            jobs: jobs_view(self.jobs@),
            stack: self.stack@.map_values(|frame: Frame| frame@),
            phase: self.phase,
        }
    }
}

impl Engine {
    /// The request that is pending.
    fn action(&self) -> (action: Action)
        requires
            self@.wf(),
        ensures
            action@ == self@.pending(),
    {
        match self.phase {
            Phase::Aborted { code } => Action::Abort(code),
            Phase::Finished => Action::Finish,
            Phase::Relay { .. } => Action::Relay,
            _ => {
                let top = &self.stack[self.stack.len() - 1];
                let job = &self.jobs[top.job];
                match self.phase {
                    Phase::DepTime => Action::ModTime(job.dependencies[top.dep].clone()),
                    Phase::MissingDep => Action::Missing(job.dependencies[top.dep].clone()),
                    Phase::Run { line } => Action::Run(Execute::render_cmd(&job.body[line])),
                    Phase::Enter => Action::Enter(job.target.clone()),
                    Phase::TargetExists => Action::Exists(job.target.clone()),
                    Phase::TargetTime => Action::ModTime(job.target.clone()),
                    Phase::MissingTarget => Action::Missing(job.target.clone()),
                    _ => Action::NothingToDo(job.target.clone()),
                }
            },
        }
    }

    /// Turns to the current dependency of the job on top.
    fn settle(&mut self)
        requires
            old(self)@.stack.len() > 0,
            old(self)@.fits(),
        ensures
            final(self)@ == old(self)@.settle(),
    {
        let n = self.stack.len();
        let job = self.stack[n - 1].job;
        let dep = self.stack[n - 1].dep;
        if dep < self.jobs[job].dependencies.len() {
            match find(&self.jobs, &self.jobs[job].dependencies[dep]) {
                Some(j) => {
                    let ghost before = self@.stack;
                    self.stack.push(Frame { job: j, dep: 0, times: Vec::new() });
                    self.phase = Phase::Enter;
                    assert(self@.stack =~= before.push(
                        FrameView { job: j as int, dep: 0, times: Seq::empty() },
                    ));
                },
                None => {
                    self.phase = Phase::DepTime;
                },
            }
        } else {
            self.phase = Phase::TargetExists;
        }
    }

    /// Leaves the job on top.
    fn finish(&mut self)
        requires
            old(self)@.stack.len() > 0,
            old(self)@.fits(),
        ensures
            final(self)@ == old(self)@.finish(),
    {
        let ghost before = self@;
        self.stack.pop();
        assert(self@.stack =~= before.stack.drop_last());
        if self.stack.len() == 0 {
            self.phase = Phase::Finished;
        } else {
            let mut parent = self.stack.pop().unwrap();
            let ghost waiting = parent@;
            assert(parent.dep < self.jobs[parent.job as int].dependencies.len());
            parent.dep = parent.dep + 1;
            self.stack.push(parent);
            assert(self@.stack =~= before.stack.drop_last().drop_last().push(
                FrameView { dep: waiting.dep + 1, ..waiting },
            ));
            self.settle();
        }
    }

    /// Starts to rebuild the job on top.
    fn rebuild(&mut self)
        requires
            old(self)@.stack.len() > 0,
            old(self)@.fits(),
        ensures
            final(self)@ == old(self)@.rebuild(),
    {
        let top = &self.stack[self.stack.len() - 1];
        if self.jobs[top.job].body.len() == 0 {
            self.finish();
        } else {
            self.phase = Phase::Run { line: 0 };
        }
    }

    /// Notes the modification time of the current dependency.
    fn note_time(&mut self, time: Time)
        requires
            old(self)@.wf(),
            old(self)@.phase == Phase::DepTime,
        ensures
            final(self)@ == old(self)@.note_time(time),
    {
        let ghost before = self@;
        let mut top = self.stack.pop().unwrap();
        let ghost frame = top@;
        assert(top.dep < self.jobs[top.job as int].dependencies.len());
        top.dep = top.dep + 1;
        top.times.push(time);
        self.stack.push(top);
        assert(self@.stack =~= before.stack.drop_last().push(
            FrameView { dep: frame.dep + 1, times: frame.times.push(time), ..frame },
        ));
        self.settle();
    }

    /// Takes the driver's answer to the pending request and moves on.
    fn step(&mut self, event: Event)
        requires
            old(self)@.wf(),
        ensures
            final(self)@ == old(self)@.step(event),
            final(self)@.wf(),
    {
        proof {
            lemma_step_wf(self@, event);
        }
        match (self.phase, event) {
            (Phase::Enter, Event::Done) => {
                self.settle();
            },
            (Phase::DepTime, Event::ModTime(Some(time))) => {
                self.note_time(time);
            },
            (Phase::DepTime, Event::ModTime(None)) => {
                self.phase = Phase::MissingDep;
            },
            (Phase::TargetExists, Event::Exists(true)) => {
                self.phase = Phase::TargetTime;
            },
            (Phase::TargetExists, Event::Exists(false)) => {
                self.rebuild();
            },
            (Phase::TargetTime, Event::ModTime(Some(time))) => {
                let top = &self.stack[self.stack.len() - 1];
                if Execute::needs_rebuild(Some(time), &top.times) {
                    self.rebuild();
                } else {
                    self.phase = Phase::Notice;
                }
            },
            (Phase::TargetTime, Event::ModTime(None)) => {
                self.phase = Phase::MissingTarget;
            },
            (Phase::Run { line }, Event::Exited(Some(code))) => {
                if code != 0 {
                    self.phase = Phase::Aborted { code };
                } else {
                    self.phase = Phase::Relay { line };
                }
            },
            (Phase::Run { line }, Event::Exited(None)) => {
                self.phase = Phase::Relay { line };
            },
            (Phase::Relay { line }, Event::Done) => {
                let top = &self.stack[self.stack.len() - 1];
                assert(line < self.jobs[top.job as int].body.len());
                if line + 1 < self.jobs[top.job].body.len() {
                    self.phase = Phase::Run { line: line + 1 };
                } else {
                    self.finish();
                }
            },
            (Phase::Notice, Event::Done) => {
                self.finish();
            },
            _ => {},
        }
    }
}

/// The execution engine: the jobs, and how far the work on them has come.
///
/// The engine is always in a state that can be reached from its start.
pub struct Execute {
    engine: Engine,
}

impl View for Execute {
    type V = EngineView;

    closed spec fn view(&self) -> EngineView {
        self.engine@
    }
}

impl Execute {
    #[verifier::type_invariant]
    spec fn reachable(self) -> bool {
        self.engine@.wf()
    }

    /// An engine for the given jobs, at work on the first of them.
    #[inline]
    pub fn new(jobs: Jobs) -> (engine: Self)
        ensures
            engine@ == EngineView::start(jobs_view(jobs@)),
            engine@.wf(),
    {
        if jobs.len() == 0 {
            let engine = Engine { jobs, stack: Vec::new(), phase: Phase::Finished };
            assert(engine@.stack =~= Seq::empty());
            Self { engine }
        } else {
            let mut stack: Vec<Frame> = Vec::new();
            stack.push(Frame { job: 0, dep: 0, times: Vec::new() });
            let engine = Engine { jobs, stack, phase: Phase::Enter };
            assert(engine@.stack =~= seq![FrameView { job: 0, dep: 0, times: Seq::empty() }]);
            Self { engine }
        }
    }

    /// Whether a job has to be rebuilt, given the modification time of its
    /// target, if the target exists, and the modification times of the
    /// files it depends on.
    pub fn needs_rebuild(target: Option<Time>, times: &Vec<Time>) -> (rebuild: bool)
        ensures
            rebuild == must_rebuild(target, times@),
            target is None ==> rebuild,
            target is Some && (forall|i: int| 0 <= i < times@.len() ==> times@[i] < target->0) ==> !rebuild,
    {
        match target {
            None => true,
            Some(t) => {
                let mut i: usize = 0;
                while i < times.len()
                    invariant
                        i <= times.len(),
                        target == Some(t),
                        forall|j: int| 0 <= j < i ==> times@[j] <= t,
                    decreases times.len() - i,
                {
                    if times[i] > t {
                        return true;
                    }
                    i += 1;
                }
                false
            },
        }
    }

    /// The command line as one string: its words joined by single spaces.
    #[inline]
    pub fn render_cmd(cmd: &Vec<String>) -> (line: String)
        ensures
            line@ == render(words(cmd@)),
    {
        let mut line = String::new();
        let mut i: usize = 0;
        while i < cmd.len()
            invariant
                i <= cmd.len(),
                line@ == render(words(cmd@).take(i as int)),
            decreases cmd.len() - i,
        {
            proof {
                reveal_strlit(" ");
                assert(words(cmd@).take(i + 1).drop_last() =~= words(cmd@).take(i as int));
            }
            if i > 0 {
                line.append(" ");
            }
            line.append(cmd[i].as_str());
            i += 1;
        }
        assert(words(cmd@).take(cmd@.len() as int) =~= words(cmd@));
        line
    }

    /// The request that is pending.
    pub fn action(&self) -> (action: Action)
        ensures
            self@.wf(),
            action@ == self@.pending(),
    {
        proof {
            use_type_invariant(self);
        }
        self.engine.action()
    }

    /// Takes the driver's answer to the pending request, moves on, and
    /// returns the request that is pending then.
    ///
    /// An event that does not answer the pending request changes nothing:
    /// the same request comes back. The requests `Missing`, `Abort` and
    /// `Finish` end the work.
    pub fn execute(&mut self, event: Event) -> (action: Action)
        ensures
            final(self)@ == old(self)@.step(event),
            final(self)@.wf(),
            action@ == final(self)@.pending(),
    {
        proof {
            use_type_invariant(&*self);
        }
        // The state is taken out for the step and put back after it, so that
        // `self` holds a reachable state at every point in between.
        let mut engine = Engine { jobs: Vec::new(), stack: Vec::new(), phase: Phase::Finished };
        core::mem::swap(&mut self.engine, &mut engine);
        engine.step(event);
        let action = engine.action();
        core::mem::swap(&mut self.engine, &mut engine);
        action
    }
}

} // verus!
