use minimake::execution::cmd::{Action, Execute, Job};
use minimake::execution::model::Event;

fn strings(words: &[&str]) -> Vec<String> {
    words.iter().map(|w| w.to_string()).collect()
}

fn job(target: &str, dependencies: &[&str], body: &[&[&str]]) -> Job {
    Job::new(target.to_string(), strings(dependencies), body.iter().map(|line| strings(line)).collect())
}

/// Answers the pending requests with the given events, one by one, and
/// returns the requests that came, the first pending one included.
fn drive(engine: &mut Execute, events: &[Event]) -> Vec<Action> {
    let mut actions = vec![engine.action()];
    for event in events {
        actions.push(engine.execute(*event));
    }
    actions
}

fn enter(s: &str) -> Action {
    Action::Enter(s.to_string())
}

fn mod_time(s: &str) -> Action {
    Action::ModTime(s.to_string())
}

fn asks_exists(s: &str) -> Action {
    Action::Exists(s.to_string())
}

fn run(s: &str) -> Action {
    Action::Run(s.to_string())
}

fn nothing(s: &str) -> Action {
    Action::NothingToDo(s.to_string())
}

#[test]
fn no_jobs_nothing_to_do() {
    let mut engine = Execute::new(vec![]);
    assert_eq!(engine.action(), Action::Finish);
    assert_eq!(engine.execute(Event::Done), Action::Finish);
    assert_eq!(engine.execute(Event::Exists(true)), Action::Finish);
}

#[test]
fn missing_target_is_built() {
    let mut engine = Execute::new(vec![job("out", &["in.c"], &[&["cc", "-o", "out", "in.c"]])]);
    let actions = drive(
        &mut engine,
        &[
            Event::Done,
            Event::ModTime(Some(100)),
            Event::Exists(false),
            Event::Exited(Some(0)),
            Event::Done,
        ],
    );
    assert_eq!(
        actions,
        vec![
            enter("out"),
            mod_time("in.c"),
            asks_exists("out"),
            run("cc -o out in.c"),
            Action::Relay,
            Action::Finish,
        ]
    );
}

#[test]
fn missing_target_is_built_whatever_the_times() {
    for time in [i128::MIN, -1, 0, 1, i128::MAX] {
        let mut engine = Execute::new(vec![job("out", &["a", "b"], &[&["make", "out"]])]);
        let actions = drive(
            &mut engine,
            &[Event::Done, Event::ModTime(Some(time)), Event::ModTime(Some(0)), Event::Exists(false)],
        );
        assert_eq!(actions[4], run("make out"));
    }
}

#[test]
fn chain_builds_the_dependency_first() {
    // `a` is newer than `b`, which is newer than `c`; `c` is the goal.
    let jobs = vec![job("c", &["b"], &[&["cp", "b", "c"]]), job("b", &["a"], &[&["cp", "a", "b"]])];
    let mut engine = Execute::new(jobs);
    let actions = drive(
        &mut engine,
        &[
            Event::Done,
            Event::Done,
            Event::ModTime(Some(30)),
            Event::Exists(true),
            Event::ModTime(Some(20)),
            Event::Exited(Some(0)),
            Event::Done,
            Event::Exists(true),
            Event::ModTime(Some(10)),
            Event::Done,
        ],
    );
    assert_eq!(
        actions,
        vec![
            enter("c"),
            enter("b"),
            mod_time("a"),
            asks_exists("b"),
            mod_time("b"),
            run("cp a b"),
            Action::Relay,
            asks_exists("c"),
            mod_time("c"),
            nothing("c"),
            Action::Finish,
        ]
    );
}

#[test]
fn chain_builds_a_missing_goal_after_its_dependency() {
    let jobs = vec![job("c", &["b"], &[&["cp", "b", "c"]]), job("b", &["a"], &[&["cp", "a", "b"]])];
    let mut engine = Execute::new(jobs);
    let actions = drive(
        &mut engine,
        &[
            Event::Done,
            Event::Done,
            Event::ModTime(Some(30)),
            Event::Exists(true),
            Event::ModTime(Some(20)),
            Event::Exited(Some(0)),
            Event::Done,
            Event::Exists(false),
            Event::Exited(Some(0)),
            Event::Done,
        ],
    );
    assert_eq!(
        actions[5..],
        [run("cp a b"), Action::Relay, asks_exists("c"), run("cp b c"), Action::Relay, Action::Finish]
    );
}

#[test]
fn failing_command_aborts() {
    let jobs = vec![job("out", &[], &[&["false"], &["echo", "never"]])];
    let mut engine = Execute::new(jobs);
    let actions = drive(&mut engine, &[Event::Done, Event::Exists(false), Event::Exited(Some(2))]);
    assert_eq!(actions, vec![enter("out"), asks_exists("out"), run("false"), Action::Abort(2)]);
    for event in [Event::Done, Event::Exited(Some(0)), Event::Exists(false), Event::ModTime(Some(1))] {
        assert_eq!(engine.execute(event), Action::Abort(2));
    }
}

#[test]
fn negative_exit_code_aborts() {
    let mut engine = Execute::new(vec![job("out", &[], &[&["x"]])]);
    let actions = drive(&mut engine, &[Event::Done, Event::Exists(false), Event::Exited(Some(-1))]);
    assert_eq!(actions[3], Action::Abort(-1));
}

#[test]
fn command_without_exit_code_counts_as_done() {
    let jobs = vec![job("out", &[], &[&["first"], &["second"]])];
    let mut engine = Execute::new(jobs);
    let actions = drive(
        &mut engine,
        &[
            Event::Done,
            Event::Exists(false),
            Event::Exited(None),
            Event::Done,
            Event::Exited(Some(0)),
            Event::Done,
        ],
    );
    assert_eq!(
        actions,
        vec![
            enter("out"),
            asks_exists("out"),
            run("first"),
            Action::Relay,
            run("second"),
            Action::Relay,
            Action::Finish,
        ]
    );
}

#[test]
fn up_to_date_job_runs_nothing() {
    let jobs = vec![job("out", &["in.c", "in.h"], &[&["cc", "-o", "out", "in.c"]])];
    let mut engine = Execute::new(jobs);
    let actions = drive(
        &mut engine,
        &[
            Event::Done,
            Event::ModTime(Some(5)),
            Event::ModTime(Some(7)),
            Event::Exists(true),
            Event::ModTime(Some(8)),
            Event::Done,
        ],
    );
    assert_eq!(
        actions,
        vec![
            enter("out"),
            mod_time("in.c"),
            mod_time("in.h"),
            asks_exists("out"),
            mod_time("out"),
            nothing("out"),
            Action::Finish,
        ]
    );
}

#[test]
fn dependency_of_the_same_time_is_not_newer() {
    let mut engine = Execute::new(vec![job("out", &["in"], &[&["x"]])]);
    let actions = drive(
        &mut engine,
        &[Event::Done, Event::ModTime(Some(8)), Event::Exists(true), Event::ModTime(Some(8))],
    );
    assert_eq!(actions[4], nothing("out"));
}

#[test]
fn one_newer_dependency_is_enough() {
    let mut engine = Execute::new(vec![job("out", &["a", "b", "c"], &[&["x"]])]);
    let actions = drive(
        &mut engine,
        &[
            Event::Done,
            Event::ModTime(Some(1)),
            Event::ModTime(Some(9)),
            Event::ModTime(Some(2)),
            Event::Exists(true),
            Event::ModTime(Some(8)),
        ],
    );
    assert_eq!(actions[6], run("x"));
}

#[test]
fn missing_dependency_ends_the_build() {
    let mut engine = Execute::new(vec![job("out", &["gone", "in"], &[&["x"]])]);
    let actions = drive(&mut engine, &[Event::Done, Event::ModTime(None)]);
    assert_eq!(actions, vec![enter("out"), mod_time("gone"), Action::Missing("gone".to_string())]);
    assert_eq!(engine.execute(Event::ModTime(Some(1))), Action::Missing("gone".to_string()));
}

#[test]
fn target_without_time_ends_the_build() {
    let mut engine = Execute::new(vec![job("out", &[], &[&["x"]])]);
    let actions = drive(&mut engine, &[Event::Done, Event::Exists(true), Event::ModTime(None)]);
    assert_eq!(actions[3], Action::Missing("out".to_string()));
    assert_eq!(engine.execute(Event::Done), Action::Missing("out".to_string()));
}

#[test]
fn event_that_answers_nothing_changes_nothing() {
    let mut engine = Execute::new(vec![job("out", &["in"], &[&["x"]])]);
    assert_eq!(engine.execute(Event::Exists(true)), enter("out"));
    assert_eq!(engine.execute(Event::ModTime(Some(1))), enter("out"));
    assert_eq!(engine.execute(Event::Done), mod_time("in"));
    assert_eq!(engine.execute(Event::Done), mod_time("in"));
    assert_eq!(engine.execute(Event::Exists(false)), mod_time("in"));
    assert_eq!(engine.execute(Event::ModTime(Some(1))), asks_exists("out"));
    assert_eq!(engine.execute(Event::ModTime(Some(1))), asks_exists("out"));
    assert_eq!(engine.execute(Event::Exists(false)), run("x"));
    assert_eq!(engine.execute(Event::Done), run("x"));
    assert_eq!(engine.execute(Event::Exited(Some(0))), Action::Relay);
    assert_eq!(engine.execute(Event::Exited(Some(3))), Action::Relay);
    assert_eq!(engine.execute(Event::Done), Action::Finish);
}

#[test]
fn job_without_commands_is_left_at_once() {
    let jobs = vec![job("all", &["lib"], &[]), job("lib", &[], &[])];
    let mut engine = Execute::new(jobs);
    let actions =
        drive(&mut engine, &[Event::Done, Event::Done, Event::Exists(false), Event::Exists(false)]);
    assert_eq!(actions, vec![enter("all"), enter("lib"), asks_exists("lib"), asks_exists("all"), Action::Finish]);
}

#[test]
fn job_dependency_adds_no_time() {
    // `lib` is a job, so its time is never asked for, and `all` is compared
    // with `main.c` only.
    let jobs = vec![job("all", &["lib", "main.c"], &[&["link"]]), job("lib", &[], &[&["ar"]])];
    let mut engine = Execute::new(jobs);
    let actions = drive(
        &mut engine,
        &[
            Event::Done,
            Event::Done,
            Event::Exists(false),
            Event::Exited(Some(0)),
            Event::Done,
            Event::ModTime(Some(1)),
            Event::Exists(true),
            Event::ModTime(Some(2)),
            Event::Done,
        ],
    );
    assert_eq!(
        actions,
        vec![
            enter("all"),
            enter("lib"),
            asks_exists("lib"),
            run("ar"),
            Action::Relay,
            mod_time("main.c"),
            asks_exists("all"),
            mod_time("all"),
            nothing("all"),
            Action::Finish,
        ]
    );
}

#[test]
fn shared_dependency_is_taken_up_each_time() {
    let jobs = vec![
        job("top", &["a", "b"], &[]),
        job("a", &["x"], &[]),
        job("b", &["x"], &[]),
        job("x", &[], &[]),
    ];
    let mut engine = Execute::new(jobs);
    let mut actions = vec![engine.action()];
    for _ in 0..40 {
        let event = match actions.last().unwrap() {
            Action::Exists(_) => Event::Exists(true),
            Action::ModTime(_) => Event::ModTime(Some(0)),
            _ => Event::Done,
        };
        actions.push(engine.execute(event));
    }
    let entered: Vec<&Action> = actions.iter().filter(|a| matches!(a, Action::Enter(_))).collect();
    assert_eq!(entered, vec![&enter("top"), &enter("a"), &enter("x"), &enter("b"), &enter("x")]);
    let told: Vec<&Action> = actions.iter().filter(|a| matches!(a, Action::NothingToDo(_))).collect();
    assert_eq!(told, vec![&nothing("x"), &nothing("a"), &nothing("x"), &nothing("b"), &nothing("top")]);
    assert!(!actions.iter().any(|a| matches!(a, Action::Run(_))));
    assert_eq!(actions.last(), Some(&Action::Finish));
}

#[test]
fn first_job_of_a_name_is_the_one_taken_up() {
    let jobs = vec![
        job("goal", &["dup"], &[]),
        job("dup", &[], &[&["first"]]),
        job("dup", &[], &[&["second"]]),
    ];
    let mut engine = Execute::new(jobs);
    let actions = drive(&mut engine, &[Event::Done, Event::Done, Event::Exists(false)]);
    assert_eq!(actions[3], run("first"));
}

#[test]
fn job_that_depends_on_itself_never_settles() {
    let mut engine = Execute::new(vec![job("loop", &["loop"], &[&["x"]])]);
    assert_eq!(engine.action(), enter("loop"));
    for _ in 0..100 {
        assert_eq!(engine.execute(Event::Done), enter("loop"));
    }
}

#[test]
fn second_build_runs_nothing() {
    // The first build makes `out`; the second finds it newer than `in.c`.
    let jobs = || vec![job("out", &["in.c"], &[&["cc", "-o", "out", "in.c"]])];
    let mut first = Execute::new(jobs());
    let actions = drive(
        &mut first,
        &[Event::Done, Event::ModTime(Some(100)), Event::Exists(false), Event::Exited(Some(0)), Event::Done],
    );
    assert_eq!(actions.iter().filter(|a| matches!(a, Action::Run(_))).count(), 1);
    let mut second = Execute::new(jobs());
    let actions = drive(
        &mut second,
        &[Event::Done, Event::ModTime(Some(100)), Event::Exists(true), Event::ModTime(Some(200)), Event::Done],
    );
    assert_eq!(actions.iter().filter(|a| matches!(a, Action::Run(_))).count(), 0);
    assert!(actions.contains(&nothing("out")));
    assert_eq!(actions.last(), Some(&Action::Finish));
}

#[test]
fn command_lines_are_joined_by_single_spaces() {
    assert_eq!(Execute::render_cmd(&strings(&["cc", "-o", "out", "in.c"])), "cc -o out in.c");
    assert_eq!(Execute::render_cmd(&strings(&["ls"])), "ls");
    assert_eq!(Execute::render_cmd(&strings(&[])), "");
    assert_eq!(Execute::render_cmd(&strings(&["a", "", "b"])), "a  b");
    assert_eq!(Execute::render_cmd(&strings(&["", ""])), " ");
    assert_eq!(Execute::render_cmd(&strings(&["echo", "a b"])), "echo a b");
}

#[test]
fn rebuild_decision() {
    assert!(Execute::needs_rebuild(None, &vec![]));
    assert!(Execute::needs_rebuild(None, &vec![1, 2, 3]));
    assert!(!Execute::needs_rebuild(Some(0), &vec![]));
    assert!(!Execute::needs_rebuild(Some(10), &vec![1, 2, 3]));
    assert!(!Execute::needs_rebuild(Some(3), &vec![1, 2, 3]));
    assert!(Execute::needs_rebuild(Some(2), &vec![1, 2, 3]));
    assert!(Execute::needs_rebuild(Some(2), &vec![3, 1, 1]));
    assert!(Execute::needs_rebuild(Some(-5), &vec![-4]));
    assert!(!Execute::needs_rebuild(Some(i128::MAX), &vec![i128::MAX, i128::MIN]));
}

#[test]
fn messages_for_the_user() {
    assert_eq!(run("cc -o out in.c").message(), Some("cc -o out in.c".to_string()));
    assert_eq!(nothing("out").message(), Some("Nothing to do for \"out\"".to_string()));
    assert_eq!(
        Action::Missing("in.c".to_string()).message(),
        Some("[ERROR] Failed to get last modification time of \"in.c\", apparently it does not exist".to_string())
    );
    assert_eq!(Action::Abort(2).message(), Some("Process exited abnormally with code 2".to_string()));
    assert_eq!(Action::Abort(-1).message(), Some("Process exited abnormally with code -1".to_string()));
    assert_eq!(Action::Abort(127).message(), Some("Process exited abnormally with code 127".to_string()));
    assert_eq!(enter("out").message(), None);
    assert_eq!(mod_time("out").message(), None);
    assert_eq!(asks_exists("out").message(), None);
    assert_eq!(Action::Relay.message(), None);
    assert_eq!(Action::Finish.message(), None);
}

#[test]
fn exit_status_of_the_process() {
    assert_eq!(Action::Finish.exit_status(), Some(0));
    assert_eq!(Action::Abort(2).exit_status(), Some(1));
    assert_eq!(Action::Abort(-7).exit_status(), Some(1));
    assert_eq!(Action::Missing("x".to_string()).exit_status(), None);
    assert_eq!(Action::Relay.exit_status(), None);
    assert_eq!(nothing("x").exit_status(), None);
    assert_eq!(run("x").exit_status(), None);
}

#[test]
fn failing_command_is_reported_and_ends_the_process_with_one() {
    let jobs = vec![job("out", &[], &[&["sh", "fail.sh"], &["echo", "never"]])];
    let mut engine = Execute::new(jobs);
    engine.execute(Event::Done);
    assert_eq!(engine.execute(Event::Exists(false)), run("sh fail.sh"));
    let action = engine.execute(Event::Exited(Some(2)));
    assert!(action.message().unwrap().contains("2"));
    assert_eq!(action.exit_status(), Some(1));
    assert_eq!(engine.execute(Event::Done), Action::Abort(2));
}
