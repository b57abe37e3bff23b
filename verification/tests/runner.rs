use xtask::fixup::{everything, markdown, rust, spelling, Command, Place, Step};
use xtask::runner::{Reply, Request, Runner};

fn path(list: &[&str]) -> Vec<String> {
    list.iter().map(|name| name.to_string()).collect()
}

fn root() -> Vec<String> {
    path(&["home", "me", "proj"])
}

/// A request in one line.
fn show(request: &Request) -> String {
    match request {
        Request::ChangeDir(dir) => format!("cd {}", dir.join("/")),
        Request::Collect(dir, extension) => format!("collect {} {}", dir.join("/"), extension),
        Request::Run(command, files) => {
            let mut words = vec![command.program.clone()];
            words.extend(command.args.iter().cloned());
            words.extend(files.iter().map(|file| file.join("/")));
            words.join(" ")
        }
        Request::Succeeded => "succeeded".to_string(),
        Request::Failed => "failed".to_string(),
    }
}

/// Stands in for the tools: writes down every request, finds `files` when asked to
/// collect, and lets the request with the number `failing` fail.
fn record(steps: Vec<Step>, files: Vec<Vec<String>>, failing: Option<usize>) -> Vec<String> {
    let mut runner = Runner::new(root(), steps);
    let mut trace = Vec::new();
    loop {
        let request = runner.request();
        trace.push(show(&request));
        let reply = match request {
            Request::Succeeded | Request::Failed => return trace,
            _ if failing == Some(trace.len() - 1) => Reply::Failed,
            Request::Collect(_, _) => Reply::Collected(files.clone()),
            _ => Reply::Done,
        };
        runner.advance(reply);
    }
}

#[test]
fn spelling_runs_to_the_end() {
    assert_eq!(
        record(spelling(), vec![], None),
        ["cd home/me/proj", "codespell --write-changes", "succeeded"]
    );
}

#[test]
fn everything_invokes_the_tools_in_the_fixed_order() {
    let files = vec![path(&["a.md"]), path(&["sub", "b.md"])];
    assert_eq!(
        record(everything(), files, None),
        [
            "cd home/me/proj",
            "codespell --write-changes",
            "cd home/me/proj/.github/cue",
            "cue vet --concrete",
            "cd home/me/proj/.github/cue",
            "cue fmt --simplify",
            "cd home/me/proj/.github/cue",
            "cue cmd regen-ci-yaml",
            "cd home/me/proj",
            "collect home/me/proj md",
            "prettier --prose-wrap always --write a.md sub/b.md",
            "cd home/me/proj",
            "cargo fix --allow-no-vcs --all-features --edition-idioms",
            "cargo clippy --all-targets --all-features --fix --allow-no-vcs",
            "cargo clippy --all-targets --all-features -- -D warnings",
            "cd home/me/proj",
            "cargo fmt",
            "succeeded",
        ]
    );
}

#[test]
fn the_formatter_gets_exactly_the_collected_files() {
    let files = vec![path(&["a.md"]), path(&["sub", "b.md"])];
    let mut runner = Runner::new(root(), markdown());
    runner.advance(Reply::Done);
    match runner.request() {
        Request::Collect(dir, extension) => {
            assert_eq!(dir, root());
            assert_eq!(extension, "md");
        }
        request => panic!("{:?}", request),
    }
    runner.advance(Reply::Collected(files.clone()));
    match runner.request() {
        Request::Run(command, given) => {
            assert_eq!(command.program, "prettier");
            assert_eq!(command.args, vec!["--prose-wrap", "always", "--write"]);
            assert_eq!(given, files);
        }
        request => panic!("{:?}", request),
    }
    runner.advance(Reply::Done);
    assert!(matches!(runner.request(), Request::Succeeded));
}

#[test]
fn the_formatter_runs_without_files_when_none_were_found() {
    assert_eq!(
        record(markdown(), vec![], None),
        [
            "cd home/me/proj",
            "collect home/me/proj md",
            "prettier --prose-wrap always --write",
            "succeeded",
        ]
    );
}

#[test]
fn a_failed_step_ends_the_task() {
    assert_eq!(
        record(rust(), vec![], Some(2)),
        [
            "cd home/me/proj",
            "cargo fix --allow-no-vcs --all-features --edition-idioms",
            "cargo clippy --all-targets --all-features --fix --allow-no-vcs",
            "failed",
        ]
    );
}

#[test]
fn a_failed_step_ends_the_composite_task_too() {
    assert_eq!(
        record(everything(), vec![], Some(3)),
        [
            "cd home/me/proj",
            "codespell --write-changes",
            "cd home/me/proj/.github/cue",
            "cue vet --concrete",
            "failed",
        ]
    );
}

#[test]
fn a_failed_collection_ends_the_task_before_the_formatter() {
    assert_eq!(
        record(markdown(), vec![path(&["a.md"])], Some(1)),
        ["cd home/me/proj", "collect home/me/proj md", "failed"]
    );
}

#[test]
fn every_step_can_be_the_one_that_fails() {
    let whole = record(everything(), vec![], None);
    for failing in 0..whole.len() - 1 {
        let trace = record(everything(), vec![], Some(failing));
        assert_eq!(trace.len(), failing + 2);
        assert_eq!(trace[..failing + 1], whole[..failing + 1]);
        assert_eq!(trace[failing + 1], "failed");
    }
}

#[test]
fn nothing_is_asked_for_after_a_failure() {
    let mut runner = Runner::new(root(), everything());
    runner.advance(Reply::Done);
    runner.advance(Reply::Failed);
    for reply in [Reply::Done, Reply::Collected(vec![path(&["a.md"])]), Reply::Failed, Reply::Done] {
        runner.advance(reply);
        assert!(matches!(runner.request(), Request::Failed));
    }
}

#[test]
fn nothing_is_asked_for_after_the_end() {
    let mut runner = Runner::new(root(), spelling());
    runner.advance(Reply::Done);
    runner.advance(Reply::Done);
    assert!(matches!(runner.request(), Request::Succeeded));
    for reply in [Reply::Failed, Reply::Done, Reply::Collected(vec![])] {
        runner.advance(reply);
        assert!(matches!(runner.request(), Request::Succeeded));
    }
}

#[test]
fn a_task_without_steps_succeeds_at_once() {
    let runner = Runner::new(root(), vec![]);
    assert!(matches!(runner.request(), Request::Succeeded));
}

#[test]
fn asking_twice_gives_the_same_request() {
    let runner = Runner::new(root(), spelling());
    assert_eq!(show(&runner.request()), show(&runner.request()));
}

#[test]
fn a_reply_of_the_wrong_kind_fails_the_task() {
    let mut runner = Runner::new(root(), markdown());
    runner.advance(Reply::Collected(vec![]));
    assert!(matches!(runner.request(), Request::Failed));

    let mut runner = Runner::new(root(), markdown());
    runner.advance(Reply::Done);
    runner.advance(Reply::Done);
    assert!(matches!(runner.request(), Request::Failed));
}

#[test]
fn files_follow_only_the_command_that_wants_them() {
    let steps = vec![
        Step::Collect(Place::CueDir, "cue".to_string()),
        Step::Run(Command { program: "plain".to_string(), args: vec![] }),
        Step::RunOnFiles(Command { program: "onfiles".to_string(), args: vec!["-x".to_string()] }),
    ];
    assert_eq!(
        record(steps, vec![path(&["ci.cue"])], None),
        ["collect home/me/proj/.github/cue cue", "plain", "onfiles -x ci.cue", "succeeded"]
    );
}
