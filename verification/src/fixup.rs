//! The fix-up tasks, each as the list of steps that it is made of.

use vstd::prelude::*;

verus! {

/// A directory that a step works in.
#[derive(Clone, Copy, Debug, PartialEq, Eq, Structural)]
pub enum Place {
    /// The top of the project.
    ProjectRoot,
    /// The directory of the CUE sources, `.github/cue` below the top.
    CueDir,
}

/// A program and the arguments it is started with.
#[derive(Debug)]
pub struct Command {
    pub program: String,
    pub args: Vec<String>,
}

/// A `Command` as a plain value.
#[verifier::ext_equal]
pub struct CommandView {
    pub program: Seq<char>,
    pub args: Seq<Seq<char>>,
}

impl DeepView for Command {
    type V = CommandView;

    open spec fn deep_view(&self) -> CommandView {
        CommandView { program: self.program@, args: self.args.deep_view() }
    }
}

/// The command that `line` spells out: a program, then its arguments.
pub open spec fn command_line(program: Seq<char>, args: Seq<Seq<char>>) -> CommandView {
    CommandView { program, args }
}

fn command(program: &str, words: Vec<&str>) -> (made: Command)
    ensures
        made.deep_view().program == program@,
        made.deep_view().args.len() == words.len(),
        forall|j: int| 0 <= j < words.len() ==> made.deep_view().args[j] == words[j]@,
{
    let mut args: Vec<String> = Vec::new();
    let mut i: usize = 0;
    while i < words.len()
        invariant
            i <= words.len(),
            args.len() == i,
            forall|j: int| 0 <= j < i ==> args[j]@ == words[j]@,
        decreases words.len() - i,
    {
        args.push(words[i].to_owned());
        i += 1;
    }
    Command { program: program.to_owned(), args }
}

/// One step of a task.
#[derive(Debug)]
pub enum Step {
    /// Go to a directory, and say so.
    Enter(Place),
    /// Collect, from a directory down, the files with an extension.
    Collect(Place, String),
    /// Run a command.
    Run(Command),
    /// Run a command on the files collected last, which follow its arguments.
    RunOnFiles(Command),
}

/// A `Step` as a plain value.
#[verifier::ext_equal]
pub enum StepView {
    Enter(Place),
    Collect(Place, Seq<char>),
    Run(CommandView),
    RunOnFiles(CommandView),
}

impl DeepView for Step {
    type V = StepView;

    open spec fn deep_view(&self) -> StepView {
        match self {
            Step::Enter(place) => StepView::Enter(*place),
            Step::Collect(place, extension) => StepView::Collect(*place, extension@),
            Step::Run(command) => StepView::Run(command.deep_view()),
            Step::RunOnFiles(command) => StepView::RunOnFiles(command.deep_view()),
        }
    }
}

/// The steps that correct misspellings throughout the project.
pub open spec fn spelling_steps() -> Seq<StepView> {
    seq![
        StepView::Enter(Place::ProjectRoot),
        StepView::Run(command_line("codespell"@, seq!["--write-changes"@])),
    ]
}

/// The steps that format every Markdown file of the project.
pub open spec fn format_markdown_steps() -> Seq<StepView> {
    seq![
        StepView::Enter(Place::ProjectRoot),
        StepView::Collect(Place::ProjectRoot, "md"@),
        StepView::RunOnFiles(
            command_line("prettier"@, seq!["--prose-wrap"@, "always"@, "--write"@]),
        ),
    ]
}

/// The steps that mend what the Rust linters can mend, and then fail on any
/// lint that is left.
pub open spec fn lint_rust_steps() -> Seq<StepView> {
    seq![
        StepView::Enter(Place::ProjectRoot),
        StepView::Run(
            command_line(
                "cargo"@,
                seq!["fix"@, "--allow-no-vcs"@, "--all-features"@, "--edition-idioms"@],
            ),
        ),
        StepView::Run(
            command_line(
                "cargo"@,
                seq![
                    "clippy"@,
                    "--all-targets"@,
                    "--all-features"@,
                    "--fix"@,
                    "--allow-no-vcs"@,
                ],
            ),
        ),
        StepView::Run(
            command_line(
                "cargo"@,
                seq![
                    "clippy"@,
                    "--all-targets"@,
                    "--all-features"@,
                    "--"@,
                    "-D"@,
                    "warnings"@,
                ],
            ),
        ),
    ]
}

/// The steps that format the Rust sources.
pub open spec fn format_rust_steps() -> Seq<StepView> {
    seq![
        StepView::Enter(Place::ProjectRoot),
        StepView::Run(command_line("cargo"@, seq!["fmt"@])),
    ]
}

/// The steps that check the CUE sources, every value of which must be
/// concrete.
pub open spec fn lint_cue_steps() -> Seq<StepView> {
    seq![
        StepView::Enter(Place::CueDir),
        StepView::Run(command_line("cue"@, seq!["vet"@, "--concrete"@])),
    ]
}

/// The steps that format the CUE sources.
pub open spec fn format_cue_steps() -> Seq<StepView> {
    seq![
        StepView::Enter(Place::CueDir),
        StepView::Run(command_line("cue"@, seq!["fmt"@, "--simplify"@])),
    ]
}

/// The steps that write the CI workflow files anew from the CUE sources.
pub open spec fn regenerate_ci_yaml_steps() -> Seq<StepView> {
    seq![
        StepView::Enter(Place::CueDir),
        StepView::Run(command_line("cue"@, seq!["cmd"@, "regen-ci-yaml"@])),
    ]
}

/// The steps of the Markdown task.
pub open spec fn markdown_steps() -> Seq<StepView> {
    format_markdown_steps()
}

/// The steps of the Rust task: lint, then format.
pub open spec fn rust_steps() -> Seq<StepView> {
    lint_rust_steps() + format_rust_steps()
}

/// The steps of the GitHub Actions task: check, format, regenerate.
pub open spec fn github_actions_steps() -> Seq<StepView> {
    lint_cue_steps() + format_cue_steps() + regenerate_ci_yaml_steps()
}

/// The steps of the task that does everything: spelling first, since it may
/// touch any file, then GitHub Actions, Markdown and Rust.
pub open spec fn everything_steps() -> Seq<StepView> {
    spelling_steps() + github_actions_steps() + markdown_steps() + rust_steps()
}

/// `first` followed by `second`.
fn followed_by(first: Vec<Step>, second: Vec<Step>) -> (both: Vec<Step>)
    ensures
        both.deep_view() == first.deep_view() + second.deep_view(),
{
    let mut both = first;
    let mut rest = second;
    both.append(&mut rest);
    both
}

/// Corrects misspellings throughout the project, in place.
pub fn spelling() -> (steps: Vec<Step>)
    ensures
        steps.deep_view() == spelling_steps(),
{
    let steps = vec![
        Step::Enter(Place::ProjectRoot),
        Step::Run(command("codespell", vec!["--write-changes"])),
    ];
    assert(steps.deep_view() =~~= spelling_steps());
    steps
}

/// Formats every Markdown file of the project, in place.
pub fn markdown() -> (steps: Vec<Step>)
    ensures
        steps.deep_view() == markdown_steps(),
{
    format_markdown()
}

/// Goes to the top of the project, collects the Markdown files below it, and
/// has `prettier` rewrite them with wrapped prose.
pub fn format_markdown() -> (steps: Vec<Step>)
    ensures
        steps.deep_view() == format_markdown_steps(),
{
    let steps = vec![
        Step::Enter(Place::ProjectRoot),
        Step::Collect(Place::ProjectRoot, "md".to_owned()),
        Step::RunOnFiles(command("prettier", vec!["--prose-wrap", "always", "--write"])),
    ];
    assert(steps.deep_view() =~~= format_markdown_steps());
    steps
}

/// Mends lints in the Rust sources and formats them, in place.
pub fn rust() -> (steps: Vec<Step>)
    ensures
        steps.deep_view() == rust_steps(),
{
    followed_by(lint_rust(), format_rust())
}

/// Lets `cargo fix` and `clippy` mend what they can, then runs `clippy` once
/// more with warnings denied, so that a lint that is left fails the task.
pub fn lint_rust() -> (steps: Vec<Step>)
    ensures
        steps.deep_view() == lint_rust_steps(),
{
    let steps = vec![
        Step::Enter(Place::ProjectRoot),
        Step::Run(
            command("cargo", vec!["fix", "--allow-no-vcs", "--all-features", "--edition-idioms"]),
        ),
        Step::Run(
            command(
                "cargo",
                vec!["clippy", "--all-targets", "--all-features", "--fix", "--allow-no-vcs"],
            ),
        ),
        Step::Run(
            command(
                "cargo",
                vec!["clippy", "--all-targets", "--all-features", "--", "-D", "warnings"],
            ),
        ),
    ];
    assert(steps.deep_view() =~~= lint_rust_steps());
    steps
}

/// Formats the Rust sources with `cargo fmt`.
pub fn format_rust() -> (steps: Vec<Step>)
    ensures
        steps.deep_view() == format_rust_steps(),
{
    let steps = vec![Step::Enter(Place::ProjectRoot), Step::Run(command("cargo", vec!["fmt"]))];
    assert(steps.deep_view() =~~= format_rust_steps());
    steps
}

/// Checks and formats the CUE sources and writes the CI workflow files anew.
pub fn github_actions() -> (steps: Vec<Step>)
    ensures
        steps.deep_view() == github_actions_steps(),
{
    followed_by(followed_by(lint_cue(), format_cue()), regenerate_ci_yaml())
}

/// Checks the CUE sources with `cue vet`.
pub fn lint_cue() -> (steps: Vec<Step>)
    ensures
        steps.deep_view() == lint_cue_steps(),
{
    let steps = vec![
        Step::Enter(Place::CueDir),
        Step::Run(command("cue", vec!["vet", "--concrete"])),
    ];
    assert(steps.deep_view() =~~= lint_cue_steps());
    steps
}

/// Formats the CUE sources with `cue fmt`.
pub fn format_cue() -> (steps: Vec<Step>)
    ensures
        steps.deep_view() == format_cue_steps(),
{
    let steps = vec![
        Step::Enter(Place::CueDir),
        Step::Run(command("cue", vec!["fmt", "--simplify"])),
    ];
    assert(steps.deep_view() =~~= format_cue_steps());
    steps
}

/// Writes the CI workflow files anew with `cue cmd regen-ci-yaml`.
pub fn regenerate_ci_yaml() -> (steps: Vec<Step>)
    ensures
        steps.deep_view() == regenerate_ci_yaml_steps(),
{
    let steps = vec![
        Step::Enter(Place::CueDir),
        Step::Run(command("cue", vec!["cmd", "regen-ci-yaml"])),
    ];
    assert(steps.deep_view() =~~= regenerate_ci_yaml_steps());
    steps
}

/// Runs every fix-up: spelling, GitHub Actions, Markdown, Rust, in that order.
pub fn everything() -> (steps: Vec<Step>)
    ensures
        steps.deep_view() == everything_steps(),
{
    followed_by(followed_by(followed_by(spelling(), github_actions()), markdown()), rust())
}

} // verus!
