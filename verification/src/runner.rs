//! Carrying out a task step by step.
//!
//! A `Runner` holds the steps of a task and knows how far it has come. It
//! says what has to be done next; its caller does it and reports how it went.
//! The first report of a failure ends the task: nothing is asked for after it.

use vstd::prelude::*;
use crate::fixup::{Command, CommandView, Place, Step, StepView};
use crate::paths::{copy_path, copy_paths, cue_dir, cue_dir_of};

verus! {

/// What a runner asks of its caller.
#[derive(Debug)]
pub enum Request {
    /// Go to this directory, and say so.
    ChangeDir(Vec<String>),
    /// Collect the files with this extension from this directory down, each
    /// named by its path from there.
    Collect(Vec<String>, String),
    /// Run this command, with these files after its arguments.
    Run(Command, Vec<Vec<String>>),
    /// Nothing more: every step went well.
    Succeeded,
    /// Nothing more: a step failed.
    Failed,
}

/// A `Request` as a plain value.
#[verifier::ext_equal]
pub enum RequestView {
    ChangeDir(Seq<Seq<char>>),
    Collect(Seq<Seq<char>>, Seq<char>),
    Run(CommandView, Seq<Seq<Seq<char>>>),
    Succeeded,
    Failed,
}

impl DeepView for Request {
    type V = RequestView;

    open spec fn deep_view(&self) -> RequestView {
        match self {
            Request::ChangeDir(dir) => RequestView::ChangeDir(dir.deep_view()),
            Request::Collect(dir, extension) => RequestView::Collect(dir.deep_view(), extension@),
            Request::Run(command, files) => RequestView::Run(
                command.deep_view(),
                files.deep_view(),
            ),
            Request::Succeeded => RequestView::Succeeded,
            Request::Failed => RequestView::Failed,
        }
    }
}

/// How the caller fared with a request.
#[derive(Debug)]
pub enum Reply {
    /// The directory was entered, or the command ran and exited with zero.
    Done,
    /// The files were collected: here they are.
    Collected(Vec<Vec<String>>),
    /// It could not be done, or the command did not exit with zero.
    Failed,
}

/// A `Reply` as a plain value.
#[verifier::ext_equal]
pub enum ReplyView {
    Done,
    Collected(Seq<Seq<Seq<char>>>),
    Failed,
}

impl DeepView for Reply {
    type V = ReplyView;

    open spec fn deep_view(&self) -> ReplyView {
        match self {
            Reply::Done => ReplyView::Done,
            Reply::Collected(files) => ReplyView::Collected(files.deep_view()),
            Reply::Failed => ReplyView::Failed,
        }
    }
}

/// Where `place` lies in a project whose top is `root`.
pub open spec fn place_path(root: Seq<Seq<char>>, place: Place) -> Seq<Seq<char>> {
    match place {
        Place::ProjectRoot => root,
        Place::CueDir => cue_dir_of(root),
    }
}

/// A task under way.
pub struct Runner {
    root: Vec<String>,
    steps: Vec<Step>,
    done: usize,
    files: Vec<Vec<String>>,
    failed: bool,
}

/// A `Runner` as a plain value.
#[verifier::ext_equal]
pub struct RunnerView {
    /// The top of the project.
    pub root: Seq<Seq<char>>,
    /// The steps of the task.
    pub steps: Seq<StepView>,
    /// How many of them went well.
    pub done: nat,
    /// The files that were collected last.
    pub files: Seq<Seq<Seq<char>>>,
    /// Whether a step failed.
    pub failed: bool,
}

impl RunnerView {
    /// A task of which no step has been taken.
    pub open spec fn start(root: Seq<Seq<char>>, steps: Seq<StepView>) -> RunnerView {
        RunnerView { root, steps, done: 0, files: Seq::empty(), failed: false }
    }

    /// The task is over: a step failed, or none is left.
    pub open spec fn finished(self) -> bool {
        self.failed || self.done >= self.steps.len()
    }

    /// What has to be done next.
    pub open spec fn request(self) -> RequestView {
        if self.failed {
            RequestView::Failed
        } else if self.done >= self.steps.len() {
            RequestView::Succeeded
        } else {
            match self.steps[self.done as int] {
                StepView::Enter(place) => RequestView::ChangeDir(place_path(self.root, place)),
                StepView::Collect(place, extension) => RequestView::Collect(
                    place_path(self.root, place),
                    extension,
                ),
                StepView::Run(command) => RequestView::Run(command, Seq::empty()),
                StepView::RunOnFiles(command) => RequestView::Run(command, self.files),
            }
        }
    }

    /// Whether `reply` says that what `request` asks for went well. Collected
    /// files answer a request to collect, and nothing else does; `Done`
    /// answers the other requests.
    pub open spec fn accepts(self, reply: ReplyView) -> bool {
        &&& !self.finished()
        &&& match reply {
            ReplyView::Done => !(self.steps[self.done as int] is Collect),
            ReplyView::Collected(_) => self.steps[self.done as int] is Collect,
            ReplyView::Failed => false,
        }
    }

    /// The task after `reply` came in. A task that is over stays as it is.
    /// A reply that is not accepted fails the task where it stands. An
    /// accepted one moves it on by one step, and collected files are kept.
    pub open spec fn advance(self, reply: ReplyView) -> RunnerView {
        if self.finished() {
            self
        } else if !self.accepts(reply) {
            RunnerView { failed: true, ..self }
        } else {
            match reply {
                ReplyView::Collected(files) => RunnerView { done: self.done + 1, files, ..self },
                _ => RunnerView { done: self.done + 1, ..self },
            }
        }
    }

    /// The task after each of `replies` came in, in their order.
    pub open spec fn after(self, replies: Seq<ReplyView>) -> RunnerView
        decreases replies.len(),
    {
        if replies.len() == 0 {
            self
        } else {
            self.after(replies.drop_last()).advance(replies.last())
        }
    }
}

impl View for Runner {
    type V = RunnerView;

    closed spec fn view(&self) -> RunnerView {
        RunnerView {
            root: self.root.deep_view(),
            steps: self.steps.deep_view(),
            done: self.done as nat,
            files: self.files.deep_view(),
            failed: self.failed,
        }
    }
}

/// A copy of `command`.
fn copy_command(command: &Command) -> (copy: Command)
    ensures
        copy.deep_view() == command.deep_view(),
{
    Command { program: command.program.clone(), args: copy_path(&command.args) }
}

/// The path of `place` below `root`.
fn resolve(root: &Vec<String>, place: Place) -> (path: Vec<String>)
    ensures
        path.deep_view() == place_path(root.deep_view(), place),
{
    match place {
        Place::ProjectRoot => copy_path(root),
        Place::CueDir => cue_dir(root),
    }
}

impl Runner {
    /// A runner for the task made of `steps`, in the project whose top is
    /// `root`.
    pub fn new(root: Vec<String>, steps: Vec<Step>) -> (runner: Runner)
        ensures
            runner@ == RunnerView::start(root.deep_view(), steps.deep_view()),
    {
        Runner { root, steps, done: 0, files: Vec::new(), failed: false }
    }

    /// What has to be done next.
    pub fn request(&self) -> (request: Request)
        ensures
            request.deep_view() == self@.request(),
    {
        if self.failed {
            Request::Failed
        } else if self.done >= self.steps.len() {
            Request::Succeeded
        } else {
            match &self.steps[self.done] {
                Step::Enter(place) => Request::ChangeDir(resolve(&self.root, *place)),
                Step::Collect(place, extension) => Request::Collect(
                    resolve(&self.root, *place),
                    extension.clone(),
                ),
                Step::Run(command) => Request::Run(copy_command(command), Vec::new()),
                Step::RunOnFiles(command) => Request::Run(
                    copy_command(command),
                    copy_paths(&self.files),
                ),
            }
        }
    }

    /// Takes the caller's report on the last request.
    pub fn advance(&mut self, reply: Reply)
        ensures
            final(self)@ == old(self)@.advance(reply.deep_view()),
    {
        if self.failed || self.done >= self.steps.len() {
            return;
        }
        let collecting = match &self.steps[self.done] {
            Step::Collect(_, _) => true,
            _ => false,
        };
        match reply {
            Reply::Done => {
                if collecting {
                    self.failed = true;
                } else {
                    self.done = self.done + 1;
                }
            },
            Reply::Collected(files) => {
                if collecting {
                    self.files = files;
                    self.done = self.done + 1;
                } else {
                    self.failed = true;
                }
            },
            Reply::Failed => {
                self.failed = true;
            },
        }
    }
}

/// Once a step has failed the task stays failed: whatever is reported
/// afterwards, nothing more is asked for and no step is taken.
pub proof fn lemma_failure_is_final(runner: RunnerView, replies: Seq<ReplyView>)
    requires
        runner.failed,
    ensures
        runner.after(replies) == runner,
        runner.after(replies).request() == RequestView::Failed,
    decreases replies.len(),
{
    if replies.len() > 0 {
        lemma_failure_is_final(runner, replies.drop_last());
    }
}

/// The first report that is not one of success ends the task at the step it
/// was about: no later step is asked for, whatever is reported afterwards.
pub proof fn lemma_first_failure_stops(
    runner: RunnerView,
    reply: ReplyView,
    more: Seq<ReplyView>,
)
    requires
        !runner.finished(),
        !runner.accepts(reply),
    ensures
        runner.advance(reply).after(more).request() == RequestView::Failed,
        runner.advance(reply).after(more).done == runner.done,
{
    lemma_failure_is_final(runner.advance(reply), more);
}

/// While every report is one of success, the steps are taken in their order,
/// one for each report: after `replies` the task stands before the step of
/// that number, or is over with success where no step is left.
pub proof fn lemma_steps_in_order(
    root: Seq<Seq<char>>,
    steps: Seq<StepView>,
    replies: Seq<ReplyView>,
)
    requires
        forall|i: int|
            0 <= i < replies.len() ==> RunnerView::start(root, steps).after(
                #[trigger] replies.take(i),
            ).accepts(replies[i]),
    ensures
        RunnerView::start(root, steps).after(replies).done == replies.len(),
        !RunnerView::start(root, steps).after(replies).failed,
        RunnerView::start(root, steps).after(replies).steps == steps,
        RunnerView::start(root, steps).after(replies).root == root,
    decreases replies.len(),
{
    if replies.len() > 0 {
        let earlier = replies.drop_last();
        assert forall|i: int| 0 <= i < earlier.len() implies RunnerView::start(root, steps).after(
            #[trigger] earlier.take(i),
        ).accepts(earlier[i]) by {
            assert(earlier.take(i) =~= replies.take(i));
        }
        lemma_steps_in_order(root, steps, earlier);
    }
}

/// How far a task that has not failed has come: it has taken one step for
/// each report, up to its last step, and every one of those reports was one of
/// success.
proof fn lemma_progress(root: Seq<Seq<char>>, steps: Seq<StepView>, replies: Seq<ReplyView>)
    ensures
        ({
            let start = RunnerView::start(root, steps);
            let now = start.after(replies);
            &&& now.steps == steps
            &&& now.root == root
            &&& !now.failed ==> now.done == if replies.len() < steps.len() {
                replies.len()
            } else {
                steps.len()
            }
            &&& !now.failed ==> forall|i: int|
                0 <= i < now.done ==> start.after(#[trigger] replies.take(i)).accepts(replies[i])
        }),
    decreases replies.len(),
{
    let start = RunnerView::start(root, steps);
    let now = start.after(replies);
    if replies.len() > 0 {
        let earlier = replies.drop_last();
        let before = start.after(earlier);
        lemma_progress(root, steps, earlier);
        if !now.failed {
            assert forall|i: int| 0 <= i < now.done implies start.after(
                #[trigger] replies.take(i),
            ).accepts(replies[i]) by {
                if i < before.done {
                    assert(earlier.take(i) =~= replies.take(i));
                }
            }
        }
    }
}

/// A task ends in success only where every one of its steps was reported to
/// have gone well: the reports were at least as many as the steps, and each
/// step's report was one of success.
pub proof fn lemma_success_needs_every_step(
    root: Seq<Seq<char>>,
    steps: Seq<StepView>,
    replies: Seq<ReplyView>,
)
    requires
        RunnerView::start(root, steps).after(replies).request() == RequestView::Succeeded,
    ensures
        replies.len() >= steps.len(),
        forall|i: int|
            0 <= i < steps.len() ==> RunnerView::start(root, steps).after(
                #[trigger] replies.take(i),
            ).accepts(replies[i]),
{
    lemma_progress(root, steps, replies);
}

} // verus!
