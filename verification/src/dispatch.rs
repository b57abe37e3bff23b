//! From a command line to what is to be done.
//!
//! The arguments are split into options and values by `lexopt`. What the
//! pieces mean is decided here: help wherever it is asked for, else one task
//! by its name, else an error.

use vstd::prelude::*;
use lexopt::ValueExt;
use crate::fixup::{everything, github_actions, markdown, rust, spelling, Step, StepView};
use crate::fixup::{everything_steps, github_actions_steps, markdown_steps, rust_steps, spelling_steps};

verus! {

/// The text shown for `--help`, and when no argument is given.
pub const HELP: &'static str = "\
NAME
    cargo xtask - helper scripts for running common project tasks

SYNOPSIS
    cargo xtask --help
    cargo xtask [COMMAND...]

COMMANDS
    fixup                  Run all fixup xtasks, editing files in-place.
    fixup.github-actions   Format CUE files in-place and regenerate CI YAML files.
    fixup.markdown         Format Markdown files in-place.
    fixup.rust             Fix lints and format Rust files in-place.
    fixup.spelling         Fix common misspellings across all files in-place.
";

/// A task that can be asked for by name.
#[derive(Clone, Copy, Debug, PartialEq, Eq, Structural)]
pub enum Task {
    Everything,
    GithubActions,
    Markdown,
    Rust,
    Spelling,
}

/// The task that goes by `name`.
pub open spec fn task_named(name: Seq<char>) -> Option<Task> {
    if name == "fixup"@ {
        Some(Task::Everything)
    } else if name == "fixup.github-actions"@ {
        Some(Task::GithubActions)
    } else if name == "fixup.markdown"@ {
        Some(Task::Markdown)
    } else if name == "fixup.rust"@ {
        Some(Task::Rust)
    } else if name == "fixup.spelling"@ {
        Some(Task::Spelling)
    } else {
        None
    }
}

/// The steps of `task`.
pub open spec fn task_steps(task: Task) -> Seq<StepView> {
    match task {
        Task::Everything => everything_steps(),
        Task::GithubActions => github_actions_steps(),
        Task::Markdown => markdown_steps(),
        Task::Rust => rust_steps(),
        Task::Spelling => spelling_steps(),
    }
}

fn is(name: &str, word: &str) -> (same: bool)
    ensures
        same == (name@ == word@),
{
    name.to_owned() == word.to_owned()
}

impl Task {
    /// The task that goes by `name`, where there is one. Names are compared
    /// letter for letter.
    pub fn named(name: &str) -> (task: Option<Task>)
        ensures
            task == task_named(name@),
    {
        if is(name, "fixup") {
            Some(Task::Everything)
        } else if is(name, "fixup.github-actions") {
            Some(Task::GithubActions)
        } else if is(name, "fixup.markdown") {
            Some(Task::Markdown)
        } else if is(name, "fixup.rust") {
            Some(Task::Rust)
        } else if is(name, "fixup.spelling") {
            Some(Task::Spelling)
        } else {
            None
        }
    }

    /// The steps that the task is made of.
    pub fn steps(self) -> (steps: Vec<Step>)
        ensures
            steps.deep_view() == task_steps(self),
    {
        match self {
            Task::Everything => everything(),
            Task::GithubActions => github_actions(),
            Task::Markdown => markdown(),
            Task::Rust => rust(),
            Task::Spelling => spelling(),
        }
    }
}

/// An option or a value of a command line.
#[derive(Debug)]
pub enum Token {
    /// A short option, such as `-h`, without its dash.
    Short(char),
    /// A long option, such as `--help`, without its dashes.
    Long(String),
    /// A value that stands for itself.
    Value(String),
}

/// A `Token` as a plain value.
#[verifier::ext_equal]
pub enum TokenView {
    Short(char),
    Long(Seq<char>),
    Value(Seq<char>),
}

impl DeepView for Token {
    type V = TokenView;

    open spec fn deep_view(&self) -> TokenView {
        match self {
            Token::Short(letter) => TokenView::Short(*letter),
            Token::Long(name) => TokenView::Long(name@),
            Token::Value(value) => TokenView::Value(value@),
        }
    }
}

/// What `lexopt` makes of one piece of a command line.
#[derive(Debug)]
pub enum Piece {
    /// An option or a value.
    Accepted(Token),
    /// Nothing it has a use for; the text is its complaint.
    Rejected(String),
}

/// A `Piece` as a plain value.
#[verifier::ext_equal]
pub enum PieceView {
    Accepted(TokenView),
    Rejected(Seq<char>),
}

impl DeepView for Piece {
    type V = PieceView;

    open spec fn deep_view(&self) -> PieceView {
        match self {
            Piece::Accepted(token) => PieceView::Accepted(token.deep_view()),
            Piece::Rejected(complaint) => PieceView::Rejected(complaint@),
        }
    }
}

/// `lexopt::Parser`: it is carried from one call to the next and never looked
/// into.
#[verifier::external_type_specification]
#[verifier::external_body]
pub struct ExParser(lexopt::Parser);

/// The pieces that `lexopt` makes of the arguments `args`, in their order:
/// what a parser made by `lexopt::Parser::from_args` hands out, call after
/// call of `next`, until it has no more.
pub uninterp spec fn lexed(args: Seq<Seq<char>>) -> Seq<PieceView>;

/// The pieces that a parser has yet to hand out: what it would return, call
/// after call of `next`, until it has no more.
pub uninterp spec fn upcoming(parser: lexopt::Parser) -> Seq<PieceView>;

/// The words in which `lexopt` says that it did not expect `token`: the
/// `Display` of the error that `lexopt::Arg::unexpected` makes of it.
pub uninterp spec fn unexpected_text(token: TokenView) -> Seq<char>;

/// `lexopt::Parser::from_args`: a parser over `args`, none of which is taken
/// for the program's name. It will hand out what `lexopt` makes of them.
#[verifier::external_body]
fn parser_over(args: &Vec<String>) -> (parser: lexopt::Parser)
    ensures
        upcoming(parser) == lexed(args.deep_view()),
{
    lexopt::Parser::from_args(args)
}

/// `lexopt::Parser::next`, with `lexopt::ValueExt::string` on a value: takes
/// the next piece from the parser and hands it out. `None` says that no
/// piece was left, and then none will be. An error of `lexopt` comes out as
/// a rejected piece that holds the error's own words.
#[verifier::external_body]
fn next_piece(parser: &mut lexopt::Parser) -> (next: Option<Piece>)
    ensures
        match next {
            None => upcoming(*old(parser)).len() == 0 && upcoming(*final(parser)).len() == 0,
            Some(piece) => upcoming(*old(parser)).len() > 0 && upcoming(*old(parser))[0]
                == piece.deep_view() && upcoming(*final(parser)) == upcoming(*old(parser)).skip(
                1,
            ),
        },
{
    match parser.next() {
        Ok(None) => None,
        Ok(Some(lexopt::Arg::Short(letter))) => Some(Piece::Accepted(Token::Short(letter))),
        Ok(Some(lexopt::Arg::Long(name))) => Some(Piece::Accepted(Token::Long(name.to_owned()))),
        Ok(Some(lexopt::Arg::Value(value))) => match value.string() {
            Ok(value) => Some(Piece::Accepted(Token::Value(value))),
            Err(error) => Some(Piece::Rejected(error.to_string())),
        },
        Err(error) => Some(Piece::Rejected(error.to_string())),
    }
}

/// `lexopt::Arg::unexpected`, with the `Display` of the error it makes: the
/// words in which `lexopt` says that it did not expect `token`.
#[verifier::external_body]
fn unexpected_in_words(token: &Token) -> (text: String)
    ensures
        text@ == unexpected_text(token.deep_view()),
{
    match token {
        Token::Short(letter) => lexopt::Arg::Short(*letter),
        Token::Long(name) => lexopt::Arg::Long(name),
        Token::Value(value) => lexopt::Arg::Value(value.into()),
    }.unexpected().to_string()
}

/// Splits `args` into options and values, as `lexopt` does. A piece that
/// `lexopt` turns down does not end the work: the pieces after it are still
/// looked at.
pub fn tokenize(args: &Vec<String>) -> (pieces: Vec<Piece>)
    ensures
        pieces.deep_view() == lexed(args.deep_view()),
{
    let ghost all = lexed(args.deep_view());
    let mut parser = parser_over(args);
    let mut pieces: Vec<Piece> = Vec::new();
    loop
        invariant_except_break
            pieces.len() <= all.len(),
            upcoming(parser) == all.skip(pieces.len() as int),
            pieces.deep_view() == all.take(pieces.len() as int),
        ensures
            pieces.deep_view() == all,
        decreases upcoming(parser).len(),
    {
        match next_piece(&mut parser) {
            Some(piece) => pieces.push(piece),
            None => break ,
        }
    }
    pieces
}

/// Why a command line was turned down.
#[derive(Debug)]
pub enum DispatchError {
    /// No task goes by this name.
    UnknownCommand(String),
    /// An option that does not ask for help, or a value too many.
    Unexpected(Token),
    /// A piece that `lexopt` turned down, with its complaint.
    Malformed(String),
    /// Arguments, but none that names a task.
    MissingCommand,
}

/// A `DispatchError` as a plain value.
#[verifier::ext_equal]
pub enum DispatchErrorView {
    UnknownCommand(Seq<char>),
    Unexpected(TokenView),
    Malformed(Seq<char>),
    MissingCommand,
}

impl DeepView for DispatchError {
    type V = DispatchErrorView;

    open spec fn deep_view(&self) -> DispatchErrorView {
        match self {
            DispatchError::UnknownCommand(name) => DispatchErrorView::UnknownCommand(name@),
            DispatchError::Unexpected(token) => DispatchErrorView::Unexpected(token.deep_view()),
            DispatchError::Malformed(complaint) => DispatchErrorView::Malformed(complaint@),
            DispatchError::MissingCommand => DispatchErrorView::MissingCommand,
        }
    }
}

impl DispatchErrorView {
    /// The error in one line.
    pub open spec fn message(self) -> Seq<char> {
        match self {
            DispatchErrorView::UnknownCommand(name) => "unknown command '"@ + name + "'"@,
            DispatchErrorView::Unexpected(token) => unexpected_text(token),
            DispatchErrorView::Malformed(complaint) => complaint,
            DispatchErrorView::MissingCommand => "missing command"@,
        }
    }
}

impl DispatchError {
    /// The error in one line, for the user.
    pub fn message(&self) -> (text: String)
        ensures
            text@ == self.deep_view().message(),
    {
        match self {
            DispatchError::UnknownCommand(name) => {
                let mut text = "unknown command '".to_owned();
                text.append(name.as_str());
                text.append("'");
                text
            },
            DispatchError::Unexpected(token) => unexpected_in_words(token),
            DispatchError::Malformed(complaint) => complaint.clone(),
            DispatchError::MissingCommand => "missing command".to_owned(),
        }
    }
}

/// What a command line asks for.
#[derive(Debug)]
pub enum Decision {
    /// Show the help text and leave with this status.
    ShowHelp(i32),
    /// Carry out the task that was named.
    Run(Task),
    /// Report this error and leave with a status that is not zero.
    Fail(DispatchError),
}

/// A `Decision` as a plain value.
#[verifier::ext_equal]
pub enum DecisionView {
    ShowHelp(i32),
    Run(Task),
    Fail(DispatchErrorView),
}

impl DeepView for Decision {
    type V = DecisionView;

    open spec fn deep_view(&self) -> DecisionView {
        match self {
            Decision::ShowHelp(status) => DecisionView::ShowHelp(*status),
            Decision::Run(task) => DecisionView::Run(*task),
            Decision::Fail(error) => DecisionView::Fail(error.deep_view()),
        }
    }
}

/// Whether `piece` is `-h` or `--help`.
pub open spec fn asks_for_help(piece: PieceView) -> bool {
    piece == PieceView::Accepted(TokenView::Short('h')) || piece == PieceView::Accepted(
        TokenView::Long("help"@),
    )
}

/// The error that blames `piece`.
pub open spec fn blame(piece: PieceView) -> DispatchErrorView {
    match piece {
        PieceView::Accepted(token) => DispatchErrorView::Unexpected(token),
        PieceView::Rejected(complaint) => DispatchErrorView::Malformed(complaint),
    }
}

/// What the pieces of a command line ask for.
///
/// Help, asked for anywhere, comes before all else and is no failure. Failing
/// that, the line has to be one value and nothing more, the name of a task.
/// Where it is not, the first piece is to blame if it is no value, else the
/// piece after it.
pub open spec fn decision_on(pieces: Seq<PieceView>) -> DecisionView {
    if exists|i: int| 0 <= i < pieces.len() && asks_for_help(#[trigger] pieces[i]) {
        DecisionView::ShowHelp(0)
    } else if pieces.len() == 0 {
        DecisionView::Fail(DispatchErrorView::MissingCommand)
    } else {
        match pieces[0] {
            PieceView::Accepted(TokenView::Value(name)) => if pieces.len() > 1 {
                DecisionView::Fail(blame(pieces[1]))
            } else {
                match task_named(name) {
                    Some(task) => DecisionView::Run(task),
                    None => DecisionView::Fail(DispatchErrorView::UnknownCommand(name)),
                }
            },
            _ => DecisionView::Fail(blame(pieces[0])),
        }
    }
}

/// What the arguments `args` of a command line ask for: with none at all,
/// the help text and status 1; else what their pieces ask for.
pub open spec fn dispatched(args: Seq<Seq<char>>) -> DecisionView {
    if args.len() == 0 {
        DecisionView::ShowHelp(1)
    } else {
        decision_on(lexed(args))
    }
}

fn wants_help(piece: &Piece) -> (yes: bool)
    ensures
        yes == asks_for_help(piece.deep_view()),
{
    match piece {
        Piece::Accepted(Token::Short(letter)) => *letter == 'h',
        Piece::Accepted(Token::Long(name)) => is(name.as_str(), "help"),
        _ => false,
    }
}

fn blame_on(piece: Piece) -> (error: DispatchError)
    ensures
        error.deep_view() == blame(piece.deep_view()),
{
    match piece {
        Piece::Accepted(token) => DispatchError::Unexpected(token),
        Piece::Rejected(complaint) => DispatchError::Malformed(complaint),
    }
}

/// Decides what the pieces of a command line ask for.
pub fn decide(pieces: Vec<Piece>) -> (decision: Decision)
    ensures
        decision.deep_view() == decision_on(pieces.deep_view()),
{
    let ghost all = pieces.deep_view();
    let mut i: usize = 0;
    while i < pieces.len()
        invariant
            i <= pieces.len(),
            all == pieces.deep_view(),
            forall|j: int| 0 <= j < i ==> !asks_for_help(#[trigger] all[j]),
        decreases pieces.len() - i,
    {
        if wants_help(&pieces[i]) {
            assert(asks_for_help(all[i as int]));
            return Decision::ShowHelp(0);
        }
        i += 1;
    }
    let mut pieces = pieces;
    if pieces.len() == 0 {
        return Decision::Fail(DispatchError::MissingCommand);
    }
    let second = if pieces.len() > 1 {
        pieces.truncate(2);
        pieces.pop()
    } else {
        None
    };
    let first = pieces.pop().unwrap();
    match first {
        Piece::Accepted(Token::Value(name)) => match second {
            Some(piece) => Decision::Fail(blame_on(piece)),
            None => match Task::named(name.as_str()) {
                Some(task) => Decision::Run(task),
                None => Decision::Fail(DispatchError::UnknownCommand(name)),
            },
        },
        other => Decision::Fail(blame_on(other)),
    }
}

/// Decides what the arguments of a command line ask for. The name of the
/// program is not among `args`.
pub fn dispatch(args: &Vec<String>) -> (decision: Decision)
    ensures
        decision.deep_view() == dispatched(args.deep_view()),
{
    if args.len() == 0 {
        Decision::ShowHelp(1)
    } else {
        decide(tokenize(args))
    }
}

} // verus!
