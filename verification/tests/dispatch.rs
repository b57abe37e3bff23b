use xtask::dispatch::{decide, dispatch, tokenize, Decision, DispatchError, Piece, Task, Token, HELP};
use xtask::fixup::{everything, github_actions, markdown, rust, spelling, Step};

fn args(list: &[&str]) -> Vec<String> {
    list.iter().map(|arg| arg.to_string()).collect()
}

/// A decision in one line.
fn show(decision: &Decision) -> String {
    match decision {
        Decision::ShowHelp(status) => format!("help, exit {}", status),
        Decision::Run(task) => format!("run {:?}", task),
        Decision::Fail(error) => format!("error: {}", error.message()),
    }
}

fn on(list: &[&str]) -> String {
    show(&dispatch(&args(list)))
}

/// The pieces of a command line in one line each.
fn pieces(list: &[&str]) -> Vec<String> {
    tokenize(&args(list))
        .iter()
        .map(|piece| match piece {
            Piece::Accepted(Token::Short(letter)) => format!("short {}", letter),
            Piece::Accepted(Token::Long(name)) => format!("long {}", name),
            Piece::Accepted(Token::Value(value)) => format!("value {}", value),
            Piece::Rejected(complaint) => format!("rejected: {}", complaint),
        })
        .collect()
}

fn value(text: &str) -> Piece {
    Piece::Accepted(Token::Value(text.to_string()))
}

fn long(name: &str) -> Piece {
    Piece::Accepted(Token::Long(name.to_string()))
}

fn short(letter: char) -> Piece {
    Piece::Accepted(Token::Short(letter))
}

fn steps(list: &[Step]) -> Vec<String> {
    list.iter().map(|step| format!("{:?}", step)).collect()
}

#[test]
fn no_arguments_show_the_help_and_exit_with_one() {
    assert_eq!(on(&[]), "help, exit 1");
}

#[test]
fn help_is_shown_and_exits_with_zero() {
    assert_eq!(on(&["--help"]), "help, exit 0");
    assert_eq!(on(&["-h"]), "help, exit 0");
}

#[test]
fn help_is_found_anywhere_on_the_line() {
    assert_eq!(on(&["fixup", "--help"]), "help, exit 0");
    assert_eq!(on(&["--verbose", "-h"]), "help, exit 0");
    assert_eq!(on(&["nonsense", "more", "--help"]), "help, exit 0");
    assert_eq!(on(&["-xh"]), "help, exit 0");
    assert_eq!(on(&["--help=yes"]), "help, exit 0");
    assert_eq!(on(&["--color=never", "--help"]), "help, exit 0");
}

#[test]
fn help_after_two_dashes_is_a_value() {
    assert_eq!(on(&["--", "--help"]), "error: unknown command '--help'");
    assert_eq!(on(&["--", "-h"]), "error: unknown command '-h'");
}

#[test]
fn every_task_is_found_by_its_name() {
    assert_eq!(on(&["fixup"]), "run Everything");
    assert_eq!(on(&["fixup.github-actions"]), "run GithubActions");
    assert_eq!(on(&["fixup.markdown"]), "run Markdown");
    assert_eq!(on(&["fixup.rust"]), "run Rust");
    assert_eq!(on(&["fixup.spelling"]), "run Spelling");
    assert_eq!(on(&["--", "fixup.rust"]), "run Rust");
}

#[test]
fn an_unknown_command_is_named_in_the_error() {
    assert_eq!(on(&["frobnicate"]), "error: unknown command 'frobnicate'");
    assert_eq!(on(&["Fixup"]), "error: unknown command 'Fixup'");
    assert_eq!(on(&["fixup.rust "]), "error: unknown command 'fixup.rust '");
    assert_eq!(on(&["fixup."]), "error: unknown command 'fixup.'");
    assert_eq!(on(&[""]), "error: unknown command ''");
    assert_eq!(on(&["-"]), "error: unknown command '-'");
}

#[test]
fn an_option_that_is_not_help_is_an_error() {
    assert_eq!(on(&["--verbose"]), "error: invalid option '--verbose'");
    assert_eq!(on(&["-v"]), "error: invalid option '-v'");
    assert_eq!(on(&["-v", "fixup"]), "error: invalid option '-v'");
    assert_eq!(on(&["--helpful"]), "error: invalid option '--helpful'");
    assert_eq!(on(&["-H"]), "error: invalid option '-H'");
}

#[test]
fn a_second_argument_is_an_error() {
    assert_eq!(on(&["fixup.rust", "fixup.markdown"]), "error: unexpected argument \"fixup.markdown\"");
    assert_eq!(on(&["fixup", "--fast"]), "error: invalid option '--fast'");
    assert_eq!(on(&["nonsense", "fixup"]), "error: unexpected argument \"fixup\"");
}

#[test]
fn a_value_glued_to_an_option_is_an_error() {
    assert_eq!(on(&["--color=never"]), "error: invalid option '--color'");
    assert_eq!(
        on(&["fixup", "--color=never"]),
        "error: invalid option '--color'"
    );
}

#[test]
fn two_dashes_alone_name_no_command() {
    assert_eq!(on(&["--"]), "error: missing command");
}

#[test]
fn a_line_is_split_as_lexopt_splits_it() {
    assert_eq!(pieces(&[]), Vec::<String>::new());
    assert_eq!(pieces(&["fixup"]), ["value fixup"]);
    assert_eq!(pieces(&["-h"]), ["short h"]);
    assert_eq!(pieces(&["--help"]), ["long help"]);
    assert_eq!(pieces(&["-ab", "c"]), ["short a", "short b", "value c"]);
    assert_eq!(pieces(&["a", "--", "-b", "--c"]), ["value a", "value -b", "value --c"]);
    assert_eq!(pieces(&["-", ""]), ["value -", "value "]);
}

#[test]
fn a_glued_value_is_rejected_and_the_rest_still_split() {
    assert_eq!(
        pieces(&["--color=never", "fixup"]),
        ["long color", "rejected: unexpected argument for option '--color': \"never\"", "value fixup"]
    );
    assert_eq!(
        pieces(&["-j=4", "-h"]),
        ["short j", "rejected: unexpected argument for option '-j': \"4\"", "short h"]
    );
}

#[test]
fn a_rejected_piece_is_reported_in_the_words_of_lexopt() {
    let decision = decide(vec![
        value("fixup"),
        Piece::Rejected("unexpected argument for option '--color': \"never\"".to_string()),
    ]);
    assert_eq!(show(&decision), "error: unexpected argument for option '--color': \"never\"");
    let decision = decide(vec![Piece::Rejected("no".to_string()), value("fixup")]);
    assert_eq!(show(&decision), "error: no");
}

#[test]
fn pieces_decide_as_the_line_does() {
    assert_eq!(show(&decide(vec![])), "error: missing command");
    assert_eq!(show(&decide(vec![value("fixup.spelling")])), "run Spelling");
    assert_eq!(show(&decide(vec![value("nope")])), "error: unknown command 'nope'");
    assert_eq!(show(&decide(vec![value("fixup"), short('h')])), "help, exit 0");
    assert_eq!(show(&decide(vec![long("help"), long("what")])), "help, exit 0");
    assert_eq!(show(&decide(vec![value("help")])), "error: unknown command 'help'");
    assert_eq!(show(&decide(vec![value("-h")])), "error: unknown command '-h'");
    assert_eq!(show(&decide(vec![long("h")])), "error: invalid option '--h'");
    assert_eq!(show(&decide(vec![short('x'), value("fixup")])), "error: invalid option '-x'");
    assert_eq!(show(&decide(vec![value("a"), value("b"), long("c")])), "error: unexpected argument \"b\"");
}

#[test]
fn a_rejected_piece_does_not_hide_help() {
    let decision = decide(vec![Piece::Rejected("no".to_string()), long("help")]);
    assert_eq!(show(&decision), "help, exit 0");
}

#[test]
fn the_first_blamed_piece_is_kept_in_the_error() {
    match decide(vec![value("fixup"), long("fast"), short('q')]) {
        Decision::Fail(DispatchError::Unexpected(Token::Long(name))) => assert_eq!(name, "fast"),
        decision => panic!("{:?}", decision),
    }
    match decide(vec![short('q'), long("fast")]) {
        Decision::Fail(DispatchError::Unexpected(Token::Short(letter))) => assert_eq!(letter, 'q'),
        decision => panic!("{:?}", decision),
    }
    match decide(vec![value("what")]) {
        Decision::Fail(DispatchError::UnknownCommand(name)) => assert_eq!(name, "what"),
        decision => panic!("{:?}", decision),
    }
}

#[test]
fn each_error_has_its_message() {
    assert_eq!(DispatchError::UnknownCommand("x y".to_string()).message(), "unknown command 'x y'");
    assert_eq!(DispatchError::MissingCommand.message(), "missing command");
    assert_eq!(DispatchError::Malformed("as is".to_string()).message(), "as is");
    assert_eq!(DispatchError::Unexpected(Token::Short('x')).message(), "invalid option '-x'");
    assert_eq!(
        DispatchError::Unexpected(Token::Long("long".to_string())).message(),
        "invalid option '--long'"
    );
    assert_eq!(
        DispatchError::Unexpected(Token::Value("a b".to_string())).message(),
        "unexpected argument \"a b\""
    );
}

#[test]
fn task_names_are_matched_exactly() {
    assert_eq!(Task::named("fixup"), Some(Task::Everything));
    assert_eq!(Task::named("fixup.github-actions"), Some(Task::GithubActions));
    assert_eq!(Task::named("fixup.markdown"), Some(Task::Markdown));
    assert_eq!(Task::named("fixup.rust"), Some(Task::Rust));
    assert_eq!(Task::named("fixup.spelling"), Some(Task::Spelling));
    assert_eq!(Task::named("fixup.github_actions"), None);
    assert_eq!(Task::named("FIXUP"), None);
    assert_eq!(Task::named(" fixup"), None);
    assert_eq!(Task::named(""), None);
}

#[test]
fn a_task_has_the_steps_of_its_function() {
    assert_eq!(steps(&Task::Everything.steps()), steps(&everything()));
    assert_eq!(steps(&Task::GithubActions.steps()), steps(&github_actions()));
    assert_eq!(steps(&Task::Markdown.steps()), steps(&markdown()));
    assert_eq!(steps(&Task::Rust.steps()), steps(&rust()));
    assert_eq!(steps(&Task::Spelling.steps()), steps(&spelling()));
}

#[test]
fn the_help_text_lists_every_command() {
    assert!(HELP.starts_with("NAME\n    cargo xtask - helper scripts for running common project tasks\n"));
    assert!(HELP.ends_with("in-place.\n"));
    for name in ["fixup", "fixup.github-actions", "fixup.markdown", "fixup.rust", "fixup.spelling"] {
        assert!(HELP.lines().any(|line| line.trim_start().starts_with(&format!("{} ", name))));
        assert!(Task::named(name).is_some());
    }
    assert_eq!(HELP.lines().count(), 13);
}
