use mican::commands::cd::{destination, not_found, Destination};
use mican::process::{dispatch, Builtin, ForkResult, Process};
use mican::token::CommandData;

#[test]
fn builtins_are_found_by_name() {
    assert_eq!(dispatch("cd"), Some(Builtin::Cd));
    assert_eq!(dispatch("ls"), Some(Builtin::Ls));
    assert_eq!(dispatch("pwd"), Some(Builtin::Pwd));
    assert_eq!(dispatch("clear"), Some(Builtin::Clear));
    assert_eq!(dispatch("bye"), Some(Builtin::Bye));
    assert_eq!(dispatch("tanakh"), Some(Builtin::Tanakh));
    assert_eq!(dispatch("syar"), Some(Builtin::Syar));
}

#[test]
fn other_names_are_programs() {
    assert_eq!(dispatch("grep"), Some(Builtin::Other));
    assert_eq!(dispatch("cdx"), Some(Builtin::Other));
    assert_eq!(dispatch("c"), Some(Builtin::Other));
    assert_eq!(dispatch("CD"), Some(Builtin::Other));
    assert_eq!(dispatch("/bin/ls"), Some(Builtin::Other));
}

#[test]
fn nothing_runs_a_command_without_a_program() {
    assert_eq!(dispatch(""), None);
}

#[test]
fn a_process_knows_its_side_of_the_fork() {
    let parent = Process::new(Builtin::Ls, ForkResult::Parent { child: 4242 }, 100);
    assert!(!parent.in_child());
    assert_eq!(parent.pid, 4242);
    assert_eq!(parent.f, Builtin::Ls);
    let child = Process::new(Builtin::Other, ForkResult::Child, 4242);
    assert!(child.in_child());
    assert_eq!(child.pid, 4242);
    assert_eq!(child.fork_result, ForkResult::Child);
}

#[test]
fn cd_without_an_option_goes_home() {
    let cmd = CommandData::new("cd".to_string(), vec![]);
    assert_eq!(destination(&cmd), Destination::Home);
}

#[test]
fn cd_goes_to_its_first_option() {
    let cmd = CommandData::new("cd".to_string(), vec!["src".to_string(), "x".to_string()]);
    assert_eq!(destination(&cmd), Destination::Path("src".to_string()));
}

#[test]
fn cd_names_the_directory_that_is_not_there() {
    let message = not_found("badpath");
    assert_eq!(message, "badpath not found");
    assert!(message.contains("badpath"));
    assert_eq!(not_found(""), " not found");
}
