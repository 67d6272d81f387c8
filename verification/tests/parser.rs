use mican::parser::Parser;
use mican::token::{CommandData, Token};

#[test]
fn test_parse_tokens() {
    let input = "ls -al | grep main.rs".to_string();
    let result = Parser::new(input).parse_tokens().unwrap();
    let ls = Token::Command(CommandData {
        program: "ls".to_string(),
        options: vec!["-al".to_string()],
        input: None,
        out: None,
    });
    let grep = Token::Command(CommandData {
        program: "grep".to_string(),
        options: vec!["main.rs".to_string()],
        input: None,
        out: None,
    });

    assert_eq!(result, vec![ls, Token::Pipe, grep]);
}

use mican::parser::ParseError;
use mican::token::{Input, Output};

fn command(program: &str, options: &[&str]) -> Token {
    Token::Command(CommandData {
        program: program.to_string(),
        options: options.iter().map(|s| s.to_string()).collect(),
        input: None,
        out: None,
    })
}

fn tokens(line: &str) -> Vec<Token> {
    Parser::new(line.to_string()).parse_tokens().unwrap()
}

#[test]
fn a_pipe_is_a_token_wherever_it_stands() {
    let expected = vec![command("ls", &["-al"]), Token::Pipe, command("grep", &["main.rs"])];
    assert_eq!(tokens("ls -al|grep main.rs"), expected);
    assert_eq!(tokens("  ls   -al  |  grep   main.rs  "), expected);
    assert_eq!(tokens("ls\t-al\t|\tgrep\tmain.rs"), expected);
}

#[test]
fn a_command_has_any_number_of_options() {
    assert_eq!(tokens("ls"), vec![command("ls", &[])]);
    assert_eq!(tokens("ls "), vec![command("ls", &[])]);
    assert_eq!(tokens("echo a b  c"), vec![command("echo", &["a", "b", "c"])]);
    assert_eq!(tokens("cd"), vec![command("cd", &[])]);
}

#[test]
fn where_a_command_is_lacking_there_is_one_without_a_program() {
    assert_eq!(tokens(""), vec![command("", &[])]);
    assert_eq!(tokens("   "), vec![command("", &[])]);
    assert_eq!(tokens("|"), vec![command("", &[]), Token::Pipe, command("", &[])]);
    assert_eq!(tokens("| a"), vec![command("", &[]), Token::Pipe, command("a", &[])]);
    assert_eq!(tokens("a |"), vec![command("a", &[]), Token::Pipe, command("", &[])]);
    assert_eq!(
        tokens("a || b"),
        vec![command("a", &[]), Token::Pipe, command("", &[]), Token::Pipe, command("b", &[])]
    );
}

#[test]
fn tokens_that_differ_are_not_equal() {
    assert_ne!(command("ls", &[]), command("ls", &["-l"]));
    assert_ne!(command("ls", &[]), command("pwd", &[]));
    assert_ne!(command("", &[]), Token::Pipe);
    assert_eq!(Token::Pipe, Token::Pipe);
    // The streams do not count.
    let mut wired = CommandData::new("ls".to_string(), vec![]);
    wired.set_input(Input::Stdin);
    wired.set_out(Output::File(7));
    assert_eq!(wired.input, Some(Input::Stdin));
    assert_eq!(wired.out, Some(Output::File(7)));
    assert_eq!(Token::Command(wired), command("ls", &[]));
}

#[test]
fn one_pipe_is_opened_for_each_pipe_token() {
    let mut parser = Parser::new("a | b | c".to_string());
    assert!(parser.pipes.is_empty());
    let tokens = parser.parse_tokens().unwrap();
    assert_eq!(tokens.len(), 5);
    assert_eq!(parser.pipes.len(), 2);
    let mut ends = Vec::new();
    for (r, w) in &parser.pipes {
        assert!(*r >= 0 && *w >= 0);
        ends.push(*r);
        ends.push(*w);
    }
    ends.sort();
    ends.dedup();
    assert_eq!(ends.len(), 4);
}

#[test]
fn the_stages_are_joined_by_the_pipes() {
    let mut parser = Parser::new("a | b -x | c".to_string());
    let tokens = parser.parse_tokens().unwrap();
    let pipes = parser.pipes.clone();
    let stages = parser.build_pipes(tokens);
    assert!(parser.pipes.is_empty());
    assert_eq!(stages.len(), 3);
    assert_eq!(stages[0].program, "a");
    assert_eq!(stages[1].program, "b");
    assert_eq!(stages[1].options, vec!["-x"]);
    assert_eq!(stages[2].program, "c");
    // The pipe that was opened last joins the first two stages.
    assert_eq!(stages[0].input, Some(Input::Stdin));
    assert_eq!(stages[0].out, Some(Output::File(pipes[1].1)));
    assert_eq!(stages[1].input, Some(Input::File(pipes[1].0)));
    assert_eq!(stages[1].out, Some(Output::File(pipes[0].1)));
    assert_eq!(stages[2].input, Some(Input::File(pipes[0].0)));
    assert_eq!(stages[2].out, Some(Output::Stdout));
}

#[test]
fn a_line_is_parsed_into_a_pipeline() {
    for (line, n) in [("ls", 1usize), ("ls | wc", 2), ("a|b|c|d", 4), ("", 1), ("|", 2), ("a||", 3)]
    {
        let mut parser = Parser::new(line.to_string());
        let stages = parser.parse().unwrap();
        assert!(parser.pipes.is_empty());
        assert_eq!(stages.len(), n, "{:?}", line);
        assert_eq!(stages[0].input, Some(Input::Stdin));
        assert_eq!(stages[n - 1].out, Some(Output::Stdout));
        let mut ends = Vec::new();
        for i in 0..n - 1 {
            match (stages[i].out, stages[i + 1].input) {
                (Some(Output::File(w)), Some(Input::File(r))) => {
                    ends.push(w);
                    ends.push(r);
                }
                other => panic!("stage {} of {:?} is not joined: {:?}", i, line, other),
            }
        }
        // Every end of every pipe is used once.
        ends.sort();
        ends.dedup();
        assert_eq!(ends.len(), 2 * (n - 1));
    }
}

#[test]
fn a_single_command_uses_the_shell_streams() {
    let stages = Parser::new("ls -al".to_string()).parse().unwrap();
    assert_eq!(stages.len(), 1);
    assert_eq!(stages[0].program, "ls");
    assert_eq!(stages[0].options, vec!["-al"]);
    assert_eq!(stages[0].input, Some(Input::Stdin));
    assert_eq!(stages[0].out, Some(Output::Stdout));
}

#[test]
fn wiring_with_given_pipes() {
    let mut parser = Parser::new(String::new());
    parser.pipes = vec![(3, 4), (5, 6)];
    let stages = parser.build_pipes(vec![
        command("a", &[]),
        Token::Pipe,
        command("b", &[]),
        Token::Pipe,
        command("c", &[]),
    ]);
    assert_eq!(stages[0].out, Some(Output::File(6)));
    assert_eq!(stages[1].input, Some(Input::File(5)));
    assert_eq!(stages[1].out, Some(Output::File(4)));
    assert_eq!(stages[2].input, Some(Input::File(3)));
    assert_eq!(stages[2].out, Some(Output::Stdout));
    assert!(parser.pipes.is_empty());
    // No tokens, no stages.
    assert!(parser.build_pipes(vec![]).is_empty());
    assert!(parser.build_pipes(vec![Token::Pipe]).is_empty());
}

#[test]
fn the_parser_starts_at_the_beginning() {
    let parser = Parser::new("añ b".to_string());
    assert_eq!(parser.pos, 0);
    assert_eq!(parser.input, vec!['a', 'ñ', ' ', 'b']);
    let mut parser = Parser::new("one two | three".to_string());
    parser.pos = 4;
    assert_eq!(parser.parse_tokens().unwrap(), vec![
        command("two", &[]),
        Token::Pipe,
        command("three", &[]),
    ]);
    assert!(parser.pos >= parser.input.len());
}

#[test]
fn the_parse_error_in_words() {
    assert_eq!(ParseError::PipeAllocation.message(), "could not allocate a pipe");
}
