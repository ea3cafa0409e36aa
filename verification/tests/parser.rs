use fesh::bindings::Bindings;
use fesh::command::{CommandError, CommandType, Operator};
use fesh::input_parser::InputParser;

#[test]
fn test_parse_empty_input() {
    let parser = InputParser::new();
    let env = Bindings::new();
    let result = parser.parse(String::from(""), &env);
    assert!(result.is_err());
    if let Err(e) = result {
        assert_eq!(e, CommandError::Empty);
    }
}

#[test]
fn test_parse_simple_command() {
    let parser = InputParser::new();
    let env = Bindings::new();
    let result = parser.parse(String::from("ls"), &env);
    assert!(result.is_ok());
    let command_list = result.unwrap();
    assert_eq!(command_list.commands.len(), 1);
    assert_eq!(command_list.operators.len(), 0);
    assert_eq!(command_list.commands[0].command, "ls");
    assert_eq!(command_list.commands[0].args.len(), 0);
    assert_eq!(command_list.commands[0].command_type, CommandType::External);
}

#[test]
fn test_parse_command_with_args() {
    let parser = InputParser::new();
    let env = Bindings::new();
    let result = parser.parse(String::from("ls -la /tmp"), &env);
    assert!(result.is_ok());
    let command_list = result.unwrap();
    assert_eq!(command_list.commands.len(), 1);
    assert_eq!(command_list.commands[0].command, "ls");
    assert_eq!(command_list.commands[0].args, vec!["-la", "/tmp"]);
}

#[test]
fn test_parse_builtin_exit() {
    let parser = InputParser::new();
    let env = Bindings::new();
    let result = parser.parse(String::from("exit"), &env);
    assert!(result.is_ok());
    let command_list = result.unwrap();
    assert_eq!(command_list.commands[0].command, "exit");
    assert_eq!(command_list.commands[0].command_type, CommandType::Builtin);
}

#[test]
fn test_parse_builtin_debug() {
    let parser = InputParser::new();
    let env = Bindings::new();
    let result = parser.parse(String::from("+debug"), &env);
    assert!(result.is_ok());
    let command_list = result.unwrap();
    assert_eq!(command_list.commands[0].command, "+debug");
    assert_eq!(command_list.commands[0].command_type, CommandType::Builtin);
}

#[test]
fn test_parse_command_with_pipe() {
    let parser = InputParser::new();
    let env = Bindings::new();
    let result = parser.parse(String::from("ls | grep test"), &env);
    assert!(result.is_ok());
    let command_list = result.unwrap();
    assert_eq!(command_list.commands.len(), 2);
    assert_eq!(command_list.operators.len(), 1);
    assert_eq!(command_list.commands[0].command, "ls");
    assert_eq!(command_list.commands[1].command, "grep");
    assert_eq!(command_list.commands[1].args, vec!["test"]);
    assert_eq!(command_list.operators[0], Operator::Pipe);
}

#[test]
fn test_parse_command_with_redirect_overwrite() {
    let parser = InputParser::new();
    let env = Bindings::new();
    let result = parser.parse(String::from("echo hello > output.txt"), &env);
    assert!(result.is_ok());
    let command_list = result.unwrap();
    assert_eq!(command_list.commands.len(), 2);
    assert_eq!(command_list.operators.len(), 1);
    assert_eq!(command_list.commands[0].command, "echo");
    assert_eq!(command_list.commands[0].args, vec!["hello"]);
    assert_eq!(command_list.commands[1].command, "output.txt");
    assert_eq!(command_list.operators[0], Operator::RedirectOverwrite);
}

#[test]
fn test_parse_command_with_redirect_append() {
    let parser = InputParser::new();
    let env = Bindings::new();
    let result = parser.parse(String::from("echo hello >> output.txt"), &env);
    assert!(result.is_ok());
    let command_list = result.unwrap();
    assert_eq!(command_list.commands.len(), 2);
    assert_eq!(command_list.operators.len(), 1);
    assert_eq!(command_list.operators[0], Operator::RedirectAppend);
}

#[test]
fn test_parse_multiple_commands_with_operators() {
    let parser = InputParser::new();
    let env = Bindings::new();
    let result = parser.parse(String::from("ls -la | grep test | wc -l"), &env);
    assert!(result.is_ok());
    let command_list = result.unwrap();
    assert_eq!(command_list.commands.len(), 3);
    assert_eq!(command_list.operators.len(), 2);
    assert_eq!(command_list.commands[0].command, "ls");
    assert_eq!(command_list.commands[0].args, vec!["-la"]);
    assert_eq!(command_list.commands[1].command, "grep");
    assert_eq!(command_list.commands[1].args, vec!["test"]);
    assert_eq!(command_list.commands[2].command, "wc");
    assert_eq!(command_list.commands[2].args, vec!["-l"]);
    assert_eq!(command_list.operators[0], Operator::Pipe);
    assert_eq!(command_list.operators[1], Operator::Pipe);
}

#[test]
fn test_parse_with_whitespace() {
    let parser = InputParser::new();
    let env = Bindings::new();
    let result = parser.parse(String::from("  ls   -la   /tmp  "), &env);
    assert!(result.is_ok());
    let command_list = result.unwrap();
    assert_eq!(command_list.commands.len(), 1);
    assert_eq!(command_list.commands[0].command, "ls");
    assert_eq!(command_list.commands[0].args, vec!["-la", "/tmp"]);
}

#[test]
fn test_parse_whitespace_only_rejected() {
    let parser = InputParser::new();
    let env = Bindings::new();
    let result = parser.parse(String::from("   \t  "), &env);
    assert!(result.is_err());
    if let Err(e) = result {
        assert_eq!(e, CommandError::Empty);
    }
}

#[test]
fn test_parse_mixed_operators_in_input_order() {
    let parser = InputParser::new();
    let env = Bindings::new();
    let result = parser.parse(String::from("a | b > f >> g"), &env);
    assert!(result.is_ok());
    let command_list = result.unwrap();
    assert_eq!(command_list.commands.len(), 4);
    assert_eq!(command_list.operators.len(), 3);
    assert_eq!(command_list.operators[0], Operator::Pipe);
    assert_eq!(command_list.operators[1], Operator::RedirectOverwrite);
    assert_eq!(command_list.operators[2], Operator::RedirectAppend);
    assert_eq!(command_list.commands[0].command, "a");
    assert_eq!(command_list.commands[1].command, "b");
    assert_eq!(command_list.commands[2].command, "f");
    assert_eq!(command_list.commands[3].command, "g");
}

#[test]
fn test_parse_operator_token_is_not_expanded() {
    // a token that only expands to an operator stays a command token
    let parser = InputParser::new();
    let mut env = Bindings::new();
    env.insert(String::from("P"), String::from("|"));
    let result = parser.parse(String::from("echo $P"), &env);
    assert!(result.is_ok());
    let command_list = result.unwrap();
    assert_eq!(command_list.commands.len(), 1);
    assert_eq!(command_list.operators.len(), 0);
    assert_eq!(command_list.commands[0].args, vec!["|"]);
}
