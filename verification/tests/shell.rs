use fesh::bindings::Bindings;
use fesh::command::{Command, CommandType};
use fesh::config::{edit_mode, Config, EditMode, HistoryConfig, ReadlineConfig};
use fesh::config_parser::{default_history_path, ConfigParser};
use fesh::fesh::{BuiltinOp, Fesh};
use fesh::input_parser::InputParser;
use fesh::plan::{StageOutput};
use fesh::prompt::{color_from_name, Color, Prompt};

fn test_config() -> Config {
    Config {
        prompt: Prompt::new(String::from("$ "), Color::Blue, true, false, true),
        aliases: Bindings::new(),
        readline: ReadlineConfig { edit_mode: String::from("emacs") },
        history: HistoryConfig { history_path: String::from("history.txt") },
        env: Bindings::new(),
    }
}

#[test]
fn test_alias_resolution() {
    let parser = InputParser::new();
    let env = Bindings::new();
    let mut aliases = Bindings::new();
    aliases.insert(String::from("ll"), String::from("ls -la"));
    let mut command_list = parser.parse(String::from("ll /tmp"), &env).unwrap();
    command_list.replace_aliases(&aliases);
    assert_eq!(command_list.commands[0].command, "ls");
    assert_eq!(command_list.commands[0].args, vec!["-la", "/tmp"]);
    assert_eq!(command_list.commands[0].command_type, CommandType::External);
}

#[test]
fn test_alias_rederives_classification() {
    let parser = InputParser::new();
    let env = Bindings::new();
    let mut aliases = Bindings::new();
    aliases.insert(String::from("quit"), String::from("exit"));
    let mut command_list = parser.parse(String::from("quit"), &env).unwrap();
    assert_eq!(command_list.commands[0].command_type, CommandType::External);
    command_list.replace_aliases(&aliases);
    assert_eq!(command_list.commands[0].command, "exit");
    assert_eq!(command_list.commands[0].command_type, CommandType::Builtin);
}

#[test]
fn test_alias_without_match_is_untouched() {
    let parser = InputParser::new();
    let env = Bindings::new();
    let mut aliases = Bindings::new();
    aliases.insert(String::from("ll"), String::from("ls -la"));
    let mut command_list = parser.parse(String::from("cat file"), &env).unwrap();
    command_list.replace_aliases(&aliases);
    assert_eq!(command_list.commands[0].command, "cat");
    assert_eq!(command_list.commands[0].args, vec!["file"]);
}

#[test]
fn test_alias_with_blank_value_is_untouched() {
    let parser = InputParser::new();
    let env = Bindings::new();
    let mut aliases = Bindings::new();
    aliases.insert(String::from("ll"), String::from("   "));
    let mut command_list = parser.parse(String::from("ll /tmp"), &env).unwrap();
    command_list.replace_aliases(&aliases);
    assert_eq!(command_list.commands[0].command, "ll");
    assert_eq!(command_list.commands[0].args, vec!["/tmp"]);
}

#[test]
fn test_builtin_classification() {
    assert_eq!(Command::new(String::from("exit"), Vec::new()).command_type, CommandType::Builtin);
    assert_eq!(Command::new(String::from("+debug"), Vec::new()).command_type, CommandType::Builtin);
    assert_eq!(Command::new(String::from("ls"), Vec::new()).command_type, CommandType::External);
    assert_eq!(Command::new(String::from("cd"), Vec::new()).command_type, CommandType::External);
    assert_eq!(Command::new(String::from("aliases"), Vec::new()).command_type, CommandType::External);
    assert_eq!(Command::new(String::from("exit2"), Vec::new()).command_type, CommandType::External);
}

#[test]
fn test_check_first_builtin() {
    let fesh = Fesh::new(test_config());
    let env = Bindings::new();
    let parser = InputParser::new();
    let exit_list = parser.parse(String::from("exit"), &env).unwrap();
    assert_eq!(fesh.check_first_builtin(&exit_list), Some(BuiltinOp::Exit));
    let debug_list = parser.parse(String::from("+debug now"), &env).unwrap();
    assert_eq!(fesh.check_first_builtin(&debug_list), Some(BuiltinOp::ToggleDebug));
    let external_list = parser.parse(String::from("ls | wc -l"), &env).unwrap();
    assert_eq!(fesh.check_first_builtin(&external_list), None);
    let cd_list = parser.parse(String::from("cd /tmp"), &env).unwrap();
    assert_eq!(fesh.check_first_builtin(&cd_list), None);
}

#[test]
fn test_toggle_logger_flips_all_flags() {
    let mut fesh = Fesh::new(test_config());
    assert!(!fesh.logger.debug_enabled);
    assert!(!fesh.input_parser.logger.debug_enabled);
    fesh.toggle_logger();
    assert!(fesh.logger.debug_enabled);
    assert!(fesh.input_parser.logger.debug_enabled);
    fesh.toggle_logger();
    assert!(!fesh.logger.debug_enabled);
    assert!(!fesh.input_parser.logger.debug_enabled);
}

#[test]
fn test_plan_redirect_skips_sink() {
    let parser = InputParser::new();
    let env = Bindings::new();
    let command_list = parser.parse(String::from("echo hello > out.txt"), &env).unwrap();
    let plan = command_list.build_plan().unwrap();
    assert_eq!(plan.stages.len(), 1);
    assert_eq!(plan.stages[0].program, "echo");
    assert_eq!(plan.stages[0].args, vec!["hello"]);
    assert!(!plan.stages[0].stdin_from_pipe);
    match &plan.stages[0].output {
        StageOutput::Overwrite { target } => assert_eq!(target, "out.txt"),
        _ => panic!("expected an overwrite redirect stage"),
    }
}

#[test]
fn test_plan_redirect_append_mode() {
    let parser = InputParser::new();
    let env = Bindings::new();
    let command_list = parser.parse(String::from("echo hello >> out.txt"), &env).unwrap();
    let plan = command_list.build_plan().unwrap();
    assert_eq!(plan.stages.len(), 1);
    match &plan.stages[0].output {
        StageOutput::Append { target } => assert_eq!(target, "out.txt"),
        _ => panic!("expected an append redirect stage"),
    }
}

#[test]
fn test_plan_pipe_wiring() {
    let parser = InputParser::new();
    let env = Bindings::new();
    let command_list = parser.parse(String::from("printf a | wc -l"), &env).unwrap();
    let plan = command_list.build_plan().unwrap();
    assert_eq!(plan.stages.len(), 2);
    assert_eq!(plan.stages[0].program, "printf");
    assert!(!plan.stages[0].stdin_from_pipe);
    assert!(matches!(plan.stages[0].output, StageOutput::Piped));
    assert_eq!(plan.stages[1].program, "wc");
    assert!(plan.stages[1].stdin_from_pipe);
    assert!(matches!(plan.stages[1].output, StageOutput::Inherit));
}

#[test]
fn test_plan_command_after_sink_starts_fresh() {
    let parser = InputParser::new();
    let env = Bindings::new();
    let command_list = parser.parse(String::from("a > f | b"), &env).unwrap();
    let plan = command_list.build_plan().unwrap();
    assert_eq!(plan.stages.len(), 2);
    assert_eq!(plan.stages[0].program, "a");
    assert!(matches!(&plan.stages[0].output, StageOutput::Overwrite { .. }));
    assert_eq!(plan.stages[1].program, "b");
    assert!(!plan.stages[1].stdin_from_pipe);
}

#[test]
fn test_plan_missing_redirect_target() {
    let parser = InputParser::new();
    let env = Bindings::new();
    let command_list = parser.parse(String::from("a >"), &env).unwrap();
    assert!(command_list.build_plan().is_none());
}

#[test]
fn test_expand_tilde() {
    let mut env = Bindings::new();
    env.insert(String::from("HOME"), String::from("/home/u"));
    assert_eq!(InputParser::expand("~/x", &env), "/home/u/x");
    assert_eq!(InputParser::expand("~", &env), "/home/u");
    assert_eq!(InputParser::expand("~x", &env), "~x");
    let no_home = Bindings::new();
    assert_eq!(InputParser::expand("~/x", &no_home), "~/x");
    assert_eq!(InputParser::expand("~", &no_home), "~");
}

#[test]
fn test_expand_env_vars() {
    let mut env = Bindings::new();
    env.insert(String::from("FOO"), String::from("bar"));
    assert_eq!(InputParser::expand("$FOO", &env), "bar");
    assert_eq!(InputParser::expand("a$FOO/b", &env), "abar/b");
    assert_eq!(InputParser::expand("$FOO$FOO", &env), "barbar");
    assert_eq!(InputParser::expand("$UNSET", &env), "$UNSET");
    assert_eq!(InputParser::expand("$", &env), "$");
    assert_eq!(InputParser::expand("a$", &env), "a$");
}

#[test]
fn test_expand_does_not_rescan_substituted_text() {
    let mut env = Bindings::new();
    env.insert(String::from("A"), String::from("$B"));
    env.insert(String::from("B"), String::from("x"));
    assert_eq!(InputParser::expand("$A", &env), "$B");
}

#[test]
fn test_bindings_shadowing() {
    let mut b = Bindings::new();
    assert!(b.get(&String::from("k")).is_none());
    b.insert(String::from("k"), String::from("v1"));
    assert_eq!(b.get(&String::from("k")), Some(&String::from("v1")));
    b.insert(String::from("k"), String::from("v2"));
    assert_eq!(b.get(&String::from("k")), Some(&String::from("v2")));
    b.insert(String::from("other"), String::from("w"));
    assert_eq!(b.get(&String::from("k")), Some(&String::from("v2")));
    assert_eq!(b.get(&String::from("other")), Some(&String::from("w")));
}

#[test]
fn test_color_names() {
    assert_eq!(color_from_name("blue"), Some(Color::Blue));
    assert_eq!(color_from_name("bright red"), Some(Color::BrightRed));
    assert_eq!(color_from_name("bright_red"), Some(Color::BrightRed));
    assert_eq!(color_from_name("chartreuse"), None);
    assert_eq!(color_from_name("Blue"), None);
}

#[test]
fn test_edit_modes() {
    assert_eq!(edit_mode("emacs"), Some(EditMode::Emacs));
    assert_eq!(edit_mode("vi"), Some(EditMode::Vi));
    assert_eq!(edit_mode("nano"), None);
}

#[test]
fn test_config_file_locations() {
    let explicit = ConfigParser::new(Some(String::from("/etc/fesh.toml")), None, Some(String::from("/home/u")));
    assert_eq!(explicit.config_file, "/etc/fesh.toml");
    let from_xdg = ConfigParser::new(None, Some(String::from("/xdg")), Some(String::from("/home/u")));
    assert_eq!(from_xdg.config_file, "/xdg/fesh/config.toml");
    let from_home = ConfigParser::new(None, None, Some(String::from("/home/u")));
    assert_eq!(from_home.config_file, "/home/u/.config/fesh/config.toml");
}

#[test]
fn test_default_history_path() {
    assert_eq!(default_history_path(Some(String::from("/data")), None), "/data/fesh/history");
    assert_eq!(
        default_history_path(None, Some(String::from("/home/u"))),
        "/home/u/.local/share/fesh/history"
    );
}

#[test]
fn test_prompt_text() {
    let p = Prompt::new(String::from("$ "), Color::Blue, true, false, true);
    assert_eq!(p.prompt_text("/tmp", "bob"), "/tmp $ ");
    let q = Prompt::new(String::from("> "), Color::Red, true, true, false);
    assert_eq!(q.prompt_text("/tmp", "bob"), "/tmp bob > ");
    let bare = Prompt::new(String::from("% "), Color::Green, false, false, false);
    assert_eq!(bare.prompt_text("/tmp", "bob"), "% ");
}
