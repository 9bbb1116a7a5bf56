use hackshell::commands::env::Env;
use hackshell::commands::exit::Exit;
use hackshell::commands::get::Get;
use hackshell::commands::help::Help;
use hackshell::commands::set::SetCmd;
use hackshell::commands::sleep::{parse_u64, Sleep};
use hackshell::commands::task::{Task, TaskAction};
use hackshell::commands::unset::Unset;
use hackshell::environment::Environment;
use hackshell::error::HackshellError;

fn args(words: &[&str]) -> Vec<String> {
    words.iter().map(|w| w.to_string()).collect()
}

#[test]
fn command_words_and_help() {
    assert_eq!(Env {}.commands(), vec!["env"]);
    assert_eq!(Exit {}.commands(), vec!["exit"]);
    assert_eq!(Get {}.commands(), vec!["get"]);
    assert_eq!(Help {}.commands(), vec!["help"]);
    assert_eq!(SetCmd {}.commands(), vec!["set"]);
    assert_eq!(Sleep {}.commands(), vec!["sleep"]);
    assert_eq!(Task {}.commands(), vec!["task"]);
    assert_eq!(Unset {}.commands(), vec!["unset"]);
    assert_eq!(Exit {}.help(), "Exits the program");
    assert_eq!(Get {}.help(), "Prints an environment variable");
}

#[test]
fn exit_always_asks_to_exit() {
    assert!(matches!(Exit {}.run(), Err(HackshellError::Exit)));
}

#[test]
fn get_prints_the_variable() {
    let mut env = Environment::new();
    env.set_var("user", "root");
    let r = Get {}.run(&args(&["get", "user"]), &env);
    assert_eq!(r.unwrap(), "root");
}

#[test]
fn get_syntax_and_missing_errors() {
    let env = Environment::new();
    match (Get {}).run(&args(&["get"]), &env) {
        Err(HackshellError::Message(m)) => assert_eq!(m, "Syntax: get <name>"),
        other => panic!("unexpected: {:?}", other),
    }
    match (Get {}).run(&args(&["get", "nope"]), &env) {
        Err(HackshellError::Message(m)) => assert_eq!(m, "Variable not found"),
        other => panic!("unexpected: {:?}", other),
    }
}

#[test]
fn set_stores_and_reports_syntax() {
    let mut env = Environment::new();
    assert!(SetCmd {}.run(&args(&["set", "A", "1"]), &mut env).is_ok());
    assert_eq!(env.get_var("a"), Some("1".to_string()));
    match (SetCmd {}).run(&args(&["set", "A"]), &mut env) {
        Err(HackshellError::Message(m)) => assert_eq!(m, "Syntax: set <name> <value>"),
        other => panic!("unexpected: {:?}", other),
    }
}

#[test]
fn unset_removes_and_reports_syntax() {
    let mut env = Environment::new();
    env.set_var("a", "1");
    assert!(Unset {}.run(&args(&["unset", "a"]), &mut env).is_ok());
    assert_eq!(env.get_var("a"), None);
    match (Unset {}).run(&args(&["unset"]), &mut env) {
        Err(HackshellError::Message(m)) => assert_eq!(m, "Syntax: unset <name>"),
        other => panic!("unexpected: {:?}", other),
    }
}

#[test]
fn env_renders_lines() {
    let items = vec![("a".to_string(), "1".to_string()), ("b".to_string(), "x=y".to_string())];
    assert_eq!(Env {}.run(&items), "a=1\nb=x=y\n");
    assert_eq!(Env {}.run(&Vec::new()), "");
}

#[test]
fn sleep_parses_seconds() {
    assert!(matches!(Sleep {}.run(&args(&["sleep", "2"])), Ok(2)));
    assert!(matches!(Sleep {}.run(&args(&["sleep", "+10"])), Ok(10)));
}

#[test]
fn sleep_rejects_bad_arguments() {
    match (Sleep {}).run(&args(&["sleep"])) {
        Err(HackshellError::Message(m)) => assert_eq!(m, "Invalid number of arguments"),
        other => panic!("unexpected: {:?}", other),
    }
    match (Sleep {}).run(&args(&["sleep", "2s"])) {
        Err(HackshellError::Message(m)) => assert_eq!(m, "invalid digit found in string"),
        other => panic!("unexpected: {:?}", other),
    }
}

#[test]
fn parse_u64_matches_std() {
    for s in ["0", "7", "42", "+5", "18446744073709551615", "18446744073709551616", "", "+", "1x",
        "x1", "99999999999999999999x", "-3"] {
        let mine = parse_u64(s);
        let std_parse = s.parse::<u64>();
        match (mine, std_parse) {
            (Ok(a), Ok(b)) => assert_eq!(a, b),
            (Err(HackshellError::Message(m)), Err(e)) => assert_eq!(m, e.to_string()),
            (a, b) => panic!("mismatch on {:?}: {:?} vs {:?}", s, a, b),
        }
    }
}

#[test]
fn task_plans_from_arguments() {
    let t = Task {};
    assert!(matches!(t.plan(&args(&["task"])), Ok(TaskAction::List)));
    match t.plan(&args(&["task", "-t", "worker"])) {
        Ok(TaskAction::Terminate(n)) => assert_eq!(n, "worker"),
        other => panic!("unexpected: {:?}", other),
    }
    match t.plan(&args(&["task", "--wait", "worker"])) {
        Ok(TaskAction::Wait(n)) => assert_eq!(n, "worker"),
        other => panic!("unexpected: {:?}", other),
    }
    match t.plan(&args(&["task", "-x", "worker"])) {
        Err(HackshellError::Message(m)) => assert_eq!(m, "Usage: task [-t NAME] [-w NAME]"),
        other => panic!("unexpected: {:?}", other),
    }
}

#[test]
fn task_renders_empty_listing() {
    assert_eq!(Task {}.render(&Vec::new()), "No running tasks\n");
}

#[test]
fn task_renders_table_rows() {
    let rows = vec![("t1".to_string(), "2024-01-01 00:00:00".to_string())];
    let text = Task {}.render(&rows);
    let expected = format!(
        "\n{:<24} {:<24}\n{:<24} {:<24}\n\n{:<24} {:<24}\n\n",
        "Task", "Started at", "----", "----------", "t1", "2024-01-01 00:00:00"
    );
    assert_eq!(text, expected);
}

#[test]
fn help_renders_header_and_rows() {
    let entries = vec![("help".to_string(), "Displays this message".to_string())];
    let text = Help {}.run(&entries);
    let expected = format!(
        "\n{:<24} {:<24}\n{:<24} {:<24}\n\n{:<24} {:<24}\n\n",
        "Command", "Description", "----", "----------", "help", "Displays this message"
    );
    assert_eq!(text, expected);
}

#[test]
fn long_cells_are_kept_whole() {
    let long = "x".repeat(30);
    let rows = vec![(long.clone(), "short".to_string())];
    let text = Task {}.render(&rows);
    assert!(text.contains(&format!("{} short", long)));
}
