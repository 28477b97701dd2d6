use spaceheart::alias::collect_alias_lines;
use spaceheart::alias::find_alias_command;
use spaceheart::repl::interpret_line;
use spaceheart::repl::Action;

fn table(lines: &[&str]) -> Vec<String> {
    lines.iter().map(|l| l.to_string()).collect()
}

#[test]
fn exit_terminates_loop() {
    let aliases: Vec<String> = Vec::new();
    match interpret_line("exit", &aliases) {
        Action::Exit => {}
        _ => panic!("expected Exit"),
    }
}

#[test]
fn exit_with_surrounding_whitespace_terminates() {
    let aliases: Vec<String> = Vec::new();
    match interpret_line("   exit \t ", &aliases) {
        Action::Exit => {}
        _ => panic!("expected Exit"),
    }
}

#[test]
fn exit_with_arguments_is_not_exit() {
    let aliases: Vec<String> = Vec::new();
    match interpret_line("exit now", &aliases) {
        Action::Spawn(parts) => {
            assert_eq!(parts, vec!["exit".to_string(), "now".to_string()]);
        }
        _ => panic!("expected Spawn"),
    }
}

#[test]
fn blank_input_is_ignored() {
    let aliases = table(&["alias gohome=cd /tmp"]);
    match interpret_line("", &aliases) {
        Action::Blank => {}
        _ => panic!("expected Blank"),
    }
    match interpret_line("  \t  \r\n", &aliases) {
        Action::Blank => {}
        _ => panic!("expected Blank"),
    }
}

#[test]
fn cd_alias_resolves_to_builtin() {
    let aliases = table(&["alias gohome=cd /tmp"]);
    let cmd = find_alias_command("gohome", &aliases).expect("gohome should resolve");
    assert_eq!(cmd.directory, "/tmp");
    match interpret_line("gohome", &aliases) {
        Action::RunBuiltin(c) => assert_eq!(c.directory, "/tmp"),
        _ => panic!("expected RunBuiltin"),
    }
}

#[test]
fn quoted_cd_alias_resolves() {
    let aliases = table(&["alias gohome='cd /tmp'"]);
    let cmd = find_alias_command("gohome", &aliases).expect("quoted gohome should resolve");
    assert_eq!(cmd.directory, "/tmp");
}

#[test]
fn cd_alias_target_is_trimmed() {
    let aliases = table(&["alias go=cd   /tmp  "]);
    let cmd = find_alias_command("go", &aliases).expect("go should resolve");
    assert_eq!(cmd.directory, "/tmp");
}

#[test]
fn cd_alias_without_target_gives_empty_directory() {
    let aliases = table(&["alias go=cd"]);
    let cmd = find_alias_command("go", &aliases).expect("go should resolve");
    assert_eq!(cmd.directory, "");
}

#[test]
fn non_cd_alias_falls_through_to_spawn() {
    let aliases = table(&["alias greet=echo hi"]);
    assert!(find_alias_command("greet", &aliases).is_none());
    match interpret_line("greet", &aliases) {
        Action::Spawn(parts) => {
            assert_eq!(parts, vec!["greet".to_string()]);
        }
        _ => panic!("expected Spawn"),
    }
}

#[test]
fn alias_match_is_exact_not_substring() {
    let aliases = table(&["alias ll=cd /var"]);
    assert!(find_alias_command("l", &aliases).is_none());
    assert!(find_alias_command("lll", &aliases).is_none());
    assert!(find_alias_command("ll", &aliases).is_some());
}

#[test]
fn later_cd_alias_wins_over_earlier_non_cd() {
    let aliases = table(&["alias go=echo hi", "alias go=cd /opt"]);
    let cmd = find_alias_command("go", &aliases).expect("go should resolve");
    assert_eq!(cmd.directory, "/opt");
}

#[test]
fn first_matching_cd_alias_wins() {
    let aliases = table(&["alias go=cd /first", "alias go=cd /second"]);
    let cmd = find_alias_command("go", &aliases).expect("go should resolve");
    assert_eq!(cmd.directory, "/first");
}

#[test]
fn alias_line_without_eq_is_ignored() {
    let aliases = table(&["alias go"]);
    assert!(find_alias_command("go", &aliases).is_none());
}

#[test]
fn alias_line_without_trailing_space_is_ignored() {
    let aliases = table(&["aliasgo=cd /tmp"]);
    assert!(find_alias_command("go", &aliases).is_none());
}

#[test]
fn alias_lookup_uses_first_input_token() {
    let aliases = table(&["alias gohome=cd /tmp"]);
    let cmd = find_alias_command("  gohome extra args", &aliases).expect("should resolve");
    assert_eq!(cmd.directory, "/tmp");
}

#[test]
fn plain_command_spawns_with_arguments() {
    let aliases: Vec<String> = Vec::new();
    match interpret_line("echo hello", &aliases) {
        Action::Spawn(parts) => {
            assert_eq!(parts, vec!["echo".to_string(), "hello".to_string()]);
        }
        _ => panic!("expected Spawn"),
    }
}

#[test]
fn spawn_tokens_collapse_inner_whitespace() {
    let aliases: Vec<String> = Vec::new();
    match interpret_line("  ls   -la   /tmp ", &aliases) {
        Action::Spawn(parts) => {
            assert_eq!(
                parts,
                vec!["ls".to_string(), "-la".to_string(), "/tmp".to_string()]
            );
        }
        _ => panic!("expected Spawn"),
    }
}

#[test]
fn loader_keeps_only_alias_lines_in_order() {
    let lines = table(&[
        "# comment",
        "alias a=cd /one",
        "export PATH=/bin",
        "alias b=echo hi",
        "",
        "aliases are nice",
    ]);
    let kept = collect_alias_lines(&lines);
    assert_eq!(
        kept,
        vec![
            "alias a=cd /one".to_string(),
            "alias b=echo hi".to_string(),
            "aliases are nice".to_string(),
        ]
    );
}

#[test]
fn loader_of_empty_input_is_empty() {
    let lines: Vec<String> = Vec::new();
    let kept = collect_alias_lines(&lines);
    assert!(kept.is_empty());
}
