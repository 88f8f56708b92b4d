use clutch::command::{shell_command_line, spawn_command, spawn_plan, spawn_step, SpawnPlan};
use clutch::error::PtyStep;

fn argv(cmd: &portable_pty::CommandBuilder) -> Vec<String> {
    cmd.get_argv().iter().map(|a| a.to_string_lossy().into_owned()).collect()
}

fn cwd(cmd: &portable_pty::CommandBuilder) -> Option<String> {
    cmd.get_cwd().map(|d| d.to_string_lossy().into_owned())
}

fn extra_env(cmd: &portable_pty::CommandBuilder) -> Vec<(String, String)> {
    let mut pairs: Vec<(String, String)> = cmd
        .iter_extra_env_as_str()
        .map(|(k, v)| (k.to_string(), v.to_string()))
        .collect();
    pairs.sort();
    pairs
}

#[test]
fn plain_login_shell_starts_in_the_working_directory() {
    let cmd = spawn_command(
        Some("/bin/bash".to_string()),
        Some("/tmp/work".to_string()),
        None,
        Vec::new(),
    );
    assert_eq!(argv(&cmd), vec!["/bin/bash", "-l"]);
    assert_eq!(cwd(&cmd), Some("/tmp/work".to_string()));
}

#[test]
fn empty_command_is_no_command() {
    let cmd = spawn_command(None, None, Some(String::new()), Vec::new());
    assert_eq!(argv(&cmd), vec!["/bin/zsh", "-l"]);
    assert_eq!(cwd(&cmd), None);
}

#[test]
fn shell_falls_back_to_zsh() {
    let cmd = spawn_command(None, None, Some("ls".to_string()), Vec::new());
    assert_eq!(argv(&cmd), vec!["/bin/zsh", "-l", "-c", "ls; exec \"$SHELL\""]);
}

#[test]
fn command_changes_directory_by_itself() {
    let cmd = spawn_command(
        Some("/bin/sh".to_string()),
        Some("/home/u/my project".to_string()),
        Some("vim".to_string()),
        Vec::new(),
    );
    assert_eq!(
        argv(&cmd),
        vec!["/bin/sh", "-l", "-c", "cd '/home/u/my project' && vim; exec \"$SHELL\""]
    );
    assert_eq!(cwd(&cmd), None);
}

#[test]
fn single_quotes_in_the_directory_are_escaped() {
    let line = shell_command_line(&Some("/tmp/it's".to_string()), "make");
    assert_eq!(line, "cd '/tmp/it'\\''s' && make; exec \"$SHELL\"");
    let line = shell_command_line(&Some("''".to_string()), "x");
    assert_eq!(line, "cd ''\\'''\\''' && x; exec \"$SHELL\"");
    let line = shell_command_line(&None, "make");
    assert_eq!(line, "make; exec \"$SHELL\"");
}

#[test]
fn baseline_environment_is_set() {
    let cmd = spawn_command(None, None, None, Vec::new());
    assert_eq!(
        extra_env(&cmd),
        vec![
            ("COLORTERM".to_string(), "truecolor".to_string()),
            ("LANG".to_string(), "en_US.UTF-8".to_string()),
            ("TERM".to_string(), "xterm-256color".to_string()),
        ]
    );
}

#[test]
fn caller_environment_overrides_the_baseline() {
    let cmd = spawn_command(
        None,
        None,
        None,
        vec![
            ("TERM".to_string(), "dumb".to_string()),
            ("CLUTCH_SESSION_ID".to_string(), "s1".to_string()),
            ("TERM".to_string(), "vt100".to_string()),
        ],
    );
    assert_eq!(
        extra_env(&cmd),
        vec![
            ("CLUTCH_SESSION_ID".to_string(), "s1".to_string()),
            ("COLORTERM".to_string(), "truecolor".to_string()),
            ("LANG".to_string(), "en_US.UTF-8".to_string()),
            ("TERM".to_string(), "vt100".to_string()),
        ]
    );
    assert_eq!(cmd.get_env("TERM").map(|v| v.to_string_lossy().into_owned()), Some("vt100".to_string()));
}

#[test]
fn failure_to_start_is_reported_by_what_was_started() {
    assert_eq!(spawn_step(&Some("ls".to_string())), PtyStep::SpawnCommand);
    assert_eq!(spawn_step(&Some(String::new())), PtyStep::SpawnShell);
    assert_eq!(spawn_step(&None), PtyStep::SpawnShell);
}

#[test]
fn plan_holds_arguments_variables_and_directory() {
    let plan = spawn_plan(
        Some("/bin/bash".to_string()),
        Some("/w".to_string()),
        Some("make".to_string()),
        vec![("TERM".to_string(), "dumb".to_string())],
    );
    assert_eq!(
        plan,
        SpawnPlan {
            argv: vec![
                "/bin/bash".to_string(),
                "-l".to_string(),
                "-c".to_string(),
                "cd '/w' && make; exec \"$SHELL\"".to_string(),
            ],
            env: vec![
                ("TERM".to_string(), "xterm-256color".to_string()),
                ("COLORTERM".to_string(), "truecolor".to_string()),
                ("LANG".to_string(), "en_US.UTF-8".to_string()),
                ("TERM".to_string(), "dumb".to_string()),
            ],
            cwd: None,
        }
    );
    let plain = spawn_plan(None, Some("/w".to_string()), None, Vec::new());
    assert_eq!(plain.argv, vec!["/bin/zsh".to_string(), "-l".to_string()]);
    assert_eq!(plain.cwd, Some("/w".to_string()));
    assert_eq!(plain.env.len(), 3);
}
