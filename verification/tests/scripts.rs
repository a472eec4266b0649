use helmor::scripts::{
    check_script, exit_code_of_status, fish_shell_escape, initial_input, is_bash_like, is_fish,
    next_write_step, pid_gone_from_probe, reported_exit_code, resolve_interactive_shell,
    script_environment, shell_basename, shell_escape, started_command, wrapped_script_for_shell,
    ScriptContext, ScriptError, WriteFailure, WriteOutcome, WriteStep,
};

#[test]
fn shell_basename_takes_last_component() {
    assert_eq!(shell_basename("C:\\Program Files\\Git\\bin\\bash.exe"), "bash.exe");
    assert_eq!(shell_basename("/usr/bin/zsh"), "zsh");
    assert_eq!(shell_basename("/usr/bin/fish/"), "fish");
    assert_eq!(shell_basename("C:/tools/./sh.exe/."), "sh.exe");
    assert_eq!(shell_basename("bash"), "bash");
    assert_eq!(shell_basename("C:bash.exe"), "bash.exe");
    assert_eq!(shell_basename("C:"), "C:");
    assert_eq!(shell_basename("/usr/.."), "/usr/..");
    assert_eq!(shell_basename(""), "");
    assert_eq!(shell_basename("\\"), "\\");
}

#[test]
fn shell_kinds_are_recognised() {
    assert!(is_bash_like("C:\\Program Files\\Git\\bin\\bash.exe"));
    assert!(is_bash_like("/bin/sh"));
    assert!(is_bash_like("zsh.exe"));
    assert!(!is_bash_like("C:\\Windows\\System32\\cmd.exe"));
    assert!(!is_bash_like("/usr/bin/bashful"));
    assert!(is_fish("/opt/homebrew/bin/fish"));
    assert!(is_fish("D:\\fish.exe"));
    assert!(!is_fish("/bin/bash"));
}

#[test]
fn interactive_shell_prefers_usable_shell_env() {
    let (shell, args) = resolve_interactive_shell(Some("C:\\Git\\bin\\bash.exe"), true, Some("cmd"));
    assert_eq!(shell, "C:\\Git\\bin\\bash.exe");
    assert_eq!(args, vec!["-i", "-l"]);
    let (shell, args) = resolve_interactive_shell(Some("C:\\Git\\bin\\bash.exe"), false, Some("C:\\cmd.exe"));
    assert_eq!(shell, "C:\\cmd.exe");
    assert!(args.is_empty());
    let (shell, args) = resolve_interactive_shell(Some("C:\\pwsh.exe"), true, None);
    assert_eq!(shell, "C:\\Windows\\System32\\cmd.exe");
    assert!(args.is_empty());
    let (shell, _) = resolve_interactive_shell(None, false, None);
    assert_eq!(shell, "C:\\Windows\\System32\\cmd.exe");
}

#[test]
fn shell_escape_doubles_single_quotes() {
    assert_eq!(shell_escape("echo hi"), "'echo hi'");
    assert_eq!(shell_escape("it's"), "'it''s'");
    assert_eq!(shell_escape(""), "''");
    assert_eq!(shell_escape("''"), "''''''");
}

#[test]
fn fish_shell_escape_escapes_specials() {
    assert_eq!(fish_shell_escape("echo hi"), "\"echo hi\"");
    assert_eq!(fish_shell_escape("a\\b"), "\"a\\\\b\"");
    assert_eq!(fish_shell_escape("$HOME"), "\"\\$HOME\"");
    assert_eq!(fish_shell_escape("say \"x\""), "\"say \\\"x\\\"\"");
}

#[test]
fn wrapped_script_matches_each_shell() {
    assert_eq!(
        wrapped_script_for_shell("/usr/bin/fish", "ls"),
        "eval \"ls\"; set -l __helmor_ec $status; printf '\\r\\n\\033[2m[Completed with exit code %d]\\033[0m\\r\\n' $__helmor_ec; exit $__helmor_ec\r\n"
    );
    assert_eq!(
        wrapped_script_for_shell("C:\\Git\\bin\\bash.exe", "it's"),
        "eval 'it''s'; __helmor_ec=$?; printf '\\r\\n\\033[2m[Completed with exit code %d]\\033[0m\\r\\n' $__helmor_ec; exit $__helmor_ec\r\n"
    );
    assert_eq!(
        wrapped_script_for_shell("C:\\Windows\\System32\\cmd.exe", "dir"),
        "dir\r\necho.\r\necho [Completed with exit code %ERRORLEVEL%]\r\nexit /b %ERRORLEVEL%\r\n"
    );
}

#[test]
fn script_environment_lists_known_context() {
    let ctx = ScriptContext {
        root_path: "C:\\repo".to_string(),
        workspace_path: Some("C:\\ws".to_string()),
        workspace_name: None,
        default_branch: Some("main".to_string()),
        port_base: Some(3000),
        port_count: Some(10),
    };
    let env = script_environment(&ctx);
    let expected: Vec<(String, String)> = vec![
        ("TERM".into(), "xterm-256color".into()),
        ("FORCE_COLOR".into(), "1".into()),
        ("CLICOLOR_FORCE".into(), "1".into()),
        ("HELMOR_ROOT_PATH".into(), "C:\\repo".into()),
        ("HELMOR_WORKSPACE_PATH".into(), "C:\\ws".into()),
        ("HELMOR_DEFAULT_BRANCH".into(), "main".into()),
        ("HELMOR_PORT".into(), "3000".into()),
        ("HELMOR_PORT_COUNT".into(), "10".into()),
    ];
    assert_eq!(env, expected);
}

#[test]
fn script_environment_needs_both_port_parts() {
    let ctx = ScriptContext {
        root_path: "/r".to_string(),
        workspace_path: None,
        workspace_name: Some("ws".to_string()),
        default_branch: None,
        port_base: Some(3000),
        port_count: None,
    };
    let env = script_environment(&ctx);
    assert_eq!(env.len(), 5);
    assert_eq!(env[4], ("HELMOR_WORKSPACE_NAME".to_string(), "ws".to_string()));
    let ctx = ScriptContext { port_base: Some(0), port_count: Some(65535), ..ctx };
    let env = script_environment(&ctx);
    assert_eq!(env[5], ("HELMOR_PORT".to_string(), "0".to_string()));
    assert_eq!(env[6], ("HELMOR_PORT_COUNT".to_string(), "65535".to_string()));
}

#[test]
fn check_script_refuses_blank_scripts() {
    assert!(check_script(None).is_ok());
    assert!(check_script(Some("npm run dev")).is_ok());
    assert!(matches!(check_script(Some("  \r\n\t")), Err(ScriptError::EmptyScript)));
    assert!(matches!(check_script(Some("")), Err(ScriptError::EmptyScript)));
    assert_eq!(ScriptError::EmptyScript.message(), "Script is empty");
}

#[test]
fn started_command_reports_script_or_shell() {
    let args = vec!["-i".to_string(), "-l".to_string()];
    assert_eq!(started_command(Some("npm test"), "bash", &args), "npm test");
    assert_eq!(started_command(None, "C:\\Git\\bin\\bash.exe", &args), "C:\\Git\\bin\\bash.exe -i -l");
    assert_eq!(started_command(None, "cmd.exe", &Vec::new()), "cmd.exe ");
}

#[test]
fn initial_input_prefers_script() {
    assert_eq!(
        initial_input("cmd.exe", Some("dir"), Some("boot")).unwrap(),
        wrapped_script_for_shell("cmd.exe", "dir")
    );
    assert_eq!(initial_input("cmd.exe", None, Some("boot\r")).unwrap(), "boot\r");
    assert_eq!(initial_input("cmd.exe", None, None), None);
}

#[test]
fn exit_codes_are_reported_unless_killed() {
    assert_eq!(reported_exit_code(false, Some(3)), Some(3));
    assert_eq!(reported_exit_code(true, Some(3)), None);
    assert_eq!(reported_exit_code(false, None), None);
    assert_eq!(exit_code_of_status(1), 1);
    assert_eq!(exit_code_of_status(0xFFFF_FFFF), -1);
}

#[test]
fn write_steps_follow_outcomes() {
    assert!(matches!(next_write_step(10, WriteOutcome::Wrote(4), false), WriteStep::Advance(4)));
    assert!(matches!(next_write_step(10, WriteOutcome::Wrote(0), false), WriteStep::Fail(WriteFailure::ZeroWrite)));
    assert!(matches!(next_write_step(10, WriteOutcome::WouldBlock, false), WriteStep::Retry));
    assert!(matches!(next_write_step(10, WriteOutcome::WouldBlock, true), WriteStep::Fail(WriteFailure::TimedOut)));
    assert!(matches!(next_write_step(10, WriteOutcome::Failed, false), WriteStep::Fail(WriteFailure::Io)));
}

#[test]
fn taskkill_probe_detects_missing_process() {
    assert!(pid_gone_from_probe(None));
    assert!(pid_gone_from_probe(Some("ERROR: The process \"1234\" not found.\r\n")));
    assert!(pid_gone_from_probe(Some("\u{9519}\u{8bef}: \u{627e}\u{4e0d}\u{5230}\u{8fdb}\u{7a0b}")));
    assert!(!pid_gone_from_probe(Some("SUCCESS: Sent termination signal.")));
    assert!(!pid_gone_from_probe(Some("")));
}

#[test]
fn shell_basename_agrees_with_path_on_slash_paths() {
    for p in ["/usr/bin/bash", "bash", "a/b/", "a/./", "./", ".", "..", "a/..", "/", "", "x//y//", "/a/./b/."] {
        let expected = std::path::Path::new(p)
            .file_name()
            .and_then(|n| n.to_str())
            .unwrap_or(p);
        assert_eq!(shell_basename(p), expected, "{p:?}");
    }
}

#[test]
fn shell_basename_follows_windows_prefixes() {
    assert_eq!(shell_basename("\\\\srv\\share"), "\\\\srv\\share");
    assert_eq!(shell_basename("\\\\srv\\share\\bash.exe"), "bash.exe");
    assert_eq!(shell_basename("//srv/share/fish"), "fish");
    assert_eq!(shell_basename("\\\\?\\C:\\tools\\bash.exe"), "bash.exe");
    assert_eq!(shell_basename("\\\\?\\C:\\a/bash.exe"), "a/bash.exe");
    assert_eq!(shell_basename("\\\\?\\C:\\tools\\."), "\\\\?\\C:\\tools\\.");
    assert_eq!(shell_basename("\\\\?\\UNC\\srv\\share"), "\\\\?\\UNC\\srv\\share");
    assert_eq!(shell_basename("\\\\?\\UNC\\srv\\share\\zsh.exe"), "zsh.exe");
    assert_eq!(shell_basename("\\\\.\\pipe\\x"), "x");
    assert_eq!(shell_basename("\\\\.\\COM1"), "\\\\.\\COM1");
    assert!(is_bash_like("\\\\srv\\share\\bin\\bash.exe"));
    assert!(!is_bash_like("\\\\srv\\bash"));
}
