use helmor::windows_shell::{
    clipboard_script, expand_path_template, explorer_select_arg, jetbrains_toolbox_layout,
    login_console_command, newest_build, newest_toolbox_candidate, powershell_args,
    terminal_path_from_where_output, toolbox_folder_matches, user_path_script, TemplateEnv,
    CREATE_NO_WINDOW,
};

fn env() -> TemplateEnv {
    TemplateEnv {
        user_profile: Some("C:\\Users\\me".to_string()),
        local_app_data: Some("C:\\Users\\me\\AppData\\Local".to_string()),
        app_data: None,
        program_files: Some("C:\\Program Files".to_string()),
        program_files_x86: Some("C:\\Program Files (x86)".to_string()),
        home: Some("C:\\Users\\me".to_string()),
    }
}

#[test]
fn expand_path_template_replaces_known_tokens() {
    assert_eq!(
        expand_path_template("%LOCALAPPDATA%\\Programs\\x.exe", &env()),
        "C:\\Users\\me\\AppData\\Local\\Programs\\x.exe"
    );
    assert_eq!(expand_path_template("$HOME/.cfg", &env()), "C:\\Users\\me/.cfg");
    assert_eq!(expand_path_template("%APPDATA%\\x", &env()), "%APPDATA%\\x");
    assert_eq!(
        expand_path_template("%ProgramFiles(x86)%\\a;%ProgramFiles%\\b", &env()),
        "C:\\Program Files (x86)\\a;C:\\Program Files\\b"
    );
    assert_eq!(expand_path_template("%USERPROFILE%%USERPROFILE%", &env()), "C:\\Users\\meC:\\Users\\me");
    assert_eq!(CREATE_NO_WINDOW, 0x0800_0000);
}

#[test]
fn console_commands_are_built() {
    assert_eq!(explorer_select_arg("C:\\a b\\c.txt"), "/select,C:\\a b\\c.txt");
    let (prog, args) = login_console_command(Some("C:\\wt.exe"), "gh auth login");
    assert_eq!(prog, "C:\\wt.exe");
    assert_eq!(args, vec!["-w", "0", "nt", "cmd.exe", "/k", "gh auth login"]);
    let (prog, args) = login_console_command(None, "agent auth");
    assert_eq!(prog, "cmd.exe");
    assert_eq!(args, vec!["/c", "start", "Helmor Agent Login", "cmd.exe", "/k", "agent auth"]);
}

#[test]
fn terminal_path_comes_from_first_where_line() {
    assert_eq!(
        terminal_path_from_where_output(true, "C:\\a\\wt.exe\r\nC:\\b\\wt.exe\r\n").as_deref(),
        Some("C:\\a\\wt.exe")
    );
    assert_eq!(terminal_path_from_where_output(false, "C:\\a\\wt.exe"), None);
    assert_eq!(terminal_path_from_where_output(true, ""), None);
    assert_eq!(terminal_path_from_where_output(true, "   \r\nC:\\x"), None);
    assert_eq!(terminal_path_from_where_output(true, " C:\\wt.exe ").as_deref(), Some("C:\\wt.exe"));
}

#[test]
fn toolbox_layouts_and_folders() {
    let l = jetbrains_toolbox_layout("pycharm").unwrap();
    assert_eq!(l.folder_prefixes, vec!["PyCharm", "PC"]);
    assert_eq!(l.bin_name, "pycharm64.exe");
    assert_eq!(jetbrains_toolbox_layout("rider").unwrap().bin_name, "rider64.exe");
    assert!(jetbrains_toolbox_layout("vscode").is_none());
    assert!(toolbox_folder_matches("PC-1", &l.folder_prefixes));
    assert!(toolbox_folder_matches("PyCharm-P", &l.folder_prefixes));
    assert!(!toolbox_folder_matches("IDEA-U", &l.folder_prefixes));
}

#[test]
fn newest_candidate_and_build() {
    let c = vec![
        "C:\\apps\\IDEA-U\\ch-0\\231\\bin\\idea64.exe".to_string(),
        "C:\\apps\\IDEA-U\\ch-0\\233\\bin\\idea64.exe".to_string(),
        "C:\\apps\\IDEA-C\\ch-0\\999\\bin\\idea64.exe".to_string(),
    ];
    assert_eq!(newest_toolbox_candidate(&c).as_deref(), Some("C:\\apps\\IDEA-U\\ch-0\\233\\bin\\idea64.exe"));
    assert_eq!(newest_toolbox_candidate(&Vec::new()), None);
    let builds: Vec<String> = ["C:\\ch-0\\233.1", "C:\\ch-0\\241.2", "C:\\ch-0\\231.9", "C:\\ch-0\\242.0"]
        .iter()
        .map(|s| s.to_string())
        .collect();
    assert_eq!(newest_build(&builds, &vec![true, true, true, false]), Some(1));
    assert_eq!(newest_build(&builds, &vec![true, false, true, false]), Some(0));
    assert_eq!(newest_build(&builds, &vec![false, false, false, false]), None);
    assert_eq!(newest_build(&builds, &vec![true, true, true, true]), Some(3));
}

#[test]
fn powershell_scripts_quote_paths() {
    assert_eq!(clipboard_script("C:\\it's.png"), "Set-Clipboard -Path 'C:\\it''s.png'");
    let s = user_path_script("C:\\Bob's\\bin");
    assert!(s.starts_with("$dir = 'C:\\Bob''s\\bin'; $path = [Environment]::GetEnvironmentVariable('Path', 'User');"));
    assert!(s.ends_with("[Environment]::SetEnvironmentVariable('Path', ($path.TrimEnd(';') + ';' + $dir), 'User')"));
    assert!(s.contains("{ [Environment]::SetEnvironmentVariable('Path', $dir, 'User'); exit 0 }"));
    assert_eq!(
        powershell_args("x"),
        vec!["-NoProfile", "-NonInteractive", "-ExecutionPolicy", "Bypass", "-Command", "x"]
    );
}

#[test]
fn plain_template_is_unchanged() {
    assert_eq!(expand_path_template("C:\\tools\\bin", &env()), "C:\\tools\\bin");
    let empty = TemplateEnv {
        user_profile: None,
        local_app_data: None,
        app_data: None,
        program_files: None,
        program_files_x86: None,
        home: None,
    };
    assert_eq!(expand_path_template("%USERPROFILE%\\x", &empty), "%USERPROFILE%\\x");
}
