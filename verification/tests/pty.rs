use terax::pty::unix::{build as build_unix, Shell};
use terax::pty::windows::{
    apply_wsl_base_args, apply_wsl_shell_behavior, build as build_windows, build_wsl,
    classify_shell, integration_for, linux_child, windows_shell_path, wsl_integration_dir,
    ShellKind, WslIntegration, DEFAULT_WSL_CWD,
};
use terax::pty::{
    paths_equal,
    build_command, ensure_utf8_locale, integration_dir_of, join_with_sep, normalize_script,
    pick_cwd, shell_quote, temp_path, write_needed, HostOs, LaunchPlan, LaunchTarget,
};
use terax::workspace::{shell_or_fallback, WorkspaceEnv, WslShellResolution, WslShellSource};

fn argv(cmd: &LaunchPlan) -> Vec<String> {
    cmd.argv()
}

#[test]
fn classify_shell_matches_supported_names() {
    assert_eq!(classify_shell("/usr/bin/zsh"), ShellKind::Zsh);
    assert_eq!(classify_shell("/bin/bash"), ShellKind::Bash);
    assert_eq!(classify_shell("/usr/bin/fish"), ShellKind::Fish);
    assert_eq!(classify_shell("/usr/bin/tcsh"), ShellKind::Other);
}

#[test]
fn wsl_zsh_launch_uses_login_shell_and_zdotdir() {
    let shell = WslShellResolution {
        path: "/usr/bin/zsh".into(),
        source: WslShellSource::Passwd,
    };
    let mut cmd = LaunchPlan::new("wsl.exe");
    apply_wsl_base_args(&mut cmd, "Ubuntu", "/work", &shell.path);
    apply_wsl_shell_behavior(
        &mut cmd,
        &shell,
        WslIntegration::Zsh {
            zdotdir: "/home/me/.cache/terax/shell-integration/zsh".into(),
        },
    );

    assert_eq!(
        argv(&cmd),
        vec!["wsl.exe", "-d", "Ubuntu", "--cd", "/work", "--exec", "/usr/bin/zsh", "-l",]
    );
    assert_eq!(
        cmd.get_env("ZDOTDIR").as_deref(),
        Some("/home/me/.cache/terax/shell-integration/zsh")
    );
}

#[test]
fn wsl_bash_launch_uses_rcfile_and_interactive_mode() {
    let shell = WslShellResolution {
        path: "/bin/bash".into(),
        source: WslShellSource::Passwd,
    };
    let mut cmd = LaunchPlan::new("wsl.exe");
    apply_wsl_base_args(&mut cmd, "Ubuntu", DEFAULT_WSL_CWD, &shell.path);
    apply_wsl_shell_behavior(
        &mut cmd,
        &shell,
        WslIntegration::Bash {
            rcfile: "/home/me/.cache/terax/shell-integration/bash/bashrc".into(),
        },
    );

    assert_eq!(
        argv(&cmd),
        vec![
            "wsl.exe",
            "-d",
            "Ubuntu",
            "--cd",
            "~",
            "--exec",
            "/bin/bash",
            "--rcfile",
            "/home/me/.cache/terax/shell-integration/bash/bashrc",
            "-i",
        ]
    );
}

#[test]
fn wsl_fish_launch_uses_init_command() {
    let shell = WslShellResolution {
        path: "/usr/bin/fish".into(),
        source: WslShellSource::Passwd,
    };
    let mut cmd = LaunchPlan::new("wsl.exe");
    apply_wsl_base_args(&mut cmd, "Ubuntu", "/work", &shell.path);
    apply_wsl_shell_behavior(
        &mut cmd,
        &shell,
        WslIntegration::Fish {
            init: "/home/me/.cache/terax/shell-integration/fish/init.fish".into(),
        },
    );

    assert_eq!(
        argv(&cmd),
        vec![
            "wsl.exe",
            "-d",
            "Ubuntu",
            "--cd",
            "/work",
            "--exec",
            "/usr/bin/fish",
            "--init-command",
            "source '/home/me/.cache/terax/shell-integration/fish/init.fish'",
            "-i",
        ]
    );
}

#[test]
fn unsupported_wsl_shell_stays_usable_without_integration() {
    let shell = WslShellResolution {
        path: "/usr/bin/tcsh".into(),
        source: WslShellSource::Passwd,
    };
    let mut cmd = LaunchPlan::new("wsl.exe");
    apply_wsl_base_args(&mut cmd, "Ubuntu", "/work", &shell.path);
    apply_wsl_shell_behavior(&mut cmd, &shell, WslIntegration::Bare);

    assert_eq!(
        argv(&cmd),
        vec!["wsl.exe", "-d", "Ubuntu", "--cd", "/work", "--exec", "/usr/bin/tcsh",]
    );
}

#[test]
fn fallback_shell_stays_interactive_without_rcfile() {
    let shell = WslShellResolution {
        path: "/bin/bash".into(),
        source: WslShellSource::Fallback,
    };
    let mut cmd = LaunchPlan::new("wsl.exe");
    apply_wsl_base_args(&mut cmd, "Ubuntu", "/work", &shell.path);
    apply_wsl_shell_behavior(&mut cmd, &shell, WslIntegration::Bare);

    assert_eq!(
        argv(&cmd),
        vec!["wsl.exe", "-d", "Ubuntu", "--cd", "/work", "--exec", "/bin/bash", "-i",]
    );
}

#[test]
fn bare_integration_keeps_login_and_interactive_flags() {
    let zsh = WslShellResolution { path: "/bin/zsh".into(), source: WslShellSource::Env };
    let mut cmd = LaunchPlan::new("wsl.exe");
    apply_wsl_shell_behavior(&mut cmd, &zsh, WslIntegration::Bare);
    assert_eq!(argv(&cmd), vec!["wsl.exe", "-l"]);
    assert_eq!(cmd.get_env("ZDOTDIR"), None);
    let fish = WslShellResolution { path: "/usr/bin/fish".into(), source: WslShellSource::Env };
    let mut cmd = LaunchPlan::new("wsl.exe");
    apply_wsl_shell_behavior(&mut cmd, &fish, WslIntegration::Bare);
    assert_eq!(argv(&cmd), vec!["wsl.exe", "-i"]);
}

#[test]
fn failed_preparation_means_no_integration() {
    assert!(matches!(integration_for(ShellKind::Zsh, Err("no home".into())), WslIntegration::Bare));
    assert!(matches!(
        integration_for(ShellKind::Bash, Ok("/rc".into())),
        WslIntegration::Bash { rcfile } if rcfile == "/rc"
    ));
    assert!(matches!(integration_for(ShellKind::Other, Ok("/x".into())), WslIntegration::Bare));
}

#[test]
fn build_wsl_runs_resolved_shell_in_requested_dir() {
    let resolved = WslShellResolution { path: "/usr/bin/zsh".into(), source: WslShellSource::Passwd };
    let locale = vec![None, None, Some("en_US.UTF-8".to_string())];
    let plan = build_wsl(
        Some("/srv/app".into()),
        "Ubuntu",
        &resolved,
        Ok("/home/me/.cache/terax/shell-integration/zsh".into()),
        &locale,
        None,
    );
    assert_eq!(
        plan.argv(),
        vec!["wsl.exe", "-d", "Ubuntu", "--cd", "/srv/app", "--exec", "/usr/bin/zsh", "-l"]
    );
    assert_eq!(plan.cwd, None);
    assert_eq!(plan.get_env("TERM").as_deref(), Some("xterm-256color"));
    assert_eq!(plan.get_env("COLORTERM").as_deref(), Some("truecolor"));
    assert_eq!(plan.get_env("TERAX_TERMINAL").as_deref(), Some("1"));
    assert_eq!(plan.get_env("LANG"), None);
    assert_eq!(
        plan.get_env("ZDOTDIR").as_deref(),
        Some("/home/me/.cache/terax/shell-integration/zsh")
    );

    assert_eq!(plan.get_env("TERAX_USER_ZDOTDIR"), None);

    let plan = build_wsl(Some(String::new()), "Debian", &resolved, Err("x".into()), &vec![None], Some("/home/me/.zsh".into()));
    assert_eq!(
        plan.argv(),
        vec!["wsl.exe", "-d", "Debian", "--cd", "~", "--exec", "/usr/bin/zsh", "-l"]
    );
    assert_eq!(plan.get_env("LANG").as_deref(), Some("en_US.UTF-8"));
}

#[test]
fn utf8_locale_is_added_only_when_missing() {
    let mut plan = LaunchPlan::new("sh");
    ensure_utf8_locale(&mut plan, &vec![None, Some("de_DE.utf8".into()), None], HostOs::OtherUnix);
    assert_eq!(plan.get_env("LANG"), None);
    let mut plan = LaunchPlan::new("sh");
    ensure_utf8_locale(&mut plan, &vec![Some("C".into()), None, Some("POSIX".into())], HostOs::OtherUnix);
    assert_eq!(plan.get_env("LANG").as_deref(), Some("C.UTF-8"));
    let mut plan = LaunchPlan::new("sh");
    ensure_utf8_locale(&mut plan, &vec![None, None, None], HostOs::MacOs);
    assert_eq!(plan.get_env("LANG").as_deref(), Some("en_US.UTF-8"));
}

#[test]
fn unix_zsh_gets_zdotdir_and_login_flag() {
    let plan = build_unix(
        Some("/usr/bin/zsh".into()),
        Some("/bin/bash".into()),
        &vec![Some("en_US.UTF-8".into())],
        HostOs::MacOs,
        Some("/Users/me/src".into()),
        Ok("/Users/me/.cache/terax/shell-integration/zsh".into()),
        Some("/Users/me/.zsh".into()),
    );
    assert_eq!(plan.argv(), vec!["/usr/bin/zsh", "-l"]);
    assert_eq!(plan.cwd.as_deref(), Some("/Users/me/src"));
    assert_eq!(plan.get_env("TERAX_USER_ZDOTDIR").as_deref(), Some("/Users/me/.zsh"));
    assert_eq!(
        plan.get_env("ZDOTDIR").as_deref(),
        Some("/Users/me/.cache/terax/shell-integration/zsh")
    );
}

#[test]
fn unix_bash_and_fish_get_their_integration() {
    let plan = build_unix(
        None,
        Some("/bin/bash".into()),
        &vec![],
        HostOs::OtherUnix,
        None,
        Ok("/h/.cache/terax/shell-integration/bash/bashrc".into()),
        None,
    );
    assert_eq!(
        plan.argv(),
        vec!["/bin/bash", "--rcfile", "/h/.cache/terax/shell-integration/bash/bashrc", "-i"]
    );
    assert_eq!(plan.get_env("LANG").as_deref(), Some("C.UTF-8"));
    let plan = build_unix(
        Some("/usr/bin/fish".into()),
        None,
        &vec![],
        HostOs::OtherUnix,
        None,
        Ok("/h/it's/init.fish".into()),
        None,
    );
    assert_eq!(
        plan.argv(),
        vec!["/usr/bin/fish", "--init-command", "source '/h/it'\\''s/init.fish'", "-i"]
    );
    let plan = build_unix(Some(String::new()), None, &vec![], HostOs::OtherUnix, None, Err("e".into()), None);
    assert_eq!(plan.argv(), vec!["/bin/zsh", "-l"]);
}

#[test]
fn detect_prefers_login_shell() {
    let (shell, path) = Shell::detect(Some("/usr/local/bin/fish".into()), Some("/bin/bash".into()));
    assert_eq!(shell, Shell::Fish);
    assert_eq!(path, "/usr/local/bin/fish");
    let (shell, path) = Shell::detect(None, Some("/bin/bash".into()));
    assert_eq!(shell, Shell::Bash);
    assert_eq!(path, "/bin/bash");
    let (shell, path) = Shell::detect(None, None);
    assert_eq!(shell, Shell::Zsh);
    assert_eq!(path, "/bin/zsh");
    let (shell, _) = Shell::detect(Some("/bin/dash".into()), None);
    assert_eq!(shell, Shell::Other);
}

#[test]
fn windows_powershell_gets_profile() {
    let plan = build_windows(
        Some("C:/Users/me".into()),
        "C:\\Program Files\\PowerShell\\7\\pwsh.exe",
        &vec![],
        Ok("C:\\Users\\me\\.cache\\terax\\profile.ps1".into()),
    );
    assert_eq!(
        plan.argv(),
        vec![
            "C:\\Program Files\\PowerShell\\7\\pwsh.exe",
            "-NoLogo",
            "-NoExit",
            "-ExecutionPolicy",
            "Bypass",
            "-File",
            "C:\\Users\\me\\.cache\\terax\\profile.ps1",
        ]
    );
    assert_eq!(plan.cwd.as_deref(), Some("C:\\Users\\me"));
    let plan = build_windows(None, "C:\\Windows\\System32\\cmd.exe", &vec![], Ok("p".into()));
    assert_eq!(plan.argv(), vec!["C:\\Windows\\System32\\cmd.exe"]);
}

#[test]
fn windows_shell_path_prefers_pwsh() {
    let cmd = "C:\\Windows\\System32\\cmd.exe".to_string();
    assert_eq!(windows_shell_path(Some("a".into()), Some("b".into()), None, cmd.clone()), "a");
    assert_eq!(windows_shell_path(None, Some("b".into()), Some("c".into()), cmd.clone()), "b");
    assert_eq!(windows_shell_path(None, None, Some("c".into()), cmd.clone()), "c");
    assert_eq!(windows_shell_path(None, None, None, cmd.clone()), cmd);
}

#[test]
fn build_command_picks_the_terminal() {
    assert!(matches!(build_command(WorkspaceEnv::Local, false), LaunchTarget::Unix));
    assert!(matches!(
        build_command(WorkspaceEnv::Wsl { distro: "U".into() }, false),
        LaunchTarget::Unix
    ));
    assert!(matches!(build_command(WorkspaceEnv::Local, true), LaunchTarget::WindowsLocal));
    assert!(matches!(
        build_command(WorkspaceEnv::Wsl { distro: "U".into() }, true),
        LaunchTarget::Wsl { distro } if distro == "U"
    ));
}

#[test]
fn integration_files_and_paths() {
    assert_eq!(shell_quote("/a b/it's"), "'/a b/it'\\''s'");
    assert_eq!(normalize_script("a\r\nb\r\n"), "a\nb\n");
    assert!(write_needed(None, "x"));
    assert!(write_needed(Some("y".into()), "x"));
    assert!(!write_needed(Some("x".into()), "x"));
    assert_eq!(temp_path("/h/.zshrc"), "/h/.zshrc.__terax_tmp__");
    assert_eq!(join_with_sep("/h/", "x", '/'), "/h/x");
    assert_eq!(join_with_sep("C:\\h", "x", '\\'), "C:\\h\\x");
    assert_eq!(
        integration_dir_of("/home/me", "zsh", '/'),
        "/home/me/.cache/terax/shell-integration/zsh"
    );
    assert_eq!(
        wsl_integration_dir("/home/me//", "bash"),
        "/home/me/.cache/terax/shell-integration/bash"
    );
    assert_eq!(linux_child("/d", ".zshenv"), "/d/.zshenv");
}

#[test]
fn pick_cwd_takes_first_existing_dir() {
    let c = vec![("/gone".to_string(), false), ("/here".to_string(), true), ("/home".to_string(), true)];
    assert_eq!(pick_cwd(&c).as_deref(), Some("/here"));
    assert_eq!(pick_cwd(&vec![("/gone".to_string(), false)]), None);
}

#[test]
fn wsl_zsh_keeps_the_users_zdotdir() {
    let resolved = WslShellResolution { path: "/usr/bin/zsh".into(), source: WslShellSource::Passwd };
    let zd = "/home/me/.cache/terax/shell-integration/zsh";
    let plan = build_wsl(None, "Ubuntu", &resolved, Ok(zd.into()), &vec![], Some("/home/me/.config/zsh".into()));
    assert_eq!(plan.get_env("ZDOTDIR").as_deref(), Some(zd));
    assert_eq!(plan.get_env("TERAX_USER_ZDOTDIR").as_deref(), Some("/home/me/.config/zsh"));
    assert_eq!(plan.argv().last().map(|s| s.as_str()), Some("-l"));
    let plan = build_wsl(None, "Ubuntu", &resolved, Ok(zd.into()), &vec![], Some(format!("{zd}/")));
    assert_eq!(plan.get_env("TERAX_USER_ZDOTDIR"), None);
    let bash = WslShellResolution { path: "/bin/bash".into(), source: WslShellSource::Passwd };
    let plan = build_wsl(None, "Ubuntu", &bash, Ok("/rc".into()), &vec![], Some("/home/me/.zsh".into()));
    assert_eq!(plan.get_env("TERAX_USER_ZDOTDIR"), None);
}

#[test]
fn unix_zsh_compares_zdotdirs_as_paths() {
    let zd = "/Users/me/.cache/terax/shell-integration/zsh";
    for same in [format!("{zd}/"), format!("{zd}//"), "/Users/me/.cache/terax/./shell-integration//zsh".to_string()] {
        let plan = build_unix(Some("/bin/zsh".into()), None, &vec![], HostOs::MacOs, None, Ok(zd.into()), Some(same));
        assert_eq!(plan.get_env("TERAX_USER_ZDOTDIR"), None);
        assert_eq!(plan.get_env("ZDOTDIR").as_deref(), Some(zd));
    }
}

#[test]
fn paths_compare_by_components() {
    assert!(paths_equal("/a/b", "/a/b/"));
    assert!(paths_equal("/a//b", "/a/./b"));
    assert!(!paths_equal("/a/b", "a/b"));
    assert!(!paths_equal("./a", "a"));
    assert!(!paths_equal("/a/b", "/a/bc"));
    assert!(paths_equal("", ""));
}

#[test]
fn failed_shell_resolution_falls_back_to_bash() {
    let r = shell_or_fallback(Err("wsl.exe failed".into()));
    assert_eq!(r.path, "/bin/bash");
    assert_eq!(r.source, WslShellSource::Fallback);
    let ok = WslShellResolution { path: "/usr/bin/fish".into(), source: WslShellSource::Env };
    assert_eq!(shell_or_fallback(Ok(ok.clone())), ok);
    let plan = build_wsl(Some("/work".into()), "Ubuntu", &r, Err("no integration".into()), &vec![], None);
    assert_eq!(
        plan.argv(),
        vec!["wsl.exe", "-d", "Ubuntu", "--cd", "/work", "--exec", "/bin/bash", "-i"]
    );
}
