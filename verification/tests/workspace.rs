use terax::workspace::{
    bootstrap_registry, decode_command_output, home_probe_args, list_probe_args,
    normalize_wsl_shell, parse_passwd_shell, passwd_probe_args, resolve_path, resolve_wsl_shell,
    resolve_wsl_shell_from_outputs, run_wsl_result, shell_env_probe_args, workspace_authorize,
    workspace_current_dir, wsl_default_distro, wsl_user_zdotdir, zdotdir_probe_args, wsl_home, wsl_list_distros, wsl_path_to_unc,
    WorkspaceEnv, WorkspaceRegistry, WslShellSource,
};

#[test]
fn decode_command_output_handles_utf16le_without_bom() {
    let bytes = b"h\0i\0";
    assert_eq!(decode_command_output(bytes), "hi");
}

#[test]
fn parse_passwd_shell_extracts_last_field() {
    let line = "user:x:1000:1000::/home/user:/usr/bin/zsh";
    assert_eq!(parse_passwd_shell(line).as_deref(), Some("/usr/bin/zsh"));
}

#[test]
fn resolve_wsl_shell_prefers_passwd() {
    let resolved = resolve_wsl_shell_from_outputs(
        "user:x:1000:1000::/home/user:/usr/bin/fish",
        "/bin/bash",
    );
    assert_eq!(resolved.path, "/usr/bin/fish");
    assert_eq!(resolved.source, WslShellSource::Passwd);
}

#[test]
fn resolve_wsl_shell_falls_back_to_env() {
    let resolved = resolve_wsl_shell_from_outputs("", "/bin/zsh");
    assert_eq!(resolved.path, "/bin/zsh");
    assert_eq!(resolved.source, WslShellSource::Env);
}

#[test]
fn resolve_wsl_shell_falls_back_to_bash() {
    let resolved = resolve_wsl_shell_from_outputs("", "");
    assert_eq!(resolved.path, "/bin/bash");
    assert_eq!(resolved.source, WslShellSource::Fallback);
}

#[test]
fn resolved_shell_is_trimmed_and_never_empty() {
    let resolved = resolve_wsl_shell_from_outputs("  \n", "  /usr/bin/zsh \r\n");
    assert_eq!(resolved.path, "/usr/bin/zsh");
    assert_eq!(resolved.source, WslShellSource::Env);
    let resolved = resolve_wsl_shell_from_outputs("user:x:1:1::/home/u:   ", "   ");
    assert_eq!(resolved.path, "/bin/bash");
    assert_eq!(resolved.source, WslShellSource::Fallback);
}

#[test]
fn passwd_line_without_colon_is_the_shell_itself() {
    assert_eq!(parse_passwd_shell("  /bin/sh \n").as_deref(), Some("/bin/sh"));
    assert_eq!(parse_passwd_shell("   "), None);
    assert_eq!(normalize_wsl_shell(" \t"), None);
    assert_eq!(normalize_wsl_shell(" /bin/ksh ").as_deref(), Some("/bin/ksh"));
}

#[test]
fn resolve_wsl_shell_reports_the_first_failed_probe() {
    let r = resolve_wsl_shell(Err("passwd failed".to_string()), Err("env failed".to_string()));
    assert_eq!(r.err().as_deref(), Some("passwd failed"));
    let r = resolve_wsl_shell(Ok(String::new()), Err("env failed".to_string()));
    assert_eq!(r.err().as_deref(), Some("env failed"));
    let r = resolve_wsl_shell(Ok("u:x:1:1::/h:/bin/zsh".to_string()), Ok(String::new())).unwrap();
    assert_eq!(r.path, "/bin/zsh");
    assert_eq!(r.source, WslShellSource::Passwd);
}

#[test]
fn decode_command_output_reads_bom_and_utf8() {
    assert_eq!(decode_command_output(&[0xff, 0xfe, b'o', 0, b'k', 0]), "ok");
    assert_eq!(decode_command_output("héllo".as_bytes()), "héllo");
    assert_eq!(decode_command_output(&[b'a', 0xff, b'b']), "a\u{fffd}b");
    assert_eq!(decode_command_output(b""), "");
}

#[test]
fn registry_authorizes_whole_components() {
    let mut reg = WorkspaceRegistry::new();
    assert!(!reg.is_authorized("/home/user"));
    let root = reg.authorize("/home/user");
    assert_eq!(root, "/home/user");
    assert!(reg.is_authorized("/home/user"));
    assert!(reg.is_authorized("/home/user/src/project"));
    assert!(!reg.is_authorized("/home/userx"));
    assert!(!reg.is_authorized("/home"));
    reg.authorize("/home/user");
    assert_eq!(reg.roots(), vec!["/home/user".to_string()]);
}

#[test]
fn workspace_authorize_reports_slashes_and_errors() {
    let mut reg = WorkspaceRegistry::new();
    let r = workspace_authorize(&mut reg, Ok("C:\\Users\\me".to_string()));
    assert_eq!(r.as_deref(), Ok("C:/Users/me"));
    assert!(reg.is_authorized("C:\\Users\\me"));
    let r = workspace_authorize(&mut reg, Err("No such file or directory".to_string()));
    assert_eq!(r, Err("No such file or directory".to_string()));
    assert_eq!(reg.roots().len(), 1);
    let r = workspace_current_dir(&mut reg, Ok("/srv/app".to_string()));
    assert_eq!(r.as_deref(), Ok("/srv/app"));
    assert!(reg.is_authorized("/srv/app/src"));
}

#[test]
fn bootstrap_registry_adds_cwd_and_home() {
    let mut reg = WorkspaceRegistry::new();
    bootstrap_registry(&mut reg, Some("/work".to_string()), Some("/home/me".to_string()));
    assert!(reg.is_authorized("/work/a"));
    assert!(reg.is_authorized("/home/me/b"));
    let mut reg = WorkspaceRegistry::new();
    bootstrap_registry(&mut reg, None, Some("/home/me".to_string()));
    assert_eq!(reg.roots(), vec!["/home/me".to_string()]);
}

#[test]
fn workspace_env_defaults_to_local() {
    assert!(!WorkspaceEnv::from_option(None).is_wsl());
    let env = WorkspaceEnv::from_option(Some(WorkspaceEnv::Wsl { distro: "Ubuntu".to_string() }));
    assert!(env.is_wsl());
    assert!(!WorkspaceEnv::default().is_wsl());
}

#[test]
fn wsl_paths_become_unc_paths() {
    assert_eq!(
        wsl_path_to_unc("Ubuntu", "/home/me/project", true),
        "\\\\wsl.localhost\\Ubuntu\\home\\me\\project"
    );
    assert_eq!(
        wsl_path_to_unc("Ubuntu", "//home\\me", false),
        "\\\\wsl$\\Ubuntu\\home\\me"
    );
    let wsl = WorkspaceEnv::Wsl { distro: "Debian".to_string() };
    assert_eq!(resolve_path("/srv", &wsl, true, true), "\\\\wsl.localhost\\Debian\\srv");
    assert_eq!(resolve_path("/srv", &wsl, false, true), "/srv");
    assert_eq!(resolve_path("C:/x", &WorkspaceEnv::Local, true, true), "C:/x");
}

#[test]
fn wsl_probes_use_login_sh() {
    assert_eq!(
        passwd_probe_args("Ubuntu"),
        vec!["-d", "Ubuntu", "--exec", "sh", "-lc", "getent passwd \"$(id -un)\" 2>/dev/null || true"]
    );
    assert_eq!(
        shell_env_probe_args("Ubuntu"),
        vec!["-d", "Ubuntu", "--exec", "sh", "-lc", "printf %s \"${SHELL:-}\""]
    );
    assert_eq!(
        home_probe_args("Arch"),
        vec!["-d", "Arch", "--exec", "sh", "-lc", "printf %s \"$HOME\""]
    );
    assert_eq!(list_probe_args(), vec!["--list", "--verbose"]);
}

#[test]
fn run_wsl_result_decodes_output_or_trimmed_error() {
    assert_eq!(run_wsl_result(true, b"o\0k\0", b""), Ok("ok".to_string()));
    assert_eq!(run_wsl_result(false, b"", b"  boom \r\n"), Err("boom".to_string()));
}

const LISTING: &str = "  NAME            STATE           VERSION\n\
* Ubuntu 22.04    Running         2\n\
  Debian          Stopped         2\n\
\n\
  broken\n";

#[test]
fn wsl_list_distros_parses_the_verbose_listing() {
    let distros = wsl_list_distros(Ok(LISTING.to_string())).unwrap();
    assert_eq!(distros.len(), 2);
    assert_eq!(distros[0].name, "Ubuntu 22.04");
    assert!(distros[0].default);
    assert!(distros[0].running);
    assert_eq!(distros[1].name, "Debian");
    assert!(!distros[1].default);
    assert!(!distros[1].running);
    assert!(wsl_list_distros(Err("wsl missing".to_string())).is_err());
    assert_eq!(wsl_list_distros(Ok(String::new())).unwrap().len(), 0);
}

#[test]
fn wsl_default_distro_prefers_the_marked_one() {
    assert_eq!(
        wsl_default_distro(Ok(LISTING.to_string())),
        Ok(Some("Ubuntu 22.04".to_string()))
    );
    let unmarked = "NAME STATE VERSION\n  Alpine Stopped 2\n  Debian Running 2\n";
    assert_eq!(wsl_default_distro(Ok(unmarked.to_string())), Ok(Some("Alpine".to_string())));
    assert_eq!(wsl_default_distro(Ok("NAME STATE VERSION\n".to_string())), Ok(None));
    assert_eq!(wsl_default_distro(Err("e".to_string())), Err("e".to_string()));
}

#[test]
fn wsl_home_trims_and_rejects_empty() {
    assert_eq!(wsl_home("Ubuntu", Ok(" /home/me \n".to_string())), Ok("/home/me".to_string()));
    assert_eq!(
        wsl_home("Ubuntu", Ok("  ".to_string())),
        Err("could not resolve WSL home for Ubuntu".to_string())
    );
    assert_eq!(wsl_home("Ubuntu", Err("x".to_string())), Err("x".to_string()));
}

#[test]
fn user_zdotdir_probe() {
    assert_eq!(
        zdotdir_probe_args("Ubuntu"),
        vec!["-d", "Ubuntu", "--exec", "sh", "-lc", "printf %s \"${ZDOTDIR:-}\""]
    );
    assert_eq!(wsl_user_zdotdir(Ok(" /home/me/.zsh \n".into())).as_deref(), Some("/home/me/.zsh"));
    assert_eq!(wsl_user_zdotdir(Ok("  ".into())), None);
    assert_eq!(wsl_user_zdotdir(Err("e".into())), None);
}
