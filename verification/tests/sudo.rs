use enhanced_terminal::sudo::{
    bool_token_value, default_gnome_session_env, env_default_true, lookup_env, parse_u64_value,
    refresh_interval_secs, resolve_askpass, sudo_looks_used, wrap_sudo_command_for_server,
    SudoPrimeReport,
};

#[test]
fn sudo_detection() {
    assert!(sudo_looks_used("sudo apt update"));
    assert!(sudo_looks_used("make && sudo make install"));
    assert!(sudo_looks_used("sudo"));
    assert!(!sudo_looks_used("echo pseudo science"));
    assert!(!sudo_looks_used("ls -la"));
}

#[test]
fn wrap_rewrites_leading_sudo() {
    assert_eq!(wrap_sudo_command_for_server("sudo apt update"), "sudo -n apt update");
}

#[test]
fn wrap_rewrites_after_separators() {
    assert_eq!(wrap_sudo_command_for_server("cmd && sudo id"), "cmd && sudo -n id");
    assert_eq!(wrap_sudo_command_for_server("a || sudo b; sudo c"), "a || sudo -n b; sudo -n c");
    assert_eq!(wrap_sudo_command_for_server("x\tsudo y"), "x\tsudo -n y");
}

#[test]
fn wrap_leaves_other_commands_alone() {
    assert_eq!(wrap_sudo_command_for_server("echo hello"), "echo hello");
    // embedded without a recognized separator stays untouched
    assert_eq!(wrap_sudo_command_for_server("echo sudoku"), "echo sudoku");
}

#[test]
fn bool_tokens() {
    assert!(bool_token_value("1", false));
    assert!(bool_token_value("true", false));
    assert!(bool_token_value(" YES ", false));
    assert!(bool_token_value("On", false));
    assert!(!bool_token_value("0", true));
    assert!(!bool_token_value("false", true));
    assert!(!bool_token_value("no", true));
    assert!(!bool_token_value("OFF", true));
    assert!(bool_token_value("", true));
    assert!(!bool_token_value("", false));
    assert!(bool_token_value("weird", true));
    assert!(!bool_token_value("weird", false));
}

#[test]
fn keepalive_switches_default_on() {
    assert!(env_default_true("ENHANCED_TERMINAL_SUDO_KEEPALIVE"));
    assert!(env_default_true("ENHANCED_TERMINAL_SUDO_KEEPALIVE_PRIME"));
    assert!(env_default_true("ENHANCED_TERMINAL_SUDO_WRAP"));
    assert!(!env_default_true("SOMETHING_ELSE"));
}

#[test]
fn u64_parsing() {
    assert_eq!(parse_u64_value("0"), Some(0));
    assert_eq!(parse_u64_value("12345"), Some(12345));
    assert_eq!(parse_u64_value("+7"), Some(7));
    assert_eq!(parse_u64_value("18446744073709551615"), Some(u64::MAX));
    assert_eq!(parse_u64_value("18446744073709551616"), None);
    assert_eq!(parse_u64_value(""), None);
    assert_eq!(parse_u64_value("+"), None);
    assert_eq!(parse_u64_value("-3"), None);
    assert_eq!(parse_u64_value("12x"), None);
}

#[test]
fn refresh_interval_defaults_and_floor() {
    assert_eq!(refresh_interval_secs(None), 300);
    assert_eq!(refresh_interval_secs(Some("abc")), 300);
    assert_eq!(refresh_interval_secs(Some("600")), 600);
    assert_eq!(refresh_interval_secs(Some("5")), 30);
    assert_eq!(refresh_interval_secs(Some(" 45 ")), 45);
}

#[test]
fn askpass_resolution_order() {
    assert_eq!(
        resolve_askpass(Some("/srv/helper"), Some("/other"), None, "/home/u"),
        Some("/srv/helper".to_string())
    );
    assert_eq!(
        resolve_askpass(None, Some(" /other "), None, "/home/u"),
        Some("/other".to_string())
    );
    assert_eq!(
        resolve_askpass(None, None, Some("/req"), "/home/u"),
        Some("/req".to_string())
    );
    assert_eq!(
        resolve_askpass(None, None, None, "/home/u"),
        Some("/home/u/scripts/askpass-zenity.sh".to_string())
    );
    // a blank request value wins the chain and then fails the final filter
    assert_eq!(resolve_askpass(None, None, Some("   "), "/home/u"), None);
}

#[test]
fn session_env_fallbacks() {
    let req: Vec<(String, String)> = Vec::new();
    let env = default_gnome_session_env(None, None, None, None, &req);
    assert_eq!(
        env,
        vec![
            ("DISPLAY".to_string(), ":0".to_string()),
            ("WAYLAND_DISPLAY".to_string(), "wayland-0".to_string()),
        ]
    );
}

#[test]
fn session_env_prefers_server_then_request() {
    let req = vec![
        ("DISPLAY".to_string(), ":9".to_string()),
        ("XDG_RUNTIME_DIR".to_string(), "/run/user/7".to_string()),
    ];
    let env = default_gnome_session_env(Some(":1"), None, None, Some("unix:path=/bus"), &req);
    assert_eq!(
        env,
        vec![
            ("DISPLAY".to_string(), ":1".to_string()),
            ("WAYLAND_DISPLAY".to_string(), "wayland-0".to_string()),
            ("XDG_RUNTIME_DIR".to_string(), "/run/user/7".to_string()),
            ("DBUS_SESSION_BUS_ADDRESS".to_string(), "unix:path=/bus".to_string()),
        ]
    );
}

#[test]
fn request_env_lookup() {
    let req = vec![
        ("A".to_string(), "1".to_string()),
        ("B".to_string(), "2".to_string()),
        ("A".to_string(), "3".to_string()),
    ];
    assert_eq!(lookup_env(&req, "A"), Some("1".to_string()));
    assert_eq!(lookup_env(&req, "B"), Some("2".to_string()));
    assert_eq!(lookup_env(&req, "C"), None);
}

#[test]
fn diagnostics_block_text() {
    let report = SudoPrimeReport {
        success: false,
        askpass: None,
        display: Some(":0".to_string()),
        wayland_display: None,
        xdg_runtime_dir: None,
        dbus_session_bus_address: None,
        exit_code: Some(1),
        stderr: " boom \n".to_string(),
    };
    assert_eq!(
        report.diagnostics_text(),
        "\n\n[SUDO_PRIME]\nsuccess: false\nexit_code: 1\nDISPLAY: :0\nstderr:\nboom\n"
    );
}

#[test]
fn diagnostics_block_omits_empty_parts() {
    let report = SudoPrimeReport {
        success: true,
        askpass: Some("/srv/ask".to_string()),
        display: None,
        wayland_display: None,
        xdg_runtime_dir: None,
        dbus_session_bus_address: None,
        exit_code: None,
        stderr: "   ".to_string(),
    };
    assert_eq!(
        report.diagnostics_text(),
        "\n\n[SUDO_PRIME]\nsuccess: true\naskpass: /srv/ask\n"
    );
}
