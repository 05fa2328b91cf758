//! The service backends.

use ctxd::onboard::paths::SERVICE_LABEL;
use ctxd::onboard::service::linux;
use ctxd::onboard::service::linux::{is_active, render_unit_file, systemd_quote, Systemd};
use ctxd::onboard::service::macos;
use ctxd::onboard::service::macos::{render_plist, user_domain, xml_escape, Launchd};
use ctxd::onboard::service::null::NullBackend;
use ctxd::onboard::service::{
    atomic_temp_path, detect_backend, install_action, is_supported, Existing, InstallAction,
    Platform, ServiceSpec, ServiceStatus, ToolOutput,
};

const HOME: &str = "/Users/me";

fn linux_spec() -> ServiceSpec {
    ServiceSpec {
        binary: "/usr/local/bin/ctxd".to_string(),
        args: vec![
            "--db".to_string(),
            "/home/me/.local/share/ctxd/ctxd.db".to_string(),
            "--bind".to_string(),
            "127.0.0.1:7777".to_string(),
        ],
        at_login: false,
        working_dir: "/home/me/.local/share/ctxd".to_string(),
        log_dir: "/home/me/.local/state/ctxd/logs".to_string(),
        label: "dev.ctxd.daemon".to_string(),
    }
}

fn macos_spec() -> ServiceSpec {
    ServiceSpec {
        binary: "/opt/homebrew/bin/ctxd".to_string(),
        args: vec![
            "--db".to_string(),
            "/Users/me/Library/Application Support/ctxd/ctxd.db".to_string(),
            "--bind".to_string(),
            "127.0.0.1:7777".to_string(),
        ],
        at_login: false,
        working_dir: "/Users/me/Library/Application Support/ctxd".to_string(),
        log_dir: "/Users/me/Library/Logs/ctxd".to_string(),
        label: "dev.ctxd.daemon".to_string(),
    }
}

fn output(success: bool, stdout: &str, stderr: &str) -> ToolOutput {
    ToolOutput { success, stdout: stdout.to_string(), stderr: stderr.to_string() }
}

#[test]
fn unit_name_strips_reverse_dns() {
    assert_eq!(Systemd::unit_name("dev.ctxd.daemon"), "ctxd");
    assert_eq!(Systemd::unit_name("dev.ctxd.service"), "ctxd");
    assert_eq!(Systemd::unit_name("ctxd"), "ctxd");
    assert_eq!(Systemd::unit_name("custom.label"), "label");
}

#[test]
fn unit_file_uses_type_notify() {
    let s = render_unit_file(&linux_spec());
    assert!(s.contains("Type=notify"));
}

#[test]
fn unit_file_includes_exec_start_with_serve() {
    let s = render_unit_file(&linux_spec());
    assert!(s.contains("ExecStart=/usr/local/bin/ctxd serve --db"));
    assert!(s.contains("--bind 127.0.0.1:7777"));
}

#[test]
fn unit_file_at_login_adds_install_section() {
    let mut spec = linux_spec();
    spec.at_login = true;
    let s = render_unit_file(&spec);
    assert!(s.contains("[Install]"));
    assert!(s.contains("WantedBy=default.target"));
}

#[test]
fn unit_file_default_omits_install_section() {
    let s = render_unit_file(&linux_spec());
    assert!(!s.contains("[Install]"));
}

#[test]
fn unit_file_restart_on_failure() {
    let s = render_unit_file(&linux_spec());
    assert!(s.contains("Restart=on-failure"));
    assert!(!s.contains("Restart=always"));
}

#[test]
fn systemd_quote_passes_safe_paths_unmodified() {
    assert_eq!(systemd_quote("/usr/local/bin/ctxd"), "/usr/local/bin/ctxd");
    assert_eq!(systemd_quote("--bind"), "--bind");
    assert_eq!(systemd_quote("127.0.0.1:7777"), "127.0.0.1:7777");
}

#[test]
fn systemd_quote_wraps_paths_with_spaces() {
    assert_eq!(systemd_quote("/path/with space"), "\"/path/with space\"");
}

#[test]
fn systemd_quote_escapes_dollar_and_quotes() {
    assert_eq!(systemd_quote("a $b"), "\"a \\$b\"");
    assert_eq!(systemd_quote("with \"quotes\""), "\"with \\\"quotes\\\"\"");
}

#[test]
fn linux_install_creates_then_unchanged_then_updated() {
    let mut spec = linux_spec();
    let first = render_unit_file(&spec);
    assert_eq!(install_action(&Existing::Missing, &first), InstallAction::Created);
    let on_disk = Existing::Text(first);
    assert_eq!(install_action(&on_disk, &render_unit_file(&spec)), InstallAction::Unchanged);
    spec.binary = "/usr/local/bin/different".to_string();
    let changed = render_unit_file(&spec);
    assert_eq!(install_action(&on_disk, &changed), InstallAction::Updated);
    assert!(changed.contains("different"));
}

#[test]
fn status_reports_not_installed_when_unit_missing() {
    assert_eq!(linux::status_of(false, "active", Some("12")), ServiceStatus::NotInstalled);
}

#[test]
fn units_report_their_process() {
    assert!(is_active("active\n"));
    assert!(!is_active("inactive\n"));
    assert_eq!(linux::status_of(true, "inactive\n", None), ServiceStatus::Stopped);
    assert_eq!(
        linux::status_of(true, "active\n", Some("412\n")),
        ServiceStatus::Running { pid: Some(412) }
    );
    assert_eq!(
        linux::status_of(true, "active\n", Some("0\n")),
        ServiceStatus::Running { pid: None }
    );
}

#[test]
fn plist_contains_required_keys() {
    let xml = render_plist(&macos_spec(), HOME);
    assert!(xml.starts_with("<?xml version=\"1.0\""));
    assert!(xml.contains("<key>Label</key>"));
    assert!(xml.contains("<string>dev.ctxd.daemon</string>"));
    assert!(xml.contains("<key>ProgramArguments</key>"));
    assert!(xml.contains("<key>RunAtLoad</key>"));
    assert!(xml.contains("<false/>"));
    assert!(xml.contains("<key>KeepAlive</key>"));
    assert!(xml.contains("<key>SuccessfulExit</key>"));
    assert!(xml.contains("<key>WorkingDirectory</key>"));
    assert!(xml.contains("<key>StandardOutPath</key>"));
    assert!(xml.contains("<key>StandardErrorPath</key>"));
}

#[test]
fn plist_at_login_flag_flips_run_at_load() {
    let mut spec = macos_spec();
    spec.at_login = true;
    let xml = render_plist(&spec, HOME);
    let idx = xml.find("<key>RunAtLoad</key>").unwrap();
    let after = &xml[idx..];
    assert!(after.contains("<true/>"), "expected <true/> after RunAtLoad: {after}");
}

#[test]
fn plist_includes_binary_and_serve_subcommand() {
    let xml = render_plist(&macos_spec(), HOME);
    assert!(xml.contains("<string>/opt/homebrew/bin/ctxd</string>"));
    assert!(xml.contains("<string>serve</string>"));
    assert!(xml.contains("<string>--db</string>"));
    assert!(xml.contains("<string>--bind</string>"));
    assert!(xml.contains("<string>127.0.0.1:7777</string>"));
}

#[test]
fn plist_escapes_xml_specials_in_paths() {
    let mut spec = macos_spec();
    spec.binary = "/path/with <special> & 'chars'".to_string();
    let xml = render_plist(&spec, HOME);
    assert!(xml.contains("&lt;special&gt;"));
    assert!(xml.contains("&amp;"));
    assert!(xml.contains("&apos;chars&apos;"));
    assert!(!xml.contains("'chars'"), "raw apostrophes must be escaped");
}

#[test]
fn plist_keepalive_only_on_failure() {
    let xml = render_plist(&macos_spec(), HOME);
    let ka = xml.find("<key>KeepAlive</key>").unwrap();
    let snippet = &xml[ka..ka + 200];
    assert!(snippet.contains("<key>SuccessfulExit</key>"));
    let se = snippet.find("<key>SuccessfulExit</key>").unwrap();
    let after_se = &snippet[se..];
    assert!(after_se.contains("<false/>"));
}

#[test]
fn macos_install_creates_then_unchanged_then_updated() {
    let mut spec = macos_spec();
    let first = render_plist(&spec, HOME);
    assert_eq!(install_action(&Existing::Missing, &first), InstallAction::Created);
    let on_disk = Existing::Text(first);
    assert_eq!(install_action(&on_disk, &render_plist(&spec, HOME)), InstallAction::Unchanged);
    spec.binary = "/different/binary".to_string();
    let changed = render_plist(&spec, HOME);
    assert_eq!(install_action(&on_disk, &changed), InstallAction::Updated);
    assert!(changed.contains("/different/binary"));
    assert_eq!(install_action(&Existing::NotText, &changed), InstallAction::Updated);
}

#[test]
fn status_reports_not_installed_when_plist_missing() {
    assert_eq!(
        macos::status_of(false, &output(true, "pid = 5", "")),
        ServiceStatus::NotInstalled
    );
}

#[test]
fn agents_report_their_process() {
    assert_eq!(
        macos::status_of(true, &output(true, "\tstate = running\n\tpid = 5\n", "")),
        ServiceStatus::Running { pid: Some(5) }
    );
    assert_eq!(macos::status_of(true, &output(false, "", "no such")), ServiceStatus::Stopped);
}

#[test]
fn xml_escape_handles_ampersand_first() {
    assert_eq!(xml_escape("a&b"), "a&amp;b");
    assert_eq!(xml_escape("<&>"), "&lt;&amp;&gt;");
}

#[test]
fn detect_backend_returns_real_impl_on_supported_platforms() {
    let name = |p: Platform| detect_backend("dev.ctxd.daemon", p, Some("/home/me")).unwrap().name();
    assert_eq!(name(Platform::MacOs), "launchd");
    assert_eq!(name(Platform::Linux), "systemd-user");
    assert_eq!(name(Platform::Windows), "null");
    assert_eq!(name(Platform::Other), "null");
}

#[test]
fn is_supported_matches_cfg() {
    assert!(is_supported(Platform::MacOs));
    assert!(is_supported(Platform::Linux));
    assert!(!is_supported(Platform::Windows));
    assert!(!is_supported(Platform::Other));
}

#[test]
fn backends_need_a_home() {
    assert!(detect_backend("dev.ctxd.daemon", Platform::Linux, None).is_err());
    assert!(detect_backend("dev.ctxd.daemon", Platform::MacOs, None).is_err());
    assert!(detect_backend("dev.ctxd.daemon", Platform::Windows, None).is_ok());
}

#[test]
fn units_stand_under_the_home_directory() {
    let s = Systemd::new(SERVICE_LABEL, "/home/me");
    assert_eq!(s.unit_file(), "ctxd.service");
    assert_eq!(s.unit_path, "/home/me/.config/systemd/user/ctxd.service");
    let l = Launchd::new(SERVICE_LABEL, "/Users/me");
    assert_eq!(l.plist_path, "/Users/me/Library/LaunchAgents/dev.ctxd.daemon.plist");
    assert_eq!(user_domain(501), "gui/501");
    assert_eq!(l.service_id(501), "gui/501/dev.ctxd.daemon");
    let t = atomic_temp_path("/a/b.service", 9);
    assert!(t.starts_with("/a/") && t.contains('9'));
}

#[test]
fn a_login_service_is_enabled() {
    let s = Systemd::new(SERVICE_LABEL, "/home/me");
    let plain = s.after_install(false);
    let login = s.after_install(true);
    assert!(plain.iter().all(|c| !c.contains(&"enable".to_string())));
    assert!(login.iter().any(|c| c.contains(&"enable".to_string())));
}

#[test]
fn tool_failures_are_told() {
    let s = Systemd::new(SERVICE_LABEL, "/home/me");
    assert!(s.start_outcome(&output(true, "", "")).is_ok());
    assert!(s.start_outcome(&output(false, "", "boom")).unwrap_err().contains("boom"));
    let l = Launchd::new(SERVICE_LABEL, "/Users/me");
    assert!(l.start_outcome(&output(true, "", "")).is_ok());
    assert!(l.start_outcome(&output(false, "", "boom")).unwrap_err().contains("boom"));
    assert!(s.stop_outcome(&output(true, "", "")).is_ok());
    assert!(l.stop_outcome(&output(true, "", "")).is_ok());
}

#[test]
fn null_backend_status_is_not_installed() {
    let b = NullBackend::new("dev.ctxd.daemon".to_string());
    assert_eq!(b.status().unwrap(), ServiceStatus::NotInstalled);
}

#[test]
fn null_backend_install_errors_clearly() {
    let b = NullBackend::new("dev.ctxd.daemon".to_string());
    let spec = ServiceSpec {
        binary: "/x".to_string(),
        args: vec![],
        at_login: false,
        working_dir: "/".to_string(),
        log_dir: "/".to_string(),
        label: "dev.ctxd.daemon".to_string(),
    };
    let msg = b.install(&spec).unwrap_err();
    assert!(msg.contains("not supported"));
    assert!(msg.contains("Windows"));
    assert!(b.start().is_err());
    assert!(b.stop().is_err());
}
