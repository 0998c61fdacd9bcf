use unspace_dock::config::{ConfigError, AgentConfig};
use unspace_dock::service::{
    install, pid_file_contents, pid_file_path, signal_running_service, systemd_unit, uninstall,
    InstallOptions, PidFileRead, ServiceStep, SignalDecision,
};

fn options(api_key: &str) -> InstallOptions {
    InstallOptions {
        api_key: api_key.to_string(),
        yard_id: "yard".to_string(),
        dock_id: "DOCK_42".to_string(),
        config_path: "/etc/unspace/config.json".to_string(),
    }
}

#[test]
fn systemd_unit_contains_hardening_and_config_path() {
    let unit = systemd_unit("/tmp/unspace-config.json");
    assert!(unit.contains("Environment=UNSPACE_CONFIG_PATH=/tmp/unspace-config.json"));
    assert!(unit.contains("NoNewPrivileges=true"));
    assert!(unit.contains("ProtectSystem=full"));
    assert!(unit.contains("RuntimeDirectory=unspace"));
    assert!(unit.contains("StateDirectory=unspace"));
    assert!(unit.contains("PIDFile=/run/unspace/unspace-dock.pid"));
    assert!(unit.contains("ExecStart=/usr/local/bin/unspace-dock watch"));
    assert!(unit.contains("SyslogIdentifier=unspace-dock"));
    assert!(!unit.contains("WatchdogSec"));
    assert!(!unit.contains("ExecStartPre"));
    assert!(!unit.contains("ExecStartPost"));
}

#[test]
fn systemd_unit_is_a_complete_unit_file() {
    let unit = systemd_unit("/etc/unspace/config.json");
    assert!(unit.starts_with("[Unit]\nDescription=Unspace Drone Dock Agent\n"));
    assert!(unit.ends_with("[Install]\nWantedBy=multi-user.target\n"));
    assert_eq!(unit.matches("Environment=").count(), 1);
}

#[test]
fn pid_file_path_respects_environment_override() {
    let observed = pid_file_path(Some("/tmp/unspace-pid-override.pid".to_string()));
    assert_eq!(observed, "/tmp/unspace-pid-override.pid");
    assert_eq!(pid_file_path(None), "/run/unspace/unspace-dock.pid");
}

#[test]
fn write_pid_file_creates_parent_and_records_pid() {
    let pid: u32 = 31_337;
    let recorded: u32 = pid_file_contents(pid).trim().parse().unwrap();
    assert_eq!(recorded, pid);
    assert_eq!(pid_file_contents(0), "0");
    assert_eq!(pid_file_contents(u32::MAX), "4294967295");
}

#[test]
fn signal_running_service_returns_false_when_pid_missing() {
    assert!(matches!(signal_running_service(PidFileRead::Missing), SignalDecision::NotRunning));
}

#[test]
fn signal_running_service_sends_hangup_to_recorded_pid() {
    match signal_running_service(PidFileRead::Contents(pid_file_contents(4321))) {
        SignalDecision::Hangup(command) => {
            assert_eq!(command.program, "kill");
            assert_eq!(command.args, vec!["-HUP", "4321"]);
        }
        _ => panic!("expected a hangup"),
    }
    match signal_running_service(PidFileRead::Contents(" 17\n".to_string())) {
        SignalDecision::Hangup(command) => assert_eq!(command.args, vec!["-HUP", "17"]),
        _ => panic!("expected a hangup"),
    }
    assert!(matches!(
        signal_running_service(PidFileRead::Contents(" \n".to_string())),
        SignalDecision::NotRunning
    ));
    match signal_running_service(PidFileRead::Unreadable("permission denied".to_string())) {
        SignalDecision::ReadFailed(cause) => assert_eq!(cause, "permission denied"),
        _ => panic!("expected a read failure"),
    }
}

#[test]
fn install_plans_config_directories_unit_and_start() {
    let steps = install(options("ysk_KEY"), "").unwrap();
    assert_eq!(steps.len(), 11);
    match &steps[0] {
        ServiceStep::WriteConfig { path, config } => {
            assert_eq!(path, "/etc/unspace/config.json");
            assert_eq!(config.api_key, "ysk_KEY");
            assert_eq!(config.dock_id, "DOCK_42");
        }
        _ => panic!("the config is written first"),
    }
    let dirs: Vec<&str> = steps
        .iter()
        .filter_map(|s| match s {
            ServiceStep::CreateDir { path } => Some(path.as_str()),
            _ => None,
        })
        .collect();
    assert_eq!(dirs, vec!["/var/lib/unspace", "/var/lib/unspace/uploads", "/var/lib/unspace/queue"]);
    match &steps[7] {
        ServiceStep::WriteFile { path, contents } => {
            assert_eq!(path, "/etc/systemd/system/unspace-dock.service");
            assert_eq!(contents, &systemd_unit("/etc/unspace/config.json"));
        }
        _ => panic!("the unit is written after the user is set up"),
    }
    match &steps[9] {
        ServiceStep::Run { command } => {
            assert_eq!(command.program, "systemctl");
            assert_eq!(command.args, vec!["enable", "--now", "unspace-dock"]);
        }
        _ => panic!("the service is enabled"),
    }
    match &steps[10] {
        ServiceStep::Print { message } => {
            assert_eq!(message, "unspace-dock service installed and started.")
        }
        _ => panic!("install reports success"),
    }
}

#[test]
fn install_refuses_an_invalid_key() {
    assert!(matches!(install(options("KEY"), ""), Err(ConfigError::ApiKeyPrefix)));
    assert!(install(options("KEY"), "ysk_from_env").is_ok());
}

#[test]
fn installed_config_validates_again_unchanged() {
    let steps = install(options("ysk_KEY"), "").unwrap();
    let written: &AgentConfig = match &steps[0] {
        ServiceStep::WriteConfig { config, .. } => config,
        _ => panic!("the config is written first"),
    };
    let mut again = written.copy();
    again.validate("").unwrap();
    assert_eq!(again.watch_extensions, written.watch_extensions);
    assert_eq!(again.api_base_url, written.api_base_url);
    assert_eq!(again.api_key, written.api_key);
}

#[test]
fn uninstall_plans_stop_remove_and_reload() {
    let steps = uninstall("/etc/unspace/config.json", "/run/unspace/unspace-dock.pid");
    assert_eq!(steps.len(), 7);
    let removed: Vec<&str> = steps
        .iter()
        .filter_map(|s| match s {
            ServiceStep::RemoveIfExists { path } => Some(path.as_str()),
            _ => None,
        })
        .collect();
    assert_eq!(
        removed,
        vec![
            "/etc/systemd/system/unspace-dock.service",
            "/etc/unspace/config.json",
            "/run/unspace/unspace-dock.pid"
        ]
    );
    match &steps[0] {
        ServiceStep::RunBestEffort { command } => {
            assert_eq!(command.args, vec!["stop", "unspace-dock"])
        }
        _ => panic!("the service is stopped first"),
    }
}
