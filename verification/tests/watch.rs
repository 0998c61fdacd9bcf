use unspace_dock::config::AgentConfig;
use unspace_dock::watch::{watch_start, watch_step, ReloadOutcome, WatchAction};

fn config_with_interval(interval: u64) -> AgentConfig {
    let mut config =
        AgentConfig::initial("ysk_test".to_string(), "yard".to_string(), "dock".to_string());
    config.heartbeat_interval_secs = interval;
    config.heartbeat_file = "/tmp/hb".to_string();
    config
}

#[test]
fn watch_writes_heartbeat_every_interval() {
    let mut state = watch_start(config_with_interval(3));
    let mut writes = Vec::new();
    for k in 0..10u32 {
        match watch_step(&mut state, false, None) {
            WatchAction::Continue { heartbeat, reload } => {
                assert!(matches!(reload, ReloadOutcome::NotRequested));
                if let Some(path) = heartbeat {
                    assert_eq!(path, "/tmp/hb");
                    writes.push(k);
                }
            }
            WatchAction::Stop => panic!("no shutdown was requested"),
        }
    }
    assert_eq!(writes, vec![0, 3, 6, 9]);
}

#[test]
fn watch_stops_on_shutdown_without_writing() {
    let mut state = watch_start(config_with_interval(15));
    assert!(matches!(watch_step(&mut state, true, None), WatchAction::Stop));
    assert_eq!(state.heartbeat_elapsed, 15);
}

#[test]
fn watch_reload_applies_or_keeps_previous_config() {
    let mut state = watch_start(config_with_interval(15));
    watch_step(&mut state, false, None);
    match watch_step(&mut state, false, Some(Err("config is not valid JSON".to_string()))) {
        WatchAction::Continue { heartbeat, reload } => {
            assert!(heartbeat.is_none());
            match reload {
                ReloadOutcome::KeptPrevious(reason) => assert_eq!(reason, "config is not valid JSON"),
                _ => panic!("the failed reload is reported"),
            }
        }
        WatchAction::Stop => panic!("no shutdown was requested"),
    }
    assert_eq!(state.config.heartbeat_interval_secs, 15);
    match watch_step(&mut state, false, Some(Ok(config_with_interval(2)))) {
        WatchAction::Continue { heartbeat, reload } => {
            assert!(matches!(reload, ReloadOutcome::Applied));
            assert_eq!(heartbeat.as_deref(), Some("/tmp/hb"));
        }
        WatchAction::Stop => panic!("no shutdown was requested"),
    }
    assert_eq!(state.config.heartbeat_interval_secs, 2);
    assert_eq!(state.heartbeat_elapsed, 1);
}
