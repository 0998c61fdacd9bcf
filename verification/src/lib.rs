//! Deployment and service-management logic of the Unspace drone dock agent:
//! configuration validation and editing, the systemd unit, install and
//! uninstall plans, the watch loop's decisions and the health checks.
use vstd::prelude::*;

pub mod config;
pub mod health;
pub mod numbers;
pub mod service;
pub mod text;
pub mod watch;

verus! {

/// The binary's name, also the journal's syslog identifier.
pub const BIN_NAME: &'static str = "unspace-dock";

/// The systemd unit's name.
pub const SYSTEMD_UNIT_NAME: &'static str = "unspace-dock";

/// Where `install` expects the binary.
pub const BIN_INSTALL_PATH: &'static str = "/usr/local/bin/unspace-dock";

/// Where the configuration lives unless `UNSPACE_CONFIG_PATH` says otherwise.
pub const DEFAULT_CONFIG_PATH: &'static str = "/etc/unspace/config.json";

/// Where the running service records its PID unless `UNSPACE_PID_FILE` says otherwise.
pub const PID_FILE: &'static str = "/run/unspace/unspace-dock.pid";

/// The service's runtime directory.
pub const RUNTIME_DIR: &'static str = "/run/unspace";

/// The service's state directory.
pub const STATE_DIR: &'static str = "/var/lib/unspace";

/// Where `install` writes the systemd unit.
pub const SYSTEMD_UNIT_PATH: &'static str = "/etc/systemd/system/unspace-dock.service";

/// The default watch directory.
pub const UPLOAD_DIR: &'static str = "/var/lib/unspace/uploads";

/// The upload queue directory.
pub const QUEUE_DIR: &'static str = "/var/lib/unspace/queue";

/// The default heartbeat file.
pub const DEFAULT_HEARTBEAT_FILE: &'static str = "/var/lib/unspace/heartbeat";

} // verus!
