//! The systemd service: its unit file, the steps that install and uninstall
//! it, the PID file, and the decision to signal a running service to reload.
use vstd::prelude::*;
use vstd::string::*;

use crate::config::{
    default_view, lemma_validate_idempotent, validated, AgentConfig, ConfigError, ConfigView,
};
use crate::numbers::{decimal, decimal_chars, lemma_decimal_digits, lemma_read_decimal};
use crate::text::{
    chars_of, is_white_space, lemma_trim_unchanged, string_from_chars, trim, trim_chars,
};
use crate::{
    DEFAULT_HEARTBEAT_FILE, BIN_INSTALL_PATH, PID_FILE, QUEUE_DIR, STATE_DIR, SYSTEMD_UNIT_NAME, SYSTEMD_UNIT_PATH,
    UPLOAD_DIR,
};

verus! {

/// What `install` is given: the credentials and identity for the initial
/// configuration, and where to write it.
#[derive(Clone, Debug)]
pub struct InstallOptions {
    pub api_key: String,
    pub yard_id: String,
    pub dock_id: String,
    pub config_path: String,
}

/// A program to run and its arguments.
#[derive(Debug)]
pub struct CommandLine {
    pub program: String,
    pub args: Vec<String>,
}

/// The mathematical value of a [`CommandLine`].
#[verifier::ext_equal]
pub struct CommandView {
    pub program: Seq<char>,
    pub args: Seq<Seq<char>>,
}

impl View for CommandLine {
    type V = CommandView;

    open spec fn view(&self) -> CommandView {
        CommandView { program: self.program@, args: self.args@.map_values(|s: String| s@) }
    }
}

/// One step of installing or uninstalling the service, for the program
/// around the library to carry out in order.
#[derive(Debug)]
pub enum ServiceStep {
    /// Write the configuration as JSON to `path`, creating its directory; a failure stops the plan.
    WriteConfig { path: String, config: AgentConfig },
    /// Create a directory and its parents; a failure stops the plan.
    CreateDir { path: String },
    /// Run a command and ignore how it ends.
    RunBestEffort { command: CommandLine },
    /// Run a command; failing to start it or an unsuccessful exit stops the plan.
    Run { command: CommandLine },
    /// Write `contents` to the file at `path`; a failure stops the plan.
    WriteFile { path: String, contents: String },
    /// Remove the file at `path` if it exists; any other failure stops the plan.
    RemoveIfExists { path: String },
    /// Print a line on standard output.
    Print { message: String },
}

/// The mathematical value of a [`ServiceStep`].
#[verifier::ext_equal]
pub enum StepView {
    WriteConfig(Seq<char>, ConfigView),
    CreateDir(Seq<char>),
    RunBestEffort(CommandView),
    Run(CommandView),
    WriteFile(Seq<char>, Seq<char>),
    RemoveIfExists(Seq<char>),
    Print(Seq<char>),
}

impl View for ServiceStep {
    type V = StepView;

    open spec fn view(&self) -> StepView {
        match self {
            ServiceStep::WriteConfig { path, config } => StepView::WriteConfig(path@, config@),
            ServiceStep::CreateDir { path } => StepView::CreateDir(path@),
            ServiceStep::RunBestEffort { command } => StepView::RunBestEffort(command@),
            ServiceStep::Run { command } => StepView::Run(command@),
            ServiceStep::WriteFile { path, contents } => StepView::WriteFile(path@, contents@),
            ServiceStep::RemoveIfExists { path } => StepView::RemoveIfExists(path@),
            ServiceStep::Print { message } => StepView::Print(message@),
        }
    }
}

/// The views of a list of steps.
pub open spec fn steps_view(steps: Seq<ServiceStep>) -> Seq<StepView> {
    steps.map_values(|s: ServiceStep| s@)
}

/// A command by its program and arguments.
pub open spec fn command_view(program: Seq<char>, args: Seq<Seq<char>>) -> CommandView {
    CommandView { program, args }
}

/// The systemd unit up to the configuration path.
pub const UNIT_HEAD: &'static str = "[Unit]\nDescription=Unspace Drone Dock Agent\nAfter=network-online.target\nWants=network-online.target\n\n[Service]\nType=simple\nUser=unspace\nGroup=unspace\nRuntimeDirectory=unspace\nRuntimeDirectoryMode=0755\nStateDirectory=unspace\nStateDirectoryMode=0755\nEnvironment=UNSPACE_CONFIG_PATH=";

/// The unit's PID file key.
pub const UNIT_PID_KEY: &'static str = "\nPIDFile=";

/// The unit's start command key.
pub const UNIT_EXEC_KEY: &'static str = "\nExecStart=";

/// The unit from the start command's argument to the end.
pub const UNIT_TAIL: &'static str = " watch\nRestart=always\nRestartSec=5\nStartLimitIntervalSec=300\nStartLimitBurst=5\nKillSignal=SIGTERM\nTimeoutStopSec=30\nNoNewPrivileges=true\nPrivateTmp=true\nProtectSystem=full\nProtectHome=true\nStandardOutput=journal\nStandardError=journal\nSyslogIdentifier=unspace-dock\n\n[Install]\nWantedBy=multi-user.target\n";

/// The hardened systemd unit for a configuration at `config_path`: the
/// fixed unit text with the configuration path, the PID file and the
/// binary's `watch` command filled in.
pub open spec fn systemd_unit_text(config_path: Seq<char>) -> Seq<char> {
    UNIT_HEAD@ + config_path + UNIT_PID_KEY@ + PID_FILE@ + UNIT_EXEC_KEY@ + BIN_INSTALL_PATH@
        + UNIT_TAIL@
}

/// The systemd unit that runs `unspace-dock watch` with its configuration
/// at `config_path`.
pub fn systemd_unit(config_path: &str) -> (unit: String)
    ensures
        unit@ == systemd_unit_text(config_path@),
{
    let mut unit = String::from_str(UNIT_HEAD);
    unit.append(config_path);
    unit.append(UNIT_PID_KEY);
    unit.append(PID_FILE);
    unit.append(UNIT_EXEC_KEY);
    unit.append(BIN_INSTALL_PATH);
    unit.append(UNIT_TAIL);
    unit
}

/// A command line that runs `program` with no arguments.
pub fn command(program: &str) -> (c: CommandLine)
    ensures
        c@ == command_view(program@, Seq::<Seq<char>>::empty()),
{
    let c = CommandLine { program: String::from_str(program), args: Vec::new() };
    assert(c@.args =~= Seq::<Seq<char>>::empty());
    c
}

impl CommandLine {
    /// The same command line with `a` as one more argument.
    pub fn arg(self, a: &str) -> (c: CommandLine)
        ensures
            c@ == command_view(self@.program, self@.args.push(a@)),
    {
        let CommandLine { program, mut args } = self;
        let ghost before = args@;
        let s = String::from_str(a);
        args.push(s);
        assert(args@ == before.push(s));
        assert(before.push(s).map_values(|s: String| s@) =~= before.map_values(|s: String| s@).push(
            s@,
        ));
        CommandLine { program, args }
    }
}

/// The commands that create the service's system user and group; they may
/// already exist, so their outcome does not matter.
pub open spec fn groupadd_command() -> CommandView {
    command_view("groupadd"@, seq!["--system"@, "unspace"@])
}

/// See `groupadd_command`.
pub open spec fn useradd_command() -> CommandView {
    command_view(
        "useradd"@,
        seq![
            "--system"@,
            "--gid"@,
            "unspace"@,
            "--home-dir"@,
            "/var/lib/unspace"@,
            "--shell"@,
            "/usr/sbin/nologin"@,
            "unspace"@,
        ],
    )
}

/// Gives the state directory to the service user.
pub open spec fn chown_command() -> CommandView {
    command_view("chown"@, seq!["-R"@, "unspace:unspace"@, STATE_DIR@])
}

/// `systemctl` with the given arguments.
pub open spec fn systemctl(args: Seq<Seq<char>>) -> CommandView {
    command_view("systemctl"@, args)
}

/// What `install` does, in order, once the configuration `config` has been
/// validated: write it to `config_path`, create the state, upload and queue
/// directories, create the service user (best effort) and give it the state
/// directory (best effort), write the unit, reload systemd, enable and start
/// the service, and say so.
pub open spec fn install_steps(config_path: Seq<char>, config: ConfigView) -> Seq<StepView> {
    seq![
        StepView::WriteConfig(config_path, config),
        StepView::CreateDir(STATE_DIR@),
        StepView::CreateDir(UPLOAD_DIR@),
        StepView::CreateDir(QUEUE_DIR@),
        StepView::RunBestEffort(groupadd_command()),
        StepView::RunBestEffort(useradd_command()),
        StepView::RunBestEffort(chown_command()),
        StepView::WriteFile(SYSTEMD_UNIT_PATH@, systemd_unit_text(config_path)),
        StepView::Run(systemctl(seq!["daemon-reload"@])),
        StepView::Run(systemctl(seq!["enable"@, "--now"@, SYSTEMD_UNIT_NAME@])),
        StepView::Print("unspace-dock service installed and started."@),
    ]
}

/// What `uninstall` does, in order: stop and disable the service (best
/// effort), remove the unit, the configuration and the PID file where they
/// exist, reload systemd, and say so.
pub open spec fn uninstall_steps(config_path: Seq<char>, pid_file: Seq<char>) -> Seq<StepView> {
    seq![
        StepView::RunBestEffort(systemctl(seq!["stop"@, SYSTEMD_UNIT_NAME@])),
        StepView::RunBestEffort(systemctl(seq!["disable"@, SYSTEMD_UNIT_NAME@])),
        StepView::RemoveIfExists(SYSTEMD_UNIT_PATH@),
        StepView::RemoveIfExists(config_path),
        StepView::RemoveIfExists(pid_file),
        StepView::Run(systemctl(seq!["daemon-reload"@])),
        StepView::Print("unspace-dock service uninstalled."@),
    ]
}

/// The configuration `install` starts from.
pub open spec fn install_config(options: InstallOptions) -> ConfigView {
    ConfigView {
        api_key: options.api_key@,
        yard_id: options.yard_id@,
        dock_id: options.dock_id@,
        ..default_view()
    }
}

/// Plans the installation: the initial configuration from `options` is
/// validated (`env_api_key` is `UNSPACE_API_KEY`, empty when unset); a
/// refused configuration is the error, else the steps of `install_steps`.
pub fn install(options: InstallOptions, env_api_key: &str) -> (r: Result<Vec<ServiceStep>, ConfigError>)
    ensures
        match validated(install_config(options), env_api_key@) {
            (c, Ok(())) => r matches Ok(steps) && steps_view(steps@) == install_steps(
                options.config_path@,
                c,
            ),
            (_, Err(e)) => r == Err::<Vec<ServiceStep>, ConfigError>(e),
        },
{
    let ghost opts = options;
    let InstallOptions { api_key, yard_id, dock_id, config_path } = options;
    let mut config = AgentConfig::initial(api_key, yard_id, dock_id);
    match config.validate(env_api_key) {
        Err(e) => return Err(e),
        Ok(()) => {},
    }
    let unit = systemd_unit(config_path.as_str());
    let mut steps: Vec<ServiceStep> = Vec::new();
    steps.push(ServiceStep::WriteConfig { path: config_path, config });
    steps.push(ServiceStep::CreateDir { path: String::from_str(STATE_DIR) });
    steps.push(ServiceStep::CreateDir { path: String::from_str(UPLOAD_DIR) });
    steps.push(ServiceStep::CreateDir { path: String::from_str(QUEUE_DIR) });
    let groupadd = command("groupadd").arg("--system").arg("unspace");
    steps.push(ServiceStep::RunBestEffort { command: groupadd });
    let useradd = command("useradd").arg("--system").arg("--gid").arg("unspace").arg("--home-dir").arg(
        "/var/lib/unspace",
    ).arg("--shell").arg("/usr/sbin/nologin").arg("unspace");
    steps.push(ServiceStep::RunBestEffort { command: useradd });
    steps.push(
        ServiceStep::RunBestEffort { command: command("chown").arg("-R").arg("unspace:unspace").arg(STATE_DIR) },
    );
    steps.push(ServiceStep::WriteFile { path: String::from_str(SYSTEMD_UNIT_PATH), contents: unit });
    steps.push(ServiceStep::Run { command: command("systemctl").arg("daemon-reload") });
    steps.push(
        ServiceStep::Run { command: command("systemctl").arg("enable").arg("--now").arg(SYSTEMD_UNIT_NAME) },
    );
    steps.push(
        ServiceStep::Print { message: String::from_str("unspace-dock service installed and started.") },
    );
    assert(steps_view(steps@) =~~= install_steps(opts.config_path@, validated(install_config(opts), env_api_key@).0));
    Ok(steps)
}

/// Plans the removal of the service; `config_path` and `pid_file` are where
/// the configuration and the PID file are (see `config_path` and `pid_file_path`).
pub fn uninstall(config_path: &str, pid_file: &str) -> (steps: Vec<ServiceStep>)
    ensures
        steps_view(steps@) == uninstall_steps(config_path@, pid_file@),
{
    let mut steps: Vec<ServiceStep> = Vec::new();
    steps.push(
        ServiceStep::RunBestEffort { command: command("systemctl").arg("stop").arg(SYSTEMD_UNIT_NAME) },
    );
    steps.push(
        ServiceStep::RunBestEffort { command: command("systemctl").arg("disable").arg(SYSTEMD_UNIT_NAME) },
    );
    steps.push(ServiceStep::RemoveIfExists { path: String::from_str(SYSTEMD_UNIT_PATH) });
    steps.push(ServiceStep::RemoveIfExists { path: String::from_str(config_path) });
    steps.push(ServiceStep::RemoveIfExists { path: String::from_str(pid_file) });
    steps.push(ServiceStep::Run { command: command("systemctl").arg("daemon-reload") });
    steps.push(ServiceStep::Print { message: String::from_str("unspace-dock service uninstalled.") });
    assert(steps_view(steps@) =~~= uninstall_steps(config_path@, pid_file@));
    steps
}

/// Where the running service records its PID: `UNSPACE_PID_FILE` when it is
/// set (`env_override`), else `PID_FILE`.
pub fn pid_file_path(env_override: Option<String>) -> (p: String)
    ensures
        p@ == match env_override {
            Some(s) => s@,
            None => PID_FILE@,
        },
{
    match env_override {
        Some(s) => s,
        None => String::from_str(PID_FILE),
    }
}

/// What the service writes into its PID file: its process id in decimal.
pub fn pid_file_contents(pid: u32) -> (contents: String)
    ensures
        contents@ == decimal(pid as nat),
{
    string_from_chars(&decimal_chars(pid as u64))
}

/// What reading the PID file gave.
#[derive(Debug)]
pub enum PidFileRead {
    /// There is no PID file.
    Missing,
    /// The file could not be read for another reason, described by the text.
    Unreadable(String),
    /// The file's text.
    Contents(String),
}

/// Whether and how to tell a running service to reload its configuration.
#[derive(Debug)]
pub enum SignalDecision {
    /// No service is running: there is no PID file, or it holds no PID.
    NotRunning,
    /// Reading the PID file failed; the text describes why.
    ReadFailed(String),
    /// Run this command (`kill -HUP <pid>`); the service was signalled when it succeeds.
    Hangup(CommandLine),
}

/// `kill -HUP <pid>`.
pub open spec fn hangup_command(pid: Seq<char>) -> CommandView {
    command_view("kill"@, seq!["-HUP"@, pid])
}

/// Decides from the PID file whether to send SIGHUP to the running service:
/// a missing file or one with only white space means no service is running,
/// an unreadable file is an error, and otherwise the trimmed text is the PID
/// that `kill -HUP` is sent to.
pub fn signal_running_service(read: PidFileRead) -> (d: SignalDecision)
    ensures
        match read {
            PidFileRead::Missing => d is NotRunning,
            PidFileRead::Unreadable(m) => d matches SignalDecision::ReadFailed(m2) && m2@ == m@,
            PidFileRead::Contents(c) => if trim(c@).len() == 0 {
                d is NotRunning
            } else {
                d matches SignalDecision::Hangup(cmd) && cmd@ =~~= hangup_command(trim(c@))
            },
        },
{
    match read {
        PidFileRead::Missing => SignalDecision::NotRunning,
        PidFileRead::Unreadable(m) => SignalDecision::ReadFailed(m),
        PidFileRead::Contents(c) => {
            let pid = trim_chars(&chars_of(c.as_str()));
            if pid.len() == 0 {
                SignalDecision::NotRunning
            } else {
                let pid_text = string_from_chars(&pid);
                SignalDecision::Hangup(command("kill").arg("-HUP").arg(pid_text.as_str()))
            }
        },
    }
}

/// The PID file the service writes is read back as its PID: trimming the
/// written digits gives them back and they are not empty, so
/// `signal_running_service` sends `kill -HUP` to exactly the recorded PID.
pub proof fn lemma_pid_round_trip(pid: u32)
    ensures
        decimal(pid as nat).len() > 0,
        trim(decimal(pid as nat)) == decimal(pid as nat),
{
    let s = decimal(pid as nat);
    lemma_read_decimal(pid as nat, pid as nat);
    lemma_decimal_digits(pid as nat);
    assert(!is_white_space(s[0]));
    assert(!is_white_space(s.last()));
    lemma_trim_unchanged(s);
}

/// The configuration `install` writes is one that loading accepts as it is:
/// validating it again, with the same `UNSPACE_API_KEY`, succeeds and changes nothing.
pub proof fn lemma_installed_config_reloads(options: InstallOptions, env_api_key: Seq<char>)
    requires
        validated(install_config(options), env_api_key).1 is Ok,
    ensures
        install_steps(options.config_path@, validated(install_config(options), env_api_key).0)[0]
            matches StepView::WriteConfig(_, written) && validated(written, env_api_key) == (
            written,
            Ok::<(), ConfigError>(()),
        ),
{
    lemma_validate_idempotent(install_config(options), env_api_key);
}

/// The configuration `install` writes, first of all its steps, to the path it
/// was given carries the given yard and dock identities, the given API key
/// (or, when `UNSPACE_API_KEY` is not blank, that key trimmed), and the
/// defaults for everything validation does not touch. The unit it writes
/// runs the service with that same configuration path.
pub proof fn lemma_install_writes_given_identity(options: InstallOptions, env_api_key: Seq<char>)
    requires
        validated(install_config(options), env_api_key).1 is Ok,
    ensures
        ({
            let steps = install_steps(
                options.config_path@,
                validated(install_config(options), env_api_key).0,
            );
            &&& steps[0] matches StepView::WriteConfig(path, c) && {
                &&& path == options.config_path@
                &&& c.yard_id == options.yard_id@
                &&& c.dock_id == options.dock_id@
                &&& trim(env_api_key).len() == 0 ==> c.api_key == options.api_key@
                &&& trim(env_api_key).len() > 0 ==> c.api_key == trim(env_api_key)
                &&& c.config_version == 1
                &&& c.watch_dir == UPLOAD_DIR@
                &&& c.heartbeat_file == DEFAULT_HEARTBEAT_FILE@
                &&& c.heartbeat_interval_secs == 15
                &&& c.heartbeat_max_age_secs == 120
                &&& c.poll_interval_secs == 60
                &&& c.stable_required_checks == 3
                &&& c.max_queue_size_mb == 500
            }
            &&& steps[7] == StepView::WriteFile(SYSTEMD_UNIT_PATH@, systemd_unit_text(options.config_path@))
        }),
{
    if trim(env_api_key).len() > 0 {
        crate::config::lemma_environment_key_wins(install_config(options), env_api_key);
    }
}

/// Uninstalling with the same configuration path removes every file that
/// installing writes (the configuration and the unit), and the PID file;
/// it stops and disables the service before removing anything, and reloads
/// systemd afterwards.
pub proof fn lemma_uninstall_removes_installed_files(
    config_path: Seq<char>,
    config: ConfigView,
    pid_file: Seq<char>,
)
    ensures
        forall|i: int| 0 <= i < install_steps(config_path, config).len() ==> {
            let step = #[trigger] install_steps(config_path, config)[i];
            (step matches StepView::WriteConfig(p, _) ==> uninstall_steps(config_path, pid_file).contains(
                StepView::RemoveIfExists(p),
            )) && (step matches StepView::WriteFile(p, _) ==> uninstall_steps(
                config_path,
                pid_file,
            ).contains(StepView::RemoveIfExists(p)))
        },
        uninstall_steps(config_path, pid_file).contains(StepView::RemoveIfExists(pid_file)),
        uninstall_steps(config_path, pid_file)[0] == StepView::RunBestEffort(
            systemctl(seq!["stop"@, SYSTEMD_UNIT_NAME@]),
        ),
        uninstall_steps(config_path, pid_file)[5] == StepView::Run(systemctl(seq!["daemon-reload"@])),
{
    let u = uninstall_steps(config_path, pid_file);
    assert(u[2] == StepView::RemoveIfExists(SYSTEMD_UNIT_PATH@));
    assert(u[3] == StepView::RemoveIfExists(config_path));
    assert(u[4] == StepView::RemoveIfExists(pid_file));
    let steps = install_steps(config_path, config);
    assert forall|i: int| 0 <= i < steps.len() implies {
        let step = #[trigger] steps[i];
        (step matches StepView::WriteConfig(p, _) ==> u.contains(StepView::RemoveIfExists(p)))
            && (step matches StepView::WriteFile(p, _) ==> u.contains(StepView::RemoveIfExists(p)))
    } by {
        if i == 0 {
            assert(u[3] == StepView::RemoveIfExists(config_path));
        } else if i == 7 {
            assert(u[2] == StepView::RemoveIfExists(SYSTEMD_UNIT_PATH@));
        }
    }
}

} // verus!
