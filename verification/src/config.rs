//! The agent's versioned configuration: its fields and defaults, validation,
//! editing one key at a time, redaction, and the checks made on a loaded file.
use vstd::prelude::*;
use vstd::string::*;

use crate::numbers::{decimal, decimal_chars, int_error_message, parse_unsigned, parse_unsigned_spec, IntErrorKind};
use crate::text::{
    ascii_lower, is_white_space, lemma_trim_end_char_prefix, lemma_trim_keeps_content, lemma_lower_idempotent, lemma_trim_end_char_idempotent,
    lemma_trim_ends, lemma_trim_start_char_suffix, lemma_trim_unchanged, chars_equal_str, chars_of, chars_start_with, concat_chars, lower, lower_chars, split_commas,
    starts_with, string_from_chars, trim, trim_chars, trim_end_char, trim_end_char_chars,
    trim_start_char, trim_start_char_chars,
};
use crate::{DEFAULT_CONFIG_PATH, DEFAULT_HEARTBEAT_FILE, UPLOAD_DIR};

verus! {

/// The only config_version this agent reads and writes.
pub const CONFIG_VERSION: u32 = 1;

/// IEEE 754 bit pattern of `1.0_f64`, the default stable check interval.
pub const DEFAULT_STABLE_CHECK_INTERVAL_BITS: u64 = 0x3ff0_0000_0000_0000;

/// The agent configuration.
///
/// `stable_check_interval_secs` is an `f64` in the file; the library holds
/// its IEEE 754 bit pattern (`f64::to_bits`), which the program around it
/// converts in both directions.
#[derive(Debug)]
pub struct AgentConfig {
    pub config_version: u32,
    pub api_base_url: String,
    pub api_key: String,
    pub yard_id: String,
    pub dock_id: String,
    pub watch_dir: String,
    pub watch_extensions: Vec<String>,
    pub stable_check_interval_bits: u64,
    pub stable_required_checks: u32,
    pub mission_name_prefix: String,
    pub model_type: String,
    pub annotated_video: bool,
    pub multi_track: bool,
    pub poll_interval_secs: u64,
    pub max_queue_size_mb: u64,
    pub heartbeat_file: String,
    pub heartbeat_interval_secs: u64,
    pub heartbeat_max_age_secs: u64,
    pub log_level: String,
}

/// The mathematical value of an [`AgentConfig`]: its texts as character sequences.
#[verifier::ext_equal]
pub struct ConfigView {
    pub config_version: u32,
    pub api_base_url: Seq<char>,
    pub api_key: Seq<char>,
    pub yard_id: Seq<char>,
    pub dock_id: Seq<char>,
    pub watch_dir: Seq<char>,
    pub watch_extensions: Seq<Seq<char>>,
    pub stable_check_interval_bits: u64,
    pub stable_required_checks: u32,
    pub mission_name_prefix: Seq<char>,
    pub model_type: Seq<char>,
    pub annotated_video: bool,
    pub multi_track: bool,
    pub poll_interval_secs: u64,
    pub max_queue_size_mb: u64,
    pub heartbeat_file: Seq<char>,
    pub heartbeat_interval_secs: u64,
    pub heartbeat_max_age_secs: u64,
    pub log_level: Seq<char>,
}

/// The texts of a sequence of strings.
pub open spec fn strings_view(v: Seq<String>) -> Seq<Seq<char>> {
    v.map_values(|s: String| s@)
}

impl View for AgentConfig {
    type V = ConfigView;

    open spec fn view(&self) -> ConfigView {
        ConfigView {
            config_version: self.config_version,
            api_base_url: self.api_base_url@,
            api_key: self.api_key@,
            yard_id: self.yard_id@,
            dock_id: self.dock_id@,
            watch_dir: self.watch_dir@,
            watch_extensions: strings_view(self.watch_extensions@),
            stable_check_interval_bits: self.stable_check_interval_bits,
            stable_required_checks: self.stable_required_checks,
            mission_name_prefix: self.mission_name_prefix@,
            model_type: self.model_type@,
            annotated_video: self.annotated_video,
            multi_track: self.multi_track,
            poll_interval_secs: self.poll_interval_secs,
            max_queue_size_mb: self.max_queue_size_mb,
            heartbeat_file: self.heartbeat_file@,
            heartbeat_interval_secs: self.heartbeat_interval_secs,
            heartbeat_max_age_secs: self.heartbeat_max_age_secs,
            log_level: self.log_level@,
        }
    }
}

/// Why a configuration is refused or a `config set` fails.
#[derive(Debug, PartialEq, Eq)]
pub enum ConfigError {
    UnsupportedVersion(u64),
    MissingVersion,
    InvalidJson(String),
    InvalidSchema(String),
    MissingApiBaseUrl,
    MissingYardId,
    MissingDockId,
    MissingApiKey,
    ApiKeyPrefix,
    NonPositiveStableCheckInterval,
    ZeroStableRequiredChecks,
    ZeroPollInterval,
    ZeroHeartbeatInterval,
    ZeroHeartbeatMaxAge,
    NoWatchExtensions,
    InvalidInteger(IntErrorKind),
    EmptyFloat,
    InvalidFloat,
    InvalidBool,
    VersionNotSettable,
    UnsupportedKey(String),
}

/// The text a user is shown for each error.
pub open spec fn error_message(e: ConfigError) -> Seq<char> {
    match e {
        ConfigError::UnsupportedVersion(v) => "Unsupported config_version "@ + decimal(v as nat)
            + ". Only version 1 is supported."@,
        ConfigError::MissingVersion => "config_version is required and must be 1"@,
        ConfigError::InvalidJson(m) => "config is not valid JSON: "@ + m@,
        ConfigError::InvalidSchema(m) => "config schema is invalid: "@ + m@,
        ConfigError::MissingApiBaseUrl => "api_base_url is required"@,
        ConfigError::MissingYardId => "yard_id is required"@,
        ConfigError::MissingDockId => "dock_id is required"@,
        ConfigError::MissingApiKey => "API key is required in config api_key or UNSPACE_API_KEY"@,
        ConfigError::ApiKeyPrefix => "API key must start with ysk_"@,
        ConfigError::NonPositiveStableCheckInterval =>
            "stable_check_interval_secs must be greater than 0"@,
        ConfigError::ZeroStableRequiredChecks => "stable_required_checks must be greater than 0"@,
        ConfigError::ZeroPollInterval => "poll_interval_secs must be greater than 0"@,
        ConfigError::ZeroHeartbeatInterval => "heartbeat_interval_secs must be greater than 0"@,
        ConfigError::ZeroHeartbeatMaxAge => "heartbeat_max_age_secs must be greater than 0"@,
        ConfigError::NoWatchExtensions => "watch_extensions must include at least one extension"@,
        ConfigError::InvalidInteger(k) => int_error_message(k),
        ConfigError::EmptyFloat => "cannot parse float from empty string"@,
        ConfigError::InvalidFloat => "invalid float literal"@,
        ConfigError::InvalidBool => "expected a boolean value"@,
        ConfigError::VersionNotSettable => "config_version cannot be changed with config set"@,
        ConfigError::UnsupportedKey(k) => "unsupported config key '"@ + k@ + "'"@,
    }
}

impl ConfigError {
    /// The text a user is shown for this error.
    pub fn message(&self) -> (m: String)
        ensures
            m@ == error_message(*self),
    {
        match self {
            ConfigError::UnsupportedVersion(v) => {
                let mut m = String::from_str("Unsupported config_version ");
                let digits = string_from_chars(&decimal_chars(*v));
                m.append(digits.as_str());
                m.append(". Only version 1 is supported.");
                m
            },
            ConfigError::MissingVersion => String::from_str("config_version is required and must be 1"),
            ConfigError::InvalidJson(cause) => {
                let mut m = String::from_str("config is not valid JSON: ");
                m.append(cause.as_str());
                m
            },
            ConfigError::InvalidSchema(cause) => {
                let mut m = String::from_str("config schema is invalid: ");
                m.append(cause.as_str());
                m
            },
            ConfigError::MissingApiBaseUrl => String::from_str("api_base_url is required"),
            ConfigError::MissingYardId => String::from_str("yard_id is required"),
            ConfigError::MissingDockId => String::from_str("dock_id is required"),
            ConfigError::MissingApiKey => String::from_str(
                "API key is required in config api_key or UNSPACE_API_KEY",
            ),
            ConfigError::ApiKeyPrefix => String::from_str("API key must start with ysk_"),
            ConfigError::NonPositiveStableCheckInterval => String::from_str(
                "stable_check_interval_secs must be greater than 0",
            ),
            ConfigError::ZeroStableRequiredChecks => String::from_str(
                "stable_required_checks must be greater than 0",
            ),
            ConfigError::ZeroPollInterval => String::from_str(
                "poll_interval_secs must be greater than 0",
            ),
            ConfigError::ZeroHeartbeatInterval => String::from_str(
                "heartbeat_interval_secs must be greater than 0",
            ),
            ConfigError::ZeroHeartbeatMaxAge => String::from_str(
                "heartbeat_max_age_secs must be greater than 0",
            ),
            ConfigError::NoWatchExtensions => String::from_str(
                "watch_extensions must include at least one extension",
            ),
            ConfigError::InvalidInteger(k) => String::from_str(k.message()),
            ConfigError::EmptyFloat => String::from_str("cannot parse float from empty string"),
            ConfigError::InvalidFloat => String::from_str("invalid float literal"),
            ConfigError::InvalidBool => String::from_str("expected a boolean value"),
            ConfigError::VersionNotSettable => String::from_str(
                "config_version cannot be changed with config set",
            ),
            ConfigError::UnsupportedKey(key) => {
                let mut m = String::from_str("unsupported config key '");
                m.append(key.as_str());
                m.append("'");
                m
            },
        }
    }
}

/// The configuration a fresh install starts from.
pub open spec fn default_view() -> ConfigView {
    ConfigView {
        config_version: 1,
        api_base_url: "https://api.unspace.com"@,
        api_key: Seq::<char>::empty(),
        yard_id: Seq::<char>::empty(),
        dock_id: Seq::<char>::empty(),
        watch_dir: UPLOAD_DIR@,
        watch_extensions: seq![".mp4"@, ".mov"@, ".avi"@, ".mkv"@],
        stable_check_interval_bits: DEFAULT_STABLE_CHECK_INTERVAL_BITS,
        stable_required_checks: 3,
        mission_name_prefix: "Hextronics Dock"@,
        model_type: "coupler_genie"@,
        annotated_video: true,
        multi_track: false,
        poll_interval_secs: 60,
        max_queue_size_mb: 500,
        heartbeat_file: DEFAULT_HEARTBEAT_FILE@,
        heartbeat_interval_secs: 15,
        heartbeat_max_age_secs: 120,
        log_level: "info"@,
    }
}

impl Default for AgentConfig {
    fn default() -> (c: AgentConfig)
        ensures
            c@ == default_view(),
    {
        let mut watch_extensions: Vec<String> = Vec::new();
        watch_extensions.push(String::from_str(".mp4"));
        watch_extensions.push(String::from_str(".mov"));
        watch_extensions.push(String::from_str(".avi"));
        watch_extensions.push(String::from_str(".mkv"));
        let c = AgentConfig {
            config_version: CONFIG_VERSION,
            api_base_url: String::from_str("https://api.unspace.com"),
            api_key: String::new(),
            yard_id: String::new(),
            dock_id: String::new(),
            watch_dir: String::from_str(UPLOAD_DIR),
            watch_extensions,
            stable_check_interval_bits: DEFAULT_STABLE_CHECK_INTERVAL_BITS,
            stable_required_checks: 3,
            mission_name_prefix: String::from_str("Hextronics Dock"),
            model_type: String::from_str("coupler_genie"),
            annotated_video: true,
            multi_track: false,
            poll_interval_secs: 60,
            max_queue_size_mb: 500,
            heartbeat_file: String::from_str(DEFAULT_HEARTBEAT_FILE),
            heartbeat_interval_secs: 15,
            heartbeat_max_age_secs: 120,
            log_level: String::from_str("info"),
        };
        assert(c@.watch_extensions =~= default_view().watch_extensions);
        c
    }
}

impl AgentConfig {
    /// The default configuration with the given credentials and identity.
    pub fn initial(api_key: String, yard_id: String, dock_id: String) -> (c: AgentConfig)
        ensures
            c@ == (ConfigView {
                api_key: api_key@,
                yard_id: yard_id@,
                dock_id: dock_id@,
                ..default_view()
            }),
    {
        let d = AgentConfig::default();
        AgentConfig { api_key, yard_id, dock_id, ..d }
    }
}

/// Whether an `f64` with bit pattern `bits` compares `<= 0.0`: the zeros and
/// the negative numbers down to negative infinity. NaNs compare false.
pub open spec fn f64_bits_at_most_zero(bits: u64) -> bool {
    bits == 0 || (0x8000_0000_0000_0000 <= bits && bits <= 0xfff0_0000_0000_0000)
}

/// One configured extension after trimming: a dot, then the extension
/// without its leading dots, in ASCII lower case.
pub open spec fn normalize_extension(trimmed: Seq<char>) -> Seq<char> {
    seq!['.'] + lower(trim_start_char(trimmed, '.'))
}

/// The configured extensions, trimmed, blank ones dropped, normalized, in order.
pub open spec fn normalized_extensions(values: Seq<Seq<char>>) -> Seq<Seq<char>>
    decreases values.len(),
{
    if values.len() == 0 {
        Seq::<Seq<char>>::empty()
    } else {
        let rest = normalized_extensions(values.drop_last());
        let t = trim(values.last());
        if t.len() == 0 {
            rest
        } else {
            rest.push(normalize_extension(t))
        }
    }
}

/// What `validate` leaves in the configuration and returns, step by step:
/// the version is checked, trailing slashes leave `api_base_url`, the
/// identities must not be blank, a non-blank `UNSPACE_API_KEY` (trimmed)
/// replaces `api_key`, the key must not be blank and must start with `ysk_`,
/// the intervals and counts must be positive, and the extensions are normalized.
pub open spec fn validated(c: ConfigView, env_api_key: Seq<char>) -> (ConfigView, Result<(), ConfigError>) {
    if c.config_version != CONFIG_VERSION {
        (c, Err(ConfigError::UnsupportedVersion(c.config_version as u64)))
    } else {
        let c1 = ConfigView { api_base_url: trim_end_char(c.api_base_url, '/'), ..c };
        if c1.api_base_url.len() == 0 {
            (c1, Err(ConfigError::MissingApiBaseUrl))
        } else if trim(c1.yard_id).len() == 0 {
            (c1, Err(ConfigError::MissingYardId))
        } else if trim(c1.dock_id).len() == 0 {
            (c1, Err(ConfigError::MissingDockId))
        } else {
            let c2 = if trim(env_api_key).len() > 0 {
                ConfigView { api_key: trim(env_api_key), ..c1 }
            } else {
                c1
            };
            if trim(c2.api_key).len() == 0 {
                (c2, Err(ConfigError::MissingApiKey))
            } else if !starts_with(c2.api_key, "ysk_"@) {
                (c2, Err(ConfigError::ApiKeyPrefix))
            } else if f64_bits_at_most_zero(c2.stable_check_interval_bits) {
                (c2, Err(ConfigError::NonPositiveStableCheckInterval))
            } else if c2.stable_required_checks == 0 {
                (c2, Err(ConfigError::ZeroStableRequiredChecks))
            } else if c2.poll_interval_secs == 0 {
                (c2, Err(ConfigError::ZeroPollInterval))
            } else if c2.heartbeat_interval_secs == 0 {
                (c2, Err(ConfigError::ZeroHeartbeatInterval))
            } else if c2.heartbeat_max_age_secs == 0 {
                (c2, Err(ConfigError::ZeroHeartbeatMaxAge))
            } else if normalized_extensions(c2.watch_extensions).len() == 0 {
                (c2, Err(ConfigError::NoWatchExtensions))
            } else {
                (ConfigView { watch_extensions: normalized_extensions(c2.watch_extensions), ..c2 }, Ok(()))
            }
        }
    }
}

/// Whether an `f64` with bit pattern `bits` compares `<= 0.0`.
pub fn f64_bits_are_at_most_zero(bits: u64) -> (r: bool)
    ensures
        r == f64_bits_at_most_zero(bits),
{
    bits == 0 || (0x8000_0000_0000_0000 <= bits && bits <= 0xfff0_0000_0000_0000)
}

/// Normalizes the configured video extensions: each is trimmed, blank ones
/// are dropped, leading dots are removed, the rest is ASCII-lowercased and
/// one dot is put in front. An empty result is refused.
pub fn normalize_extensions(values: &Vec<String>) -> (r: Result<Vec<String>, ConfigError>)
    ensures
        normalized_extensions(strings_view(values@)).len() == 0 ==> r == Err::<Vec<String>, ConfigError>(
            ConfigError::NoWatchExtensions,
        ),
        normalized_extensions(strings_view(values@)).len() > 0 ==> (r matches Ok(exts) && strings_view(
            exts@,
        ) == normalized_extensions(strings_view(values@))),
{
    let mut out: Vec<String> = Vec::new();
    let mut i: usize = 0;
    let mut dot: Vec<char> = Vec::new();
    dot.push('.');
    while i < values.len()
        invariant
            i <= values.len(),
            dot@ == seq!['.'],
            strings_view(out@) == normalized_extensions(strings_view(values@.take(i as int))),
        decreases values.len() - i,
    {
        let t = trim_chars(&chars_of(values[i].as_str()));
        let ghost before = strings_view(out@);
        if t.len() > 0 {
            let body = lower_chars(&trim_start_char_chars(&t, '.'));
            let e = concat_chars(&dot, &body);
            out.push(string_from_chars(&e));
            assert(strings_view(out@) =~= before.push(e@));
        }
        i = i + 1;
        proof {
            let vs = strings_view(values@.take(i as int));
            assert(vs.drop_last() =~= strings_view(values@.take(i - 1)));
            assert(vs.last() == values@[i - 1]@);
        }
    }
    assert(values@.take(values.len() as int) =~= values@);
    if out.len() == 0 {
        Err(ConfigError::NoWatchExtensions)
    } else {
        Ok(out)
    }
}

impl AgentConfig {
    /// Checks the configuration and puts it in normal form; `env_api_key`
    /// is the value of `UNSPACE_API_KEY`, empty when it is unset.
    pub fn validate(&mut self, env_api_key: &str) -> (r: Result<(), ConfigError>)
        ensures
            (final(self)@, r) == validated(old(self)@, env_api_key@),
    {
        if self.config_version != CONFIG_VERSION {
            return Err(ConfigError::UnsupportedVersion(self.config_version as u64));
        }
        let base = trim_end_char_chars(&chars_of(self.api_base_url.as_str()), '/');
        self.api_base_url = string_from_chars(&base);
        if base.len() == 0 {
            return Err(ConfigError::MissingApiBaseUrl);
        }
        if trim_chars(&chars_of(self.yard_id.as_str())).len() == 0 {
            return Err(ConfigError::MissingYardId);
        }
        if trim_chars(&chars_of(self.dock_id.as_str())).len() == 0 {
            return Err(ConfigError::MissingDockId);
        }
        let env_key = trim_chars(&chars_of(env_api_key));
        if env_key.len() > 0 {
            self.api_key = string_from_chars(&env_key);
        }
        let key = chars_of(self.api_key.as_str());
        if trim_chars(&key).len() == 0 {
            return Err(ConfigError::MissingApiKey);
        }
        if !chars_start_with(&key, "ysk_") {
            return Err(ConfigError::ApiKeyPrefix);
        }
        if f64_bits_are_at_most_zero(self.stable_check_interval_bits) {
            return Err(ConfigError::NonPositiveStableCheckInterval);
        }
        if self.stable_required_checks == 0 {
            return Err(ConfigError::ZeroStableRequiredChecks);
        }
        if self.poll_interval_secs == 0 {
            return Err(ConfigError::ZeroPollInterval);
        }
        if self.heartbeat_interval_secs == 0 {
            return Err(ConfigError::ZeroHeartbeatInterval);
        }
        if self.heartbeat_max_age_secs == 0 {
            return Err(ConfigError::ZeroHeartbeatMaxAge);
        }
        match normalize_extensions(&self.watch_extensions) {
            Ok(exts) => {
                self.watch_extensions = exts;
                Ok(())
            },
            Err(e) => Err(e),
        }
    }
}

/// The comma-separated pieces of `value`, each trimmed (blank pieces kept).
pub open spec fn parsed_extensions(value: Seq<char>) -> Seq<Seq<char>> {
    split_commas(value).map_values(|p: Seq<char>| trim(p))
}

/// The boolean a `config set` value spells, if any: after trimming and
/// ASCII-lowercasing, `1`, `true`, `yes`, `y`, `on` or `0`, `false`, `no`, `n`, `off`.
pub open spec fn parsed_bool(value: Seq<char>) -> Option<bool> {
    let t = lower(trim(value));
    if t == "1"@ || t == "true"@ || t == "yes"@ || t == "y"@ || t == "on"@ {
        Some(true)
    } else if t == "0"@ || t == "false"@ || t == "no"@ || t == "n"@ || t == "off"@ {
        Some(false)
    } else {
        None
    }
}

/// Splits a `config set` value for `watch_extensions` at its commas and
/// trims each piece.
pub fn parse_extensions(value: &str) -> (r: Vec<String>)
    ensures
        strings_view(r@) == parsed_extensions(value@),
{
    let v = chars_of(value);
    let mut out: Vec<String> = Vec::new();
    let mut cur: Vec<char> = Vec::new();
    let mut i: usize = 0;
    proof {
        assert(v@.take(0) =~= Seq::<char>::empty());
    }
    while i < v.len()
        invariant
            i <= v.len(),
            v@ == value@,
            split_commas(v@.take(i as int)).len() >= 1,
            strings_view(out@) == split_commas(v@.take(i as int)).drop_last().map_values(
                |p: Seq<char>| trim(p),
            ),
            cur@ == split_commas(v@.take(i as int)).last(),
        decreases v.len() - i,
    {
        let c = v[i];
        let ghost prev = split_commas(v@.take(i as int));
        proof {
            assert(v@.take(i + 1).drop_last() =~= v@.take(i as int));
            assert(v@.take(i + 1).last() == c);
        }
        if c == ',' {
            let piece = trim_chars(&cur);
            let ghost old_view = strings_view(out@);
            out.push(string_from_chars(&piece));
            cur = Vec::new();
            proof {
                let next = split_commas(v@.take(i + 1));
                assert(next == prev.push(Seq::<char>::empty()));
                assert(next.drop_last() =~= prev);
                assert(strings_view(out@) =~= old_view.push(trim(prev.last())));
                assert(prev =~= prev.drop_last().push(prev.last()));
                assert(prev.map_values(|p: Seq<char>| trim(p)) =~= prev.drop_last().map_values(
                    |p: Seq<char>| trim(p),
                ).push(trim(prev.last())));
                assert(strings_view(out@) =~= next.drop_last().map_values(|p: Seq<char>| trim(p)));
                assert(cur@ =~= next.last());
            }
        } else {
            cur.push(c);
            proof {
                let next = split_commas(v@.take(i + 1));
                assert(next == prev.update(prev.len() - 1, prev.last().push(c)));
                assert(next.drop_last() =~= prev.drop_last());
            }
        }
        i = i + 1;
    }
    let piece = trim_chars(&cur);
    let ghost before = strings_view(out@);
    out.push(string_from_chars(&piece));
    proof {
        let all = split_commas(v@.take(i as int));
        assert(v@.take(i as int) =~= v@);
        assert(strings_view(out@) =~= before.push(trim(all.last())));
        assert(all =~= all.drop_last().push(all.last()));
        assert(all.map_values(|p: Seq<char>| trim(p)) =~= all.drop_last().map_values(
            |p: Seq<char>| trim(p),
        ).push(trim(all.last())));
    }
    out
}

/// Reads a boolean `config set` value (see `parsed_bool`).
pub fn parse_bool(value: &str) -> (r: Result<bool, ConfigError>)
    ensures
        match parsed_bool(value@) {
            Some(b) => r == Ok::<bool, ConfigError>(b),
            None => r == Err::<bool, ConfigError>(ConfigError::InvalidBool),
        },
{
    let t = lower_chars(&trim_chars(&chars_of(value)));
    if chars_equal_str(&t, "1") || chars_equal_str(&t, "true") || chars_equal_str(&t, "yes")
        || chars_equal_str(&t, "y") || chars_equal_str(&t, "on") {
        Ok(true)
    } else if chars_equal_str(&t, "0") || chars_equal_str(&t, "false") || chars_equal_str(&t, "no")
        || chars_equal_str(&t, "n") || chars_equal_str(&t, "off") {
        Ok(false)
    } else {
        Err(ConfigError::InvalidBool)
    }
}

/// An integer `config set` value for a field whose largest value is `max`.
pub open spec fn parsed_integer(value: Seq<char>, max: nat) -> Result<nat, ConfigError> {
    match parse_unsigned_spec(value, max) {
        Ok(n) => Ok(n),
        Err(k) => Err(ConfigError::InvalidInteger(k)),
    }
}

/// What `config set <key> <value>` does to the configuration before it is
/// validated: the new configuration, or the refusal (`Err(None)` for a key
/// that is not a setting). `float_bits` is `value` read as an `f64`, as a
/// bit pattern, if it reads as one.
pub open spec fn applied(c: ConfigView, key: Seq<char>, value: Seq<char>, float_bits: Option<u64>) -> Result<ConfigView, Option<ConfigError>> {
    if key == "api_base_url"@ {
        Ok(ConfigView { api_base_url: value, ..c })
    } else if key == "api_key"@ {
        Ok(ConfigView { api_key: value, ..c })
    } else if key == "yard_id"@ {
        Ok(ConfigView { yard_id: value, ..c })
    } else if key == "dock_id"@ {
        Ok(ConfigView { dock_id: value, ..c })
    } else if key == "watch_dir"@ {
        Ok(ConfigView { watch_dir: value, ..c })
    } else if key == "watch_extensions"@ {
        Ok(ConfigView { watch_extensions: parsed_extensions(value), ..c })
    } else if key == "stable_check_interval_secs"@ {
        match float_bits {
            Some(b) => Ok(ConfigView { stable_check_interval_bits: b, ..c }),
            None => if value.len() == 0 {
                Err(Some(ConfigError::EmptyFloat))
            } else {
                Err(Some(ConfigError::InvalidFloat))
            },
        }
    } else if key == "stable_required_checks"@ {
        match parsed_integer(value, u32::MAX as nat) {
            Ok(n) => Ok(ConfigView { stable_required_checks: n as u32, ..c }),
            Err(e) => Err(Some(e)),
        }
    } else if key == "mission_name_prefix"@ {
        Ok(ConfigView { mission_name_prefix: value, ..c })
    } else if key == "model_type"@ {
        Ok(ConfigView { model_type: value, ..c })
    } else if key == "annotated_video"@ {
        match parsed_bool(value) {
            Some(b) => Ok(ConfigView { annotated_video: b, ..c }),
            None => Err(Some(ConfigError::InvalidBool)),
        }
    } else if key == "multi_track"@ {
        match parsed_bool(value) {
            Some(b) => Ok(ConfigView { multi_track: b, ..c }),
            None => Err(Some(ConfigError::InvalidBool)),
        }
    } else if key == "poll_interval_secs"@ {
        match parsed_integer(value, u64::MAX as nat) {
            Ok(n) => Ok(ConfigView { poll_interval_secs: n as u64, ..c }),
            Err(e) => Err(Some(e)),
        }
    } else if key == "max_queue_size_mb"@ {
        match parsed_integer(value, u64::MAX as nat) {
            Ok(n) => Ok(ConfigView { max_queue_size_mb: n as u64, ..c }),
            Err(e) => Err(Some(e)),
        }
    } else if key == "heartbeat_file"@ {
        Ok(ConfigView { heartbeat_file: value, ..c })
    } else if key == "heartbeat_interval_secs"@ {
        match parsed_integer(value, u64::MAX as nat) {
            Ok(n) => Ok(ConfigView { heartbeat_interval_secs: n as u64, ..c }),
            Err(e) => Err(Some(e)),
        }
    } else if key == "heartbeat_max_age_secs"@ {
        match parsed_integer(value, u64::MAX as nat) {
            Ok(n) => Ok(ConfigView { heartbeat_max_age_secs: n as u64, ..c }),
            Err(e) => Err(Some(e)),
        }
    } else if key == "log_level"@ {
        Ok(ConfigView { log_level: value, ..c })
    } else if key == "config_version"@ {
        Err(Some(ConfigError::VersionNotSettable))
    } else {
        Err(None)
    }
}

fn parse_integer_value(value: &str, max: u64) -> (r: Result<u64, ConfigError>)
    ensures
        match parsed_integer(value@, max as nat) {
            Ok(n) => r == Ok::<u64, ConfigError>(n as u64) && n <= max,
            Err(e) => r == Err::<u64, ConfigError>(e),
        },
{
    match parse_unsigned(&chars_of(value), max) {
        Ok(n) => Ok(n),
        Err(k) => Err(ConfigError::InvalidInteger(k)),
    }
}

/// Sets one setting from its text (`config set <key> <value>`); a refused
/// value or key leaves the configuration as it was. `float_bits` is `value`
/// read as an `f64` (`str::parse::<f64>`), as a bit pattern, if it reads as one.
pub fn apply_config_value(config: &mut AgentConfig, key: &str, value: &str, float_bits: Option<u64>) -> (r: Result<(), ConfigError>)
    ensures
        match applied(old(config)@, key@, value@, float_bits) {
            Ok(c) => r == Ok::<(), ConfigError>(()) && final(config)@ == c,
            Err(Some(e)) => r == Err::<(), ConfigError>(e) && final(config)@ == old(config)@,
            Err(None) => (r matches Err(ConfigError::UnsupportedKey(k)) && k@ == key@) && final(config)@ == old(config)@,
        },
{
    let k = chars_of(key);
    if chars_equal_str(&k, "api_base_url") {
        config.api_base_url = String::from_str(value);
    } else if chars_equal_str(&k, "api_key") {
        config.api_key = String::from_str(value);
    } else if chars_equal_str(&k, "yard_id") {
        config.yard_id = String::from_str(value);
    } else if chars_equal_str(&k, "dock_id") {
        config.dock_id = String::from_str(value);
    } else if chars_equal_str(&k, "watch_dir") {
        config.watch_dir = String::from_str(value);
    } else if chars_equal_str(&k, "watch_extensions") {
        config.watch_extensions = parse_extensions(value);
    } else if chars_equal_str(&k, "stable_check_interval_secs") {
        match float_bits {
            Some(b) => config.stable_check_interval_bits = b,
            None => {
                if value.unicode_len() == 0 {
                    return Err(ConfigError::EmptyFloat);
                }
                return Err(ConfigError::InvalidFloat);
            },
        }
    } else if chars_equal_str(&k, "stable_required_checks") {
        let n = parse_integer_value(value, 0xffff_ffff)?;
        config.stable_required_checks = n as u32;
    } else if chars_equal_str(&k, "mission_name_prefix") {
        config.mission_name_prefix = String::from_str(value);
    } else if chars_equal_str(&k, "model_type") {
        config.model_type = String::from_str(value);
    } else if chars_equal_str(&k, "annotated_video") {
        config.annotated_video = parse_bool(value)?;
    } else if chars_equal_str(&k, "multi_track") {
        config.multi_track = parse_bool(value)?;
    } else if chars_equal_str(&k, "poll_interval_secs") {
        config.poll_interval_secs = parse_integer_value(value, 0xffff_ffff_ffff_ffff)?;
    } else if chars_equal_str(&k, "max_queue_size_mb") {
        config.max_queue_size_mb = parse_integer_value(value, 0xffff_ffff_ffff_ffff)?;
    } else if chars_equal_str(&k, "heartbeat_file") {
        config.heartbeat_file = String::from_str(value);
    } else if chars_equal_str(&k, "heartbeat_interval_secs") {
        config.heartbeat_interval_secs = parse_integer_value(value, 0xffff_ffff_ffff_ffff)?;
    } else if chars_equal_str(&k, "heartbeat_max_age_secs") {
        config.heartbeat_max_age_secs = parse_integer_value(value, 0xffff_ffff_ffff_ffff)?;
    } else if chars_equal_str(&k, "log_level") {
        config.log_level = String::from_str(value);
    } else if chars_equal_str(&k, "config_version") {
        return Err(ConfigError::VersionNotSettable);
    } else {
        return Err(ConfigError::UnsupportedKey(String::from_str(key)));
    }
    Ok(())
}

/// What `config show` prints in place of the API key: nothing for an empty
/// key, `<redacted>` for any other.
pub open spec fn redacted_key(key: Seq<char>) -> Seq<char> {
    if key.len() == 0 {
        key
    } else {
        "<redacted>"@
    }
}

/// A copy of a list of strings.
pub fn copy_strings(v: &Vec<String>) -> (r: Vec<String>)
    ensures
        strings_view(r@) == strings_view(v@),
{
    let mut r: Vec<String> = Vec::new();
    let mut i: usize = 0;
    while i < v.len()
        invariant
            i <= v.len(),
            strings_view(r@) == strings_view(v@.take(i as int)),
        decreases v.len() - i,
    {
        let ghost before = r@;
        let s = v[i].clone();
        assert(s@ == v@[i as int]@);
        r.push(s);
        i = i + 1;
        assert(r@ == before.push(s));
        assert(strings_view(before.push(s)) =~= strings_view(before).push(s@));
        assert(v@.take(i as int) =~= v@.take(i - 1).push(v@[i - 1]));
        assert(strings_view(v@.take(i - 1).push(v@[i - 1])) =~= strings_view(v@.take(i - 1)).push(
            v@[i - 1]@,
        ));
    }
    assert(v@.take(v.len() as int) =~= v@);
    r
}

impl AgentConfig {
    /// A copy of the configuration.
    pub fn copy(&self) -> (r: AgentConfig)
        ensures
            r@ == self@,
    {
        AgentConfig {
            config_version: self.config_version,
            api_base_url: self.api_base_url.clone(),
            api_key: self.api_key.clone(),
            yard_id: self.yard_id.clone(),
            dock_id: self.dock_id.clone(),
            watch_dir: self.watch_dir.clone(),
            watch_extensions: copy_strings(&self.watch_extensions),
            stable_check_interval_bits: self.stable_check_interval_bits,
            stable_required_checks: self.stable_required_checks,
            mission_name_prefix: self.mission_name_prefix.clone(),
            model_type: self.model_type.clone(),
            annotated_video: self.annotated_video,
            multi_track: self.multi_track,
            poll_interval_secs: self.poll_interval_secs,
            max_queue_size_mb: self.max_queue_size_mb,
            heartbeat_file: self.heartbeat_file.clone(),
            heartbeat_interval_secs: self.heartbeat_interval_secs,
            heartbeat_max_age_secs: self.heartbeat_max_age_secs,
            log_level: self.log_level.clone(),
        }
    }

    /// The configuration as `config show` prints it: the API key is replaced
    /// by `<redacted>` unless it is empty; nothing else changes.
    pub fn redacted(&self) -> (r: AgentConfig)
        ensures
            r@ == (ConfigView { api_key: redacted_key(self.api_key@), ..self@ }),
    {
        let mut r = self.copy();
        if self.api_key.as_str().unicode_len() != 0 {
            r.api_key = String::from_str("<redacted>");
        }
        r
    }
}

/// Where the configuration file is: `UNSPACE_CONFIG_PATH` when it is set
/// (`env_override`), else `DEFAULT_CONFIG_PATH`.
pub fn config_path(env_override: Option<String>) -> (p: String)
    ensures
        p@ == match env_override {
            Some(s) => s@,
            None => DEFAULT_CONFIG_PATH@,
        },
{
    match env_override {
        Some(s) => s,
        None => String::from_str(DEFAULT_CONFIG_PATH),
    }
}

/// What `serde_json::from_str::<serde_json::Value>` followed by
/// `Value::get("config_version")` and `Value::as_u64` gives for a text: the
/// error's text when it is not JSON, else the member as a `u64` when there
/// is one and it is a non-negative integer that fits.
pub uninterp spec fn json_config_version(contents: Seq<char>) -> Result<Option<u64>, Seq<char>>;

/// Parses `contents` as JSON with serde_json and reads its `config_version`
/// member as a `u64`. The contract claims only that the result is the one
/// named by `json_config_version` for this text, with serde_json's error text
/// on failure; nothing here states JSON's grammar.
#[verifier::external_body]
fn read_config_version(contents: &str) -> (r: Result<Option<u64>, String>)
    ensures
        match r {
            Ok(v) => json_config_version(contents@) == Ok::<Option<u64>, Seq<char>>(v),
            Err(m) => json_config_version(contents@) == Err::<Option<u64>, Seq<char>>(m@),
        },
{
    match serde_json::from_str::<serde_json::Value>(contents) {
        Ok(raw) => Ok(raw.get("config_version").and_then(serde_json::Value::as_u64)),
        Err(error) => Err(error.to_string()),
    }
}

/// A configuration result by its view.
pub open spec fn config_result_view(r: Result<AgentConfig, ConfigError>) -> Result<ConfigView, ConfigError> {
    match r {
        Ok(c) => Ok(c@),
        Err(e) => Err(e),
    }
}

/// A schema-reading result by its view.
pub open spec fn parsed_view(p: Result<AgentConfig, String>) -> Result<ConfigView, Seq<char>> {
    match p {
        Ok(c) => Ok(c@),
        Err(m) => Err(m@),
    }
}

/// Whether `r` is what loading a configuration gives: `version` is what
/// reading the file as JSON gave, `parsed` what reading it into the
/// configuration's schema gave. Not JSON, no version, another version and a
/// schema error are refused in that order; else the configuration is validated.
pub open spec fn loads_as(
    version: Result<Option<u64>, Seq<char>>,
    parsed: Result<ConfigView, Seq<char>>,
    env_api_key: Seq<char>,
    r: Result<ConfigView, ConfigError>,
) -> bool {
    match version {
        Err(m) => r matches Err(ConfigError::InvalidJson(m2)) && m2@ == m,
        Ok(None) => r == Err::<ConfigView, ConfigError>(ConfigError::MissingVersion),
        Ok(Some(v)) => if v != 1 {
            r == Err::<ConfigView, ConfigError>(ConfigError::UnsupportedVersion(v))
        } else {
            match parsed {
                Err(m) => r matches Err(ConfigError::InvalidSchema(m2)) && m2@ == m,
                Ok(c) => match validated(c, env_api_key).1 {
                    Ok(()) => r == Ok::<ConfigView, ConfigError>(validated(c, env_api_key).0),
                    Err(e) => r == Err::<ConfigView, ConfigError>(e),
                },
            }
        },
    }
}

/// The checks made on a loaded configuration, from what reading its file as
/// JSON gave (`version`: serde_json's error text, or the `config_version`
/// member) and what reading it into the schema gave (`parsed`).
pub fn check_loaded_config(
    version: Result<Option<u64>, String>,
    parsed: Result<AgentConfig, String>,
    env_api_key: &str,
) -> (r: Result<AgentConfig, ConfigError>)
    ensures
        loads_as(
            match version {
                Ok(v) => Ok::<Option<u64>, Seq<char>>(v),
                Err(m) => Err::<Option<u64>, Seq<char>>(m@),
            },
            parsed_view(parsed),
            env_api_key@,
            config_result_view(r),
        ),
{
    match version {
        Err(m) => Err(ConfigError::InvalidJson(m)),
        Ok(None) => Err(ConfigError::MissingVersion),
        Ok(Some(v)) => {
            if v != 1 {
                return Err(ConfigError::UnsupportedVersion(v));
            }
            match parsed {
                Err(m) => Err(ConfigError::InvalidSchema(m)),
                Ok(c) => {
                    let mut c = c;
                    match c.validate(env_api_key) {
                        Ok(()) => Ok(c),
                        Err(e) => Err(e),
                    }
                },
            }
        },
    }
}

/// Loads a configuration from the file's text `contents`: reads it as JSON
/// with serde_json and checks it (see `check_loaded_config`). `parsed` is
/// the text read into the configuration's schema, or the schema error's text.
pub fn load_config_from(contents: &str, parsed: Result<AgentConfig, String>, env_api_key: &str) -> (r: Result<AgentConfig, ConfigError>)
    ensures
        loads_as(json_config_version(contents@), parsed_view(parsed), env_api_key@, config_result_view(r)),
{
    let version = read_config_version(contents);
    check_loaded_config(version, parsed, env_api_key)
}

/// An extension as validation leaves it: trimming it and normalizing it
/// again give it back.
pub open spec fn is_normal_extension(e: Seq<char>) -> bool {
    &&& trim(e) == e
    &&& e.len() > 0
    &&& normalize_extension(e) == e
}

proof fn lemma_normalize_extension_is_normal(t: Seq<char>)
    requires
        t == trim(t),
        t.len() > 0,
    ensures
        is_normal_extension(normalize_extension(t)),
{
    lemma_trim_ends(t);
    let body = trim_start_char(t, '.');
    lemma_trim_start_char_suffix(t, '.');
    let l = lower(body);
    let e = normalize_extension(t);
    assert(e =~= seq!['.'] + l);
    // The first character is a dot and the last is not white space.
    assert(e[0] == '.');
    if l.len() > 0 {
        assert(body.last() == t.last());
        assert(e.last() == ascii_lower(t.last()));
        assert(!is_white_space(e.last()));
    } else {
        assert(e.last() == '.');
    }
    lemma_trim_unchanged(e);
    // Normalizing again strips the one dot and changes nothing else.
    assert(e.drop_first() =~= l);
    if l.len() > 0 {
        assert(l[0] == ascii_lower(body[0]));
        assert(l[0] != '.');
    }
    assert(trim_start_char(e, '.') == trim_start_char(l, '.'));
    assert(trim_start_char(l, '.') == l);
    lemma_lower_idempotent(body);
    assert(normalize_extension(e) =~= e);
}

proof fn lemma_normalized_are_normal(values: Seq<Seq<char>>)
    ensures
        forall|i: int| 0 <= i < normalized_extensions(values).len() ==> is_normal_extension(
            #[trigger] normalized_extensions(values)[i],
        ),
    decreases values.len(),
{
    if values.len() > 0 {
        lemma_normalized_are_normal(values.drop_last());
        let t = trim(values.last());
        if t.len() > 0 {
            lemma_trim_ends(values.last());
            lemma_trim_unchanged(t);
            lemma_normalize_extension_is_normal(t);
            let rest = normalized_extensions(values.drop_last());
            let all = normalized_extensions(values);
            assert(all == rest.push(normalize_extension(t)));
            assert forall|i: int| 0 <= i < all.len() implies is_normal_extension(#[trigger] all[i]) by {
                if i < rest.len() {
                    assert(all[i] == rest[i]);
                }
            }
        }
    }
}

proof fn lemma_normalized_fixed(values: Seq<Seq<char>>)
    requires
        forall|i: int| 0 <= i < values.len() ==> is_normal_extension(#[trigger] values[i]),
    ensures
        normalized_extensions(values) == values,
    decreases values.len(),
{
    if values.len() > 0 {
        assert(is_normal_extension(values[values.len() - 1]));
        lemma_normalized_fixed(values.drop_last());
        assert(values.drop_last().push(values.last()) =~= values);
    }
}

/// Normalizing the extensions twice is normalizing them once.
pub proof fn lemma_normalize_extensions_idempotent(values: Seq<Seq<char>>)
    ensures
        normalized_extensions(normalized_extensions(values)) == normalized_extensions(values),
{
    lemma_normalized_are_normal(values);
    lemma_normalized_fixed(normalized_extensions(values));
}

/// Validation is idempotent: a configuration that validation accepted is
/// accepted again, with the same `UNSPACE_API_KEY`, and left as it is.
pub proof fn lemma_validate_idempotent(c: ConfigView, env_api_key: Seq<char>)
    requires
        validated(c, env_api_key).1 is Ok,
    ensures
        validated(validated(c, env_api_key).0, env_api_key) == (validated(c, env_api_key).0, Ok::<(), ConfigError>(())),
{
    lemma_trim_end_char_idempotent(c.api_base_url, '/');
    let c1 = ConfigView { api_base_url: trim_end_char(c.api_base_url, '/'), ..c };
    let c2 = if trim(env_api_key).len() > 0 {
        ConfigView { api_key: trim(env_api_key), ..c1 }
    } else {
        c1
    };
    lemma_normalize_extensions_idempotent(c2.watch_extensions);
    let v = validated(c, env_api_key).0;
    assert(v == ConfigView { watch_extensions: normalized_extensions(c2.watch_extensions), ..c2 });
    assert(validated(v, env_api_key).0 =~= v);
}

/// Whether `r` is what `config set <key> <value>` gives for the configuration
/// `c`: the setting is applied (see `applied`) and the result validated (see
/// `validated`); the first refusal is the error.
pub open spec fn sets_as(
    c: ConfigView,
    key: Seq<char>,
    value: Seq<char>,
    float_bits: Option<u64>,
    env_api_key: Seq<char>,
    r: Result<ConfigView, ConfigError>,
) -> bool {
    match applied(c, key, value, float_bits) {
        Ok(c1) => match validated(c1, env_api_key).1 {
            Ok(()) => r == Ok::<ConfigView, ConfigError>(validated(c1, env_api_key).0),
            Err(e) => r == Err::<ConfigView, ConfigError>(e),
        },
        Err(Some(e)) => r == Err::<ConfigView, ConfigError>(e),
        Err(None) => r matches Err(ConfigError::UnsupportedKey(k)) && k@ == key,
    }
}

/// `config set <key> <value>` on a loaded configuration: applies the setting
/// and validates the result, which is the configuration to write back.
/// `float_bits` is `value` read as an `f64`, as a bit pattern, if it reads
/// as one; `env_api_key` is `UNSPACE_API_KEY`, empty when unset.
pub fn config_set(
    config: AgentConfig,
    key: &str,
    value: &str,
    float_bits: Option<u64>,
    env_api_key: &str,
) -> (r: Result<AgentConfig, ConfigError>)
    ensures
        sets_as(config@, key@, value@, float_bits, env_api_key@, config_result_view(r)),
{
    let mut config = config;
    apply_config_value(&mut config, key, value, float_bits)?;
    config.validate(env_api_key)?;
    Ok(config)
}

/// The setting names differ in length or in their first character.
proof fn lemma_setting_name_texts()
    ensures
        "api_base_url"@.len() == 12 && "api_base_url"@[0] == 'a',
        "api_key"@.len() == 7 && "api_key"@[0] == 'a',
        "yard_id"@.len() == 7 && "yard_id"@[0] == 'y',
        "dock_id"@.len() == 7 && "dock_id"@[0] == 'd',
        "watch_dir"@.len() == 9 && "watch_dir"@[0] == 'w',
        "watch_extensions"@.len() == 16 && "watch_extensions"@[0] == 'w',
        "stable_check_interval_secs"@.len() == 26 && "stable_check_interval_secs"@[0] == 's',
        "stable_required_checks"@.len() == 22 && "stable_required_checks"@[0] == 's',
        "mission_name_prefix"@.len() == 19 && "mission_name_prefix"@[0] == 'm',
        "model_type"@.len() == 10 && "model_type"@[0] == 'm',
        "annotated_video"@.len() == 15 && "annotated_video"@[0] == 'a',
        "multi_track"@.len() == 11 && "multi_track"@[0] == 'm',
        "poll_interval_secs"@.len() == 18 && "poll_interval_secs"@[0] == 'p',
        "max_queue_size_mb"@.len() == 17 && "max_queue_size_mb"@[0] == 'm',
        "heartbeat_file"@.len() == 14 && "heartbeat_file"@[0] == 'h',
        "heartbeat_interval_secs"@.len() == 23 && "heartbeat_interval_secs"@[0] == 'h',
        "heartbeat_max_age_secs"@.len() == 22 && "heartbeat_max_age_secs"@[0] == 'h',
        "log_level"@.len() == 9 && "log_level"@[0] == 'l',
        "config_version"@.len() == 14 && "config_version"@[0] == 'c',
{
    reveal_strlit("api_base_url");
    reveal_strlit("api_key");
    reveal_strlit("yard_id");
    reveal_strlit("dock_id");
    reveal_strlit("watch_dir");
    reveal_strlit("watch_extensions");
    reveal_strlit("stable_check_interval_secs");
    reveal_strlit("stable_required_checks");
    reveal_strlit("mission_name_prefix");
    reveal_strlit("model_type");
    reveal_strlit("annotated_video");
    reveal_strlit("multi_track");
    reveal_strlit("poll_interval_secs");
    reveal_strlit("max_queue_size_mb");
    reveal_strlit("heartbeat_file");
    reveal_strlit("heartbeat_interval_secs");
    reveal_strlit("heartbeat_max_age_secs");
    reveal_strlit("log_level");
    reveal_strlit("config_version");
}

/// The boolean spellings differ in length or in their first character.
proof fn lemma_bool_spelling_texts()
    ensures
        "1"@.len() == 1 && "1"@[0] == '1',
        "true"@.len() == 4 && "true"@[0] == 't',
        "yes"@.len() == 3 && "yes"@[0] == 'y',
        "y"@.len() == 1 && "y"@[0] == 'y',
        "on"@.len() == 2 && "on"@[0] == 'o',
        "0"@.len() == 1 && "0"@[0] == '0',
        "false"@.len() == 5 && "false"@[0] == 'f',
        "no"@.len() == 2 && "no"@[0] == 'n',
        "n"@.len() == 1 && "n"@[0] == 'n',
        "off"@.len() == 3 && "off"@[0] == 'o',
{
    reveal_strlit("1");
    reveal_strlit("true");
    reveal_strlit("yes");
    reveal_strlit("y");
    reveal_strlit("on");
    reveal_strlit("0");
    reveal_strlit("false");
    reveal_strlit("no");
    reveal_strlit("n");
    reveal_strlit("off");
}

/// Setting a text-valued key stores the value as given in that field and
/// leaves every other field as it was.
pub proof fn lemma_set_text_field(c: ConfigView, value: Seq<char>, float_bits: Option<u64>)
    ensures
        applied(c, "api_base_url"@, value, float_bits) == Ok::<ConfigView, Option<ConfigError>>(
            ConfigView { api_base_url: value, ..c },
        ),
        applied(c, "api_key"@, value, float_bits) == Ok::<ConfigView, Option<ConfigError>>(
            ConfigView { api_key: value, ..c },
        ),
        applied(c, "yard_id"@, value, float_bits) == Ok::<ConfigView, Option<ConfigError>>(
            ConfigView { yard_id: value, ..c },
        ),
        applied(c, "dock_id"@, value, float_bits) == Ok::<ConfigView, Option<ConfigError>>(
            ConfigView { dock_id: value, ..c },
        ),
        applied(c, "watch_dir"@, value, float_bits) == Ok::<ConfigView, Option<ConfigError>>(
            ConfigView { watch_dir: value, ..c },
        ),
        applied(c, "mission_name_prefix"@, value, float_bits) == Ok::<
            ConfigView,
            Option<ConfigError>,
        >(ConfigView { mission_name_prefix: value, ..c }),
        applied(c, "model_type"@, value, float_bits) == Ok::<ConfigView, Option<ConfigError>>(
            ConfigView { model_type: value, ..c },
        ),
        applied(c, "heartbeat_file"@, value, float_bits) == Ok::<ConfigView, Option<ConfigError>>(
            ConfigView { heartbeat_file: value, ..c },
        ),
        applied(c, "log_level"@, value, float_bits) == Ok::<ConfigView, Option<ConfigError>>(
            ConfigView { log_level: value, ..c },
        ),
        applied(c, "watch_extensions"@, value, float_bits) == Ok::<ConfigView, Option<ConfigError>>(
            ConfigView { watch_extensions: split_commas(value).map_values(|p: Seq<char>| trim(p)), ..c },
        ),
{
    lemma_setting_name_texts();
}

/// Setting an integer-valued key to a text that reads as `n` stores `n` in
/// that field and leaves every other field as it was; a text that does not
/// read as a number is refused and nothing changes.
pub proof fn lemma_set_integer_field(c: ConfigView, value: Seq<char>, float_bits: Option<u64>)
    ensures
        parse_unsigned_spec(value, u64::MAX as nat) matches Ok(n) ==> {
            &&& applied(c, "heartbeat_max_age_secs"@, value, float_bits) == Ok::<
                ConfigView,
                Option<ConfigError>,
            >(ConfigView { heartbeat_max_age_secs: n as u64, ..c })
            &&& applied(c, "heartbeat_interval_secs"@, value, float_bits) == Ok::<
                ConfigView,
                Option<ConfigError>,
            >(ConfigView { heartbeat_interval_secs: n as u64, ..c })
            &&& applied(c, "poll_interval_secs"@, value, float_bits) == Ok::<
                ConfigView,
                Option<ConfigError>,
            >(ConfigView { poll_interval_secs: n as u64, ..c })
            &&& applied(c, "max_queue_size_mb"@, value, float_bits) == Ok::<
                ConfigView,
                Option<ConfigError>,
            >(ConfigView { max_queue_size_mb: n as u64, ..c })
        },
        parse_unsigned_spec(value, u32::MAX as nat) matches Ok(n) ==> applied(
            c,
            "stable_required_checks"@,
            value,
            float_bits,
        ) == Ok::<ConfigView, Option<ConfigError>>(
            ConfigView { stable_required_checks: n as u32, ..c },
        ),
        parse_unsigned_spec(value, u64::MAX as nat) matches Err(k) ==> {
            &&& applied(c, "heartbeat_max_age_secs"@, value, float_bits) == Err::<
                ConfigView,
                Option<ConfigError>,
            >(Some(ConfigError::InvalidInteger(k)))
            &&& applied(c, "heartbeat_interval_secs"@, value, float_bits) == Err::<
                ConfigView,
                Option<ConfigError>,
            >(Some(ConfigError::InvalidInteger(k)))
        },
{
    lemma_setting_name_texts();
}

/// Setting a boolean or the float key stores what the text reads as in that
/// field, leaves every other field as it was, and refuses an unreadable text.
pub proof fn lemma_set_bool_and_float_fields(c: ConfigView, value: Seq<char>, float_bits: Option<u64>)
    ensures
        parsed_bool(value) matches Some(b) ==> applied(c, "annotated_video"@, value, float_bits)
            == Ok::<ConfigView, Option<ConfigError>>(ConfigView { annotated_video: b, ..c }),
        parsed_bool(value) matches Some(b) ==> applied(c, "multi_track"@, value, float_bits)
            == Ok::<ConfigView, Option<ConfigError>>(ConfigView { multi_track: b, ..c }),
        parsed_bool(value) is None ==> applied(c, "multi_track"@, value, float_bits) == Err::<
            ConfigView,
            Option<ConfigError>,
        >(Some(ConfigError::InvalidBool)),
        float_bits matches Some(b) ==> applied(c, "stable_check_interval_secs"@, value, float_bits)
            == Ok::<ConfigView, Option<ConfigError>>(
            ConfigView { stable_check_interval_bits: b, ..c },
        ),
        float_bits is None ==> applied(c, "stable_check_interval_secs"@, value, float_bits) is Err,
        applied(c, "config_version"@, value, float_bits) == Err::<ConfigView, Option<ConfigError>>(
            Some(ConfigError::VersionNotSettable),
        ),
{
    lemma_setting_name_texts();
}

/// The spellings `config set` reads as booleans, whatever the case and
/// surrounding white space.
pub proof fn lemma_bool_spellings(value: Seq<char>)
    ensures
        lower(trim(value)) == "true"@ || lower(trim(value)) == "yes"@ || lower(trim(value)) == "on"@
            || lower(trim(value)) == "1"@ || lower(trim(value)) == "y"@ ==> parsed_bool(value) == Some(true),
        lower(trim(value)) == "false"@ || lower(trim(value)) == "no"@ || lower(trim(value))
            == "off"@ || lower(trim(value)) == "0"@ || lower(trim(value)) == "n"@ ==> parsed_bool(value)
            == Some(false),
{
    lemma_bool_spelling_texts();
}

/// Validation refuses the stable check interval exactly for the `f64` values
/// that compare `<= 0.0`: the zeros (bit patterns `0` and `0x8000_0000_0000_0000`)
/// and the negative numbers down to negative infinity (`0xfff0_0000_0000_0000`).
/// Every positive value, finite or infinite (`1..=0x7ff0_0000_0000_0000`),
/// and every NaN passes that check.
pub proof fn lemma_stable_interval_refused_exactly_when_not_positive(c: ConfigView, env_api_key: Seq<char>)
    ensures
        validated(c, env_api_key).1 == Err::<(), ConfigError>(
            ConfigError::NonPositiveStableCheckInterval,
        ) ==> (c.stable_check_interval_bits == 0 || (0x8000_0000_0000_0000u64
            <= c.stable_check_interval_bits && c.stable_check_interval_bits
            <= 0xfff0_0000_0000_0000u64)),
        validated(ConfigView { stable_check_interval_bits: 0, ..c }, env_api_key).1 is Err,
        (0 < c.stable_check_interval_bits && c.stable_check_interval_bits
            <= 0x7ff0_0000_0000_0000u64) ==> validated(c, env_api_key).1 != Err::<(), ConfigError>(
            ConfigError::NonPositiveStableCheckInterval,
        ),
{
}

/// A non-blank `UNSPACE_API_KEY` takes the place of the configured key: it
/// is never missing, and an accepted configuration carries it, trimmed.
pub proof fn lemma_environment_key_wins(c: ConfigView, env_api_key: Seq<char>)
    requires
        trim(env_api_key).len() > 0,
    ensures
        validated(c, env_api_key).1 != Err::<(), ConfigError>(ConfigError::MissingApiKey),
        validated(c, env_api_key).1 is Ok ==> validated(c, env_api_key).0.api_key == trim(
            env_api_key,
        ),
{
    crate::text::lemma_trim_ends(env_api_key);
    lemma_trim_unchanged(trim(env_api_key));
}

/// Loading a version-1 file that reads into the schema gives what validating
/// that configuration with the same `UNSPACE_API_KEY` gives.
pub proof fn lemma_load_is_validation(
    c: ConfigView,
    env_api_key: Seq<char>,
    r: Result<ConfigView, ConfigError>,
)
    requires
        loads_as(Ok(Some(1u64)), Ok(c), env_api_key, r),
    ensures
        (r is Ok) == (validated(c, env_api_key).1 is Ok),
        r matches Ok(loaded) ==> loaded == validated(c, env_api_key).0,
        r matches Err(e) ==> validated(c, env_api_key).1 == Err::<(), ConfigError>(e),
        trim(env_api_key).len() > 0 ==> (r matches Ok(loaded) ==> loaded.api_key == trim(env_api_key)),
{
    if trim(env_api_key).len() > 0 {
        lemma_environment_key_wins(c, env_api_key);
    }
}

/// What validation accepts: version 1; an API base URL that is the given
/// one without its trailing slashes, not empty and not ending in a slash;
/// non-blank yard and dock identities; an API key that starts with `ysk_`
/// (the given one, or the trimmed `UNSPACE_API_KEY` when that is not blank);
/// positive counts and intervals; a stable check interval that does not
/// compare `<= 0.0`; and at least one watch extension, each starting with a
/// dot. Every other field is left as it was.
pub proof fn lemma_validated_config_is_well_formed(c: ConfigView, env_api_key: Seq<char>)
    requires
        validated(c, env_api_key).1 is Ok,
    ensures
        ({
            let v = validated(c, env_api_key).0;
            &&& v.config_version == 1
            &&& v.api_base_url.len() > 0
            &&& v.api_base_url.last() != '/'
            &&& v.api_base_url.len() <= c.api_base_url.len()
            &&& v.api_base_url == c.api_base_url.take(v.api_base_url.len() as int)
            &&& forall|i: int| v.api_base_url.len() <= i < c.api_base_url.len() ==> #[trigger] c.api_base_url[i] == '/'
            &&& trim(v.yard_id).len() > 0
            &&& trim(v.dock_id).len() > 0
            &&& v.api_key.len() >= 4 && v.api_key.take(4) == "ysk_"@
            &&& trim(env_api_key).len() == 0 ==> v.api_key == c.api_key
            &&& trim(env_api_key).len() > 0 ==> v.api_key == trim(env_api_key)
            &&& v.stable_required_checks > 0
            &&& v.poll_interval_secs > 0
            &&& v.heartbeat_interval_secs > 0
            &&& v.heartbeat_max_age_secs > 0
            &&& !(v.stable_check_interval_bits == 0 || (0x8000_0000_0000_0000u64
                <= v.stable_check_interval_bits && v.stable_check_interval_bits
                <= 0xfff0_0000_0000_0000u64))
            &&& v.watch_extensions.len() > 0
            &&& forall|i: int| 0 <= i < v.watch_extensions.len() ==> (#[trigger] v.watch_extensions[i]).len() > 0
                && v.watch_extensions[i][0] == '.'
            &&& v == ConfigView {
                api_base_url: v.api_base_url,
                api_key: v.api_key,
                watch_extensions: v.watch_extensions,
                ..c
            }
        }),
{
    reveal_strlit("ysk_");
    lemma_trim_end_char_idempotent(c.api_base_url, '/');
    lemma_trim_end_char_prefix(c.api_base_url, '/');
    if trim(env_api_key).len() > 0 {
        lemma_environment_key_wins(c, env_api_key);
    }
    let v = validated(c, env_api_key).0;
    assert(v.api_key.take(4) == "ysk_"@);
    let c1 = ConfigView { api_base_url: trim_end_char(c.api_base_url, '/'), ..c };
    let c2 = if trim(env_api_key).len() > 0 {
        ConfigView { api_key: trim(env_api_key), ..c1 }
    } else {
        c1
    };
    lemma_normalized_are_normal(c2.watch_extensions);
    assert forall|i: int| 0 <= i < v.watch_extensions.len() implies (#[trigger] v.watch_extensions[i]).len() > 0
        && v.watch_extensions[i][0] == '.' by {
        let e = v.watch_extensions[i];
        assert(is_normal_extension(e));
        assert(normalize_extension(e)[0] == '.');
    }
}

/// Validation accepts every configuration that meets its conditions, stated
/// without reference to how it checks them: version 1, a base URL with a
/// character other than `/`, yard and dock identities with a character that
/// is not white space, a key starting with `ysk_` (from a non-blank
/// `UNSPACE_API_KEY`, trimmed, or else the configured one), positive counts
/// and intervals, a stable check interval that does not compare `<= 0.0`,
/// and an extension with a character that is not white space.
pub proof fn lemma_validate_accepts_well_formed(
    c: ConfigView,
    env_api_key: Seq<char>,
    base_i: int,
    yard_i: int,
    dock_i: int,
    ext_i: int,
    ext_j: int,
)
    requires
        c.config_version == 1,
        0 <= base_i < c.api_base_url.len() && c.api_base_url[base_i] != '/',
        0 <= yard_i < c.yard_id.len() && !is_white_space(c.yard_id[yard_i]),
        0 <= dock_i < c.dock_id.len() && !is_white_space(c.dock_id[dock_i]),
        trim(env_api_key).len() > 0 ==> trim(env_api_key).len() >= 4 && trim(env_api_key).take(4)
            == "ysk_"@,
        trim(env_api_key).len() == 0 ==> c.api_key.len() >= 4 && c.api_key.take(4) == "ysk_"@,
        c.stable_required_checks > 0,
        c.poll_interval_secs > 0,
        c.heartbeat_interval_secs > 0,
        c.heartbeat_max_age_secs > 0,
        !(c.stable_check_interval_bits == 0 || (0x8000_0000_0000_0000u64
            <= c.stable_check_interval_bits && c.stable_check_interval_bits
            <= 0xfff0_0000_0000_0000u64)),
        0 <= ext_i < c.watch_extensions.len(),
        0 <= ext_j < c.watch_extensions[ext_i].len(),
        !is_white_space(c.watch_extensions[ext_i][ext_j]),
    ensures
        validated(c, env_api_key).1 is Ok,
{
    reveal_strlit("ysk_");
    lemma_trim_end_char_prefix(c.api_base_url, '/');
    lemma_trim_keeps_content(c.yard_id, yard_i);
    lemma_trim_keeps_content(c.dock_id, dock_i);
    let key = if trim(env_api_key).len() > 0 {
        trim(env_api_key)
    } else {
        c.api_key
    };
    assert(key[0] == "ysk_"@[0]);
    lemma_trim_keeps_content(key, 0);
    lemma_normalized_nonempty(c.watch_extensions, ext_i, ext_j);
}

proof fn lemma_normalized_nonempty(values: Seq<Seq<char>>, i: int, j: int)
    requires
        0 <= i < values.len(),
        0 <= j < values[i].len(),
        !is_white_space(values[i][j]),
    ensures
        normalized_extensions(values).len() > 0,
    decreases values.len(),
{
    if i == values.len() - 1 {
        lemma_trim_keeps_content(values.last(), j);
    } else {
        assert(values.drop_last()[i] == values[i]);
        lemma_normalized_nonempty(values.drop_last(), i, j);
    }
}

/// What `config show` prints in place of the key never reveals it: nothing
/// when there is no key, `<redacted>` otherwise.
pub proof fn lemma_redaction_hides_key(key: Seq<char>)
    ensures
        key.len() == 0 ==> redacted_key(key).len() == 0,
        key.len() > 0 ==> redacted_key(key) == "<redacted>"@,
{
}

/// A key that is not one of the settings is refused as unsupported.
pub proof fn lemma_unknown_key_refused(c: ConfigView, key: Seq<char>, value: Seq<char>, float_bits: Option<u64>)
    requires
        key.len() > 0 ==> key[0] != 'a' && key[0] != 'y' && key[0] != 'd' && key[0] != 'w'
            && key[0] != 's' && key[0] != 'm' && key[0] != 'p' && key[0] != 'h' && key[0] != 'l'
            && key[0] != 'c',
    ensures
        applied(c, key, value, float_bits) == Err::<ConfigView, Option<ConfigError>>(None),
{
    lemma_setting_name_texts();
}

/// What `config set` writes back is accepted by validation as it is, so the
/// next load (with the same `UNSPACE_API_KEY`) gives the same configuration;
/// and it holds the setting as applied, then validated.
pub proof fn lemma_config_set_result_reloads(
    c: ConfigView,
    key: Seq<char>,
    value: Seq<char>,
    float_bits: Option<u64>,
    env_api_key: Seq<char>,
    r: Result<ConfigView, ConfigError>,
)
    requires
        sets_as(c, key, value, float_bits, env_api_key, r),
    ensures
        r matches Ok(written) ==> validated(written, env_api_key) == (
            written,
            Ok::<(), ConfigError>(()),
        ),
        r matches Ok(written) ==> applied(c, key, value, float_bits) matches Ok(c1) && written
            == validated(c1, env_api_key).0 && validated(c1, env_api_key).1 is Ok,
{
    if let Ok(c1) = applied(c, key, value, float_bits) {
        if validated(c1, env_api_key).1 is Ok {
            lemma_validate_idempotent(c1, env_api_key);
        }
    }
}

/// Every normalized extension is a dot followed by text without ASCII
/// upper-case letters.
pub proof fn lemma_normalized_extensions_are_lower_case(values: Seq<Seq<char>>)
    ensures
        forall|i: int, j: int|
            0 <= i < normalized_extensions(values).len() && 0 <= j < normalized_extensions(
                values,
            )[i].len() ==> !('A' <= #[trigger] normalized_extensions(values)[i][j] && normalized_extensions(values)[i][j] <= 'Z'),
{
    lemma_normalized_are_normal(values);
    let n = normalized_extensions(values);
    assert forall|i: int, j: int| 0 <= i < n.len() && 0 <= j < n[i].len() implies !('A' <= #[trigger] n[i][j] && n[i][j] <= 'Z') by {
        let e = n[i];
        assert(is_normal_extension(e));
        let body = lower(trim_start_char(e, '.'));
        assert(normalize_extension(e) == seq!['.'] + body);
        if j > 0 {
            assert(e[j] == body[j - 1]);
        }
    }
}

} // verus!
