//! The persisted configuration: its types and default values.
//!
//! Reading and writing the JSON file is I/O and lives with the application.

use vstd::prelude::*;

verus! {

#[verifier::external_type_specification]
#[verifier::external_body]
pub struct ExPathBuf(std::path::PathBuf);

/// The name of the configuration file in the application's directory.
pub const CONFIG_FILE: &'static str = "config.json";

/// The path that `std::path::Path::join` makes of the directory `dir` and
/// the relative name `name`, with the path syntax of the platform the
/// library is built for. `PathBuf` has no view, so the directory is taken
/// as the value itself.
pub uninterp spec fn spec_path_join(dir: std::path::PathBuf, name: Seq<char>) -> std::path::PathBuf;

/// Calls `std::path::Path::join`. The contract names the joined path as a
/// function of the directory and the name; how it is assembled (separator,
/// replacement by an absolute name) is not stated.
#[verifier::external_body]
fn path_join(dir: &std::path::PathBuf, name: &str) -> (res: std::path::PathBuf)
    ensures
        res == spec_path_join(*dir, name@),
{
    dir.join(name)
}

/// The path of the configuration file in `app_dir`: the directory joined
/// with the file name `config.json`.
pub fn config_path(app_dir: &std::path::PathBuf) -> (res: std::path::PathBuf)
    ensures
        res == spec_path_join(*app_dir, CONFIG_FILE@),
{
    path_join(app_dir, CONFIG_FILE)
}

/// Strategy used to consider IP detection a success across multiple providers.
#[derive(Debug, Clone, Copy, PartialEq, Eq, Structural)]
pub enum DetectStrategy {
    /// At least one provider returns an allowed IP (default).
    Any,
    /// Every configured provider must return an IP and they must all agree.
    All,
}

impl Default for DetectStrategy {
    fn default() -> (res: Self)
        ensures
            res == DetectStrategy::Any,
    {
        DetectStrategy::Any
    }
}

/// Action taken when the egress IP does not match the configured allow-list.
#[derive(Debug, Clone, Copy, PartialEq, Eq, Structural)]
pub enum KillMode {
    /// Show a confirmation dialog before killing.
    Confirm,
    /// Kill immediately without asking.
    Auto,
    /// Do nothing automatically; the user must trigger a kill from the UI.
    Manual,
}

impl Default for KillMode {
    fn default() -> (res: Self)
        ensures
            res == KillMode::Confirm,
    {
        KillMode::Confirm
    }
}

/// A web endpoint that answers with the caller's public IP.
#[derive(Debug)]
pub struct Provider {
    pub id: String,
    pub name: String,
    pub url: String,
    pub enabled: bool,
    /// Optional explicit regex to extract the IP from the body. Falls back to
    /// the built-in IPv4/IPv6 extractor when empty.
    pub extract_regex: Option<String>,
}

impl Clone for Provider {
    fn clone(&self) -> (res: Self)
        ensures
            res == *self,
    {
        Provider {
            id: self.id.clone(),
            name: self.name.clone(),
            url: self.url.clone(),
            enabled: self.enabled,
            extract_regex: match &self.extract_regex {
                Some(r) => Some(r.clone()),
                None => None,
            },
        }
    }
}

impl Provider {
    /// A provider is enabled unless the configuration says otherwise.
    pub fn default_enabled() -> (res: bool)
        ensures
            res,
    {
        true
    }
}

/// A process that is to be killed when the egress IP is not allowed.
#[derive(Debug)]
pub struct ProcessTarget {
    pub id: String,
    /// Friendly label shown in UI.
    pub label: String,
    /// Matched against the process name (e.g. "chrome.exe" or "node").
    /// Comparison is case-insensitive on Windows, case-sensitive elsewhere.
    pub name: String,
    pub enabled: bool,
}

impl Clone for ProcessTarget {
    fn clone(&self) -> (res: Self)
        ensures
            res == *self,
    {
        ProcessTarget {
            id: self.id.clone(),
            label: self.label.clone(),
            name: self.name.clone(),
            enabled: self.enabled,
        }
    }
}

impl ProcessTarget {
    /// A target is enabled unless the configuration says otherwise.
    pub fn default_enabled() -> (res: bool)
        ensures
            res,
    {
        true
    }
}

/// When detection runs on its own.
#[derive(Debug)]
pub enum DetectionSchedule {
    Disabled,
    Interval { seconds: u64 },
    Cron { expr: String },
}

impl Clone for DetectionSchedule {
    fn clone(&self) -> (res: Self)
        ensures
            res == *self,
    {
        match self {
            DetectionSchedule::Disabled => DetectionSchedule::Disabled,
            DetectionSchedule::Interval { seconds } => DetectionSchedule::Interval { seconds: *seconds },
            DetectionSchedule::Cron { expr } => DetectionSchedule::Cron { expr: expr.clone() },
        }
    }
}

impl Default for DetectionSchedule {
    fn default() -> (res: Self)
        ensures
            res == DetectionSchedule::Disabled,
    {
        DetectionSchedule::Disabled
    }
}

/// The whole persisted configuration.
#[derive(Debug)]
pub struct AppConfig {
    pub providers: Vec<Provider>,
    pub allowed_ips: Vec<String>,
    pub processes: Vec<ProcessTarget>,
    pub strategy: DetectStrategy,
    pub kill_mode: KillMode,
    pub retry: u32,
    pub request_timeout_ms: u64,
    pub schedule: DetectionSchedule,
    pub autostart: bool,
    pub minimize_to_tray: bool,
    pub close_to_tray: bool,
    pub confirm_exit: bool,
    pub log_level: String,
}

/// A copy of a list of providers.
pub fn clone_providers(v: &Vec<Provider>) -> (res: Vec<Provider>)
    ensures
        res@ == v@,
{
    let mut res: Vec<Provider> = Vec::new();
    for i in 0..v.len()
        invariant
            res@ == v@.take(i as int),
    {
        res.push(v[i].clone());
        assert(v@.take(i + 1) =~= v@.take(i as int).push(v@[i as int]));
    }
    assert(v@.take(v.len() as int) =~= v@);
    res
}

/// A copy of a list of process targets.
pub fn clone_targets(v: &Vec<ProcessTarget>) -> (res: Vec<ProcessTarget>)
    ensures
        res@ == v@,
{
    let mut res: Vec<ProcessTarget> = Vec::new();
    for i in 0..v.len()
        invariant
            res@ == v@.take(i as int),
    {
        res.push(v[i].clone());
        assert(v@.take(i + 1) =~= v@.take(i as int).push(v@[i as int]));
    }
    assert(v@.take(v.len() as int) =~= v@);
    res
}

/// A copy of a list of strings.
pub fn clone_strings(v: &Vec<String>) -> (res: Vec<String>)
    ensures
        res@ == v@,
{
    let mut res: Vec<String> = Vec::new();
    for i in 0..v.len()
        invariant
            res@ == v@.take(i as int),
    {
        res.push(v[i].clone());
        assert(v@.take(i + 1) =~= v@.take(i as int).push(v@[i as int]));
    }
    assert(v@.take(v.len() as int) =~= v@);
    res
}


impl AppConfig {
    /// Attempts per provider unless configured otherwise.
    pub fn default_retry() -> (res: u32)
        ensures
            res == 3,
    {
        3
    }

    /// Request timeout unless configured otherwise.
    pub fn default_timeout_ms() -> (res: u64)
        ensures
            res == 8000,
    {
        8_000
    }

    /// Launch at login is off unless configured otherwise.
    pub fn default_autostart() -> (res: bool)
        ensures
            !res,
    {
        false
    }

    /// Minimizing hides to the tray unless configured otherwise.
    pub fn default_minimize_to_tray() -> (res: bool)
        ensures
            res,
    {
        true
    }

    /// Closing the window hides it to the tray unless configured otherwise.
    pub fn default_close_to_tray() -> (res: bool)
        ensures
            res,
    {
        true
    }

    /// Exiting asks for confirmation unless configured otherwise.
    pub fn default_confirm_exit() -> (res: bool)
        ensures
            res,
    {
        true
    }

    /// The log filter unless configured otherwise.
    pub fn default_log_level() -> (res: String)
        ensures
            res@ == "info"@,
    {
        String::from_str("info")
    }
}

/// Whether `c` is a lower-case hexadecimal digit.
pub open spec fn is_lower_hex_digit(c: char) -> bool {
    ('0' <= c && c <= '9') || ('a' <= c && c <= 'f')
}

/// The hyphenated lower-case text of a version-4 UUID, such as
/// `67e55044-10b1-426f-9247-bb680e5fe0c8`.
pub open spec fn is_uuid_v4_text(s: Seq<char>) -> bool {
    &&& s.len() == 36
    &&& forall|i: int|
        0 <= i < 36 ==> if i == 8 || i == 13 || i == 18 || i == 23 {
            s[i] == '-'
        } else {
            is_lower_hex_digit(#[trigger] s[i])
        }
    &&& s[14] == '4'
}

/// Calls `uuid::Uuid::new_v4` and renders it with its `Display`
/// implementation (lower-case, hyphenated). The value is random: the
/// contract claims only the shape of the text, not which identifier
/// comes out, nor that two calls differ.
#[verifier::external_body]
fn new_uuid_v4() -> (res: String)
    ensures
        is_uuid_v4_text(res@),
{
    uuid::Uuid::new_v4().to_string()
}

/// A fresh random identifier for a configuration entry.
pub fn uuid_v4() -> (res: String)
    ensures
        is_uuid_v4_text(res@),
{
    new_uuid_v4()
}

/// A provider with the given name and URL, enabled, using the built-in
/// extractor.
fn builtin_provider(name: &str, url: &str) -> (res: Provider)
    ensures
        is_uuid_v4_text(res.id@),
        res.name@ == name@,
        res.url@ == url@,
        res.enabled,
        res.extract_regex is None,
{
    Provider {
        id: uuid_v4(),
        name: String::from_str(name),
        url: String::from_str(url),
        enabled: true,
        extract_regex: None,
    }
}

/// What the default configuration holds.
pub open spec fn is_default_config(cfg: AppConfig) -> bool {
    &&& cfg.providers@.len() == 3
    &&& cfg.providers@[0].name@ == "ipify"@
    &&& cfg.providers@[0].url@ == "https://api.ipify.org"@
    &&& cfg.providers@[1].name@ == "icanhazip"@
    &&& cfg.providers@[1].url@ == "https://ipv4.icanhazip.com"@
    &&& cfg.providers@[2].name@ == "ifconfig.me"@
    &&& cfg.providers@[2].url@ == "https://ifconfig.me/ip"@
    &&& forall|i: int|
        0 <= i < 3 ==> {
            &&& is_uuid_v4_text(#[trigger] cfg.providers@[i].id@)
            &&& cfg.providers@[i].enabled
            &&& cfg.providers@[i].extract_regex is None
        }
    &&& cfg.allowed_ips@.len() == 0
    &&& cfg.processes@.len() == 0
    &&& cfg.strategy == DetectStrategy::Any
    &&& cfg.kill_mode == KillMode::Confirm
    &&& cfg.retry == 3
    &&& cfg.request_timeout_ms == 8000
    &&& cfg.schedule == DetectionSchedule::Disabled
    &&& !cfg.autostart
    &&& cfg.minimize_to_tray
    &&& cfg.close_to_tray
    &&& cfg.confirm_exit
    &&& cfg.log_level@ == "info"@
}

impl Default for AppConfig {
    fn default() -> (res: Self)
        ensures
            is_default_config(res),
    {
        let mut providers: Vec<Provider> = Vec::new();
        providers.push(builtin_provider("ipify", "https://api.ipify.org"));
        providers.push(builtin_provider("icanhazip", "https://ipv4.icanhazip.com"));
        providers.push(builtin_provider("ifconfig.me", "https://ifconfig.me/ip"));
        AppConfig {
            providers,
            allowed_ips: Vec::new(),
            processes: Vec::new(),
            strategy: DetectStrategy::Any,
            kill_mode: KillMode::Confirm,
            retry: Self::default_retry(),
            request_timeout_ms: Self::default_timeout_ms(),
            schedule: DetectionSchedule::Disabled,
            autostart: false,
            minimize_to_tray: true,
            close_to_tray: true,
            confirm_exit: true,
            log_level: String::from_str("info"),
        }
    }
}

} // verus!
