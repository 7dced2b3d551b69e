//! Settings, read from the command line.
use crate::text::{parse_u64, parsed_u64, same_text, trim, trimmed};
use vstd::prelude::*;

verus! {

pub const DEFAULT_LISTEN: &'static str = "127.0.0.1:18039";

pub const DEFAULT_ADMIN_LISTEN: &'static str = "127.0.0.1:18040";

pub const DEFAULT_UPSTREAM_BASE_URL: &'static str = "https://chatgpt.com/backend-api/codex";

pub const DEFAULT_STREAM_TIMEOUT_SECONDS: u64 = 600;

pub const DEFAULT_REFRESH_SKEW_SECONDS: i64 = 8;

pub const DEFAULT_ACCOUNTS_SCAN_INTERVAL_SECONDS: u64 = 15;

pub const DEFAULT_CODEX_VERSION: &'static str = "0.118.0";

pub const DEFAULT_SHUTDOWN_GRACE_PERIOD_SECONDS: u64 = 10;

pub const DEFAULT_ACCOUNTS_DIR_NAME: &'static str = ".codaze";

/// How an account is picked among those that can take a request.
#[derive(Debug, Clone, Copy, PartialEq, Eq, Structural)]
pub enum RoutingPolicy {
    RoundRobin,
    LeastInFlight,
    FillFirst,
}

/// Whether requests are made to look like those of one client.
#[derive(Debug, Clone, Copy, PartialEq, Eq, Structural)]
pub enum FingerprintMode {
    Normalize,
    Passthrough,
}

/// Why the settings could not be read.
#[derive(Debug, Clone, PartialEq, Eq)]
pub enum ConfigError {
    /// The usage text was asked for.
    Help,
    MissingValue { flag: String },
    UnsupportedPolicy { value: String },
    UnsupportedMode { value: String },
    InvalidGracePeriod { value: String },
    UnknownArgument { argument: String },
    EmptyCodexVersion,
    SameAddresses,
    MissingHome,
    MissingWindowsHome,
}

/// The model of such an error.
pub enum ConfigProblem {
    Help,
    MissingValue(Seq<char>),
    UnsupportedPolicy(Seq<char>),
    UnsupportedMode(Seq<char>),
    InvalidGracePeriod(Seq<char>),
    UnknownArgument(Seq<char>),
    EmptyCodexVersion,
    SameAddresses,
    MissingHome,
    MissingWindowsHome,
}

impl View for ConfigError {
    type V = ConfigProblem;

    open spec fn view(&self) -> ConfigProblem {
        match *self {
            ConfigError::Help => ConfigProblem::Help,
            ConfigError::MissingValue { flag } => ConfigProblem::MissingValue(flag@),
            ConfigError::UnsupportedPolicy { value } => ConfigProblem::UnsupportedPolicy(value@),
            ConfigError::UnsupportedMode { value } => ConfigProblem::UnsupportedMode(value@),
            ConfigError::InvalidGracePeriod { value } => ConfigProblem::InvalidGracePeriod(value@),
            ConfigError::UnknownArgument { argument } => ConfigProblem::UnknownArgument(argument@),
            ConfigError::EmptyCodexVersion => ConfigProblem::EmptyCodexVersion,
            ConfigError::SameAddresses => ConfigProblem::SameAddresses,
            ConfigError::MissingHome => ConfigProblem::MissingHome,
            ConfigError::MissingWindowsHome => ConfigProblem::MissingWindowsHome,
        }
    }
}

/// What is shown of an error.
pub open spec fn problem_text(problem: ConfigProblem) -> Seq<char> {
    match problem {
        ConfigProblem::Help => "help requested"@,
        ConfigProblem::MissingValue(flag) => "missing value after "@ + flag,
        ConfigProblem::UnsupportedPolicy(value) => "unsupported routing policy `"@ + value
            + "`; expected one of: round_robin, least_in_flight, fill_first"@,
        ConfigProblem::UnsupportedMode(value) => "unsupported fingerprint mode `"@ + value
            + "`; expected one of: normalize, passthrough"@,
        ConfigProblem::InvalidGracePeriod(value) =>
            "invalid value for --shutdown-grace-period-seconds: `"@ + value + "`"@,
        ConfigProblem::UnknownArgument(argument) => "unknown argument `"@ + argument + "`"@,
        ConfigProblem::EmptyCodexVersion => "--codex-version must not be empty"@,
        ConfigProblem::SameAddresses => "--listen and --admin-listen must be different addresses"@,
        ConfigProblem::MissingHome =>
            "HOME is not set or empty and --accounts-dir was not provided"@,
        ConfigProblem::MissingWindowsHome =>
            "USERPROFILE/HOMEDRIVE/HOMEPATH are not set or are empty and --accounts-dir was not provided"@,
    }
}

fn quoted(before: &str, value: &str, after: &str) -> (text: String)
    ensures
        text@ == before@ + value@ + after@,
{
    let mut text: String = before.to_owned();
    text.append(value);
    text.append(after);
    text
}

impl ConfigError {
    /// What is shown of this error.
    pub fn message(&self) -> (text: String)
        ensures
            text@ == problem_text(self@),
    {
        match self {
            ConfigError::Help => "help requested".to_owned(),
            ConfigError::MissingValue { flag } => {
                let mut text: String = "missing value after ".to_owned();
                text.append(flag.as_str());
                text
            },
            ConfigError::UnsupportedPolicy { value } => quoted(
                "unsupported routing policy `",
                value.as_str(),
                "`; expected one of: round_robin, least_in_flight, fill_first",
            ),
            ConfigError::UnsupportedMode { value } => quoted(
                "unsupported fingerprint mode `",
                value.as_str(),
                "`; expected one of: normalize, passthrough",
            ),
            ConfigError::InvalidGracePeriod { value } => quoted(
                "invalid value for --shutdown-grace-period-seconds: `",
                value.as_str(),
                "`",
            ),
            ConfigError::UnknownArgument { argument } => quoted(
                "unknown argument `",
                argument.as_str(),
                "`",
            ),
            ConfigError::EmptyCodexVersion => "--codex-version must not be empty".to_owned(),
            ConfigError::SameAddresses =>
                "--listen and --admin-listen must be different addresses".to_owned(),
            ConfigError::MissingHome =>
                "HOME is not set or empty and --accounts-dir was not provided".to_owned(),
            ConfigError::MissingWindowsHome =>
                "USERPROFILE/HOMEDRIVE/HOMEPATH are not set or are empty and --accounts-dir was not provided".to_owned(),
        }
    }
}

/// The name of a policy.
pub open spec fn policy_name(policy: RoutingPolicy) -> Seq<char> {
    match policy {
        RoutingPolicy::RoundRobin => "round_robin"@,
        RoutingPolicy::LeastInFlight => "least_in_flight"@,
        RoutingPolicy::FillFirst => "fill_first"@,
    }
}

/// The policy of a name.
pub open spec fn policy_named(name: Seq<char>) -> Option<RoutingPolicy> {
    if name == "round_robin"@ {
        Some(RoutingPolicy::RoundRobin)
    } else if name == "least_in_flight"@ {
        Some(RoutingPolicy::LeastInFlight)
    } else if name == "fill_first"@ {
        Some(RoutingPolicy::FillFirst)
    } else {
        None
    }
}

/// A policy is found again under its name.
pub proof fn policy_name_round_trip(policy: RoutingPolicy)
    ensures
        policy_named(policy_name(policy)) == Some(policy),
{
    reveal_strlit("round_robin");
    reveal_strlit("least_in_flight");
    reveal_strlit("fill_first");
    assert("round_robin"@.len() != "least_in_flight"@.len());
    assert("round_robin"@.len() != "fill_first"@.len());
    assert("least_in_flight"@.len() != "fill_first"@.len());
}

/// The name of a mode.
pub open spec fn mode_name(mode: FingerprintMode) -> Seq<char> {
    match mode {
        FingerprintMode::Normalize => "normalize"@,
        FingerprintMode::Passthrough => "passthrough"@,
    }
}

/// The mode of a name.
pub open spec fn mode_named(name: Seq<char>) -> Option<FingerprintMode> {
    if name == "normalize"@ {
        Some(FingerprintMode::Normalize)
    } else if name == "passthrough"@ {
        Some(FingerprintMode::Passthrough)
    } else {
        None
    }
}

/// A mode is found again under its name.
pub proof fn mode_name_round_trip(mode: FingerprintMode)
    ensures
        mode_named(mode_name(mode)) == Some(mode),
{
    reveal_strlit("normalize");
    reveal_strlit("passthrough");
    assert("normalize"@.len() != "passthrough"@.len());
}

impl RoutingPolicy {
    /// The policy of a name; any other name is an error.
    pub fn parse(raw: &str) -> (policy: Result<RoutingPolicy, ConfigError>)
        ensures
            match policy {
                Ok(policy) => policy_named(raw@) == Some(policy),
                Err(error) => policy_named(raw@) is None && error@
                    == ConfigProblem::UnsupportedPolicy(raw@),
            },
    {
        if same_text(raw, "round_robin") {
            Ok(RoutingPolicy::RoundRobin)
        } else if same_text(raw, "least_in_flight") {
            Ok(RoutingPolicy::LeastInFlight)
        } else if same_text(raw, "fill_first") {
            Ok(RoutingPolicy::FillFirst)
        } else {
            Err(ConfigError::UnsupportedPolicy { value: raw.to_owned() })
        }
    }

    /// The name of a policy.
    pub fn as_str(self) -> (name: &'static str)
        ensures
            name@ == policy_name(self),
    {
        match self {
            RoutingPolicy::RoundRobin => "round_robin",
            RoutingPolicy::LeastInFlight => "least_in_flight",
            RoutingPolicy::FillFirst => "fill_first",
        }
    }
}

impl FingerprintMode {
    /// The mode of a name; any other name is an error.
    pub fn parse(raw: &str) -> (mode: Result<FingerprintMode, ConfigError>)
        ensures
            match mode {
                Ok(mode) => mode_named(raw@) == Some(mode),
                Err(error) => mode_named(raw@) is None && error@ == ConfigProblem::UnsupportedMode(
                    raw@,
                ),
            },
    {
        if same_text(raw, "normalize") {
            Ok(FingerprintMode::Normalize)
        } else if same_text(raw, "passthrough") {
            Ok(FingerprintMode::Passthrough)
        } else {
            Err(ConfigError::UnsupportedMode { value: raw.to_owned() })
        }
    }

    /// The name of a mode.
    pub fn as_str(self) -> (name: &'static str)
        ensures
            name@ == mode_name(self),
    {
        match self {
            FingerprintMode::Normalize => "normalize",
            FingerprintMode::Passthrough => "passthrough",
        }
    }
}

/// Where the account files are: a path as it was given, or a name in the home directory.
#[derive(Debug, Clone, PartialEq, Eq)]
pub enum AccountsDir {
    Given(String),
    InHome { home: String, name: String },
}

/// The model of such a place.
pub enum Place {
    Given(Seq<char>),
    InHome(Seq<char>, Seq<char>),
}

impl View for AccountsDir {
    type V = Place;

    open spec fn view(&self) -> Place {
        match *self {
            AccountsDir::Given(path) => Place::Given(path@),
            AccountsDir::InHome { home, name } => Place::InHome(home@, name@),
        }
    }
}

/// The settings of the gateway.
#[derive(Debug, Clone)]
pub struct RuntimeConfig {
    pub listen: String,
    pub admin_listen: String,
    pub accounts_dir: AccountsDir,
    pub routing_policy: RoutingPolicy,
    pub fingerprint_mode: FingerprintMode,
    pub upstream_base_url: String,
    pub codex_version: String,
    pub stream_timeout_seconds: u64,
    pub refresh_skew_seconds: i64,
    pub accounts_scan_interval_seconds: u64,
    pub shutdown_grace_period_seconds: u64,
}

/// What the arguments set.
pub struct Settings {
    pub listen: Seq<char>,
    pub admin_listen: Seq<char>,
    pub accounts_dir: Option<Seq<char>>,
    pub routing_policy: RoutingPolicy,
    pub fingerprint_mode: FingerprintMode,
    pub codex_version: Seq<char>,
    pub grace: u64,
}

/// What holds without arguments.
pub open spec fn default_settings() -> Settings {
    Settings {
        listen: DEFAULT_LISTEN@,
        admin_listen: DEFAULT_ADMIN_LISTEN@,
        accounts_dir: None,
        routing_policy: RoutingPolicy::LeastInFlight,
        fingerprint_mode: FingerprintMode::Normalize,
        codex_version: DEFAULT_CODEX_VERSION@,
        grace: DEFAULT_SHUTDOWN_GRACE_PERIOD_SECONDS,
    }
}

/// Is this an argument that a value follows?
pub open spec fn takes_value(argument: Seq<char>) -> bool {
    argument == "--listen"@ || argument == "--admin-listen"@ || argument == "--accounts-dir"@
        || argument == "--routing-policy"@ || argument == "--fingerprint-mode"@ || argument
        == "--codex-version"@ || argument == "--shutdown-grace-period-seconds"@
}

/// The settings after one argument and its value.
pub open spec fn with_argument(
    settings: Settings,
    argument: Seq<char>,
    value: Seq<char>,
) -> Result<Settings, ConfigProblem> {
    if argument == "--listen"@ {
        Ok(Settings { listen: value, ..settings })
    } else if argument == "--admin-listen"@ {
        Ok(Settings { admin_listen: value, ..settings })
    } else if argument == "--accounts-dir"@ {
        Ok(Settings { accounts_dir: Some(value), ..settings })
    } else if argument == "--routing-policy"@ {
        match policy_named(value) {
            Some(policy) => Ok(Settings { routing_policy: policy, ..settings }),
            None => Err(ConfigProblem::UnsupportedPolicy(value)),
        }
    } else if argument == "--fingerprint-mode"@ {
        match mode_named(value) {
            Some(mode) => Ok(Settings { fingerprint_mode: mode, ..settings }),
            None => Err(ConfigProblem::UnsupportedMode(value)),
        }
    } else if argument == "--codex-version"@ {
        Ok(Settings { codex_version: value, ..settings })
    } else {
        match parsed_u64(value) {
            Some(grace) => Ok(Settings { grace, ..settings }),
            None => Err(ConfigProblem::InvalidGracePeriod(value)),
        }
    }
}

/// The settings after all arguments; the first that cannot be taken decides the error.
pub open spec fn with_arguments(settings: Settings, args: Seq<String>) -> Result<
    Settings,
    ConfigProblem,
>
    decreases args.len(),
{
    if args.len() == 0 {
        Ok(settings)
    } else if takes_value(args[0]@) {
        if args.len() == 1 {
            Err(ConfigProblem::MissingValue(args[0]@))
        } else {
            match with_argument(settings, args[0]@, args[1]@) {
                Ok(next) => with_arguments(next, args.skip(2)),
                Err(problem) => Err(problem),
            }
        }
    } else if args[0]@ == "--help"@ || args[0]@ == "-h"@ {
        Err(ConfigProblem::Help)
    } else {
        Err(ConfigProblem::UnknownArgument(args[0]@))
    }
}

/// A variable of the environment that is set and not empty.
pub open spec fn non_empty(value: Option<Seq<char>>) -> Option<Seq<char>> {
    match value {
        Some(text) => if text.len() == 0 {
            None
        } else {
            value
        },
        None => None,
    }
}

/// The characters of an optional text.
pub open spec fn text_view(text: Option<String>) -> Option<Seq<char>> {
    match text {
        Some(text) => Some(text@),
        None => None,
    }
}

/// The home directory on Windows.
pub open spec fn windows_home(
    userprofile: Option<Seq<char>>,
    homedrive: Option<Seq<char>>,
    homepath: Option<Seq<char>>,
) -> Option<Seq<char>> {
    match non_empty(userprofile) {
        Some(home) => Some(home),
        None => match (non_empty(homedrive), non_empty(homepath)) {
            (Some(drive), Some(path)) => Some(drive + path),
            _ => None,
        },
    }
}

/// The home directory.
pub open spec fn home_dir(
    is_windows: bool,
    home: Option<Seq<char>>,
    userprofile: Option<Seq<char>>,
    homedrive: Option<Seq<char>>,
    homepath: Option<Seq<char>>,
) -> Result<Seq<char>, ConfigProblem> {
    if is_windows {
        match windows_home(userprofile, homedrive, homepath) {
            Some(home) => Ok(home),
            None => Err(ConfigProblem::MissingWindowsHome),
        }
    } else {
        match non_empty(home) {
            Some(home) => Ok(home),
            None => Err(ConfigProblem::MissingHome),
        }
    }
}

fn non_empty_text(value: Option<String>) -> (text: Option<String>)
    ensures
        text_view(text) == non_empty(text_view(value)),
{
    match value {
        Some(text) => if text.as_str().is_empty() {
            None
        } else {
            Some(text)
        },
        None => None,
    }
}

/// The home directory on Windows: the profile's, or drive and path put together.
pub fn windows_home_dir(
    userprofile: Option<String>,
    homedrive: Option<String>,
    homepath: Option<String>,
) -> (home: Option<String>)
    ensures
        text_view(home) == windows_home(
            text_view(userprofile),
            text_view(homedrive),
            text_view(homepath),
        ),
{
    if let Some(home) = non_empty_text(userprofile) {
        return Some(home);
    }
    match (non_empty_text(homedrive), non_empty_text(homepath)) {
        (Some(drive), Some(path)) => {
            let mut combined: String = drive;
            combined.append(path.as_str());
            Some(combined)
        },
        _ => None,
    }
}

/// Where the account files are if no argument says so.
pub fn default_accounts_dir_with_env(
    is_windows: bool,
    home: Option<String>,
    userprofile: Option<String>,
    homedrive: Option<String>,
    homepath: Option<String>,
) -> (dir: Result<AccountsDir, ConfigError>)
    ensures
        match dir {
            Ok(dir) => home_dir(
                is_windows,
                text_view(home),
                text_view(userprofile),
                text_view(homedrive),
                text_view(homepath),
            ) matches Ok(home) && dir@ == Place::InHome(home, DEFAULT_ACCOUNTS_DIR_NAME@),
            Err(error) => home_dir(
                is_windows,
                text_view(home),
                text_view(userprofile),
                text_view(homedrive),
                text_view(homepath),
            ) == Err::<Seq<char>, ConfigProblem>(error@),
        },
{
    let found: Option<String> = if is_windows {
        windows_home_dir(userprofile, homedrive, homepath)
    } else {
        non_empty_text(home)
    };
    match found {
        Some(home) => Ok(
            AccountsDir::InHome { home, name: DEFAULT_ACCOUNTS_DIR_NAME.to_owned() },
        ),
        None => if is_windows {
            Err(ConfigError::MissingWindowsHome)
        } else {
            Err(ConfigError::MissingHome)
        },
    }
}

/// The word that stands for the accounts directory where there is no home.
pub fn default_accounts_dir_fallback_text() -> (text: String)
    ensures
        text@ == DEFAULT_ACCOUNTS_DIR_NAME@
            + " under the platform home dir (or pass --accounts-dir)"@,
{
    let mut text: String = DEFAULT_ACCOUNTS_DIR_NAME.to_owned();
    text.append(" under the platform home dir (or pass --accounts-dir)");
    text
}

/// What the arguments and the home directory make of the settings.
pub open spec fn configured(
    args: Seq<String>,
    home: Result<Seq<char>, ConfigProblem>,
) -> Result<(Settings, Place), ConfigProblem> {
    match with_arguments(default_settings(), args) {
        Err(problem) => Err(problem),
        Ok(settings) => if trimmed(settings.codex_version).len() == 0 {
            Err(ConfigProblem::EmptyCodexVersion)
        } else if settings.listen == settings.admin_listen {
            Err(ConfigProblem::SameAddresses)
        } else {
            match settings.accounts_dir {
                Some(path) => Ok((settings, Place::Given(path))),
                None => match home {
                    Ok(home) => Ok((settings, Place::InHome(home, DEFAULT_ACCOUNTS_DIR_NAME@))),
                    Err(problem) => Err(problem),
                },
            }
        },
    }
}

/// Does a configuration hold these settings, and the fixed ones?
pub open spec fn holds_settings(config: RuntimeConfig, settings: Settings, place: Place) -> bool {
    &&& config.listen@ == settings.listen
    &&& config.admin_listen@ == settings.admin_listen
    &&& config.accounts_dir@ == place
    &&& config.routing_policy == settings.routing_policy
    &&& config.fingerprint_mode == settings.fingerprint_mode
    &&& config.upstream_base_url@ == DEFAULT_UPSTREAM_BASE_URL@
    &&& config.codex_version@ == settings.codex_version
    &&& config.stream_timeout_seconds == DEFAULT_STREAM_TIMEOUT_SECONDS
    &&& config.refresh_skew_seconds == DEFAULT_REFRESH_SKEW_SECONDS
    &&& config.accounts_scan_interval_seconds == DEFAULT_ACCOUNTS_SCAN_INTERVAL_SECONDS
    &&& config.shutdown_grace_period_seconds == settings.grace
}

impl RuntimeConfig {
    /// The settings that the arguments and the environment stand for.
    pub fn from_args_with_home_env(
        args: &Vec<String>,
        is_windows: bool,
        home: Option<String>,
        userprofile: Option<String>,
        homedrive: Option<String>,
        homepath: Option<String>,
    ) -> (result: Result<RuntimeConfig, ConfigError>)
        ensures
            match result {
                Ok(config) => configured(
                    args@,
                    home_dir(
                        is_windows,
                        text_view(home),
                        text_view(userprofile),
                        text_view(homedrive),
                        text_view(homepath),
                    ),
                ) matches Ok((settings, place)) && holds_settings(config, settings, place),
                Err(error) => configured(
                    args@,
                    home_dir(
                        is_windows,
                        text_view(home),
                        text_view(userprofile),
                        text_view(homedrive),
                        text_view(homepath),
                    ),
                ) == Err::<(Settings, Place), ConfigProblem>(error@),
            },
    {
        let mut listen: String = DEFAULT_LISTEN.to_owned();
        let mut admin_listen: String = DEFAULT_ADMIN_LISTEN.to_owned();
        let mut accounts_dir: Option<String> = None;
        let mut routing_policy: RoutingPolicy = RoutingPolicy::LeastInFlight;
        let mut fingerprint_mode: FingerprintMode = FingerprintMode::Normalize;
        let mut codex_version: String = DEFAULT_CODEX_VERSION.to_owned();
        let mut grace: u64 = DEFAULT_SHUTDOWN_GRACE_PERIOD_SECONDS;
        let mut i: usize = 0;
        assert(args@.skip(0) =~= args@);
        while i < args.len()
            invariant
                i <= args.len(),
                with_arguments(default_settings(), args@) == with_arguments(
                    (Settings {
                        listen: listen@,
                        admin_listen: admin_listen@,
                        accounts_dir: text_view(accounts_dir),
                        routing_policy,
                        fingerprint_mode,
                        codex_version: codex_version@,
                        grace,
                    }),
                    args@.skip(i as int),
                ),
            decreases args.len() - i,
        {
            let argument: &str = args[i].as_str();
            let known: bool = same_text(argument, "--listen") || same_text(
                argument,
                "--admin-listen",
            ) || same_text(argument, "--accounts-dir") || same_text(argument, "--routing-policy")
                || same_text(argument, "--fingerprint-mode") || same_text(
                argument,
                "--codex-version",
            ) || same_text(argument, "--shutdown-grace-period-seconds");
            if !known {
                if same_text(argument, "--help") || same_text(argument, "-h") {
                    return Err(ConfigError::Help);
                }
                return Err(ConfigError::UnknownArgument { argument: argument.to_owned() });
            }
            if i + 1 == args.len() {
                return Err(ConfigError::MissingValue { flag: argument.to_owned() });
            }
            let value: &String = &args[i + 1];
            assert(args@.skip(i as int)[1] == *value);
            assert(args@.skip(i as int).skip(2) =~= args@.skip(i + 2));
            if same_text(argument, "--listen") {
                listen = value.clone();
            } else if same_text(argument, "--admin-listen") {
                admin_listen = value.clone();
            } else if same_text(argument, "--accounts-dir") {
                accounts_dir = Some(value.clone());
            } else if same_text(argument, "--routing-policy") {
                match RoutingPolicy::parse(value.as_str()) {
                    Ok(policy) => {
                        routing_policy = policy;
                    },
                    Err(error) => {
                        return Err(error);
                    },
                }
            } else if same_text(argument, "--fingerprint-mode") {
                match FingerprintMode::parse(value.as_str()) {
                    Ok(mode) => {
                        fingerprint_mode = mode;
                    },
                    Err(error) => {
                        return Err(error);
                    },
                }
            } else if same_text(argument, "--codex-version") {
                codex_version = value.clone();
            } else {
                match parse_u64(value.as_str()) {
                    Some(seconds) => {
                        grace = seconds;
                    },
                    None => {
                        return Err(ConfigError::InvalidGracePeriod { value: value.clone() });
                    },
                }
            }
            i = i + 2;
        }
        assert(args@.skip(i as int).len() == 0);
        if trim(codex_version.as_str()).as_str().is_empty() {
            return Err(ConfigError::EmptyCodexVersion);
        }
        if same_text(listen.as_str(), admin_listen.as_str()) {
            return Err(ConfigError::SameAddresses);
        }
        let accounts_dir: AccountsDir = match accounts_dir {
            Some(path) => AccountsDir::Given(path),
            None => match default_accounts_dir_with_env(
                is_windows,
                home,
                userprofile,
                homedrive,
                homepath,
            ) {
                Ok(dir) => dir,
                Err(error) => {
                    return Err(error);
                },
            },
        };
        Ok(
            RuntimeConfig {
                listen,
                admin_listen,
                accounts_dir,
                routing_policy,
                fingerprint_mode,
                upstream_base_url: DEFAULT_UPSTREAM_BASE_URL.to_owned(),
                codex_version,
                stream_timeout_seconds: DEFAULT_STREAM_TIMEOUT_SECONDS,
                refresh_skew_seconds: DEFAULT_REFRESH_SKEW_SECONDS,
                accounts_scan_interval_seconds: DEFAULT_ACCOUNTS_SCAN_INTERVAL_SECONDS,
                shutdown_grace_period_seconds: grace,
            },
        )
    }
}

/// Where a listener is bound.
#[derive(Clone, Copy, Debug, PartialEq, Eq, Structural)]
pub enum ListenIp {
    /// The four parts of an address, the first one first.
    V4(u8, u8, u8, u8),
    /// An address as one number.
    V6(u128),
}

/// Is this an address of the machine itself?
pub open spec fn is_loopback(ip: ListenIp) -> bool {
    match ip {
        ListenIp::V4(first, _, _, _) => first == 127,
        ListenIp::V6(number) => number == 1,
    }
}

/// What is said of an address that others can reach.
pub open spec fn not_loopback_text(bind_addr: Seq<char>) -> Seq<char> {
    "codaze is local-only; bind to 127.0.0.1 or ::1, got `"@ + bind_addr + "`"@
}

/// Refuses to listen where others can reach it; `bind_addr` is the address as text.
pub fn ensure_loopback_listener(ip: ListenIp, bind_addr: &str) -> (result: Result<(), String>)
    ensures
        match result {
            Ok(_) => is_loopback(ip),
            Err(message) => !is_loopback(ip) && message@ == not_loopback_text(bind_addr@),
        },
{
    let own: bool = match ip {
        ListenIp::V4(first, _, _, _) => first == 127,
        ListenIp::V6(number) => number == 1,
    };
    if own {
        Ok(())
    } else {
        let mut message: String = "codaze is local-only; bind to 127.0.0.1 or ::1, got `".to_owned();
        message.append(bind_addr);
        message.append("`");
        Err(message)
    }
}

}
