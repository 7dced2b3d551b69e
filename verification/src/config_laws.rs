//! What holds of every configuration.
use crate::config::{
    configured, default_settings, holds_settings, home_dir, is_loopback, mode_name, mode_named,
    policy_name, policy_named, problem_text, with_arguments, ConfigProblem, FingerprintMode,
    ListenIp, Place, RoutingPolicy, RuntimeConfig, Settings,
};
use crate::text::{decimal, has_text, parsed_u64, trimmed};
use crate::text_laws::{found_texts_stand_somewhere, numbers_are_read_back};
use vstd::prelude::*;

verus! {

proof fn lemma_names()
    ensures
        "round_robin"@.len() == 11,
        "least_in_flight"@.len() == 15,
        "fill_first"@.len() == 10,
        "normalize"@.len() == 9,
        "passthrough"@.len() == 11,
{
    reveal_strlit("round_robin");
    reveal_strlit("least_in_flight");
    reveal_strlit("fill_first");
    reveal_strlit("normalize");
    reveal_strlit("passthrough");
}

/// Each policy and each mode is found by its name, and nothing is found by another text.
pub proof fn names_are_read_back(policy: RoutingPolicy, mode: FingerprintMode, name: Seq<char>)
    ensures
        policy_named(policy_name(policy)) == Some(policy),
        mode_named(mode_name(mode)) == Some(mode),
        policy_named(name) matches Some(found) ==> policy_name(found) == name,
        mode_named(name) matches Some(found) ==> mode_name(found) == name,
        policy_named("round_robin"@) == Some(RoutingPolicy::RoundRobin),
        policy_named("least_in_flight"@) == Some(RoutingPolicy::LeastInFlight),
        policy_named("fill_first"@) == Some(RoutingPolicy::FillFirst),
        mode_named("normalize"@) == Some(FingerprintMode::Normalize),
        mode_named("passthrough"@) == Some(FingerprintMode::Passthrough),
{
    lemma_names();
}

proof fn lemma_flags()
    ensures
        "--listen"@.len() == 8,
        "--admin-listen"@.len() == 14,
        "--accounts-dir"@.len() == 14,
        "--admin-listen"@[3] == 'd',
        "--accounts-dir"@[3] == 'c',
        "--routing-policy"@.len() == 16,
        "--fingerprint-mode"@.len() == 18,
        "--codex-version"@.len() == 15,
        "--shutdown-grace-period-seconds"@.len() == 31,
        "--help"@.len() == 6,
        "-h"@.len() == 2,
{
    reveal_strlit("--listen");
    reveal_strlit("--admin-listen");
    reveal_strlit("--accounts-dir");
    reveal_strlit("--routing-policy");
    reveal_strlit("--fingerprint-mode");
    reveal_strlit("--codex-version");
    reveal_strlit("--shutdown-grace-period-seconds");
    reveal_strlit("--help");
    reveal_strlit("-h");
}

/// Each flag sets what it is for, from the argument behind it, and nothing else. A value that cannot
/// be read is a problem of its own.
pub proof fn flags_set_what_they_are_for(settings: Settings, args: Seq<String>)
    requires
        args.len() >= 2,
    ensures
        ({
            let flag = args[0]@;
            let value = args[1]@;
            let rest = args.skip(2);
            let read = with_arguments(settings, args);
            let policy = policy_named(value);
            let mode = mode_named(value);
            let grace = parsed_u64(value);
            &&& flag == "--listen"@ ==> read == with_arguments(
                Settings { listen: value, ..settings },
                rest,
            )
            &&& flag == "--admin-listen"@ ==> read == with_arguments(
                Settings { admin_listen: value, ..settings },
                rest,
            )
            &&& flag == "--accounts-dir"@ ==> read == with_arguments(
                Settings { accounts_dir: Some(value), ..settings },
                rest,
            )
            &&& flag == "--codex-version"@ ==> read == with_arguments(
                Settings { codex_version: value, ..settings },
                rest,
            )
            &&& flag == "--routing-policy"@ && policy is Some ==> read == with_arguments(
                Settings { routing_policy: policy->0, ..settings },
                rest,
            )
            &&& flag == "--routing-policy"@ && policy is None ==> read == Err::<Settings, _>(
                ConfigProblem::UnsupportedPolicy(value),
            )
            &&& flag == "--fingerprint-mode"@ && mode is Some ==> read == with_arguments(
                Settings { fingerprint_mode: mode->0, ..settings },
                rest,
            )
            &&& flag == "--fingerprint-mode"@ && mode is None ==> read == Err::<Settings, _>(
                ConfigProblem::UnsupportedMode(value),
            )
            &&& flag == "--shutdown-grace-period-seconds"@ && grace is Some ==> read
                == with_arguments(Settings { grace: grace->0, ..settings }, rest)
            &&& flag == "--shutdown-grace-period-seconds"@ && grace is None ==> read == Err::<
                Settings,
                _,
            >(ConfigProblem::InvalidGracePeriod(value))
        }),
{
    lemma_flags();
}

/// A flag at the very end lacks its value, a call for help ends the reading, and any other argument
/// is not known.
pub proof fn other_arguments_are_refused(settings: Settings, args: Seq<String>)
    requires
        args.len() >= 1,
    ensures
        ({
            let first = args[0]@;
            let read = with_arguments(settings, args);
            let known = first == "--listen"@ || first == "--admin-listen"@ || first
                == "--accounts-dir"@ || first == "--routing-policy"@ || first
                == "--fingerprint-mode"@ || first == "--codex-version"@ || first
                == "--shutdown-grace-period-seconds"@;
            let helps = first == "--help"@ || first == "-h"@;
            &&& known && args.len() == 1 ==> read == Err::<Settings, _>(
                ConfigProblem::MissingValue(first),
            )
            &&& helps ==> read == Err::<Settings, _>(ConfigProblem::Help)
            &&& !known && !helps ==> read == Err::<Settings, _>(
                ConfigProblem::UnknownArgument(first),
            )
        }),
        with_arguments(settings, Seq::empty()) == Ok::<_, ConfigProblem>(settings),
{
    lemma_flags();
}

/// Is a flag nowhere among the arguments?
pub open spec fn absent(args: Seq<String>, flag: Seq<char>) -> bool {
    forall|i: int| 0 <= i < args.len() ==> (#[trigger] args[i])@ != flag
}

proof fn lemma_kept(settings: Settings, args: Seq<String>)
    ensures
        with_arguments(settings, args) matches Ok(read) ==> {
            &&& absent(args, "--listen"@) ==> read.listen == settings.listen
            &&& absent(args, "--admin-listen"@) ==> read.admin_listen == settings.admin_listen
            &&& absent(args, "--accounts-dir"@) ==> read.accounts_dir == settings.accounts_dir
            &&& absent(args, "--routing-policy"@) ==> read.routing_policy == settings.routing_policy
            &&& absent(args, "--fingerprint-mode"@) ==> read.fingerprint_mode
                == settings.fingerprint_mode
            &&& absent(args, "--codex-version"@) ==> read.codex_version == settings.codex_version
            &&& absent(args, "--shutdown-grace-period-seconds"@) ==> read.grace == settings.grace
        },
    decreases args.len(),
{
    if args.len() >= 2 && with_arguments(settings, args) is Ok {
        let rest = args.skip(2);
        assert forall|flag: Seq<char>| absent(args, flag) implies #[trigger] absent(rest, flag) by {
            assert forall|i: int| 0 <= i < rest.len() implies (#[trigger] rest[i])@ != flag by {
                assert(rest[i] == args[i + 2]);
            }
        }
        assert forall|flag: Seq<char>| #[trigger] absent(args, flag) implies args[0]@ != flag
            && absent(rest, flag) by {
            assert(absent(rest, flag));
        }
        let next = crate::config::with_argument(settings, args[0]@, args[1]@);
        lemma_kept(next->Ok_0, rest);
        lemma_flags();
    }
}

/// What no argument sets is as it is without any: the two local addresses, the account with the
/// fewest requests first, fingerprints normalized, ten seconds of grace, and the accounts in a
/// directory of their own under the home directory.
pub proof fn defaults_stand_where_no_flag_is(
    args: Seq<String>,
    home: Result<Seq<char>, ConfigProblem>,
)
    ensures
        configured(args, home) matches Ok((settings, place)) ==> {
            &&& absent(args, "--listen"@) ==> settings.listen == "127.0.0.1:18039"@
            &&& absent(args, "--admin-listen"@) ==> settings.admin_listen == "127.0.0.1:18040"@
            &&& absent(args, "--accounts-dir"@) ==> home is Ok && place == Place::InHome(
                home->Ok_0,
                ".codaze"@,
            )
            &&& absent(args, "--routing-policy"@) ==> settings.routing_policy
                == RoutingPolicy::LeastInFlight
            &&& absent(args, "--fingerprint-mode"@) ==> settings.fingerprint_mode
                == FingerprintMode::Normalize
            &&& absent(args, "--codex-version"@) ==> settings.codex_version == "0.118.0"@
            &&& absent(args, "--shutdown-grace-period-seconds"@) ==> settings.grace == 10
        },
{
    lemma_kept(default_settings(), args);
}

/// What a configuration never is: without a version, or with one address for both of its sides. The
/// home directory is asked for only where no other directory is given.
pub proof fn configurations_are_sound(args: Seq<String>, home: Result<Seq<char>, ConfigProblem>)
    ensures
        configured(args, home) matches Ok((settings, place)) ==> {
            &&& settings.listen != settings.admin_listen
            &&& trimmed(settings.codex_version).len() > 0
            &&& settings.accounts_dir is Some ==> place == Place::Given(settings.accounts_dir->0)
        },
        with_arguments(default_settings(), args) matches Err(problem) ==> configured(args, home)
            == Err::<(Settings, Place), _>(problem),
        with_arguments(default_settings(), args) matches Ok(settings) ==> {
            &&& trimmed(settings.codex_version).len() == 0 ==> configured(args, home) == Err::<
                (Settings, Place),
                _,
            >(ConfigProblem::EmptyCodexVersion)
            &&& trimmed(settings.codex_version).len() > 0 && settings.listen
                == settings.admin_listen ==> configured(args, home) == Err::<(Settings, Place), _>(
                ConfigProblem::SameAddresses,
            )
            &&& trimmed(settings.codex_version).len() > 0 && settings.listen
                != settings.admin_listen && settings.accounts_dir is Some ==> configured(args, home)
                is Ok
            &&& trimmed(settings.codex_version).len() > 0 && settings.listen
                != settings.admin_listen && settings.accounts_dir is None && home is Ok
                ==> configured(args, home) is Ok
        },
{
}

/// A configuration has the settings that were read, and what cannot be set: where the upstream is,
/// how long a stream may be silent, how early a token is refreshed, and how often files are looked
/// at.
pub proof fn fixed_settings_are_the_same_for_all(
    config: RuntimeConfig,
    settings: Settings,
    place: Place,
)
    requires
        holds_settings(config, settings, place),
    ensures
        config.listen@ == settings.listen,
        config.admin_listen@ == settings.admin_listen,
        config.accounts_dir@ == place,
        config.routing_policy == settings.routing_policy,
        config.fingerprint_mode == settings.fingerprint_mode,
        config.codex_version@ == settings.codex_version,
        config.shutdown_grace_period_seconds == settings.grace,
        config.upstream_base_url@ == "https://chatgpt.com/backend-api/codex"@,
        config.stream_timeout_seconds == 600,
        config.refresh_skew_seconds == 8,
        config.accounts_scan_interval_seconds == 15,
{
}

/// A home directory that is empty is none. On Windows the profile goes first, else the drive and the
/// path behind it, both of which are needed; elsewhere only `HOME` counts.
pub proof fn homes_are_found(
    home: Option<Seq<char>>,
    profile: Option<Seq<char>>,
    drive: Option<Seq<char>>,
    path: Option<Seq<char>>,
)
    ensures
        ({
            let there = |value: Option<Seq<char>>| value is Some && value->0.len() > 0;
            let found = home_dir(false, home, profile, drive, path);
            let found_there = home_dir(true, home, profile, drive, path);
            &&& there(home) ==> found == Ok::<_, ConfigProblem>(home->0)
            &&& !there(home) ==> found == Err::<Seq<char>, _>(ConfigProblem::MissingHome)
            &&& there(profile) ==> found_there == Ok::<_, ConfigProblem>(profile->0)
            &&& !there(profile) && there(drive) && there(path) ==> found_there == Ok::<
                _,
                ConfigProblem,
            >(drive->0 + path->0)
            &&& !there(profile) && !(there(drive) && there(path)) ==> found_there == Err::<
                Seq<char>,
                _,
            >(ConfigProblem::MissingWindowsHome)
        }),
{
}

/// An address is local where it begins with 127, or is the one of the machine itself.
pub proof fn local_addresses_are_known(a: u8, b: u8, c: u8, d: u8, number: u128)
    ensures
        is_loopback(ListenIp::V4(a, b, c, d)) <==> a == 127,
        is_loopback(ListenIp::V6(number)) <==> number == 1,
{
}

/// A grace period is read as it is written.
pub proof fn grace_periods_are_read_back(settings: Settings, args: Seq<String>, grace: u64)
    requires
        args.len() == 2,
        args[0]@ == "--shutdown-grace-period-seconds"@,
        args[1]@ == decimal(grace as nat),
    ensures
        with_arguments(settings, args) == Ok::<_, ConfigProblem>(Settings { grace, ..settings }),
{
    numbers_are_read_back(grace);
    flags_set_what_they_are_for(settings, args);
    assert(args.skip(2) =~= Seq::empty());
}

/// A problem names the argument or the value that it is about.
pub proof fn problems_name_what_they_are_about(value: Seq<char>)
    ensures
        has_text(problem_text(ConfigProblem::MissingValue(value)), value),
        has_text(problem_text(ConfigProblem::UnsupportedPolicy(value)), value),
        has_text(problem_text(ConfigProblem::UnsupportedMode(value)), value),
        has_text(problem_text(ConfigProblem::InvalidGracePeriod(value)), value),
        has_text(problem_text(ConfigProblem::UnknownArgument(value)), value),
{
    let whole = "missing value after "@ + value;
    found_texts_stand_somewhere("missing value after "@, value, Seq::empty(), whole);
    assert(whole + Seq::<char>::empty() =~= whole);
    let expected = "`; expected one of: round_robin, least_in_flight, fill_first"@;
    found_texts_stand_somewhere("unsupported routing policy `"@, value, expected, whole);
    let expected = "`; expected one of: normalize, passthrough"@;
    found_texts_stand_somewhere("unsupported fingerprint mode `"@, value, expected, whole);
    let grace = "invalid value for --shutdown-grace-period-seconds: `"@;
    found_texts_stand_somewhere(grace, value, "`"@, whole);
    found_texts_stand_somewhere("unknown argument `"@, value, "`"@, whole);
}

/// A problem that is about no value of its own says what to mend.
pub proof fn other_problems_say_what_to_mend()
    ensures
        problem_text(ConfigProblem::Help) == "help requested"@,
        problem_text(ConfigProblem::EmptyCodexVersion) == "--codex-version must not be empty"@,
        problem_text(ConfigProblem::SameAddresses)
            == "--listen and --admin-listen must be different addresses"@,
        problem_text(ConfigProblem::MissingHome)
            == "HOME is not set or empty and --accounts-dir was not provided"@,
        problem_text(ConfigProblem::MissingWindowsHome)
            == "USERPROFILE/HOMEDRIVE/HOMEPATH are not set or are empty and --accounts-dir was not provided"@,
{
}

}
