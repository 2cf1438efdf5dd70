//! Running a suite: which devices take part, and the command line each
//! device runs.
use vstd::prelude::*;

use crate::config::{DeviceConfig, PlatformConfig};
use crate::text::{append, decimal, join, owned, push_decimal, push_joined, strs_view};

verus! {

// ── Specifications ──

/// A platform named `ios`.
pub open spec fn is_ios(platform: Seq<char>) -> bool {
    platform == "ios"@
}

/// Whether a device takes part: the device filter names it, or else the
/// platform filter names its platform, or else no filter is given.
pub open spec fn device_selected(
    d: DeviceConfig,
    device_filter: Option<Seq<char>>,
    platform_filter: Option<Seq<char>>,
) -> bool {
    match device_filter {
        Some(df) => d.name@ == df,
        None => match platform_filter {
            Some(pf) => d.platform@ == pf,
            None => true,
        },
    }
}

/// The indices of the first `n` devices that take part, in order.
pub open spec fn selected_upto(
    devices: Seq<DeviceConfig>,
    device_filter: Option<Seq<char>>,
    platform_filter: Option<Seq<char>>,
    n: int,
) -> Seq<usize>
    decreases n,
{
    if n <= 0 {
        Seq::empty()
    } else {
        selected_upto(devices, device_filter, platform_filter, n - 1) + if device_selected(
            devices[n - 1],
            device_filter,
            platform_filter,
        ) {
            seq![(n - 1) as usize]
        } else {
            Seq::empty()
        }
    }
}

/// `NAME=value ` for the environment prefix of a command.
pub open spec fn env_assign(name: Seq<char>, value: Seq<char>) -> Seq<char> {
    name + "="@ + value + " "@
}

/// The variable name for a platform: the iOS name or the Android one.
pub open spec fn per_platform(ios: bool, ios_name: Seq<char>, android_name: Seq<char>) -> Seq<char> {
    if ios {
        ios_name
    } else {
        android_name
    }
}

/// The environment assignments that precede a run command: credentials
/// and fixtures when set, the agent port, and the home tab when given.
pub open spec fn env_prefix_of(
    ios: bool,
    email: Seq<char>,
    password: Seq<char>,
    fixtures_abs: Seq<char>,
    agent_port: u16,
    home_tab: Option<Seq<char>>,
) -> Seq<char> {
    (if email.len() > 0 {
        env_assign(per_platform(ios, "IDB_TEST_EMAIL"@, "DDB_TEST_EMAIL"@), email)
    } else {
        Seq::empty()
    }) + (if password.len() > 0 {
        env_assign(per_platform(ios, "IDB_TEST_PASSWORD"@, "DDB_TEST_PASSWORD"@), password)
    } else {
        Seq::empty()
    }) + (if fixtures_abs.len() > 0 {
        env_assign(per_platform(ios, "IDB_FIXTURES_PATH"@, "DDB_FIXTURES_PATH"@), fixtures_abs)
    } else {
        Seq::empty()
    }) + env_assign(per_platform(ios, "IDB_AGENT_PORT"@, "DDB_AGENT_PORT"@), decimal(agent_port as nat))
        + match home_tab {
        Some(t) => env_assign(per_platform(ios, "IDB_HOME_TAB"@, "DDB_HOME_TAB"@), t),
        None => Seq::empty(),
    }
}

/// The command a device runs: runner prefix, environment, runner, test
/// subcommand, device, catalogue (iOS only), baseline flag, test files.
pub open spec fn run_command_of(
    dev: DeviceConfig,
    plat: PlatformConfig,
    catalogue: Option<Seq<char>>,
    capture_baseline: bool,
    tc_files: Seq<Seq<char>>,
    email: Seq<char>,
    password: Seq<char>,
    fixtures_abs: Seq<char>,
) -> Seq<char> {
    let ios = is_ios(dev.platform@);
    let catalogue_arg = if ios {
        match catalogue {
            Some(c) => " --catalogue "@ + c,
            None => Seq::empty(),
        }
    } else {
        Seq::empty()
    };
    let baseline_arg = if capture_baseline {
        " --capture-baseline"@
    } else {
        Seq::empty()
    };
    let prefix = match plat.runner_prefix {
        Some(p) => p@ + " "@,
        None => Seq::empty(),
    };
    let env = env_prefix_of(
        ios,
        email,
        password,
        fixtures_abs,
        plat.agent_port,
        crate::text::opt_view(plat.home_tab),
    );
    prefix + env + plat.runner@ + " "@ + per_platform(ios, "test run"@, "test"@) + " -d "@
        + dev.name@ + catalogue_arg + baseline_arg + " "@ + join(tc_files, " "@)
}

// ── Executable functions ──

/// The indices of the devices that take part, in order.
pub fn select_devices(
    devices: &Vec<DeviceConfig>,
    device_filter: Option<&str>,
    platform_filter: Option<&str>,
) -> (r: Vec<usize>)
    ensures
        r@ == selected_upto(
            devices@,
            crate::journey::opt_str(device_filter),
            crate::journey::opt_str(platform_filter),
            devices@.len() as int,
        ),
{
    let df = match device_filter {
        Some(d) => Some(owned(d)),
        None => None,
    };
    let pf = match platform_filter {
        Some(p) => Some(owned(p)),
        None => None,
    };
    let ghost dfv = crate::journey::opt_str(device_filter);
    let ghost pfv = crate::journey::opt_str(platform_filter);
    let mut r: Vec<usize> = Vec::new();
    for i in 0..devices.len()
        invariant
            crate::text::opt_view(df) == dfv,
            crate::text::opt_view(pf) == pfv,
            r@ == selected_upto(devices@, dfv, pfv, i as int),
    {
        let d = &devices[i];
        let keep = match &df {
            Some(name) => d.name == *name,
            None => match &pf {
                Some(p) => d.platform == *p,
                None => true,
            },
        };
        if keep {
            r.push(i);
        }
        assert(r@ =~= selected_upto(devices@, dfv, pfv, i + 1));
    }
    r
}

/// Appends `NAME=value `.
fn push_env(out: &mut String, name: &str, value: &str)
    ensures
        final(out)@ == old(out)@ + env_assign(name@, value@),
{
    append(out, name);
    append(out, "=");
    append(out, value);
    append(out, " ");
    assert(final(out)@ =~= old(out)@ + env_assign(name@, value@));
}

/// The environment assignments that precede a run command.
pub fn env_prefix(
    ios: bool,
    email: &str,
    password: &str,
    fixtures_abs: &str,
    agent_port: u16,
    home_tab: &Option<String>,
) -> (r: String)
    ensures
        r@ == env_prefix_of(
            ios,
            email@,
            password@,
            fixtures_abs@,
            agent_port,
            crate::text::opt_view(*home_tab),
        ),
{
    let mut out = String::new();
    if !email.is_empty() {
        push_env(&mut out, if ios { "IDB_TEST_EMAIL" } else { "DDB_TEST_EMAIL" }, email);
    }
    let ghost a = out@;
    if !password.is_empty() {
        push_env(&mut out, if ios { "IDB_TEST_PASSWORD" } else { "DDB_TEST_PASSWORD" }, password);
    }
    let ghost b = out@;
    if !fixtures_abs.is_empty() {
        push_env(&mut out, if ios { "IDB_FIXTURES_PATH" } else { "DDB_FIXTURES_PATH" }, fixtures_abs);
    }
    let ghost c = out@;
    let mut port = String::new();
    push_decimal(&mut port, agent_port as u64);
    push_env(&mut out, if ios { "IDB_AGENT_PORT" } else { "DDB_AGENT_PORT" }, port.as_str());
    let ghost d = out@;
    if let Some(tab) = home_tab {
        push_env(&mut out, if ios { "IDB_HOME_TAB" } else { "DDB_HOME_TAB" }, tab.as_str());
    }
    assert(out@ =~= env_prefix_of(
        ios,
        email@,
        password@,
        fixtures_abs@,
        agent_port,
        crate::text::opt_view(*home_tab),
    ));
    out
}

/// The command line a device runs for the test files `tc_files`, with
/// credentials and the fixtures path already resolved.
pub fn run_command(
    dev: &DeviceConfig,
    plat: &PlatformConfig,
    catalogue: Option<&str>,
    capture_baseline: bool,
    tc_files: &Vec<String>,
    email: &str,
    password: &str,
    fixtures_abs: &str,
) -> (r: String)
    ensures
        r@ == run_command_of(
            *dev,
            *plat,
            crate::journey::opt_str(catalogue),
            capture_baseline,
            strs_view(tc_files@),
            email@,
            password@,
            fixtures_abs@,
        ),
{
    let ios = dev.platform == owned("ios");
    let mut cmd = String::new();
    if let Some(p) = &plat.runner_prefix {
        append(&mut cmd, p.as_str());
        append(&mut cmd, " ");
    }
    let ghost a = cmd@;
    let env = env_prefix(ios, email, password, fixtures_abs, plat.agent_port, &plat.home_tab);
    append(&mut cmd, env.as_str());
    append(&mut cmd, plat.runner.as_str());
    append(&mut cmd, " ");
    append(&mut cmd, if ios { "test run" } else { "test" });
    append(&mut cmd, " -d ");
    append(&mut cmd, dev.name.as_str());
    let ghost b = cmd@;
    if ios {
        if let Some(c) = catalogue {
            append(&mut cmd, " --catalogue ");
            append(&mut cmd, c);
        }
    }
    let ghost c = cmd@;
    if capture_baseline {
        append(&mut cmd, " --capture-baseline");
    }
    let ghost d = cmd@;
    append(&mut cmd, " ");
    push_joined(&mut cmd, tc_files, " ");
    assert(cmd@ =~= run_command_of(
        *dev,
        *plat,
        crate::journey::opt_str(catalogue),
        capture_baseline,
        strs_view(tc_files@),
        email@,
        password@,
        fixtures_abs@,
    ));
    cmd
}

} // verus!
