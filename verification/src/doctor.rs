//! Health checks of a device setup: the commands each check runs and how
//! their output is judged.
use vstd::prelude::*;

use crate::config::{CredentialConfig, DeviceConfig, PlatformConfig};
use crate::run::is_ios;
use crate::yaml::{deref_opt, untag, untag_ref, YamlValue};
use crate::text::{
    count_prefixed, has_prefix, join, push_joined, starts_with,
    append, contains_str, decimal, is_substring, owned, push_decimal, split_char, split_on,
    strs_view, trim, trimmed,
};

verus! {

// ── Specifications ──

/// The host the device's agent listens on.
pub open spec fn agent_host(platform: Seq<char>) -> Seq<char> {
    if is_ios(platform) {
        "192.168.1.114"@
    } else {
        "localhost"@
    }
}

/// The agent endpoint that lists idle resources (the same on every
/// platform).
pub open spec fn idle_endpoint(platform: Seq<char>) -> Seq<char> {
    "idle-resources"@
}

/// The agent's health answer holds `"status":"ok"`.
pub open spec fn health_ok(out: Seq<char>) -> bool {
    is_substring("\"status\":\"ok\""@, out)
}

/// The agent's answer names one of the idle resources: navigation,
/// animation, spinner or layout.
pub open spec fn names_idle_resource(out: Seq<char>) -> bool {
    is_substring("navigation"@, out) || is_substring("animation"@, out) || is_substring(
        "spinner"@,
        out,
    ) || is_substring("layout"@, out)
}

/// The URL prefix of the device's agent.
pub open spec fn agent_url(platform: Seq<char>, port: u16) -> Seq<char> {
    "curl -s --connect-timeout 2 --max-time 5 http://"@ + agent_host(platform) + ":"@ + decimal(
        port as nat,
    ) + "/"@
}

/// A line without one trailing carriage return.
pub open spec fn strip_cr(l: Seq<char>) -> Seq<char> {
    if l.len() > 0 && l.last() == '\r' {
        l.drop_last()
    } else {
        l
    }
}

/// Each line without one trailing carriage return.
pub open spec fn strip_all(ls: Seq<Seq<char>>) -> Seq<Seq<char>> {
    ls.map_values(|l: Seq<char>| strip_cr(l))
}

/// The lines of `s`, as `str::lines` gives them: split at `\n` or `\r\n`,
/// the final line ending optional.
pub open spec fn lines_of(s: Seq<char>) -> Seq<Seq<char>> {
    let ps = split_on(s, '\n');
    if s.len() == 0 {
        Seq::empty()
    } else if s.last() == '\n' {
        strip_all(ps.drop_last())
    } else {
        strip_all(ps.drop_last()).push(ps.last())
    }
}

/// The indices of the platforms whose runner no earlier platform uses.
pub open spec fn first_runners(platforms: Seq<(String, PlatformConfig)>, n: int) -> Seq<usize>
    decreases n,
{
    if n <= 0 {
        Seq::empty()
    } else {
        let prev = first_runners(platforms, n - 1);
        if exists|k: int| 0 <= k < n - 1 && (#[trigger] platforms[k]).1.runner@ == platforms[n - 1].1.runner@ {
            prev
        } else {
            prev.push((n - 1) as usize)
        }
    }
}

// ── Commands ──

/// The command that lists connected devices.
pub fn devices_command(runner: &str) -> (r: String)
    ensures
        r@ == runner@ + " devices 2>&1"@,
{
    let mut c = owned(runner);
    append(&mut c, " devices 2>&1");
    c
}

/// The command that asks for the WebDriverAgent status of an iOS device.
pub fn wda_command(runner: &str, device: &str) -> (r: String)
    ensures
        r@ == runner@ + " wda status "@ + device@ + " 2>&1"@,
{
    let mut c = owned(runner);
    append(&mut c, " wda status ");
    append(&mut c, device);
    append(&mut c, " 2>&1");
    c
}

/// The command that queries an agent endpoint.
fn agent_command(platform: &str, port: u16, endpoint: &str) -> (r: String)
    ensures
        r@ == agent_url(platform@, port) + endpoint@,
{
    let ios = owned(platform) == owned("ios");
    let mut c = owned("curl -s --connect-timeout 2 --max-time 5 http://");
    append(&mut c, if ios { "192.168.1.114" } else { "localhost" });
    append(&mut c, ":");
    push_decimal(&mut c, port as u64);
    append(&mut c, "/");
    append(&mut c, endpoint);
    c
}

/// The command that checks the agent's health.
pub fn health_command(platform: &str, port: u16) -> (r: String)
    ensures
        r@ == agent_url(platform@, port) + "health"@,
{
    agent_command(platform, port, "health")
}

/// The command that lists the agent's idle resources.
pub fn idle_command(platform: &str, port: u16) -> (r: String)
    ensures
        r@ == agent_url(platform@, port) + idle_endpoint(platform@),
{
    agent_command(platform, port, "idle-resources")
}

/// The command that reads an Android device's battery saver setting.
pub fn battery_command(runner: &str, device: &str) -> (r: String)
    ensures
        r@ == runner@ + " adb -d "@ + device@ + " shell settings get global low_power 2>&1"@,
{
    let mut c = owned(runner);
    append(&mut c, " adb -d ");
    append(&mut c, device);
    append(&mut c, " shell settings get global low_power 2>&1");
    c
}

/// The command that asks a runner for its version.
pub fn version_command(runner: &str) -> (r: String)
    ensures
        r@ == runner@ + " --version 2>&1"@,
{
    let mut c = owned(runner);
    append(&mut c, " --version 2>&1");
    c
}

/// The command that lists every copy of a runner on the `PATH`.
pub fn which_command(runner: &str) -> (r: String)
    ensures
        r@ == "which -a "@ + runner@ + " 2>/dev/null"@,
{
    let mut c = owned("which -a ");
    append(&mut c, runner);
    append(&mut c, " 2>/dev/null");
    c
}

// ── Verdicts ──

/// The device shows in the runner's device list.
pub fn device_connected(code: i32, out: &str, device: &str) -> (r: bool)
    ensures
        r == (code == 0 && is_substring(device@, out@)),
{
    code == 0 && contains_str(out, device)
}

/// The WebDriverAgent reports ready.
pub fn wda_ready(out: &str) -> (r: bool)
    ensures
        r == is_substring("READY"@, out@),
{
    contains_str(out, "READY")
}

/// The agent answers its health check with `"status":"ok"`.
pub fn agent_healthy(code: i32, out: &str) -> (r: bool)
    ensures
        r == (code == 0 && health_ok(out@)),
{
    code == 0 && contains_str(out, "\"status\":\"ok\"")
}

/// The agent has an idle resource registry: its answer names navigation,
/// animation, spinner or layout.
pub fn idle_registry_present(code: i32, out: &str) -> (r: bool)
    ensures
        r == (code == 0 && names_idle_resource(out@)),
{
    code == 0 && (contains_str(out, "navigation") || contains_str(out, "animation") || contains_str(
        out,
        "spinner",
    ) || contains_str(out, "layout"))
}

/// The (trimmed) low-power setting reads `0`, that is, off.
pub fn setting_is_off(value: &str) -> (r: bool)
    ensures
        r == (value@ == "0"@),
{
    owned(value) == owned("0")
}

/// Battery saver is off.
pub fn battery_saver_off(out: &str) -> (r: bool)
    ensures
        r == (trimmed(out@) == "0"@),
{
    let t = trim(out);
    setting_is_off(t.as_str())
}

/// The lines of `s`.
pub fn lines(s: &str) -> (r: Vec<String>)
    ensures
        strs_view(r@) == lines_of(s@),
{
    let mut r: Vec<String> = Vec::new();
    if s.is_empty() {
        return r;
    }
    let pieces = split_char(s, '\n');
    let ghost ps = strs_view(pieces@);
    let v = crate::text::chars_of(s);
    let ends_with_newline = v[v.len() - 1] == '\n';
    proof {
        lemma_split_nonempty(s@, '\n');
    }
    let count = pieces.len() - 1;
    for i in 0..count
        invariant
            ps == strs_view(pieces@),
            count + 1 == ps.len(),
            strs_view(r@) == strip_all(ps.take(i as int)),
    {
        let piece = &pieces[i];
        let pv = crate::text::chars_of(piece.as_str());
        let line = if pv.len() > 0 && pv[pv.len() - 1] == '\r' {
            let mut l = String::new();
            for k in 0..pv.len() - 1
                invariant
                    pv.len() > 0,
                    l@ == pv@.take(k as int),
            {
                crate::text::push_char(&mut l, pv[k]);
                assert(pv@.take(k + 1) =~= pv@.take(k as int).push(pv@[k as int]));
            }
            assert(pv@.take(pv.len() - 1) =~= pv@.drop_last());
            l
        } else {
            piece.clone()
        };
        assert(line@ == strip_cr(ps[i as int]));
        let ghost rv = strs_view(r@);
        r.push(line);
        assert(strs_view(r@) =~= rv.push(line@));
        assert(strip_all(ps.take(i + 1)) =~= strip_all(ps.take(i as int)).push(strip_cr(ps[i as int])));
    }
    assert(ps.take(count as int) =~= ps.drop_last());
    if !ends_with_newline {
        r.push(pieces[count].clone());
        assert(strs_view(r@) =~= strip_all(ps.drop_last()).push(ps.last()));
    }
    r
}

/// Splitting always gives at least one piece.
proof fn lemma_split_nonempty(s: Seq<char>, sep: char)
    ensures
        split_on(s, sep).len() >= 1,
    decreases s.len(),
{
    let k = crate::text::span_until(s, sep) as int;
    crate::text::lemma_span_until_bound(s, sep);
    if k < s.len() {
        lemma_split_nonempty(s.skip(k + 1), sep);
    }
}

/// The copies of a runner that `which -a` listed, first the one used.
pub fn which_paths(out: &str) -> (r: Vec<String>)
    ensures
        strs_view(r@) == lines_of(trimmed(out@)),
{
    let t = trim(out);
    lines(t.as_str())
}

/// The platforms whose runner is checked: the first to use each runner.
pub fn runners_to_check(platforms: &Vec<(String, PlatformConfig)>) -> (r: Vec<usize>)
    ensures
        r@ == first_runners(platforms@, platforms@.len() as int),
{
    let mut r: Vec<usize> = Vec::new();
    for i in 0..platforms.len()
        invariant
            r@ == first_runners(platforms@, i as int),
    {
        let mut seen = false;
        let mut k: usize = 0;
        while k < i
            invariant
                k <= i < platforms@.len(),
                seen == exists|m: int| 0 <= m < k && (#[trigger] platforms@[m]).1.runner@ == platforms@[i as int].1.runner@,
            decreases i - k,
        {
            if platforms[k].1.runner == platforms[i].1.runner {
                seen = true;
            }
            k = k + 1;
        }
        if !seen {
            r.push(i);
        }
    }
    r
}

// ── Per-device checks ──

/// A check run on one device.
#[derive(Clone, Copy, PartialEq, Eq, Structural)]
pub enum DeviceCheck {
    DeviceConnected,
    WdaReady,
    AgentHealth,
    IdleResources,
    AppInstalled,
    BatterySaverOff,
    AnimationsDisabled,
}

/// The checks a device gets, in order: connection, WebDriverAgent (iOS
/// only), agent health, idle resources, the app installed, battery saver
/// (Android only), and animations disabled.
pub open spec fn device_checks_of(platform: Seq<char>) -> Seq<DeviceCheck> {
    seq![DeviceCheck::DeviceConnected] + (if is_ios(platform) {
        seq![DeviceCheck::WdaReady]
    } else {
        Seq::empty()
    }) + seq![DeviceCheck::AgentHealth, DeviceCheck::IdleResources, DeviceCheck::AppInstalled] + (
    if platform == "android"@ {
        seq![DeviceCheck::BatterySaverOff]
    } else {
        Seq::empty()
    }) + seq![DeviceCheck::AnimationsDisabled]
}

/// The command that asks the agent to turn animations off.
pub open spec fn animations_command_of(platform: Seq<char>, port: u16) -> Seq<char> {
    "curl -s -X POST http://"@ + agent_host(platform) + ":"@ + decimal(port as nat)
        + "/animations -d '{\"enabled\":false}'"@
}

/// The command that checks the app is installed: on iOS a launch of the
/// bundle, elsewhere the list of installed packages.
pub open spec fn app_command_of(dev: DeviceConfig, plat: PlatformConfig) -> Seq<char> {
    if is_ios(dev.platform@) {
        plat.runner@ + " app launch -d "@ + dev.name@ + " "@ + plat.package@ + " 2>&1"@
    } else {
        plat.runner@ + " adb -d "@ + dev.name@ + " shell pm list packages 2>&1"@
    }
}

/// The command a check runs.
pub open spec fn check_command_of(check: DeviceCheck, dev: DeviceConfig, plat: PlatformConfig) -> Seq<
    char,
> {
    match check {
        DeviceCheck::DeviceConnected => plat.runner@ + " devices 2>&1"@,
        DeviceCheck::WdaReady => plat.runner@ + " wda status "@ + dev.name@ + " 2>&1"@,
        DeviceCheck::AgentHealth => agent_url(dev.platform@, plat.agent_port) + "health"@,
        DeviceCheck::IdleResources => agent_url(dev.platform@, plat.agent_port) + idle_endpoint(
            dev.platform@,
        ),
        DeviceCheck::AppInstalled => app_command_of(dev, plat),
        DeviceCheck::BatterySaverOff => plat.runner@ + " adb -d "@ + dev.name@
            + " shell settings get global low_power 2>&1"@,
        DeviceCheck::AnimationsDisabled => animations_command_of(dev.platform@, plat.agent_port),
    }
}

/// Whether a check passes on its command's exit code and output: the app
/// is installed when its launch succeeds (iOS) or its package is listed;
/// animations are off when the agent answers `"enabled":false`.
pub open spec fn check_passes_of(
    check: DeviceCheck,
    code: i32,
    out: Seq<char>,
    dev: DeviceConfig,
    plat: PlatformConfig,
) -> bool {
    match check {
        DeviceCheck::DeviceConnected => code == 0 && is_substring(dev.name@, out),
        DeviceCheck::WdaReady => is_substring("READY"@, out),
        DeviceCheck::AgentHealth => code == 0 && health_ok(out),
        DeviceCheck::IdleResources => code == 0 && names_idle_resource(out),
        DeviceCheck::AppInstalled => code == 0 && (is_ios(dev.platform@) || is_substring(
            plat.package@,
            out,
        )),
        DeviceCheck::BatterySaverOff => trimmed(out) == "0"@,
        DeviceCheck::AnimationsDisabled => code == 0 && is_substring("\"enabled\":false"@, out),
    }
}

/// A result line: `  PASS  ` and `pass_rest`, or `  FAIL  ` and
/// `fail_rest`.
pub open spec fn status_text(passed: bool, pass_rest: Seq<char>, fail_rest: Seq<char>) -> Seq<char> {
    if passed {
        "  PASS  "@ + pass_rest
    } else {
        "  FAIL  "@ + fail_rest
    }
}

/// The name a check reports under.
pub open spec fn check_name(check: DeviceCheck) -> Seq<char> {
    match check {
        DeviceCheck::DeviceConnected => "device_connected"@,
        DeviceCheck::WdaReady => "wda_ready"@,
        DeviceCheck::AgentHealth => "agent_health"@,
        DeviceCheck::IdleResources => "idle_resources"@,
        DeviceCheck::AppInstalled => "app_installed"@,
        DeviceCheck::BatterySaverOff => "battery_saver_off"@,
        DeviceCheck::AnimationsDisabled => "animations_disabled"@,
    }
}

/// What a failed check adds after its name.
pub open spec fn failure_detail(check: DeviceCheck, dev: DeviceConfig, plat: PlatformConfig) -> Seq<char> {
    match check {
        DeviceCheck::DeviceConnected => " — '"@ + dev.name@ + "' not found"@,
        DeviceCheck::WdaReady => " — WDA not responding"@,
        DeviceCheck::AgentHealth => " — agent not responding on port "@ + decimal(
            plat.agent_port as nat,
        ),
        DeviceCheck::IdleResources => " — agent missing idle resource registry"@,
        DeviceCheck::AppInstalled => " — '"@ + plat.package@ + "' not installed"@,
        DeviceCheck::BatterySaverOff => " — battery saver is ON"@,
        DeviceCheck::AnimationsDisabled => " — agent didn't respond"@,
    }
}

/// The line a check reports.
pub open spec fn check_line_of(check: DeviceCheck, passed: bool, dev: DeviceConfig, plat: PlatformConfig) -> Seq<
    char,
> {
    status_text(passed, check_name(check), check_name(check) + failure_detail(check, dev, plat))
}

/// The checks a device on `platform` gets, in order.
pub fn device_checks(platform: &str) -> (r: Vec<DeviceCheck>)
    ensures
        r@ == device_checks_of(platform@),
{
    let p = owned(platform);
    let mut r: Vec<DeviceCheck> = Vec::new();
    r.push(DeviceCheck::DeviceConnected);
    if p == owned("ios") {
        r.push(DeviceCheck::WdaReady);
    }
    r.push(DeviceCheck::AgentHealth);
    r.push(DeviceCheck::IdleResources);
    r.push(DeviceCheck::AppInstalled);
    if p == owned("android") {
        r.push(DeviceCheck::BatterySaverOff);
    }
    r.push(DeviceCheck::AnimationsDisabled);
    assert(r@ =~= device_checks_of(platform@));
    r
}

/// The command a check runs on `dev`.
pub fn check_command(check: DeviceCheck, dev: &DeviceConfig, plat: &PlatformConfig) -> (r: String)
    ensures
        r@ == check_command_of(check, *dev, *plat),
{
    match check {
        DeviceCheck::DeviceConnected => devices_command(plat.runner.as_str()),
        DeviceCheck::WdaReady => wda_command(plat.runner.as_str(), dev.name.as_str()),
        DeviceCheck::AgentHealth => health_command(dev.platform.as_str(), plat.agent_port),
        DeviceCheck::IdleResources => idle_command(dev.platform.as_str(), plat.agent_port),
        DeviceCheck::AppInstalled => {
            let mut c = owned(plat.runner.as_str());
            if dev.platform == owned("ios") {
                append(&mut c, " app launch -d ");
                append(&mut c, dev.name.as_str());
                append(&mut c, " ");
                append(&mut c, plat.package.as_str());
                append(&mut c, " 2>&1");
            } else {
                append(&mut c, " adb -d ");
                append(&mut c, dev.name.as_str());
                append(&mut c, " shell pm list packages 2>&1");
            }
            c
        },
        DeviceCheck::BatterySaverOff => battery_command(plat.runner.as_str(), dev.name.as_str()),
        DeviceCheck::AnimationsDisabled => {
            let ios = dev.platform == owned("ios");
            let mut c = owned("curl -s -X POST http://");
            append(&mut c, if ios { "192.168.1.114" } else { "localhost" });
            append(&mut c, ":");
            push_decimal(&mut c, plat.agent_port as u64);
            append(&mut c, "/animations -d '{\"enabled\":false}'");
            c
        },
    }
}

/// Whether a check passes on its command's exit code and output.
pub fn check_passes(check: DeviceCheck, code: i32, out: &str, dev: &DeviceConfig, plat: &PlatformConfig) -> (r:
    bool)
    ensures
        r == check_passes_of(check, code, out@, *dev, *plat),
{
    match check {
        DeviceCheck::DeviceConnected => device_connected(code, out, dev.name.as_str()),
        DeviceCheck::WdaReady => wda_ready(out),
        DeviceCheck::AgentHealth => agent_healthy(code, out),
        DeviceCheck::IdleResources => idle_registry_present(code, out),
        DeviceCheck::AppInstalled => code == 0 && (dev.platform == owned("ios") || contains_str(
            out,
            plat.package.as_str(),
        )),
        DeviceCheck::BatterySaverOff => battery_saver_off(out),
        DeviceCheck::AnimationsDisabled => code == 0 && contains_str(out, "\"enabled\":false"),
    }
}

/// A result line: `  PASS  ` and `pass_rest`, or `  FAIL  ` and
/// `fail_rest`.
pub fn status_line(passed: bool, pass_rest: &str, fail_rest: &str) -> (r: String)
    ensures
        r@ == status_text(passed, pass_rest@, fail_rest@),
{
    if passed {
        let mut m = owned("  PASS  ");
        append(&mut m, pass_rest);
        m
    } else {
        let mut m = owned("  FAIL  ");
        append(&mut m, fail_rest);
        m
    }
}

/// The line a check reports.
pub fn check_line(check: DeviceCheck, passed: bool, dev: &DeviceConfig, plat: &PlatformConfig) -> (r:
    String)
    ensures
        r@ == check_line_of(check, passed, *dev, *plat),
{
    let name = match check {
        DeviceCheck::DeviceConnected => "device_connected",
        DeviceCheck::WdaReady => "wda_ready",
        DeviceCheck::AgentHealth => "agent_health",
        DeviceCheck::IdleResources => "idle_resources",
        DeviceCheck::AppInstalled => "app_installed",
        DeviceCheck::BatterySaverOff => "battery_saver_off",
        DeviceCheck::AnimationsDisabled => "animations_disabled",
    };
    let mut fail = owned(name);
    match check {
        DeviceCheck::DeviceConnected => {
            append(&mut fail, " — '");
            append(&mut fail, dev.name.as_str());
            append(&mut fail, "' not found");
        },
        DeviceCheck::WdaReady => append(&mut fail, " — WDA not responding"),
        DeviceCheck::AgentHealth => {
            append(&mut fail, " — agent not responding on port ");
            push_decimal(&mut fail, plat.agent_port as u64);
        },
        DeviceCheck::IdleResources => append(&mut fail, " — agent missing idle resource registry"),
        DeviceCheck::AppInstalled => {
            append(&mut fail, " — '");
            append(&mut fail, plat.package.as_str());
            append(&mut fail, "' not installed");
        },
        DeviceCheck::BatterySaverOff => append(&mut fail, " — battery saver is ON"),
        DeviceCheck::AnimationsDisabled => append(&mut fail, " — agent didn't respond"),
    }
    status_line(passed, name, fail.as_str())
}

// ── Global checks ──

/// The email setting the credentials check reads: the configured one, or
/// `${IDB_TEST_EMAIL}`.
pub open spec fn email_setting_of(credentials: Option<CredentialConfig>) -> Seq<char> {
    match credentials {
        Some(c) => match c.email {
            Some(e) => e@,
            None => "${IDB_TEST_EMAIL}"@,
        },
        None => "${IDB_TEST_EMAIL}"@,
    }
}

/// The email setting the credentials check reads.
pub fn email_setting(credentials: &Option<CredentialConfig>) -> (r: String)
    ensures
        r@ == email_setting_of(*credentials),
{
    match credentials {
        Some(c) => match &c.email {
            Some(e) => e.clone(),
            None => owned("${IDB_TEST_EMAIL}"),
        },
        None => owned("${IDB_TEST_EMAIL}"),
    }
}

/// The password setting the credentials check reads: the configured one,
/// or `${IDB_TEST_PASSWORD}`.
pub open spec fn password_setting_of(credentials: Option<CredentialConfig>) -> Seq<char> {
    match credentials {
        Some(c) => match c.password {
            Some(p) => p@,
            None => "${IDB_TEST_PASSWORD}"@,
        },
        None => "${IDB_TEST_PASSWORD}"@,
    }
}

/// The password setting the credentials check reads.
pub fn password_setting(credentials: &Option<CredentialConfig>) -> (r: String)
    ensures
        r@ == password_setting_of(*credentials),
{
    match credentials {
        Some(c) => match &c.password {
            Some(p) => p.clone(),
            None => owned("${IDB_TEST_PASSWORD}"),
        },
        None => owned("${IDB_TEST_PASSWORD}"),
    }
}

/// The credentials check passes when both the email and the password
/// (their settings already resolved) are non-empty.
pub fn credentials_set(email: &str, password: &str) -> (r: bool)
    ensures
        r == (email@.len() > 0 && password@.len() > 0),
{
    !email.is_empty() && !password.is_empty()
}

/// The number of fixtures in a parsed fixtures file: the entries of its
/// top-level mapping (tags looked through).
pub open spec fn fixture_count_of(doc: YamlValue) -> nat {
    match untag(doc) {
        YamlValue::Mapping(es) => es@.len(),
        _ => 0,
    }
}

/// The fixtures check: the file parsed (`doc` is `Some`) and holds at least
/// one fixture; gives how many.
pub open spec fn fixtures_loaded_of(doc: Option<YamlValue>) -> Option<nat> {
    match doc {
        Some(d) => if fixture_count_of(d) > 0 {
            Some(fixture_count_of(d))
        } else {
            None
        },
        None => None,
    }
}

/// How many fixtures a parsed fixtures file holds, when it parsed and holds
/// at least one.
pub fn fixtures_loaded(doc: Option<&YamlValue>) -> (r: Option<usize>)
    ensures
        match r {
            Some(n) => fixtures_loaded_of(deref_opt(doc)) == Some(n as nat),
            None => fixtures_loaded_of(deref_opt(doc)) is None,
        },
{
    match doc {
        Some(d) => match untag_ref(d) {
            YamlValue::Mapping(es) => if es.len() > 0 {
                Some(es.len())
            } else {
                None
            },
            _ => None,
        },
        None => None,
    }
}

/// The doctor's summary line and exit code: 1 when a check failed, else 0.
pub fn doctor_summary(passed: usize, failed: usize) -> (r: (String, i32))
    ensures
        r.0@ == decimal(passed as nat) + " passed, "@ + decimal(failed as nat) + " failed"@,
        r.1 == if failed > 0 {
            1i32
        } else {
            0i32
        },
{
    let mut line = String::new();
    push_decimal(&mut line, passed as u64);
    append(&mut line, " passed, ");
    push_decimal(&mut line, failed as u64);
    append(&mut line, " failed");
    (line, if failed > 0 { 1 } else { 0 })
}

// ── The doctor's log ──

/// The line for the copies of a runner found on the `PATH`: the first one
/// used, or the runner not found.
pub open spec fn runner_path_text(runner: Seq<char>, paths: Seq<Seq<char>>) -> Seq<char> {
    status_text(
        paths.len() > 0,
        "runner_path ("@ + runner + ") → "@ + paths[0],
        "runner_path ("@ + runner + ") — not found in PATH"@,
    )
}

/// The warning for a runner found more than once on the `PATH`.
pub open spec fn runner_copies_text(runner: Seq<char>, paths: Seq<Seq<char>>) -> Seq<char> {
    "  WARN  runner_path ("@ + runner + ") — "@ + decimal(paths.len()) + " copies in PATH: "@ + join(
        paths,
        ", "@,
    )
}

/// The runner reports a version: `--version` exits with 0 and prints
/// something.
pub open spec fn version_reported(code: i32, out: Seq<char>) -> bool {
    code == 0 && trimmed(out).len() > 0
}

/// The line of the runner version check.
pub open spec fn runner_version_text(runner: Seq<char>, code: i32, out: Seq<char>) -> Seq<char> {
    status_text(
        version_reported(code, out),
        "runner_version ("@ + runner + ")"@,
        "runner_version ("@ + runner + ") — rebuild runner from source"@,
    )
}

/// The line of the freshness check: the runner binary is fresh unless the
/// newest source file is newer than it (times in nanoseconds).
pub open spec fn freshness_text(runner: Seq<char>, source_newest: u128, binary: u128) -> Seq<char> {
    status_text(
        !(source_newest > binary),
        "runner_fresh ("@ + runner + ") — binary up to date"@,
        "runner_fresh ("@ + runner + ") — binary older than source"@,
    )
}

/// The line of the credentials check.
pub open spec fn credentials_text(ok: bool) -> Seq<char> {
    status_text(ok, "credentials (email and password set)"@, "credentials — credentials not set"@)
}

/// The line of the fixtures check: how many fixtures were loaded, or
/// whether the file is missing or unusable.
pub open spec fn fixtures_text(loaded: Option<usize>, exists: bool, path: Seq<char>) -> Seq<char> {
    match loaded {
        Some(n) => status_text(
            true,
            "fixtures (loaded "@ + decimal(n as nat) + " fixtures from "@ + path + ")"@,
            Seq::empty(),
        ),
        None => status_text(
            false,
            Seq::empty(),
            if exists {
                "fixtures — "@ + path + " does not parse or holds no fixtures"@
            } else {
                "fixtures — "@ + path + " not found"@
            },
        ),
    }
}

/// The result lines of a doctor run.
pub struct DoctorLog {
    lines: Vec<String>,
}

impl DoctorLog {
    /// The lines logged so far.
    pub closed spec fn line_views(&self) -> Seq<Seq<char>> {
        strs_view(self.lines@)
    }

    /// An empty log.
    pub fn new() -> (r: DoctorLog)
        ensures
            r.line_views() == Seq::<Seq<char>>::empty(),
    {
        let r = DoctorLog { lines: Vec::new() };
        assert(strs_view(r.lines@) =~= Seq::<Seq<char>>::empty());
        r
    }

    /// The lines logged so far.
    pub fn lines(&self) -> (r: &Vec<String>)
        ensures
            strs_view(r@) == self.line_views(),
    {
        &self.lines
    }

    /// Logs one line.
    fn push_line(&mut self, line: String)
        ensures
            final(self).line_views() == old(self).line_views().push(line@),
    {
        let ghost before = strs_view(self.lines@);
        let ghost lv = line@;
        self.lines.push(line);
        assert(strs_view(self.lines@) =~= before.push(lv));
    }

    /// Logs the result of a device check.
    pub fn record_check(&mut self, check: DeviceCheck, passed: bool, dev: &DeviceConfig, plat: &PlatformConfig)
        ensures
            final(self).line_views() == old(self).line_views().push(
                check_line_of(check, passed, *dev, *plat),
            ),
    {
        self.push_line(check_line(check, passed, dev, plat));
    }

    /// Logs the credentials check.
    pub fn record_credentials(&mut self, ok: bool)
        ensures
            final(self).line_views() == old(self).line_views().push(credentials_text(ok)),
    {
        self.push_line(
            status_line(ok, "credentials (email and password set)", "credentials — credentials not set"),
        );
    }

    /// Logs the fixtures check: `loaded` is what `fixtures_loaded` gave,
    /// `exists` whether the file exists.
    pub fn record_fixtures(&mut self, loaded: Option<usize>, exists: bool, path: &str)
        ensures
            final(self).line_views() == old(self).line_views().push(fixtures_text(loaded, exists, path@)),
    {
        let line = match loaded {
            Some(n) => {
                let mut m = owned("fixtures (loaded ");
                push_decimal(&mut m, n as u64);
                append(&mut m, " fixtures from ");
                append(&mut m, path);
                append(&mut m, ")");
                status_line(true, m.as_str(), "")
            },
            None => {
                let mut m = owned("fixtures — ");
                append(&mut m, path);
                append(&mut m, if exists { " does not parse or holds no fixtures" } else { " not found" });
                status_line(false, "", m.as_str())
            },
        };
        self.push_line(line);
    }

    /// Logs where a runner was found on the `PATH`, with a warning when it
    /// was found more than once.
    pub fn record_runner_paths(&mut self, runner: &str, paths: &Vec<String>)
        ensures
            final(self).line_views() == if paths@.len() > 1 {
                old(self).line_views().push(runner_path_text(runner@, strs_view(paths@))).push(
                    runner_copies_text(runner@, strs_view(paths@)),
                )
            } else {
                old(self).line_views().push(runner_path_text(runner@, strs_view(paths@)))
            },
    {
        let ghost pv = strs_view(paths@);
        let mut pass = owned("runner_path (");
        append(&mut pass, runner);
        append(&mut pass, ") → ");
        if paths.len() > 0 {
            append(&mut pass, paths[0].as_str());
        }
        let mut fail = owned("runner_path (");
        append(&mut fail, runner);
        append(&mut fail, ") — not found in PATH");
        self.push_line(status_line(paths.len() > 0, pass.as_str(), fail.as_str()));
        if paths.len() > 1 {
            let mut w = owned("  WARN  runner_path (");
            append(&mut w, runner);
            append(&mut w, ") — ");
            push_decimal(&mut w, paths.len() as u64);
            append(&mut w, " copies in PATH: ");
            push_joined(&mut w, paths, ", ");
            self.push_line(w);
        }
    }

    /// Logs the runner version check on the output of `runner --version`.
    pub fn record_runner_version(&mut self, runner: &str, code: i32, out: &str)
        ensures
            final(self).line_views() == old(self).line_views().push(runner_version_text(runner@, code, out@)),
    {
        let t = trim(out);
        let ok = code == 0 && !t.as_str().is_empty();
        let mut pass = owned("runner_version (");
        append(&mut pass, runner);
        append(&mut pass, ")");
        let mut fail = owned("runner_version (");
        append(&mut fail, runner);
        append(&mut fail, ") — rebuild runner from source");
        self.push_line(status_line(ok, pass.as_str(), fail.as_str()));
    }

    /// Logs the freshness check of a runner binary.
    pub fn record_freshness(&mut self, runner: &str, source_newest: u128, binary: u128)
        ensures
            final(self).line_views() == old(self).line_views().push(freshness_text(runner@, source_newest, binary)),
    {
        let mut pass = owned("runner_fresh (");
        append(&mut pass, runner);
        append(&mut pass, ") — binary up to date");
        let mut fail = owned("runner_fresh (");
        append(&mut fail, runner);
        append(&mut fail, ") — binary older than source");
        self.push_line(status_line(!(source_newest > binary), pass.as_str(), fail.as_str()));
    }

    /// The summary line and exit code: the numbers of `  PASS` and `  FAIL`
    /// lines, and 1 exactly when a line reports a failure.
    pub fn summary(&self) -> (r: (String, i32))
        ensures
            r.0@ == decimal(count_prefixed(self.line_views(), "  PASS"@)) + " passed, "@ + decimal(
                count_prefixed(self.line_views(), "  FAIL"@),
            ) + " failed"@,
            r.1 == if count_prefixed(self.line_views(), "  FAIL"@) > 0 {
                1i32
            } else {
                0i32
            },
    {
        let ghost lv = strs_view(self.lines@);
        let mut passed: usize = 0;
        let mut failed: usize = 0;
        for i in 0..self.lines.len()
            invariant
                lv == strs_view(self.lines@),
                passed == count_prefixed(lv.take(i as int), "  PASS"@),
                failed == count_prefixed(lv.take(i as int), "  FAIL"@),
                passed <= i,
                failed <= i,
        {
            assert(lv.take(i + 1).drop_last() =~= lv.take(i as int));
            assert(lv.take(i + 1).last() == self.lines@[i as int]@);
            if starts_with(self.lines[i].as_str(), "  PASS") {
                passed = passed + 1;
            }
            if starts_with(self.lines[i].as_str(), "  FAIL") {
                failed = failed + 1;
            }
        }
        assert(lv.take(lv.len() as int) =~= lv);
        doctor_summary(passed, failed)
    }
}

} // verus!
