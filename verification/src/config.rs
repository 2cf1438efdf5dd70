//! The project file: platforms, devices, and where the suite, catalogue
//! and fixtures live.
use vstd::prelude::*;

use crate::text::{has_prefix, owned, starts_with};

verus! {

/// A project: its platforms (by name), devices and paths. The platforms are
/// read from a YAML mapping, whose keys are distinct, so the first platform
/// with a name is the only one.
pub struct ProjectConfig {
    pub project: String,
    pub platforms: Vec<(String, PlatformConfig)>,
    pub devices: Vec<DeviceConfig>,
    pub catalogue: Option<String>,
    pub fixtures: Option<String>,
    pub suite: Option<String>,
    pub credentials: Option<CredentialConfig>,
    pub hooks: Option<HooksConfig>,
}

/// Scripts run before and after a suite.
pub struct HooksConfig {
    pub pre_run: Option<String>,
    pub post_run: Option<String>,
}

/// How to drive one platform.
pub struct PlatformConfig {
    pub package: String,
    pub runner: String,
    pub agent_port: u16,
    pub source: Option<String>,
    pub runner_prefix: Option<String>,
    pub home_tab: Option<String>,
}

/// One device, by name, and its platform.
pub struct DeviceConfig {
    pub name: String,
    pub platform: String,
}

/// Test account credentials (values may name environment variables).
pub struct CredentialConfig {
    pub email: Option<String>,
    pub password: Option<String>,
}

/// The index of the first platform named `name`.
pub open spec fn platform_index(platforms: Seq<(String, PlatformConfig)>, name: Seq<char>, i: int) -> Option<
    int,
>
    decreases platforms.len() - i,
{
    if i < 0 || i >= platforms.len() {
        None
    } else if platforms[i].0@ == name {
        Some(i)
    } else {
        platform_index(platforms, name, i + 1)
    }
}

/// The configuration of the platform named `name`: the first so named (the
/// only one, platform names being distinct).
pub fn find_platform(platforms: &Vec<(String, PlatformConfig)>, name: &str) -> (r: Option<usize>)
    ensures
        match r {
            Some(i) => platform_index(platforms@, name@, 0) == Some(i as int) && i < platforms@.len(),
            None => platform_index(platforms@, name@, 0) is None,
        },
{
    let n = owned(name);
    let mut i: usize = 0;
    while i < platforms.len()
        invariant
            n@ == name@,
            i <= platforms@.len(),
            platform_index(platforms@, name@, 0) == platform_index(platforms@, name@, i as int),
        decreases platforms.len() - i,
    {
        if platforms[i].0 == n {
            return Some(i);
        }
        i = i + 1;
    }
    None
}

/// The environment variable a value names, written `${NAME}`.
pub open spec fn env_reference(s: Seq<char>) -> Option<Seq<char>> {
    if has_prefix(s, "${"@) && s.len() >= 3 && s.last() == '}' {
        Some(s.subrange(2, s.len() - 1))
    } else {
        None
    }
}

/// The environment variable a value names, if it is written `${NAME}`.
pub fn env_var_name(s: &str) -> (r: Option<String>)
    ensures
        crate::text::opt_view(r) == env_reference(s@),
{
    let v = crate::text::chars_of(s);
    proof {
        reveal_strlit("${");
    }
    if starts_with(s, "${") && v.len() >= 3 && v[v.len() - 1] == '}' {
        let mut name = String::new();
        for i in 2..v.len() - 1
            invariant
                v@ == s@,
                v@.len() >= 3,
                name@ == v@.subrange(2, i as int),
        {
            crate::text::push_char(&mut name, v[i]);
            assert(v@.subrange(2, i + 1) =~= v@.subrange(2, i as int).push(v@[i as int]));
        }
        Some(name)
    } else {
        None
    }
}

} // verus!
