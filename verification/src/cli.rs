//! Reading the command line: the global options and each command's own.
use vstd::prelude::*;

use crate::text::{has_prefix, owned, starts_with, strs_view};

verus! {

/// The view of an argument picked by index, if any.
pub open spec fn pick(args: Seq<Seq<char>>, k: Option<int>) -> Option<Seq<char>> {
    match k {
        Some(i) => Some(args[i]),
        None => None,
    }
}

/// An argument that is not an option (does not begin with `-`).
pub open spec fn is_operand(a: Seq<char>) -> bool {
    !has_prefix(a, "-"@)
}

// ── Global options ──

/// Where the global scan stands: the index of the project path, of the
/// command, and whether the next argument is the project path itself.
pub struct GlobalScan {
    pub project: Option<int>,
    pub command: Option<int>,
    pub skip: bool,
}

/// The global scan over `args[1..i]`: `--project <path>` anywhere, and the
/// first non-empty operand as the command.
pub open spec fn global_scan(args: Seq<Seq<char>>, i: int) -> GlobalScan
    decreases i,
{
    if i <= 1 {
        GlobalScan { project: None, command: None, skip: false }
    } else {
        let prev = global_scan(args, i - 1);
        let k = i - 1;
        let command_empty = match prev.command {
            Some(c) => args[c].len() == 0,
            None => true,
        };
        if prev.skip {
            GlobalScan { skip: false, ..prev }
        } else if args[k] == "--project"@ && k + 1 < args.len() {
            GlobalScan { project: Some(k + 1), skip: true, ..prev }
        } else if command_empty && is_operand(args[k]) {
            GlobalScan { command: Some(k), ..prev }
        } else {
            prev
        }
    }
}

/// The global options: the project file, the command, and where the
/// command's own arguments start.
pub struct GlobalArgs {
    pub project: Option<String>,
    pub command: String,
    pub rest_start: usize,
}

/// Reads the global options from the full command line (`args[0]` is the
/// program).
pub fn parse_global_args(args: &[String]) -> (r: GlobalArgs)
    ensures
        ({
            let a = strs_view(args@);
            let st = global_scan(a, a.len() as int);
            &&& crate::text::opt_view(r.project) == pick(a, st.project)
            &&& r.command@ == match st.command {
                Some(c) => a[c],
                None => Seq::empty(),
            }
            &&& r.rest_start == match st.command {
                Some(c) => c + 1,
                None => a.len() as int,
            }
        }),
{
    let ghost a = strs_view(args@);
    if args.len() <= 1 {
        assert(global_scan(a, a.len() as int) == global_scan(a, 1));
        return GlobalArgs { project: None, command: String::new(), rest_start: args.len() };
    }
    let mut project: Option<String> = None;
    let mut command = String::new();
    let mut rest_start = args.len();
    let mut skip_next = false;
    let mut i: usize = 1;
    while i < args.len()
        invariant
            a == strs_view(args@),
            a.len() == args@.len(),
            1 <= i <= args@.len(),
            ({
                let st = global_scan(a, i as int);
                &&& crate::text::opt_view(project) == pick(a, st.project)
                &&& skip_next == st.skip
                &&& (st.command matches Some(c) ==> 0 <= c < i)
                &&& command@ == match st.command {
                    Some(c) => a[c],
                    None => Seq::empty(),
                }
                &&& rest_start == match st.command {
                    Some(c) => c + 1,
                    None => args@.len() as int,
                }
            }),
        decreases args.len() - i,
    {
        if skip_next {
            skip_next = false;
        } else if args[i] == owned("--project") && i + 1 < args.len() {
            project = Some(args[i + 1].clone());
            skip_next = true;
        } else if command.as_str().is_empty() && !starts_with(args[i].as_str(), "-") {
            command = args[i].clone();
            rest_start = i + 1;
        }
        i = i + 1;
    }
    GlobalArgs { project, command, rest_start }
}

// ── `generate` ──

/// The arguments `generate` picked, by index.
pub struct GeneratePicks {
    pub spec: Option<int>,
    pub output_dir: Option<int>,
    pub baseline_dir: Option<int>,
    pub platform: Option<int>,
    pub package: Option<int>,
}

/// The scan of `generate`'s arguments from position `i`: options with a
/// value take the next argument (the last one given wins), `--project`
/// and its value are skipped, the first operand is the spec path, and
/// anything else is ignored.
pub open spec fn generate_scan(args: Seq<Seq<char>>, i: int, acc: GeneratePicks) -> GeneratePicks
    decreases args.len() - i,
{
    if i < 0 || i >= args.len() {
        acc
    } else {
        let a = args[i];
        let has_value = i + 1 < args.len();
        if a == "--output-dir"@ && has_value {
            generate_scan(args, i + 2, GeneratePicks { output_dir: Some(i + 1), ..acc })
        } else if a == "--baseline-dir"@ && has_value {
            generate_scan(args, i + 2, GeneratePicks { baseline_dir: Some(i + 1), ..acc })
        } else if a == "--platform"@ && has_value {
            generate_scan(args, i + 2, GeneratePicks { platform: Some(i + 1), ..acc })
        } else if a == "--package"@ && has_value {
            generate_scan(args, i + 2, GeneratePicks { package: Some(i + 1), ..acc })
        } else if a == "--project"@ && has_value {
            generate_scan(args, i + 2, acc)
        } else if is_operand(a) && acc.spec is None {
            generate_scan(args, i + 1, GeneratePicks { spec: Some(i), ..acc })
        } else {
            generate_scan(args, i + 1, acc)
        }
    }
}

/// What `generate` picks from its arguments.
pub open spec fn generate_picks(args: Seq<Seq<char>>) -> GeneratePicks {
    generate_scan(
        args,
        0,
        GeneratePicks {
            spec: None,
            output_dir: None,
            baseline_dir: None,
            platform: None,
            package: None,
        },
    )
}

/// The arguments of `generate`.
pub struct GenerateArgs {
    pub spec_path: Option<String>,
    pub output_dir: String,
    pub baseline_dir: Option<String>,
    pub platform: Option<String>,
    pub package: Option<String>,
}

/// Reads the arguments of `generate`; the output directory defaults to
/// `generated`.
pub fn parse_generate_args(args: &[String]) -> (r: GenerateArgs)
    ensures
        ({
            let a = strs_view(args@);
            let p = generate_picks(a);
            &&& crate::text::opt_view(r.spec_path) == pick(a, p.spec)
            &&& r.output_dir@ == match p.output_dir {
                Some(k) => a[k],
                None => "generated"@,
            }
            &&& crate::text::opt_view(r.baseline_dir) == pick(a, p.baseline_dir)
            &&& crate::text::opt_view(r.platform) == pick(a, p.platform)
            &&& crate::text::opt_view(r.package) == pick(a, p.package)
        }),
{
    let ghost a = strs_view(args@);
    let mut spec_path: Option<String> = None;
    let mut output_dir = owned("generated");
    let mut baseline_dir: Option<String> = None;
    let mut platform: Option<String> = None;
    let mut package: Option<String> = None;
    let ghost mut acc = GeneratePicks {
        spec: None,
        output_dir: None,
        baseline_dir: None,
        platform: None,
        package: None,
    };
    let mut i: usize = 0;
    while i < args.len()
        invariant
            a == strs_view(args@),
            i <= args@.len(),
            generate_picks(a) == generate_scan(a, i as int, acc),
            crate::text::opt_view(spec_path) == pick(a, acc.spec),
            output_dir@ == match acc.output_dir {
                Some(k) => a[k],
                None => "generated"@,
            },
            crate::text::opt_view(baseline_dir) == pick(a, acc.baseline_dir),
            crate::text::opt_view(platform) == pick(a, acc.platform),
            crate::text::opt_view(package) == pick(a, acc.package),
        decreases args.len() - i,
    {
        let has_value = i + 1 < args.len();
        if args[i] == owned("--output-dir") && has_value {
            output_dir = args[i + 1].clone();
            proof {
                acc = GeneratePicks { output_dir: Some(i + 1), ..acc };
            }
            i = i + 2;
        } else if args[i] == owned("--baseline-dir") && has_value {
            baseline_dir = Some(args[i + 1].clone());
            proof {
                acc = GeneratePicks { baseline_dir: Some(i + 1), ..acc };
            }
            i = i + 2;
        } else if args[i] == owned("--platform") && has_value {
            platform = Some(args[i + 1].clone());
            proof {
                acc = GeneratePicks { platform: Some(i + 1), ..acc };
            }
            i = i + 2;
        } else if args[i] == owned("--package") && has_value {
            package = Some(args[i + 1].clone());
            proof {
                acc = GeneratePicks { package: Some(i + 1), ..acc };
            }
            i = i + 2;
        } else if args[i] == owned("--project") && has_value {
            i = i + 2;
        } else if !starts_with(args[i].as_str(), "-") && spec_path.is_none() {
            spec_path = Some(args[i].clone());
            proof {
                acc = GeneratePicks { spec: Some(i as int), ..acc };
            }
            i = i + 1;
        } else {
            i = i + 1;
        }
    }
    GenerateArgs { spec_path, output_dir, baseline_dir, platform, package }
}

// ── `validate` ──

/// The arguments `validate` picked, by index.
pub struct ValidatePicks {
    pub spec: Option<int>,
    pub fixtures: Option<int>,
}

/// The scan of `validate`'s arguments from position `i`: `--fixtures`
/// takes the next argument, `--project` and its value are skipped, the
/// first operand is the spec path, and anything else is ignored.
pub open spec fn validate_scan(args: Seq<Seq<char>>, i: int, acc: ValidatePicks) -> ValidatePicks
    decreases args.len() - i,
{
    if i < 0 || i >= args.len() {
        acc
    } else {
        let a = args[i];
        let has_value = i + 1 < args.len();
        if a == "--fixtures"@ && has_value {
            validate_scan(args, i + 2, ValidatePicks { fixtures: Some(i + 1), ..acc })
        } else if a == "--project"@ && has_value {
            validate_scan(args, i + 2, acc)
        } else if is_operand(a) && acc.spec is None {
            validate_scan(args, i + 1, ValidatePicks { spec: Some(i), ..acc })
        } else {
            validate_scan(args, i + 1, acc)
        }
    }
}

/// The arguments of `validate`.
pub struct ValidateArgs {
    pub spec_path: Option<String>,
    pub fixtures_path: Option<String>,
}

/// Reads the arguments of `validate`.
pub fn parse_validate_args(args: &[String]) -> (r: ValidateArgs)
    ensures
        ({
            let a = strs_view(args@);
            let p = validate_scan(a, 0, ValidatePicks { spec: None, fixtures: None });
            &&& crate::text::opt_view(r.spec_path) == pick(a, p.spec)
            &&& crate::text::opt_view(r.fixtures_path) == pick(a, p.fixtures)
        }),
{
    let ghost a = strs_view(args@);
    let mut spec_path: Option<String> = None;
    let mut fixtures_path: Option<String> = None;
    let ghost mut acc = ValidatePicks { spec: None, fixtures: None };
    let mut i: usize = 0;
    while i < args.len()
        invariant
            a == strs_view(args@),
            i <= args@.len(),
            validate_scan(a, 0, ValidatePicks { spec: None, fixtures: None }) == validate_scan(
                a,
                i as int,
                acc,
            ),
            crate::text::opt_view(spec_path) == pick(a, acc.spec),
            crate::text::opt_view(fixtures_path) == pick(a, acc.fixtures),
        decreases args.len() - i,
    {
        let has_value = i + 1 < args.len();
        if args[i] == owned("--fixtures") && has_value {
            fixtures_path = Some(args[i + 1].clone());
            proof {
                acc = ValidatePicks { fixtures: Some(i + 1), ..acc };
            }
            i = i + 2;
        } else if args[i] == owned("--project") && has_value {
            i = i + 2;
        } else if !starts_with(args[i].as_str(), "-") && spec_path.is_none() {
            spec_path = Some(args[i].clone());
            proof {
                acc = ValidatePicks { spec: Some(i as int), ..acc };
            }
            i = i + 1;
        } else {
            i = i + 1;
        }
    }
    ValidateArgs { spec_path, fixtures_path }
}

// ── `run` ──

/// The arguments `run` picked, by index.
pub struct RunPicks {
    pub device: Option<int>,
    pub platform: Option<int>,
    pub suite: Option<int>,
    pub capture_baseline: bool,
}

/// The argument after position `i`, if there is one.
pub open spec fn next_pick(args: Seq<Seq<char>>, i: int) -> Option<int> {
    if i + 1 < args.len() {
        Some(i + 1)
    } else {
        None
    }
}

/// The scan of `run`'s arguments from position `i`: `-d`/`--device`,
/// `-p`/`--platform` and `--suite` take the next argument (none when it is
/// missing), `--capture-baseline` is a flag, and anything else is ignored.
pub open spec fn run_scan(args: Seq<Seq<char>>, i: int, acc: RunPicks) -> RunPicks
    decreases args.len() + 1 - i,
{
    if i < 0 || i >= args.len() {
        acc
    } else {
        let a = args[i];
        if a == "-d"@ || a == "--device"@ {
            run_scan(args, i + 2, RunPicks { device: next_pick(args, i), ..acc })
        } else if a == "-p"@ || a == "--platform"@ {
            run_scan(args, i + 2, RunPicks { platform: next_pick(args, i), ..acc })
        } else if a == "--suite"@ {
            run_scan(args, i + 2, RunPicks { suite: next_pick(args, i), ..acc })
        } else if a == "--capture-baseline"@ {
            run_scan(args, i + 1, RunPicks { capture_baseline: true, ..acc })
        } else {
            run_scan(args, i + 1, acc)
        }
    }
}

/// The arguments of `run`.
pub struct RunArgs {
    pub device: Option<String>,
    pub platform: Option<String>,
    pub suite: Option<String>,
    pub capture_baseline: bool,
}

/// Reads the arguments of `run`.
pub fn parse_run_args(args: &[String]) -> (r: RunArgs)
    ensures
        ({
            let a = strs_view(args@);
            let p = run_scan(
                a,
                0,
                RunPicks { device: None, platform: None, suite: None, capture_baseline: false },
            );
            &&& crate::text::opt_view(r.device) == pick(a, p.device)
            &&& crate::text::opt_view(r.platform) == pick(a, p.platform)
            &&& crate::text::opt_view(r.suite) == pick(a, p.suite)
            &&& r.capture_baseline == p.capture_baseline
        }),
{
    let ghost a = strs_view(args@);
    let ghost init = RunPicks { device: None, platform: None, suite: None, capture_baseline: false };
    let mut device: Option<String> = None;
    let mut platform: Option<String> = None;
    let mut suite: Option<String> = None;
    let mut capture_baseline = false;
    let ghost mut acc = init;
    let mut i: usize = 0;
    while i < args.len()
        invariant
            a == strs_view(args@),
            i <= args@.len() + 1,
            run_scan(a, 0, init) == run_scan(a, i as int, acc),
            crate::text::opt_view(device) == pick(a, acc.device),
            crate::text::opt_view(platform) == pick(a, acc.platform),
            crate::text::opt_view(suite) == pick(a, acc.suite),
            capture_baseline == acc.capture_baseline,
        decreases args.len() + 1 - i,
    {
        let is_device = args[i] == owned("-d") || args[i] == owned("--device");
        let is_platform = args[i] == owned("-p") || args[i] == owned("--platform");
        let is_suite = args[i] == owned("--suite");
        if is_device || is_platform || is_suite {
            let value = if i + 1 < args.len() {
                Some(args[i + 1].clone())
            } else {
                None
            };
            if is_device {
                device = value;
                proof {
                    acc = RunPicks { device: next_pick(a, i as int), ..acc };
                }
            } else if is_platform {
                platform = value;
                proof {
                    acc = RunPicks { platform: next_pick(a, i as int), ..acc };
                }
            } else {
                suite = value;
                proof {
                    acc = RunPicks { suite: next_pick(a, i as int), ..acc };
                }
            }
            let ghost old_i = i;
            i = if i + 1 < args.len() {
                i + 2
            } else {
                args.len()
            };
            proof {
                if old_i + 1 >= args@.len() {
                    assert(run_scan(a, old_i + 2, acc) == acc);
                    assert(run_scan(a, i as int, acc) == acc);
                }
            }
        } else {
            if args[i] == owned("--capture-baseline") {
                capture_baseline = true;
                proof {
                    acc = RunPicks { capture_baseline: true, ..acc };
                }
            }
            i = i + 1;
        }
    }
    RunArgs { device, platform, suite, capture_baseline }
}

} // verus!
