use tctl::baseline::{
    first_existing,
    baseline_candidates, baseline_contents, is_useful_content, mapped_files, BaselineElement,
    BaselineFile,
};
use tctl::cli::{parse_generate_args, parse_global_args, parse_run_args, parse_validate_args};
use tctl::config::{env_var_name, find_platform, CredentialConfig, DeviceConfig, PlatformConfig};
use tctl::doctor::{
    check_command, check_line, check_passes, credentials_set, device_checks, doctor_summary, email_setting, DoctorLog,
    fixtures_loaded, password_setting, DeviceCheck,
    agent_healthy, battery_command, battery_saver_off, device_connected, devices_command,
    health_command, idle_command, idle_registry_present, lines, runners_to_check, wda_command,
    setting_is_off, wda_ready, which_command, which_paths,
};
use tctl::emit::{file_name_from_lowercase, tc_file_name, tc_to_yaml};
use tctl::files::{
    baseline_files_in, file_extension, is_skipped_source, is_tc_file_name, is_yaml_file_name, name_lt,
    sort_names, tc_files_in,
};
use tctl::journey::generate_journeys;
use tctl::resolve::{extract_quoted, find_baseline_match, has_identifier_shape, match_lowered, resolve_assert};
use tctl::run::{env_prefix, run_command, select_devices};
use tctl::types::{
    step_defaults, AssertRef, FunctionalRequirement, GeneratedStep, GeneratedTC, JourneyDef,
    JourneyStepDef, Navigation, SpecInput, StateEntry,
};
use tctl::validate::{
    is_fixture_placeholder_given, is_placeholder_given, is_validatable, unresolved_requires, validate_checked,
    validate_spec, Finding, FixtureFile,
};
use tctl::yaml::YamlValue;

// ── Helpers ──

fn strs(v: &[&str]) -> Vec<String> {
    v.iter().map(|s| s.to_string()).collect()
}

fn state(id: &str, name: &str, target: Option<&str>, renders: Option<&str>) -> StateEntry {
    StateEntry {
        id: id.into(),
        state: name.into(),
        condition: None,
        renders: renders.map(|s| s.to_string()),
        assert_target: target.map(|s| s.to_string()),
        assert_type: None,
        fixture: None,
        requires: None,
        wait_for: None,
        platform_fork: None,
    }
}

fn requirement(id: &str, states: Vec<StateEntry>) -> FunctionalRequirement {
    FunctionalRequirement {
        id: id.into(),
        name: format!("{} name", id),
        fr_type: Some("static".into()),
        navigation: None,
        state_table: states,
    }
}

fn aref(fr: &str, st: &str) -> AssertRef {
    AssertRef { fr: fr.into(), state: st.into(), assert_type: None }
}

fn qa_spec() -> SpecInput {
    SpecInput {
        ticket: None,
        functional_requirements: vec![
            requirement("FR6", vec![state("S1", "has-questions", Some("Questions & Answers"), None)]),
            requirement("FR7", vec![state("S1", "has-questions", Some("Questions & Answers"), None)]),
        ],
        journeys: Some(vec![
            JourneyDef {
                id: "J1".into(),
                name: "Browse".into(),
                auth: None,
                steps: vec![
                    JourneyStepDef::ScrollToAssert { scroll_to_assert: aref("FR6", "S1") },
                    JourneyStepDef::Assert { assert: aref("FR7", "S1") },
                ],
            },
            JourneyDef {
                id: "J2".into(),
                name: "Fork".into(),
                auth: Some(true),
                steps: vec![JourneyStepDef::PlatformFork {
                    platform_fork: vec![
                        ("ios".to_string(), vec![JourneyStepDef::PressBack { press_back: true }]),
                        (
                            "android".to_string(),
                            vec![JourneyStepDef::ScrollTo { scroll_to: "More".into() }],
                        ),
                    ],
                }],
            },
        ]),
    }
}

fn y(s: &str) -> YamlValue {
    YamlValue::Str(s.to_string())
}

fn map(entries: Vec<(&str, YamlValue)>) -> YamlValue {
    YamlValue::Mapping(entries.into_iter().map(|(k, v)| (y(k), v)).collect())
}

fn seq(items: Vec<YamlValue>) -> YamlValue {
    YamlValue::Sequence(items)
}

// ── Resolving assertions ──

#[test]
fn resolve_falls_back_to_state_name_without_target() {
    let st = state("S1", "empty-list", None, Some("An empty list"));
    let (atype, text, source) = resolve_assert(&st, &[]);
    assert_eq!(atype, "element_exists");
    assert_eq!(text, "empty-list");
    assert_eq!(source, "fallback");
}

#[test]
fn resolve_keeps_code_identifier_when_state_name_is_empty() {
    let st = state("S1", "", Some("user_avatar"), None);
    let (_, text, source) = resolve_assert(&st, &[]);
    assert_eq!(text, "user_avatar");
    assert_eq!(source, "fallback");
}

#[test]
fn resolve_keeps_the_given_assert_type() {
    let mut st = state("S1", "x", Some("Sign in"), None);
    st.assert_type = Some("element_gone".into());
    let (atype, text, source) = resolve_assert(&st, &[]);
    assert_eq!(atype, "element_gone");
    assert_eq!(text, "Sign in");
    assert_eq!(source, "spec");
}

#[test]
fn baseline_match_exact_ignores_case() {
    let cs = strs(&["Sign In Now", "SIGN IN"]);
    assert_eq!(find_baseline_match(&cs, "sign in", ""), Some("SIGN IN".to_string()));
}

#[test]
fn baseline_match_by_substring_then_quotes() {
    let cs = strs(&["Welcome back", "Tap to Sign In"]);
    assert_eq!(find_baseline_match(&cs, "sign in", ""), Some("Tap to Sign In".to_string()));
    assert_eq!(find_baseline_match(&cs, "", "Shows 'welcome' banner"), Some("Welcome back".to_string()));
    assert_eq!(find_baseline_match(&cs, "logout", "no quotes"), None);
    assert_eq!(find_baseline_match(&[], "Welcome back", ""), None);
}

#[test]
fn baseline_match_empty_target_matches_first_content_exactly_empty_only() {
    let cs = strs(&["", "Other"]);
    assert_eq!(find_baseline_match(&cs, "", ""), Some(String::new()));
}

#[test]
fn quoted_segments_skip_empty_and_unterminated() {
    assert_eq!(extract_quoted("say '' and \"it's\" then 'open"), vec!["it's", "open"]);
    assert!(extract_quoted("no quotes here").is_empty());
}

// ── Generating journeys ──

#[test]
fn one_test_case_per_journey_in_order() {
    let tcs = generate_journeys(&qa_spec(), None, Some("se.app"), None);
    assert_eq!(tcs.len(), 2);
    assert_eq!(tcs[0].id, "J1");
    assert_eq!(tcs[0].name, "Browse");
    assert_eq!(tcs[0].precondition_activity, "MainActivity");
    assert_eq!(tcs[0].precondition_package.as_deref(), Some("se.app"));
    assert!(!tcs[0].precondition_logged_in);
    assert!(tcs[1].precondition_logged_in);
}

#[test]
fn empty_journey_list_gives_no_test_cases() {
    let mut spec = qa_spec();
    spec.journeys = Some(vec![]);
    assert!(generate_journeys(&spec, None, None, None).is_empty());
}

#[test]
fn default_platform_is_android() {
    let spec = qa_spec();
    let a: Vec<String> = generate_journeys(&spec, None, None, None).iter().map(tc_to_yaml).collect();
    let b: Vec<String> =
        generate_journeys(&spec, None, None, Some("android")).iter().map(tc_to_yaml).collect();
    assert_eq!(a, b);
    let j2 = &generate_journeys(&spec, None, None, None)[1];
    assert_eq!(j2.steps.len(), 1);
    assert_eq!(j2.steps[0].action, "scroll_to");
    assert_eq!(j2.steps[0].target_fuzzy.as_deref(), Some("More"));
}

#[test]
fn platform_fork_without_branch_adds_nothing() {
    let tcs = generate_journeys(&qa_spec(), None, None, Some("web"));
    assert!(tcs[1].steps.is_empty());
    let ios = generate_journeys(&qa_spec(), None, None, Some("ios"));
    assert_eq!(ios[1].steps.len(), 1);
    assert_eq!(ios[1].steps[0].action, "press_back");
}

#[test]
fn scroll_step_directly_precedes_its_assertion() {
    let tcs = generate_journeys(&qa_spec(), None, None, None);
    let steps = &tcs[0].steps;
    assert_eq!(steps.len(), 3);
    assert_eq!(steps[0].action, "scroll_to");
    assert_eq!(steps[1].action, "assert");
    assert_eq!(steps[0].target_fuzzy, steps[1].target_fuzzy);
    assert_eq!(steps[1].source_comment.as_deref(), Some("FR6-S1 (spec)"));
    assert_eq!(steps[2].source_comment.as_deref(), Some("FR7-S1 (spec)"));
}

#[test]
fn preloaded_baselines_are_matched_per_requirement() {
    let baselines = vec![strs(&["All Questions & Answers (3)"]), vec![]];
    let tcs = generate_journeys(&qa_spec(), Some(&baselines), None, None);
    let steps = &tcs[0].steps;
    assert_eq!(steps[0].target_fuzzy.as_deref(), Some("All Questions & Answers (3)"));
    assert_eq!(steps[1].source_comment.as_deref(), Some("FR6-S1 (baseline)"));
    assert_eq!(steps[2].target_fuzzy.as_deref(), Some("Questions & Answers"));
    assert_eq!(steps[2].source_comment.as_deref(), Some("FR7-S1 (spec)"));
}

#[test]
fn unknown_state_gives_unresolved_assertion() {
    let mut spec = qa_spec();
    spec.journeys = Some(vec![JourneyDef {
        id: "J3".into(),
        name: "Missing".into(),
        auth: None,
        steps: vec![JourneyStepDef::Assert { assert: aref("FR99", "S4") }],
    }]);
    let tcs = generate_journeys(&spec, None, None, None);
    let s = &tcs[0].steps[0];
    assert_eq!(s.action, "assert");
    assert_eq!(s.assert_type.as_deref(), Some("element_exists"));
    assert_eq!(s.target_fuzzy.as_deref(), Some("UNRESOLVED:FR99-S4"));
    assert_eq!(s.source_comment.as_deref(), Some("FR99-S4 (unresolved)"));
}

#[test]
fn later_state_with_the_same_key_wins() {
    let mut spec = qa_spec();
    spec.functional_requirements.push(requirement("FR6", vec![state("S1", "x", Some("Second"), None)]));
    let tcs = generate_journeys(&spec, None, None, None);
    assert_eq!(tcs[0].steps[1].target_fuzzy.as_deref(), Some("Second"));
}

#[test]
fn every_step_kind_expands() {
    let mut spec = qa_spec();
    spec.journeys = Some(vec![JourneyDef {
        id: "J4".into(),
        name: "All".into(),
        auth: Some(false),
        steps: vec![
            JourneyStepDef::Type { text: "hello".into() },
            JourneyStepDef::LongPress { long_press: "card".into() },
            JourneyStepDef::Wait { wait: 7 },
            JourneyStepDef::WaitFor { wait_for: strs(&["net"]), timeout: None },
            JourneyStepDef::WaitFor { wait_for: strs(&["db", "ui"]), timeout: Some(4) },
            JourneyStepDef::Tap { tap: "OK".into(), element_type: Some("Button".into()) },
        ],
    }]);
    let s = &generate_journeys(&spec, None, None, None)[0].steps;
    let actions: Vec<&str> = s.iter().map(|x| x.action.as_str()).collect();
    assert_eq!(
        actions,
        vec!["type", "wait_idle", "long_press", "wait_idle", "wait_idle", "wait_idle", "wait_idle", "tap", "wait_idle"]
    );
    assert_eq!(s[0].text.as_deref(), Some("hello"));
    assert_eq!(s[1].seconds, Some(1));
    assert_eq!(s[3].seconds, Some(3));
    assert_eq!(s[4].seconds, Some(7));
    assert_eq!(s[5].seconds, Some(10));
    assert_eq!(s[5].wait_timeout, Some(10));
    assert_eq!(s[5].wait_for, Some(strs(&["net"])));
    assert_eq!(s[6].seconds, Some(4));
    assert_eq!(s[6].wait_timeout, Some(4));
    assert_eq!(s[7].element_type.as_deref(), Some("Button"));
}

#[test]
fn search_site_expands_to_six_steps() {
    let mut spec = qa_spec();
    spec.journeys = Some(vec![JourneyDef {
        id: "J5".into(),
        name: "Search".into(),
        auth: None,
        steps: vec![JourneyStepDef::SearchSite { search_site: "lake".into() }],
    }]);
    let s = &generate_journeys(&spec, None, None, None)[0].steps;
    assert_eq!(s.len(), 6);
    assert_eq!(s[1].seconds, Some(3));
    assert_eq!(s[4].action, "tap");
    assert_eq!(s[4].target_fuzzy.as_deref(), Some("{{fixtures.lake.name}}"));
    assert_eq!(s[4].element_type, None);
    assert_eq!(s[5].seconds, Some(5));
}

// ── YAML output and file names ──

#[test]
fn yaml_text_is_exact() {
    let tc = GeneratedTC {
        id: "J9".into(),
        name: "N".into(),
        precondition_activity: "MainActivity".into(),
        precondition_package: None,
        precondition_logged_in: false,
        steps: vec![
            GeneratedStep {
                action: "wait_idle".into(),
                seconds: Some(10),
                wait_for: Some(strs(&["a", "b"])),
                wait_timeout: Some(10),
                ..step_defaults()
            },
            GeneratedStep {
                action: "open".into(),
                site_id: Some("s1".into()),
                user_id: Some("u1".into()),
                target_fuzzy: Some("Go".into()),
                text: Some("hi".into()),
                ..step_defaults()
            },
            GeneratedStep { action: "assert".into(), ..step_defaults() },
        ],
    };
    assert_eq!(
        tc_to_yaml(&tc),
        "id: J9\nname: \"N\"\nprecondition:\n  activity: MainActivity\nsteps:\n  - action: wait_idle\n    seconds: 10\n    wait_for: [a, b]\n    wait_timeout: 10\n  - action: open\n    site_id: s1\n    user_id: u1\n    target: {content_fuzzy: \"Go\"}\n    text: \"hi\"\n  - assert: element_exists\n"
    );
}

#[test]
fn yaml_opens_with_the_id_line() {
    let tcs = generate_journeys(&qa_spec(), None, None, None);
    for tc in &tcs {
        assert!(tc_to_yaml(tc).starts_with(&format!("id: {}\n", tc.id)));
    }
}

#[test]
fn file_names_lowercase_and_replace_hyphens() {
    assert_eq!(tc_file_name("J-1"), "j_1.yaml");
    assert_eq!(tc_file_name("ÄB-C-d"), "äb_c_d.yaml");
    assert_eq!(tc_file_name(""), ".yaml");
}

#[test]
fn file_name_filters() {
    assert_eq!(file_extension("a.tar.gz"), Some("gz".to_string()));
    assert_eq!(file_extension(".yaml"), None);
    assert_eq!(file_extension("noext"), None);
    assert_eq!(file_extension("a."), Some(String::new()));
    assert_eq!(file_extension(".."), None);
    assert!(is_yaml_file_name("x.yml"));
    assert!(!is_yaml_file_name("x.json"));
    assert!(is_tc_file_name("tc.yaml"));
    assert!(!is_tc_file_name(".hidden.yaml"));
    assert!(!is_tc_file_name("yaml"));
    assert!(is_skipped_source("target"));
    assert!(is_skipped_source(".git"));
    assert!(is_skipped_source("DerivedData"));
    assert!(!is_skipped_source("src"));
}

// ── Baselines ──

fn element(c: Option<&str>) -> BaselineElement {
    BaselineElement { content: c.map(|s| s.to_string()), element_type: None }
}

#[test]
fn baseline_contents_keep_useful_text_only() {
    let f = BaselineFile {
        elements: Some(vec![
            element(Some("ic_home")),
            element(Some("ab")),
            element(Some("Öl")),
            element(None),
            element(Some("btn_ok")),
            element(Some("Sign in")),
        ]),
    };
    assert_eq!(baseline_contents(&f), strs(&["Öl", "Sign in"]));
    assert!(baseline_contents(&BaselineFile { elements: None }).is_empty());
    assert!(is_useful_content("abc"));
    assert!(!is_useful_content("ab"));
}

#[test]
fn baseline_candidates_follow_the_navigation() {
    let mut fr = requirement("FR1", vec![]);
    assert!(baseline_candidates(&fr).is_empty());
    fr.navigation = Some(Navigation {
        target: Some("questions_list".into()),
        via: None,
        baseline_file: Some("custom.yaml".into()),
    });
    assert_eq!(baseline_candidates(&fr), strs(&["custom.yaml", "questions-list.yaml"]));
    assert_eq!(mapped_files("site_detail"), strs(&["site-detail-scrolled.yaml", "site-detail.yaml"]));
    assert_eq!(
        mapped_files("profile_qa_tab"),
        strs(&["profile-qa-scrolled.yaml", "profile-qa.yaml", "profile-dashboard.yaml"])
    );
    assert!(mapped_files("elsewhere").is_empty());
}

// ── Text calls into std ──

#[test]
fn case_mapping_and_trim_through_the_library() {
    // Lowercasing: file names and code identifiers.
    assert_eq!(tc_file_name("ÄB-Ç"), "äb_ç.yaml");
    assert!(!tctl::resolve::is_code_identifier("Ä_b"));
    assert!(tctl::resolve::is_code_identifier("ä_b"));
    // Uppercasing: placeholders are found whatever their case.
    let st = map(vec![("id", y("S1")), ("state", y("s")), ("renders", y("Missing copy")), ("assert_target", y("Go"))]);
    let spec = map(vec![(
        "functional_requirements",
        seq(vec![map(vec![("id", y("FR1")), ("name", y("X")), ("type", y("static")), ("state_table", seq(vec![st]))])]),
    )]);
    let r = validate_spec(&spec, None);
    assert_eq!(r.lines[3], "  ERROR  FR1-S1: placeholder value detected: 'Missing copy'");
    // Trimming: the low-power setting and the `which` output.
    assert!(battery_saver_off("\t0 \r\n"));
    assert_eq!(which_paths("\n /bin/ddb \n"), strs(&["/bin/ddb"]));
}

// ── Validation ──

fn good_state() -> YamlValue {
    map(vec![
        ("id", y("S1")),
        ("state", y("shown")),
        ("renders", y("Shows 'Sign in' button")),
        ("assert_target", y("Sign in")),
    ])
}

fn good_spec() -> YamlValue {
    map(vec![
        ("ticket", map(vec![("id", y("T-1"))])),
        (
            "functional_requirements",
            seq(vec![map(vec![
                ("id", y("FR1")),
                ("name", y("Login")),
                ("type", y("static")),
                ("state_table", seq(vec![good_state()])),
            ])]),
        ),
    ])
}

#[test]
fn valid_spec_passes() {
    let r = validate_spec(&good_spec(), None);
    assert_eq!(
        r.lines,
        strs(&[
            "  PASS  ticket.id present",
            "  PASS  functional_requirements: 1 FRs",
            "  INFO  validating 1 FRs...",
            "",
            "3 passed, 0 errors, 0 warnings",
        ])
    );
    assert_eq!((r.passed, r.failed, r.warnings, r.exit_code), (3, 0, 0, 0));
}

#[test]
fn missing_requirements_stop_validation() {
    let spec = map(vec![("ticket", map(vec![("id", y("T-1"))]))]);
    let r = validate_spec(&spec, None);
    assert_eq!(
        r.lines,
        strs(&["  PASS  ticket.id present", "  ERROR  functional_requirements missing or empty"])
    );
    assert_eq!((r.passed, r.failed, r.exit_code), (1, 1, 1));
    let empty = map(vec![("functional_requirements", seq(vec![]))]);
    let r = validate_spec(&empty, None);
    assert_eq!(
        r.lines,
        strs(&["  ERROR  ticket.id missing", "  ERROR  functional_requirements missing or empty"])
    );
    assert_eq!(r.exit_code, 1);
}

#[test]
fn every_kind_of_finding_is_reported() {
    let st = map(vec![
        ("id", y("S1")),
        ("state", y("avatar")),
        ("renders", y("")),
        ("assert_target", y("user_avatar")),
        ("condition", y("TODO later")),
        ("requires", y("FR1-S1, FR1-S9")),
        ("fixture", y("missing")),
    ]);
    let spec = map(vec![
        (
            "functional_requirements",
            seq(vec![
                map(vec![("id", y("FR1")), ("name", y("X")), ("type", y("other")), ("states", seq(vec![st]))]),
                map(vec![("name", y("No id"))]),
                map(vec![("id", y("FR2")), ("name", y("Y")), ("type", y("interactive"))]),
            ]),
        ),
        (
            "fixtures",
            map(vec![("required", seq(vec![map(vec![("key", y("site_a"))]), map(vec![("key", y("site_b"))])]))]),
        ),
        ("coverage_summary", map(vec![("total_frs", YamlValue::PosInt(2)), ("total_states", YamlValue::PosInt(1))])),
    ]);
    let file = FixtureFile { path: "fx.yaml".into(), content: "site_a: 1".into() };
    let r = validate_spec(&spec, Some(&file));
    assert_eq!(
        r.lines,
        strs(&[
            "  ERROR  ticket.id missing",
            "  PASS  functional_requirements: 3 FRs",
            "  INFO  validating 3 FRs...",
            "  ERROR  FR1: type must be 'static' or 'interactive', got 'other'",
            "  ERROR  FR1-S1: renders is empty",
            "  WARN   FR1-S1: assert_target 'user_avatar' is a code identifier — generator will fall back to state name 'avatar' (likely fails). Add visible UI text.",
            "  ERROR  FR1-S1: placeholder value detected: 'TODO later'",
            "  ERROR  FR1-S1: requires 'FR1-S9' does not resolve to any state",
            "  ERROR  FR1-S1: fixture is placeholder: 'missing'",
            "  ERROR  FR missing id or name",
            "  ERROR  FR2: no states in state_table",
            "  PASS  fixtures.required: 2 entries",
            "  WARN  fixture 'site_b' not found in fx.yaml",
            "  ERROR  coverage_summary.total_frs mismatch (2 != 3)",
            "  PASS  coverage_summary.total_states matches (1 == 1)",
            "",
            "4 passed, 9 errors, 2 warnings",
        ])
    );
    assert_eq!((r.passed, r.failed, r.warnings, r.exit_code), (4, 9, 2, 1));
    assert_eq!(r.lines.iter().filter(|l| l.starts_with("  ERROR")).count(), r.failed);
    assert_eq!(r.lines.iter().filter(|l| l.starts_with("  WARN")).count(), r.warnings);
}

#[test]
fn missing_assert_target_warnings() {
    let quoted = map(vec![("id", y("S1")), ("state", y("a")), ("renders", y("Shows \"Hi\""))]);
    let plain = map(vec![("id", y("S2")), ("state", y("b")), ("renders", y("Shows a list"))]);
    let spec = map(vec![
        ("ticket", map(vec![("id", y("T"))])),
        (
            "functional_requirements",
            seq(vec![map(vec![
                ("id", y("FR1")),
                ("name", y("X")),
                ("type", y("static")),
                ("state_table", seq(vec![quoted, plain])),
            ])]),
        ),
        ("coverage_summary", map(vec![("total_frs", YamlValue::PosInt(1))])),
    ]);
    let r = validate_spec(&spec, None);
    assert_eq!(
        r.lines[3..].to_vec(),
        strs(&[
            "  WARN  FR1-S1: no assert_target — generator will extract from renders quoted strings",
            "  WARN  FR1-S2: no assert_target and no quoted text in renders — generator will fall back to state name 'b' (likely fails). Add assert_target.",
            "  PASS  coverage_summary.total_frs matches (1 == 1)",
            "  ERROR  coverage_summary.total_states mismatch (0 != 2)",
            "",
            "4 passed, 1 errors, 2 warnings",
        ])
    );
}

#[test]
fn placeholder_cut_inside_a_character_is_refused() {
    let renders = format!("MISSING{}é", "a".repeat(42));
    let st = map(vec![("id", y("S1")), ("state", y("s")), ("renders", y(&renders)), ("assert_target", y("Go"))]);
    let spec = map(vec![(
        "functional_requirements",
        seq(vec![map(vec![("id", y("FR1")), ("name", y("X")), ("state_table", seq(vec![st]))])]),
    )]);
    assert!(!is_validatable(&spec));
    assert!(validate_checked(&spec, None).is_none());
    assert!(validate_checked(&good_spec(), None).is_some());
}

#[test]
fn long_placeholder_is_cut_at_fifty_bytes() {
    let long = format!("TBD {}", "x".repeat(60));
    let st = map(vec![("id", y("S1")), ("state", y("s")), ("renders", y(&long)), ("assert_target", y("Go"))]);
    let spec = map(vec![(
        "functional_requirements",
        seq(vec![map(vec![("id", y("FR1")), ("name", y("X")), ("type", y("static")), ("state_table", seq(vec![st]))])]),
    )]);
    let r = validate_checked(&spec, None).unwrap();
    assert_eq!(r.lines[3], format!("  ERROR  FR1-S1: placeholder value detected: '{}'", &long[..50]));
}

// ── Command lines ──

#[test]
fn global_arguments() {
    let g = parse_global_args(&strs(&["tctl", "--project", "p.yaml", "run", "-d", "x"]));
    assert_eq!(g.project.as_deref(), Some("p.yaml"));
    assert_eq!(g.command, "run");
    assert_eq!(g.rest_start, 4);
    let g = parse_global_args(&strs(&["tctl", "-v"]));
    assert_eq!(g.command, "");
    assert_eq!(g.rest_start, 2);
    let g = parse_global_args(&strs(&["tctl", "doctor", "--project"]));
    assert_eq!(g.project, None);
    assert_eq!(g.command, "doctor");
}

#[test]
fn generate_arguments() {
    let a = parse_generate_args(&strs(&[
        "spec.yaml", "--output-dir", "out", "--platform", "ios", "--package", "se.x", "--baseline-dir", "b", "other",
    ]));
    assert_eq!(a.spec_path.as_deref(), Some("spec.yaml"));
    assert_eq!(a.output_dir, "out");
    assert_eq!(a.platform.as_deref(), Some("ios"));
    assert_eq!(a.package.as_deref(), Some("se.x"));
    assert_eq!(a.baseline_dir.as_deref(), Some("b"));
    let d = parse_generate_args(&strs(&["--project", "p", "--output-dir"]));
    assert_eq!(d.spec_path, None);
    assert_eq!(d.output_dir, "generated");
}

#[test]
fn validate_arguments() {
    let a = parse_validate_args(&strs(&["--project", "p", "spec.yaml", "--fixtures", "f.yaml"]));
    assert_eq!(a.spec_path.as_deref(), Some("spec.yaml"));
    assert_eq!(a.fixtures_path.as_deref(), Some("f.yaml"));
    let b = parse_validate_args(&strs(&["--fixtures"]));
    assert_eq!(b.spec_path, None);
    assert_eq!(b.fixtures_path, None);
}

#[test]
fn run_arguments() {
    let a = parse_run_args(&strs(&["-d", "dev1", "--capture-baseline", "--suite", "s", "-p"]));
    assert_eq!(a.device.as_deref(), Some("dev1"));
    assert_eq!(a.suite.as_deref(), Some("s"));
    assert_eq!(a.platform, None);
    assert!(a.capture_baseline);
}

// ── Running suites ──

fn device(name: &str, platform: &str) -> DeviceConfig {
    DeviceConfig { name: name.into(), platform: platform.into() }
}

fn platform(runner: &str, port: u16, prefix: Option<&str>) -> PlatformConfig {
    PlatformConfig {
        package: "se.app".into(),
        runner: runner.into(),
        agent_port: port,
        source: None,
        runner_prefix: prefix.map(|s| s.to_string()),
        home_tab: None,
    }
}

#[test]
fn device_selection() {
    let ds = vec![device("d1", "android"), device("d2", "ios"), device("d3", "android")];
    assert_eq!(select_devices(&ds, Some("d2"), Some("android")), vec![1]);
    assert_eq!(select_devices(&ds, None, Some("android")), vec![0, 2]);
    assert_eq!(select_devices(&ds, None, None), vec![0, 1, 2]);
    assert!(select_devices(&ds, Some("none"), None).is_empty());
}

#[test]
fn environment_prefix() {
    assert_eq!(
        env_prefix(true, "a@b", "pw", "/fx", 8080, &Some("home".to_string())),
        "IDB_TEST_EMAIL=a@b IDB_TEST_PASSWORD=pw IDB_FIXTURES_PATH=/fx IDB_AGENT_PORT=8080 IDB_HOME_TAB=home "
    );
    assert_eq!(env_prefix(false, "", "", "", 9000, &None), "DDB_AGENT_PORT=9000 ");
}

#[test]
fn run_commands() {
    let files = strs(&["a.yaml", "b.yaml"]);
    assert_eq!(
        run_command(&device("Pixel", "android"), &platform("ddb", 9000, Some("tmux-shell")), Some("cat.json"), true, &files, "", "", ""),
        "tmux-shell DDB_AGENT_PORT=9000 ddb test -d Pixel --capture-baseline a.yaml b.yaml"
    );
    assert_eq!(
        run_command(&device("iPhone", "ios"), &platform("idb", 8100, None), Some("c.json"), false, &strs(&["t.yaml"]), "e", "", ""),
        "IDB_TEST_EMAIL=e IDB_AGENT_PORT=8100 idb test run -d iPhone --catalogue c.json t.yaml"
    );
}

#[test]
fn environment_references_and_platform_lookup() {
    assert_eq!(env_var_name("${HOME}"), Some("HOME".to_string()));
    assert_eq!(env_var_name("${}"), Some(String::new()));
    assert_eq!(env_var_name("plain"), None);
    assert_eq!(env_var_name("${OPEN"), None);
    let ps = vec![("android".to_string(), platform("ddb", 1, None)), ("ios".to_string(), platform("idb", 2, None))];
    assert_eq!(find_platform(&ps, "ios"), Some(1));
    assert_eq!(find_platform(&ps, "web"), None);
}

// ── Doctor ──

#[test]
fn doctor_commands() {
    assert_eq!(devices_command("ddb"), "ddb devices 2>&1");
    assert_eq!(wda_command("idb", "iPhone"), "idb wda status iPhone 2>&1");
    assert_eq!(health_command("ios", 8100), "curl -s --connect-timeout 2 --max-time 5 http://192.168.1.114:8100/health");
    assert_eq!(idle_command("android", 9000), "curl -s --connect-timeout 2 --max-time 5 http://localhost:9000/idle-resources");
    assert_eq!(idle_command("ios", 8100), "curl -s --connect-timeout 2 --max-time 5 http://192.168.1.114:8100/idle-resources");
    assert_eq!(battery_command("ddb", "Pixel"), "ddb adb -d Pixel shell settings get global low_power 2>&1");
    assert_eq!(which_command("ddb"), "which -a ddb 2>/dev/null");
}

#[test]
fn doctor_verdicts() {
    assert!(device_connected(0, "List:\nPixel 7\n", "Pixel"));
    assert!(!device_connected(1, "Pixel", "Pixel"));
    assert!(wda_ready("status: READY"));
    assert!(!wda_ready("ready"));
    assert!(agent_healthy(0, "{\"status\":\"ok\"}"));
    assert!(!agent_healthy(7, "{\"status\":\"ok\"}"));
    assert!(!agent_healthy(0, "not ok"));
    assert!(!agent_healthy(0, "{\"status\": \"ok\"}"));
    assert!(idle_registry_present(0, "[\"navigation\", \"layout\"]"));
    assert!(idle_registry_present(0, "spinner"));
    assert!(idle_registry_present(0, "animation"));
    assert!(!idle_registry_present(0, "ui_thread idle"));
    assert!(!idle_registry_present(1, "navigation"));
    assert!(battery_saver_off(" 0\n"));
    assert!(!battery_saver_off("1"));
}

#[test]
fn doctor_lines_and_runners() {
    assert_eq!(lines("a\r\nb\n"), strs(&["a", "b"]));
    assert_eq!(lines("a\n\nb"), strs(&["a", "", "b"]));
    assert!(lines("").is_empty());
    assert_eq!(which_paths("  /usr/bin/ddb\n/opt/ddb\n"), strs(&["/usr/bin/ddb", "/opt/ddb"]));
    assert!(which_paths(" \n").is_empty());
    let ps = vec![
        ("android".to_string(), platform("ddb", 1, None)),
        ("ios".to_string(), platform("idb", 2, None)),
        ("tv".to_string(), platform("ddb", 3, None)),
    ];
    assert_eq!(runners_to_check(&ps), vec![0, 1]);
}

// ── Ordering directory listings ──

#[test]
fn names_sort_by_character() {
    assert!(name_lt("a", "b"));
    assert!(name_lt("ab", "abc"));
    assert!(!name_lt("abc", "ab"));
    assert!(!name_lt("x", "x"));
    assert!(name_lt("Z", "a"));
    assert!(name_lt("z", "é"));
    assert_eq!(
        sort_names(&strs(&["b.yaml", "a.yaml", "B.yaml", "a.yaml", "ä.yaml"])),
        strs(&["B.yaml", "a.yaml", "a.yaml", "b.yaml", "ä.yaml"])
    );
    assert!(sort_names(&vec![]).is_empty());
}

#[test]
fn suite_listing_keeps_visible_yaml_files_sorted() {
    let names = strs(&["tc2.yml", ".swap.yaml", "notes.txt", "tc10.yaml", "tc1.yaml", "dir"]);
    assert_eq!(tc_files_in(&names), strs(&["tc1.yaml", "tc10.yaml", "tc2.yml"]));
}

#[test]
fn baseline_listing_keeps_yaml_extension_only_sorted() {
    let names = strs(&["site.yaml", "a.yml", ".hidden.yaml", "questions.yaml", "x.json"]);
    assert_eq!(baseline_files_in(&names), strs(&[".hidden.yaml", "questions.yaml", "site.yaml"]));
}

// ── Logic that follows a case mapping or a trim ──

#[test]
fn identifier_shape_given_lowercase_form() {
    assert!(has_identifier_shape("user_avatar", "user_avatar"));
    assert!(!has_identifier_shape("User_avatar", "user_avatar"));
    assert!(!has_identifier_shape("user avatar_x", "user avatar_x"));
    assert!(!has_identifier_shape("", ""));
}

#[test]
fn matching_on_lowercase_forms() {
    let ls = strs(&["welcome back", "tap to sign in", "sign in"]);
    assert_eq!(match_lowered(&ls, "sign in", &vec![]), Some(2));
    assert_eq!(match_lowered(&ls, "sign", &vec![]), Some(1));
    assert_eq!(match_lowered(&ls, "", &strs(&["nothing", "back"])), Some(0));
    assert_eq!(match_lowered(&ls, "logout", &strs(&["nothing"])), None);
    assert_eq!(match_lowered(&vec![], "", &vec![]), None);
}

#[test]
fn file_name_from_lowercase_id() {
    assert_eq!(file_name_from_lowercase("fr6-s1"), "fr6_s1.yaml");
    assert_eq!(file_name_from_lowercase("Keep-Case"), "Keep_Case.yaml");
}

#[test]
fn placeholders_given_uppercase_forms() {
    assert!(is_placeholder_given("missing value", "MISSING VALUE"));
    assert!(!is_placeholder_given("missing value", "missing value"));
    assert!(is_placeholder_given("a TODO", "A TODO"));
    assert!(is_placeholder_given("TBD", "TBD"));
    assert!(!is_placeholder_given("todo", "TODO"));
    assert!(is_fixture_placeholder_given("missing", "MISSING"));
    assert!(!is_fixture_placeholder_given("missing site", "MISSING SITE"));
    assert!(is_fixture_placeholder_given("site TODO", "SITE TODO"));
}

#[test]
fn unresolved_requires_references() {
    let keys = strs(&["FR1-S1", "FR1-S2"]);
    let found = unresolved_requires("FR1-S3", &strs(&["FR1-S1", "", "FR9-S1"]), &keys);
    assert_eq!(found.len(), 1);
    match &found[0] {
        Finding::Error(m) => assert_eq!(m, "  ERROR  FR1-S3: requires 'FR9-S1' does not resolve to any state"),
        _ => panic!("expected an error"),
    }
    assert!(unresolved_requires("FR1-S3", &strs(&["FR1-S2"]), &keys).is_empty());
}

#[test]
fn low_power_setting() {
    assert!(setting_is_off("0"));
    assert!(!setting_is_off(" 0"));
    assert!(!setting_is_off("1"));
}

#[test]
fn device_checks_per_platform() {
    let android = device_checks("android");
    assert_eq!(android.len(), 6);
    assert!(android[0] == DeviceCheck::DeviceConnected);
    assert!(android[3] == DeviceCheck::AppInstalled);
    assert!(android[4] == DeviceCheck::BatterySaverOff);
    assert!(android[5] == DeviceCheck::AnimationsDisabled);
    let ios = device_checks("ios");
    assert_eq!(ios.len(), 6);
    assert!(ios[1] == DeviceCheck::WdaReady);
    assert!(ios[5] == DeviceCheck::AnimationsDisabled);
    assert_eq!(device_checks("web").len(), 5);

    let dev = device("Pixel", "android");
    let plat = platform("ddb", 9000, None);
    assert_eq!(check_command(DeviceCheck::DeviceConnected, &dev, &plat), "ddb devices 2>&1");
    assert_eq!(
        check_command(DeviceCheck::BatterySaverOff, &dev, &plat),
        "ddb adb -d Pixel shell settings get global low_power 2>&1"
    );
    assert_eq!(check_command(DeviceCheck::AppInstalled, &dev, &plat), "ddb adb -d Pixel shell pm list packages 2>&1");
    assert_eq!(
        check_command(DeviceCheck::AnimationsDisabled, &dev, &plat),
        "curl -s -X POST http://localhost:9000/animations -d '{\"enabled\":false}'"
    );
    let phone = device("iPhone", "ios");
    let iplat = platform("idb", 8100, None);
    assert_eq!(check_command(DeviceCheck::AppInstalled, &phone, &iplat), "idb app launch -d iPhone se.app 2>&1");
    assert!(check_passes(DeviceCheck::WdaReady, 1, "READY at http://x", &dev, &plat));
    assert!(!check_passes(DeviceCheck::DeviceConnected, 0, "iPhone", &dev, &plat));
    assert!(check_passes(DeviceCheck::BatterySaverOff, 0, "0\n", &dev, &plat));
    assert!(check_passes(DeviceCheck::AppInstalled, 0, "package:se.app\npackage:other", &dev, &plat));
    assert!(!check_passes(DeviceCheck::AppInstalled, 0, "package:other", &dev, &plat));
    assert!(check_passes(DeviceCheck::AppInstalled, 0, "", &phone, &iplat));
    assert!(!check_passes(DeviceCheck::AppInstalled, 1, "", &phone, &iplat));
    assert!(check_passes(DeviceCheck::AnimationsDisabled, 0, "{\"enabled\":false}", &dev, &plat));
    assert!(!check_passes(DeviceCheck::AnimationsDisabled, 7, "", &dev, &plat));
    assert_eq!(check_line(DeviceCheck::DeviceConnected, false, &dev, &plat), "  FAIL  device_connected — 'Pixel' not found");
    assert_eq!(
        check_line(DeviceCheck::AgentHealth, false, &dev, &plat),
        "  FAIL  agent_health — agent not responding on port 9000"
    );
    assert_eq!(check_line(DeviceCheck::IdleResources, true, &dev, &plat), "  PASS  idle_resources");
    assert_eq!(check_line(DeviceCheck::AppInstalled, false, &dev, &plat), "  FAIL  app_installed — 'se.app' not installed");
}

#[test]
fn doctor_log_counts_its_lines() {
    let dev = device("Pixel", "android");
    let plat = platform("ddb", 9000, None);
    let mut log = DoctorLog::new();
    log.record_check(DeviceCheck::DeviceConnected, true, &dev, &plat);
    log.record_credentials(false);
    log.record_fixtures(Some(3), true, "fx.yaml");
    log.record_fixtures(None, false, "gone.yaml");
    log.record_runner_paths("ddb", &strs(&["/a/ddb", "/b/ddb"]));
    log.record_runner_paths("idb", &vec![]);
    log.record_runner_version("ddb", 0, "ddb 1.2\n");
    log.record_runner_version("idb", 0, " \n");
    log.record_freshness("ddb", 5, 9);
    log.record_freshness("ddb", 9, 5);
    assert_eq!(
        log.lines().clone(),
        strs(&[
            "  PASS  device_connected",
            "  FAIL  credentials — credentials not set",
            "  PASS  fixtures (loaded 3 fixtures from fx.yaml)",
            "  FAIL  fixtures — gone.yaml not found",
            "  PASS  runner_path (ddb) → /a/ddb",
            "  WARN  runner_path (ddb) — 2 copies in PATH: /a/ddb, /b/ddb",
            "  FAIL  runner_path (idb) — not found in PATH",
            "  PASS  runner_version (ddb)",
            "  FAIL  runner_version (idb) — rebuild runner from source",
            "  PASS  runner_fresh (ddb) — binary up to date",
            "  FAIL  runner_fresh (ddb) — binary older than source",
        ])
    );
    assert_eq!(log.summary(), ("5 passed, 5 failed".to_string(), 1));
    assert_eq!(DoctorLog::new().summary(), ("0 passed, 0 failed".to_string(), 0));
}

#[test]
fn credentials_setting_defaults_to_the_ios_variable() {
    assert_eq!(email_setting(&None), "${IDB_TEST_EMAIL}");
    assert_eq!(email_setting(&Some(CredentialConfig { email: None, password: None })), "${IDB_TEST_EMAIL}");
    let c = Some(CredentialConfig { email: Some("${MY_MAIL}".into()), password: None });
    assert_eq!(email_setting(&c), "${MY_MAIL}");
}

#[test]
fn credentials_need_email_and_password() {
    assert_eq!(password_setting(&None), "${IDB_TEST_PASSWORD}");
    let c = Some(CredentialConfig { email: None, password: Some("secret".into()) });
    assert_eq!(password_setting(&c), "secret");
    assert!(credentials_set("a@b", "pw"));
    assert!(!credentials_set("a@b", ""));
    assert!(!credentials_set("", "pw"));
}

#[test]
fn fixtures_file_must_hold_a_fixture() {
    let two = map(vec![("site_a", map(vec![])), ("site_b", map(vec![]))]);
    assert_eq!(fixtures_loaded(Some(&two)), Some(2));
    assert_eq!(fixtures_loaded(Some(&YamlValue::Tagged(Box::new(map(vec![("k", y("v"))]))))), Some(1));
    assert_eq!(fixtures_loaded(Some(&map(vec![]))), None);
    assert_eq!(fixtures_loaded(Some(&y("text"))), None);
    assert_eq!(fixtures_loaded(None), None);
}

#[test]
fn doctor_summary_and_exit_code() {
    assert_eq!(doctor_summary(7, 0), ("7 passed, 0 failed".to_string(), 0));
    assert_eq!(doctor_summary(3, 2), ("3 passed, 2 failed".to_string(), 1));
}

#[test]
fn trimming_removes_unicode_whitespace() {
    assert_eq!(tctl::text::trim("\u{3000} a b\u{a0}\t"), "a b");
    assert_eq!(tctl::text::trim(" \n "), "");
    assert_eq!(tctl::text::trim("x\u{200b}"), "x\u{200b}");
}

#[test]
fn first_existing_baseline_candidate_is_chosen() {
    let cs = strs(&["custom.yaml", "site-detail-scrolled.yaml", "site-detail.yaml"]);
    assert_eq!(first_existing(&cs, &vec![false, true, true]), Some("site-detail-scrolled.yaml".to_string()));
    assert_eq!(first_existing(&cs, &vec![true, false, true]), Some("custom.yaml".to_string()));
    assert_eq!(first_existing(&cs, &vec![false, false, false]), None);
    assert_eq!(first_existing(&vec![], &vec![]), None);
}
