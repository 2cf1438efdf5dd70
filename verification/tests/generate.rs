use tctl::emit::tc_to_yaml;
use tctl::journey::generate_journeys;
use tctl::resolve::{extract_quoted, is_code_identifier, resolve_assert};
use tctl::types::{
    step_defaults, AssertRef, FunctionalRequirement, GeneratedStep, GeneratedTC, JourneyDef,
    JourneyStepDef, SpecInput, StateEntry,
};

#[test]
fn test_is_code_identifier() {
    assert!(is_code_identifier("portrait_image_url"));
    assert!(is_code_identifier("ic_user_default"));
    assert!(!is_code_identifier("Questions & Answers"));
    assert!(!is_code_identifier("question card"));
    assert!(!is_code_identifier(""));
    assert!(!is_code_identifier("Profile"));
}

#[test]
fn test_resolve_assert_baseline_match() {
    let baseline = vec![
        "Questions & Answers".to_string(),
        "Post question".to_string(),
        "sinisa".to_string(),
    ];
    let state = StateEntry {
        id: "S1".into(),
        state: "has-questions".into(),
        condition: None,
        renders: None,
        assert_target: Some("Questions & Answers".into()),
        assert_type: Some("element_exists".into()),
        fixture: None,
        requires: None,
        wait_for: None,
        platform_fork: None,
    };
    let (_, text, source) = resolve_assert(&state, &baseline);
    assert_eq!(text, "Questions & Answers");
    assert_eq!(source, "baseline");
}

#[test]
fn test_resolve_assert_code_identifier_fallback() {
    let baseline: Vec<String> = vec!["sinisa".into()];
    let state = StateEntry {
        id: "S1".into(),
        state: "User with avatar".into(),
        condition: None,
        renders: Some("Avatar image (26x26 circle) + name + date".into()),
        assert_target: Some("portrait_image_url".into()),
        assert_type: Some("element_exists".into()),
        fixture: None,
        requires: None,
        wait_for: None,
        platform_fork: None,
    };
    let (_, text, source) = resolve_assert(&state, &baseline);
    // "sinisa" does not match "portrait_image_url"; a code identifier
    // falls back to the state name.
    assert_eq!(text, "User with avatar");
    assert_eq!(source, "state_name");
}

#[test]
fn test_resolve_assert_spec_text() {
    let state = StateEntry {
        id: "S1".into(),
        state: "org-answer".into(),
        condition: None,
        renders: None,
        assert_target: Some("organization logo".into()),
        assert_type: Some("element_exists".into()),
        fixture: None,
        requires: None,
        wait_for: None,
        platform_fork: None,
    };
    let (_, text, source) = resolve_assert(&state, &[]);
    assert_eq!(text, "organization logo");
    assert_eq!(source, "spec");
}

#[test]
fn test_resolve_assert_renders_quoted() {
    let state = StateEntry {
        id: "S1".into(),
        state: "test".into(),
        condition: None,
        renders: Some("Shows 'Write your question' text field".into()),
        assert_target: None,
        assert_type: Some("element_exists".into()),
        fixture: None,
        requires: None,
        wait_for: None,
        platform_fork: None,
    };
    let (_, text, source) = resolve_assert(&state, &[]);
    assert_eq!(text, "Write your question");
    assert_eq!(source, "renders");
}

#[test]
fn test_extract_quoted() {
    let q = extract_quoted("'Write your question' text field and \"submit\"");
    assert_eq!(q, vec!["Write your question", "submit"]);
}

#[test]
fn test_tc_to_yaml_roundtrip() {
    let tc = GeneratedTC {
        id: "J1".into(),
        name: "Browse Q&A".into(),
        precondition_activity: "MainActivity".into(),
        precondition_package: Some("se.naturkartan".into()),
        precondition_logged_in: false,
        steps: vec![
            GeneratedStep {
                action: "tap".into(),
                target_fuzzy: Some("Search".into()),
                element_type: Some("Button".into()),
                ..step_defaults()
            },
            GeneratedStep {
                action: "wait_idle".into(),
                seconds: Some(5),
                ..step_defaults()
            },
            GeneratedStep {
                action: "assert".into(),
                assert_type: Some("element_exists".into()),
                target_fuzzy: Some("Questions & Answers".into()),
                source_comment: Some("FR6-S1 (baseline)".into()),
                ..step_defaults()
            },
        ],
    };
    let yaml = tc_to_yaml(&tc);
    assert!(yaml.contains("id: J1"));
    assert!(yaml.contains("package: se.naturkartan"));
    assert!(!yaml.contains("logged_in"));
    assert!(yaml.contains("type: \"Button\""));
    assert!(yaml.contains("# source: FR6-S1 (baseline)"));
    assert!(yaml.contains("assert: element_exists"));
}

#[test]
fn test_tc_to_yaml_logged_in() {
    let tc = GeneratedTC {
        id: "J2".into(),
        name: "Post Question".into(),
        precondition_activity: "MainActivity".into(),
        precondition_package: None,
        precondition_logged_in: true,
        steps: vec![],
    };
    let yaml = tc_to_yaml(&tc);
    assert!(yaml.contains("logged_in: true"));
}

#[test]
fn test_generate_journeys_from_spec() {
    let spec = make_journey_spec();
    let tcs = generate_journeys(&spec, None, None, None);
    assert_eq!(tcs.len(), 2);
    assert_eq!(tcs[0].id, "J1");
    assert_eq!(tcs[1].id, "J2");
}

#[test]
fn test_journey_auth_flag() {
    let spec = make_journey_spec();
    let tcs = generate_journeys(&spec, None, None, None);
    assert!(!tcs[0].precondition_logged_in);
    assert!(tcs[1].precondition_logged_in);
}

#[test]
fn test_journey_search_site_expands() {
    let spec = make_journey_spec();
    let tcs = generate_journeys(&spec, None, None, None);
    let j1 = &tcs[0];
    assert_eq!(j1.steps[0].action, "tap");
    assert_eq!(j1.steps[0].target_fuzzy.as_deref(), Some("Search"));
    assert_eq!(j1.steps[0].element_type.as_deref(), Some("Button"));
    assert_eq!(j1.steps[2].action, "type");
    assert_eq!(j1.steps[2].text.as_deref(), Some("{{fixtures.test_site.name}}"));
}

#[test]
fn test_journey_assert_resolves() {
    let spec = make_journey_spec();
    let tcs = generate_journeys(&spec, None, None, None);
    let asserts: Vec<_> = tcs[0].steps.iter().filter(|s| s.action == "assert").collect();
    assert!(!asserts.is_empty());
    assert_eq!(asserts[0].target_fuzzy.as_deref(), Some("Questions & Answers"));
    assert!(asserts[0].source_comment.as_deref().unwrap().contains("FR6-S1"));
}

#[test]
fn test_journey_scroll_to_assert() {
    let spec = make_journey_spec();
    let tcs = generate_journeys(&spec, None, None, None);
    let j1 = &tcs[0];
    let has_scroll = j1
        .steps
        .iter()
        .any(|s| s.action == "scroll_to" && s.target_fuzzy.as_deref() == Some("Questions & Answers"));
    assert!(has_scroll, "scroll_to_assert should emit scroll_to before assert");
}

#[test]
fn test_journey_platform_fork() {
    let spec = make_journey_spec();
    let tcs_android = generate_journeys(&spec, None, None, Some("android"));
    let j2_android = &tcs_android[1];
    let has_long_press = j2_android.steps.iter().any(|s| s.action == "long_press");
    assert!(has_long_press, "Android should have long_press");

    let tcs_ios = generate_journeys(&spec, None, None, Some("ios"));
    let j2_ios = &tcs_ios[1];
    let has_tap_remove = j2_ios
        .steps
        .iter()
        .any(|s| s.action == "tap" && s.target_fuzzy.as_deref() == Some("Remove this question"));
    assert!(has_tap_remove, "iOS should have tap 'Remove this question'");
}

#[test]
fn test_journey_no_navigate_to_actions() {
    let spec = make_journey_spec();
    let tcs = generate_journeys(&spec, None, None, None);
    for tc in &tcs {
        for step in &tc.steps {
            assert!(!step.action.starts_with("navigate_to"), "Journey {} has navigate_to action", tc.id);
        }
    }
}

#[test]
fn test_journey_no_journeys_returns_empty() {
    let spec = SpecInput {
        ticket: None,
        journeys: None,
        functional_requirements: vec![],
    };
    let tcs = generate_journeys(&spec, None, None, None);
    assert!(tcs.is_empty());
}

#[test]
fn test_journey_type_filter_in_yaml() {
    let spec = make_journey_spec();
    let tcs = generate_journeys(&spec, None, None, None);
    let yaml = tc_to_yaml(&tcs[0]);
    assert!(yaml.contains("type: \"Button\""));
}

fn make_journey_spec() -> SpecInput {
    SpecInput {
        ticket: None,
        journeys: Some(vec![
            JourneyDef {
                id: "J1".into(),
                name: "Browse Q&A".into(),
                auth: Some(false),
                steps: vec![
                    JourneyStepDef::SearchSite { search_site: "test_site".into() },
                    JourneyStepDef::ScrollToAssert {
                        scroll_to_assert: AssertRef { fr: "FR6".into(), state: "S1".into(), assert_type: None },
                    },
                    JourneyStepDef::Tap { tap: "see all questions".into(), element_type: None },
                    JourneyStepDef::Assert {
                        assert: AssertRef { fr: "FR7".into(), state: "S1".into(), assert_type: None },
                    },
                ],
            },
            JourneyDef {
                id: "J2".into(),
                name: "Delete Question".into(),
                auth: Some(true),
                steps: vec![
                    JourneyStepDef::SearchSite { search_site: "test_site".into() },
                    JourneyStepDef::PlatformFork {
                        platform_fork: vec![
                            (
                                "android".to_string(),
                                vec![JourneyStepDef::LongPress { long_press: "question".into() }],
                            ),
                            (
                                "ios".to_string(),
                                vec![JourneyStepDef::Tap {
                                    tap: "Remove this question".into(),
                                    element_type: None,
                                }],
                            ),
                        ],
                    },
                    JourneyStepDef::Assert {
                        assert: AssertRef { fr: "FR10".into(), state: "S1".into(), assert_type: None },
                    },
                ],
            },
        ]),
        functional_requirements: vec![
            make_fr("FR6", "Q&A Section", vec![("S1", "has-questions", "Questions & Answers")]),
            make_fr("FR7", "Full Questions List", vec![("S1", "has-questions", "Questions & Answers")]),
            make_fr("FR10", "Delete Question", vec![("S1", "dialog-shown", "Delete question")]),
        ],
    }
}

fn make_fr(id: &str, name: &str, states: Vec<(&str, &str, &str)>) -> FunctionalRequirement {
    FunctionalRequirement {
        id: id.into(),
        name: name.into(),
        fr_type: Some("static".into()),
        navigation: None,
        state_table: states
            .into_iter()
            .map(|(sid, state, target)| StateEntry {
                id: sid.into(),
                state: state.into(),
                condition: None,
                renders: None,
                assert_target: Some(target.into()),
                assert_type: Some("element_exists".into()),
                fixture: None,
                requires: None,
                wait_for: None,
                platform_fork: None,
            })
            .collect(),
    }
}
