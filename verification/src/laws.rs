//! Properties of the generator, the validator and the device selection
//! that hold for every input.
use vstd::prelude::*;

use crate::baseline::{file_contents, useful_content, useful_contents, BaselineElement, BaselineFile};
use crate::emit::{
    assert_text, step_text,
    assert_kind, header_text, line, opt_line, opt_num_line, steps_text, target_text, tc_file_name_of,
    wait_for_text, yaml_text,
};
use crate::journey::{
    checkpoint_step, expand_step, expand_steps, journey_tc, journeys_tcs, scroll_step,
};
use crate::resolve::{
    assert_resolution, baseline_match, baseline_match_index, code_identifier, equals_pred, first_match,
    holds_pred, lemma_first_match, lowered_all, lowered_match_index, quote_match, quoted_segments,
};
use crate::text::{is_substring, count_prefixed, decimal, digit_char, has_char, has_prefix, lowercase, replace_char, strs_view};
use crate::validate::{
    code_identifier_message, count_notes, coverage_notes, entries_notes, fields_notes,
    fixture_notes, fixtures_notes, fr_notes, frs_notes, full_state_id, fr_list, is_error, is_warn,
    note_lines, placeholder_notes, state_keys, renders_notes, report_of, state_notes, state_requires_notes,
    states_notes, summary_line, target_notes, ticket_notes, unresolved_notes, validation_notes,
    FixtureFile, Note, ValidationReport,
};
use crate::yaml::{as_seq, get, get_seq, str_or, YamlValue};
use crate::run::{device_selected, env_prefix_of, selected_upto};
use crate::config::DeviceConfig;
use crate::types::{FunctionalRequirement, JourneyStepDef, SpecInput, StateEntry, StepView, TcView};

verus! {

/// The actions a generated step can carry.
pub open spec fn known_action(a: Seq<char>) -> bool {
    ||| a == "assert"@
    ||| a == "tap"@
    ||| a == "wait_idle"@
    ||| a == "type"@
    ||| a == "scroll_to"@
    ||| a == "long_press"@
    ||| a == "press_back"@
}

/// The actions that act on, or check, a target on screen.
pub open spec fn targeted_action(a: Seq<char>) -> bool {
    a == "assert"@ || a == "tap"@ || a == "long_press"@ || a == "scroll_to"@
}

/// A step carries a known action, and names its target if its action
/// needs one.
pub open spec fn step_ok(s: StepView) -> bool {
    known_action(s.action) && (targeted_action(s.action) ==> s.target_fuzzy is Some)
}

/// Every step carries a known action, and every step that acts on or
/// checks a target names it.
pub open spec fn well_formed_steps(ss: Seq<StepView>) -> bool {
    forall|k: int| 0 <= k < ss.len() ==> step_ok(#[trigger] ss[k])
}

/// The step actions other than `assert` differ from it.
proof fn lemma_action_literals()
    ensures
        "tap"@ != "assert"@,
        "wait_idle"@ != "assert"@,
        "type"@ != "assert"@,
        "scroll_to"@ != "assert"@,
        "long_press"@ != "assert"@,
        "press_back"@ != "assert"@,
        !targeted_action("wait_idle"@),
        !targeted_action("type"@),
        !targeted_action("press_back"@),
{
    reveal_strlit("assert");
    reveal_strlit("wait_idle");
    reveal_strlit("type");
    reveal_strlit("press_back");
    reveal_strlit("scroll_to");
    reveal_strlit("long_press");
    reveal_strlit("tap");
    assert("assert"@.len() == 6);
    assert("tap"@.len() == 3);
    assert("wait_idle"@.len() == 9);
    assert("type"@.len() == 4);
    assert("scroll_to"@.len() == 9);
    assert("long_press"@.len() == 10);
    assert("press_back"@.len() == 10);
    assert("wait_idle"@[0] != "scroll_to"@[0]);
    assert("press_back"@[0] != "long_press"@[0]);
    assert(!targeted_action("wait_idle"@));
    assert(!targeted_action("type"@));
    assert(!targeted_action("press_back"@));
}

proof fn lemma_well_formed_push(ss: Seq<StepView>, x: StepView)
    requires
        well_formed_steps(ss),
        step_ok(x),
    ensures
        well_formed_steps(ss.push(x)),
{
    assert forall|k: int| 0 <= k < ss.push(x).len() implies step_ok(#[trigger] ss.push(x)[k]) by {
        if k < ss.len() {
            assert(ss.push(x)[k] == ss[k]);
        }
    }
}

proof fn lemma_well_formed_concat(a: Seq<StepView>, b: Seq<StepView>)
    requires
        well_formed_steps(a),
        well_formed_steps(b),
    ensures
        well_formed_steps(a + b),
{
    assert forall|k: int| 0 <= k < (a + b).len() implies step_ok(#[trigger] (a + b)[k]) by {
        if k < a.len() {
            assert((a + b)[k] == a[k]);
        } else {
            assert((a + b)[k] == b[k - a.len()]);
        }
    }
}

/// The steps of one step definition all carry known actions, and each
/// assertion names its target.
pub proof fn lemma_expand_step_well_formed(
    d: JourneyStepDef,
    frs: Seq<FunctionalRequirement>,
    baselines: Option<&Vec<Vec<String>>>,
    platform: Option<Seq<char>>,
)
    ensures
        well_formed_steps(expand_step(d, frs, baselines, platform)),
    decreases d,
{
    match d {
        JourneyStepDef::PlatformFork { platform_fork } => {
            let plat = match platform {
                Some(p) => p,
                None => "android"@,
            };
            match first_match(crate::journey::fork_names(platform_fork@), crate::journey::name_is(plat)) {
                Some(k) => if 0 <= k < platform_fork@.len() {
                    let entry = platform_fork@[k];
                    assert(decreases_to!(d => d->platform_fork));
                    assert(decreases_to!(d->platform_fork => platform_fork@));
                    assert(decreases_to!(platform_fork@ => entry));
                    assert(decreases_to!(entry => entry.1));
                    assert(decreases_to!(entry.1 => entry.1@));
                    lemma_expand_steps_well_formed(entry.1@, frs, baselines, platform);
                    assert(expand_step(d, frs, baselines, platform) == expand_steps(entry.1@, frs, baselines, platform));
                },
                None => {},
            }
        },
        _ => {
            lemma_action_literals();
            let ss = expand_step(d, frs, baselines, platform);
            let e = Seq::<StepView>::empty();
            assert(well_formed_steps(e));
            match d {
                JourneyStepDef::SearchSite { search_site: x } => {
                    assert(ss[1] == crate::journey::wait_step(3));
                    assert(ss[1].action == "wait_idle"@);
                    assert(step_ok(ss[1]));
                    assert(ss[2] == crate::journey::type_step(crate::journey::site_name_ref(x@)));
                    assert(step_ok(ss[2]));
                    assert(ss == e.push(ss[0]).push(ss[1]).push(ss[2]).push(ss[3]).push(ss[4]).push(ss[5]));
                    lemma_well_formed_push(e, ss[0]);
                    lemma_well_formed_push(e.push(ss[0]), ss[1]);
                    lemma_well_formed_push(e.push(ss[0]).push(ss[1]), ss[2]);
                    lemma_well_formed_push(e.push(ss[0]).push(ss[1]).push(ss[2]), ss[3]);
                    lemma_well_formed_push(e.push(ss[0]).push(ss[1]).push(ss[2]).push(ss[3]), ss[4]);
                    lemma_well_formed_push(
                        e.push(ss[0]).push(ss[1]).push(ss[2]).push(ss[3]).push(ss[4]),
                        ss[5],
                    );
                },
                JourneyStepDef::ScrollToAssert { scroll_to_assert: a } => {
                    let cp = checkpoint_step(frs, baselines, a.fr@, a.state@);
                    assert(step_ok(cp));
                    lemma_well_formed_push(e, ss[0]);
                    if ss.len() == 2 {
                        lemma_well_formed_push(e.push(ss[0]), ss[1]);
                        assert(ss == e.push(ss[0]).push(ss[1]));
                    } else {
                        assert(ss == e.push(ss[0]));
                    }
                },
                _ => {
                    lemma_well_formed_push(e, ss[0]);
                    if ss.len() == 2 {
                        lemma_well_formed_push(e.push(ss[0]), ss[1]);
                        assert(ss == e.push(ss[0]).push(ss[1]));
                    } else {
                        assert(ss == e.push(ss[0]));
                    }
                },
            }
        },
    }
}

/// The steps of a sequence of step definitions all carry known actions,
/// and each assertion names its target.
pub proof fn lemma_expand_steps_well_formed(
    ds: Seq<JourneyStepDef>,
    frs: Seq<FunctionalRequirement>,
    baselines: Option<&Vec<Vec<String>>>,
    platform: Option<Seq<char>>,
)
    ensures
        well_formed_steps(expand_steps(ds, frs, baselines, platform)),
    decreases ds,
{
    if ds.len() > 0 {
        lemma_expand_steps_well_formed(ds.drop_last(), frs, baselines, platform);
        lemma_expand_step_well_formed(ds.last(), frs, baselines, platform);
        lemma_well_formed_concat(
            expand_steps(ds.drop_last(), frs, baselines, platform),
            expand_step(ds.last(), frs, baselines, platform),
        );
    }
}

/// A known action is no `navigate_to...` action.
proof fn lemma_known_action_not_navigation(a: Seq<char>)
    requires
        known_action(a),
    ensures
        !has_prefix(a, "navigate_to"@),
{
    reveal_strlit("navigate_to");
    reveal_strlit("assert");
    reveal_strlit("wait_idle");
    reveal_strlit("type");
    reveal_strlit("press_back");
    reveal_strlit("scroll_to");
    reveal_strlit("long_press");
    reveal_strlit("tap");
}

/// Every test case generated from a spec uses only known actions (in
/// particular, none begins with `navigate_to`), and every assertion, tap,
/// long press and scroll names its target.
pub proof fn law_generated_steps_well_formed(
    spec: SpecInput,
    baselines: Option<&Vec<Vec<String>>>,
    package: Option<Seq<char>>,
    platform: Option<Seq<char>>,
)
    ensures
        forall|t: int|
            0 <= t < journeys_tcs(spec, baselines, package, platform).len() ==> well_formed_steps(
                #[trigger] journeys_tcs(spec, baselines, package, platform)[t].steps,
            ),
        forall|t: int, k: int|
            0 <= t < journeys_tcs(spec, baselines, package, platform).len() && 0 <= k
                < journeys_tcs(spec, baselines, package, platform)[t].steps.len() ==> !has_prefix(
                #[trigger] journeys_tcs(spec, baselines, package, platform)[t].steps[k].action,
                "navigate_to"@,
            ),
{
    let tcs = journeys_tcs(spec, baselines, package, platform);
    assert forall|t: int| 0 <= t < tcs.len() implies well_formed_steps(#[trigger] tcs[t].steps) by {
        let js = spec.journeys->0;
        lemma_expand_steps_well_formed(
            js@[t].steps@,
            spec.functional_requirements@,
            baselines,
            platform,
        );
    }
    assert forall|t: int, k: int| 0 <= t < tcs.len() && 0 <= k < tcs[t].steps.len() implies !has_prefix(
        #[trigger] tcs[t].steps[k].action,
        "navigate_to"@,
    ) by {
        assert(well_formed_steps(tcs[t].steps));
        assert(step_ok(tcs[t].steps[k]));
        lemma_known_action_not_navigation(tcs[t].steps[k].action);
    }
}

/// One test case per journey, in the journeys' order, carrying each
/// journey's id, name and login requirement; none without journeys.
pub proof fn law_one_test_case_per_journey(
    spec: SpecInput,
    baselines: Option<&Vec<Vec<String>>>,
    package: Option<Seq<char>>,
    platform: Option<Seq<char>>,
)
    ensures
        spec.journeys is None ==> journeys_tcs(spec, baselines, package, platform).len() == 0,
        spec.journeys matches Some(js) ==> {
            let tcs = journeys_tcs(spec, baselines, package, platform);
            &&& tcs.len() == js@.len()
            &&& forall|t: int|
                0 <= t < tcs.len() ==> {
                    &&& (#[trigger] tcs[t]).id == js@[t].id@
                    &&& tcs[t].name == js@[t].name@
                    &&& tcs[t].precondition_logged_in == (js@[t].auth == Some(true))
                    &&& tcs[t].precondition_package == package
                }
        },
{
}

/// Without a platform, forks take their Android branch: expanding a step
/// definition with no platform is the same as with `android`.
pub proof fn law_default_platform_is_android(
    d: JourneyStepDef,
    frs: Seq<FunctionalRequirement>,
    baselines: Option<&Vec<Vec<String>>>,
)
    ensures
        expand_step(d, frs, baselines, None) == expand_step(d, frs, baselines, Some("android"@)),
    decreases d,
{
    match d {
        JourneyStepDef::PlatformFork { platform_fork } => {
            match first_match(crate::journey::fork_names(platform_fork@), crate::journey::name_is("android"@)) {
                Some(k) => if 0 <= k < platform_fork@.len() {
                    let entry = platform_fork@[k];
                    assert(decreases_to!(d => d->platform_fork));
                    assert(decreases_to!(d->platform_fork => platform_fork@));
                    assert(decreases_to!(platform_fork@ => entry));
                    assert(decreases_to!(entry => entry.1));
                    assert(decreases_to!(entry.1 => entry.1@));
                    lemma_default_platform_steps(entry.1@, frs, baselines);
                },
                None => {},
            }
        },
        _ => {},
    }
}

proof fn lemma_default_platform_steps(
    ds: Seq<JourneyStepDef>,
    frs: Seq<FunctionalRequirement>,
    baselines: Option<&Vec<Vec<String>>>,
)
    ensures
        expand_steps(ds, frs, baselines, None) == expand_steps(ds, frs, baselines, Some("android"@)),
    decreases ds,
{
    if ds.len() > 0 {
        lemma_default_platform_steps(ds.drop_last(), frs, baselines);
        law_default_platform_is_android(ds.last(), frs, baselines);
    }
}

/// A scroll-to-assert step scrolls to exactly the text its assertion then
/// checks, immediately before checking it.
pub proof fn law_scroll_precedes_assert(
    a: crate::types::AssertRef,
    frs: Seq<FunctionalRequirement>,
    baselines: Option<&Vec<Vec<String>>>,
    platform: Option<Seq<char>>,
)
    ensures
        ({
            let ss = expand_step(
                JourneyStepDef::ScrollToAssert { scroll_to_assert: a },
                frs,
                baselines,
                platform,
            );
            &&& ss.len() == 2
            &&& ss[0].action == "scroll_to"@
            &&& ss[1].action == "assert"@
            &&& ss[0].target_fuzzy == ss[1].target_fuzzy
            &&& ss[1] == checkpoint_step(frs, baselines, a.fr@, a.state@)
        }),
{
}

/// The text a baseline match returns is one of the baseline contents, and
/// there is no match without contents.
pub proof fn law_baseline_match_is_content(
    cs: Seq<Seq<char>>,
    target: Seq<char>,
    renders: Seq<char>,
)
    ensures
        cs.len() == 0 ==> baseline_match(cs, target, renders) is None,
        baseline_match(cs, target, renders) matches Some(m) ==> cs.contains(m),
{
    let ls = lowered_all(cs);
    let t = lowercase(target);
    lemma_first_match(ls, equals_pred(t));
    lemma_first_match(ls, holds_pred(t));
    lemma_quote_match_in_range(ls, lowered_all(quoted_segments(renders)));
    if let Some(i) = baseline_match_index(cs, target, renders) {
        assert(0 <= i < cs.len());
        assert(cs[i] == cs[i]);
    }
}

proof fn lemma_quote_match_in_range(ls: Seq<Seq<char>>, qls: Seq<Seq<char>>)
    ensures
        quote_match(ls, qls) matches Some(i) ==> 0 <= i < ls.len(),
    decreases qls.len(),
{
    if qls.len() > 0 {
        lemma_first_match(ls, holds_pred(qls[0]));
        lemma_quote_match_in_range(ls, qls.drop_first());
    }
}

/// An assertion's type is the state's own, `element_exists` by default;
/// its source is one of `baseline`, `spec`, `renders`, `state_name` and
/// `fallback`; a baseline-sourced text is one of the baseline contents;
/// and spec-sourced text is the state's assert target.
pub proof fn law_assert_resolution(state: StateEntry, cs: Seq<Seq<char>>)
    ensures
        ({
            let (atype, text, source) = assert_resolution(state, cs);
            &&& atype == match state.assert_type {
                Some(t) => t@,
                None => "element_exists"@,
            }
            &&& (source == "baseline"@ || source == "spec"@ || source == "renders"@ || source
                == "state_name"@ || source == "fallback"@)
            &&& source == "baseline"@ ==> cs.contains(text)
            &&& source == "spec"@ ==> (state.assert_target matches Some(t) && text == t@)
            &&& cs.len() == 0 ==> source != "baseline"@
        }),
{
    reveal_strlit("baseline");
    reveal_strlit("spec");
    reveal_strlit("renders");
    reveal_strlit("state_name");
    reveal_strlit("fallback");
    let atarget = match state.assert_target {
        Some(t) => t@,
        None => Seq::empty(),
    };
    let renders = match state.renders {
        Some(r) => r@,
        None => Seq::empty(),
    };
    law_baseline_match_is_content(cs, atarget, renders);
    let (atype, text, source) = assert_resolution(state, cs);
    assert(source == "baseline"@ || source == "spec"@ || source == "renders"@ || source
                == "state_name"@ || source == "fallback"@);
    if baseline_match(cs, atarget, renders) is Some {
        assert(text == baseline_match(cs, atarget, renders)->0);
        assert(cs.contains(text));
    } else {
        assert("baseline"@[0] != "fallback"@[0]);
        assert("baseline"@[0] != "state_name"@[0]);
        assert(source != "baseline"@);
    }
    assert(source == "spec"@ ==> (state.assert_target matches Some(t) && text == t@));
    assert(cs.len() == 0 ==> source != "baseline"@);
}

/// The YAML text of a test case opens with its id line and ends with a
/// newline.
pub proof fn law_yaml_opens_with_id(tc: TcView)
    ensures
        yaml_text(tc).take(line("id: "@ + tc.id).len() as int) == line("id: "@ + tc.id),
        yaml_text(tc).len() > 0,
        yaml_text(tc).last() == '\n',
{
    let first = line("id: "@ + tc.id);
    let rest = header_text(tc).skip(first.len() as int) + steps_text(tc.steps);
    assert(header_text(tc).take(first.len() as int) =~= first);
    assert(yaml_text(tc).take(first.len() as int) =~= first);
    lemma_steps_text_ends(tc.steps);
    if steps_text(tc.steps).len() == 0 {
        assert(yaml_text(tc) =~= header_text(tc));
    } else {
        assert(yaml_text(tc).last() == steps_text(tc.steps).last());
    }
}

proof fn lemma_steps_text_ends(ss: Seq<StepView>)
    ensures
        steps_text(ss).len() > 0 ==> steps_text(ss).last() == '\n',
    decreases ss.len(),
{
    if ss.len() > 0 {
        lemma_steps_text_ends(ss.drop_last());
        let s = ss.last();
        let t = crate::emit::step_text(s);
        if t.len() == 0 {
            assert(steps_text(ss) =~= steps_text(ss.drop_last()));
        } else {
            lemma_step_text_ends(s);
            assert(steps_text(ss).last() == t.last());
        }
    }
}

proof fn lemma_concat_ends(a: Seq<char>, b: Seq<char>)
    requires
        a.len() > 0 ==> a.last() == '\n',
        b.len() > 0 ==> b.last() == '\n',
    ensures
        (a + b).len() > 0 ==> (a + b).last() == '\n',
{
    if b.len() == 0 {
        assert(a + b =~= a);
    }
}

proof fn lemma_step_text_ends(s: StepView)
    ensures
        crate::emit::step_text(s).len() > 0 ==> crate::emit::step_text(s).last() == '\n',
{
    if s.action == "assert"@ {
        let p1 = opt_line("  # source: "@, s.source_comment, Seq::empty());
        let p2 = line("  - assert: "@ + assert_kind(s));
        let p3 = opt_line("    target: {content_fuzzy: \""@, s.target_fuzzy, "\"}"@);
        lemma_concat_ends(p1, p2);
        lemma_concat_ends(p1 + p2, p3);
    } else {
        let p1 = line("  - action: "@ + s.action);
        let p2 = opt_line("    site_id: "@, s.site_id, Seq::empty());
        let p3 = opt_line("    user_id: "@, s.user_id, Seq::empty());
        let p4 = target_text(s);
        let p5 = opt_line("    text: \""@, s.text, "\""@);
        let p6 = opt_num_line("    seconds: "@, s.seconds);
        let p7 = wait_for_text(s);
        let p8 = opt_num_line("    wait_timeout: "@, s.wait_timeout);
        lemma_concat_ends(p1, p2);
        lemma_concat_ends(p1 + p2, p3);
        lemma_concat_ends(p1 + p2 + p3, p4);
        lemma_concat_ends(p1 + p2 + p3 + p4, p5);
        lemma_concat_ends(p1 + p2 + p3 + p4 + p5, p6);
        lemma_concat_ends(p1 + p2 + p3 + p4 + p5 + p6, p7);
        lemma_concat_ends(p1 + p2 + p3 + p4 + p5 + p6 + p7, p8);
    }
}

/// A test case's file name holds no hyphen and ends with `.yaml`.
pub proof fn law_file_name_shape(id: Seq<char>)
    ensures
        !has_char(tc_file_name_of(id), '-'),
        tc_file_name_of(id).len() >= 5,
        tc_file_name_of(id).skip(tc_file_name_of(id).len() - 5) == ".yaml"@,
{
    reveal_strlit(".yaml");
    let base = replace_char(lowercase(id), '-', '_');
    let name = tc_file_name_of(id);
    assert forall|i: int| 0 <= i < name.len() implies name[i] != '-' by {
        if i < base.len() {
            assert(name[i] == base[i]);
        } else {
            assert(name[i] == ".yaml"@[i - base.len()]);
        }
    }
    assert(name.skip(name.len() - 5) =~= ".yaml"@);
}

/// Every content kept from a baseline file is useful, and every useful
/// content of the file is kept.
pub proof fn law_baseline_contents_are_useful(f: BaselineFile)
    ensures
        forall|k: int|
            0 <= k < file_contents(f).len() ==> useful_content(#[trigger] file_contents(f)[k]),
{
    if let Some(es) = f.elements {
        lemma_useful_contents(es@);
    }
}

proof fn lemma_useful_contents(es: Seq<BaselineElement>)
    ensures
        forall|k: int|
            0 <= k < useful_contents(es).len() ==> useful_content(#[trigger] useful_contents(es)[k]),
    decreases es.len(),
{
    if es.len() > 0 {
        lemma_useful_contents(es.drop_last());
        let prev = useful_contents(es.drop_last());
        let cur = useful_contents(es);
        assert forall|k: int| 0 <= k < cur.len() implies useful_content(#[trigger] cur[k]) by {
            if k < prev.len() {
                assert(cur[k] == prev[k]);
            }
        }
    }
}

/// Text without quote characters has no quoted segments.
proof fn lemma_no_quotes_no_segments(s: Seq<char>)
    requires
        !has_char(s, '\''),
        !has_char(s, '"'),
    ensures
        quoted_segments(s).len() == 0,
    decreases s.len(),
{
    if s.len() > 0 {
        assert(!has_char(s.drop_first(), '\'')) by {
            if has_char(s.drop_first(), '\'') {
                let i = choose|i: int| 0 <= i < s.len() - 1 && s.drop_first()[i] == '\'';
                assert(s[i + 1] == '\'');
            }
        }
        assert(!has_char(s.drop_first(), '"')) by {
            if has_char(s.drop_first(), '"') {
                let i = choose|i: int| 0 <= i < s.len() - 1 && s.drop_first()[i] == '"';
                assert(s[i + 1] == '"');
            }
        }
        assert(s[0] != '\'' && s[0] != '"');
        lemma_no_quotes_no_segments(s.drop_first());
    }
}

/// What the validator's warnings predict of the generator when no baseline
/// contents are at hand: a code-identifier target, with no quoted text in
/// `renders` and a named state, falls back to the state's name; a missing
/// target takes the first quoted text of `renders`; and a missing target
/// with no quote character in `renders` falls back to the state's name.
pub proof fn law_validator_predicts_fallbacks(state: StateEntry)
    ensures
        ({
            let target = match state.assert_target {
                Some(t) => t@,
                None => Seq::empty(),
            };
            let renders = match state.renders {
                Some(r) => r@,
                None => Seq::empty(),
            };
            let res = assert_resolution(state, Seq::empty());
            &&& code_identifier(target) && quoted_segments(renders).len() == 0 && state.state@.len()
                > 0 ==> res.1 == state.state@ && res.2 == "state_name"@
            &&& target.len() == 0 && quoted_segments(renders).len() > 0 ==> res.1 == quoted_segments(
                renders,
            )[0] && res.2 == "renders"@
            &&& target.len() == 0 && !has_char(renders, '\'') && !has_char(renders, '"') ==> res.1
                == state.state@ && res.2 == "fallback"@
        }),
{
    let renders = match state.renders {
        Some(r) => r@,
        None => Seq::empty(),
    };
    if !has_char(renders, '\'') && !has_char(renders, '"') {
        lemma_no_quotes_no_segments(renders);
    }
}

/// An action after which the app needs time to settle.
pub open spec fn settling_action(a: Seq<char>) -> bool {
    a == "tap"@ || a == "long_press"@ || a == "type"@
}

/// Every tap, long press and typing step is followed at once by a wait for
/// the app to become idle.
pub open spec fn paced(ss: Seq<StepView>) -> bool {
    forall|k: int|
        0 <= k < ss.len() && settling_action(#[trigger] ss[k].action) ==> k + 1 < ss.len() && ss[k
            + 1].action == "wait_idle"@
}

/// The actions that need no wait after them.
proof fn lemma_settling_literals()
    ensures
        !settling_action("wait_idle"@),
        !settling_action("scroll_to"@),
        !settling_action("assert"@),
        !settling_action("press_back"@),
{
    reveal_strlit("assert");
    reveal_strlit("wait_idle");
    reveal_strlit("type");
    reveal_strlit("press_back");
    reveal_strlit("scroll_to");
    reveal_strlit("long_press");
    reveal_strlit("tap");
    assert("wait_idle"@.len() == 9);
    assert("scroll_to"@.len() == 9);
    assert("assert"@.len() == 6);
    assert("press_back"@[0] != "long_press"@[0]);
}

proof fn lemma_paced_concat(a: Seq<StepView>, b: Seq<StepView>)
    requires
        paced(a),
        paced(b),
    ensures
        paced(a + b),
{
    assert forall|k: int|
        0 <= k < (a + b).len() && settling_action(#[trigger] (a + b)[k].action) implies k + 1 < (a
        + b).len() && (a + b)[k + 1].action == "wait_idle"@ by {
        if k < a.len() {
            assert((a + b)[k] == a[k]);
            assert((a + b)[k + 1] == a[k + 1]);
        } else {
            assert((a + b)[k] == b[k - a.len()]);
            assert((a + b)[k + 1] == b[k + 1 - a.len()]);
        }
    }
}

/// The steps of one step definition are paced.
pub proof fn lemma_expand_step_paced(
    d: JourneyStepDef,
    frs: Seq<FunctionalRequirement>,
    baselines: Option<&Vec<Vec<String>>>,
    platform: Option<Seq<char>>,
)
    ensures
        paced(expand_step(d, frs, baselines, platform)),
    decreases d,
{
    lemma_settling_literals();
    let ss = expand_step(d, frs, baselines, platform);
    match d {
        JourneyStepDef::PlatformFork { platform_fork } => {
            let plat = match platform {
                Some(p) => p,
                None => "android"@,
            };
            match first_match(crate::journey::fork_names(platform_fork@), crate::journey::name_is(plat)) {
                Some(k) => if 0 <= k < platform_fork@.len() {
                    let entry = platform_fork@[k];
                    assert(decreases_to!(d => d->platform_fork));
                    assert(decreases_to!(d->platform_fork => platform_fork@));
                    assert(decreases_to!(platform_fork@ => entry));
                    assert(decreases_to!(entry => entry.1));
                    assert(decreases_to!(entry.1 => entry.1@));
                    lemma_expand_steps_paced(entry.1@, frs, baselines, platform);
                },
                None => {},
            }
        },
        JourneyStepDef::ScrollToAssert { scroll_to_assert: a } => {
            let cp = checkpoint_step(frs, baselines, a.fr@, a.state@);
            assert(cp.action == "assert"@);
        },
        JourneyStepDef::Assert { assert: a } => {
            let cp = checkpoint_step(frs, baselines, a.fr@, a.state@);
            assert(cp.action == "assert"@);
        },
        _ => {},
    }
}

/// The steps of a sequence of step definitions are paced.
pub proof fn lemma_expand_steps_paced(
    ds: Seq<JourneyStepDef>,
    frs: Seq<FunctionalRequirement>,
    baselines: Option<&Vec<Vec<String>>>,
    platform: Option<Seq<char>>,
)
    ensures
        paced(expand_steps(ds, frs, baselines, platform)),
    decreases ds,
{
    if ds.len() > 0 {
        lemma_expand_steps_paced(ds.drop_last(), frs, baselines, platform);
        lemma_expand_step_paced(ds.last(), frs, baselines, platform);
        lemma_paced_concat(
            expand_steps(ds.drop_last(), frs, baselines, platform),
            expand_step(ds.last(), frs, baselines, platform),
        );
    }
}

/// In every generated test case, each tap, long press and typing step is
/// followed at once by a wait for the app to become idle.
pub proof fn law_generated_steps_paced(
    spec: SpecInput,
    baselines: Option<&Vec<Vec<String>>>,
    package: Option<Seq<char>>,
    platform: Option<Seq<char>>,
)
    ensures
        forall|t: int|
            0 <= t < journeys_tcs(spec, baselines, package, platform).len() ==> paced(
                #[trigger] journeys_tcs(spec, baselines, package, platform)[t].steps,
            ),
{
    let tcs = journeys_tcs(spec, baselines, package, platform);
    assert forall|t: int| 0 <= t < tcs.len() implies paced(#[trigger] tcs[t].steps) by {
        let js = spec.journeys->0;
        lemma_expand_steps_paced(js@[t].steps@, spec.functional_requirements@, baselines, platform);
    }
}

// ── Validation ──

/// Counting findings over two lists adds up.
proof fn lemma_count_concat(a: Seq<Note>, b: Seq<Note>, p: spec_fn(Note) -> bool)
    ensures
        count_notes(a + b, p) == count_notes(a, p) + count_notes(b, p),
    decreases b.len(),
{
    if b.len() > 0 {
        assert((a + b).drop_last() =~= a + b.drop_last());
        assert((a + b).last() == b.last());
        lemma_count_concat(a, b.drop_last(), p);
    }
}

/// The validator's outcome: with a non-empty requirement list its last line
/// is the summary of its counts and it exits with 1 exactly when an error
/// was found (warnings never change the exit code); without one its last
/// line says the list is missing or empty and it exits with 1.
pub proof fn law_validation_outcome(spec: YamlValue, file: Option<FixtureFile>, r: ValidationReport)
    requires
        report_of(spec, file, r),
    ensures
        r.failed == count_notes(validation_notes(spec, file), |n: Note| is_error(n)),
        fr_list(spec) is Some ==> r.lines@.len() > 0 && r.lines@.last()@ == summary_line(
            r.passed as nat,
            r.failed as nat,
            r.warnings as nat,
        ) && r.exit_code == (if r.failed > 0 {
            1i32
        } else {
            0i32
        }),
        fr_list(spec) is None ==> r.lines@.len() > 0 && r.lines@.last()@
            == "  ERROR  functional_requirements missing or empty"@ && r.exit_code == 1,
{
    let ns = validation_notes(spec, file);
    let lv = crate::text::strs_view(r.lines@);
    if fr_list(spec) is Some {
        assert(lv.len() > 0);
        assert(lv.last() == r.lines@.last()@);
    } else {
        let e = "  ERROR  functional_requirements missing or empty"@;
        assert(ns.last() == Note::Error(e));
        assert(note_lines(ns) == note_lines(ns.drop_last()) + seq![e]);
        assert(lv.len() > 0);
        assert(lv.last() == r.lines@.last()@);
    }
}

/// The validator's findings on a state's assertion target: one warning
/// when the target is a code identifier (the generator will fall back to
/// the state's name), one when there is no target, and never an error.
pub proof fn law_target_warnings(full_id: Seq<char>, st: YamlValue)
    ensures
        ({
            let at = str_or(st, "assert_target"@, Seq::empty());
            let ns = target_notes(full_id, st);
            &&& count_notes(ns, |n: Note| is_warn(n)) == (if code_identifier(at) {
                1nat
            } else {
                0nat
            }) + (if at.len() == 0 {
                1nat
            } else {
                0nat
            })
            &&& count_notes(ns, |n: Note| is_error(n)) == 0
            &&& code_identifier(at) ==> ns[0] == Note::Warn(
                code_identifier_message(full_id, at, str_or(st, "state"@, "??"@)),
            )
        }),
{
    let at = str_or(st, "assert_target"@, Seq::empty());
    let renders = str_or(st, "renders"@, Seq::empty());
    let state_name = str_or(st, "state"@, "??"@);
    let a: Seq<Note> = if code_identifier(at) {
        seq![Note::Warn(code_identifier_message(full_id, at, state_name))]
    } else {
        Seq::empty()
    };
    let ns = target_notes(full_id, st);
    let b = ns.skip(a.len() as int);
    assert(ns =~= a + b);
    assert(b.len() == if at.len() == 0 {
        1int
    } else {
        0int
    });
    assert(b.len() == 1 ==> b[0] is Warn);
    lemma_count_concat(a, b, |n: Note| is_warn(n));
    lemma_count_concat(a, b, |n: Note| is_error(n));
    assert(a.len() == 1 ==> a.drop_last() =~= Seq::<Note>::empty());
    assert(b.len() == 1 ==> b.drop_last() =~= Seq::<Note>::empty());
    if code_identifier(at) {
        assert(a.last() is Warn);
        assert(count_notes(a.drop_last(), |n: Note| is_warn(n)) == 0);
        assert(count_notes(a.drop_last(), |n: Note| is_error(n)) == 0);
    } else {
        assert(a =~= Seq::<Note>::empty());
    }
    assert(count_notes(a, |n: Note| is_warn(n)) == a.len());
    assert(count_notes(b, |n: Note| is_warn(n)) == b.len());
    assert(count_notes(a, |n: Note| is_error(n)) == 0);
    assert(count_notes(b, |n: Note| is_error(n)) == 0);
}

// ── Device selection ──

/// The devices a run uses are, in the order of the project file, exactly
/// those the filters select: the named device when `-d` is given (the
/// platform filter is then ignored), else the devices of the named platform
/// when `-p` is given, else all.
pub proof fn law_device_selection(
    devices: Seq<DeviceConfig>,
    device_filter: Option<Seq<char>>,
    platform_filter: Option<Seq<char>>,
    n: int,
)
    requires
        0 <= n <= devices.len(),
        devices.len() <= usize::MAX,
    ensures
        ({
            let r = selected_upto(devices, device_filter, platform_filter, n);
            &&& forall|i: int|
                0 <= i < n ==> ((exists|k: int| 0 <= k < r.len() && r[k] as int == i)
                    <==> device_selected(#[trigger] devices[i], device_filter, platform_filter))
            &&& forall|k: int| 0 <= k < r.len() ==> #[trigger] r[k] < n
            &&& forall|k: int, m: int| 0 <= k < m < r.len() ==> #[trigger] r[k] < #[trigger] r[m]
        }),
    decreases n,
{
    if n > 0 {
        law_device_selection(devices, device_filter, platform_filter, n - 1);
        let prev = selected_upto(devices, device_filter, platform_filter, n - 1);
        let r = selected_upto(devices, device_filter, platform_filter, n);
        let sel = device_selected(devices[n - 1], device_filter, platform_filter);
        if sel {
            assert(r =~= prev.push((n - 1) as usize));
        } else {
            assert(r =~= prev);
        }
        assert forall|k: int| 0 <= k < prev.len() implies r[k] == prev[k] by {}
        assert forall|i: int| 0 <= i < n implies ((exists|k: int| 0 <= k < r.len() && r[k] as int == i)
            <==> device_selected(#[trigger] devices[i], device_filter, platform_filter)) by {
            if i < n - 1 {
                if exists|k: int| 0 <= k < r.len() && r[k] as int == i {
                    let k = choose|k: int| 0 <= k < r.len() && r[k] as int == i;
                    if k < prev.len() {
                        assert(prev[k] as int == i);
                    } else {
                        assert(r[k] as int == n - 1);
                    }
                }
                if exists|k: int| 0 <= k < prev.len() && prev[k] as int == i {
                    let k = choose|k: int| 0 <= k < prev.len() && prev[k] as int == i;
                    assert(r[k] as int == i);
                }
            } else {
                if sel {
                    assert(r[prev.len() as int] as int == i);
                } else if exists|k: int| 0 <= k < r.len() && r[k] as int == i {
                    let k = choose|k: int| 0 <= k < r.len() && r[k] as int == i;
                    assert(prev[k] < n - 1);
                }
            }
        }
    }
}

// ── Printed findings and their labels ──

/// A finding's text begins with the label of its kind.
pub open spec fn labelled(n: Note) -> bool {
    match n {
        Note::Pass(s) => has_prefix(s, "  PASS"@),
        Note::QuietPass => true,
        Note::Error(s) => has_prefix(s, "  ERROR"@),
        Note::Warn(s) => has_prefix(s, "  WARN"@),
        Note::Info(s) => has_prefix(s, "  INFO"@),
    }
}

/// Every finding's text begins with the label of its kind.
pub open spec fn all_labelled(ns: Seq<Note>) -> bool {
    forall|k: int| 0 <= k < ns.len() ==> labelled(#[trigger] ns[k])
}

/// A string keeps its prefixes when text is appended to it.
proof fn lemma_prefix_closed(q: Seq<char>)
    ensures
        forall|p: Seq<char>, x: Seq<char>| has_prefix(p, q) ==> #[trigger] has_prefix(p + x, q),
{
    assert forall|p: Seq<char>, x: Seq<char>| has_prefix(p, q) implies #[trigger] has_prefix(p + x, q) by {
        assert((p + x).take(q.len() as int) =~= p.take(q.len() as int));
    }
}

/// The validator's message openings carry their labels.
proof fn lemma_label_literals()
    ensures
        has_prefix("  ERROR  "@, "  ERROR"@),
        has_prefix("  ERROR  FR missing id or name"@, "  ERROR"@),
        has_prefix("  ERROR  ticket.id missing"@, "  ERROR"@),
        has_prefix("  ERROR  functional_requirements missing or empty"@, "  ERROR"@),
        has_prefix("  ERROR  coverage_summary.total_frs mismatch ("@, "  ERROR"@),
        has_prefix("  ERROR  coverage_summary.total_states mismatch ("@, "  ERROR"@),
        has_prefix("  WARN   "@, "  WARN"@),
        has_prefix("  WARN  "@, "  WARN"@),
        has_prefix("  WARN  fixture '"@, "  WARN"@),
        has_prefix("  PASS  ticket.id present"@, "  PASS"@),
        has_prefix("  PASS  functional_requirements: "@, "  PASS"@),
        has_prefix("  PASS  fixtures.required: "@, "  PASS"@),
        has_prefix("  PASS  coverage_summary.total_frs matches ("@, "  PASS"@),
        has_prefix("  PASS  coverage_summary.total_states matches ("@, "  PASS"@),
        has_prefix("  INFO  validating "@, "  INFO"@),
{
    reveal_strlit("  ERROR");
    reveal_strlit("  WARN");
    reveal_strlit("  PASS");
    reveal_strlit("  INFO");
    reveal_strlit("  ERROR  ");
    reveal_strlit("  ERROR  FR missing id or name");
    reveal_strlit("  ERROR  ticket.id missing");
    reveal_strlit("  ERROR  functional_requirements missing or empty");
    reveal_strlit("  ERROR  coverage_summary.total_frs mismatch (");
    reveal_strlit("  ERROR  coverage_summary.total_states mismatch (");
    reveal_strlit("  WARN   ");
    reveal_strlit("  WARN  ");
    reveal_strlit("  WARN  fixture '");
    reveal_strlit("  PASS  ticket.id present");
    reveal_strlit("  PASS  functional_requirements: ");
    reveal_strlit("  PASS  fixtures.required: ");
    reveal_strlit("  PASS  coverage_summary.total_frs matches (");
    reveal_strlit("  PASS  coverage_summary.total_states matches (");
    reveal_strlit("  INFO  validating ");
    assert("  ERROR  "@.take(7) =~= "  ERROR"@);
    assert("  ERROR  FR missing id or name"@.take(7) =~= "  ERROR"@);
    assert("  ERROR  ticket.id missing"@.take(7) =~= "  ERROR"@);
    assert("  ERROR  functional_requirements missing or empty"@.take(7) =~= "  ERROR"@);
    assert("  ERROR  coverage_summary.total_frs mismatch ("@.take(7) =~= "  ERROR"@);
    assert("  ERROR  coverage_summary.total_states mismatch ("@.take(7) =~= "  ERROR"@);
    assert("  WARN   "@.take(6) =~= "  WARN"@);
    assert("  WARN  "@.take(6) =~= "  WARN"@);
    assert("  WARN  fixture '"@.take(6) =~= "  WARN"@);
    assert("  PASS  ticket.id present"@.take(6) =~= "  PASS"@);
    assert("  PASS  functional_requirements: "@.take(6) =~= "  PASS"@);
    assert("  PASS  fixtures.required: "@.take(6) =~= "  PASS"@);
    assert("  PASS  coverage_summary.total_frs matches ("@.take(6) =~= "  PASS"@);
    assert("  PASS  coverage_summary.total_states matches ("@.take(6) =~= "  PASS"@);
    assert("  INFO  validating "@.take(6) =~= "  INFO"@);
}

/// A text labelled as one kind is not labelled as an error or a warning
/// of another kind.
proof fn lemma_labels_exclusive(s: Seq<char>)
    ensures
        has_prefix(s, "  PASS"@) ==> !has_prefix(s, "  ERROR"@) && !has_prefix(s, "  WARN"@),
        has_prefix(s, "  INFO"@) ==> !has_prefix(s, "  ERROR"@) && !has_prefix(s, "  WARN"@),
        has_prefix(s, "  WARN"@) ==> !has_prefix(s, "  ERROR"@),
        has_prefix(s, "  ERROR"@) ==> !has_prefix(s, "  WARN"@),
        s.len() > 0 && s[0] != ' ' ==> !has_prefix(s, "  ERROR"@) && !has_prefix(s, "  WARN"@),
        s.len() == 0 ==> !has_prefix(s, "  ERROR"@) && !has_prefix(s, "  WARN"@),
{
    reveal_strlit("  ERROR");
    reveal_strlit("  WARN");
    reveal_strlit("  PASS");
    reveal_strlit("  INFO");
    if has_prefix(s, "  PASS"@) {
        assert(s.take(6)[2] == s[2]);
    }
    if has_prefix(s, "  INFO"@) {
        assert(s.take(6)[2] == s[2]);
    }
    if has_prefix(s, "  WARN"@) {
        assert(s.take(6)[2] == s[2]);
    }
    if has_prefix(s, "  ERROR"@) {
        assert(s.take(7)[2] == s[2]);
        assert(s.take(7)[0] == s[0]);
    }
    if has_prefix(s, "  WARN"@) {
        assert(s.take(6)[0] == s[0]);
    }
}

proof fn lemma_labelled_concat(a: Seq<Note>, b: Seq<Note>)
    requires
        all_labelled(a),
        all_labelled(b),
    ensures
        all_labelled(a + b),
{
    assert forall|k: int| 0 <= k < (a + b).len() implies labelled(#[trigger] (a + b)[k]) by {
        if k < a.len() {
            assert((a + b)[k] == a[k]);
        } else {
            assert((a + b)[k] == b[k - a.len()]);
        }
    }
}

/// The prefixes of every label survive appended text, and the message
/// openings carry theirs.
proof fn lemma_labels_setup()
    ensures
        forall|p: Seq<char>, x: Seq<char>|
            has_prefix(p, "  ERROR"@) ==> #[trigger] has_prefix(p + x, "  ERROR"@),
        forall|p: Seq<char>, x: Seq<char>|
            has_prefix(p, "  WARN"@) ==> #[trigger] has_prefix(p + x, "  WARN"@),
        forall|p: Seq<char>, x: Seq<char>|
            has_prefix(p, "  PASS"@) ==> #[trigger] has_prefix(p + x, "  PASS"@),
        forall|p: Seq<char>, x: Seq<char>|
            has_prefix(p, "  INFO"@) ==> #[trigger] has_prefix(p + x, "  INFO"@),
        has_prefix("  ERROR  "@, "  ERROR"@),
        has_prefix("  ERROR  FR missing id or name"@, "  ERROR"@),
        has_prefix("  ERROR  ticket.id missing"@, "  ERROR"@),
        has_prefix("  ERROR  functional_requirements missing or empty"@, "  ERROR"@),
        has_prefix("  ERROR  coverage_summary.total_frs mismatch ("@, "  ERROR"@),
        has_prefix("  ERROR  coverage_summary.total_states mismatch ("@, "  ERROR"@),
        has_prefix("  WARN   "@, "  WARN"@),
        has_prefix("  WARN  "@, "  WARN"@),
        has_prefix("  WARN  fixture '"@, "  WARN"@),
        has_prefix("  PASS  ticket.id present"@, "  PASS"@),
        has_prefix("  PASS  functional_requirements: "@, "  PASS"@),
        has_prefix("  PASS  fixtures.required: "@, "  PASS"@),
        has_prefix("  PASS  coverage_summary.total_frs matches ("@, "  PASS"@),
        has_prefix("  PASS  coverage_summary.total_states matches ("@, "  PASS"@),
        has_prefix("  INFO  validating "@, "  INFO"@),
{
    lemma_prefix_closed("  ERROR"@);
    lemma_prefix_closed("  WARN"@);
    lemma_prefix_closed("  PASS"@);
    lemma_prefix_closed("  INFO"@);
    lemma_label_literals();
}

proof fn lemma_unresolved_labelled(full_id: Seq<char>, refs: Seq<Seq<char>>, keys: Seq<Seq<char>>)
    ensures
        all_labelled(unresolved_notes(full_id, refs, keys)),
    decreases refs.len(),
{
    if refs.len() > 0 {
        lemma_labels_setup();
        lemma_unresolved_labelled(full_id, refs.drop_last(), keys);
        let r = refs.last();
        let tail: Seq<Note> = if r.len() > 0 && !keys.contains(r) {
            seq![
                Note::Error(
                    "  ERROR  "@ + full_id + ": requires '"@ + r + "' does not resolve to any state"@,
                ),
            ]
        } else {
            Seq::empty()
        };
        assert(all_labelled(tail));
        lemma_labelled_concat(unresolved_notes(full_id, refs.drop_last(), keys), tail);
    }
}

#[verifier::spinoff_prover]
proof fn lemma_state_labelled(fr_id: Seq<char>, st: YamlValue, keys: Seq<Seq<char>>)
    ensures
        all_labelled(state_notes(fr_id, st, keys)),
{
    lemma_labels_setup();
    let f = full_state_id(fr_id, st);
    let a = renders_notes(f, st);
    let b = target_notes(f, st);
    let c = fields_notes(f, st);
    let d = state_requires_notes(f, st, keys);
    let e = fixture_notes(f, st);
    assert(all_labelled(a));
    assert(all_labelled(b)) by {
        let at = str_or(st, "assert_target"@, Seq::empty());
        let nm = str_or(st, "state"@, "??"@);
        assert(has_prefix(code_identifier_message(f, at, nm), "  WARN"@));
    }
    let v1 = str_or(st, "renders"@, Seq::empty());
    let v2 = str_or(st, "assert_target"@, Seq::empty());
    let v3 = str_or(st, "condition"@, Seq::empty());
    assert(all_labelled(placeholder_notes(f, v1)));
    assert(all_labelled(placeholder_notes(f, v2)));
    assert(all_labelled(placeholder_notes(f, v3)));
    lemma_labelled_concat(placeholder_notes(f, v1), placeholder_notes(f, v2));
    lemma_labelled_concat(placeholder_notes(f, v1) + placeholder_notes(f, v2), placeholder_notes(f, v3));
    assert(all_labelled(c));
    match crate::yaml::get_str(st, "requires"@) {
        Some(req) => if req.len() > 0 {
            lemma_unresolved_labelled(
                f,
                crate::text::split_on(req, ',').map_values(|p: Seq<char>| crate::text::trimmed(p)),
                keys,
            );
        },
        None => {},
    }
    assert(all_labelled(d));
    assert(all_labelled(e));
    lemma_labelled_concat(a, b);
    lemma_labelled_concat(a + b, c);
    lemma_labelled_concat(a + b + c, d);
    lemma_labelled_concat(a + b + c + d, e);
}

proof fn lemma_states_labelled(fr_id: Seq<char>, ss: Seq<YamlValue>, keys: Seq<Seq<char>>)
    ensures
        all_labelled(states_notes(fr_id, ss, keys)),
    decreases ss.len(),
{
    if ss.len() > 0 {
        lemma_states_labelled(fr_id, ss.drop_last(), keys);
        lemma_state_labelled(fr_id, ss.last(), keys);
        lemma_labelled_concat(states_notes(fr_id, ss.drop_last(), keys), state_notes(fr_id, ss.last(), keys));
    }
}

proof fn lemma_fr_labelled(fr: YamlValue, keys: Seq<Seq<char>>)
    ensures
        all_labelled(fr_notes(fr, keys)),
{
    lemma_labels_setup();
    let id = str_or(fr, "id"@, "??"@);
    let name = str_or(fr, "name"@, "??"@);
    let t = str_or(fr, "type"@, Seq::empty());
    if !(id == "??"@ || name == "??"@) {
        let a: Seq<Note> = if t != "static"@ && t != "interactive"@ {
            seq![
                Note::Error(
                    "  ERROR  "@ + id + ": type must be 'static' or 'interactive', got '"@ + t
                        + "'"@,
                ),
            ]
        } else {
            Seq::empty()
        };
        assert(all_labelled(a));
        let b = fr_notes(fr, keys).skip(a.len() as int);
        assert(fr_notes(fr, keys) =~= a + b);
        match crate::validate::states_of(fr) {
            Some(ss) => if ss.len() > 0 {
                lemma_states_labelled(id, ss, keys);
                let q: Seq<Note> = seq![Note::QuietPass];
                assert(all_labelled(q));
                lemma_labelled_concat(q, states_notes(id, ss, keys));
                assert(b =~= q + states_notes(id, ss, keys));
            },
            None => {},
        }
        assert(all_labelled(b));
        lemma_labelled_concat(a, b);
    }
}

proof fn lemma_frs_labelled(frs: Seq<YamlValue>, keys: Seq<Seq<char>>)
    ensures
        all_labelled(frs_notes(frs, keys)),
    decreases frs.len(),
{
    if frs.len() > 0 {
        lemma_frs_labelled(frs.drop_last(), keys);
        lemma_fr_labelled(frs.last(), keys);
        lemma_labelled_concat(frs_notes(frs.drop_last(), keys), fr_notes(frs.last(), keys));
    }
}

proof fn lemma_entries_labelled(entries: Seq<YamlValue>, file: FixtureFile)
    ensures
        all_labelled(entries_notes(entries, file)),
    decreases entries.len(),
{
    if entries.len() > 0 {
        lemma_labels_setup();
        lemma_entries_labelled(entries.drop_last(), file);
        let prev = entries_notes(entries.drop_last(), file);
        let tail = entries_notes(entries, file).skip(prev.len() as int);
        assert(entries_notes(entries, file) =~= prev + tail);
        assert(all_labelled(tail));
        lemma_labelled_concat(prev, tail);
    }
}

proof fn lemma_sections_labelled(spec: YamlValue, file: Option<FixtureFile>, frs: Seq<YamlValue>)
    ensures
        all_labelled(ticket_notes(spec)),
        all_labelled(fixtures_notes(spec, file)),
        all_labelled(coverage_notes(spec, frs)),
{
    lemma_labels_setup();
    match crate::yaml::get(spec, "fixtures"@) {
        Some(fx) => match crate::yaml::get_seq(fx, "required"@) {
            Some(req) => {
                let head: Seq<Note> = seq![
                    Note::Pass("  PASS  fixtures.required: "@ + decimal(req.len()) + " entries"@),
                ];
                assert(all_labelled(head));
                let rest: Seq<Note> = match file {
                    Some(f) => entries_notes(req, f),
                    None => Seq::empty(),
                };
                if let Some(f) = file {
                    lemma_entries_labelled(req, f);
                }
                assert(all_labelled(rest));
                lemma_labelled_concat(head, rest);
            },
            None => {},
        },
        None => {},
    }
    match crate::yaml::get(spec, "coverage_summary"@) {
        Some(c) => {
            let all = coverage_notes(spec, frs);
            assert(all.len() == 2);
            assert(labelled(all[0]));
            assert(labelled(all[1]));
        },
        None => {},
    }
}

/// Every finding of the validator is printed with the label of its kind.
proof fn lemma_validation_labelled(spec: YamlValue, file: Option<FixtureFile>)
    ensures
        all_labelled(validation_notes(spec, file)),
{
    lemma_labels_setup();
    match fr_list(spec) {
        Some(frs) => {
            lemma_sections_labelled(spec, file, frs);
            let mid: Seq<Note> = seq![
                Note::Pass("  PASS  functional_requirements: "@ + decimal(frs.len()) + " FRs"@),
                Note::Info("  INFO  validating "@ + decimal(frs.len()) + " FRs..."@),
            ];
            assert(all_labelled(mid));
            lemma_frs_labelled(frs, crate::validate::state_keys(frs));
            let t = ticket_notes(spec);
            lemma_labelled_concat(t, mid);
            lemma_labelled_concat(t + mid, frs_notes(frs, crate::validate::state_keys(frs)));
            lemma_labelled_concat(
                t + mid + frs_notes(frs, crate::validate::state_keys(frs)),
                fixtures_notes(spec, file),
            );
            lemma_labelled_concat(
                t + mid + frs_notes(frs, crate::validate::state_keys(frs)) + fixtures_notes(spec, file),
                coverage_notes(spec, frs),
            );
        },
        None => {
            lemma_sections_labelled(spec, file, Seq::empty());
            let e: Seq<Note> = seq![Note::Error("  ERROR  functional_requirements missing or empty"@)];
            assert(all_labelled(e));
            lemma_labelled_concat(ticket_notes(spec), e);
        },
    }
}

proof fn lemma_count_prefixed_concat(a: Seq<Seq<char>>, b: Seq<Seq<char>>, p: Seq<char>)
    ensures
        count_prefixed(a + b, p) == count_prefixed(a, p) + count_prefixed(b, p),
    decreases b.len(),
{
    if b.len() > 0 {
        assert((a + b).drop_last() =~= a + b.drop_last());
        assert((a + b).last() == b.last());
        lemma_count_prefixed_concat(a, b.drop_last(), p);
    }
}

proof fn lemma_count_prefixed_one(x: Seq<char>, p: Seq<char>)
    ensures
        count_prefixed(seq![x], p) == if has_prefix(x, p) {
            1nat
        } else {
            0nat
        },
{
    assert(seq![x].drop_last() =~= Seq::<Seq<char>>::empty());
    assert(seq![x].last() == x);
    assert(count_prefixed(Seq::<Seq<char>>::empty(), p) == 0);
}

/// Among the printed lines of labelled findings, those beginning `  ERROR`
/// are the errors and those beginning `  WARN` the warnings.
proof fn lemma_lines_count(ns: Seq<Note>)
    requires
        all_labelled(ns),
    ensures
        count_prefixed(note_lines(ns), "  ERROR"@) == count_notes(ns, |n: Note| is_error(n)),
        count_prefixed(note_lines(ns), "  WARN"@) == count_notes(ns, |n: Note| is_warn(n)),
    decreases ns.len(),
{
    if ns.len() > 0 {
        let prev = ns.drop_last();
        assert(all_labelled(prev)) by {
            assert forall|k: int| 0 <= k < prev.len() implies labelled(#[trigger] prev[k]) by {
                assert(prev[k] == ns[k]);
            }
        }
        lemma_lines_count(prev);
        let last = ns.last();
        assert(labelled(ns[ns.len() - 1]));
        let piece: Seq<Seq<char>> = match last {
            Note::Pass(s) => seq![s],
            Note::QuietPass => Seq::empty(),
            Note::Error(s) => seq![s],
            Note::Warn(s) => seq![s],
            Note::Info(s) => seq![s],
        };
        assert(note_lines(ns) == note_lines(prev) + piece);
        lemma_count_prefixed_concat(note_lines(prev), piece, "  ERROR"@);
        lemma_count_prefixed_concat(note_lines(prev), piece, "  WARN"@);
        match last {
            Note::QuietPass => {},
            Note::Pass(s) => {
                lemma_labels_exclusive(s);
                lemma_count_prefixed_one(s, "  ERROR"@);
                lemma_count_prefixed_one(s, "  WARN"@);
            },
            Note::Error(s) => {
                lemma_labels_exclusive(s);
                lemma_count_prefixed_one(s, "  ERROR"@);
                lemma_count_prefixed_one(s, "  WARN"@);
            },
            Note::Warn(s) => {
                lemma_labels_exclusive(s);
                lemma_count_prefixed_one(s, "  ERROR"@);
                lemma_count_prefixed_one(s, "  WARN"@);
            },
            Note::Info(s) => {
                lemma_labels_exclusive(s);
                lemma_count_prefixed_one(s, "  ERROR"@);
                lemma_count_prefixed_one(s, "  WARN"@);
            },
        }
    }
}

/// A decimal representation begins with a digit.
proof fn lemma_decimal_starts_with_digit(n: nat)
    ensures
        decimal(n).len() > 0,
        decimal(n)[0] != ' ',
    decreases n,
{
    if n < 10 {
        assert(digit_char(n) as u32 == 48 + n);
    } else {
        lemma_decimal_starts_with_digit(n / 10);
        assert(decimal(n)[0] == decimal(n / 10)[0]);
    }
}

/// What the validator prints is counted in its summary: the errors are the
/// lines beginning `  ERROR` and the warnings those beginning `  WARN`.
#[verifier::spinoff_prover]
pub proof fn law_validation_counts_match_lines(spec: YamlValue, file: Option<FixtureFile>, r: ValidationReport)
    requires
        report_of(spec, file, r),
    ensures
        r.failed == count_prefixed(strs_view(r.lines@), "  ERROR"@),
        r.warnings == count_prefixed(strs_view(r.lines@), "  WARN"@),
{
    let ns = validation_notes(spec, file);
    lemma_validation_labelled(spec, file);
    lemma_lines_count(ns);
    if fr_list(spec) is Some {
        let sl = summary_line(r.passed as nat, r.failed as nat, r.warnings as nat);
        let tail: Seq<Seq<char>> = seq![Seq::empty(), sl];
        lemma_decimal_starts_with_digit(r.passed as nat);
        assert(sl[0] == decimal(r.passed as nat)[0]);
        lemma_labels_exclusive(sl);
        lemma_labels_exclusive(Seq::<char>::empty());
        assert(tail =~= seq![Seq::<char>::empty()] + seq![sl]);
        lemma_count_prefixed_one(Seq::empty(), "  ERROR"@);
        lemma_count_prefixed_one(Seq::empty(), "  WARN"@);
        lemma_count_prefixed_one(sl, "  ERROR"@);
        lemma_count_prefixed_one(sl, "  WARN"@);
        lemma_count_prefixed_concat(seq![Seq::<char>::empty()], seq![sl], "  ERROR"@);
        lemma_count_prefixed_concat(seq![Seq::<char>::empty()], seq![sl], "  WARN"@);
        lemma_count_prefixed_concat(note_lines(ns), tail, "  ERROR"@);
        lemma_count_prefixed_concat(note_lines(ns), tail, "  WARN"@);
    }
}

// ── Occurrences ──

/// A piece occurs in any text that has it between two others.
proof fn lemma_substring_middle(a: Seq<char>, b: Seq<char>, c: Seq<char>)
    ensures
        is_substring(b, a + b + c),
{
    let h = a + b + c;
    assert(h.subrange(a.len() as int, (a.len() + b.len()) as int) =~= b);
}

// ── The run command's environment ──

/// The platform's variable names: `IDB_…` on iOS, `DDB_…` elsewhere.
proof fn lemma_variable_names(ios: bool)
    ensures
        ({
            let v = if ios {
                "IDB_"@
            } else {
                "DDB_"@
            };
            &&& crate::run::per_platform(ios, "IDB_TEST_EMAIL"@, "DDB_TEST_EMAIL"@) == v + "TEST_EMAIL"@
            &&& crate::run::per_platform(ios, "IDB_TEST_PASSWORD"@, "DDB_TEST_PASSWORD"@) == v
                + "TEST_PASSWORD"@
            &&& crate::run::per_platform(ios, "IDB_FIXTURES_PATH"@, "DDB_FIXTURES_PATH"@) == v
                + "FIXTURES_PATH"@
            &&& crate::run::per_platform(ios, "IDB_AGENT_PORT"@, "DDB_AGENT_PORT"@) == v + "AGENT_PORT"@
        }),
{
    reveal_strlit("IDB_");
    reveal_strlit("DDB_");
    reveal_strlit("TEST_EMAIL");
    reveal_strlit("TEST_PASSWORD");
    reveal_strlit("FIXTURES_PATH");
    reveal_strlit("AGENT_PORT");
    reveal_strlit("IDB_TEST_EMAIL");
    reveal_strlit("DDB_TEST_EMAIL");
    reveal_strlit("IDB_TEST_PASSWORD");
    reveal_strlit("DDB_TEST_PASSWORD");
    reveal_strlit("IDB_FIXTURES_PATH");
    reveal_strlit("DDB_FIXTURES_PATH");
    reveal_strlit("IDB_AGENT_PORT");
    reveal_strlit("DDB_AGENT_PORT");
    if ios {
        assert("IDB_TEST_EMAIL"@ =~= "IDB_"@ + "TEST_EMAIL"@);
        assert("IDB_TEST_PASSWORD"@ =~= "IDB_"@ + "TEST_PASSWORD"@);
        assert("IDB_FIXTURES_PATH"@ =~= "IDB_"@ + "FIXTURES_PATH"@);
        assert("IDB_AGENT_PORT"@ =~= "IDB_"@ + "AGENT_PORT"@);
    } else {
        assert("DDB_TEST_EMAIL"@ =~= "DDB_"@ + "TEST_EMAIL"@);
        assert("DDB_TEST_PASSWORD"@ =~= "DDB_"@ + "TEST_PASSWORD"@);
        assert("DDB_FIXTURES_PATH"@ =~= "DDB_"@ + "FIXTURES_PATH"@);
        assert("DDB_AGENT_PORT"@ =~= "DDB_"@ + "AGENT_PORT"@);
    }
}

/// Every credential, the fixtures path and the agent port that are set reach
/// the command's environment, each assigned to its platform's variable:
/// `IDB_…` on iOS, `DDB_…` elsewhere.
#[verifier::spinoff_prover]
pub proof fn law_env_prefix_carries_settings(
    ios: bool,
    email: Seq<char>,
    password: Seq<char>,
    fixtures_abs: Seq<char>,
    agent_port: u16,
    home_tab: Option<Seq<char>>,
)
    ensures
        ({
            let env = env_prefix_of(ios, email, password, fixtures_abs, agent_port, home_tab);
            let v = if ios {
                "IDB_"@
            } else {
                "DDB_"@
            };
            &&& email.len() > 0 ==> is_substring(v + "TEST_EMAIL"@ + "="@ + email + " "@, env)
            &&& password.len() > 0 ==> is_substring(v + "TEST_PASSWORD"@ + "="@ + password + " "@, env)
            &&& fixtures_abs.len() > 0 ==> is_substring(
                v + "FIXTURES_PATH"@ + "="@ + fixtures_abs + " "@,
                env,
            )
            &&& is_substring(v + "AGENT_PORT"@ + "="@ + decimal(agent_port as nat) + " "@, env)
        }),
{
    lemma_variable_names(ios);
    let pe = if email.len() > 0 {
        crate::run::env_assign(crate::run::per_platform(ios, "IDB_TEST_EMAIL"@, "DDB_TEST_EMAIL"@), email)
    } else {
        Seq::empty()
    };
    let pp = if password.len() > 0 {
        crate::run::env_assign(
            crate::run::per_platform(ios, "IDB_TEST_PASSWORD"@, "DDB_TEST_PASSWORD"@),
            password,
        )
    } else {
        Seq::empty()
    };
    let pf = if fixtures_abs.len() > 0 {
        crate::run::env_assign(
            crate::run::per_platform(ios, "IDB_FIXTURES_PATH"@, "DDB_FIXTURES_PATH"@),
            fixtures_abs,
        )
    } else {
        Seq::empty()
    };
    let pa = crate::run::env_assign(
        crate::run::per_platform(ios, "IDB_AGENT_PORT"@, "DDB_AGENT_PORT"@),
        decimal(agent_port as nat),
    );
    let ph = match home_tab {
        Some(t) => crate::run::env_assign(crate::run::per_platform(ios, "IDB_HOME_TAB"@, "DDB_HOME_TAB"@), t),
        None => Seq::empty(),
    };
    let env = env_prefix_of(ios, email, password, fixtures_abs, agent_port, home_tab);
    assert(env == pe + pp + pf + pa + ph);
    lemma_substring_middle(Seq::empty(), pe, pp + pf + pa + ph);
    assert(env =~= Seq::<char>::empty() + pe + (pp + pf + pa + ph));
    lemma_substring_middle(pe, pp, pf + pa + ph);
    assert(env =~= pe + pp + (pf + pa + ph));
    lemma_substring_middle(pe + pp, pf, pa + ph);
    assert(env =~= (pe + pp) + pf + (pa + ph));
    lemma_substring_middle(pe + pp + pf, pa, ph);
}

// ── The order of the assertion fallbacks ──

/// Without a baseline match, an assertion target that is missing or only a
/// code identifier gives way to the first quoted text of `renders`; the
/// state's name is used only when `renders` quotes nothing, and only for a
/// code-identifier target. A real (non-identifier) target is used as it is.
#[verifier::spinoff_prover]
pub proof fn law_fallback_order(state: StateEntry, cs: Seq<Seq<char>>)
    ensures
        ({
            let target = match state.assert_target {
                Some(t) => t@,
                None => Seq::empty(),
            };
            let renders = match state.renders {
                Some(r) => r@,
                None => Seq::empty(),
            };
            let q = quoted_segments(renders);
            let res = assert_resolution(state, cs);
            &&& baseline_match(cs, target, renders) is None && target.len() > 0 && !code_identifier(
                target,
            ) ==> res.1 == target && res.2 == "spec"@
            &&& baseline_match(cs, target, renders) is None && (target.len() == 0 || code_identifier(
                target,
            )) && q.len() > 0 ==> res.1 == q[0] && res.2 == "renders"@
            &&& res.2 == "state_name"@ ==> baseline_match(cs, target, renders) is None && q.len() == 0
                && code_identifier(target) && res.1 == state.state@
        }),
{
    reveal_strlit("baseline");
    reveal_strlit("spec");
    reveal_strlit("renders");
    reveal_strlit("state_name");
    reveal_strlit("fallback");
    assert("state_name"@.len() == 10);
    assert("baseline"@.len() == 8);
    assert("renders"@.len() == 7);
    assert("spec"@.len() == 4);
    assert("fallback"@.len() == 8);
}

// ── `requires` references ──

/// Every state a requirement lists (under `state_table`, or under `states`
/// when there is no `state_table`) has its key `FR-STATE` among the keys
/// that `requires` references are resolved against.
pub proof fn law_listed_states_are_keys(frs: Seq<YamlValue>, i: int, k: int)
    requires
        0 <= i < frs.len(),
    ensures
        ({
            let fr = frs[i];
            let listed = match get(fr, "state_table"@) {
                Some(v) => as_seq(v),
                None => get_seq(fr, "states"@),
            };
            match listed {
                Some(ss) => 0 <= k < ss.len() ==> state_keys(frs).contains(
                    str_or(fr, "id"@, Seq::empty()) + "-"@ + str_or(ss[k], "id"@, Seq::empty()),
                ),
                None => true,
            }
        }),
    decreases frs.len(),
{
    let fr = frs[i];
    let listed = match get(fr, "state_table"@) {
        Some(v) => as_seq(v),
        None => get_seq(fr, "states"@),
    };
    if let Some(ss) = listed {
        if 0 <= k < ss.len() {
            let key = str_or(fr, "id"@, Seq::empty()) + "-"@ + str_or(ss[k], "id"@, Seq::empty());
            let n = frs.len() - 1;
            let prev = state_keys(frs.drop_last());
            let own = crate::validate::fr_state_keys(frs.last());
            assert(state_keys(frs) == prev + own);
            if i < n {
                assert(frs.drop_last()[i] == fr);
                law_listed_states_are_keys(frs.drop_last(), i, k);
                let j = choose|j: int| 0 <= j < prev.len() && prev[j] == key;
                assert((prev + own)[j] == key);
            } else {
                assert(own[k] == key);
                assert((prev + own)[prev.len() + k] == key);
            }
        }
    }
}

/// References that all name known keys (or are empty) give no error.
pub proof fn law_known_references_resolve(full_id: Seq<char>, refs: Seq<Seq<char>>, keys: Seq<Seq<char>>)
    requires
        forall|k: int| 0 <= k < refs.len() ==> refs[k].len() == 0 || keys.contains(#[trigger] refs[k]),
    ensures
        unresolved_notes(full_id, refs, keys) == Seq::<Note>::empty(),
    decreases refs.len(),
{
    if refs.len() > 0 {
        law_known_references_resolve(full_id, refs.drop_last(), keys);
        assert(refs.last() == refs[refs.len() - 1]);
        assert(unresolved_notes(full_id, refs, keys) =~= Seq::<Note>::empty());
    }
}

/// A piece of either part occurs in the whole.
proof fn lemma_substring_in_concat(x: Seq<char>, a: Seq<char>, b: Seq<char>)
    ensures
        is_substring(x, a) ==> is_substring(x, a + b),
        is_substring(x, b) ==> is_substring(x, a + b),
{
    if is_substring(x, a) {
        let i = choose|i: int| 0 <= i && i + x.len() <= a.len() && #[trigger] a.subrange(i, i + x.len()) == x;
        assert((a + b).subrange(i, i + x.len()) =~= a.subrange(i, i + x.len()));
    }
    if is_substring(x, b) {
        let i = choose|i: int| 0 <= i && i + x.len() <= b.len() && #[trigger] b.subrange(i, i + x.len()) == x;
        assert((a + b).subrange(a.len() + i, a.len() + i + x.len()) =~= b.subrange(i, i + x.len()));
    }
}

/// A piece of a piece occurs in the whole.
proof fn lemma_substring_trans(x: Seq<char>, y: Seq<char>, z: Seq<char>)
    requires
        is_substring(x, y),
        is_substring(y, z),
    ensures
        is_substring(x, z),
{
    let i = choose|i: int| 0 <= i && i + x.len() <= y.len() && #[trigger] y.subrange(i, i + x.len()) == x;
    let j = choose|j: int| 0 <= j && j + y.len() <= z.len() && #[trigger] z.subrange(j, j + y.len()) == y;
    assert(z.subrange(j + i, j + i + x.len()) =~= y.subrange(i, i + x.len()));
}

/// The text of every step occurs in the text of the steps.
proof fn lemma_step_in_steps(ss: Seq<crate::types::StepView>, k: int)
    requires
        0 <= k < ss.len(),
    ensures
        is_substring(step_text(ss[k]), steps_text(ss)),
    decreases ss.len(),
{
    let prev = steps_text(ss.drop_last());
    let last = step_text(ss.last());
    assert(steps_text(ss) == prev + last);
    if k == ss.len() - 1 {
        lemma_substring_middle(prev, last, Seq::empty());
        assert(prev + last + Seq::<char>::empty() =~= prev + last);
    } else {
        assert(ss.drop_last()[k] == ss[k]);
        lemma_step_in_steps(ss.drop_last(), k);
        lemma_substring_in_concat(step_text(ss[k]), prev, last);
    }
}

/// Every assertion step of a test case is written with its own assert type,
/// `element_exists` only when it has none.
pub proof fn law_yaml_keeps_assert_type(tc: TcView, k: int)
    requires
        0 <= k < tc.steps.len(),
        tc.steps[k].action == "assert"@,
    ensures
        is_substring(
            "  - assert: "@ + (match tc.steps[k].assert_type {
                Some(t) => t,
                None => "element_exists"@,
            }) + "\n"@,
            yaml_text(tc),
        ),
{
    reveal_strlit("\n");
    let s = tc.steps[k];
    let l = "  - assert: "@ + (match s.assert_type {
        Some(t) => t,
        None => "element_exists"@,
    }) + "\n"@;
    let p1 = opt_line("  # source: "@, s.source_comment, Seq::empty());
    let p3 = opt_line("    target: {content_fuzzy: \""@, s.target_fuzzy, "\"}"@);
    assert(line("  - assert: "@ + assert_kind(s)) =~= l);
    assert(step_text(s) == assert_text(s));
    assert(assert_text(s) == p1 + l + p3);
    lemma_substring_middle(p1, l, p3);
    lemma_step_in_steps(tc.steps, k);
    lemma_substring_trans(l, step_text(s), steps_text(tc.steps));
    lemma_substring_in_concat(l, header_text(tc), steps_text(tc.steps));
}

// ── Matching against baseline contents ──

/// The content a quoted string picks: the first content holding the first
/// quoted string (in order) that some content holds.
#[verifier::spinoff_prover]
proof fn lemma_quote_match_picks(ls: Seq<Seq<char>>, qls: Seq<Seq<char>>)
    ensures
        quote_match(ls, qls) is Some <==> exists|i: int, j: int|
            0 <= i < ls.len() && 0 <= j < qls.len() && #[trigger] is_substring(qls[j], ls[i]),
        quote_match(ls, qls) matches Some(i) ==> 0 <= i < ls.len() && exists|j: int|
            0 <= j < qls.len() && is_substring(qls[j], ls[i]) && (forall|jj: int, ii: int|
                0 <= jj < j && 0 <= ii < ls.len() ==> !#[trigger] is_substring(qls[jj], ls[ii])) && (
            forall|ii: int| 0 <= ii < i ==> !#[trigger] is_substring(qls[j], ls[ii])),
    decreases qls.len(),
{
    if qls.len() > 0 {
        let q = qls[0];
        lemma_first_match(ls, holds_pred(q));
        lemma_quote_match_picks(ls, qls.drop_first());
        let rest = qls.drop_first();
        match first_match(ls, holds_pred(q)) {
            Some(i) => {
                assert(is_substring(qls[0], ls[i]));
                assert forall|ii: int| 0 <= ii < i implies !#[trigger] is_substring(qls[0], ls[ii]) by {
                    assert(!holds_pred(q)(ls[ii]));
                }
            },
            None => {
                assert forall|ii: int| 0 <= ii < ls.len() implies !#[trigger] is_substring(qls[0], ls[ii]) by {
                    assert(!holds_pred(q)(ls[ii]));
                }
                if exists|i: int, j: int|
                    0 <= i < ls.len() && 0 <= j < qls.len() && #[trigger] is_substring(qls[j], ls[i]) {
                    let (i, j) = choose|i: int, j: int|
                        0 <= i < ls.len() && 0 <= j < qls.len() && #[trigger] is_substring(qls[j], ls[i]);
                    assert(j > 0);
                    assert(rest[j - 1] == qls[j]);
                    assert(is_substring(rest[j - 1], ls[i]));
                }
                if exists|i: int, j: int|
                    0 <= i < ls.len() && 0 <= j < rest.len() && #[trigger] is_substring(rest[j], ls[i]) {
                    let (i, j) = choose|i: int, j: int|
                        0 <= i < ls.len() && 0 <= j < rest.len() && #[trigger] is_substring(rest[j], ls[i]);
                    assert(rest[j] == qls[j + 1]);
                    assert(is_substring(qls[j + 1], ls[i]));
                }
                if let Some(i) = quote_match(ls, rest) {
                    let j = choose|j: int|
                        0 <= j < rest.len() && is_substring(rest[j], ls[i]) && (forall|jj: int, ii: int|
                            0 <= jj < j && 0 <= ii < ls.len() ==> !#[trigger] is_substring(rest[jj], ls[ii]))
                            && (forall|ii: int| 0 <= ii < i ==> !#[trigger] is_substring(rest[j], ls[ii]));
                    assert(rest[j] == qls[j + 1]);
                    assert forall|jj: int, ii: int| 0 <= jj < j + 1 && 0 <= ii < ls.len() implies !#[trigger] is_substring(
                        qls[jj],
                        ls[ii],
                    ) by {
                        if jj > 0 {
                            assert(rest[jj - 1] == qls[jj]);
                        }
                    }
                    assert forall|ii: int| 0 <= ii < i implies !#[trigger] is_substring(qls[j + 1], ls[ii]) by {
                        assert(rest[j] == qls[j + 1]);
                    }
                }
            },
        }
    }
}

/// What matching on lowercase forms gives: the first content equal to the
/// target; else, for a non-empty target, the first content holding it;
/// else the first content holding the first quoted string (in order) that
/// some content holds; and nothing only when no content equals or holds the
/// target and none holds a quoted string.
#[verifier::spinoff_prover]
pub proof fn law_match_order(ls: Seq<Seq<char>>, t: Seq<char>, qls: Seq<Seq<char>>)
    ensures
        ({
            let r = lowered_match_index(ls, t, qls);
            let equal = exists|i: int| 0 <= i < ls.len() && #[trigger] ls[i] == t;
            let holding = t.len() > 0 && exists|i: int| 0 <= i < ls.len() && #[trigger] is_substring(t, ls[i]);
            let quoted = exists|i: int, j: int|
                0 <= i < ls.len() && 0 <= j < qls.len() && #[trigger] is_substring(qls[j], ls[i]);
            &&& r is Some <==> equal || holding || quoted
            &&& r matches Some(i) ==> 0 <= i < ls.len()
            &&& equal ==> (match r {
                Some(i) => ls[i] == t && forall|ii: int| 0 <= ii < i ==> ls[ii] != t,
                None => false,
            })
            &&& (!equal && holding) ==> (match r {
                Some(i) => is_substring(t, ls[i]) && forall|ii: int|
                    0 <= ii < i ==> !is_substring(t, ls[ii]),
                None => false,
            })
            &&& (!equal && !holding) ==> r == quote_match(ls, qls)
            &&& (!equal && !holding) ==> (match r {
                Some(i) => exists|j: int|
                    0 <= j < qls.len() && is_substring(qls[j], ls[i]) && (forall|jj: int, ii: int|
                        0 <= jj < j && 0 <= ii < ls.len() ==> !#[trigger] is_substring(qls[jj], ls[ii]))
                        && (forall|ii: int| 0 <= ii < i ==> !#[trigger] is_substring(qls[j], ls[ii])),
                None => true,
            })
        }),
{
    lemma_first_match(ls, equals_pred(t));
    lemma_first_match(ls, holds_pred(t));
    lemma_quote_match_picks(ls, qls);
    let equal = exists|i: int| 0 <= i < ls.len() && #[trigger] ls[i] == t;
    if equal {
        let i = choose|i: int| 0 <= i < ls.len() && #[trigger] ls[i] == t;
        assert(equals_pred(t)(ls[i]));
    }
    if t.len() > 0 && exists|i: int| 0 <= i < ls.len() && #[trigger] is_substring(t, ls[i]) {
        let i = choose|i: int| 0 <= i < ls.len() && #[trigger] is_substring(t, ls[i]);
        assert(holds_pred(t)(ls[i]));
    }
    if let Some(i) = first_match(ls, equals_pred(t)) {
        assert(equals_pred(t)(ls[i]));
        assert forall|ii: int| 0 <= ii < i implies ls[ii] != t by {
            assert(!equals_pred(t)(ls[ii]));
        }
    } else {
        assert forall|ii: int| 0 <= ii < ls.len() implies ls[ii] != t by {
            assert(!equals_pred(t)(ls[ii]));
        }
    }
    if let Some(i) = first_match(ls, holds_pred(t)) {
        assert(holds_pred(t)(ls[i]));
        assert forall|ii: int| 0 <= ii < i implies !is_substring(t, ls[ii]) by {
            assert(!holds_pred(t)(ls[ii]));
        }
    } else {
        assert forall|ii: int| 0 <= ii < ls.len() implies !is_substring(t, ls[ii]) by {
            assert(!holds_pred(t)(ls[ii]));
        }
    }
}

/// A baseline content that holds, ignoring case, one of the quoted strings
/// of `renders` is always enough for a match, whatever the target.
pub proof fn law_quoted_text_finds_a_match(cs: Seq<Seq<char>>, target: Seq<char>, renders: Seq<char>, i: int, j: int)
    requires
        0 <= i < cs.len(),
        0 <= j < quoted_segments(renders).len(),
        is_substring(lowercase(quoted_segments(renders)[j]), lowercase(cs[i])),
    ensures
        baseline_match(cs, target, renders) is Some,
{
    let ls = lowered_all(cs);
    let qls = lowered_all(quoted_segments(renders));
    assert(ls[i] == lowercase(cs[i]));
    assert(qls[j] == lowercase(quoted_segments(renders)[j]));
    assert(is_substring(qls[j], ls[i]));
    law_match_order(ls, lowercase(target), qls);
}

} // verus!
