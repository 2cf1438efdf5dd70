//! Expanding journeys into generated test cases.
use vstd::prelude::*;

use crate::resolve::{assert_resolution, first_match, resolve_assert};
use crate::text::{append, clone_opt, clone_strs, opt_view, owned, strs_view};
use crate::types::{
    bare_step, step_defaults, steps_view, tcs_view, FunctionalRequirement, GeneratedStep,
    GeneratedTC, JourneyDef, JourneyStepDef, SpecInput, StepView, TcView,
};

verus! {

// ── Specifications ──

/// The view of an optional string slice.
pub open spec fn opt_str(o: Option<&str>) -> Option<Seq<char>> {
    match o {
        Some(s) => Some(s@),
        None => None,
    }
}

/// The key under which a state of a functional requirement is found.
pub open spec fn state_key(fr_id: Seq<char>, state_id: Seq<char>) -> Seq<char> {
    fr_id + "-"@ + state_id
}

/// The last of the first `n` states of `fr` whose key is `key`.
pub open spec fn last_state_in(fr: FunctionalRequirement, key: Seq<char>, n: int) -> Option<int>
    decreases n,
{
    if n <= 0 {
        None
    } else if state_key(fr.id@, fr.state_table@[n - 1].id@) == key {
        Some(n - 1)
    } else {
        last_state_in(fr, key, n - 1)
    }
}

/// The last (requirement, state) pair among the first `n` requirements
/// whose key is `key`: the entry a key-to-state table keeps when filled
/// in order, later entries replacing earlier ones.
pub open spec fn lookup_state_upto(frs: Seq<FunctionalRequirement>, key: Seq<char>, n: int) -> Option<
    (int, int),
>
    decreases n,
{
    if n <= 0 {
        None
    } else {
        match last_state_in(frs[n - 1], key, frs[n - 1].state_table@.len() as int) {
            Some(j) => Some((n - 1, j)),
            None => lookup_state_upto(frs, key, n - 1),
        }
    }
}

/// The (requirement, state) pair that `key` names, if any.
pub open spec fn lookup_state(frs: Seq<FunctionalRequirement>, key: Seq<char>) -> Option<(int, int)> {
    lookup_state_upto(frs, key, frs.len() as int)
}

/// The baseline contents loaded for requirement `i` (none when no
/// baselines were given or `i` has none).
pub open spec fn baseline_for(baselines: Option<&Vec<Vec<String>>>, i: int) -> Seq<Seq<char>> {
    match baselines {
        Some(b) => if 0 <= i < b@.len() {
            strs_view(b@[i]@)
        } else {
            Seq::empty()
        },
        None => Seq::empty(),
    }
}

/// An assertion step.
pub open spec fn assert_step(atype: Seq<char>, target: Seq<char>, comment: Seq<char>) -> StepView {
    StepView {
        assert_type: Some(atype),
        target_fuzzy: Some(target),
        source_comment: Some(comment),
        ..bare_step("assert"@)
    }
}

/// The assertion that checks state `state_id` of requirement `fr_id`.
pub open spec fn checkpoint_step(
    frs: Seq<FunctionalRequirement>,
    baselines: Option<&Vec<Vec<String>>>,
    fr_id: Seq<char>,
    state_id: Seq<char>,
) -> StepView {
    let key = state_key(fr_id, state_id);
    match lookup_state(frs, key) {
        Some((i, j)) => {
            let res = assert_resolution(frs[i].state_table@[j], baseline_for(baselines, i));
            assert_step(res.0, res.1, key + " ("@ + res.2 + ")"@)
        },
        None => assert_step(
            "element_exists"@,
            "UNRESOLVED:"@ + key,
            key + " (unresolved)"@,
        ),
    }
}

/// A wait for the app to become idle.
pub open spec fn wait_step(seconds: u64) -> StepView {
    StepView { seconds: Some(seconds), ..bare_step("wait_idle"@) }
}

/// A tap on the element that shows `target`.
pub open spec fn tap_step(target: Seq<char>, element_type: Option<Seq<char>>) -> StepView {
    StepView { target_fuzzy: Some(target), element_type, ..bare_step("tap"@) }
}

/// Typing `text`.
pub open spec fn type_step(text: Seq<char>) -> StepView {
    StepView { text: Some(text), ..bare_step("type"@) }
}

/// Scrolling until `target` shows.
pub open spec fn scroll_step(target: Seq<char>) -> StepView {
    StepView { target_fuzzy: Some(target), ..bare_step("scroll_to"@) }
}

/// A long press on `target`.
pub open spec fn long_press_step(target: Seq<char>) -> StepView {
    StepView { target_fuzzy: Some(target), ..bare_step("long_press"@) }
}

/// A wait for named idle resources, with a timeout.
pub open spec fn wait_for_step(resources: Seq<Seq<char>>, timeout: u64) -> StepView {
    StepView {
        seconds: Some(timeout),
        wait_for: Some(resources),
        wait_timeout: Some(timeout),
        ..bare_step("wait_idle"@)
    }
}

/// The fixture reference for a site's name.
pub open spec fn site_name_ref(site: Seq<char>) -> Seq<char> {
    "{{fixtures."@ + site + ".name}}"@
}

/// The platform names of a platform fork.
pub open spec fn fork_names(fork: Seq<(String, Vec<JourneyStepDef>)>) -> Seq<Seq<char>> {
    fork.map_values(|e: (String, Vec<JourneyStepDef>)| e.0@)
}

/// Names equal to `p`.
pub open spec fn name_is(p: Seq<char>) -> spec_fn(Seq<char>) -> bool {
    |n: Seq<char>| n == p
}

/// The steps generated for one step definition. A platform fork expands the
/// steps of its entry for the platform (Android when none is given); its
/// entry names are distinct, so the first entry so named is the one.
pub open spec fn expand_step(
    d: JourneyStepDef,
    frs: Seq<FunctionalRequirement>,
    baselines: Option<&Vec<Vec<String>>>,
    platform: Option<Seq<char>>,
) -> Seq<StepView>
    decreases d,
{
    match d {
        JourneyStepDef::Assert { assert: a } => seq![
            checkpoint_step(frs, baselines, a.fr@, a.state@),
        ],
        JourneyStepDef::SearchSite { search_site: s } => seq![
            tap_step("Search"@, Some("Button"@)),
            wait_step(3),
            type_step(site_name_ref(s@)),
            wait_step(3),
            tap_step(site_name_ref(s@), None),
            wait_step(5),
        ],
        JourneyStepDef::Tap { tap, element_type } => seq![
            tap_step(tap@, opt_view(element_type)),
            wait_step(3),
        ],
        JourneyStepDef::Type { text } => seq![type_step(text@), wait_step(1)],
        JourneyStepDef::ScrollTo { scroll_to } => seq![scroll_step(scroll_to@)],
        JourneyStepDef::ScrollToAssert { scroll_to_assert: a } => {
            let cp = checkpoint_step(frs, baselines, a.fr@, a.state@);
            match cp.target_fuzzy {
                Some(t) => seq![scroll_step(t), cp],
                None => seq![cp],
            }
        },
        JourneyStepDef::LongPress { long_press } => seq![long_press_step(long_press@), wait_step(3)],
        JourneyStepDef::Wait { wait } => seq![wait_step(wait)],
        JourneyStepDef::WaitFor { wait_for, timeout } => {
            let t = match timeout {
                Some(t) => t,
                None => 10,
            };
            seq![wait_for_step(strs_view(wait_for@), t)]
        },
        JourneyStepDef::PressBack { .. } => seq![bare_step("press_back"@)],
        JourneyStepDef::PlatformFork { platform_fork } => {
            let plat = match platform {
                Some(p) => p,
                None => "android"@,
            };
            match first_match(fork_names(platform_fork@), name_is(plat)) {
                Some(k) => if 0 <= k < platform_fork@.len() {
                    expand_steps(platform_fork@[k].1@, frs, baselines, platform)
                } else {
                    Seq::empty()
                },
                None => Seq::empty(),
            }
        },
    }
}

/// The steps generated for a sequence of step definitions, in order.
pub open spec fn expand_steps(
    ds: Seq<JourneyStepDef>,
    frs: Seq<FunctionalRequirement>,
    baselines: Option<&Vec<Vec<String>>>,
    platform: Option<Seq<char>>,
) -> Seq<StepView>
    decreases ds,
{
    if ds.len() == 0 {
        Seq::empty()
    } else {
        expand_steps(ds.drop_last(), frs, baselines, platform) + expand_step(
            ds.last(),
            frs,
            baselines,
            platform,
        )
    }
}

// ── Executable functions ──

/// A step with the given action and every optional field absent.
fn action_step(action: &str) -> (r: GeneratedStep)
    ensures
        r@ == bare_step(action@),
{
    let mut st = step_defaults();
    st.action = owned(action);
    st
}

/// The key of a state: `fr_id`, a hyphen, `state_id`.
fn make_key(fr_id: &str, state_id: &str) -> (r: String)
    ensures
        r@ == state_key(fr_id@, state_id@),
{
    let mut k = owned(fr_id);
    append(&mut k, "-");
    append(&mut k, state_id);
    k
}

/// Finds the (requirement, state) pair that `key` names.
fn find_state(frs: &Vec<FunctionalRequirement>, key: &String) -> (r: Option<(usize, usize)>)
    ensures
        match r {
            Some((i, j)) => lookup_state(frs@, key@) == Some((i as int, j as int)) && i
                < frs@.len() && j < frs@[i as int].state_table@.len(),
            None => lookup_state(frs@, key@) is None,
        },
{
    let mut i = frs.len();
    while i > 0
        invariant
            i <= frs@.len(),
            lookup_state(frs@, key@) == lookup_state_upto(frs@, key@, i as int),
        decreases i,
    {
        let fr = &frs[i - 1];
        let mut j = fr.state_table.len();
        while j > 0
            invariant
                0 < i <= frs@.len(),
                *fr == frs@[i - 1],
                lookup_state(frs@, key@) == lookup_state_upto(frs@, key@, i as int),
                j <= fr.state_table@.len(),
                last_state_in(*fr, key@, fr.state_table@.len() as int) == last_state_in(
                    *fr,
                    key@,
                    j as int,
                ),
            decreases j,
        {
            let k = make_key(fr.id.as_str(), fr.state_table[j - 1].id.as_str());
            if k == *key {
                return Some((i - 1, j - 1));
            }
            j = j - 1;
        }
        i = i - 1;
    }
    None
}

/// The assertion step for state `state_id` of requirement `fr_id`.
fn resolve_checkpoint(
    fr_id: &str,
    state_id: &str,
    frs: &Vec<FunctionalRequirement>,
    baselines: Option<&Vec<Vec<String>>>,
) -> (r: GeneratedStep)
    ensures
        r@ == checkpoint_step(frs@, baselines, fr_id@, state_id@),
{
    let key = make_key(fr_id, state_id);
    let mut st = action_step("assert");
    match find_state(frs, &key) {
        Some((i, j)) => {
            let no_contents: Vec<String> = Vec::new();
            let contents: &[String] = match baselines {
                Some(b) => if i < b.len() {
                    b[i].as_slice()
                } else {
                    no_contents.as_slice()
                },
                None => no_contents.as_slice(),
            };
            assert(strs_view(contents@) == baseline_for(baselines, i as int));
            let (assert_type, assert_text, assert_source) = resolve_assert(
                &frs[i].state_table[j],
                contents,
            );
            let mut comment = key;
            append(&mut comment, " (");
            append(&mut comment, assert_source.as_str());
            append(&mut comment, ")");
            st.assert_type = Some(assert_type);
            st.target_fuzzy = Some(assert_text);
            st.source_comment = Some(comment);
        },
        None => {
            let mut target = owned("UNRESOLVED:");
            append(&mut target, key.as_str());
            let mut comment = key;
            append(&mut comment, " (unresolved)");
            st.assert_type = Some(owned("element_exists"));
            st.target_fuzzy = Some(target);
            st.source_comment = Some(comment);
        },
    }
    st
}

/// A wait for the app to become idle.
fn wait_idle(seconds: u64) -> (r: GeneratedStep)
    ensures
        r@ == wait_step(seconds),
{
    let mut st = action_step("wait_idle");
    st.seconds = Some(seconds);
    st
}

/// A step with an action and a target.
fn targeted(action: &str, target: String) -> (r: GeneratedStep)
    ensures
        r@ == (StepView { target_fuzzy: Some(target@), ..bare_step(action@) }),
{
    let mut st = action_step(action);
    st.target_fuzzy = Some(target);
    st
}

/// The index of the first fork entry for platform `plat` (the only one, the
/// names of a fork being distinct).
fn find_fork(fork: &Vec<(String, Vec<JourneyStepDef>)>, plat: &str) -> (r: Option<usize>)
    ensures
        r matches Some(k) ==> first_match(fork_names(fork@), name_is(plat@)) == Some(k as int) && k
            < fork@.len(),
        r is None ==> first_match(fork_names(fork@), name_is(plat@)) is None,
{
    let ghost names = fork_names(fork@);
    let p = owned(plat);
    for k in 0..fork.len()
        invariant
            names == fork_names(fork@),
            p@ == plat@,
            forall|m: int| 0 <= m < k ==> !(#[trigger] name_is(plat@)(names[m])),
    {
        if fork[k].0 == p {
            proof {
                crate::resolve::lemma_first_match_found(names, name_is(plat@), k as int);
            }
            return Some(k);
        }
    }
    proof {
        reveal(first_match);
    }
    None
}

/// Appends the steps generated for `step_def` to `steps`.
fn expand_journey_step(
    step_def: &JourneyStepDef,
    frs: &Vec<FunctionalRequirement>,
    baselines: Option<&Vec<Vec<String>>>,
    platform: Option<&str>,
    steps: &mut Vec<GeneratedStep>,
)
    ensures
        steps_view(final(steps)@) == steps_view(old(steps)@) + expand_step(
            *step_def,
            frs@,
            baselines,
            opt_str(platform),
        ),
    decreases step_def,
{
    let ghost start = steps_view(steps@);
    let ghost expected = expand_step(*step_def, frs@, baselines, opt_str(platform));
    match step_def {
        JourneyStepDef::Assert { assert: aref } => {
            steps.push(resolve_checkpoint(aref.fr.as_str(), aref.state.as_str(), frs, baselines));
        },
        JourneyStepDef::SearchSite { search_site } => {
            let mut name_ref = owned("{{fixtures.");
            append(&mut name_ref, search_site.as_str());
            append(&mut name_ref, ".name}}");
            let mut search = targeted("tap", owned("Search"));
            search.element_type = Some(owned("Button"));
            steps.push(search);
            steps.push(wait_idle(3));
            let mut typing = action_step("type");
            typing.text = Some(name_ref.clone());
            steps.push(typing);
            steps.push(wait_idle(3));
            steps.push(targeted("tap", name_ref));
            steps.push(wait_idle(5));
        },
        JourneyStepDef::Tap { tap, element_type } => {
            let mut st = targeted("tap", tap.clone());
            st.element_type = clone_opt(element_type);
            steps.push(st);
            steps.push(wait_idle(3));
        },
        JourneyStepDef::Type { text } => {
            let mut st = action_step("type");
            st.text = Some(text.clone());
            steps.push(st);
            steps.push(wait_idle(1));
        },
        JourneyStepDef::ScrollTo { scroll_to } => {
            steps.push(targeted("scroll_to", scroll_to.clone()));
        },
        JourneyStepDef::ScrollToAssert { scroll_to_assert } => {
            let checkpoint = resolve_checkpoint(
                scroll_to_assert.fr.as_str(),
                scroll_to_assert.state.as_str(),
                frs,
                baselines,
            );
            if let Some(target) = &checkpoint.target_fuzzy {
                steps.push(targeted("scroll_to", target.clone()));
            }
            steps.push(checkpoint);
        },
        JourneyStepDef::LongPress { long_press } => {
            steps.push(targeted("long_press", long_press.clone()));
            steps.push(wait_idle(3));
        },
        JourneyStepDef::Wait { wait } => {
            steps.push(wait_idle(*wait));
        },
        JourneyStepDef::WaitFor { wait_for, timeout } => {
            let t = match timeout {
                Some(t) => *t,
                None => 10,
            };
            let mut st = wait_idle(t);
            st.wait_for = Some(clone_strs(wait_for));
            st.wait_timeout = Some(t);
            steps.push(st);
        },
        JourneyStepDef::PressBack { .. } => {
            steps.push(action_step("press_back"));
        },
        JourneyStepDef::PlatformFork { platform_fork } => {
            let plat = match platform {
                Some(p) => p,
                None => "android",
            };
            if let Some(k) = find_fork(platform_fork, plat) {
                let plat_steps = &platform_fork[k].1;
                let ghost ds = plat_steps@;
                let ghost before = steps_view(steps@);
                for i in 0..plat_steps.len()
                    invariant
                        ds == plat_steps@,
                        (k as int) < platform_fork@.len(),
                        *plat_steps == platform_fork@[k as int].1,
                        *step_def == (JourneyStepDef::PlatformFork { platform_fork: *platform_fork }),
                        steps_view(steps@) == before + expand_steps(
                            ds.take(i as int),
                            frs@,
                            baselines,
                            opt_str(platform),
                        ),
                {
                    proof {
                        assert(ds.take(i + 1).drop_last() =~= ds.take(i as int));
                        let entry = platform_fork@[k as int];
                        assert(decreases_to!(*step_def => (*step_def)->platform_fork));
                        assert(decreases_to!(*platform_fork => platform_fork@));
                        assert(decreases_to!(platform_fork@ => entry));
                        assert(decreases_to!(entry => entry.1));
                        assert(decreases_to!(entry.1 => entry.1@));
                        assert(decreases_to!(entry.1@ => entry.1@[i as int]));
                        assert(decreases_to!(*step_def => plat_steps@[i as int]));
                    }
                    expand_journey_step(&plat_steps[i], frs, baselines, platform, steps);
                }
                assert(ds.take(ds.len() as int) =~= ds);
            }
        },
    }
    assert(steps_view(steps@) =~= start + expected);
}

/// The test case generated for one journey.
pub open spec fn journey_tc(
    j: JourneyDef,
    frs: Seq<FunctionalRequirement>,
    baselines: Option<&Vec<Vec<String>>>,
    package: Option<Seq<char>>,
    platform: Option<Seq<char>>,
) -> TcView {
    TcView {
        id: j.id@,
        name: j.name@,
        precondition_activity: "MainActivity"@,
        precondition_package: package,
        precondition_logged_in: match j.auth {
            Some(b) => b,
            None => false,
        },
        steps: expand_steps(j.steps@, frs, baselines, platform),
    }
}

/// The test cases generated for a spec: one per journey, in order; none
/// when the spec has no journeys.
pub open spec fn journeys_tcs(
    spec: SpecInput,
    baselines: Option<&Vec<Vec<String>>>,
    package: Option<Seq<char>>,
    platform: Option<Seq<char>>,
) -> Seq<TcView> {
    match spec.journeys {
        Some(js) => js@.map_values(
            |j: JourneyDef|
                journey_tc(j, spec.functional_requirements@, baselines, package, platform),
        ),
        None => Seq::empty(),
    }
}

/// Generates one test case per journey of `spec`. The baseline contents of
/// requirement `i` are `baselines[i]` when given; `platform` picks the
/// branch of each platform fork (Android when absent).
pub fn generate_journeys(
    spec: &SpecInput,
    baselines: Option<&Vec<Vec<String>>>,
    package: Option<&str>,
    platform: Option<&str>,
) -> (r: Vec<GeneratedTC>)
    ensures
        tcs_view(r@) == journeys_tcs(*spec, baselines, opt_str(package), opt_str(platform)),
{
    let journeys = match &spec.journeys {
        Some(j) => j,
        None => {
            return Vec::new();
        },
    };
    let frs = &spec.functional_requirements;
    let ghost want = journeys_tcs(*spec, baselines, opt_str(package), opt_str(platform));
    let mut tcs: Vec<GeneratedTC> = Vec::new();
    for n in 0..journeys.len()
        invariant
            spec.journeys == Some(*journeys),
            *frs == spec.functional_requirements,
            want == journeys_tcs(*spec, baselines, opt_str(package), opt_str(platform)),
            want.len() == journeys@.len(),
            tcs@.len() == n,
            forall|k: int| 0 <= k < n ==> #[trigger] tcs@[k]@ == want[k],
    {
        let journey = &journeys[n];
        let mut steps: Vec<GeneratedStep> = Vec::new();
        let ghost ds = journey.steps@;
        for i in 0..journey.steps.len()
            invariant
                ds == journey.steps@,
                steps_view(steps@) == expand_steps(
                    ds.take(i as int),
                    frs@,
                    baselines,
                    opt_str(platform),
                ),
        {
            proof {
                assert(ds.take(i + 1).drop_last() =~= ds.take(i as int));
            }
            expand_journey_step(&journey.steps[i], frs, baselines, platform, &mut steps);
        }
        assert(ds.take(ds.len() as int) =~= ds);
        let package_owned = match package {
            Some(p) => Some(owned(p)),
            None => None,
        };
        let tc = GeneratedTC {
            id: journey.id.clone(),
            name: journey.name.clone(),
            precondition_activity: owned("MainActivity"),
            precondition_package: package_owned,
            precondition_logged_in: match journey.auth {
                Some(b) => b,
                None => false,
            },
            steps,
        };
        tcs.push(tc);
    }
    assert(tcs_view(tcs@) =~= want);
    tcs
}

} // verus!
