//! The spec that the generator reads (deserialized elsewhere from the
//! preflight output) and the test cases it produces, with their views.
use vstd::prelude::*;

use crate::text::{opt_view, strs_view};

verus! {

// ── Spec input ──

/// The whole preflight output.
pub struct SpecInput {
    pub ticket: Option<TicketMeta>,
    pub functional_requirements: Vec<FunctionalRequirement>,
    pub journeys: Option<Vec<JourneyDef>>,
}

/// A multi-screen journey: an ordered list of step definitions.
pub struct JourneyDef {
    pub id: String,
    pub name: String,
    pub auth: Option<bool>,
    pub steps: Vec<JourneyStepDef>,
}

/// One step of a journey as the spec writes it.
///
/// A platform fork lists, per platform name, the steps for that platform;
/// the steps of the first entry whose name matches are taken. The fork is
/// read from a YAML mapping, whose keys are distinct, so the first entry
/// with a name is the only one.
pub enum JourneyStepDef {
    Assert { assert: AssertRef },
    SearchSite { search_site: String },
    Tap { tap: String, element_type: Option<String> },
    Type { text: String },
    ScrollTo { scroll_to: String },
    ScrollToAssert { scroll_to_assert: AssertRef },
    LongPress { long_press: String },
    Wait { wait: u64 },
    WaitFor { wait_for: Vec<String>, timeout: Option<u64> },
    PressBack { press_back: bool },
    PlatformFork { platform_fork: Vec<(String, Vec<JourneyStepDef>)> },
}

/// A reference to one state of one functional requirement.
pub struct AssertRef {
    pub fr: String,
    pub state: String,
    pub assert_type: Option<String>,
}

/// Ticket metadata.
pub struct TicketMeta {
    pub id: Option<String>,
}

/// A functional requirement with its state table.
pub struct FunctionalRequirement {
    pub id: String,
    pub name: String,
    pub fr_type: Option<String>,
    pub navigation: Option<Navigation>,
    pub state_table: Vec<StateEntry>,
}

/// Where a functional requirement lives in the app.
pub struct Navigation {
    pub target: Option<String>,
    pub via: Option<Vec<String>>,
    pub baseline_file: Option<String>,
}

/// One row of a state table.
pub struct StateEntry {
    pub id: String,
    pub state: String,
    pub condition: Option<String>,
    pub renders: Option<String>,
    pub assert_target: Option<String>,
    pub assert_type: Option<String>,
    pub fixture: Option<String>,
    pub requires: Option<String>,
    pub wait_for: Option<Vec<String>>,
    pub platform_fork: Option<Vec<(String, String)>>,
}

// ── Generated test cases ──

/// One step of a generated test case.
pub struct GeneratedStep {
    pub action: String,
    pub site_id: Option<String>,
    pub user_id: Option<String>,
    pub target_fuzzy: Option<String>,
    pub element_type: Option<String>,
    pub text: Option<String>,
    pub seconds: Option<u64>,
    pub wait_for: Option<Vec<String>>,
    pub wait_timeout: Option<u64>,
    pub assert_type: Option<String>,
    pub source_comment: Option<String>,
}

/// A generated test case.
pub struct GeneratedTC {
    pub id: String,
    pub name: String,
    pub precondition_activity: String,
    pub precondition_package: Option<String>,
    pub precondition_logged_in: bool,
    pub steps: Vec<GeneratedStep>,
}

/// The mathematical content of a `GeneratedStep`.
pub struct StepView {
    pub action: Seq<char>,
    pub site_id: Option<Seq<char>>,
    pub user_id: Option<Seq<char>>,
    pub target_fuzzy: Option<Seq<char>>,
    pub element_type: Option<Seq<char>>,
    pub text: Option<Seq<char>>,
    pub seconds: Option<u64>,
    pub wait_for: Option<Seq<Seq<char>>>,
    pub wait_timeout: Option<u64>,
    pub assert_type: Option<Seq<char>>,
    pub source_comment: Option<Seq<char>>,
}

/// The mathematical content of a `GeneratedTC`.
pub struct TcView {
    pub id: Seq<char>,
    pub name: Seq<char>,
    pub precondition_activity: Seq<char>,
    pub precondition_package: Option<Seq<char>>,
    pub precondition_logged_in: bool,
    pub steps: Seq<StepView>,
}

pub open spec fn opt_strs_view(o: Option<Vec<String>>) -> Option<Seq<Seq<char>>> {
    match o {
        Some(v) => Some(strs_view(v@)),
        None => None,
    }
}

impl View for GeneratedStep {
    type V = StepView;

    open spec fn view(&self) -> StepView {
        StepView {
            action: self.action@,
            site_id: opt_view(self.site_id),
            user_id: opt_view(self.user_id),
            target_fuzzy: opt_view(self.target_fuzzy),
            element_type: opt_view(self.element_type),
            text: opt_view(self.text),
            seconds: self.seconds,
            wait_for: opt_strs_view(self.wait_for),
            wait_timeout: self.wait_timeout,
            assert_type: opt_view(self.assert_type),
            source_comment: opt_view(self.source_comment),
        }
    }
}

/// The views of a sequence of steps.
pub open spec fn steps_view(v: Seq<GeneratedStep>) -> Seq<StepView> {
    v.map_values(|s: GeneratedStep| s@)
}

impl View for GeneratedTC {
    type V = TcView;

    open spec fn view(&self) -> TcView {
        TcView {
            id: self.id@,
            name: self.name@,
            precondition_activity: self.precondition_activity@,
            precondition_package: opt_view(self.precondition_package),
            precondition_logged_in: self.precondition_logged_in,
            steps: steps_view(self.steps@),
        }
    }
}

/// The views of a sequence of test cases.
pub open spec fn tcs_view(v: Seq<GeneratedTC>) -> Seq<TcView> {
    v.map_values(|t: GeneratedTC| t@)
}

/// A step with the given action and every optional field absent.
pub open spec fn bare_step(action: Seq<char>) -> StepView {
    StepView {
        action,
        site_id: None,
        user_id: None,
        target_fuzzy: None,
        element_type: None,
        text: None,
        seconds: None,
        wait_for: None,
        wait_timeout: None,
        assert_type: None,
        source_comment: None,
    }
}

/// A step with every field empty or absent.
pub fn step_defaults() -> (r: GeneratedStep)
    ensures
        r@ == bare_step(Seq::empty()),
{
    GeneratedStep {
        action: String::new(),
        site_id: None,
        user_id: None,
        target_fuzzy: None,
        element_type: None,
        text: None,
        seconds: None,
        wait_for: None,
        wait_timeout: None,
        assert_type: None,
        source_comment: None,
    }
}

} // verus!
