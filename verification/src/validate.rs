//! Checking a preflight spec before generating from it: required
//! sections, per-requirement and per-state checks, references between
//! states, fixtures and the coverage summary.
use vstd::prelude::*;

use vstd::seq_lib::lemma_concat_associative;

use crate::resolve::{code_identifier, is_code_identifier};
use crate::text::{
    append, contains_char, contains_str, cut_bytes, cut_ok, cut_str, decimal, has_char,
    is_substring, owned, push_decimal, split_char, split_on, strs_view, to_uppercase, trim,
    trimmed, uppercase,
};
use crate::yaml::{
    as_seq, as_str, as_u64, get, get_seq, get_str, str_or, yaml_as_seq, yaml_as_str, yaml_as_u64,
    yaml_get, yaml_get_seq, yaml_str_or, YamlValue,
};

verus! {

/// One finding of the validator, with the line it prints.
pub enum Finding {
    Pass(String),
    /// A check that passed without printing anything.
    QuietPass,
    Error(String),
    Warn(String),
    Info(String),
}

/// The mathematical content of a finding.
pub enum Note {
    Pass(Seq<char>),
    QuietPass,
    Error(Seq<char>),
    Warn(Seq<char>),
    Info(Seq<char>),
}

impl View for Finding {
    type V = Note;

    open spec fn view(&self) -> Note {
        match self {
            Finding::Pass(s) => Note::Pass(s@),
            Finding::QuietPass => Note::QuietPass,
            Finding::Error(s) => Note::Error(s@),
            Finding::Warn(s) => Note::Warn(s@),
            Finding::Info(s) => Note::Info(s@),
        }
    }
}

/// The fixtures file the spec's required fixtures are checked against.
pub struct FixtureFile {
    pub path: String,
    pub content: String,
}

/// What the validator prints, its counts, and the exit code it ends with.
pub struct ValidationReport {
    pub lines: Vec<String>,
    pub passed: usize,
    pub failed: usize,
    pub warnings: usize,
    pub exit_code: i32,
}

// ── Specifications ──

/// The views of a sequence of findings.
pub open spec fn notes_view(v: Seq<Finding>) -> Seq<Note> {
    v.map_values(|f: Finding| f@)
}

/// The requirements' state list: `state_table`, else `states`.
pub open spec fn states_of(fr: YamlValue) -> Option<Seq<YamlValue>> {
    match get(fr, "state_table"@) {
        Some(v) => as_seq(v),
        None => get_seq(fr, "states"@),
    }
}

/// The key (`FR-STATE`) of a state of requirement `fr`.
pub open spec fn key_of(fr: YamlValue) -> spec_fn(YamlValue) -> Seq<char> {
    |s: YamlValue| str_or(fr, "id"@, Seq::empty()) + "-"@ + str_or(s, "id"@, Seq::empty())
}

/// The keys of the states of one requirement.
pub open spec fn fr_state_keys(fr: YamlValue) -> Seq<Seq<char>> {
    match states_of(fr) {
        Some(ss) => ss.map_values(key_of(fr)),
        None => Seq::empty(),
    }
}

/// The keys of every state of every requirement, in order.
pub open spec fn state_keys(frs: Seq<YamlValue>) -> Seq<Seq<char>>
    decreases frs.len(),
{
    if frs.len() == 0 {
        Seq::empty()
    } else {
        state_keys(frs.drop_last()) + fr_state_keys(frs.last())
    }
}

/// A field value that still holds a placeholder, given its uppercase form
/// `upper`.
pub open spec fn placeholder_given(v: Seq<char>, upper: Seq<char>) -> bool {
    is_substring("MISSING"@, upper) || is_substring("TODO"@, v) || is_substring("TBD"@, v)
}

/// A field value that still holds a placeholder.
pub open spec fn placeholder(v: Seq<char>) -> bool {
    placeholder_given(v, uppercase(v))
}

/// The finding for a placeholder field value.
pub open spec fn placeholder_notes(full_id: Seq<char>, v: Seq<char>) -> Seq<Note> {
    if placeholder(v) {
        seq![
            Note::Error(
                "  ERROR  "@ + full_id + ": placeholder value detected: '"@ + cut_bytes(v, 50) + "'"@,
            ),
        ]
    } else {
        Seq::empty()
    }
}

/// The findings for the (trimmed) `requires` references of a state: one
/// for each non-empty reference that is not a state key.
pub open spec fn unresolved_notes(full_id: Seq<char>, refs: Seq<Seq<char>>, keys: Seq<Seq<char>>) -> Seq<
    Note,
>
    decreases refs.len(),
{
    if refs.len() == 0 {
        Seq::empty()
    } else {
        let r = refs.last();
        unresolved_notes(full_id, refs.drop_last(), keys) + if r.len() > 0 && !keys.contains(r) {
            seq![
                Note::Error(
                    "  ERROR  "@ + full_id + ": requires '"@ + r + "' does not resolve to any state"@,
                ),
            ]
        } else {
            Seq::empty()
        }
    }
}

/// The findings for the `requires` references of a state, each piece
/// trimmed.
pub open spec fn requires_notes(full_id: Seq<char>, pieces: Seq<Seq<char>>, keys: Seq<Seq<char>>) -> Seq<
    Note,
> {
    unresolved_notes(full_id, pieces.map_values(|p: Seq<char>| trimmed(p)), keys)
}

/// A fixture name that is a placeholder, given its uppercase form `upper`.
pub open spec fn fixture_placeholder_given(f: Seq<char>, upper: Seq<char>) -> bool {
    upper == "MISSING"@ || is_substring("TODO"@, f)
}

/// The warning that an assertion target is a code identifier.
pub open spec fn code_identifier_message(full_id: Seq<char>, at: Seq<char>, state_name: Seq<char>) -> Seq<
    char,
> {
    "  WARN   "@ + full_id + ": assert_target '"@ + at
        + "' is a code identifier — generator will fall back to state name '"@ + state_name
        + "' (likely fails). Add visible UI text."@
}

/// The warning about a state's assertion target.
pub open spec fn target_notes(full_id: Seq<char>, st: YamlValue) -> Seq<Note> {
    let renders = str_or(st, "renders"@, Seq::empty());
    let at = str_or(st, "assert_target"@, Seq::empty());
    let state_name = str_or(st, "state"@, "??"@);
    (if code_identifier(at) {
        seq![Note::Warn(code_identifier_message(full_id, at, state_name))]
    } else {
        Seq::empty()
    }) + if at.len() == 0 {
        if has_char(renders, '\'') || has_char(renders, '"') {
            seq![
                Note::Warn(
                    "  WARN  "@ + full_id
                        + ": no assert_target — generator will extract from renders quoted strings"@,
                ),
            ]
        } else {
            seq![
                Note::Warn(
                    "  WARN  "@ + full_id
                        + ": no assert_target and no quoted text in renders — generator will fall back to state name '"@
                        + state_name + "' (likely fails). Add assert_target."@,
                ),
            ]
        }
    } else {
        Seq::empty()
    }
}

/// The identifier of a state in findings: `FR-STATE`.
pub open spec fn full_state_id(fr_id: Seq<char>, st: YamlValue) -> Seq<char> {
    fr_id + "-"@ + str_or(st, "id"@, "??"@)
}

/// The finding for a state that renders nothing.
pub open spec fn renders_notes(full_id: Seq<char>, st: YamlValue) -> Seq<Note> {
    if str_or(st, "renders"@, Seq::empty()).len() == 0 {
        seq![Note::Error("  ERROR  "@ + full_id + ": renders is empty"@)]
    } else {
        Seq::empty()
    }
}

/// The findings for placeholder values in a state's renders, assertion
/// target and condition.
pub open spec fn fields_notes(full_id: Seq<char>, st: YamlValue) -> Seq<Note> {
    placeholder_notes(full_id, str_or(st, "renders"@, Seq::empty())) + placeholder_notes(
        full_id,
        str_or(st, "assert_target"@, Seq::empty()),
    ) + placeholder_notes(full_id, str_or(st, "condition"@, Seq::empty()))
}

/// The findings for a state's `requires` references.
pub open spec fn state_requires_notes(full_id: Seq<char>, st: YamlValue, keys: Seq<Seq<char>>) -> Seq<
    Note,
> {
    match get_str(st, "requires"@) {
        Some(req) => if req.len() > 0 {
            requires_notes(full_id, split_on(req, ','), keys)
        } else {
            Seq::empty()
        },
        None => Seq::empty(),
    }
}

/// The finding for a placeholder fixture.
pub open spec fn fixture_notes(full_id: Seq<char>, st: YamlValue) -> Seq<Note> {
    match get_str(st, "fixture"@) {
        Some(f) => if fixture_placeholder_given(f, uppercase(f)) {
            seq![Note::Error("  ERROR  "@ + full_id + ": fixture is placeholder: '"@ + f + "'"@)]
        } else {
            Seq::empty()
        },
        None => Seq::empty(),
    }
}

/// The findings for one state of requirement `fr_id`.
pub open spec fn state_notes(fr_id: Seq<char>, st: YamlValue, keys: Seq<Seq<char>>) -> Seq<Note> {
    let full_id = full_state_id(fr_id, st);
    renders_notes(full_id, st) + target_notes(full_id, st) + fields_notes(full_id, st)
        + state_requires_notes(full_id, st, keys) + fixture_notes(full_id, st)
}

/// The findings for a sequence of states, in order.
pub open spec fn states_notes(fr_id: Seq<char>, ss: Seq<YamlValue>, keys: Seq<Seq<char>>) -> Seq<Note>
    decreases ss.len(),
{
    if ss.len() == 0 {
        Seq::empty()
    } else {
        states_notes(fr_id, ss.drop_last(), keys) + state_notes(fr_id, ss.last(), keys)
    }
}

/// The findings for one functional requirement.
pub open spec fn fr_notes(fr: YamlValue, keys: Seq<Seq<char>>) -> Seq<Note> {
    let id = str_or(fr, "id"@, "??"@);
    let name = str_or(fr, "name"@, "??"@);
    let t = str_or(fr, "type"@, Seq::empty());
    if id == "??"@ || name == "??"@ {
        seq![Note::Error("  ERROR  FR missing id or name"@)]
    } else {
        (if t != "static"@ && t != "interactive"@ {
            seq![
                Note::Error(
                    "  ERROR  "@ + id + ": type must be 'static' or 'interactive', got '"@ + t
                        + "'"@,
                ),
            ]
        } else {
            Seq::empty()
        }) + match states_of(fr) {
            Some(ss) => if ss.len() > 0 {
                seq![Note::QuietPass] + states_notes(id, ss, keys)
            } else {
                seq![Note::Error("  ERROR  "@ + id + ": no states in state_table"@)]
            },
            None => seq![Note::Error("  ERROR  "@ + id + ": no states in state_table"@)],
        }
    }
}

/// The findings for a sequence of requirements, in order.
pub open spec fn frs_notes(frs: Seq<YamlValue>, keys: Seq<Seq<char>>) -> Seq<Note>
    decreases frs.len(),
{
    if frs.len() == 0 {
        Seq::empty()
    } else {
        frs_notes(frs.drop_last(), keys) + fr_notes(frs.last(), keys)
    }
}

/// The warnings for required fixtures missing from the fixtures file.
pub open spec fn entries_notes(entries: Seq<YamlValue>, file: FixtureFile) -> Seq<Note>
    decreases entries.len(),
{
    if entries.len() == 0 {
        Seq::empty()
    } else {
        let key = str_or(entries.last(), "key"@, Seq::empty());
        entries_notes(entries.drop_last(), file) + if key.len() > 0 && !is_substring(
            key,
            file.content@,
        ) {
            seq![Note::Warn("  WARN  fixture '"@ + key + "' not found in "@ + file.path@)]
        } else {
            Seq::empty()
        }
    }
}

/// The findings for the fixtures section.
pub open spec fn fixtures_notes(spec: YamlValue, file: Option<FixtureFile>) -> Seq<Note> {
    match get(spec, "fixtures"@) {
        Some(fx) => match get_seq(fx, "required"@) {
            Some(req) => seq![
                Note::Pass(
                    "  PASS  fixtures.required: "@ + decimal(req.len()) + " entries"@,
                ),
            ] + match file {
                Some(f) => entries_notes(req, f),
                None => Seq::empty(),
            },
            None => Seq::empty(),
        },
        None => Seq::empty(),
    }
}

/// The number of states listed by a sequence of requirements.
pub open spec fn state_count(frs: Seq<YamlValue>) -> nat
    decreases frs.len(),
{
    if frs.len() == 0 {
        0
    } else {
        state_count(frs.drop_last()) + match states_of(frs.last()) {
            Some(ss) => ss.len(),
            None => 0,
        }
    }
}

/// An unsigned integer under `key`, or 0.
pub open spec fn u64_or_zero(v: YamlValue, key: Seq<char>) -> u64 {
    match get(v, key) {
        Some(x) => match as_u64(x) {
            Some(n) => n,
            None => 0,
        },
        None => 0,
    }
}

/// The findings comparing the coverage summary with the requirements.
pub open spec fn coverage_notes(spec: YamlValue, frs: Seq<YamlValue>) -> Seq<Note> {
    match get(spec, "coverage_summary"@) {
        Some(c) => {
            let tf = u64_or_zero(c, "total_frs"@);
            let ts = u64_or_zero(c, "total_states"@);
            let n = frs.len();
            let actual = state_count(frs);
            (if (tf as usize) as nat == n {
                seq![
                    Note::Pass(
                        "  PASS  coverage_summary.total_frs matches ("@ + decimal(tf as nat)
                            + " == "@ + decimal(n) + ")"@,
                    ),
                ]
            } else {
                seq![
                    Note::Error(
                        "  ERROR  coverage_summary.total_frs mismatch ("@ + decimal(tf as nat)
                            + " != "@ + decimal(n) + ")"@,
                    ),
                ]
            }) + if (ts as usize) as nat == actual {
                seq![
                    Note::Pass(
                        "  PASS  coverage_summary.total_states matches ("@ + decimal(ts as nat)
                            + " == "@ + decimal(actual) + ")"@,
                    ),
                ]
            } else {
                seq![
                    Note::Error(
                        "  ERROR  coverage_summary.total_states mismatch ("@ + decimal(ts as nat)
                            + " != "@ + decimal(actual) + ")"@,
                    ),
                ]
            }
        },
        None => Seq::empty(),
    }
}

/// The finding about the ticket id.
pub open spec fn ticket_notes(spec: YamlValue) -> Seq<Note> {
    if get(spec, "ticket"@) matches Some(t) && get(t, "id"@) is Some {
        seq![Note::Pass("  PASS  ticket.id present"@)]
    } else {
        seq![Note::Error("  ERROR  ticket.id missing"@)]
    }
}

/// The non-empty requirement list, if the spec has one.
pub open spec fn fr_list(spec: YamlValue) -> Option<Seq<YamlValue>> {
    match get_seq(spec, "functional_requirements"@) {
        Some(frs) => if frs.len() > 0 {
            Some(frs)
        } else {
            None
        },
        None => None,
    }
}

/// Every finding of the validator, in the order they are printed.
pub open spec fn validation_notes(spec: YamlValue, file: Option<FixtureFile>) -> Seq<Note> {
    match fr_list(spec) {
        Some(frs) => ticket_notes(spec) + seq![
            Note::Pass("  PASS  functional_requirements: "@ + decimal(frs.len()) + " FRs"@),
            Note::Info("  INFO  validating "@ + decimal(frs.len()) + " FRs..."@),
        ] + frs_notes(frs, state_keys(frs)) + fixtures_notes(spec, file) + coverage_notes(spec, frs),
        None => ticket_notes(spec) + seq![
            Note::Error("  ERROR  functional_requirements missing or empty"@),
        ],
    }
}

/// The printed lines of a sequence of findings.
pub open spec fn note_lines(ns: Seq<Note>) -> Seq<Seq<char>>
    decreases ns.len(),
{
    if ns.len() == 0 {
        Seq::empty()
    } else {
        note_lines(ns.drop_last()) + match ns.last() {
            Note::Pass(s) => seq![s],
            Note::QuietPass => Seq::empty(),
            Note::Error(s) => seq![s],
            Note::Warn(s) => seq![s],
            Note::Info(s) => seq![s],
        }
    }
}

/// How many findings satisfy `p`.
pub open spec fn count_notes(ns: Seq<Note>, p: spec_fn(Note) -> bool) -> nat
    decreases ns.len(),
{
    if ns.len() == 0 {
        0
    } else {
        count_notes(ns.drop_last(), p) + if p(ns.last()) {
            1nat
        } else {
            0nat
        }
    }
}

/// Checks that passed, printed or not.
pub open spec fn is_pass(n: Note) -> bool {
    n is Pass || n is QuietPass
}

/// Errors.
pub open spec fn is_error(n: Note) -> bool {
    n is Error
}

/// Warnings.
pub open spec fn is_warn(n: Note) -> bool {
    n is Warn
}

/// The closing summary line.
pub open spec fn summary_line(passed: nat, failed: nat, warnings: nat) -> Seq<char> {
    decimal(passed) + " passed, "@ + decimal(failed) + " errors, "@ + decimal(warnings)
        + " warnings"@
}

/// What the validator can run on without failing: every placeholder field
/// it reports can be cut after 50 bytes, and the states it counts for the
/// coverage summary number at most `usize::MAX`.
pub open spec fn validatable(spec: YamlValue) -> bool {
    match fr_list(spec) {
        Some(frs) => {
            &&& forall|i: int| 0 <= i < frs.len() ==> fr_cuts_ok(#[trigger] frs[i])
            &&& get(spec, "coverage_summary"@) is Some ==> state_count(frs) <= usize::MAX
        },
        None => true,
    }
}

/// Every placeholder field of the requirement's states that the validator
/// reports can be cut after 50 bytes.
pub open spec fn fr_cuts_ok(fr: YamlValue) -> bool {
    let id = str_or(fr, "id"@, "??"@);
    let name = str_or(fr, "name"@, "??"@);
    (id != "??"@ && name != "??"@) ==> match states_of(fr) {
        Some(ss) => states_cut_ok(ss),
        None => true,
    }
}

/// Every reported placeholder field of the states can be cut.
pub open spec fn states_cut_ok(ss: Seq<YamlValue>) -> bool {
    forall|j: int| 0 <= j < ss.len() ==> state_cuts_ok(#[trigger] ss[j])
}

/// Every placeholder field of a state can be cut after 50 bytes.
pub open spec fn state_cuts_ok(st: YamlValue) -> bool {
    &&& field_cut_ok(str_or(st, "renders"@, Seq::empty()))
    &&& field_cut_ok(str_or(st, "assert_target"@, Seq::empty()))
    &&& field_cut_ok(str_or(st, "condition"@, Seq::empty()))
}

/// A placeholder field value can be cut after 50 bytes.
pub open spec fn field_cut_ok(v: Seq<char>) -> bool {
    placeholder(v) ==> cut_ok(v, 50)
}

/// The fixtures file behind an optional reference.
pub open spec fn opt_file(o: Option<&FixtureFile>) -> Option<FixtureFile> {
    match o {
        Some(f) => Some(*f),
        None => None,
    }
}

// ── Executable functions ──

/// A line made of `a`, `b` and `c`.
fn cat3(a: &str, b: &str, c: &str) -> (r: String)
    ensures
        r@ == a@ + b@ + c@,
{
    let mut r = owned(a);
    append(&mut r, b);
    append(&mut r, c);
    r
}

/// The requirement's state list: `state_table`, else `states`.
fn states_of_exec(fr: &YamlValue) -> (r: Option<&Vec<YamlValue>>)
    ensures
        match r {
            Some(s) => states_of(*fr) == Some(s@),
            None => states_of(*fr) is None,
        },
{
    match yaml_get(fr, "state_table") {
        Some(v) => yaml_as_seq(v),
        None => yaml_get_seq(fr, "states"),
    }
}

/// The keys of every state of every requirement, in order.
fn collect_state_keys(frs: &Vec<YamlValue>) -> (r: Vec<String>)
    ensures
        strs_view(r@) == state_keys(frs@),
{
    let mut keys: Vec<String> = Vec::new();
    for i in 0..frs.len()
        invariant
            strs_view(keys@) == state_keys(frs@.take(i as int)),
    {
        let fr = &frs[i];
        let ghost before = strs_view(keys@);
        let fr_id = yaml_str_or(fr, "id", "");
        assert(""@ =~= Seq::<char>::empty()) by {
            reveal_strlit("");
        }
        if let Some(states) = states_of_exec(fr) {
            for j in 0..states.len()
                invariant
                    strs_view(keys@) == before + states@.take(j as int).map_values(key_of(*fr)),
                    fr_id@ == str_or(*fr, "id"@, Seq::empty()),
                    ""@ =~= Seq::<char>::empty(),
            {
                let sid = yaml_str_or(&states[j], "id", "");
                let ghost kv = strs_view(keys@);
                keys.push(cat3(fr_id, "-", sid));
                assert(strs_view(keys@) =~= kv.push(fr_id@ + "-"@ + sid@));
                assert(states@.take(j + 1).map_values(key_of(*fr)) =~= states@.take(j as int).map_values(
                    key_of(*fr),
                ).push(key_of(*fr)(states@[j as int])));
                assert(key_of(*fr)(states@[j as int]) == fr_id@ + "-"@ + sid@);
                assert(strs_view(keys@) =~= before + states@.take(j + 1).map_values(key_of(*fr)));
            }
            assert(states@.take(states@.len() as int) =~= states@);
        }
        assert(frs@.take(i + 1).drop_last() =~= frs@.take(i as int));
        assert(strs_view(keys@) =~= state_keys(frs@.take(i + 1)));
    }
    assert(frs@.take(frs@.len() as int) =~= frs@);
    keys
}

/// Whether `list` holds `s`.
fn holds_string(list: &Vec<String>, s: &String) -> (r: bool)
    ensures
        r == strs_view(list@).contains(s@),
{
    for i in 0..list.len()
        invariant
            forall|k: int| 0 <= k < i ==> list@[k]@ != s@,
    {
        if list[i] == *s {
            assert(strs_view(list@)[i as int] == s@);
            return true;
        }
    }
    false
}

/// Whether a field value still holds a placeholder, given its uppercase
/// form.
pub fn is_placeholder_given(v: &str, upper: &str) -> (r: bool)
    ensures
        r == placeholder_given(v@, upper@),
{
    contains_str(upper, "MISSING") || contains_str(v, "TODO") || contains_str(v, "TBD")
}

/// Whether a field value still holds a placeholder.
fn is_placeholder(v: &str) -> (r: bool)
    ensures
        r == placeholder(v@),
{
    let upper = to_uppercase(v);
    is_placeholder_given(v, upper.as_str())
}

/// Whether a fixture name is a placeholder, given its uppercase form.
pub fn is_fixture_placeholder_given(f: &str, upper: &str) -> (r: bool)
    ensures
        r == fixture_placeholder_given(f@, upper@),
{
    owned(upper) == owned("MISSING") || contains_str(f, "TODO")
}

/// The findings for the (trimmed) `requires` references of a state.
pub fn unresolved_requires(full_id: &str, refs: &Vec<String>, keys: &Vec<String>) -> (r: Vec<Finding>)
    ensures
        notes_view(r@) == unresolved_notes(full_id@, strs_view(refs@), strs_view(keys@)),
{
    let ghost rs = strs_view(refs@);
    let ghost kv = strs_view(keys@);
    let mut out: Vec<Finding> = Vec::new();
    for i in 0..refs.len()
        invariant
            rs == strs_view(refs@),
            kv == strs_view(keys@),
            notes_view(out@) == unresolved_notes(full_id@, rs.take(i as int), kv),
    {
        assert(rs.take(i + 1).drop_last() =~= rs.take(i as int));
        assert(rs.take(i + 1).last() == refs@[i as int]@);
        let ghost before = notes_view(out@);
        let r = &refs[i];
        if !r.as_str().is_empty() && !holds_string(keys, r) {
            let mut m = cat3("  ERROR  ", full_id, ": requires '");
            append(&mut m, r.as_str());
            append(&mut m, "' does not resolve to any state");
            out.push(Finding::Error(m));
        }
        assert(notes_view(out@) =~= unresolved_notes(full_id@, rs.take(i + 1), kv));
    }
    assert(rs.take(rs.len() as int) =~= rs);
    out
}

/// Reports a placeholder field value.
fn check_placeholder(full_id: &str, v: &str, out: &mut Vec<Finding>)
    requires
        field_cut_ok(v@),
    ensures
        notes_view(final(out)@) == notes_view(old(out)@) + placeholder_notes(full_id@, v@),
{
    if is_placeholder(v) {
        let mut m = cat3("  ERROR  ", full_id, ": placeholder value detected: '");
        let cut = cut_str(v, 50);
        append(&mut m, cut.as_str());
        append(&mut m, "'");
        out.push(Finding::Error(m));
    }
    assert(notes_view(out@) =~= notes_view(old(out)@) + placeholder_notes(full_id@, v@));
}

/// Reports `requires` references that name no state.
fn check_requires(full_id: &str, req: &str, keys: &Vec<String>, out: &mut Vec<Finding>)
    ensures
        notes_view(final(out)@) == notes_view(old(out)@) + requires_notes(
            full_id@,
            split_on(req@, ','),
            strs_view(keys@),
        ),
{
    let pieces = split_char(req, ',');
    let ghost ps = strs_view(pieces@);
    let mut refs: Vec<String> = Vec::new();
    for i in 0..pieces.len()
        invariant
            ps == strs_view(pieces@),
            strs_view(refs@) == ps.take(i as int).map_values(|p: Seq<char>| trimmed(p)),
    {
        let ghost prev = strs_view(refs@);
        refs.push(trim(pieces[i].as_str()));
        assert(ps.take(i + 1)[i as int] == pieces@[i as int]@);
        assert(strs_view(refs@) =~= prev.push(trimmed(pieces@[i as int]@)));
        assert(strs_view(refs@) =~= ps.take(i + 1).map_values(|p: Seq<char>| trimmed(p)));
    }
    assert(ps.take(ps.len() as int) =~= ps);
    let mut found = unresolved_requires(full_id, &refs, keys);
    let ghost before = notes_view(out@);
    out.append(&mut found);
    assert(notes_view(out@) =~= before + requires_notes(full_id@, ps, strs_view(keys@)));
}

/// Reports on a state's assertion target.
fn check_target(full_id: &str, st: &YamlValue, out: &mut Vec<Finding>)
    ensures
        notes_view(final(out)@) == notes_view(old(out)@) + target_notes(full_id@, *st),
{
    assert(""@ =~= Seq::<char>::empty()) by {
        reveal_strlit("");
    }
    let renders = yaml_str_or(st, "renders", "");
    let at = yaml_str_or(st, "assert_target", "");
    let state_name = yaml_str_or(st, "state", "??");
    if is_code_identifier(at) {
        let mut m = cat3("  WARN   ", full_id, ": assert_target '");
        append(&mut m, at);
        append(&mut m, "' is a code identifier — generator will fall back to state name '");
        append(&mut m, state_name);
        append(&mut m, "' (likely fails). Add visible UI text.");
        out.push(Finding::Warn(m));
    }
    if at.is_empty() {
        if contains_char(renders, '\'') || contains_char(renders, '"') {
            let m = cat3(
                "  WARN  ",
                full_id,
                ": no assert_target — generator will extract from renders quoted strings",
            );
            out.push(Finding::Warn(m));
        } else {
            let mut m = cat3(
                "  WARN  ",
                full_id,
                ": no assert_target and no quoted text in renders — generator will fall back to state name '",
            );
            append(&mut m, state_name);
            append(&mut m, "' (likely fails). Add assert_target.");
            out.push(Finding::Warn(m));
        }
    }
    assert(notes_view(out@) =~= notes_view(old(out)@) + target_notes(full_id@, *st));
}

/// Reports a state that renders nothing.
fn check_renders(full_id: &str, st: &YamlValue, out: &mut Vec<Finding>)
    ensures
        notes_view(final(out)@) == notes_view(old(out)@) + renders_notes(full_id@, *st),
{
    assert(""@ =~= Seq::<char>::empty()) by {
        reveal_strlit("");
    }
    let renders = yaml_str_or(st, "renders", "");
    if renders.is_empty() {
        out.push(Finding::Error(cat3("  ERROR  ", full_id, ": renders is empty")));
    }
    assert(notes_view(out@) =~= notes_view(old(out)@) + renders_notes(full_id@, *st));
}

/// Reports placeholder values in a state's fields.
fn check_fields(full_id: &str, st: &YamlValue, out: &mut Vec<Finding>)
    requires
        state_cuts_ok(*st),
    ensures
        notes_view(final(out)@) == notes_view(old(out)@) + fields_notes(full_id@, *st),
{
    assert(""@ =~= Seq::<char>::empty()) by {
        reveal_strlit("");
    }
    let renders = yaml_str_or(st, "renders", "");
    let at = yaml_str_or(st, "assert_target", "");
    let condition = yaml_str_or(st, "condition", "");
    check_placeholder(full_id, renders, out);
    check_placeholder(full_id, at, out);
    check_placeholder(full_id, condition, out);
    assert(notes_view(out@) =~= notes_view(old(out)@) + fields_notes(full_id@, *st));
}

/// Reports a state's unresolved `requires` references.
fn check_state_requires(full_id: &str, st: &YamlValue, keys: &Vec<String>, out: &mut Vec<Finding>)
    ensures
        notes_view(final(out)@) == notes_view(old(out)@) + state_requires_notes(
            full_id@,
            *st,
            strs_view(keys@),
        ),
{
    match yaml_get(st, "requires") {
        Some(v) => match yaml_as_str(v) {
            Some(req) => if !req.is_empty() {
                check_requires(full_id, req, keys, out);
            },
            None => {},
        },
        None => {},
    }
    assert(notes_view(out@) =~= notes_view(old(out)@) + state_requires_notes(
        full_id@,
        *st,
        strs_view(keys@),
    ));
}

/// Reports a placeholder fixture.
fn check_fixture(full_id: &str, st: &YamlValue, out: &mut Vec<Finding>)
    ensures
        notes_view(final(out)@) == notes_view(old(out)@) + fixture_notes(full_id@, *st),
{
    match yaml_get(st, "fixture") {
        Some(v) => match yaml_as_str(v) {
            Some(fixture) => {
                let upper = to_uppercase(fixture);
                if is_fixture_placeholder_given(fixture, upper.as_str()) {
                    let mut m = cat3("  ERROR  ", full_id, ": fixture is placeholder: '");
                    append(&mut m, fixture);
                    append(&mut m, "'");
                    out.push(Finding::Error(m));
                }
            },
            None => {},
        },
        None => {},
    }
    assert(notes_view(out@) =~= notes_view(old(out)@) + fixture_notes(full_id@, *st));
}

/// Reports on one state of requirement `fr_id`.
fn check_state(fr_id: &str, st: &YamlValue, keys: &Vec<String>, out: &mut Vec<Finding>)
    requires
        state_cuts_ok(*st),
    ensures
        notes_view(final(out)@) == notes_view(old(out)@) + state_notes(fr_id@, *st, strs_view(keys@)),
{
    let ghost start = notes_view(out@);
    let sid = yaml_str_or(st, "id", "??");
    let full = cat3(fr_id, "-", sid);
    let full_id = full.as_str();
    let ghost f = full@;
    let ghost ks = strs_view(keys@);
    check_renders(full_id, st, out);
    let ghost p1 = renders_notes(f, *st);
    check_target(full_id, st, out);
    let ghost p2 = target_notes(f, *st);
    proof {
        lemma_concat_associative(start, p1, p2);
    }
    check_fields(full_id, st, out);
    let ghost p3 = fields_notes(f, *st);
    proof {
        lemma_concat_associative(start, p1 + p2, p3);
    }
    check_state_requires(full_id, st, keys, out);
    let ghost p4 = state_requires_notes(f, *st, ks);
    proof {
        lemma_concat_associative(start, p1 + p2 + p3, p4);
    }
    check_fixture(full_id, st, out);
    let ghost p5 = fixture_notes(f, *st);
    proof {
        lemma_concat_associative(start, p1 + p2 + p3 + p4, p5);
    }
    assert(f == full_state_id(fr_id@, *st));
}

/// Reports on one functional requirement.
fn check_fr(fr: &YamlValue, keys: &Vec<String>, out: &mut Vec<Finding>)
    requires
        fr_cuts_ok(*fr),
    ensures
        notes_view(final(out)@) == notes_view(old(out)@) + fr_notes(*fr, strs_view(keys@)),
{
    assert(""@ =~= Seq::<char>::empty()) by {
        reveal_strlit("");
    }
    let ghost start = notes_view(out@);
    let fr_id = yaml_str_or(fr, "id", "??");
    let fr_name = yaml_str_or(fr, "name", "??");
    if owned(fr_id) == owned("??") || owned(fr_name) == owned("??") {
        out.push(Finding::Error(owned("  ERROR  FR missing id or name")));
        assert(notes_view(out@) =~= start + fr_notes(*fr, strs_view(keys@)));
        return;
    }
    let fr_type = yaml_str_or(fr, "type", "");
    if owned(fr_type) != owned("static") && owned(fr_type) != owned("interactive") {
        let mut m = cat3("  ERROR  ", fr_id, ": type must be 'static' or 'interactive', got '");
        append(&mut m, fr_type);
        append(&mut m, "'");
        out.push(Finding::Error(m));
    }
    let ghost a = notes_view(out@);
    match states_of_exec(fr) {
        Some(states) => {
            if states.len() == 0 {
                out.push(Finding::Error(cat3("  ERROR  ", fr_id, ": no states in state_table")));
            } else {
                out.push(Finding::QuietPass);
                let ghost b = notes_view(out@);
                for j in 0..states.len()
                    invariant
                        forall|k: int| 0 <= k < states@.len() ==> state_cuts_ok(#[trigger] states@[k]),
                        notes_view(out@) == b + states_notes(
                            fr_id@,
                            states@.take(j as int),
                            strs_view(keys@),
                        ),
                {
                    assert(states@.take(j + 1).drop_last() =~= states@.take(j as int));
                    assert(states@.take(j + 1).last() == states@[j as int]);
                    check_state(fr_id, &states[j], keys, out);
                    proof {
                        let kv = strs_view(keys@);
                        lemma_concat_associative(
                            b,
                            states_notes(fr_id@, states@.take(j as int), kv),
                            state_notes(fr_id@, states@[j as int], kv),
                        );
                    }
                }
                assert(states@.take(states@.len() as int) =~= states@);
            }
        },
        None => {
            out.push(Finding::Error(cat3("  ERROR  ", fr_id, ": no states in state_table")));
        },
    }
    assert(notes_view(out@) =~= start + fr_notes(*fr, strs_view(keys@)));
}

/// Reports the fixtures section.
fn check_fixtures(spec: &YamlValue, file: Option<&FixtureFile>, out: &mut Vec<Finding>)
    ensures
        notes_view(final(out)@) == notes_view(old(out)@) + fixtures_notes(*spec, opt_file(file)),
{
    assert(""@ =~= Seq::<char>::empty()) by {
        reveal_strlit("");
    }
    let ghost start = notes_view(out@);
    if let Some(fixtures) = yaml_get(spec, "fixtures") {
        if let Some(required) = yaml_get_seq(fixtures, "required") {
            let mut m = owned("  PASS  fixtures.required: ");
            push_decimal(&mut m, required.len() as u64);
            append(&mut m, " entries");
            out.push(Finding::Pass(m));
            if let Some(f) = file {
                let ghost b = notes_view(out@);
                for i in 0..required.len()
                    invariant
                        ""@ =~= Seq::<char>::empty(),
                        notes_view(out@) == b + entries_notes(required@.take(i as int), *f),
                {
                    assert(required@.take(i + 1).drop_last() =~= required@.take(i as int));
                    assert(required@.take(i + 1).last() == required@[i as int]);
                    let key = yaml_str_or(&required[i], "key", "");
                    let ghost nv = notes_view(out@);
                    if !key.is_empty() && !contains_str(f.content.as_str(), key) {
                        let mut w = cat3("  WARN  fixture '", key, "' not found in ");
                        append(&mut w, f.path.as_str());
                        out.push(Finding::Warn(w));
                        assert(notes_view(out@) =~= nv.push(
                            Note::Warn("  WARN  fixture '"@ + key@ + "' not found in "@ + f.path@),
                        ));
                    } else {
                        assert(notes_view(out@) =~= nv);
                    }
                    assert(notes_view(out@) =~= b + entries_notes(required@.take(i + 1), *f));
                }
                assert(required@.take(required@.len() as int) =~= required@);
            }
        }
    }
    assert(notes_view(out@) =~= start + fixtures_notes(*spec, opt_file(file)));
}

/// The number of states listed by the requirements.
fn count_states(frs: &Vec<YamlValue>) -> (r: usize)
    requires
        state_count(frs@) <= usize::MAX,
    ensures
        r == state_count(frs@),
{
    let mut total: usize = 0;
    for i in 0..frs.len()
        invariant
            state_count(frs@) <= usize::MAX,
            total == state_count(frs@.take(i as int)),
    {
        assert(frs@.take(i + 1).drop_last() =~= frs@.take(i as int));
        proof {
            lemma_state_count_prefix(frs@, i + 1);
        }
        match states_of_exec(&frs[i]) {
            Some(states) => {
                total = total + states.len();
            },
            None => {},
        }
    }
    assert(frs@.take(frs@.len() as int) =~= frs@);
    total
}

/// The states of a prefix of the requirements are no more than all of them.
proof fn lemma_state_count_prefix(frs: Seq<YamlValue>, k: int)
    requires
        0 <= k <= frs.len(),
    ensures
        state_count(frs.take(k)) <= state_count(frs),
    decreases frs.len() - k,
{
    if k < frs.len() {
        lemma_state_count_prefix(frs, k + 1);
        assert(frs.take(k + 1).drop_last() =~= frs.take(k));
    } else {
        assert(frs.take(k) =~= frs);
    }
}

/// An unsigned integer under `key`, or 0.
fn u64_or_zero_exec(v: &YamlValue, key: &str) -> (r: u64)
    ensures
        r == u64_or_zero(*v, key@),
{
    match yaml_get(v, key) {
        Some(x) => match yaml_as_u64(x) {
            Some(n) => n,
            None => 0,
        },
        None => 0,
    }
}

/// Reports how the coverage summary compares with the requirements.
fn check_coverage(spec: &YamlValue, frs: &Vec<YamlValue>, out: &mut Vec<Finding>)
    requires
        get(*spec, "coverage_summary"@) is Some ==> state_count(frs@) <= usize::MAX,
    ensures
        notes_view(final(out)@) == notes_view(old(out)@) + coverage_notes(*spec, frs@),
{
    let ghost start = notes_view(out@);
    if let Some(coverage) = yaml_get(spec, "coverage_summary") {
        let total_frs = u64_or_zero_exec(coverage, "total_frs");
        let total_states = u64_or_zero_exec(coverage, "total_states");
        let n = frs.len();
        let actual = count_states(frs);
        if total_frs as usize == n {
            let mut m = owned("  PASS  coverage_summary.total_frs matches (");
            push_decimal(&mut m, total_frs);
            append(&mut m, " == ");
            push_decimal(&mut m, n as u64);
            append(&mut m, ")");
            out.push(Finding::Pass(m));
        } else {
            let mut m = owned("  ERROR  coverage_summary.total_frs mismatch (");
            push_decimal(&mut m, total_frs);
            append(&mut m, " != ");
            push_decimal(&mut m, n as u64);
            append(&mut m, ")");
            out.push(Finding::Error(m));
        }
        if total_states as usize == actual {
            let mut m = owned("  PASS  coverage_summary.total_states matches (");
            push_decimal(&mut m, total_states);
            append(&mut m, " == ");
            push_decimal(&mut m, actual as u64);
            append(&mut m, ")");
            out.push(Finding::Pass(m));
        } else {
            let mut m = owned("  ERROR  coverage_summary.total_states mismatch (");
            push_decimal(&mut m, total_states);
            append(&mut m, " != ");
            push_decimal(&mut m, actual as u64);
            append(&mut m, ")");
            out.push(Finding::Error(m));
        }
    }
    assert(notes_view(out@) =~= start + coverage_notes(*spec, frs@));
}

/// Every finding of the validator on `spec`, in the order they are
/// printed; `file` is the fixtures file to check required fixtures
/// against, when one was given and exists.
pub fn validate_findings(spec: &YamlValue, file: Option<&FixtureFile>) -> (r: Vec<Finding>)
    requires
        validatable(*spec),
    ensures
        notes_view(r@) == validation_notes(*spec, opt_file(file)),
{
    let mut out: Vec<Finding> = Vec::new();
    // 1. Top-level structure
    let ticket_ok = match yaml_get(spec, "ticket") {
        Some(t) => yaml_get(t, "id").is_some(),
        None => false,
    };
    if ticket_ok {
        out.push(Finding::Pass(owned("  PASS  ticket.id present")));
    } else {
        out.push(Finding::Error(owned("  ERROR  ticket.id missing")));
    }
    let ghost t = notes_view(out@);
    assert(t =~= ticket_notes(*spec));
    let frs = match yaml_get_seq(spec, "functional_requirements") {
        Some(list) => if list.len() > 0 {
            list
        } else {
            out.push(Finding::Error(owned("  ERROR  functional_requirements missing or empty")));
            assert(notes_view(out@) =~= validation_notes(*spec, opt_file(file)));
            return out;
        },
        None => {
            out.push(Finding::Error(owned("  ERROR  functional_requirements missing or empty")));
            assert(notes_view(out@) =~= validation_notes(*spec, opt_file(file)));
            return out;
        },
    };
    let mut m = owned("  PASS  functional_requirements: ");
    push_decimal(&mut m, frs.len() as u64);
    append(&mut m, " FRs");
    out.push(Finding::Pass(m));
    // Collect all state keys for requires resolution
    let keys = collect_state_keys(frs);
    // 2. Per-FR validation
    let mut info = owned("  INFO  validating ");
    push_decimal(&mut info, frs.len() as u64);
    append(&mut info, " FRs...");
    out.push(Finding::Info(info));
    let ghost head = notes_view(out@);
    for i in 0..frs.len()
        invariant
            fr_list(*spec) == Some(frs@),
            validatable(*spec),
            notes_view(out@) == head + frs_notes(frs@.take(i as int), strs_view(keys@)),
    {
        assert(frs@.take(i + 1).drop_last() =~= frs@.take(i as int));
        assert(fr_cuts_ok(frs@[i as int]));
        check_fr(&frs[i], &keys, &mut out);
    }
    assert(frs@.take(frs@.len() as int) =~= frs@);
    let ghost body = notes_view(out@);
    // 3. Fixtures section
    check_fixtures(spec, file, &mut out);
    let ghost fx = notes_view(out@);
    // 4. Coverage summary
    check_coverage(spec, frs, &mut out);
    proof {
        let p2 = frs_notes(frs@, state_keys(frs@));
        let p3 = fixtures_notes(*spec, opt_file(file));
        let p4 = coverage_notes(*spec, frs@);
        lemma_concat_associative(head, p2, p3);
        lemma_concat_associative(head, p2 + p3, p4);
        assert(head =~= ticket_notes(*spec) + seq![
            Note::Pass("  PASS  functional_requirements: "@ + decimal(frs@.len()) + " FRs"@),
            Note::Info("  INFO  validating "@ + decimal(frs@.len()) + " FRs..."@),
        ]);
    }
    out
}

/// Whether the validator can run on `spec` without failing.
pub fn is_validatable(spec: &YamlValue) -> (r: bool)
    ensures
        r == validatable(*spec),
{
    let frs = match yaml_get_seq(spec, "functional_requirements") {
        Some(list) => if list.len() > 0 {
            list
        } else {
            return true;
        },
        None => {
            return true;
        },
    };
    for i in 0..frs.len()
        invariant
            fr_list(*spec) == Some(frs@),
            forall|k: int| 0 <= k < i ==> fr_cuts_ok(#[trigger] frs@[k]),
    {
        if !fr_cuts_ok_exec(&frs[i]) {
            return false;
        }
    }
    if yaml_get(spec, "coverage_summary").is_some() {
        let mut total: usize = 0;
        for i in 0..frs.len()
            invariant
                fr_list(*spec) == Some(frs@),
                get(*spec, "coverage_summary"@) is Some,
                total == state_count(frs@.take(i as int)),
        {
            assert(frs@.take(i + 1).drop_last() =~= frs@.take(i as int));
            assert(frs@.take(i + 1).last() == frs@[i as int]);
            match states_of_exec(&frs[i]) {
                Some(states) => {
                    if states.len() > usize::MAX - total {
                        proof {
                            lemma_state_count_prefix(frs@, i + 1);
                        }
                        return false;
                    }
                    total = total + states.len();
                },
                None => {},
            }
        }
        assert(frs@.take(frs@.len() as int) =~= frs@);
    }
    true
}

/// Whether a placeholder field value can be cut after 50 bytes.
fn field_cut_ok_exec(v: &str) -> (r: bool)
    ensures
        r == field_cut_ok(v@),
{
    if !is_placeholder(v) {
        return true;
    }
    crate::text::can_cut(v, 50)
}

/// Whether the requirement's reported placeholder fields can all be cut.
fn fr_cuts_ok_exec(fr: &YamlValue) -> (r: bool)
    ensures
        r == fr_cuts_ok(*fr),
{
    assert(""@ =~= Seq::<char>::empty()) by {
        reveal_strlit("");
    }
    let fr_id = yaml_str_or(fr, "id", "??");
    let fr_name = yaml_str_or(fr, "name", "??");
    if owned(fr_id) == owned("??") || owned(fr_name) == owned("??") {
        return true;
    }
    match states_of_exec(fr) {
        Some(states) => {
            for j in 0..states.len()
                invariant
                    ""@ =~= Seq::<char>::empty(),
                    states_of(*fr) == Some(states@),
                    str_or(*fr, "id"@, "??"@) != "??"@,
                    str_or(*fr, "name"@, "??"@) != "??"@,
                    forall|k: int| 0 <= k < j ==> state_cuts_ok(#[trigger] states@[k]),
            {
                let st = &states[j];
                let ok = field_cut_ok_exec(yaml_str_or(st, "renders", "")) && field_cut_ok_exec(
                    yaml_str_or(st, "assert_target", ""),
                ) && field_cut_ok_exec(yaml_str_or(st, "condition", ""));
                if !ok {
                    assert(!state_cuts_ok(states@[j as int]));
                    assert(!(forall|k: int| 0 <= k < states@.len() ==> state_cuts_ok(#[trigger] states@[k])));
                    assert(str_or(*fr, "id"@, "??"@) != "??"@ && str_or(*fr, "name"@, "??"@) != "??"@);
                    assert(!fr_cuts_ok(*fr));
                    return false;
                }
            }
            true
        },
        None => true,
    }
}

/// The report the validator gives on `spec`: the lines it prints, its
/// counts, and its exit code. Without a non-empty requirement list it stops
/// after saying so, exits with 1 and prints no summary; otherwise it ends
/// with a blank line and the summary, and exits with 1 exactly when a check
/// failed.
pub open spec fn report_of(spec: YamlValue, file: Option<FixtureFile>, r: ValidationReport) -> bool {
    let ns = validation_notes(spec, file);
    &&& r.passed == count_notes(ns, |n: Note| is_pass(n))
    &&& r.failed == count_notes(ns, |n: Note| is_error(n))
    &&& r.warnings == count_notes(ns, |n: Note| is_warn(n))
    &&& fr_list(spec) is Some ==> strs_view(r.lines@) == note_lines(ns) + seq![
        Seq::empty(),
        summary_line(r.passed as nat, r.failed as nat, r.warnings as nat),
    ]
    &&& fr_list(spec) is None ==> strs_view(r.lines@) == note_lines(ns)
    &&& r.exit_code == if fr_list(spec) is None || r.failed > 0 {
        1i32
    } else {
        0i32
    }
}

/// Runs the validator on `spec` and gives its report (see `report_of`).
pub fn validate_spec(spec: &YamlValue, file: Option<&FixtureFile>) -> (r: ValidationReport)
    requires
        validatable(*spec),
    ensures
        report_of(*spec, opt_file(file), r),
{
    let findings = validate_findings(spec, file);
    let ghost ns = notes_view(findings@);
    let mut lines: Vec<String> = Vec::new();
    let mut passed: usize = 0;
    let mut failed: usize = 0;
    let mut warnings: usize = 0;
    for i in 0..findings.len()
        invariant
            ns == notes_view(findings@),
            strs_view(lines@) == note_lines(ns.take(i as int)),
            passed == count_notes(ns.take(i as int), |n: Note| is_pass(n)),
            failed == count_notes(ns.take(i as int), |n: Note| is_error(n)),
            warnings == count_notes(ns.take(i as int), |n: Note| is_warn(n)),
            passed <= i,
            failed <= i,
            warnings <= i,
    {
        assert(ns.take(i + 1).drop_last() =~= ns.take(i as int));
        assert(ns.take(i + 1).last() == findings@[i as int]@);
        let ghost lv = strs_view(lines@);
        match &findings[i] {
            Finding::Pass(s) => {
                lines.push(s.clone());
                passed = passed + 1;
            },
            Finding::QuietPass => {
                passed = passed + 1;
            },
            Finding::Error(s) => {
                lines.push(s.clone());
                failed = failed + 1;
            },
            Finding::Warn(s) => {
                lines.push(s.clone());
                warnings = warnings + 1;
            },
            Finding::Info(s) => {
                lines.push(s.clone());
            },
        }
        assert(strs_view(lines@) =~= note_lines(ns.take(i + 1)));
    }
    assert(ns.take(ns.len() as int) =~= ns);
    let completed = match yaml_get_seq(spec, "functional_requirements") {
        Some(list) => list.len() > 0,
        None => false,
    };
    if completed {
        let ghost before = strs_view(lines@);
        lines.push(String::new());
        let mut summary = String::new();
        push_decimal(&mut summary, passed as u64);
        append(&mut summary, " passed, ");
        push_decimal(&mut summary, failed as u64);
        append(&mut summary, " errors, ");
        push_decimal(&mut summary, warnings as u64);
        append(&mut summary, " warnings");
        lines.push(summary);
        assert(strs_view(lines@) =~= before + seq![
            Seq::empty(),
            summary_line(passed as nat, failed as nat, warnings as nat),
        ]);
    }
    let exit_code: i32 = if !completed || failed > 0 {
        1
    } else {
        0
    };
    ValidationReport { lines, passed, failed, warnings, exit_code }
}

/// Runs the validator when it can run to the end: `None` when a
/// placeholder value would be cut inside a character, or the states could
/// not be counted, where the validator cannot go on.
pub fn validate_checked(spec: &YamlValue, file: Option<&FixtureFile>) -> (r: Option<ValidationReport>)
    ensures
        r is None <==> !validatable(*spec),
        r matches Some(rep) ==> report_of(*spec, opt_file(file), rep),
{
    if is_validatable(spec) {
        Some(validate_spec(spec, file))
    } else {
        None
    }
}

} // verus!
