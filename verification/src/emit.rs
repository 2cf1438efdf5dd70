//! Writing generated test cases as YAML text, and naming their files.
use vstd::prelude::*;

use crate::text::{
    append, decimal, join, lowercase, owned, push_char, push_decimal, push_joined, replace_char,
    replace_char_in, strs_view, to_lowercase,
};
use vstd::seq_lib::lemma_concat_associative;

use crate::types::{steps_view, GeneratedStep, GeneratedTC, StepView, TcView};

verus! {

// ── Specifications ──

/// One line of output: the text and a newline.
pub open spec fn line(s: Seq<char>) -> Seq<char> {
    s.push('\n')
}

/// The line `prefix + v + suffix` when `v` is present, else nothing.
pub open spec fn opt_line(prefix: Seq<char>, v: Option<Seq<char>>, suffix: Seq<char>) -> Seq<char> {
    match v {
        Some(x) => line(prefix + x + suffix),
        None => Seq::empty(),
    }
}

/// The line `prefix + decimal(v)` when `v` is present, else nothing.
pub open spec fn opt_num_line(prefix: Seq<char>, v: Option<u64>) -> Seq<char> {
    match v {
        Some(n) => line(prefix + decimal(n as nat)),
        None => Seq::empty(),
    }
}

/// The header of a test case: id, name and precondition, then `steps:`.
pub open spec fn header_text(tc: TcView) -> Seq<char> {
    line("id: "@ + tc.id) + line("name: \""@ + tc.name + "\""@) + line("precondition:"@) + opt_line(
        "  package: "@,
        tc.precondition_package,
        Seq::empty(),
    ) + line("  activity: "@ + tc.precondition_activity) + (if tc.precondition_logged_in {
        line("  logged_in: true"@)
    } else {
        Seq::empty()
    }) + line("steps:"@)
}

/// The target line of an action step.
pub open spec fn target_text(s: StepView) -> Seq<char> {
    match (s.target_fuzzy, s.element_type) {
        (Some(t), Some(et)) => line(
            "    target: {content_fuzzy: \""@ + t + "\", type: \""@ + et + "\"}"@,
        ),
        (Some(t), None) => line("    target: {content_fuzzy: \""@ + t + "\"}"@),
        (None, _) => Seq::empty(),
    }
}

/// The assert type of an assertion step (`element_exists` by default).
pub open spec fn assert_kind(s: StepView) -> Seq<char> {
    match s.assert_type {
        Some(t) => t,
        None => "element_exists"@,
    }
}

/// The wait-for line of an action step.
pub open spec fn wait_for_text(s: StepView) -> Seq<char> {
    match s.wait_for {
        Some(wf) => line("    wait_for: ["@ + join(wf, ", "@) + "]"@),
        None => Seq::empty(),
    }
}

/// The text of an assertion step.
pub open spec fn assert_text(s: StepView) -> Seq<char> {
    opt_line("  # source: "@, s.source_comment, Seq::empty()) + line("  - assert: "@ + assert_kind(s))
        + opt_line("    target: {content_fuzzy: \""@, s.target_fuzzy, "\"}"@)
}

/// The text of a step other than an assertion.
pub open spec fn action_text(s: StepView) -> Seq<char> {
    line("  - action: "@ + s.action) + opt_line("    site_id: "@, s.site_id, Seq::empty()) + opt_line(
        "    user_id: "@,
        s.user_id,
        Seq::empty(),
    ) + target_text(s) + opt_line("    text: \""@, s.text, "\""@) + opt_num_line(
        "    seconds: "@,
        s.seconds,
    ) + wait_for_text(s) + opt_num_line("    wait_timeout: "@, s.wait_timeout)
}

/// The text of one step.
pub open spec fn step_text(s: StepView) -> Seq<char> {
    if s.action == "assert"@ {
        assert_text(s)
    } else {
        action_text(s)
    }
}

/// The text of a sequence of steps, in order.
pub open spec fn steps_text(ss: Seq<StepView>) -> Seq<char>
    decreases ss.len(),
{
    if ss.len() == 0 {
        Seq::empty()
    } else {
        steps_text(ss.drop_last()) + step_text(ss.last())
    }
}

/// The YAML text of a test case.
pub open spec fn yaml_text(tc: TcView) -> Seq<char> {
    header_text(tc) + steps_text(tc.steps)
}

/// The file name made from a lowercase id: `-` replaced by `_`, and
/// `.yaml` appended.
pub open spec fn file_name_from(lower_id: Seq<char>) -> Seq<char> {
    replace_char(lower_id, '-', '_') + ".yaml"@
}

/// The file name of a test case: its id lowercased, with `-` replaced by
/// `_`, and `.yaml` appended.
pub open spec fn tc_file_name_of(id: Seq<char>) -> Seq<char> {
    file_name_from(lowercase(id))
}

// ── Executable functions ──

/// Appends `s` and a newline.
fn push_line(out: &mut String, s: &str)
    ensures
        final(out)@ == old(out)@ + line(s@),
{
    append(out, s);
    push_char(out, '\n');
    assert(final(out)@ =~= old(out)@ + line(s@));
}

/// Appends the line `prefix + v + suffix` when `v` is present.
fn push_opt_line(out: &mut String, prefix: &str, v: &Option<String>, suffix: &str)
    ensures
        final(out)@ == old(out)@ + opt_line(prefix@, crate::text::opt_view(*v), suffix@),
{
    match v {
        Some(x) => {
            append(out, prefix);
            append(out, x.as_str());
            append(out, suffix);
            push_char(out, '\n');
            assert(final(out)@ =~= old(out)@ + line(prefix@ + x@ + suffix@));
        },
        None => {
            assert(final(out)@ =~= old(out)@ + Seq::<char>::empty());
        },
    }
}

/// Appends the line `prefix + v` when `v` is present.
fn push_opt_field(out: &mut String, prefix: &str, v: &Option<String>)
    ensures
        final(out)@ == old(out)@ + opt_line(prefix@, crate::text::opt_view(*v), Seq::empty()),
{
    match v {
        Some(x) => {
            append(out, prefix);
            append(out, x.as_str());
            push_char(out, '\n');
            assert(final(out)@ =~= old(out)@ + line(prefix@ + x@ + Seq::empty()));
        },
        None => {
            assert(final(out)@ =~= old(out)@ + Seq::<char>::empty());
        },
    }
}

/// Appends the line `prefix + decimal(v)` when `v` is present.
fn push_opt_num_line(out: &mut String, prefix: &str, v: Option<u64>)
    ensures
        final(out)@ == old(out)@ + opt_num_line(prefix@, v),
{
    match v {
        Some(n) => {
            append(out, prefix);
            push_decimal(out, n);
            push_char(out, '\n');
            assert(final(out)@ =~= old(out)@ + line(prefix@ + decimal(n as nat)));
        },
        None => {
            assert(final(out)@ =~= old(out)@ + Seq::<char>::empty());
        },
    }
}

/// Appends the target line of an action step.
fn push_target(out: &mut String, step: &GeneratedStep)
    ensures
        final(out)@ == old(out)@ + target_text(step@),
{
    match &step.target_fuzzy {
        Some(t) => {
            append(out, "    target: {content_fuzzy: \"");
            append(out, t.as_str());
            match &step.element_type {
                Some(et) => {
                    append(out, "\", type: \"");
                    append(out, et.as_str());
                    append(out, "\"}");
                },
                None => {
                    append(out, "\"}");
                },
            }
            push_char(out, '\n');
        },
        None => {},
    }
    assert(final(out)@ =~= old(out)@ + target_text(step@));
}

/// Appends the wait-for line of an action step.
fn push_wait_for(out: &mut String, step: &GeneratedStep)
    ensures
        final(out)@ == old(out)@ + wait_for_text(step@),
{
    match &step.wait_for {
        Some(wf) => {
            append(out, "    wait_for: [");
            push_joined(out, wf, ", ");
            append(out, "]");
            push_char(out, '\n');
        },
        None => {},
    }
    assert(final(out)@ =~= old(out)@ + wait_for_text(step@));
}

/// Appends the text of an assertion step.
fn push_assert_step(out: &mut String, step: &GeneratedStep)
    ensures
        final(out)@ == old(out)@ + assert_text(step@),
{
    let ghost s = step@;
    let ghost a = out@;
    push_opt_field(out, "  # source: ", &step.source_comment);
    let ghost p1 = opt_line("  # source: "@, s.source_comment, Seq::empty());
    let ghost b = out@;
    append(out, "  - assert: ");
    match &step.assert_type {
        Some(t) => append(out, t.as_str()),
        None => append(out, "element_exists"),
    }
    push_char(out, '\n');
    let ghost p2 = line("  - assert: "@ + assert_kind(s));
    assert(out@ =~= b + p2);
    push_opt_line(out, "    target: {content_fuzzy: \"", &step.target_fuzzy, "\"}");
    let ghost p3 = opt_line("    target: {content_fuzzy: \""@, s.target_fuzzy, "\"}"@);
    proof {
        lemma_concat_associative(a, p1, p2);
        lemma_concat_associative(a, p1 + p2, p3);
    }
}

/// Appends the text of a step other than an assertion.
fn push_action_step(out: &mut String, step: &GeneratedStep)
    ensures
        final(out)@ == old(out)@ + action_text(step@),
{
    let ghost s = step@;
    let ghost a = out@;
    append(out, "  - action: ");
    append(out, step.action.as_str());
    push_char(out, '\n');
    let ghost acc = line("  - action: "@ + s.action);
    assert(out@ =~= a + acc);
    push_opt_field(out, "    site_id: ", &step.site_id);
    proof {
        lemma_concat_associative(a, acc, opt_line("    site_id: "@, s.site_id, Seq::empty()));
        acc = acc + opt_line("    site_id: "@, s.site_id, Seq::empty());
    }
    push_opt_field(out, "    user_id: ", &step.user_id);
    proof {
        lemma_concat_associative(a, acc, opt_line("    user_id: "@, s.user_id, Seq::empty()));
        acc = acc + opt_line("    user_id: "@, s.user_id, Seq::empty());
    }
    push_target(out, step);
    proof {
        lemma_concat_associative(a, acc, target_text(s));
        acc = acc + target_text(s);
    }
    push_opt_line(out, "    text: \"", &step.text, "\"");
    proof {
        lemma_concat_associative(a, acc, opt_line("    text: \""@, s.text, "\""@));
        acc = acc + opt_line("    text: \""@, s.text, "\""@);
    }
    push_opt_num_line(out, "    seconds: ", step.seconds);
    proof {
        lemma_concat_associative(a, acc, opt_num_line("    seconds: "@, s.seconds));
        acc = acc + opt_num_line("    seconds: "@, s.seconds);
    }
    push_wait_for(out, step);
    proof {
        lemma_concat_associative(a, acc, wait_for_text(s));
        acc = acc + wait_for_text(s);
    }
    push_opt_num_line(out, "    wait_timeout: ", step.wait_timeout);
    proof {
        lemma_concat_associative(a, acc, opt_num_line("    wait_timeout: "@, s.wait_timeout));
        acc = acc + opt_num_line("    wait_timeout: "@, s.wait_timeout);
    }
    assert(acc == action_text(s));
}

/// Appends the text of one step.
fn push_step(out: &mut String, step: &GeneratedStep)
    ensures
        final(out)@ == old(out)@ + step_text(step@),
{
    if step.action == owned("assert") {
        push_assert_step(out, step);
    } else {
        push_action_step(out, step);
    }
}

/// Renders a test case as YAML text.
pub fn tc_to_yaml(tc: &GeneratedTC) -> (r: String)
    ensures
        r@ == yaml_text(tc@),
{
    let mut out = String::new();
    let mut id_line = owned("id: ");
    append(&mut id_line, tc.id.as_str());
    push_line(&mut out, id_line.as_str());
    let mut name_line = owned("name: \"");
    append(&mut name_line, tc.name.as_str());
    append(&mut name_line, "\"");
    push_line(&mut out, name_line.as_str());
    push_line(&mut out, "precondition:");
    push_opt_field(&mut out, "  package: ", &tc.precondition_package);
    let mut activity_line = owned("  activity: ");
    append(&mut activity_line, tc.precondition_activity.as_str());
    push_line(&mut out, activity_line.as_str());
    if tc.precondition_logged_in {
        push_line(&mut out, "  logged_in: true");
    }
    push_line(&mut out, "steps:");
    let ghost head = out@;
    assert(head =~= header_text(tc@));
    let ghost ss = steps_view(tc.steps@);
    for i in 0..tc.steps.len()
        invariant
            ss == steps_view(tc.steps@),
            out@ == head + steps_text(ss.take(i as int)),
    {
        proof {
            assert(ss.take(i + 1).drop_last() =~= ss.take(i as int));
        }
        push_step(&mut out, &tc.steps[i]);
        assert(out@ =~= head + steps_text(ss.take(i + 1)));
    }
    assert(ss.take(ss.len() as int) =~= ss);
    out
}

/// The file name made from the lowercase form of a test case's id.
pub fn file_name_from_lowercase(lower_id: &str) -> (r: String)
    ensures
        r@ == file_name_from(lower_id@),
{
    let mut name = replace_char_in(lower_id, '-', '_');
    append(&mut name, ".yaml");
    name
}

/// The name of the file a test case is written to.
pub fn tc_file_name(id: &str) -> (r: String)
    ensures
        r@ == tc_file_name_of(id@),
{
    let lower = to_lowercase(id);
    file_name_from_lowercase(lower.as_str())
}

} // verus!
