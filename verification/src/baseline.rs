//! Baselines: which captured screen files describe a functional
//! requirement, and which of their element contents are worth matching.
use vstd::prelude::*;

use crate::text::{opt_view, has_prefix, owned, starts_with, strs_view, utf8_len, utf8_len_exceeds};
use crate::types::FunctionalRequirement;

verus! {

/// A captured screen: the elements it showed.
pub struct BaselineFile {
    pub elements: Option<Vec<BaselineElement>>,
}

/// One element of a captured screen.
pub struct BaselineElement {
    pub content: Option<String>,
    pub element_type: Option<String>,
}

// ── Specifications ──

/// The baseline files, in order of preference, for a navigation target.
pub open spec fn mapped_baseline_files(target: Seq<char>) -> Seq<Seq<char>> {
    if target == "site_detail"@ {
        seq!["site-detail-scrolled.yaml"@, "site-detail.yaml"@]
    } else if target == "questions_list"@ {
        seq!["questions-list.yaml"@]
    } else if target == "post_question"@ {
        seq!["post-question-form.yaml"@]
    } else if target == "post_answer"@ {
        seq!["questions-list.yaml"@]
    } else if target == "profile_qa_tab"@ {
        seq!["profile-qa-scrolled.yaml"@, "profile-qa.yaml"@, "profile-dashboard.yaml"@]
    } else {
        Seq::empty()
    }
}

/// The baseline files to try for a requirement, in order: its own
/// `baseline_file`, then the files mapped to its navigation target. The
/// first that exists is used; when none does, every baseline is used.
pub open spec fn baseline_candidates_of(fr: FunctionalRequirement) -> Seq<Seq<char>> {
    match fr.navigation {
        Some(nav) => (match nav.baseline_file {
            Some(f) => seq![f@],
            None => Seq::empty(),
        }) + (match nav.target {
            Some(t) => mapped_baseline_files(t@),
            None => Seq::empty(),
        }),
        None => Seq::empty(),
    }
}

/// Content worth matching: longer than two bytes in UTF-8 and not an
/// icon (`ic_`) or button (`btn_`) resource name.
pub open spec fn useful_content(c: Seq<char>) -> bool {
    &&& utf8_len(c) > 2
    &&& !has_prefix(c, "ic_"@)
    &&& !has_prefix(c, "btn_"@)
}

/// The content of an element (empty when absent).
pub open spec fn element_content(e: BaselineElement) -> Seq<char> {
    match e.content {
        Some(c) => c@,
        None => Seq::empty(),
    }
}

/// The useful contents of a sequence of elements, in order.
pub open spec fn useful_contents(es: Seq<BaselineElement>) -> Seq<Seq<char>>
    decreases es.len(),
{
    if es.len() == 0 {
        Seq::empty()
    } else if useful_content(element_content(es.last())) {
        useful_contents(es.drop_last()).push(element_content(es.last()))
    } else {
        useful_contents(es.drop_last())
    }
}

/// The useful contents of a captured screen.
pub open spec fn file_contents(f: BaselineFile) -> Seq<Seq<char>> {
    match f.elements {
        Some(es) => useful_contents(es@),
        None => Seq::empty(),
    }
}

// ── Executable functions ──

/// The baseline files mapped to a navigation target, in order of
/// preference.
pub fn mapped_files(target: &str) -> (r: Vec<String>)
    ensures
        strs_view(r@) == mapped_baseline_files(target@),
{
    let t = owned(target);
    let mut r: Vec<String> = Vec::new();
    if t == owned("site_detail") {
        r.push(owned("site-detail-scrolled.yaml"));
        r.push(owned("site-detail.yaml"));
    } else if t == owned("questions_list") {
        r.push(owned("questions-list.yaml"));
    } else if t == owned("post_question") {
        r.push(owned("post-question-form.yaml"));
    } else if t == owned("post_answer") {
        r.push(owned("questions-list.yaml"));
    } else if t == owned("profile_qa_tab") {
        r.push(owned("profile-qa-scrolled.yaml"));
        r.push(owned("profile-qa.yaml"));
        r.push(owned("profile-dashboard.yaml"));
    }
    assert(strs_view(r@) =~= mapped_baseline_files(target@));
    r
}

/// The baseline files to try for a requirement, in order.
pub fn baseline_candidates(fr: &FunctionalRequirement) -> (r: Vec<String>)
    ensures
        strs_view(r@) == baseline_candidates_of(*fr),
{
    let mut r: Vec<String> = Vec::new();
    if let Some(nav) = &fr.navigation {
        if let Some(bf) = &nav.baseline_file {
            r.push(bf.clone());
        }
        let ghost first = strs_view(r@);
        if let Some(target) = &nav.target {
            let mut more = mapped_files(target.as_str());
            r.append(&mut more);
        }
        assert(strs_view(r@) =~= baseline_candidates_of(*fr));
    } else {
        assert(strs_view(r@) =~= baseline_candidates_of(*fr));
    }
    r
}

/// Whether a content is worth matching.
pub fn is_useful_content(c: &str) -> (r: bool)
    ensures
        r == useful_content(c@),
{
    utf8_len_exceeds(c, 2) && !starts_with(c, "ic_") && !starts_with(c, "btn_")
}

/// The useful contents of a captured screen, in order.
pub fn baseline_contents(file: &BaselineFile) -> (r: Vec<String>)
    ensures
        strs_view(r@) == file_contents(*file),
{
    let mut r: Vec<String> = Vec::new();
    if let Some(es) = &file.elements {
        let ghost all = es@;
        for i in 0..es.len()
            invariant
                all == es@,
                strs_view(r@) == useful_contents(all.take(i as int)),
        {
            proof {
                assert(all.take(i + 1).drop_last() =~= all.take(i as int));
            }
            let c: String = match &es[i].content {
                Some(c) => c.clone(),
                None => String::new(),
            };
            if is_useful_content(c.as_str()) {
                r.push(c);
            }
            assert(strs_view(r@) =~= useful_contents(all.take(i + 1)));
        }
        assert(all.take(all.len() as int) =~= all);
    }
    r
}

/// The first of the first `n` candidates whose file exists (`exists[i]`
/// tells whether candidate `i` does), counting from `i`.
pub open spec fn first_existing_from(cs: Seq<Seq<char>>, exists: Seq<bool>, i: int) -> Option<Seq<char>>
    decreases cs.len() - i,
{
    if i < 0 || i >= cs.len() || i >= exists.len() {
        None
    } else if exists[i] {
        Some(cs[i])
    } else {
        first_existing_from(cs, exists, i + 1)
    }
}

/// The baseline file used for a requirement when one of its candidates
/// exists: the first candidate, in order, whose file exists. (When none
/// does, every baseline file of the directory is used.)
pub fn first_existing(candidates: &Vec<String>, exists: &Vec<bool>) -> (r: Option<String>)
    ensures
        opt_view(r) == first_existing_from(strs_view(candidates@), exists@, 0),
{
    let ghost cs = strs_view(candidates@);
    let mut i: usize = 0;
    while i < candidates.len() && i < exists.len()
        invariant
            cs == strs_view(candidates@),
            i <= candidates@.len(),
            first_existing_from(cs, exists@, 0) == first_existing_from(cs, exists@, i as int),
        decreases candidates.len() - i,
    {
        if exists[i] {
            return Some(candidates[i].clone());
        }
        i = i + 1;
    }
    None
}

} // verus!
