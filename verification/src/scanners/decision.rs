//! Turns the findings of all scanners into one decision: the finding with the
//! highest precedence becomes the incident, and the others are noted in its
//! evidence.
use vstd::prelude::*;

use crate::plugin_api::{
    FindingEffect, IncidentTemplate, PolicyDecision, TemplateView, candidate_precedes, effect_of,
    key_precedes, template_views, view_key,
};
use crate::text::{concat_str, str_equals};

verus! {

broadcast use vstd::seq_lib::group_to_multiset_ensures;

/// The position at which a stable sort in descending precedence places `t`
/// among the already sorted `sorted`: before the first element that `t`
/// strictly outranks, after every element it does not.
pub open spec fn insertion_index(sorted: Seq<TemplateView>, t: TemplateView) -> int
    decreases sorted.len(),
{
    if sorted.len() == 0 {
        0
    } else if key_precedes(view_key(t), view_key(sorted[0])) {
        0
    } else {
        1 + insertion_index(sorted.drop_first(), t)
    }
}

/// `sorted` with `t` inserted at its place.
pub open spec fn insert_by_precedence(sorted: Seq<TemplateView>, t: TemplateView) -> Seq<TemplateView> {
    sorted.insert(insertion_index(sorted, t), t)
}

/// `s` sorted by descending precedence, keeping the order of equal elements.
pub open spec fn sort_by_precedence(s: Seq<TemplateView>) -> Seq<TemplateView>
    decreases s.len(),
{
    if s.len() == 0 {
        Seq::empty()
    } else {
        insert_by_precedence(sort_by_precedence(s.drop_last()), s.last())
    }
}

/// No element outranks an element before it.
pub open spec fn sorted_by_precedence(s: Seq<TemplateView>) -> bool {
    forall|i: int, j: int|
        0 <= i < j < s.len() ==> !key_precedes(#[trigger] view_key(s[j]), #[trigger] view_key(s[i]))
}

/// The evidence lines that the findings in `rest` add to a primary finding
/// with rule `primary_rule`: one line for each finding of another rule.
pub open spec fn extra_evidence(rest: Seq<TemplateView>, primary_rule: Seq<char>) -> Seq<Seq<char>>
    decreases rest.len(),
{
    if rest.len() == 0 {
        Seq::empty()
    } else {
        let e = extra_evidence(rest.drop_last(), primary_rule);
        let x = rest.last();
        if x.rule_id != primary_rule {
            e.push("additional finding ["@ + x.rule_id + "]: "@ + x.reason)
        } else {
            e
        }
    }
}

/// The contents of a `PolicyDecision`.
pub enum DecisionView {
    Allow(Seq<char>),
    Watch(TemplateView),
    Block(TemplateView),
}

impl View for PolicyDecision {
    type V = DecisionView;

    open spec fn view(&self) -> DecisionView {
        match self {
            PolicyDecision::Allow { reason } => DecisionView::Allow(reason@),
            PolicyDecision::Watch(t) => DecisionView::Watch(t@),
            PolicyDecision::Block(t) => DecisionView::Block(t@),
        }
    }
}

/// The primary finding of a non-empty sorted list, with the other findings
/// noted in its evidence.
pub open spec fn primary_of(sorted: Seq<TemplateView>) -> TemplateView {
    let p = sorted[0];
    TemplateView {
        stage: p.stage,
        state: p.state,
        severity: p.severity,
        reason: p.reason,
        rule_id: p.rule_id,
        risk: p.risk,
        evidence: p.evidence + extra_evidence(sorted.drop_first(), p.rule_id),
        regex: p.regex,
        bash_ast: p.bash_ast,
        magika: p.magika,
        allowed_actions: p.allowed_actions,
    }
}

/// The decision for a list of findings: allow when there is none; otherwise
/// the finding of highest precedence (the first of them where several tie)
/// decides, blocking or watching by its own effect.
pub open spec fn decide_spec(findings: Seq<TemplateView>) -> DecisionView {
    let sorted = sort_by_precedence(findings);
    if sorted.len() == 0 {
        DecisionView::Allow("request passed all scanners"@)
    } else {
        let primary = primary_of(sorted);
        match effect_of(sorted[0].state) {
            FindingEffect::Block => DecisionView::Block(primary),
            FindingEffect::Watch => DecisionView::Watch(primary),
        }
    }
}

proof fn lemma_insertion_index(sorted: Seq<TemplateView>, t: TemplateView)
    ensures
        0 <= insertion_index(sorted, t) <= sorted.len(),
        forall|k: int| 0 <= k < insertion_index(sorted, t) ==> !key_precedes(view_key(t), view_key(#[trigger] sorted[k])),
        insertion_index(sorted, t) < sorted.len() ==> key_precedes(view_key(t), view_key(sorted[insertion_index(sorted, t)])),
    decreases sorted.len(),
{
    if sorted.len() > 0 && !key_precedes(view_key(t), view_key(sorted[0])) {
        lemma_insertion_index(sorted.drop_first(), t);
        assert forall|k: int| 0 <= k < insertion_index(sorted, t) implies !key_precedes(view_key(t), view_key(#[trigger] sorted[k])) by {
            if k > 0 {
                assert(sorted[k] == sorted.drop_first()[k - 1]);
            }
        }
    }
}

proof fn lemma_insert_sorted(sorted: Seq<TemplateView>, t: TemplateView)
    requires
        sorted_by_precedence(sorted),
    ensures
        sorted_by_precedence(insert_by_precedence(sorted, t)),
        insert_by_precedence(sorted, t).to_multiset() == sorted.to_multiset().insert(t),
        insert_by_precedence(sorted, t).len() == sorted.len() + 1,
{
    lemma_insertion_index(sorted, t);
    let j = insertion_index(sorted, t);
    let r = sorted.insert(j, t);
    assert forall|a: int, b: int| 0 <= a < b < r.len() implies !key_precedes(#[trigger] view_key(r[b]), #[trigger] view_key(r[a])) by {
        if b < j {
            assert(r[a] == sorted[a] && r[b] == sorted[b]);
        } else if b == j {
            assert(r[a] == sorted[a]);
            assert(!key_precedes(view_key(t), view_key(sorted[a])));
        } else if a < j {
            assert(r[a] == sorted[a] && r[b] == sorted[b - 1]);
        } else if a == j {
            assert(r[b] == sorted[b - 1]);
            assert(key_precedes(view_key(t), view_key(sorted[j])));
            if b - 1 > j {
                assert(!key_precedes(view_key(sorted[b - 1]), view_key(sorted[j])));
            }
        } else {
            assert(r[a] == sorted[a - 1] && r[b] == sorted[b - 1]);
        }
    }
    assert(r.remove(j) =~= sorted);
    assert(r.remove(j).to_multiset() == r.to_multiset().remove(r[j]));
    assert(r.to_multiset().count(t) > 0) by {
        assert(r[j] == t);
        assert(r.contains(t));
    }
    assert(r.to_multiset() =~= sorted.to_multiset().insert(t));
}

/// The stable sort puts the findings in descending precedence and loses or
/// adds none of them.
pub proof fn lemma_sort_by_precedence(s: Seq<TemplateView>)
    ensures
        sorted_by_precedence(sort_by_precedence(s)),
        sort_by_precedence(s).to_multiset() == s.to_multiset(),
        sort_by_precedence(s).len() == s.len(),
    decreases s.len(),
{
    if s.len() == 0 {
        assert(s.to_multiset() =~= Seq::<TemplateView>::empty().to_multiset());
    } else {
        lemma_sort_by_precedence(s.drop_last());
        lemma_insert_sorted(sort_by_precedence(s.drop_last()), s.last());
        assert(s.drop_last().push(s.last()) =~= s);
    }
}

/// Finds where `t` goes in `sorted`.
fn find_insertion_index(sorted: &Vec<IncidentTemplate>, t: &IncidentTemplate) -> (j: usize)
    ensures
        j == insertion_index(template_views(sorted@), t@),
        j <= sorted.len(),
{
    proof {
        lemma_insertion_index(template_views(sorted@), t@);
    }
    let ghost sv = template_views(sorted@);
    let mut j: usize = 0;
    while j < sorted.len() && !candidate_precedes(t, &sorted[j])
        invariant
            j <= sorted.len(),
            sv == template_views(sorted@),
            forall|k: int| 0 <= k < j ==> !key_precedes(view_key(t@), view_key(#[trigger] sv[k])),
        decreases sorted.len() - j,
    {
        assert(sv[j as int] == sorted@[j as int]@);
        j = j + 1;
    }
    proof {
        let i = insertion_index(sv, t@);
        if j < sorted.len() {
            assert(sv[j as int] == sorted@[j as int]@);
        }
        if i < j {
            assert(key_precedes(view_key(t@), view_key(sv[i])));
        }
        if j < i {
            assert(!key_precedes(view_key(t@), view_key(sv[j as int])));
        }
    }
    j
}

/// Sorts findings by descending precedence, keeping the order of findings
/// that rank equally.
pub fn sort_findings(findings: Vec<IncidentTemplate>) -> (sorted: Vec<IncidentTemplate>)
    ensures
        template_views(sorted@) == sort_by_precedence(template_views(findings@)),
{
    let ghost fv = template_views(findings@);
    let mut rest = findings;
    let mut sorted: Vec<IncidentTemplate> = Vec::new();
    let mut taken: usize = 0;
    let total = rest.len();
    proof {
        assert(template_views(sorted@) =~= sort_by_precedence(fv.take(0)));
    }
    while rest.len() > 0
        invariant
            taken + rest.len() == total,
            total == fv.len(),
            forall|k: int| 0 <= k < rest.len() ==> #[trigger] rest@[k]@ == fv[taken + k],
            template_views(sorted@) == sort_by_precedence(fv.take(taken as int)),
        decreases rest.len(),
    {
        let t = rest.remove(0);
        assert(t@ == fv[taken as int]);
        let j = find_insertion_index(&sorted, &t);
        let ghost before = template_views(sorted@);
        sorted.insert(j, t);
        proof {
            assert(fv.take(taken as int + 1).drop_last() =~= fv.take(taken as int));
            assert(template_views(sorted@) =~= before.insert(j as int, t@));
        }
        taken = taken + 1;
        assert forall|k: int| 0 <= k < rest.len() implies #[trigger] rest@[k]@ == fv[taken + k] by {
        }
    }
    assert(fv.take(total as int) =~= fv);
    sorted
}

/// The evidence line that notes another finding.
fn additional_line(rule_id: &str, reason: &str) -> (s: String)
    ensures
        s@ == "additional finding ["@ + rule_id@ + "]: "@ + reason@,
{
    let a = concat_str("additional finding [", rule_id);
    let b = concat_str(a.as_str(), "]: ");
    concat_str(b.as_str(), reason)
}

/// Decides on a request from all findings about it: allows it when there are
/// none; otherwise the finding of highest precedence (the earliest of those
/// that rank equally) blocks or watches the request by its own effect, with a
/// line of evidence for each other finding of a different rule.
pub fn decide(findings: Vec<IncidentTemplate>) -> (d: PolicyDecision)
    ensures
        d@ == decide_spec(template_views(findings@)),
{
    let mut sorted = sort_findings(findings);
    if sorted.len() == 0 {
        return PolicyDecision::Allow { reason: "request passed all scanners" };
    }
    let ghost sv = template_views(sorted@);
    let mut primary = sorted.remove(0);
    let ghost p0 = primary@;
    let ghost rest = sv.drop_first();
    assert(p0 == sv[0]);
    assert forall|k: int| 0 <= k < sorted.len() implies #[trigger] sorted@[k]@ == rest[k] by {}
    let mut i: usize = 0;
    assert(p0.evidence + extra_evidence(rest.take(0), p0.rule_id) =~= p0.evidence);
    while i < sorted.len()
        invariant
            i <= sorted.len(),
            rest.len() == sorted.len(),
            forall|k: int| 0 <= k < sorted.len() ==> #[trigger] sorted@[k]@ == rest[k],
            primary.stage == p0.stage,
            primary.state == p0.state,
            primary.severity == p0.severity,
            primary.reason@ == p0.reason,
            primary.rule_id@ == p0.rule_id,
            primary.risk == p0.risk,
            primary.regex.deep_view() == p0.regex,
            primary.bash_ast.deep_view() == p0.bash_ast,
            primary.magika.deep_view() == p0.magika,
            primary.allowed_actions@ == p0.allowed_actions,
            primary.evidence.deep_view() == p0.evidence + extra_evidence(rest.take(i as int), p0.rule_id),
        decreases sorted.len() - i,
    {
        let extra = &sorted[i];
        proof {
            assert(rest.take(i as int + 1).drop_last() =~= rest.take(i as int));
            assert(rest.take(i as int + 1).last() == extra@);
        }
        if !str_equals(extra.rule_id, primary.rule_id) {
            let line = additional_line(extra.rule_id, extra.reason);
            let ghost before = primary.evidence.deep_view();
            primary.evidence.push(line);
            assert(primary.evidence.deep_view() =~= before.push(line@));
            assert(p0.evidence + extra_evidence(rest.take(i as int + 1), p0.rule_id)
                =~= before.push(line@));
        }
        i = i + 1;
    }
    assert(rest.take(sorted.len() as int) =~= rest);
    match primary.effect() {
        FindingEffect::Block => {
            let d = PolicyDecision::Block(primary);
            assert(d@ == decide_spec(template_views(findings@))) by {
                let pv = primary_of(sv);
                assert(primary@.evidence =~= pv.evidence);
            }
            d
        },
        FindingEffect::Watch => {
            let d = PolicyDecision::Watch(primary);
            assert(d@ == decide_spec(template_views(findings@))) by {
                let pv = primary_of(sv);
                assert(primary@.evidence =~= pv.evidence);
            }
            d
        },
    }
}

/// The incident that a decision raises, if any.
pub open spec fn raised_incident(d: DecisionView) -> Option<TemplateView> {
    match d {
        DecisionView::Allow(_) => None,
        DecisionView::Watch(t) => Some(t),
        DecisionView::Block(t) => Some(t),
    }
}

proof fn lemma_sorted_members(findings: Seq<TemplateView>)
    ensures
        forall|x: TemplateView| findings.contains(x) <==> sort_by_precedence(findings).contains(x),
{
    lemma_sort_by_precedence(findings);
    let sorted = sort_by_precedence(findings);
    assert forall|x: TemplateView| findings.contains(x) <==> sorted.contains(x) by {
        assert(findings.contains(x) <==> findings.to_multiset().count(x) > 0);
        assert(sorted.contains(x) <==> sorted.to_multiset().count(x) > 0);
    }
}

/// A request is allowed exactly when no scanner reported a finding.
pub proof fn law_allowed_exactly_without_findings(findings: Seq<TemplateView>)
    ensures
        decide_spec(findings) is Allow <==> findings.len() == 0,
{
    lemma_sort_by_precedence(findings);
}

/// A request is blocked exactly when some finding blocks (is pending a
/// decision): no finding that only watches can outrank a blocking one.
pub proof fn law_blocked_exactly_with_blocking_finding(findings: Seq<TemplateView>)
    ensures
        decide_spec(findings) is Block <==> exists|i: int|
            0 <= i < findings.len() && effect_of(#[trigger] findings[i].state) == FindingEffect::Block,
{
    lemma_sort_by_precedence(findings);
    lemma_sorted_members(findings);
    let sorted = sort_by_precedence(findings);
    if exists|i: int| 0 <= i < findings.len() && effect_of(#[trigger] findings[i].state) == FindingEffect::Block {
        let i = choose|i: int| 0 <= i < findings.len() && effect_of(#[trigger] findings[i].state) == FindingEffect::Block;
        assert(findings.contains(findings[i]));
        assert(sorted.contains(findings[i]));
        let k = choose|k: int| 0 <= k < sorted.len() && sorted[k] == findings[i];
        if k > 0 {
            assert(!key_precedes(view_key(sorted[k]), view_key(sorted[0])));
        }
        assert(effect_of(sorted[0].state) == FindingEffect::Block);
    }
    if decide_spec(findings) is Block {
        assert(sorted.contains(sorted[0]));
        assert(findings.contains(sorted[0]));
        let i = choose|i: int| 0 <= i < findings.len() && findings[i] == sorted[0];
        assert(effect_of(findings[i].state) == FindingEffect::Block);
    }
}

/// When a request raises an incident, that incident is one of the findings
/// (with the notes on the others appended to its evidence), and no finding
/// outranks it.
pub proof fn law_incident_is_a_top_finding(findings: Seq<TemplateView>)
    requires
        findings.len() > 0,
    ensures
        raised_incident(decide_spec(findings)) matches Some(t) && {
            &&& forall|i: int| 0 <= i < findings.len() ==> !key_precedes(view_key(#[trigger] findings[i]), view_key(t))
            &&& exists|i: int| 0 <= i < findings.len() && {
                let f = #[trigger] findings[i];
                &&& t.stage == f.stage
                &&& t.state == f.state
                &&& t.severity == f.severity
                &&& t.reason == f.reason
                &&& t.rule_id == f.rule_id
                &&& t.risk == f.risk
                &&& t.regex == f.regex
                &&& t.bash_ast == f.bash_ast
                &&& t.magika == f.magika
                &&& t.allowed_actions == f.allowed_actions
                &&& t.evidence.subrange(0, f.evidence.len() as int) == f.evidence
            }
        },
{
    lemma_sort_by_precedence(findings);
    lemma_sorted_members(findings);
    let sorted = sort_by_precedence(findings);
    let t = primary_of(sorted);
    assert forall|i: int| 0 <= i < findings.len() implies !key_precedes(view_key(#[trigger] findings[i]), view_key(t)) by {
        assert(findings.contains(findings[i]));
        let k = choose|k: int| 0 <= k < sorted.len() && sorted[k] == findings[i];
        if k > 0 {
            assert(!key_precedes(view_key(sorted[k]), view_key(sorted[0])));
        }
    }
    assert(sorted.contains(sorted[0]));
    assert(findings.contains(sorted[0]));
    assert(raised_incident(decide_spec(findings)) == Some(t));
    let i = choose|i: int| 0 <= i < findings.len() && findings[i] == sorted[0];
    assert(t.evidence.subrange(0, findings[i].evidence.len() as int) =~= findings[i].evidence);
}

/// No finding of `s` outranks its finding at `i`: that finding has the
/// highest precedence.
pub open spec fn top_at(s: Seq<TemplateView>, i: int) -> bool {
    &&& 0 <= i < s.len()
    &&& forall|j: int| 0 <= j < s.len() ==> !key_precedes(#[trigger] view_key(s[j]), view_key(s[i]))
}

/// The sort puts first the earliest finding of highest precedence.
proof fn lemma_sort_head(s: Seq<TemplateView>)
    requires
        s.len() > 0,
    ensures
        exists|m: int| {
            &&& top_at(s, m)
            &&& sort_by_precedence(s)[0] == s[m]
            &&& forall|k: int| 0 <= k < m ==> !#[trigger] top_at(s, k)
        },
    decreases s.len(),
{
    let t = s.last();
    let n = s.len() - 1;
    let p = s.drop_last();
    if p.len() == 0 {
        assert(sort_by_precedence(p) =~= Seq::<TemplateView>::empty());
        assert(insertion_index(Seq::<TemplateView>::empty(), t) == 0);
        assert(sort_by_precedence(s)[0] == s[0]);
        assert(top_at(s, 0)) by {
            assert forall|j: int| 0 <= j < s.len() implies !key_precedes(#[trigger] view_key(s[j]), view_key(s[0])) by {
                assert(j == 0);
            }
        }
        assert(forall|k: int| 0 <= k < 0 ==> !#[trigger] top_at(s, k));
    } else {
        lemma_sort_head(p);
        lemma_sort_by_precedence(p);
        let sp = sort_by_precedence(p);
        let m0 = choose|m: int| {
            &&& top_at(p, m)
            &&& sp[0] == p[m]
            &&& forall|k: int| 0 <= k < m ==> !#[trigger] top_at(p, k)
        };
        lemma_insertion_index(sp, t);
        let idx = insertion_index(sp, t);
        assert(sort_by_precedence(s) == sp.insert(idx, t));
        if key_precedes(view_key(t), view_key(sp[0])) {
            assert(idx == 0);
            assert(sort_by_precedence(s)[0] == t);
            assert forall|j: int| 0 <= j < s.len() implies !key_precedes(#[trigger] view_key(s[j]), view_key(s[n])) by {
                if j < n {
                    assert(s[j] == p[j]);
                    assert(!key_precedes(view_key(p[j]), view_key(p[m0])));
                }
            }
            assert forall|k: int| 0 <= k < n implies !#[trigger] top_at(s, k) by {
                assert(s[k] == p[k]);
                assert(!key_precedes(view_key(p[k]), view_key(p[m0])));
                assert(key_precedes(view_key(s[n]), view_key(s[k])));
            }
            assert(top_at(s, n));
        } else {
            assert(idx > 0);
            assert(sort_by_precedence(s)[0] == sp[0]);
            assert(s[m0] == p[m0]);
            assert forall|j: int| 0 <= j < s.len() implies !key_precedes(#[trigger] view_key(s[j]), view_key(s[m0])) by {
                if j < n {
                    assert(s[j] == p[j]);
                }
            }
            assert forall|k: int| 0 <= k < m0 implies !#[trigger] top_at(s, k) by {
                assert(!top_at(p, k));
                let j = choose|j: int| 0 <= j < p.len() && key_precedes(#[trigger] view_key(p[j]), view_key(p[k]));
                assert(s[j] == p[j] && s[k] == p[k]);
                assert(key_precedes(view_key(s[j]), view_key(s[k])));
            }
            assert(top_at(s, m0));
        }
    }
}

/// Among the findings of highest precedence, the earliest (that of the
/// earliest scanner, and within a scanner its first) becomes the incident:
/// the incident is that finding, with notes on the others added to its
/// evidence.
pub proof fn law_primary_is_first_of_highest(findings: Seq<TemplateView>, i: int)
    requires
        top_at(findings, i),
        forall|k: int| 0 <= k < i ==> !#[trigger] top_at(findings, k),
    ensures
        raised_incident(decide_spec(findings)) matches Some(t) && {
            let f = findings[i];
            &&& t.stage == f.stage
            &&& t.state == f.state
            &&& t.severity == f.severity
            &&& t.reason == f.reason
            &&& t.rule_id == f.rule_id
            &&& t.risk == f.risk
            &&& t.regex == f.regex
            &&& t.bash_ast == f.bash_ast
            &&& t.magika == f.magika
            &&& t.allowed_actions == f.allowed_actions
            &&& t.evidence.subrange(0, f.evidence.len() as int) == f.evidence
        },
{
    lemma_sort_head(findings);
    lemma_sort_by_precedence(findings);
    let sorted = sort_by_precedence(findings);
    let m = choose|m: int| {
        &&& top_at(findings, m)
        &&& sorted[0] == findings[m]
        &&& forall|k: int| 0 <= k < m ==> !#[trigger] top_at(findings, k)
    };
    if m < i {
        assert(!top_at(findings, m));
    }
    if i < m {
        assert(!top_at(findings, i));
    }
    assert(m == i);
    let t = primary_of(sorted);
    assert(raised_incident(decide_spec(findings)) == Some(t));
    assert(t.evidence.subrange(0, findings[i].evidence.len() as int) =~= findings[i].evidence);
}

} // verus!
