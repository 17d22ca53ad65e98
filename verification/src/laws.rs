//! Laws of the rule engine, stated and proved once for all inputs.

use vstd::prelude::*;

verus! {

use crate::text::{is_blank, is_space, trim_end_spec, trim_spec, trim_start_spec};
use crate::transformer::{OutcomeV, TransformErrorV, Transformer};
use crate::ruleset::{
    ApplicabilityV,
    RuleV,
    applicable,
    chain_errors,
    chain_value,
    default_rules,
    insert_position,
    rule_outcome,
    unmatched_names,
    validation_reason,
    validation_reasons,
};

/// Law: a ruleset built by the default constructor omits a value made only
/// of whitespace and control characters, and records no error for it.
pub proof fn lemma_default_ruleset_omits_blank(
    value: Seq<char>,
    field_name: Seq<char>,
    record_n: int,
)
    requires
        is_blank(value),
    ensures
        chain_value(default_rules(), value, field_name, record_n) is None,
        chain_errors(default_rules(), value, field_name, record_n) == Seq::<
            TransformErrorV,
        >::empty(),
{
    let rules = default_rules();
    assert(applicable(rules[0].applicability, field_name));
    assert(rule_outcome(rules[0], value, field_name, record_n) == OutcomeV::Excluded);
}

/// Law: a rule scoped to named fields passes any other field through
/// unchanged, with no error.
pub proof fn lemma_rule_skips_unlisted_field(
    rule: RuleV,
    names: Seq<Seq<char>>,
    value: Seq<char>,
    field_name: Seq<char>,
    record_n: int,
)
    requires
        rule.applicability == ApplicabilityV::Fields(names),
        !names.contains(field_name),
    ensures
        rule_outcome(rule, value, field_name, record_n) == OutcomeV::Present(value),
{
}

/// Law: of two rules applicable to the same field with priorities 10 and
/// -10, adding them in either order places the higher-priority rule first;
/// it runs first, and when it omits the field the lower-priority rule
/// never runs: the chain equals the chain of the first rule alone.
pub proof fn lemma_priority_order(
    hi: RuleV,
    lo: RuleV,
    value: Seq<char>,
    field_name: Seq<char>,
    record_n: int,
)
    requires
        hi.priority == 10,
        lo.priority == -10,
        applicable(hi.applicability, field_name),
        applicable(lo.applicability, field_name),
        hi.transformer.transform_spec(value, field_name, record_n) == OutcomeV::Excluded,
    ensures
        Seq::<RuleV>::empty().insert(insert_position(Seq::<RuleV>::empty(), hi.priority), hi)
            .insert(insert_position(seq![hi], lo.priority), lo) == seq![hi, lo],
        Seq::<RuleV>::empty().insert(insert_position(Seq::<RuleV>::empty(), lo.priority), lo)
            .insert(insert_position(seq![lo], hi.priority), hi) == seq![hi, lo],
        chain_value(seq![hi, lo], value, field_name, record_n) == chain_value(
            seq![hi],
            value,
            field_name,
            record_n,
        ),
        chain_value(seq![hi, lo], value, field_name, record_n) is None,
        chain_errors(seq![hi, lo], value, field_name, record_n) == Seq::<
            TransformErrorV,
        >::empty(),
{
    assert(seq![hi].skip(1) =~= Seq::<RuleV>::empty());
    assert(seq![lo].skip(1) =~= Seq::<RuleV>::empty());
    assert(insert_position(Seq::<RuleV>::empty(), lo.priority) == 0);
    assert(seq![hi][0] == hi);
    assert(seq![lo][0] == lo);
    assert(insert_position(seq![hi], lo.priority) == 1 + insert_position(
        seq![hi].skip(1),
        lo.priority,
    ));
    assert(insert_position(seq![hi], lo.priority) == 1);
    assert(insert_position(seq![lo], hi.priority) == 0);
    assert(Seq::<RuleV>::empty().insert(0, hi).insert(1, lo) =~= seq![hi, lo]);
    assert(Seq::<RuleV>::empty().insert(0, lo).insert(0, hi) =~= seq![hi, lo]);
    assert(rule_outcome(seq![hi, lo][0], value, field_name, record_n) == OutcomeV::Excluded);
}

/// Law: a field's rule chain records at most one error — a failure omits
/// the field and stops the chain, so later rules cannot add more.
pub proof fn lemma_chain_records_at_most_one_error(
    rules: Seq<RuleV>,
    value: Seq<char>,
    field_name: Seq<char>,
    record_n: int,
)
    ensures
        chain_errors(rules, value, field_name, record_n).len() <= 1,
    decreases rules.len(),
{
    if rules.len() > 0 {
        match rule_outcome(rules[0], value, field_name, record_n) {
            OutcomeV::Present(v) => {
                lemma_chain_records_at_most_one_error(rules.skip(1), v, field_name, record_n);
            },
            OutcomeV::Excluded => {
            },
            OutcomeV::Failed(e) => {
            },
        }
    }
}

proof fn lemma_trim_start_first(s: Seq<char>)
    ensures
        trim_start_spec(s).len() > 0 ==> !is_space(trim_start_spec(s)[0]),
        trim_start_spec(s).len() <= s.len(),
    decreases s.len(),
{
    if s.len() > 0 && is_space(s[0]) {
        lemma_trim_start_first(s.skip(1));
    }
}

proof fn lemma_trim_end_props(s: Seq<char>)
    ensures
        trim_end_spec(s).len() > 0 ==> !is_space(trim_end_spec(s).last()),
        trim_end_spec(s).len() <= s.len(),
        trim_end_spec(s).len() > 0 ==> trim_end_spec(s)[0] == s[0],
    decreases s.len(),
{
    if s.len() > 0 && is_space(s.last()) {
        lemma_trim_end_props(s.drop_last());
        if trim_end_spec(s).len() > 0 {
            assert(s.drop_last()[0] == s[0]);
        }
    }
}

/// Law: trimming is idempotent — trimming an already trimmed value
/// changes nothing.
pub proof fn lemma_trim_idempotent(s: Seq<char>)
    ensures
        trim_spec(trim_spec(s)) == trim_spec(s),
{
    let t = trim_start_spec(s);
    let u = trim_end_spec(t);
    lemma_trim_start_first(s);
    lemma_trim_end_props(t);
    if u.len() > 0 {
        assert(u[0] == t[0]);
        assert(!is_space(u[0]));
        assert(trim_start_spec(u) == u);
        assert(!is_space(u.last()));
        assert(trim_end_spec(u) == u);
    } else {
        assert(trim_start_spec(u) == u);
        assert(trim_end_spec(u) == u);
    }
}

/// Law: a field name absent from the headers is among the unmatched names
/// that a rule's validation error lists.
pub proof fn lemma_unmatched_keeps_missing_name(
    names: Seq<Seq<char>>,
    headers: Seq<Seq<char>>,
    x: Seq<char>,
)
    requires
        names.contains(x),
        !headers.contains(x),
    ensures
        unmatched_names(names, headers).contains(x),
        unmatched_names(names, headers).len() > 0,
{
    let pred = |n: Seq<char>| !headers.contains(n);
    names.filter_lemma(pred);
    let i = choose|i: int| 0 <= i < names.len() && names[i] == x;
    assert(pred(names[i]));
    assert(names.filter(pred).contains(x));
}

/// Law: validation reports every field-scoped rule that names a field
/// absent from the headers — checking does not stop at the first.
pub proof fn lemma_validation_reports_bad_rule(
    rules: Seq<RuleV>,
    headers: Seq<Seq<char>>,
    i: int,
    names: Seq<Seq<char>>,
)
    requires
        0 <= i < rules.len(),
        rules[i].applicability == ApplicabilityV::Fields(names),
        unmatched_names(names, headers).len() > 0,
    ensures
        validation_reasons(rules, headers).contains(validation_reason(names, headers)),
    decreases rules.len(),
{
    let front = validation_reasons(rules.drop_last(), headers);
    if i == rules.len() - 1 {
        assert(rules.last() == rules[i]);
        let reasons = validation_reasons(rules, headers);
        assert(reasons == front.push(validation_reason(names, headers)));
        assert(reasons[reasons.len() - 1] == validation_reason(names, headers));
    } else {
        assert(rules.drop_last()[i] == rules[i]);
        lemma_validation_reports_bad_rule(rules.drop_last(), headers, i, names);
        let r = validation_reason(names, headers);
        let k = choose|k: int| 0 <= k < front.len() && front[k] == r;
        match rules.last().applicability {
            ApplicabilityV::Fields(ns) => {
                if unmatched_names(ns, headers).len() > 0 {
                    assert(validation_reasons(rules, headers)[k] == r);
                } else {
                    assert(validation_reasons(rules, headers)[k] == r);
                }
            },
            ApplicabilityV::Global => {
                assert(validation_reasons(rules, headers)[k] == r);
            },
        }
    }
}

} // verus!
