//! Rules and the priority-ordered ruleset that applies them to rows.

use vstd::prelude::*;

verus! {

use vstd::string::StringExecFns;
use crate::text::{dec_str, render_string_list, render_string_list_exec, usize_to_string};
use crate::transformer::{
    OutcomeV,
    TransformError,
    TransformErrorV,
    TransformResult,
    Transformer,
    outcome_of,
};
use crate::transformers::Transformers;

/// Which of a record's fields a rule can be applied to.
#[derive(Debug)]
pub enum Applicability {
    /// Applicable to every field.
    Global,
    /// Applicable to the fields whose column name is listed.
    Fields { field_names: Vec<String> },
}

/// Mathematical image of an [`Applicability`].
pub enum ApplicabilityV {
    Global,
    Fields(Seq<Seq<char>>),
}

impl View for Applicability {
    type V = ApplicabilityV;

    open spec fn view(&self) -> ApplicabilityV {
        match self {
            Applicability::Global => ApplicabilityV::Global,
            Applicability::Fields { field_names } => ApplicabilityV::Fields(
                field_names.deep_view(),
            ),
        }
    }
}

/// Whether a rule with applicability `a` runs on the field named
/// `field_name`.
pub open spec fn applicable(a: ApplicabilityV, field_name: Seq<char>) -> bool {
    match a {
        ApplicabilityV::Global => true,
        ApplicabilityV::Fields(names) => names.contains(field_name),
    }
}

/// Whether `names` holds a string whose characters are `x`.
pub fn contains_str(names: &Vec<String>, x: &str) -> (b: bool)
    ensures
        b == names.deep_view().contains(x@),
{
    let owned = x.to_owned();
    let mut i: usize = 0;
    while i < names.len()
        invariant
            owned@ == x@,
            i <= names.len(),
            forall|j: int| 0 <= j < i ==> names.deep_view()[j] != x@,
        decreases names.len() - i,
    {
        let hit = names[i].eq(&owned);
        proof {
            assert(names.deep_view()[i as int] == names@[i as int]@);
        }
        if hit {
            proof {
                assert(names.deep_view().contains(x@));
            }
            return true;
        }
        i = i + 1;
    }
    proof {
        assert(!names.deep_view().contains(x@));
    }
    false
}

/// `s` with every repeated name dropped, keeping first occurrences in
/// their original order.
pub open spec fn dedup_first(s: Seq<Seq<char>>) -> Seq<Seq<char>>
    decreases s.len(),
{
    if s.len() == 0 {
        Seq::empty()
    } else {
        let front = dedup_first(s.drop_last());
        if s.drop_last().contains(s.last()) {
            front
        } else {
            front.push(s.last())
        }
    }
}

fn dedup_strings(names: Vec<String>) -> (r: Vec<String>)
    ensures
        r.deep_view() == dedup_first(names.deep_view()),
{
    let mut out: Vec<String> = Vec::new();
    let mut i: usize = 0;
    while i < names.len()
        invariant
            i <= names.len(),
            out.deep_view() == dedup_first(names.deep_view().take(i as int)),
        decreases names.len() - i,
    {
        let mut seen: bool = false;
        let mut j: usize = 0;
        while j < i
            invariant
                j <= i < names.len(),
                seen == exists|k: int|
                    0 <= k < j && #[trigger] names.deep_view()[k] == names.deep_view()[i as int],
            decreases i - j,
        {
            let hit = names[j].eq(&names[i]);
            proof {
                assert(names.deep_view()[j as int] == names@[j as int]@);
                assert(names.deep_view()[i as int] == names@[i as int]@);
            }
            if hit {
                seen = true;
            }
            j = j + 1;
        }
        proof {
            assert(names.deep_view().take(i + 1).drop_last() =~= names.deep_view().take(i as int));
            assert(names.deep_view().take(i + 1).last() == names.deep_view()[i as int]);
            assert(seen == names.deep_view().take(i as int).contains(
                names.deep_view()[i as int],
            )) by {
                if seen {
                    let k = choose|k: int|
                        0 <= k < i && #[trigger] names.deep_view()[k] == names.deep_view()[i as int];
                    assert(names.deep_view().take(i as int)[k] == names.deep_view()[i as int]);
                } else {
                    if names.deep_view().take(i as int).contains(names.deep_view()[i as int]) {
                        let k = choose|k: int|
                            0 <= k < i && #[trigger] names.deep_view().take(i as int)[k]
                                == names.deep_view()[i as int];
                        assert(names.deep_view()[k] == names.deep_view()[i as int]);
                    }
                }
            }
        }
        if !seen {
            let name = names[i].clone();
            out.push(name);
            proof {
                assert(out.deep_view() =~= dedup_first(names.deep_view().take(i + 1)));
            }
        } else {
            proof {
                assert(out.deep_view() =~= dedup_first(names.deep_view().take(i + 1)));
            }
        }
        i = i + 1;
    }
    proof {
        assert(names.deep_view().take(names@.len() as int) =~= names.deep_view());
    }
    out
}

/// A transformer bound to an applicability scope and a priority.  Rules
/// with a higher priority number run earlier.
#[derive(Debug)]
pub struct Rule {
    pub applicability: Applicability,
    pub transformer: Transformers,
    pub priority: isize,
}

/// Mathematical image of a [`Rule`].
pub struct RuleV {
    pub applicability: ApplicabilityV,
    pub transformer: Transformers,
    pub priority: int,
}

impl View for Rule {
    type V = RuleV;

    open spec fn view(&self) -> RuleV {
        RuleV {
            applicability: self.applicability@,
            transformer: self.transformer,
            priority: self.priority as int,
        }
    }
}

impl DeepView for Rule {
    type V = RuleV;

    open spec fn deep_view(&self) -> RuleV {
        self.view()
    }
}

/// What applying `rule` to a field yields: the transformer's outcome where
/// the rule is applicable, the unchanged value where it is not.
pub open spec fn rule_outcome(
    rule: RuleV,
    field_value: Seq<char>,
    field_name: Seq<char>,
    record_n: int,
) -> OutcomeV {
    if applicable(rule.applicability, field_name) {
        rule.transformer.transform_spec(field_value, field_name, record_n)
    } else {
        OutcomeV::Present(field_value)
    }
}

impl Rule {
    /// A rule for the named fields with the default priority of 0.
    /// Repeated names collapse.
    pub fn for_fields(field_names: &[&str], transformer: Transformers) -> (r: Rule)
        ensures
            r@.applicability == ApplicabilityV::Fields(dedup_first(field_names.deep_view())),
            r@.transformer == transformer,
            r@.priority == 0,
    {
        Self::for_fields_with_priority(field_names, transformer, 0)
    }

    /// A rule for the named fields with the given priority.  Repeated
    /// names collapse.
    pub fn for_fields_with_priority(
        field_names: &[&str],
        transformer: Transformers,
        priority: isize,
    ) -> (r: Rule)
        ensures
            r@.applicability == ApplicabilityV::Fields(dedup_first(field_names.deep_view())),
            r@.transformer == transformer,
            r@.priority == priority as int,
    {
        let mut owned: Vec<String> = Vec::new();
        let mut i: usize = 0;
        while i < field_names.len()
            invariant
                i <= field_names@.len(),
                owned.deep_view() == field_names.deep_view().take(i as int),
            decreases field_names@.len() - i,
        {
            proof {
                assert(field_names.deep_view()[i as int] == field_names@[i as int].deep_view());
            }
            let name = field_names[i].to_owned();
            let ghost old_owned = owned;
            owned.push(name);
            proof {
                let dv = field_names.deep_view();
                assert(dv.len() == field_names@.len());
                assert(old_owned.deep_view().len() == old_owned@.len());
                assert(old_owned.deep_view() == dv.take(i as int));
                assert(dv.take(i as int).len() == i as int);
                assert(old_owned@.len() == i as int);
                assert(owned@ == old_owned@.push(name));
                assert(owned@.len() == i as int + 1);
                assert forall|k: int| 0 <= k < i as int + 1 implies owned.deep_view()[k]
                    == dv.take(i as int + 1)[k] by {
                    assert(owned.deep_view()[k] == owned@[k].deep_view());
                    if k < i as int {
                        assert(owned@[k] == old_owned@[k]);
                        assert(old_owned.deep_view()[k] == dv.take(i as int)[k]);
                    } else {
                        assert(owned@[k] == name);
                        assert(name@ == field_names@[i as int]@);
                    }
                }
                assert(owned.deep_view() =~= dv.take(i as int + 1));
            }
            i = i + 1;
        }
        proof {
            assert(field_names.deep_view().take(field_names@.len() as int)
                =~= field_names.deep_view());
        }
        let deduped = dedup_strings(owned);
        Rule {
            applicability: Applicability::Fields { field_names: deduped },
            transformer,
            priority,
        }
    }

    /// A rule for every field with the default priority of 0.
    pub fn global(transformer: Transformers) -> (r: Rule)
        ensures
            r@.applicability == ApplicabilityV::Global,
            r@.transformer == transformer,
            r@.priority == 0,
    {
        Self::global_with_priority(transformer, 0)
    }

    /// A rule for every field with the given priority.
    pub fn global_with_priority(transformer: Transformers, priority: isize) -> (r: Rule)
        ensures
            r@.applicability == ApplicabilityV::Global,
            r@.transformer == transformer,
            r@.priority == priority as int,
    {
        Rule { applicability: Applicability::Global, transformer, priority }
    }

    /// Applies this rule to one field.  A rule that is not applicable to
    /// the field passes the value through unchanged and never errs.
    pub fn apply(&self, field_value: &str, field_name: &str, record_n: usize) -> (r:
        TransformResult)
        ensures
            outcome_of(r) == rule_outcome(self@, field_value@, field_name@, record_n as int),
    {
        match &self.applicability {
            Applicability::Global => self.transformer.transform(field_value, field_name, record_n),
            Applicability::Fields { field_names } => {
                if contains_str(field_names, field_name) {
                    self.transformer.transform(field_value, field_name, record_n)
                } else {
                    Ok(Some(field_value.to_owned()))
                }
            },
        }
    }
}

/// Rules ordered by priority, descending; rules of equal priority keep
/// their insertion order.
pub open spec fn priority_sorted(rules: Seq<RuleV>) -> bool {
    forall|i: int, j: int|
        0 <= i < j < rules.len() ==> #[trigger] rules[i].priority >= #[trigger] rules[j].priority
}

/// Where a rule of the given priority is inserted: after every rule whose
/// priority is at least as high.
pub open spec fn insert_position(rules: Seq<RuleV>, priority: int) -> int
    decreases rules.len(),
{
    if rules.len() == 0 {
        0
    } else if rules[0].priority < priority {
        0
    } else {
        1 + insert_position(rules.skip(1), priority)
    }
}

proof fn lemma_insert_position_is_first(rules: Seq<RuleV>, priority: int, i: int)
    requires
        0 <= i <= rules.len(),
        forall|j: int| 0 <= j < i ==> #[trigger] rules[j].priority >= priority,
        i < rules.len() ==> rules[i].priority < priority,
    ensures
        insert_position(rules, priority) == i,
    decreases rules.len(),
{
    if i == 0 {
    } else {
        assert(rules[0].priority >= priority);
        assert(forall|j: int|
            0 <= j < i - 1 ==> #[trigger] rules.skip(1)[j].priority == rules[j + 1].priority);
        lemma_insert_position_is_first(rules.skip(1), priority, i - 1);
    }
}

/// The value a field's rule chain leaves: rules run in order while the
/// field is present; an exclusion or a failure omits the field and stops
/// the chain.
pub open spec fn chain_value(
    rules: Seq<RuleV>,
    field_value: Seq<char>,
    field_name: Seq<char>,
    record_n: int,
) -> Option<Seq<char>>
    decreases rules.len(),
{
    if rules.len() == 0 {
        Some(field_value)
    } else {
        match rule_outcome(rules[0], field_value, field_name, record_n) {
            OutcomeV::Present(v) => chain_value(rules.skip(1), v, field_name, record_n),
            OutcomeV::Excluded => None,
            OutcomeV::Failed(e) => None,
        }
    }
}

/// The errors a field's rule chain records: at most one, since a failure
/// omits the field and stops the chain.
pub open spec fn chain_errors(
    rules: Seq<RuleV>,
    field_value: Seq<char>,
    field_name: Seq<char>,
    record_n: int,
) -> Seq<TransformErrorV>
    decreases rules.len(),
{
    if rules.len() == 0 {
        Seq::empty()
    } else {
        match rule_outcome(rules[0], field_value, field_name, record_n) {
            OutcomeV::Present(v) => chain_errors(rules.skip(1), v, field_name, record_n),
            OutcomeV::Excluded => Seq::empty(),
            OutcomeV::Failed(e) => seq![e],
        }
    }
}

/// The reason recorded for each field beyond the header count.
pub open spec fn wide_row_reason(header_count: nat, position: nat) -> Seq<char> {
    "found "@ + dec_str(header_count) + " header fields but record had extra field at position "@
        + dec_str(position)
}

/// The error recorded for the field at `position`, beyond the header
/// count: its name is the stringified column index.
pub open spec fn wide_row_error(
    header_count: nat,
    field_value: Seq<char>,
    record_n: int,
    position: nat,
) -> TransformErrorV {
    TransformErrorV {
        record_n,
        field_name: dec_str(position),
        field_value,
        reason: wide_row_reason(header_count, position),
    }
}

/// The transformed values of a row: one entry per field within the header
/// count, in column order.
pub open spec fn row_values(
    rules: Seq<RuleV>,
    headers: Seq<Seq<char>>,
    fields: Seq<Seq<char>>,
    record_n: int,
) -> Seq<Option<Seq<char>>> {
    let count = if fields.len() <= headers.len() {
        fields.len()
    } else {
        headers.len()
    };
    Seq::new(count, |i: int| chain_value(rules, fields[i], headers[i], record_n))
}

/// The errors of the field at position `i`: its chain's errors within the
/// header count, one wide-row error beyond it.
pub open spec fn field_errors_at(
    rules: Seq<RuleV>,
    headers: Seq<Seq<char>>,
    fields: Seq<Seq<char>>,
    record_n: int,
    i: int,
) -> Seq<TransformErrorV> {
    if i < headers.len() {
        chain_errors(rules, fields[i], headers[i], record_n)
    } else {
        seq![wide_row_error(headers.len(), fields[i], record_n, i as nat)]
    }
}

/// The errors of a row's first `upto` fields, in field order.
pub open spec fn row_errors(
    rules: Seq<RuleV>,
    headers: Seq<Seq<char>>,
    fields: Seq<Seq<char>>,
    record_n: int,
    upto: int,
) -> Seq<TransformErrorV>
    decreases upto,
{
    if upto <= 0 {
        Seq::empty()
    } else {
        row_errors(rules, headers, fields, record_n, upto - 1) + field_errors_at(
            rules,
            headers,
            fields,
            record_n,
            upto - 1,
        )
    }
}

/// An ordered collection of rules, applied per field in descending
/// priority order, ties in insertion order.
#[derive(Debug)]
pub struct Ruleset {
    rules: Vec<Rule>,
}

impl View for Ruleset {
    type V = Seq<RuleV>;

    closed spec fn view(&self) -> Seq<RuleV> {
        self.rules.deep_view()
    }
}

/// The two rules every default ruleset starts from: a blank detector and
/// a trimmer, both global, at priority -10 so that they run last.
pub open spec fn default_rules() -> Seq<RuleV> {
    seq![
        RuleV {
            applicability: ApplicabilityV::Global,
            transformer: Transformers::BlankMatch(
                crate::transformers::NoneTransformer { matcher: Option::None },
            ),
            priority: -10,
        },
        RuleV {
            applicability: ApplicabilityV::Global,
            transformer: Transformers::Trim(crate::transformers::TrimTransformer {  }),
            priority: -10,
        },
    ]
}

impl Ruleset {
    /// A ruleset holding the default global trim and blank rules at the
    /// lowest priority.
    pub fn new() -> (r: Ruleset)
        ensures
            r@ == default_rules(),
            priority_sorted(r@),
    {
        let mut ruleset = Self::without_default_rules();
        let blank_rule = Rule::global_with_priority(
            Transformers::BlankMatch(crate::transformers::NoneTransformer::with_blank_matcher()),
            -10,
        );
        let ghost r1 = blank_rule@;
        ruleset.add_rule(blank_rule);
        proof {
            assert(ruleset@ =~= seq![r1]);
        }
        let trim_rule = Rule::global_with_priority(
            Transformers::Trim(crate::transformers::TrimTransformer::new()),
            -10,
        );
        let ghost r2 = trim_rule@;
        ruleset.add_rule(trim_rule);
        proof {
            assert(seq![r1].skip(1) =~= Seq::<RuleV>::empty());
            assert(insert_position(seq![r1], r2.priority) == 1);
            assert(ruleset@ =~= seq![r1, r2]);
            assert(r1 == default_rules()[0]);
            assert(r2 == default_rules()[1]);
            assert(ruleset@ =~= default_rules());
        }
        ruleset
    }

    /// A ruleset with no rules at all.
    pub fn without_default_rules() -> (r: Ruleset)
        ensures
            r@ == Seq::<RuleV>::empty(),
            priority_sorted(r@),
    {
        let r = Ruleset { rules: Vec::new() };
        proof {
            assert(r@ =~= Seq::<RuleV>::empty());
        }
        r
    }

    /// Adds a rule, placing it after every rule of equal or higher
    /// priority, so that priority order and insertion order are kept.
    pub fn add_rule(&mut self, rule: Rule)
        ensures
            final(self)@ == old(self)@.insert(
                insert_position(old(self)@, rule@.priority),
                rule@,
            ),
            priority_sorted(old(self)@) ==> priority_sorted(final(self)@),
    {
        let ghost rv = self@;
        let mut i: usize = 0;
        while i < self.rules.len() && self.rules[i].priority >= rule.priority
            invariant
                rv == self.rules.deep_view(),
                i <= self.rules@.len(),
                forall|j: int| 0 <= j < i ==> #[trigger] rv[j].priority >= rule@.priority,
            decreases self.rules@.len() - i,
        {
            proof {
                assert(rv[i as int] == self.rules@[i as int]@);
            }
            i = i + 1;
        }
        proof {
            assert(rv.len() == self.rules@.len());
            if i < self.rules@.len() {
                assert(rv[i as int] == self.rules@[i as int]@);
            }
            lemma_insert_position_is_first(rv, rule@.priority, i as int);
        }
        let ghost pos = insert_position(rv, rule@.priority);
        self.rules.insert(i, rule);
        proof {
            assert(self.rules.deep_view() =~= rv.insert(pos, rule@));
            if priority_sorted(rv) {
                assert forall|x: int, y: int|
                    0 <= x < y < rv.insert(pos, rule@).len() implies #[trigger] rv.insert(
                    pos,
                    rule@,
                )[x].priority >= #[trigger] rv.insert(pos, rule@)[y].priority by {
                    let s = rv.insert(pos, rule@);
                    if x < pos && y < pos {
                    } else if x >= pos + 1 && y >= pos + 1 {
                        assert(s[x] == rv[x - 1] && s[y] == rv[y - 1]);
                    } else if x < pos && y == pos {
                        assert(s[x] == rv[x] && s[y] == rule@);
                    } else if x == pos && y > pos {
                        assert(s[x] == rule@ && s[y] == rv[y - 1]);
                        assert(rv[pos].priority < rule@.priority);
                        assert(rv[y - 1].priority <= rv[pos].priority);
                    } else {
                        assert(x < pos && y > pos);
                        assert(s[x] == rv[x] && s[y] == rv[y - 1]);
                    }
                }
            }
        }
    }

    /// Checks every field-scoped rule against the header names, reporting
    /// one error per rule that names unknown fields; all errors come back
    /// together.
    pub fn validate_rules(&self, headers: &Vec<String>) -> (r: Result<(), Vec<ValidationError>>)
        ensures
            r is Ok <==> validation_reasons(self@, headers.deep_view()).len() == 0,
            r matches Err(es) ==> es.deep_view() == validation_reasons(self@, headers.deep_view()),
    {
        let ghost rv = self@;
        let ghost hv = headers.deep_view();
        let mut errors: Vec<ValidationError> = Vec::new();
        let mut i: usize = 0;
        while i < self.rules.len()
            invariant
                rv == self.rules.deep_view(),
                hv == headers.deep_view(),
                i <= self.rules@.len(),
                errors.deep_view() == validation_reasons(rv.take(i as int), hv),
            decreases self.rules@.len() - i,
        {
            proof {
                assert(rv[i as int] == self.rules@[i as int]@);
                assert(rv.take(i + 1).drop_last() =~= rv.take(i as int));
                assert(rv.take(i + 1).last() == rv[i as int]);
            }
            match &self.rules[i].applicability {
                Applicability::Fields { field_names } => {
                    let unmatched = unmatched_names_exec(field_names, headers);
                    if unmatched.len() > 0 {
                        let mut reason = String::from_str(
                            "The following fields were not found in headers: '",
                        );
                        let rendered = render_string_list_exec(&unmatched);
                        reason.append(rendered.as_str());
                        reason.append("'");
                        proof {
                            reveal_strlit("'");
                            assert(reason@ =~= validation_reason(
                                rv[i as int].applicability->Fields_0,
                                hv,
                            ));
                        }
                        errors.push(ValidationError { reason });
                        proof {
                            assert(errors.deep_view() =~= validation_reasons(rv.take(i + 1), hv));
                        }
                    } else {
                        proof {
                            assert(errors.deep_view() =~= validation_reasons(rv.take(i + 1), hv));
                        }
                    }
                },
                Applicability::Global => {
                    proof {
                        assert(errors.deep_view() =~= validation_reasons(rv.take(i + 1), hv));
                    }
                },
            }
            i = i + 1;
        }
        proof {
            assert(rv.take(self.rules@.len() as int) =~= rv);
        }
        if errors.len() == 0 {
            proof {
                assert(errors.deep_view() =~= Seq::<Seq<char>>::empty());
            }
            Ok(())
        } else {
            Err(errors)
        }
    }

    /// Applies the ruleset to one row.  Each field within the header count
    /// runs its rule chain; each field beyond it yields one wide-row
    /// error and no value.
    pub fn apply_rules(&self, headers: &Vec<String>, fields: &Vec<String>, record_n: usize) -> (r:
        TransformedRecord)
        ensures
            r.field_values.deep_view() == row_values(
                self@,
                headers.deep_view(),
                fields.deep_view(),
                record_n as int,
            ),
            r.errors.deep_view() == row_errors(
                self@,
                headers.deep_view(),
                fields.deep_view(),
                record_n as int,
                fields@.len() as int,
            ),
    {
        let ghost rv = self@;
        let ghost hv = headers.deep_view();
        let ghost fv = fields.deep_view();
        let expected = headers.len();
        let mut errors: Vec<TransformError> = Vec::new();
        let mut values: Vec<Option<String>> = Vec::new();
        let mut i: usize = 0;
        while i < fields.len()
            invariant
                rv == self.rules.deep_view(),
                hv == headers.deep_view(),
                fv == fields.deep_view(),
                expected == headers@.len(),
                i <= fields@.len(),
                values.deep_view() == row_values(rv, hv, fv, record_n as int).take(
                    if i <= expected {
                        i as int
                    } else {
                        expected as int
                    },
                ),
                errors.deep_view() == row_errors(rv, hv, fv, record_n as int, i as int),
            decreases fields@.len() - i,
        {
            proof {
                assert(fv[i as int] == fields@[i as int]@);
            }
            if i < expected {
                proof {
                    assert(hv[i as int] == headers@[i as int]@);
                }
                let (value, mut field_errs) = self.apply_chain(
                    &fields[i],
                    &headers[i],
                    record_n,
                );
                let ghost value_v = value.deep_view();
                let ghost old_values = values;
                values.push(value);
                errors.append(&mut field_errs);
                proof {
                    let rvs = row_values(rv, hv, fv, record_n as int);
                    assert(i as int + 1 <= rvs.len());
                    assert(old_values.deep_view() == rvs.take(i as int));
                    assert(rvs.take(i as int).len() == i as int);
                    assert(old_values@.len() == i as int);
                    assert(value_v == rvs[i as int]);
                    assert forall|k: int| 0 <= k < i as int + 1 implies values.deep_view()[k]
                        == rvs.take(i as int + 1)[k] by {
                        assert(values.deep_view()[k] == values@[k].deep_view());
                        if k < i as int {
                            assert(values@[k] == old_values@[k]);
                            assert(old_values.deep_view()[k] == rvs.take(i as int)[k]);
                        }
                    }
                    assert(values.deep_view() =~= rvs.take(i as int + 1));
                    assert(errors.deep_view() =~= row_errors(
                        rv,
                        hv,
                        fv,
                        record_n as int,
                        i as int + 1,
                    ));
                }
            } else {
                let field_name = usize_to_string(i);
                let mut reason = String::from_str("found ");
                let count_str = usize_to_string(expected);
                reason.append(count_str.as_str());
                reason.append(" header fields but record had extra field at position ");
                let pos_str = usize_to_string(i);
                reason.append(pos_str.as_str());
                let err = TransformError {
                    record_n,
                    field_name,
                    field_value: fields[i].clone(),
                    reason,
                };
                proof {
                    assert(err@ == wide_row_error(
                        hv.len() as nat,
                        fv[i as int],
                        record_n as int,
                        i as nat,
                    ));
                }
                errors.push(err);
                proof {
                    assert(errors.deep_view() =~= row_errors(
                        rv,
                        hv,
                        fv,
                        record_n as int,
                        i as int + 1,
                    ));
                    assert(values.deep_view() =~= row_values(rv, hv, fv, record_n as int).take(
                        expected as int,
                    ));
                }
            }
            i = i + 1;
        }
        proof {
            let bound = if fields@.len() <= expected {
                fields@.len() as int
            } else {
                expected as int
            };
            assert(row_values(rv, hv, fv, record_n as int).take(bound) =~= row_values(
                rv,
                hv,
                fv,
                record_n as int,
            ));
        }
        TransformedRecord { field_values: values, errors }
    }

    /// Runs the rule chain for one field, returning its final value and
    /// the errors recorded along the way.
    fn apply_chain(&self, field_value: &String, field_name: &String, record_n: usize) -> (r: (
        Option<String>,
        Vec<TransformError>,
    ))
        ensures
            r.0.deep_view() == chain_value(self@, field_value@, field_name@, record_n as int),
            r.1.deep_view() == chain_errors(self@, field_value@, field_name@, record_n as int),
    {
        let ghost rv = self@;
        proof {
            assert(rv.skip(0) =~= rv);
        }
        let mut current: Option<String> = Some(field_value.clone());
        let mut errors: Vec<TransformError> = Vec::new();
        let mut k: usize = 0;
        while k < self.rules.len() && current.is_some()
            invariant
                rv == self.rules.deep_view(),
                k <= self.rules@.len(),
                match current {
                    Some(cv) => errors.deep_view() =~= Seq::<TransformErrorV>::empty()
                        && chain_value(rv, field_value@, field_name@, record_n as int)
                        == chain_value(
                        rv.skip(k as int),
                        cv@,
                        field_name@,
                        record_n as int,
                    ) && chain_errors(rv, field_value@, field_name@, record_n as int)
                        == chain_errors(rv.skip(k as int), cv@, field_name@, record_n as int),
                    None => chain_value(rv, field_value@, field_name@, record_n as int) is None
                        && chain_errors(rv, field_value@, field_name@, record_n as int)
                        == errors.deep_view(),
                },
            decreases self.rules@.len() - k,
        {
            proof {
                assert(rv[k as int] == self.rules@[k as int]@);
                assert(rv.skip(k as int)[0] == rv[k as int]);
                assert(rv.skip(k as int).skip(1) =~= rv.skip(k + 1));
            }
            let cv = match &current {
                Some(cv) => cv.clone(),
                None => {
                    proof {
                        assert(false);
                    }
                    String::new()
                },
            };
            let outcome = self.rules[k].apply(cv.as_str(), field_name.as_str(), record_n);
            match outcome {
                Ok(next) => {
                    current = next;
                },
                Err(e) => {
                    errors.push(e);
                    current = Option::None;
                    proof {
                        assert(errors.deep_view() =~= seq![e@]);
                    }
                },
            }
            k = k + 1;
        }
        proof {
            if current is Some {
                assert(rv.skip(k as int) =~= Seq::<RuleV>::empty());
            }
        }
        (current, errors)
    }
}

/// The names of `names` that are not among `headers`, in their original
/// order.
pub open spec fn unmatched_names(names: Seq<Seq<char>>, headers: Seq<Seq<char>>) -> Seq<Seq<char>> {
    names.filter(|n: Seq<char>| !headers.contains(n))
}

fn unmatched_names_exec(names: &Vec<String>, headers: &Vec<String>) -> (r: Vec<String>)
    ensures
        r.deep_view() == unmatched_names(names.deep_view(), headers.deep_view()),
{
    let ghost nv = names.deep_view();
    let mut out: Vec<String> = Vec::new();
    let mut i: usize = 0;
    while i < names.len()
        invariant
            nv == names.deep_view(),
            i <= names.len(),
            out.deep_view() == unmatched_names(nv.take(i as int), headers.deep_view()),
        decreases names.len() - i,
    {
        proof {
            assert(nv[i as int] == names@[i as int]@);
            assert(nv.take(i + 1).drop_last() =~= nv.take(i as int));
            assert(nv.take(i + 1).last() == nv[i as int]);
        }
        let known = contains_str(headers, names[i].as_str());
        if !known {
            let name = names[i].clone();
            out.push(name);
            proof {
                reveal(Seq::filter);
                assert(out.deep_view() =~= unmatched_names(nv.take(i + 1), headers.deep_view()));
            }
        } else {
            proof {
                reveal(Seq::filter);
                assert(out.deep_view() =~= unmatched_names(nv.take(i + 1), headers.deep_view()));
            }
        }
        i = i + 1;
    }
    proof {
        assert(nv.take(names@.len() as int) =~= nv);
    }
    out
}

/// The reason reported for one rule whose field names are not all among
/// the headers.
pub open spec fn validation_reason(names: Seq<Seq<char>>, headers: Seq<Seq<char>>) -> Seq<char> {
    "The following fields were not found in headers: '"@ + render_string_list(
        unmatched_names(names, headers),
    ) + "'"@
}

/// The reasons of a ruleset's validation against `headers`: one per
/// field-scoped rule naming unknown fields, in rule order.
pub open spec fn validation_reasons(rules: Seq<RuleV>, headers: Seq<Seq<char>>) -> Seq<Seq<char>>
    decreases rules.len(),
{
    if rules.len() == 0 {
        Seq::empty()
    } else {
        let front = validation_reasons(rules.drop_last(), headers);
        match rules.last().applicability {
            ApplicabilityV::Fields(names) => if unmatched_names(names, headers).len() > 0 {
                front.push(validation_reason(names, headers))
            } else {
                front
            },
            ApplicabilityV::Global => front,
        }
    }
}

/// A rule that does not validate against a table's headers.
#[derive(Debug, Clone, PartialEq, Eq)]
pub struct ValidationError {
    reason: String,
}

impl View for ValidationError {
    type V = Seq<char>;

    closed spec fn view(&self) -> Seq<char> {
        self.reason@
    }
}

impl DeepView for ValidationError {
    type V = Seq<char>;

    open spec fn deep_view(&self) -> Seq<char> {
        self.view()
    }
}

impl ValidationError {
    /// The error's reason.
    pub fn reason(&self) -> (r: &String)
        ensures
            r@ == self@,
    {
        &self.reason
    }
}

/// One processed row: the transformed value of each field within the
/// header count — `None` for an omitted field — and the errors recorded
/// while processing, in order.
#[derive(Debug, PartialEq, Eq)]
pub struct TransformedRecord {
    pub field_values: Vec<Option<String>>,
    pub errors: Vec<TransformError>,
}

} // verus!
