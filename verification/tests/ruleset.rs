//! Behaviour of rules, rulesets and row processing.

use csv_sanity::pattern::Pattern;
use csv_sanity::ruleset::ValidationError;
use csv_sanity::transformer::TransformError;
use csv_sanity::transformers::{
    CapitalizeTransformer, EmailTransformer, NoneTransformer, NumberTransformer, Transformers,
};
use csv_sanity::{Rule, Ruleset, TransformedRecord};

fn strings(vs: &[&str]) -> Vec<String> {
    vs.iter().map(|s| s.to_string()).collect()
}

#[test]
fn rule_for_other_fields_passes_value_through() {
    let rule = Rule::for_fields(
        &["First Name", "Last Name"],
        Transformers::Capitalize(CapitalizeTransformer::new()),
    );
    // Not applicable: the value comes back unchanged and no error is produced.
    assert_eq!(Ok(Some(" JOHN ".to_string())), rule.apply(" JOHN ", "Email", 2));
    // Applicable: the transformer runs.
    assert_eq!(Ok(Some("John".to_string())), rule.apply(" JOHN ", "First Name", 2));
}

#[test]
fn global_rule_applies_to_every_field() {
    let rule = Rule::global(Transformers::Number(NumberTransformer::match_integer()));
    assert_eq!(Ok(Some("12".to_string())), rule.apply("12", "Anything", 2));
    assert!(rule.apply("x", "Anything", 2).is_err());
}

#[test]
fn default_ruleset_omits_blank_fields() {
    let ruleset = Ruleset::new();
    let headers = strings(&["A", "B"]);
    let record = ruleset.apply_rules(&headers, &strings(&[" \t ", "kept"]), 2);
    assert_eq!(
        TransformedRecord {
            field_values: vec![None, Some("kept".to_string())],
            errors: Vec::new(),
        },
        record
    );
}

#[test]
fn default_ruleset_trims_fields() {
    let ruleset = Ruleset::new();
    let headers = strings(&["A"]);
    let record = ruleset.apply_rules(&headers, &strings(&["  padded  "]), 2);
    assert_eq!(vec![Some("padded".to_string())], record.field_values);
    assert!(record.errors.is_empty());
}

#[test]
fn higher_priority_rule_runs_first_and_short_circuits() {
    // A match-everything blank rule at priority 10 and an integer check at
    // priority -10, added in the opposite order: the priority-10 rule runs
    // first, omits the field, and the integer check never reports.
    let mut ruleset = Ruleset::without_default_rules();
    ruleset.add_rule(Rule::global_with_priority(
        Transformers::Number(NumberTransformer::match_integer()),
        -10,
    ));
    ruleset.add_rule(Rule::global_with_priority(
        Transformers::BlankMatch(NoneTransformer::new(Pattern::new(".*").unwrap())),
        10,
    ));
    let record = ruleset.apply_rules(&strings(&["A"]), &strings(&["not a number"]), 2);
    assert_eq!(vec![None], record.field_values);
    assert!(record.errors.is_empty());
}

#[test]
fn lower_priority_rule_runs_when_field_stays_present() {
    let mut ruleset = Ruleset::without_default_rules();
    ruleset.add_rule(Rule::global_with_priority(
        Transformers::Number(NumberTransformer::match_integer()),
        -10,
    ));
    ruleset.add_rule(Rule::global_with_priority(
        Transformers::BlankMatch(NoneTransformer::with_blank_matcher()),
        10,
    ));
    let record = ruleset.apply_rules(&strings(&["A"]), &strings(&["xyz"]), 2);
    assert_eq!(vec![None], record.field_values);
    assert_eq!(1, record.errors.len());
    assert_eq!("not a valid number", record.errors[0].reason);
}

#[test]
fn end_to_end_scenario_cleans_a_row() {
    // Field rules below the default rules' priority, so that trimming and
    // blank handling run before validation.
    let mut ruleset = Ruleset::new();
    ruleset.add_rule(Rule::for_fields_with_priority(
        &["First Name", "Last Name"],
        Transformers::Capitalize(CapitalizeTransformer::new()),
        -20,
    ));
    ruleset.add_rule(Rule::for_fields_with_priority(
        &["Email"],
        Transformers::Email(EmailTransformer::new()),
        -20,
    ));
    let headers = strings(&["Id", "First Name", "Last Name", "Email"]);
    let row = strings(&["1", " JOHN", "SNOW  ", "\t JSNOW@EXAMPLE.COM "]);
    let record = ruleset.apply_rules(&headers, &row, 2);
    assert_eq!(
        TransformedRecord {
            field_values: vec![
                Some("1".to_string()),
                Some("John".to_string()),
                Some("Snow".to_string()),
                Some("jsnow@example.com".to_string()),
            ],
            errors: Vec::new(),
        },
        record
    );
}

#[test]
fn default_priority_field_rule_sees_the_untrimmed_value() {
    // At the default priority 0 a field rule runs before the -10 trim rule,
    // so the email check sees the raw value and reports it.
    let mut ruleset = Ruleset::new();
    ruleset.add_rule(Rule::for_fields(
        &["Email"],
        Transformers::Email(EmailTransformer::new()),
    ));
    let headers = strings(&["Email"]);
    let record = ruleset.apply_rules(&headers, &strings(&["\t JSNOW@EXAMPLE.COM "]), 2);
    assert_eq!(vec![None], record.field_values);
    assert_eq!(1, record.errors.len());
    assert_eq!("invalid email address", record.errors[0].reason);
    assert_eq!("\t JSNOW@EXAMPLE.COM ", record.errors[0].field_value);
}

#[test]
fn failed_field_does_not_abort_the_row() {
    let mut ruleset = Ruleset::new();
    ruleset.add_rule(Rule::for_fields(
        &["N"],
        Transformers::Number(NumberTransformer::match_integer()),
    ));
    let headers = strings(&["N", "B"]);
    let record = ruleset.apply_rules(&headers, &strings(&["nope", " ok "]), 3);
    assert_eq!(
        vec![None, Some("ok".to_string())],
        record.field_values
    );
    assert_eq!(
        vec![TransformError {
            record_n: 3,
            field_name: "N".to_string(),
            field_value: "nope".to_string(),
            reason: "not a valid number".to_string(),
        }],
        record.errors
    );
}

#[test]
fn wide_row_produces_one_error_per_extra_field() {
    let ruleset = Ruleset::new();
    let headers = strings(&["A"]);
    let record = ruleset.apply_rules(&headers, &strings(&["kept", "extra"]), 2);
    assert_eq!(vec![Some("kept".to_string())], record.field_values);
    assert_eq!(
        vec![TransformError {
            record_n: 2,
            field_name: "1".to_string(),
            field_value: "extra".to_string(),
            reason: "found 1 header fields but record had extra field at position 1".to_string(),
        }],
        record.errors
    );
}

#[test]
fn two_extra_fields_produce_two_errors() {
    let ruleset = Ruleset::without_default_rules();
    let record = ruleset.apply_rules(&strings(&["A"]), &strings(&["a", "b", "c"]), 5);
    assert_eq!(vec![Some("a".to_string())], record.field_values);
    assert_eq!(2, record.errors.len());
    assert_eq!("1", record.errors[0].field_name);
    assert_eq!("2", record.errors[1].field_name);
    assert_eq!(
        "found 1 header fields but record had extra field at position 2",
        record.errors[1].reason
    );
}

#[test]
fn narrow_row_processes_only_present_fields() {
    let ruleset = Ruleset::new();
    let headers = strings(&["A", "B", "C"]);
    let record = ruleset.apply_rules(&headers, &strings(&[" x "]), 2);
    assert_eq!(vec![Some("x".to_string())], record.field_values);
    assert!(record.errors.is_empty());
}

#[test]
fn validation_reports_unknown_fields() {
    let mut ruleset = Ruleset::new();
    ruleset.add_rule(Rule::for_fields(
        &["Nope"],
        Transformers::Capitalize(CapitalizeTransformer::new()),
    ));
    let errors: Vec<ValidationError> =
        ruleset.validate_rules(&strings(&["Id", "Name"])).unwrap_err();
    assert_eq!(1, errors.len());
    assert_eq!(
        "The following fields were not found in headers: '[\"Nope\"]'",
        errors[0].reason()
    );
}

#[test]
fn validation_reports_all_bad_rules_in_one_call() {
    let mut ruleset = Ruleset::without_default_rules();
    ruleset.add_rule(Rule::for_fields(
        &["Missing A"],
        Transformers::Capitalize(CapitalizeTransformer::new()),
    ));
    ruleset.add_rule(Rule::for_fields(
        &["Name", "Missing B"],
        Transformers::Capitalize(CapitalizeTransformer::new()),
    ));
    let errors = ruleset.validate_rules(&strings(&["Name"])).unwrap_err();
    assert_eq!(2, errors.len());
    assert!(errors[0].reason().contains("Missing A"));
    assert!(errors[1].reason().contains("Missing B"));
    assert!(!errors[1].reason().contains("Name\""));
}

#[test]
fn validation_accepts_a_covered_ruleset() {
    let mut ruleset = Ruleset::new();
    ruleset.add_rule(Rule::for_fields(
        &["Name"],
        Transformers::Capitalize(CapitalizeTransformer::new()),
    ));
    assert_eq!(Ok(()), ruleset.validate_rules(&strings(&["Id", "Name"])));
}

#[test]
fn repeated_field_names_collapse() {
    let rule = Rule::for_fields(
        &["Name", "Name"],
        Transformers::Capitalize(CapitalizeTransformer::new()),
    );
    let mut ruleset = Ruleset::without_default_rules();
    ruleset.add_rule(rule);
    let errors = ruleset.validate_rules(&strings(&["Id"])).unwrap_err();
    assert_eq!(1, errors.len());
    assert_eq!(
        "The following fields were not found in headers: '[\"Name\"]'",
        errors[0].reason()
    );
}
