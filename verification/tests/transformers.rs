//! Behaviour of the individual field transformers.

use csv_sanity::pattern::Pattern;
use csv_sanity::transformer::{TransformError, Transformer};
use csv_sanity::{TransformResult, TransformResultHelper};
use csv_sanity::transformers::format_avoids_epoch_exec;
use csv_sanity::transformers::{
    capitalize, CapitalizeTransformer, ChoiceTransformer, DateTransformer, EmailTransformer,
    NoneTransformer, NumberTransformer, PhoneNumberTransformer, RegexMatchTransformer,
    RegexTransformer, TrimTransformer, ZipcodeTransformer,
};

fn present(s: &str) -> Result<Option<String>, TransformError> {
    Ok(Some(s.to_string()))
}

#[test]
fn trim_strips_surrounding_whitespace() {
    let t = TrimTransformer::new();
    assert_eq!(present("John"), t.transform("  John\t ", "Name", 2));
    assert_eq!(present(""), t.transform("", "Name", 2));
    assert_eq!(present("a b"), t.transform(" a b ", "Name", 2));
}

#[test]
fn trim_is_idempotent_on_samples() {
    let t = TrimTransformer::new();
    for v in ["  x ", "x", "", " \t ", " a  b "] {
        let once = t.transform(v, "F", 2).unwrap().unwrap();
        let twice = t.transform(&once, "F", 2).unwrap().unwrap();
        assert_eq!(once, twice);
    }
}

#[test]
fn blank_matcher_excludes_whitespace_and_control() {
    let t = NoneTransformer::with_blank_matcher();
    assert_eq!(Ok(None), t.transform("", "F", 2));
    assert_eq!(Ok(None), t.transform(" \t\r\n", "F", 2));
    assert_eq!(Ok(None), t.transform("\u{0}\u{7f}", "F", 2));
    assert_eq!(present("x"), t.transform("x", "F", 2));
    assert_eq!(present(" x "), t.transform(" x ", "F", 2));
}

#[test]
fn custom_blank_pattern_drives_exclusion() {
    let p = Pattern::new(r"\A(N/A|-)\z").unwrap();
    let t = NoneTransformer::new(p);
    assert_eq!(Ok(None), t.transform("N/A", "F", 2));
    assert_eq!(Ok(None), t.transform("-", "F", 2));
    assert_eq!(present("value"), t.transform("value", "F", 2));
}

#[test]
fn invalid_pattern_is_rejected_at_compile_time() {
    assert!(Pattern::new("(").is_none());
    assert!(Pattern::new(r"\d+").is_some());
}

#[test]
fn capitalize_uppercases_each_word() {
    assert_eq!("John", capitalize("JOHN"));
    assert_eq!("Hello World", capitalize("hELLo   wORLD"));
    assert_eq!("", capitalize("   "));
    // Hyphens are word boundaries under the standard segmentation, so a
    // hyphenated name is rejoined with spaces.
    assert_eq!("Mary Jane", capitalize("mary-jane"));
}

#[test]
fn capitalize_is_idempotent_on_samples() {
    for v in ["JOHN", "hello world", "o'brien", "a  b  c", ""] {
        let once = capitalize(v);
        assert_eq!(once, capitalize(&once));
    }
}

#[test]
fn capitalize_transformer_always_succeeds() {
    let t = CapitalizeTransformer::new();
    assert_eq!(present("Snow"), t.transform("SNOW  ", "Last Name", 2));
}

#[test]
fn email_is_lowercased_on_success() {
    let t = EmailTransformer::new();
    assert_eq!(present("jsnow@example.com"), t.transform("JSNOW@EXAMPLE.COM", "Email", 2));
    assert_eq!(
        present("first.last+tag@sub.example.org"),
        t.transform("First.Last+Tag@Sub.Example.Org", "Email", 2)
    );
}

#[test]
fn email_rejects_malformed_addresses() {
    let t = EmailTransformer::new();
    for bad in [
        "",
        "no-at-sign",
        "a@b",
        "two@@example.com",
        ".dot@first.com",
        "dot.@last.com",
        "do..uble@dots.com",
        "a@-label.com",
        "a@label-.com",
        "a@label..com",
        "\t jsnow@example.com ",
    ] {
        let e = t.transform(bad, "Email", 7).unwrap_err();
        assert_eq!("invalid email address", e.reason);
        assert_eq!(bad, e.field_value);
        assert_eq!("Email", e.field_name);
        assert_eq!(7, e.record_n);
    }
}

#[test]
fn number_accepts_canonical_integers() {
    let t = NumberTransformer::match_integer();
    assert_eq!(present("0"), t.transform("0", "N", 2));
    assert_eq!(present("123"), t.transform("123", "N", 2));
    assert_eq!(present("90210"), t.transform("90210", "N", 2));
}

#[test]
fn number_rejects_non_integers() {
    let t = NumberTransformer::match_integer();
    for bad in ["", "0123", "12a", "-1", "1.5", " 1"] {
        let e = t.transform(bad, "N", 3).unwrap_err();
        assert_eq!("not a valid number", e.reason);
    }
}

#[test]
fn date_reformats_first_matching_format() {
    let t = DateTransformer::with_iso8601_output(vec![
        "%d/%m/%Y".to_string(),
        "%Y.%m.%d".to_string(),
    ]);
    assert_eq!(present("2017-01-02"), t.transform("02/01/2017", "D", 2));
    assert_eq!(present("2017-01-02"), t.transform("2017.01.02", "D", 2));
}

#[test]
fn date_fails_when_no_format_parses() {
    let t = DateTransformer::with_iso8601_output(vec!["%d/%m/%Y".to_string()]);
    let e = t.transform("2017-01-02", "D", 4).unwrap_err();
    assert_eq!("unable to parse as date", e.reason);
}

#[test]
fn date_custom_output_format() {
    let t = DateTransformer::new(vec!["%Y-%m-%d".to_string()], "%d.%m.%Y");
    assert_eq!(present("02.01.2017"), t.transform("2017-01-02", "D", 2));
}

#[test]
fn date_epoch_seconds_format_never_matches() {
    assert!(!format_avoids_epoch_exec("%s"));
    assert!(!format_avoids_epoch_exec("%Y %s"));
    assert!(format_avoids_epoch_exec("%Y-%m-%d"));
    assert!(format_avoids_epoch_exec("%%s"));
    assert!(format_avoids_epoch_exec("s%"));

    let t = DateTransformer::with_iso8601_output(vec![
        "%s".to_string(),
        "%d/%m/%Y".to_string(),
    ]);
    // The epoch format is screened out; the second format still works.
    assert_eq!(present("2017-01-02"), t.transform("02/01/2017", "D", 2));
    // An oversized epoch value is an ordinary parse failure, not an abort.
    let e = t.transform("99999999999999999", "D", 2).unwrap_err();
    assert_eq!("unable to parse as date", e.reason);
    // A normal epoch value is not parsed either: the specifier is unsupported.
    let e2 = t.transform("1484020800", "D", 2).unwrap_err();
    assert_eq!("unable to parse as date", e2.reason);
}

#[test]
fn choice_accepts_members_and_lists_the_set_on_failure() {
    let t = ChoiceTransformer::new(vec!["red".to_string(), "green".to_string()]);
    assert_eq!(present("red"), t.transform("red", "C", 2));
    assert_eq!(present("green"), t.transform("green", "C", 2));
    let e = t.transform("blue", "C", 2).unwrap_err();
    assert_eq!("not in valid choices [\"red\", \"green\"]", e.reason);
    assert_eq!("blue", e.field_value);
}

#[test]
fn zipcode_normalizes_plus_four() {
    let t = ZipcodeTransformer::new();
    assert_eq!(present("12345-6789"), t.transform("12345 6789", "Z", 2));
    assert_eq!(present("12345"), t.transform("12345", "Z", 2));
    assert_eq!(present("12345-6789"), t.transform("123456789", "Z", 2));
    assert_eq!(present("12345-6789"), t.transform("12345-6789", "Z", 2));
    assert_eq!(present("12345"), t.transform("12345-", "Z", 2));
}

#[test]
fn zipcode_rejects_malformed_codes() {
    let t = ZipcodeTransformer::new();
    for bad in ["1234", "123456", "12345-678", "12345-67890", "abcde", ""] {
        let e = t.transform(bad, "Z", 5).unwrap_err();
        assert_eq!("not a valid zipcode", e.reason);
    }
}

#[test]
fn phone_number_normalizes_nanp_formats() {
    let t = PhoneNumberTransformer::expect_nanp_format();
    assert_eq!(present("+1 555 123 4567"), t.transform("(555) 123-4567", "P", 2));
    assert_eq!(present("+1 555 123 4567"), t.transform("555-123-4567", "P", 2));
    assert_eq!(present("+1 555 123 4567"), t.transform("5551234567", "P", 2));
    assert_eq!(present("+1 555 123 4567"), t.transform("1 555 123 4567", "P", 2));
    assert_eq!(present("+1 555 123 4567"), t.transform("+1 (555) 123 4567", "P", 2));
    assert_eq!(present("+1 123 456 7890"), t.transform("1234567890", "P", 2));
}

#[test]
fn phone_number_rejects_wrong_groupings() {
    let t = PhoneNumberTransformer::expect_nanp_format();
    for bad in ["555-12-34567", "555-1234", "55-5123-4567", "555123456", "", "call me"] {
        let e = t.transform(bad, "P", 6).unwrap_err();
        assert_eq!("not a valid NANP format phone number", e.reason);
    }
}

#[test]
fn regex_transformer_expands_captures() {
    let p = Pattern::new(r"\A(\d+)-(\d+)\z").unwrap();
    let t = RegexTransformer::new(p, "$2-$1");
    assert_eq!(present("34-12"), t.transform("12-34", "R", 2));
    let e = t.transform("12.34", "R", 2).unwrap_err();
    assert_eq!("did not match pattern \\A(\\d+)-(\\d+)\\z", e.reason);
}

#[test]
fn regex_match_transformer_honours_negation() {
    let p = Pattern::new(r"\Aok\z").unwrap();
    let keep = RegexMatchTransformer::matching(p);
    assert_eq!(present("ok"), keep.transform("ok", "R", 2));
    let e = keep.transform("nope", "R", 2).unwrap_err();
    assert_eq!("did not match pattern \\Aok\\z", e.reason);

    let p2 = Pattern::new(r"forbidden").unwrap();
    let reject = RegexMatchTransformer::not_matching(p2);
    assert_eq!(present("fine"), reject.transform("fine", "R", 2));
    let e2 = reject.transform("very forbidden word", "R", 2).unwrap_err();
    assert_eq!("matched exclusionary pattern forbidden", e2.reason);
}

#[test]
fn helper_constructors_build_results() {
    assert_eq!(Ok(Some("v".to_string())), TransformResult::present("v"));
    assert_eq!(Ok(None), TransformResult::excluded());
    let e = TransformResult::error("jak@hot mail.com", "Email", 0, "not a valid email address")
        .unwrap_err();
    assert_eq!(
        TransformError {
            record_n: 0,
            field_name: "Email".to_string(),
            field_value: "jak@hot mail.com".to_string(),
            reason: "not a valid email address".to_string(),
        },
        e
    );
}
