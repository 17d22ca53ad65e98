//! The closed set of field transformers.

mod trim;
pub use self::trim::TrimTransformer;

mod none;
pub use self::none::NoneTransformer;

mod number;
pub use self::number::NumberTransformer;
pub use self::number::is_integer_string;

mod zipcode;
pub use self::zipcode::ZipcodeTransformer;
pub use self::zipcode::zip_normalized;

mod phone_number;
pub use self::phone_number::PhoneNumberTransformer;
pub use self::phone_number::{nanp_normalized, nanp_parse, nanp_groups, first_digit_at};

mod email;
pub use self::email::EmailTransformer;
pub use self::email::{is_valid_email, ascii_lower, valid_local, valid_domain};

mod choice;
pub use self::choice::ChoiceTransformer;
pub use self::choice::choice_reason;

mod date;
pub use self::date::DateTransformer;
pub use self::date::{date_reformat, date_first_parse, format_avoids_epoch, format_avoids_epoch_exec};

mod regex;
pub use self::regex::{RegexTransformer, RegexMatchTransformer};
pub use self::regex::{no_match_reason, excluded_match_reason};

mod capitalize;
pub use self::capitalize::{CapitalizeTransformer, capitalize};
pub use self::capitalize::{capitalize_spec, capitalize_word_spec, unicode_words_of, char_upper, char_lower, lower_all};

use vstd::prelude::*;

verus! {

use crate::transformer::{OutcomeV, TransformResult, Transformer};

/// The closed set of field transformers a rule can carry.
#[derive(Debug)]
pub enum Transformers {
    Trim(TrimTransformer),
    BlankMatch(NoneTransformer),
    Regex(RegexTransformer),
    RegexMatch(RegexMatchTransformer),
    Capitalize(CapitalizeTransformer),
    Email(EmailTransformer),
    Number(NumberTransformer),
    Date(DateTransformer),
    Choice(ChoiceTransformer),
    Zipcode(ZipcodeTransformer),
    PhoneNumber(PhoneNumberTransformer),
}

impl Transformer for Transformers {
    open spec fn transform_spec(&self, field_value: Seq<char>, field_name: Seq<char>, record_n: int)
        -> OutcomeV {
        match self {
            Transformers::Trim(t) => t.transform_spec(field_value, field_name, record_n),
            Transformers::BlankMatch(t) => t.transform_spec(field_value, field_name, record_n),
            Transformers::Regex(t) => t.transform_spec(field_value, field_name, record_n),
            Transformers::RegexMatch(t) => t.transform_spec(field_value, field_name, record_n),
            Transformers::Capitalize(t) => t.transform_spec(field_value, field_name, record_n),
            Transformers::Email(t) => t.transform_spec(field_value, field_name, record_n),
            Transformers::Number(t) => t.transform_spec(field_value, field_name, record_n),
            Transformers::Date(t) => t.transform_spec(field_value, field_name, record_n),
            Transformers::Choice(t) => t.transform_spec(field_value, field_name, record_n),
            Transformers::Zipcode(t) => t.transform_spec(field_value, field_name, record_n),
            Transformers::PhoneNumber(t) => t.transform_spec(field_value, field_name, record_n),
        }
    }

    fn transform(&self, field_value: &str, field_name: &str, record_n: usize) -> (r:
        TransformResult) {
        match self {
            Transformers::Trim(t) => t.transform(field_value, field_name, record_n),
            Transformers::BlankMatch(t) => t.transform(field_value, field_name, record_n),
            Transformers::Regex(t) => t.transform(field_value, field_name, record_n),
            Transformers::RegexMatch(t) => t.transform(field_value, field_name, record_n),
            Transformers::Capitalize(t) => t.transform(field_value, field_name, record_n),
            Transformers::Email(t) => t.transform(field_value, field_name, record_n),
            Transformers::Number(t) => t.transform(field_value, field_name, record_n),
            Transformers::Date(t) => t.transform(field_value, field_name, record_n),
            Transformers::Choice(t) => t.transform(field_value, field_name, record_n),
            Transformers::Zipcode(t) => t.transform(field_value, field_name, record_n),
            Transformers::PhoneNumber(t) => t.transform(field_value, field_name, record_n),
        }
    }
}

} // verus!
