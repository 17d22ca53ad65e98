//! Validates decimal integer strings.

use vstd::prelude::*;

verus! {

use vstd::string::StrSliceExecFns;
use crate::text::{all_digits, is_digit, str_range_all_digits};
use crate::transformer::{OutcomeV, TransformResult, TransformResultHelper, Transformer, error_v};

/// Whether `s` is `"0"` or a decimal integer with no leading zero.
pub open spec fn is_integer_string(s: Seq<char>) -> bool {
    (s.len() == 1 && s[0] as int == 0x30) || (s.len() > 0 && 0x31 <= s[0] as int <= 0x39
        && all_digits(s))
}

/// Accepts a value that is `"0"` or a decimal integer without a leading
/// zero, passing it through unchanged; fails on anything else.
#[derive(Debug)]
pub struct NumberTransformer {

}

impl NumberTransformer {
    pub fn match_integer() -> (t: NumberTransformer)
        ensures
            t == (NumberTransformer {  }),
    {
        NumberTransformer {  }
    }
}

impl Transformer for NumberTransformer {
    open spec fn transform_spec(&self, field_value: Seq<char>, field_name: Seq<char>, record_n: int)
        -> OutcomeV {
        if is_integer_string(field_value) {
            OutcomeV::Present(field_value)
        } else {
            OutcomeV::Failed(
                error_v(field_value, field_name, record_n, "not a valid number"@),
            )
        }
    }

    fn transform(&self, field_value: &str, field_name: &str, record_n: usize) -> (r:
        TransformResult) {
        let n = field_value.unicode_len();
        let ok: bool = if n == 0 {
            false
        } else {
            let c0 = field_value.get_char(0);
            let u0: u32 = c0 as u32;
            if n == 1 && u0 == 0x30 {
                true
            } else if 0x31 <= u0 && u0 <= 0x39 {
                let rest = str_range_all_digits(field_value, 1, n);
                proof {
                    if rest {
                        assert(is_digit(field_value@[0]));
                        assert forall|i: int| 0 <= i < n implies is_digit(
                            #[trigger] field_value@[i],
                        ) by {
                            if i >= 1 {
                                assert(field_value@.subrange(1, n as int)[i - 1]
                                    == field_value@[i]);
                            }
                        }
                        assert(all_digits(field_value@));
                    } else {
                        let j = choose|j: int|
                            0 <= j < n - 1 && !is_digit(
                                #[trigger] field_value@.subrange(1, n as int)[j],
                            );
                        assert(!is_digit(field_value@[j + 1]));
                        assert(!all_digits(field_value@));
                    }
                }
                rest
            } else {
                false
            }
        };
        proof {
            assert(ok == is_integer_string(field_value@));
        }
        if ok {
            TransformResult::present(field_value)
        } else {
            TransformResult::error(field_value, field_name, record_n, "not a valid number")
        }
    }
}

} // verus!
