//! Validates and normalizes United States postal codes.

use vstd::prelude::*;

verus! {

use vstd::string::{StrSliceExecFns, StringExecFns};
use crate::text::{all_digits, no_digits, str_range_all_digits, str_range_no_digits};
use crate::transformer::{OutcomeV, TransformResult, TransformResultHelper, Transformer, error_v};

/// The normal form of a postal code: five leading digits, then an optional
/// run of non-digits followed by a four-digit extension ending the value.
/// `Some("DDDDD")` or `Some("DDDDD-DDDD")` on a match, `None` otherwise.
pub open spec fn zip_normalized(s: Seq<char>) -> Option<Seq<char>> {
    if s.len() >= 5 && all_digits(s.take(5)) {
        let t = s.skip(5);
        if no_digits(t) {
            Some(s.take(5))
        } else if t.len() >= 4 && no_digits(t.take(t.len() - 4)) && all_digits(
            t.skip(t.len() - 4),
        ) {
            Some(s.take(5) + seq!['-'] + t.skip(t.len() - 4))
        } else {
            None
        }
    } else {
        None
    }
}

/// Accepts a five-digit postal code with an optional four-digit extension
/// separated by any run of non-digits, normalizing it to `DDDDD` or
/// `DDDDD-DDDD`; fails on anything else.
#[derive(Debug)]
pub struct ZipcodeTransformer {

}

impl ZipcodeTransformer {
    pub fn new() -> (t: ZipcodeTransformer)
        ensures
            t == (ZipcodeTransformer {  }),
    {
        ZipcodeTransformer {  }
    }
}

impl Transformer for ZipcodeTransformer {
    open spec fn transform_spec(&self, field_value: Seq<char>, field_name: Seq<char>, record_n: int)
        -> OutcomeV {
        match zip_normalized(field_value) {
            Some(z) => OutcomeV::Present(z),
            None => OutcomeV::Failed(
                error_v(field_value, field_name, record_n, "not a valid zipcode"@),
            ),
        }
    }

    fn transform(&self, field_value: &str, field_name: &str, record_n: usize) -> (r:
        TransformResult) {
        let n = field_value.unicode_len();
        if n >= 5 && str_range_all_digits(field_value, 0, 5) {
            proof {
                assert(field_value@.subrange(0, 5) =~= field_value@.take(5));
            }
            if str_range_no_digits(field_value, 5, n) {
                proof {
                    assert(field_value@.subrange(5, n as int) =~= field_value@.skip(5));
                }
                let base = field_value.substring_char(0, 5);
                proof {
                    assert(base@ =~= field_value@.take(5));
                }
                TransformResult::present(base)
            } else if n >= 9 && str_range_no_digits(field_value, 5, n - 4) && str_range_all_digits(
                field_value,
                n - 4,
                n,
            ) {
                let ghost t = field_value@.skip(5);
                proof {
                    assert(field_value@.subrange(5, n - 4) =~= t.take(t.len() - 4));
                    assert(field_value@.subrange(n - 4, n as int) =~= t.skip(t.len() - 4));
                }
                let mut z = String::from_str(field_value.substring_char(0, 5));
                z.append("-");
                z.append(field_value.substring_char(n - 4, n));
                proof {
                    reveal_strlit("-");
                    assert(z@ =~= field_value@.take(5) + seq!['-'] + t.skip(t.len() - 4));
                }
                Ok(Some(z))
            } else {
                proof {
                    let t = field_value@.skip(5);
                    if n >= 9 {
                        assert(field_value@.subrange(5, n - 4) =~= t.take(t.len() - 4));
                        assert(field_value@.subrange(n - 4, n as int) =~= t.skip(t.len() - 4));
                    }
                    assert(zip_normalized(field_value@) is None);
                }
                TransformResult::error(field_value, field_name, record_n, "not a valid zipcode")
            }
        } else {
            proof {
                if n >= 5 {
                    assert(field_value@.subrange(0, 5) =~= field_value@.take(5));
                }
                assert(zip_normalized(field_value@) is None);
            }
            TransformResult::error(field_value, field_name, record_n, "not a valid zipcode")
        }
    }
}

} // verus!
