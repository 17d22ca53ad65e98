//! Parses dates against a list of input formats and reformats them.

use vstd::prelude::*;

verus! {

use vstd::string::StrSliceExecFns;
use crate::transformer::{OutcomeV, TransformResult, TransformResultHelper, Transformer, error_v};

/// Whether `f`, read as a parse format, avoids the epoch-seconds specifier:
/// no `%` introduces an `s`.  A `%` consumes the character after it, so the
/// `s` in `%%s` is a literal and harmless.
pub open spec fn format_avoids_epoch(f: Seq<char>) -> bool
    decreases f.len(),
{
    if f.len() == 0 {
        true
    } else if f[0] == '%' {
        if f.len() == 1 {
            true
        } else if f[1] == 's' {
            false
        } else {
            format_avoids_epoch(f.skip(2))
        }
    } else {
        format_avoids_epoch(f.skip(1))
    }
}

/// Scans a format string for the epoch-seconds specifier.
pub fn format_avoids_epoch_exec(f: &str) -> (b: bool)
    ensures
        b == format_avoids_epoch(f@),
{
    let n = f.unicode_len();
    proof {
        assert(f@.skip(0) =~= f@);
    }
    let mut i: usize = 0;
    while i < n
        invariant
            n == f@.len(),
            i <= n,
            format_avoids_epoch(f@) == format_avoids_epoch(f@.skip(i as int)),
        decreases n - i,
    {
        proof {
            assert(f@.skip(i as int)[0] == f@[i as int]);
        }
        if f.get_char(i) == '%' {
            if i + 1 < n {
                proof {
                    assert(f@.skip(i as int)[1] == f@[i + 1]);
                }
                if f.get_char(i + 1) == 's' {
                    return false;
                }
                proof {
                    assert(f@.skip(i as int).skip(2) =~= f@.skip(i as int + 2));
                }
                i = i + 2;
            } else {
                proof {
                    assert(f@.skip(i as int).len() == 1);
                }
                return true;
            }
        } else {
            proof {
                assert(f@.skip(i as int).skip(1) =~= f@.skip(i as int + 1));
            }
            i = i + 1;
        }
    }
    proof {
        assert(f@.skip(n as int) =~= Seq::<char>::empty());
    }
    true
}

/// What reading `value` with `in_format` and writing it back with
/// `out_format` yields, as decided by the `time` crate: `None` when the
/// value does not parse with the input format, or when the output format
/// itself is invalid.  A function of the three strings alone.
pub uninterp spec fn date_reformat(value: Seq<char>, in_format: Seq<char>, out_format: Seq<char>)
    -> Option<Seq<char>>;

/// Relies on `time::strptime`, which parses the value by the format string
/// alone, and `time::Tm::strftime`, which renders the parsed fields by the
/// output format alone.  The input format must avoid the epoch-seconds
/// specifier `%s`: on that one, `strptime` accepts up to 18 digits and
/// converts them through the C time functions, which abort the process
/// once the year overflows their range.  Every other specifier's digit
/// matchers are range-limited and return errors.
#[verifier::external_body]
fn date_reformat_exec(value: &str, in_format: &str, out_format: &str) -> (r: Option<String>)
    requires
        format_avoids_epoch(in_format@),
    ensures
        r is Some <==> date_reformat(value@, in_format@, out_format@) is Some,
        r matches Some(s) ==> date_reformat(value@, in_format@, out_format@) == Some(s@),
{
    match time::strptime(value, in_format) {
        Ok(tm) => match tm.strftime(out_format) {
            Ok(f) => Some(f.to_string()),
            Err(_) => None,
        },
        Err(_) => None,
    }
}

/// The first input format that parses `value` decides the result.  A
/// format using the epoch-seconds specifier is screened out and never
/// matches.
pub open spec fn date_first_parse(
    formats: Seq<Seq<char>>,
    value: Seq<char>,
    out_format: Seq<char>,
) -> Option<Seq<char>>
    decreases formats.len(),
{
    if formats.len() == 0 {
        None
    } else if format_avoids_epoch(formats[0]) && date_reformat(value, formats[0], out_format)
        is Some {
        date_reformat(value, formats[0], out_format)
    } else {
        date_first_parse(formats.skip(1), value, out_format)
    }
}

/// Tries an ordered list of input date formats and reformats the first
/// successful parse with the output format; fails when none parses.
///
/// An input format that uses the epoch-seconds specifier `%s` is treated
/// as never matching: the underlying parser can abort the process on
/// oversized epoch values, so such formats are screened out before the
/// call ever happens.
#[derive(Debug)]
pub struct DateTransformer {
    pub input_formats: Vec<String>,
    pub output_format: String,
}

impl DateTransformer {
    pub fn new(input_formats: Vec<String>, output_format: &str) -> (t: DateTransformer)
        ensures
            t.input_formats == input_formats,
            t.output_format@ == output_format@,
    {
        DateTransformer { input_formats, output_format: output_format.to_owned() }
    }

    /// A transformer writing ISO-8601 calendar dates.
    pub fn with_iso8601_output(input_formats: Vec<String>) -> (t: DateTransformer)
        ensures
            t.input_formats == input_formats,
            t.output_format@ == "%F"@,
    {
        Self::new(input_formats, "%F")
    }
}

impl Transformer for DateTransformer {
    open spec fn transform_spec(&self, field_value: Seq<char>, field_name: Seq<char>, record_n: int)
        -> OutcomeV {
        match date_first_parse(self.input_formats.deep_view(), field_value, self.output_format@) {
            Some(d) => OutcomeV::Present(d),
            None => OutcomeV::Failed(
                error_v(field_value, field_name, record_n, "unable to parse as date"@),
            ),
        }
    }

    fn transform(&self, field_value: &str, field_name: &str, record_n: usize) -> (r:
        TransformResult) {
        let ghost formats = self.input_formats.deep_view();
        proof {
            assert(formats.skip(0) =~= formats);
        }
        let mut i: usize = 0;
        while i < self.input_formats.len()
            invariant
                formats == self.input_formats.deep_view(),
                i <= self.input_formats.len(),
                date_first_parse(formats, field_value@, self.output_format@) == date_first_parse(
                    formats.skip(i as int),
                    field_value@,
                    self.output_format@,
                ),
            decreases self.input_formats.len() - i,
        {
            proof {
                assert(formats[i as int] == self.input_formats@[i as int]@);
                assert(formats.skip(i as int)[0] == formats[i as int]);
            }
            let safe = format_avoids_epoch_exec(self.input_formats[i].as_str());
            let attempt = if safe {
                date_reformat_exec(
                    field_value,
                    self.input_formats[i].as_str(),
                    self.output_format.as_str(),
                )
            } else {
                Option::None
            };
            match attempt {
                Some(d) => {
                    return Ok(Some(d));
                },
                None => {
                    proof {
                        assert(formats.skip(i as int).skip(1) =~= formats.skip(i + 1));
                    }
                },
            }
            i = i + 1;
        }
        proof {
            assert(formats.skip(i as int) =~= Seq::<Seq<char>>::empty());
        }
        TransformResult::error(field_value, field_name, record_n, "unable to parse as date")
    }
}

} // verus!
