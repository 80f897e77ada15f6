use vstd::prelude::*;
use vstd::string::StrSliceExecFns;

use crate::errors::ParseError;
use crate::value_text::{check_float_literal, is_float_literal};

verus! {

/// One telemetry sample: an instant and the measured value.
///
/// The value is kept as the decimal text the device sent, validated to be
/// exactly what a 64-bit float parser accepts; the presentation layer turns
/// it into its numeric form.
#[derive(Debug, PartialEq, Eq)]
pub struct Measurement {
    /// The sample instant: non-leap microseconds since the Unix epoch, as
    /// the timestamp text (offset included) denotes it.
    pub timestamp_micros: i64,
    /// The sample value, verbatim: a text that parses as a 64-bit float.
    pub value: String,
}

/// What `chrono` reads out of a date-time text: the denoted instant as
/// non-leap microseconds since the Unix epoch, when the text parses. The
/// offset is part of the text, so the instant is a function of the
/// characters alone.
pub uninterp spec fn parsed_datetime_micros(s: Seq<char>) -> Option<i64>;

/// Relies on chrono's `DateTime::<Local>: FromStr` — a relaxed RFC 3339
/// form parsed through `DateTime<FixedOffset>`, so the text must carry its
/// own offset and the instant it denotes does not depend on the machine's
/// zone — and on `DateTime::timestamp_micros`, which reads that instant.
#[verifier::external_body]
fn parse_local_datetime(s: &str) -> (r: Option<i64>)
    ensures
        r == parsed_datetime_micros(s@),
{
    s.parse::<chrono::DateTime<chrono::Local>>().ok().map(|dt| dt.timestamp_micros())
}

/// The index of the first space in `s`, or its length when it has none.
pub open spec fn first_space_char(s: Seq<char>) -> int
    decreases s.len(),
{
    if s.len() == 0 {
        0
    } else if s[0] == ' ' {
        0
    } else {
        1 + first_space_char(s.drop_first())
    }
}

/// The timestamp half of a telemetry line: everything before the first space.
pub open spec fn line_timestamp(s: Seq<char>) -> Seq<char> {
    s.take(first_space_char(s))
}

/// The value half of a telemetry line: everything after the first space.
pub open spec fn line_value(s: Seq<char>) -> Seq<char> {
    s.skip(first_space_char(s) + 1)
}

/// An index with no space before it, and a space at it unless it is the
/// length, is the first space.
proof fn lemma_first_space_char_is(s: Seq<char>, i: int)
    requires
        0 <= i <= s.len(),
        forall|j: int| 0 <= j < i ==> #[trigger] s[j] != ' ',
        i < s.len() ==> s[i] == ' ',
    ensures
        first_space_char(s) == i,
    decreases s.len(),
{
    if s.len() > 0 && s[0] != ' ' {
        assert forall|j: int| 0 <= j < i - 1 implies #[trigger] s.drop_first()[j] != ' ' by {
            assert(s.drop_first()[j] == s[j + 1]);
        }
        if i < s.len() {
            assert(s.drop_first()[i - 1] == s[i]);
        }
        lemma_first_space_char_is(s.drop_first(), i - 1);
    }
}

impl Measurement {
    /// Decode one telemetry line, `"<timestamp> <value>"`: the text before
    /// the first space must parse as a date-time with an offset, the text
    /// after it as a 64-bit float. A malformed line yields no Measurement
    /// and says which half was at fault; there is no partial success.
    pub fn from_str(s: &str) -> (r: Result<Measurement, ParseError>)
        ensures
            first_space_char(s@) == s@.len() ==> r == Err::<Measurement, ParseError>(
                ParseError::MissingSeparator,
            ),
            first_space_char(s@) < s@.len() && parsed_datetime_micros(line_timestamp(s@)) is None
                ==> r == Err::<Measurement, ParseError>(ParseError::InvalidTimestamp),
            first_space_char(s@) < s@.len() && parsed_datetime_micros(line_timestamp(s@)) is Some
                && !is_float_literal(line_value(s@)) ==> r == Err::<Measurement, ParseError>(
                ParseError::InvalidValue,
            ),
            first_space_char(s@) < s@.len() && parsed_datetime_micros(line_timestamp(s@)) is Some
                && is_float_literal(line_value(s@)) ==> (r matches Ok(m)
                && m.timestamp_micros == parsed_datetime_micros(line_timestamp(s@))->0
                && m.value@ == line_value(s@)),
    {
        let n = s.unicode_len();
        let mut i: usize = 0;
        loop
            invariant_except_break
                i <= n == s@.len(),
                forall|j: int| 0 <= j < i ==> #[trigger] s@[j] != ' ',
            ensures
                i <= n == s@.len(),
                forall|j: int| 0 <= j < i ==> #[trigger] s@[j] != ' ',
                i < n ==> s@[i as int] == ' ',
            decreases n - i,
        {
            if i >= n {
                break ;
            }
            if s.get_char(i) == ' ' {
                break ;
            }
            i = i + 1;
        }
        proof {
            lemma_first_space_char_is(s@, i as int);
        }
        if i == n {
            return Err(ParseError::MissingSeparator);
        }
        let tstamp = s.substring_char(0, i);
        let value = s.substring_char(i + 1, n);
        proof {
            assert(tstamp@ =~= line_timestamp(s@));
            assert(value@ =~= line_value(s@));
        }
        match parse_local_datetime(tstamp) {
            Option::Some(micros) => {
                if check_float_literal(value) {
                    Ok(Measurement { timestamp_micros: micros, value: value.to_owned() })
                } else {
                    Err(ParseError::InvalidValue)
                }
            },
            Option::None => Err(ParseError::InvalidTimestamp),
        }
    }
}

} // verus!
