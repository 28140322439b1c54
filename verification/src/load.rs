//! Parsing of the load-generator's knobs: durations like `30s`, `5m`, `2h`
//! and batch patterns like `100,30s`.

use vstd::prelude::*;
use vstd::string::StrSliceExecFns;
use vstd::string::StringExecFns;

use crate::text::{
    lemma_find_char_at, parse_u64, spec_count_char, spec_digits_val, spec_find_char,
    spec_parse_u64_ok, spec_trim, spec_u64_digits, trim_str,
};

verus! {

/// The parsed duration in seconds: a trimmed decimal number with an `s`,
/// `m` or `h` suffix, scaled accordingly; absent when the shape, the
/// number or the scaled value is no good.
pub open spec fn spec_parse_duration(s: Seq<char>) -> Option<int> {
    let t = spec_trim(s);
    if t.len() > 0 && t.last() == 's' && spec_parse_u64_ok(t.drop_last()) {
        Some(spec_digits_val(spec_u64_digits(t.drop_last())))
    } else if t.len() > 0 && t.last() == 'm' && spec_parse_u64_ok(t.drop_last())
        && spec_digits_val(spec_u64_digits(t.drop_last())) * 60 <= u64::MAX {
        Some(spec_digits_val(spec_u64_digits(t.drop_last())) * 60)
    } else if t.len() > 0 && t.last() == 'h' && spec_parse_u64_ok(t.drop_last())
        && spec_digits_val(spec_u64_digits(t.drop_last())) * 3600 <= u64::MAX {
        Some(spec_digits_val(spec_u64_digits(t.drop_last())) * 3600)
    } else {
        None
    }
}

/// The message a failed duration parse reports: the suffix decides which
/// number was bad, and a missing suffix has its own message.
pub open spec fn spec_duration_error(s: Seq<char>) -> Seq<char> {
    let t = spec_trim(s);
    if t.len() > 0 && t.last() == 's' {
        "Invalid seconds"@
    } else if t.len() > 0 && t.last() == 'm' {
        "Invalid minutes"@
    } else if t.len() > 0 && t.last() == 'h' {
        "Invalid hours"@
    } else {
        "Duration must end with 's', 'm', or 'h'"@
    }
}

/// Parse a duration of the form `30s`, `5m` or `2h` into seconds,
/// trimming surrounding whitespace first.
pub fn parse_duration(s: &str) -> (r: Result<u64, String>)
    ensures
        r is Ok <==> spec_parse_duration(s@) is Some,
        r matches Ok(v) ==> spec_parse_duration(s@) == Some(v as int),
        r matches Err(e) ==> e@ == spec_duration_error(s@),
{
    let t = trim_str(s);
    let tn = t.unicode_len();
    if tn == 0 {
        return Err("Duration must end with 's', 'm', or 'h'".to_owned());
    }
    let suffix = t.get_char(tn - 1);
    let num = t.substring_char(0, tn - 1);
    proof {
        assert(num@ =~= t@.drop_last());
    }
    if suffix == 's' {
        match parse_u64(num) {
            Some(v) => Ok(v),
            None => Err("Invalid seconds".to_owned()),
        }
    } else if suffix == 'm' {
        match parse_u64(num) {
            Some(v) => {
                if v <= u64::MAX / 60 {
                    Ok(v * 60)
                } else {
                    Err("Invalid minutes".to_owned())
                }
            },
            None => Err("Invalid minutes".to_owned()),
        }
    } else if suffix == 'h' {
        match parse_u64(num) {
            Some(v) => {
                if v <= u64::MAX / 3600 {
                    Ok(v * 3600)
                } else {
                    Err("Invalid hours".to_owned())
                }
            },
            None => Err("Invalid hours".to_owned()),
        }
    } else {
        Err("Duration must end with 's', 'm', or 'h'".to_owned())
    }
}

/// A batch load pattern: `batch_size` games fired together every
/// `interval_secs` seconds.
#[derive(Clone, Copy, Debug, PartialEq, Eq, Structural)]
pub struct BatchPattern {
    pub batch_size: u32,
    pub interval_secs: u64,
}

impl BatchPattern {
    /// Parse a batch pattern of the form `count,interval`, e.g. `100,30s`:
    /// exactly one comma, a positive 32-bit count, and a duration, both
    /// trimmed.
    pub fn from_str(s: &str) -> (r: Result<BatchPattern, String>)
        ensures
            spec_count_char(s@, ',') != 1 ==> (r matches Err(e) && e@
                == "Batch format: 'count,interval' (e.g., '100,30s')"@),
            spec_count_char(s@, ',') == 1 ==> {
                let k = spec_find_char(s@, ',');
                let p0 = spec_trim(s@.subrange(0, k));
                let p1 = spec_trim(s@.subrange(k + 1, s@.len() as int));
                let count_ok = spec_parse_u64_ok(p0) && spec_digits_val(spec_u64_digits(p0))
                    <= u32::MAX;
                if !count_ok {
                    r matches Err(e) && e@ == "Invalid batch size"@
                } else if spec_parse_duration(p1) is None {
                    r matches Err(e) && e@ == spec_duration_error(p1)
                } else if spec_digits_val(spec_u64_digits(p0)) == 0 {
                    r matches Err(e) && e@ == "Batch size must be positive"@
                } else {
                    r matches Ok(b) && b.batch_size == spec_digits_val(spec_u64_digits(p0))
                        && Some(b.interval_secs as int) == spec_parse_duration(p1)
                }
            },
    {
        let n = s.unicode_len();
        let mut commas: usize = 0;
        let mut first_comma: usize = 0;
        let mut j: usize = 0;
        while j < n
            invariant
                0 <= j <= n,
                n == s@.len(),
                commas == spec_count_char(s@.subrange(0, j as int), ','),
                commas <= j,
                commas == 0 ==> forall|i: int| 0 <= i < j ==> s@[i] != ',',
                commas > 0 ==> 0 <= first_comma < j && s@[first_comma as int] == ','
                    && (forall|i: int| 0 <= i < first_comma ==> s@[i] != ','),
            decreases n - j,
        {
            proof {
                assert(s@.subrange(0, j + 1).drop_last() =~= s@.subrange(0, j as int));
                assert(s@.subrange(0, j + 1).last() == s@[j as int]);
            }
            let c = s.get_char(j);
            if c == ',' {
                if commas == 0 {
                    first_comma = j;
                }
                commas += 1;
            }
            j += 1;
        }
        proof {
            assert(s@.subrange(0, n as int) =~= s@);
        }
        if commas != 1 {
            return Err("Batch format: 'count,interval' (e.g., '100,30s')".to_owned());
        }
        proof {
            lemma_find_char_at(s@, ',', first_comma as int);
        }
        let part0 = s.substring_char(0, first_comma);
        let part1 = s.substring_char(first_comma + 1, n);
        let p0 = trim_str(part0);
        let p1 = trim_str(part1);
        let batch_size = match parse_u64(p0) {
            Some(v) => {
                if v <= u32::MAX as u64 {
                    v as u32
                } else {
                    return Err("Invalid batch size".to_owned());
                }
            },
            None => {
                return Err("Invalid batch size".to_owned());
            },
        };
        let interval_secs = match parse_duration(p1) {
            Ok(v) => v,
            Err(e) => {
                return Err(e);
            },
        };
        if batch_size == 0 {
            return Err("Batch size must be positive".to_owned());
        }
        Ok(BatchPattern { batch_size, interval_secs })
    }
}

} // verus!
