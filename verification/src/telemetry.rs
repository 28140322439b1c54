//! Trace propagation: turning an incoming `X-Cloud-Trace-Context` header
//! into the trace path a structured log line carries.

use vstd::prelude::*;
use vstd::string::StrSliceExecFns;
use vstd::string::StringExecFns;

use crate::text::{lemma_find_char_at, spec_find_char};

verus! {

/// A trace path stored in a span, ready for the log formatter.
pub struct TraceContext(pub String);

/// The trace path for a header of the form `TRACE_ID/SPAN_ID;o=1`:
/// `projects/{project_id}/traces/{trace_id}`, where the trace id is
/// everything before the first `/`. A header with an empty trace id yields
/// nothing.
pub open spec fn spec_trace_path(project_id: Seq<char>, header: Seq<char>) -> Option<Seq<char>> {
    let k = spec_find_char(header, '/');
    if k == 0 {
        None
    } else {
        Some("projects/"@ + project_id + "/traces/"@ + header.subrange(0, k))
    }
}

/// Build the trace path from a project id and the raw header value.
pub fn trace_path(project_id: &str, header_value: &str) -> (r: Option<String>)
    ensures
        r is Some <==> spec_trace_path(project_id@, header_value@) is Some,
        r matches Some(p) ==> Some(p@) == spec_trace_path(project_id@, header_value@),
{
    let n = header_value.unicode_len();
    let mut k: usize = 0;
    loop
        invariant
            0 <= k <= n,
            n == header_value@.len(),
            forall|i: int| 0 <= i < k ==> header_value@[i] != '/',
        ensures
            0 <= k <= n,
            forall|i: int| 0 <= i < k ==> header_value@[i] != '/',
            k < n ==> header_value@[k as int] == '/',
        decreases n - k,
    {
        if k >= n {
            break ;
        }
        let c = header_value.get_char(k);
        if c == '/' {
            break ;
        }
        k += 1;
    }
    proof {
        if k < n {
            lemma_find_char_at(header_value@, '/', k as int);
        } else {
            lemma_find_char_missing(header_value@, '/');
        }
        assert(spec_find_char(header_value@, '/') == k);
    }
    if k == 0 {
        return None;
    }
    let trace_id = header_value.substring_char(0, k);
    let mut out = "projects/".to_owned();
    out.append(project_id);
    out.append("/traces/");
    out.append(trace_id);
    proof {
        assert(out@ =~= "projects/"@ + project_id@ + "/traces/"@ + header_value@.subrange(
            0,
            k as int,
        ));
    }
    Some(out)
}

/// When a character occurs nowhere, the search lands past the end.
proof fn lemma_find_char_missing(s: Seq<char>, c: char)
    requires
        forall|i: int| 0 <= i < s.len() ==> s[i] != c,
    ensures
        spec_find_char(s, c) == s.len(),
    decreases s.len(),
{
    if s.len() > 0 {
        lemma_find_char_missing(s.drop_first(), c);
    }
}

} // verus!
