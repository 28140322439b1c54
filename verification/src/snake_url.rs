//! Building the per-endpoint URLs of the snake protocol: the endpoint
//! segment (`start`, `move`, `end`) is appended to the base URL's path,
//! trailing slashes on the base path are collapsed, and any query string is
//! preserved in place.
//!
//! Parsing and re-serializing the URL is the `url` crate's work; the
//! trimming and joining of the path — and the string fallback for bases the
//! crate cannot parse — are verified here.

use vstd::prelude::*;
use vstd::string::StrSliceExecFns;
use vstd::string::StringExecFns;

verus! {

/// Whether `url::Url::parse` accepts the string: a deterministic function
/// of the string alone.
pub uninterp spec fn spec_url_parses(base: Seq<char>) -> bool;

/// The path component `url::Url::path` reports for the parsed string: a
/// deterministic function of the string alone.
pub uninterp spec fn spec_url_path(base: Seq<char>) -> Seq<char>;

/// The serialization of the parsed base after its path is replaced via
/// `url::Url::set_path`: a deterministic function of base and path alone.
pub uninterp spec fn spec_url_with_path(base: Seq<char>, path: Seq<char>) -> Seq<char>;

/// Relies on `url::Url::parse` and `url::Url::path`: both are
/// deterministic in the input string; `path` returns the percent-encoded
/// path component of the parsed URL.
#[verifier::external_body]
fn url_path_of(base: &str) -> (r: Option<String>)
    ensures
        r is Some <==> spec_url_parses(base@),
        r matches Some(p) ==> p@ == spec_url_path(base@),
{
    match url::Url::parse(base) {
        Ok(u) => Some(u.path().to_owned()),
        Err(_) => None,
    }
}

/// Relies on `url::Url::parse`, `url::Url::set_path` and `url::Url::as_str`:
/// the serialization after replacing the path is deterministic in the base
/// and the new path; `set_path` leaves scheme, host, port, query and
/// fragment in place.
#[verifier::external_body]
fn url_replace_path(base: &str, path: &str) -> (r: Option<String>)
    ensures
        r is Some <==> spec_url_parses(base@),
        r matches Some(u) ==> u@ == spec_url_with_path(base@, path@),
{
    match url::Url::parse(base) {
        Ok(mut u) => {
            u.set_path(path);
            Some(u.as_str().to_owned())
        },
        Err(_) => None,
    }
}

/// The string with every trailing `/` removed.
pub open spec fn spec_trim_trailing_slashes(s: Seq<char>) -> Seq<char>
    decreases s.len(),
{
    if s.len() > 0 && s.last() == '/' {
        spec_trim_trailing_slashes(s.drop_last())
    } else {
        s
    }
}

/// A path and an endpoint joined with exactly one slash: the path with its
/// trailing slashes collapsed, then `/`, then the endpoint.
pub open spec fn spec_joined(path: Seq<char>, endpoint: Seq<char>) -> Seq<char> {
    spec_trim_trailing_slashes(path) + seq!['/'] + endpoint
}

/// A path with its trailing slashes collapsed never ends in a slash.
pub proof fn lemma_trim_no_trailing_slash(s: Seq<char>)
    ensures
        ({
            let t = spec_trim_trailing_slashes(s);
            t.len() == 0 || t.last() != '/'
        }),
    decreases s.len(),
{
    if s.len() > 0 && s.last() == '/' {
        lemma_trim_no_trailing_slash(s.drop_last());
    }
}

/// The join puts exactly one slash at the boundary: the result is the
/// collapsed base path, one `/`, then the endpoint verbatim — so the path
/// ends with `/` and the endpoint, and the join itself introduces no empty
/// segment.
pub proof fn lemma_joined_single_slash(path: Seq<char>, endpoint: Seq<char>)
    ensures
        ({
            let t = spec_trim_trailing_slashes(path);
            let j = spec_joined(path, endpoint);
            &&& j.len() == t.len() + 1 + endpoint.len()
            &&& j[t.len() as int] == '/'
            &&& (t.len() > 0 ==> j[t.len() - 1] != '/')
            &&& j.skip(t.len() as int) == seq!['/'] + endpoint
        }),
{
    lemma_trim_no_trailing_slash(path);
    let t = spec_trim_trailing_slashes(path);
    let j = spec_joined(path, endpoint);
    assert(j.skip(t.len() as int) =~= seq!['/'] + endpoint);
}

/// Length of `s` once trailing slashes are dropped.
fn trimmed_len(s: &str) -> (n: usize)
    ensures
        n <= s@.len(),
        spec_trim_trailing_slashes(s@) == s@.subrange(0, n as int),
{
    let mut n: usize = s.unicode_len();
    proof {
        assert(s@.subrange(0, s@.len() as int) =~= s@);
    }
    loop
        invariant
            0 <= n <= s@.len(),
            spec_trim_trailing_slashes(s@) == spec_trim_trailing_slashes(
                s@.subrange(0, n as int),
            ),
        ensures
            0 <= n <= s@.len(),
            spec_trim_trailing_slashes(s@) == s@.subrange(0, n as int),
        decreases n,
    {
        if n == 0 {
            proof {
                assert(s@.subrange(0, 0) =~= Seq::<char>::empty());
            }
            break ;
        }
        let c = s.get_char(n - 1);
        if c != '/' {
            proof {
                assert(s@.subrange(0, n as int).last() == s@[n - 1]);
            }
            break ;
        }
        proof {
            assert(s@.subrange(0, n as int).last() == s@[n - 1]);
            assert(s@.subrange(0, n as int).drop_last() =~= s@.subrange(0, n - 1));
        }
        n -= 1;
    }
    n
}

/// Join a path and an endpoint segment with exactly one slash.
fn join_endpoint_path(path: &str, endpoint: &str) -> (r: String)
    ensures
        r@ == spec_joined(path@, endpoint@),
{
    let n = trimmed_len(path);
    let prefix = path.substring_char(0, n);
    let mut out = prefix.to_owned();
    out.append("/");
    out.append(endpoint);
    proof {
        reveal_strlit("/");
        assert(out@ =~= spec_joined(path@, endpoint@));
    }
    out
}

/// Build the URL for one endpoint of a snake server.
///
/// A parseable base keeps its scheme, host, port and query; the endpoint
/// segment is appended to its path with trailing slashes collapsed, so the
/// path gains no empty segment. A base the `url` crate rejects falls back
/// to plain string concatenation with the same slash handling.
pub fn build_endpoint_url(base_url: &str, endpoint: &str) -> (r: String)
    ensures
        spec_url_parses(base_url@) ==> r@ == spec_url_with_path(
            base_url@,
            spec_joined(spec_url_path(base_url@), endpoint@),
        ),
        !spec_url_parses(base_url@) ==> r@ == spec_joined(base_url@, endpoint@),
{
    match url_path_of(base_url) {
        Some(path) => {
            let new_path = join_endpoint_path(path.as_str(), endpoint);
            match url_replace_path(base_url, new_path.as_str()) {
                Some(u) => u,
                None => vstd::pervasive::unreached(),
            }
        },
        None => join_endpoint_path(base_url, endpoint),
    }
}

} // verus!
