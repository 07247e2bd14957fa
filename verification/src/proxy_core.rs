//! The routing gate and the outbound request construction: which paths are
//! proxied at all, how the upstream URL is assembled, which methods carry a
//! body, and which headers cross the proxy boundary.

use vstd::prelude::*;

verus! {

use vstd::string::StrSliceExecFns;
use vstd::string::StringExecFns;

/// A path is in scope exactly when it begins with the literal prefix `/v1`.
pub open spec fn in_scope(p: Seq<char>) -> bool {
    p.len() >= 3 && p[0] == '/' && p[1] == 'v' && p[2] == '1'
}

/// The admission gate: only paths under `/v1` are forwarded upstream;
/// every other path is answered locally with the fixed not-found response.
pub fn is_proxy_path(path: &str) -> (r: bool)
    ensures
        r == in_scope(path@),
{
    path.unicode_len() >= 3 && path.get_char(0) == '/' && path.get_char(1) == 'v'
        && path.get_char(2) == '1'
}

/// Character-for-character string equality, stated over the views.
pub fn str_eq(a: &str, b: &str) -> (r: bool)
    ensures
        r == (a@ == b@),
{
    let a_len = a.unicode_len();
    let b_len = b.unicode_len();
    if a_len != b_len {
        proof {
            assert(a@ != b@) by {
                assert(a@.len() != b@.len());
            }
        }
        return false;
    }
    let mut i: usize = 0;
    while i < a_len
        invariant
            i <= a_len,
            a_len == a@.len(),
            b_len == b@.len(),
            a_len == b_len,
            forall|j: int| 0 <= j < i ==> a@[j] == b@[j],
        decreases a_len - i,
    {
        if a.get_char(i) != b.get_char(i) {
            return false;
        }
        i += 1;
    }
    proof {
        assert(a@ =~= b@);
    }
    true
}

/// A method carries a body exactly when it is POST, PUT or PATCH; all other
/// methods are forwarded without reading or rewriting a body.
pub fn should_have_body(method: &str) -> (r: bool)
    ensures
        r == (method@ == "POST"@ || method@ == "PUT"@ || method@ == "PATCH"@),
{
    str_eq(method, "POST") || str_eq(method, "PUT") || str_eq(method, "PATCH")
}

/// One character of a case-insensitive match: `c` equals the lower-case
/// letter `l` directly, or is its upper-case form.
pub open spec fn ci_char(c: char, l: char) -> bool {
    c == l || (97 <= l as int <= 122 && c as int == l as int - 32)
}

/// `s` equals `low` up to ASCII case, where `low` is already lower-case.
pub open spec fn matches_ci(s: Seq<char>, low: Seq<char>) -> bool {
    s.len() == low.len() && forall|i: int| 0 <= i < s.len() ==> ci_char(s[i], low[i])
}

/// Whether `name` matches the lower-case string `low` up to ASCII case.
fn eq_ignore_case(name: &str, low: &str) -> (r: bool)
    ensures
        r == matches_ci(name@, low@),
{
    let n_len = name.unicode_len();
    let l_len = low.unicode_len();
    if n_len != l_len {
        return false;
    }
    let mut i: usize = 0;
    while i < n_len
        invariant
            i <= n_len,
            n_len == name@.len(),
            l_len == low@.len(),
            n_len == l_len,
            forall|j: int| 0 <= j < i ==> ci_char(name@[j], low@[j]),
        decreases n_len - i,
    {
        let c = name.get_char(i);
        let l = low.get_char(i);
        let cu = c as u32;
        let lu = l as u32;
        if !(c == l || (97 <= lu && lu <= 122 && cu + 32 == lu)) {
            return false;
        }
        i += 1;
    }
    true
}

/// A header crosses the proxy boundary unless its name is `host` or
/// `connection`, compared without regard to ASCII case: the proxy recomputes
/// `Host` for the new destination, and hop-by-hop `Connection` semantics must
/// not leak across it. Every other header is forwarded untouched.
pub fn should_forward_header(name: &str) -> (r: bool)
    ensures
        r == !(matches_ci(name@, "host"@) || matches_ci(name@, "connection"@)),
{
    !(eq_ignore_case(name, "host") || eq_ignore_case(name, "connection"))
}

/// The fixed body of the local not-found answer, sent for every path out of
/// scope; no upstream contact is made for such a request.
pub fn not_found_body() -> (r: String)
    ensures
        r@ == "{\"msg\":\"not found\"}"@,
{
    "{\"msg\":\"not found\"}".to_owned()
}

/// Whether a header of this name crosses the proxy boundary.
pub open spec fn forwards(name: Seq<char>) -> bool {
    !(matches_ci(name, "host"@) || matches_ci(name, "connection"@))
}

/// The views of a list of header name/value pairs.
pub open spec fn header_views(s: Seq<(String, String)>) -> Seq<(Seq<char>, Seq<char>)> {
    Seq::new(s.len(), |i: int| (s[i].0@, s[i].1@))
}

/// The headers that cross the proxy boundary, in their original order, with
/// names and values untouched.
pub open spec fn kept_headers(hs: Seq<(Seq<char>, Seq<char>)>) -> Seq<(Seq<char>, Seq<char>)>
    decreases hs.len(),
{
    if hs.len() == 0 {
        Seq::empty()
    } else {
        kept_headers(hs.drop_last()) + if forwards(hs.last().0) {
            seq![hs.last()]
        } else {
            Seq::empty()
        }
    }
}

/// The header allow-list applied to a whole header set: exactly the headers
/// whose names pass [`should_forward_header`] survive, in order, unchanged.
pub fn forward_headers(headers: &Vec<(String, String)>) -> (r: Vec<(String, String)>)
    ensures
        header_views(r@) == kept_headers(header_views(headers@)),
{
    let ghost all = header_views(headers@);
    let mut out: Vec<(String, String)> = Vec::new();
    let mut i: usize = 0;
    while i < headers.len()
        invariant
            i <= headers@.len(),
            all == header_views(headers@),
            header_views(out@) == kept_headers(all.take(i as int)),
        decreases headers@.len() - i,
    {
        let ghost out_before = out@;
        if should_forward_header(headers[i].0.as_str()) {
            out.push((headers[i].0.clone(), headers[i].1.clone()));
        }
        proof {
            assert(all.take(i + 1).drop_last() =~= all.take(i as int));
            assert(all.take(i + 1).last() == all[i as int]);
            if forwards(all[i as int].0) {
                assert(header_views(out@) =~= header_views(out_before).push(
                    (headers@[i as int].0@, headers@[i as int].1@),
                ));
            }
            assert(header_views(out@) =~= kept_headers(all.take(i + 1)));
        }
        i += 1;
    }
    proof {
        assert(all.take(headers@.len() as int) =~= all);
    }
    out
}

/// The outbound request target: the configured upstream base, then the
/// original path byte-for-byte, then `?` and the original query when one was
/// present.
pub fn build_upstream_url(upstream_base: &str, path: &str, query: Option<&str>) -> (r: String)
    ensures
        query is None ==> r@ == upstream_base@ + path@,
        query matches Some(q) ==> r@ == upstream_base@ + path@ + "?"@ + q@,
{
    let mut url: String = upstream_base.to_owned();
    url.append(path);
    match query {
        Some(q) => {
            url.append("?");
            url.append(q);
        },
        None => {},
    }
    url
}

} // verus!
