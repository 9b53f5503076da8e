//! The request side of the server: parsing the request line, routing the
//! requested path, deciding the response status, and formatting the
//! response text.
//!
//! Parsing policy, chosen deliberately for compatibility with the tests
//! this crate carries: the method is recognized by scanning the request
//! line for each of the nine known tokens in a fixed order and keeping
//! the last one found anywhere in the line (default `GET`); the version
//! is the text from the last occurrence of `"HTTP/"` to the end of the
//! line (default `HTTP/1.1`); the path is what stands between them.

use vstd::prelude::*;

use crate::decimal::dec_rep;
use crate::decimal::dec_val;
use crate::decimal::lemma_dec_rep_round_trip;
use crate::text::eq_str;
use crate::text::first_line;
use crate::text::last_occurrence;
use crate::text::lemma_last_occurrence_is;
use crate::text::occurs;
use crate::text::occurs_at;
use crate::text::occurs_str;
use crate::text::rfind_str;
use crate::text::spec_first_line;

verus! {

/// Whether `t` is one of the nine recognized method tokens.
pub open spec fn is_method_token(t: Seq<char>) -> bool {
    ||| t == "GET"@
    ||| t == "HEAD"@
    ||| t == "POST"@
    ||| t == "PUT"@
    ||| t == "DELETE"@
    ||| t == "CONNECT"@
    ||| t == "OPTIONS"@
    ||| t == "TRACE"@
    ||| t == "PATCH"@
}

/// The method the scan settles on: the last token, in the fixed list
/// order `GET, HEAD, POST, PUT, DELETE, CONNECT, OPTIONS, TRACE, PATCH`,
/// that occurs anywhere in the line; `GET` when none occurs.
pub open spec fn chosen_method(line: Seq<char>) -> Seq<char> {
    if occurs(line, "PATCH"@) {
        "PATCH"@
    } else if occurs(line, "TRACE"@) {
        "TRACE"@
    } else if occurs(line, "OPTIONS"@) {
        "OPTIONS"@
    } else if occurs(line, "CONNECT"@) {
        "CONNECT"@
    } else if occurs(line, "DELETE"@) {
        "DELETE"@
    } else if occurs(line, "PUT"@) {
        "PUT"@
    } else if occurs(line, "POST"@) {
        "POST"@
    } else if occurs(line, "HEAD"@) {
        "HEAD"@
    } else {
        "GET"@
    }
}

/// The protocol version the scan settles on: from the last occurrence of
/// `"HTTP/"` to the end of the line, or `HTTP/1.1` when `"HTTP/"` does
/// not occur.
pub open spec fn spec_version(line: Seq<char>) -> Seq<char> {
    if occurs(line, "HTTP/"@) {
        line.subrange(last_occurrence(line, "HTTP/"@), line.len() as int)
    } else {
        "HTTP/1.1"@
    }
}

/// What parsing a whole request yields: the method, path and version
/// taken from the first line, or nothing when the line is too short to
/// hold a path between the method and the version.
pub open spec fn spec_parse(req: Seq<char>) -> Option<(Seq<char>, Seq<char>, Seq<char>)> {
    let line = spec_first_line(req);
    let m = chosen_method(line);
    let v = spec_version(line);
    if m.len() + v.len() + 2 <= line.len() {
        Some((m, line.subrange(m.len() + 1 as int, line.len() - v.len() - 1), v))
    } else {
        None
    }
}

/// Parse the first line of a request into `(method, path, version)`.
/// Returns `None` when the line has no room for a path between the
/// recognized method and the version, where indexing would otherwise
/// go out of bounds.
pub fn parse_http_info(http_req_str: &str) -> (r: Option<(String, String, String)>)
    ensures
        match r {
            Some(t) => spec_parse(http_req_str@) == Some((t.0@, t.1@, t.2@)),
            None => spec_parse(http_req_str@) is None,
        },
{
    let line_string = first_line(http_req_str);
    let line: &str = line_string.as_str();
    let method: &str = if occurs_str(line, "PATCH") {
        "PATCH"
    } else if occurs_str(line, "TRACE") {
        "TRACE"
    } else if occurs_str(line, "OPTIONS") {
        "OPTIONS"
    } else if occurs_str(line, "CONNECT") {
        "CONNECT"
    } else if occurs_str(line, "DELETE") {
        "DELETE"
    } else if occurs_str(line, "PUT") {
        "PUT"
    } else if occurs_str(line, "POST") {
        "POST"
    } else if occurs_str(line, "HEAD") {
        "HEAD"
    } else {
        "GET"
    };
    assert(method@ == chosen_method(line@));
    let llen = line.unicode_len();
    let version: String = match rfind_str(line, "HTTP/") {
        Some(i) => String::from_str(line.substring_char(i, llen)),
        None => String::from_str("HTTP/1.1"),
    };
    assert(version@ == spec_version(line@));
    let mlen = method.unicode_len();
    let vlen = version.as_str().unicode_len();
    if mlen < llen && vlen < llen && mlen + 1 <= llen - vlen - 1 {
        let path = line.substring_char(mlen + 1, llen - vlen - 1);
        let r = Some((String::from_str(method), String::from_str(path), version));
        assert(spec_parse(http_req_str@) == Some((method@, path@, r.unwrap().2@)));
        r
    } else {
        assert(!(chosen_method(line@).len() + spec_version(line@).len() + 2 <= line@.len()));
        None
    }
}

/// Where a request path leads: `"/"` is the site index, every other
/// path stands for itself.
pub open spec fn spec_route(p: Seq<char>) -> Seq<char> {
    if p == "/"@ {
        "/index.html"@
    } else {
        p
    }
}

/// Map the requested path to the file path it stands for.
pub fn route_path(req_path: &str) -> (r: String)
    ensures
        r@ == spec_route(req_path@),
{
    if eq_str(req_path, "/") {
        String::from_str("/index.html")
    } else {
        String::from_str(req_path)
    }
}

/// Whether the path is the diagnostic route that asks the handling
/// worker to stall for five seconds before responding. The caller
/// performs the delay; this crate only identifies the route.
pub fn is_sleep_route(req_path: &str) -> (b: bool)
    ensures
        b == (req_path@ == "/sleep.html"@),
{
    eq_str(req_path, "/sleep.html")
}

/// The candidate file for a requested path: the document root followed
/// by the routed path.
pub fn candidate_file_path(root: &str, req_path: &str) -> (r: String)
    ensures
        r@ == root@ + spec_route(req_path@),
{
    let routed = route_path(req_path);
    String::from_str(root).concat(routed.as_str())
}

/// The status line for a response: the request's version followed by
/// `200 OK` or `404 NOT FOUND`.
pub open spec fn spec_status_line(v: Seq<char>, found: bool) -> Seq<char> {
    if found {
        v + " 200 OK"@
    } else {
        v + " 404 NOT FOUND"@
    }
}

/// What answering a request yields: the status line and the file to
/// serve. `file_exists` is the caller's report on whether the candidate
/// file (`root` + routed path) exists; only a `GET` for an existing file
/// is served as found, everything else falls back to the `404` page.
pub open spec fn spec_get_response(req: Seq<char>, root: Seq<char>, file_exists: bool) -> Option<
    (Seq<char>, Seq<char>),
> {
    match spec_parse(req) {
        Some(info) => {
            if info.0 == "GET"@ && file_exists {
                Some((spec_status_line(info.2, true), root + spec_route(info.1)))
            } else {
                Some((spec_status_line(info.2, false), root + "/404.html"@))
            }
        },
        None => None,
    }
}

/// Decide the status line and the file path to serve for a request.
/// `file_exists` reports whether the candidate file exists; the caller
/// checks it on `candidate_file_path(root, path)` for the parsed path.
/// Returns `None` exactly when the request line does not parse.
pub fn get_response(http_req_str: &str, root: &str, file_exists: bool) -> (r: Option<
    (String, String),
>)
    ensures
        match r {
            Some(t) => spec_get_response(http_req_str@, root@, file_exists) == Some(
                (t.0@, t.1@),
            ),
            None => spec_get_response(http_req_str@, root@, file_exists) is None,
        },
{
    match parse_http_info(http_req_str) {
        Some(info) => {
            let (method, req_path, version) = info;
            if eq_str(method.as_str(), "GET") && file_exists {
                let status_line = version.concat(" 200 OK");
                let path = candidate_file_path(root, req_path.as_str());
                Some((status_line, path))
            } else {
                let status_line = version.concat(" 404 NOT FOUND");
                let path = String::from_str(root).concat("/404.html");
                Some((status_line, path))
            }
        },
        None => None,
    }
}

/// The number of bytes the UTF-8 encoding of `s` takes; for ASCII text
/// it equals the number of characters.
pub open spec fn byte_len(s: Seq<char>) -> nat {
    vstd::utf8::encode_utf8(s).len()
}

/// The full response text: the status line, a `Content-Length` header
/// declaring the body's byte length, a blank line, and the body.
pub open spec fn spec_build_response(status_line: Seq<char>, body: Seq<char>) -> Seq<char> {
    status_line + "\r\nContent-Length: "@ + dec_rep(byte_len(body)) + "\r\n\r\n"@ + body
}

/// Format the response for a status line and a body.
pub fn build_response(status_line: &str, contents: &str) -> (r: String)
    ensures
        r@ == spec_build_response(status_line@, contents@),
{
    let n = contents.as_bytes().len();
    assert(n as nat == byte_len(contents@));
    let digits = crate::decimal::usize_to_string(n);
    String::from_str(status_line).concat("\r\nContent-Length: ").concat(digits.as_str()).concat(
        "\r\n\r\n",
    ).concat(contents)
}

/// Law: every response declares a `Content-Length` that reads back as
/// exactly the byte length of the body it carries, and the body follows
/// the blank line unchanged.
pub proof fn lemma_content_length_matches_body(status_line: Seq<char>, body: Seq<char>)
    ensures
        spec_build_response(status_line, body) == status_line + "\r\nContent-Length: "@ + dec_rep(
            byte_len(body),
        ) + "\r\n\r\n"@ + body,
        dec_val(dec_rep(byte_len(body))) == byte_len(body),
{
    lemma_dec_rep_round_trip(byte_len(body));
}

/// Law: a request whose method is anything but `GET` is answered with
/// the `404` status and the `404` page, whether or not the requested
/// file exists.
pub proof fn lemma_non_get_is_404(req: Seq<char>, root: Seq<char>, file_exists: bool)
    requires
        spec_parse(req) is Some,
        spec_parse(req).unwrap().0 != "GET"@,
    ensures
        spec_get_response(req, root, file_exists) == Some(
            (spec_parse(req).unwrap().2 + " 404 NOT FOUND"@, root + "/404.html"@),
        ),
{
}

/// The first line of a request of the form `"<METHOD> <PATH> <VERSION>\r\n"`.
pub open spec fn request_line(m: Seq<char>, p: Seq<char>, v: Seq<char>) -> Seq<char> {
    m + " "@ + p + " "@ + v
}

/// Law: parsing a well-formed request line `"<METHOD> <PATH> <VERSION>\r\n"`
/// returns exactly `(METHOD, PATH, VERSION)`, provided the scan cannot be
/// misled: the method is one of the nine recognized tokens and no other
/// token occurs anywhere in the line; the version begins with `"HTTP/"`
/// and `"HTTP/"` recurs nowhere later in it; and none of the three parts
/// contains a newline. A line such as `"GET /POST.html HTTP/1.1\r\n"`,
/// where a token occurs inside the path, is parsed with method `POST`
/// instead — the deliberate last-token-wins policy — and so stands
/// outside this law.
pub proof fn lemma_parse_well_formed(m: Seq<char>, p: Seq<char>, v: Seq<char>)
    requires
        is_method_token(m),
        forall|t: Seq<char>| is_method_token(t) && t != m ==> !occurs(request_line(m, p, v), t),
        v.len() >= 5,
        v.subrange(0, 5) == "HTTP/"@,
        forall|j: int| 1 <= j ==> !occurs_at(v, "HTTP/"@, j),
        !m.contains('\n'),
        !p.contains('\n'),
        !v.contains('\n'),
    ensures
        spec_parse(request_line(m, p, v) + "\r\n"@) == Some((m, p, v)),
{
    reveal_strlit(" ");
    reveal_strlit("\r\n");
    reveal_strlit("GET");
    reveal_strlit("HEAD");
    reveal_strlit("POST");
    reveal_strlit("PUT");
    reveal_strlit("DELETE");
    reveal_strlit("CONNECT");
    reveal_strlit("OPTIONS");
    reveal_strlit("TRACE");
    reveal_strlit("PATCH");
    reveal_strlit("HTTP/");
    let line = request_line(m, p, v);
    let req = line + "\r\n"@;
    let ml = m.len() as int;
    let pl = p.len() as int;
    let vl = v.len() as int;
    let ll = line.len() as int;
    assert(ll == ml + 1 + pl + 1 + vl);
    assert(req.len() == ll + 2);

    // The first line of the request is exactly `line`.
    assert forall|k: int| 0 <= k < ll + 1 implies req[k] != '\n' by {
        if req[k] == '\n' {
            if k < ll {
                assert(req[k] == line[k]);
                if k < ml {
                    assert(line[k] == m[k]);
                    assert(m.contains('\n'));
                } else if k == ml {
                    assert(line[k] == ' ');
                } else if k < ml + 1 + pl {
                    assert(line[k] == p[k - ml - 1]);
                    assert(p.contains('\n'));
                } else if k == ml + 1 + pl {
                    assert(line[k] == ' ');
                } else {
                    assert(line[k] == v[k - ml - pl - 2]);
                    assert(v.contains('\n'));
                }
            } else {
                assert(req[k] == '\r');
            }
        }
    };
    assert(req[ll + 1] == '\n');
    assert(crate::text::line_end_at(req, ll + 1));
    crate::text::lemma_line_end_is(req, ll + 1);
    let raw = req.subrange(0, ll + 1);
    assert(raw.last() == req[ll] && req[ll] == '\r');
    assert(raw.drop_last() =~= line);
    assert(spec_first_line(req) == line);

    // The scan settles on exactly `m`.
    assert(line.subrange(0, ml) =~= m);
    assert(occurs_at(line, m, 0));
    assert(occurs(line, m));
    if m != "PATCH"@ {
        assert(is_method_token("PATCH"@));
        assert(!occurs(request_line(m, p, v), "PATCH"@));
        assert(!occurs(line, "PATCH"@));
    }
    if m != "TRACE"@ {
        assert(is_method_token("TRACE"@));
        assert(!occurs(request_line(m, p, v), "TRACE"@));
        assert(!occurs(line, "TRACE"@));
    }
    if m != "OPTIONS"@ {
        assert(is_method_token("OPTIONS"@));
        assert(!occurs(request_line(m, p, v), "OPTIONS"@));
        assert(!occurs(line, "OPTIONS"@));
    }
    if m != "CONNECT"@ {
        assert(is_method_token("CONNECT"@));
        assert(!occurs(request_line(m, p, v), "CONNECT"@));
        assert(!occurs(line, "CONNECT"@));
    }
    if m != "DELETE"@ {
        assert(is_method_token("DELETE"@));
        assert(!occurs(request_line(m, p, v), "DELETE"@));
        assert(!occurs(line, "DELETE"@));
    }
    if m != "PUT"@ {
        assert(is_method_token("PUT"@));
        assert(!occurs(request_line(m, p, v), "PUT"@));
        assert(!occurs(line, "PUT"@));
    }
    if m != "POST"@ {
        assert(is_method_token("POST"@));
        assert(!occurs(request_line(m, p, v), "POST"@));
        assert(!occurs(line, "POST"@));
    }
    if m != "HEAD"@ {
        assert(is_method_token("HEAD"@));
        assert(!occurs(request_line(m, p, v), "HEAD"@));
        assert(!occurs(line, "HEAD"@));
    }
    assert(chosen_method(line) == m);

    // The last occurrence of "HTTP/" in the line is where `v` begins.
    let mp = ml + 1 + pl + 1;
    assert(line.subrange(mp, mp + 5) =~= v.subrange(0, 5));
    assert(occurs_at(line, "HTTP/"@, mp));
    assert forall|j: int| j > mp implies !occurs_at(line, "HTTP/"@, j) by {
        if occurs_at(line, "HTTP/"@, j) {
            let off = j - mp;
            assert(j + 5 <= ll);
            assert(1 <= off && off + 5 <= vl);
            assert(line.subrange(j, j + 5) =~= v.subrange(off, off + 5));
            assert(occurs_at(v, "HTTP/"@, off));
        }
    };
    lemma_last_occurrence_is(line, "HTTP/"@, mp);
    assert(occurs(line, "HTTP/"@));
    assert(line.subrange(mp, ll) =~= v);
    assert(spec_version(line) == v);

    // The path is what stands between the method and the version.
    assert(line.subrange(ml + 1, ll - vl - 1) =~= p);
    assert(spec_parse(req) == Some((m, p, v)));
}

} // verus!
