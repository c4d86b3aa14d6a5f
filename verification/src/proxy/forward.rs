//! How a request for `/a/{id}/...` is relayed: the upstream path, the
//! method, which headers travel, and the status the caller sees.
use vstd::prelude::*;
use crate::text::{
    cat, cat3, eq_ignore_ascii_case, eq_ignore_case, lemma_ne_at, lemma_ne_len, owned,
    starts_with, starts_with_str, str_eq, trim, trimmed,
};
use crate::proxy::config::Upstream;

verus! {

/// Headers that never cross the proxy in either direction.
pub open spec fn hop_by_hop() -> Seq<Seq<char>> {
    seq![
        "connection"@,
        "keep-alive"@,
        "proxy-authenticate"@,
        "proxy-authorization"@,
        "te"@,
        "trailers"@,
        "transfer-encoding"@,
        "upgrade"@,
        "host"@,
        "content-length"@,
    ]
}

pub open spec fn is_hop_by_hop(name: Seq<char>) -> bool {
    exists|i: int| 0 <= i < hop_by_hop().len() && eq_ignore_case(#[trigger] hop_by_hop()[i], name)
}

/// Whether header `name` is a hop-by-hop header (ASCII case ignored).
pub fn hop_by_hop_header(name: &str) -> (r: bool)
    ensures
        r == is_hop_by_hop(name@),
{
    let list: [&str; 10] = [
        "connection",
        "keep-alive",
        "proxy-authenticate",
        "proxy-authorization",
        "te",
        "trailers",
        "transfer-encoding",
        "upgrade",
        "host",
        "content-length",
    ];
    proof {
        reveal_strlit("connection");
        reveal_strlit("keep-alive");
        reveal_strlit("proxy-authenticate");
        reveal_strlit("proxy-authorization");
        reveal_strlit("te");
        reveal_strlit("trailers");
        reveal_strlit("transfer-encoding");
        reveal_strlit("upgrade");
        reveal_strlit("host");
        reveal_strlit("content-length");
    }
    let ghost names = hop_by_hop();
    assert(forall|i: int| 0 <= i < 10 ==> (#[trigger] list@[i])@ == names[i]);
    let mut i: usize = 0;
    while i < 10
        invariant
            i <= 10,
            names == hop_by_hop(),
            forall|k: int| 0 <= k < 10 ==> (#[trigger] list@[k])@ == names[k],
            forall|k: int| 0 <= k < i ==> !eq_ignore_case(#[trigger] names[k], name@),
        decreases 10 - i,
    {
        if eq_ignore_ascii_case(list[i], name) {
            assert(eq_ignore_case(names[i as int], name@));
            return true;
        }
        i = i + 1;
    }
    false
}

/// Whether an inbound header is passed on to the agent: not hop-by-hop and
/// not the caller's own token, which the agent token replaces.
pub fn forwards_request_header(name: &str) -> (r: bool)
    ensures
        r == (!is_hop_by_hop(name@) && !eq_ignore_case(name@, "x-axleops-token"@)),
{
    !hop_by_hop_header(name) && !eq_ignore_ascii_case(name, "x-axleops-token")
}

/// The methods the proxy relays.
#[derive(PartialEq, Eq, Structural, Clone, Copy, Debug)]
pub enum HttpMethod {
    Get,
    Post,
    Put,
    Delete,
    Patch,
    Head,
    Options,
}

pub open spec fn method_of(m: Seq<char>) -> Option<HttpMethod> {
    if m == "GET"@ {
        Some(HttpMethod::Get)
    } else if m == "POST"@ {
        Some(HttpMethod::Post)
    } else if m == "PUT"@ {
        Some(HttpMethod::Put)
    } else if m == "DELETE"@ {
        Some(HttpMethod::Delete)
    } else if m == "PATCH"@ {
        Some(HttpMethod::Patch)
    } else if m == "HEAD"@ {
        Some(HttpMethod::Head)
    } else if m == "OPTIONS"@ {
        Some(HttpMethod::Options)
    } else {
        None
    }
}

pub fn parse_method(m: &str) -> (r: Option<HttpMethod>)
    ensures
        r == method_of(m@),
{
    if str_eq(m, "GET") {
        Some(HttpMethod::Get)
    } else if str_eq(m, "POST") {
        Some(HttpMethod::Post)
    } else if str_eq(m, "PUT") {
        Some(HttpMethod::Put)
    } else if str_eq(m, "DELETE") {
        Some(HttpMethod::Delete)
    } else if str_eq(m, "PATCH") {
        Some(HttpMethod::Patch)
    } else if str_eq(m, "HEAD") {
        Some(HttpMethod::Head)
    } else if str_eq(m, "OPTIONS") {
        Some(HttpMethod::Options)
    } else {
        None
    }
}

/// The upstream path for a target: empty means `/`; anything else must
/// already start with `/`.
pub open spec fn forward_path_of(t: Seq<char>) -> Option<Seq<char>> {
    if t.len() == 0 || t == "/"@ {
        Some("/"@)
    } else if starts_with(t, "/"@) {
        Some(t)
    } else {
        None
    }
}

/// What the proxy sends: method, full URL and the token for the agent.
pub struct ForwardPlan {
    pub method: HttpMethod,
    pub url: String,
    pub token: String,
}

/// The decisions `forward_to_agent` takes before it sends anything: a
/// target that does not start with `/` is answered 400, an unknown method
/// 405; otherwise the URL is the upstream base URL followed by the path,
/// and the agent token is the upstream token trimmed.
pub fn plan_forward(upstream: &Upstream, method: &str, target: &str) -> (r: Result<
    ForwardPlan,
    (u16, String),
>)
    ensures
        match forward_path_of(target@) {
            None => r matches Err((code, m)) && code == 400 && m@
                == "forward path must start with /"@,
            Some(p) => match method_of(method@) {
                None => r matches Err((code, m)) && code == 405 && m@ == "unsupported method "@
                    + method@,
                Some(mm) => r matches Ok(plan) && plan.method == mm && plan.url@
                    == upstream.base_url@ + p && plan.token@ == trim(upstream.token@),
            },
        },
{
    let path = if target.is_empty() || str_eq(target, "/") {
        owned("/")
    } else if starts_with_str(target, "/") {
        owned(target)
    } else {
        return Err((400, owned("forward path must start with /")));
    };
    let m = match parse_method(method) {
        Some(m) => m,
        None => return Err((405, cat("unsupported method ", method))),
    };
    Ok(ForwardPlan {
        method: m,
        url: cat(upstream.base_url.as_str(), path.as_str()),
        token: trimmed(upstream.token.as_str()),
    })
}

/// The status relayed for an agent's reply: any code a status line can
/// carry (100 to 999) passes unchanged, anything else becomes 502.
pub fn relayed_status(code: u16) -> (r: u16)
    ensures
        r == if 100 <= code <= 999 {
            code
        } else {
            502
        },
{
    if 100 <= code && code <= 999 {
        code
    } else {
        502
    }
}

/// The answer when the agent cannot be reached.
pub fn unreachable_reply(err: &str) -> (r: (u16, String))
    ensures
        r.0 == 502,
        r.1@ == "agent unreachable: "@ + err@,
{
    (502, cat("agent unreachable: ", err))
}

/// The answer when the agent's reply cannot be read.
pub fn unreadable_reply(err: &str) -> (r: (u16, String))
    ensures
        r.0 == 502,
        r.1@ == "failed to read agent response: "@ + err@,
{
    (502, cat("failed to read agent response: ", err))
}

pub open spec fn join_path_query_of(rest: Option<Seq<char>>, query: Option<Seq<char>>) -> Seq<
    char,
> {
    let path = match rest {
        None => "/"@,
        Some(p) => if p.len() == 0 {
            "/"@
        } else if starts_with(p, "/"@) {
            p
        } else {
            "/"@ + p
        },
    };
    match query {
        Some(q) => path + "?"@ + q,
        None => path,
    }
}

/// Path and query for the upstream, from the remainder after `/a/{id}` and
/// the request's query string.
pub fn join_path_query(rest: Option<&str>, query: Option<&str>) -> (r: String)
    ensures
        r@ == join_path_query_of(
            match rest {
                Some(p) => Some(p@),
                None => None,
            },
            match query {
                Some(q) => Some(q@),
                None => None,
            },
        ),
{
    let path = match rest {
        None => owned("/"),
        Some(p) => if p.is_empty() {
            owned("/")
        } else if starts_with_str(p, "/") {
            owned(p)
        } else {
            cat("/", p)
        },
    };
    match query {
        Some(q) => cat3(path.as_str(), "?", q),
        None => path,
    }
}

/// The name a method is sent under.
pub open spec fn method_name(m: HttpMethod) -> Seq<char> {
    match m {
        HttpMethod::Get => "GET"@,
        HttpMethod::Post => "POST"@,
        HttpMethod::Put => "PUT"@,
        HttpMethod::Delete => "DELETE"@,
        HttpMethod::Patch => "PATCH"@,
        HttpMethod::Head => "HEAD"@,
        HttpMethod::Options => "OPTIONS"@,
    }
}

/// Each of the seven methods is recognised under its own name and relayed
/// as that method; no other name is recognised, and different names never
/// give the same method.
pub proof fn law_methods_roundtrip(m: HttpMethod, s: Seq<char>)
    ensures
        method_of(method_name(m)) == Some(m),
        method_of(s) == Some(m) ==> s == method_name(m),
{
    reveal_strlit("GET");
    reveal_strlit("POST");
    reveal_strlit("PUT");
    reveal_strlit("DELETE");
    reveal_strlit("PATCH");
    reveal_strlit("HEAD");
    reveal_strlit("OPTIONS");
    lemma_ne_len("GET"@, "POST"@);
    lemma_ne_at("GET"@, "PUT"@, 0);
    lemma_ne_len("GET"@, "DELETE"@);
    lemma_ne_len("GET"@, "PATCH"@);
    lemma_ne_len("GET"@, "HEAD"@);
    lemma_ne_len("GET"@, "OPTIONS"@);
    lemma_ne_len("POST"@, "PUT"@);
    lemma_ne_len("POST"@, "DELETE"@);
    lemma_ne_len("POST"@, "PATCH"@);
    lemma_ne_at("POST"@, "HEAD"@, 0);
    lemma_ne_len("POST"@, "OPTIONS"@);
    lemma_ne_len("PUT"@, "DELETE"@);
    lemma_ne_len("PUT"@, "PATCH"@);
    lemma_ne_len("PUT"@, "HEAD"@);
    lemma_ne_len("PUT"@, "OPTIONS"@);
    lemma_ne_len("DELETE"@, "PATCH"@);
    lemma_ne_len("DELETE"@, "HEAD"@);
    lemma_ne_len("DELETE"@, "OPTIONS"@);
    lemma_ne_len("PATCH"@, "HEAD"@);
    lemma_ne_len("PATCH"@, "OPTIONS"@);
    lemma_ne_len("HEAD"@, "OPTIONS"@);
}

/// A target that starts with `/` is forwarded to that very path, so with
/// any of the seven methods (`law_methods_roundtrip`) the plan is that
/// method at the upstream's URL followed by the target.
pub proof fn law_forward_keeps_path(target: Seq<char>)
    requires
        target.len() > 0 && target[0] == '/',
    ensures
        forward_path_of(target) == Some(target),
{
    reveal_strlit("/");
    if target != "/"@ {
        assert(target.take(1) =~= "/"@);
        assert(starts_with(target, "/"@));
    }
}

} // verus!
