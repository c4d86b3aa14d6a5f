//! The decisions behind the proxy's HTTP API: the view of an upstream, the
//! status of each store error, and the checks made on an agent before it
//! is registered.
use vstd::prelude::*;
use crate::text::{
    blank, cat, cat3, contains, contains_str, decimal, decimal_string, ends_with,
    ends_with_str, is_blank, norm_url, normalized_url, owned, trim, trimmed,
};
use crate::proxy::config::Upstream;
use crate::proxy::store::{
    StoreError, UpdateUpstreamRequest, UpsertUpstreamRequest, UpstreamRecord, opt_view,
};

verus! {

/// An upstream as the API shows it, with the path prefix Admin should use.
pub struct UpstreamView {
    pub id: String,
    pub name: String,
    pub base_url: String,
    /// Public path prefix Admin should use as base_url (relative to this proxy).
    pub path_prefix: String,
}

pub fn to_view(r: &UpstreamRecord) -> (v: UpstreamView)
    ensures
        v.id@ == r.id@,
        v.name@ == r.name@,
        v.base_url@ == r.base_url@,
        v.path_prefix@ == "/a/"@ + r.id@,
{
    UpstreamView {
        id: r.id.clone(),
        name: r.name.clone(),
        base_url: r.base_url.clone(),
        path_prefix: cat("/a/", r.id.as_str()),
    }
}

/// HTTP status and message for a store error.
pub fn store_err(e: &StoreError) -> (r: (u16, String))
    ensures
        r.1@ == e.text(),
        r.0 == match e {
            StoreError::NotFound => 404u16,
            StoreError::Duplicate(_) => 409u16,
            StoreError::Other(_) => 400u16,
        },
{
    let code: u16 = match e {
        StoreError::NotFound => 404,
        StoreError::Duplicate(_) => 409,
        StoreError::Other(_) => 400,
    };
    (code, e.message())
}

/// The answer of the relay when the id is unknown or the store fails.
pub fn dispatch_error(e: &StoreError, id: &str) -> (r: (u16, String))
    ensures
        match e {
            StoreError::NotFound => r.0 == 404 && r.1@ == "unknown upstream id `"@ + id@ + "`"@,
            _ => r.0 == 500 && r.1@ == e.text(),
        },
{
    match e {
        StoreError::NotFound => (404, cat3("unknown upstream id `", id, "`")),
        _ => (500, e.message()),
    }
}

pub open spec fn points_at_proxy(base: Seq<char>) -> bool {
    contains(base, "/a/"@) || ends_with(base, "/a"@)
}

/// The message given when the base URL looks like a proxy path.
pub open spec fn proxy_path_message() -> Seq<char> {
    "下游 Base URL 应填 Agent 真实地址（例如 http://10.0.1.11:9100），不要填 Proxy 的 http://proxy:9200/a/<id>"@
}

/// Checks made before the agent is probed: the normalised base URL must not
/// be a proxy path, and the token must not be blank.
pub fn verify_precheck(base_url: &str, token: &str) -> (r: Result<(), String>)
    ensures
        points_at_proxy(norm_url(base_url@)) ==> (r matches Err(m) && m@ == proxy_path_message()),
        !points_at_proxy(norm_url(base_url@)) && blank(token@) ==> (r matches Err(m) && m@
            == "Agent Token 不能为空"@),
        !points_at_proxy(norm_url(base_url@)) && !blank(token@) ==> r is Ok,
{
    let base = normalized_url(base_url);
    if contains_str(base.as_str(), "/a/") || ends_with_str(base.as_str(), "/a") {
        return Err(owned(
            "下游 Base URL 应填 Agent 真实地址（例如 http://10.0.1.11:9100），不要填 Proxy 的 http://proxy:9200/a/<id>",
        ));
    }
    if is_blank(token) {
        return Err(owned("Agent Token 不能为空"));
    }
    Ok(())
}

/// The URL probed to check an agent token.
pub fn probe_url(base_url: &str) -> (r: String)
    ensures
        r@ == norm_url(base_url@) + "/api/v1/services"@,
{
    let base = normalized_url(base_url);
    cat(base.as_str(), "/api/v1/services")
}

/// What came back from the probe: status code, its display text
/// (e.g. `401 Unauthorized`) and the body; or the transport error text.
pub enum ProbeReply {
    Answered { code: u16, status_text: String, body: String },
    Failed(String),
}

pub open spec fn probe_verdict(url: Seq<char>, token: Seq<char>, reply: ProbeReply) -> Option<
    Seq<char>,
> {
    match reply {
        ProbeReply::Failed(e) => Some(
            "Proxy 无法连接 Agent（探测 "@ + url
                + "）。请填 Proxy 机器能访问的地址，不要用 Admin 本机的 127.0.0.1（除非 Agent 与 Proxy 同机）。"@
                + e@,
        ),
        ProbeReply::Answered { code, status_text, body } => if code == 401 || code == 403 {
            if contains(body@, "Proxy token"@) || contains(body@, "Admin→Proxy"@) {
                Some(
                    "探测地址更像 Proxy 而不是 Agent（"@ + url
                        + "）。下游 Base URL 请改为 Agent 的 host:9100。详情："@ + body@,
                )
            } else {
                Some(
                    "下游 Agent Token 被拒绝（探测 "@ + url + "，token 长度 "@ + decimal(
                        trim(token).len(),
                    )
                        + "）。请与正在运行的 Agent 一致：优先看 data/auth.token，否则才是 config.toml 的 token。详情："@
                        + body@,
                )
            }
        } else if !(200 <= code && code <= 299) {
            Some("下游 Agent 返回 HTTP "@ + status_text@ + "（探测 "@ + url + "）："@ + body@)
        } else {
            None
        },
    }
}

/// Verdict on the probe of an agent: a transport failure, a 401/403 (told
/// apart by whether the body names the proxy) or another non-2xx status is
/// refused with a message naming the URL; a 2xx is accepted.
pub fn verify_probe_outcome(url: &str, token: &str, reply: ProbeReply) -> (r: Result<(), String>)
    ensures
        match probe_verdict(url@, token@, reply) {
            None => r is Ok,
            Some(m) => r matches Err(x) && x@ == m,
        },
{
    match reply {
        ProbeReply::Failed(e) => {
            let a = cat3("Proxy 无法连接 Agent（探测 ", url, "）。请填 Proxy 机器能访问的地址，不要用 Admin 本机的 127.0.0.1（除非 Agent 与 Proxy 同机）。");
            Err(cat(a.as_str(), e.as_str()))
        },
        ProbeReply::Answered { code, status_text, body } => {
            if code == 401 || code == 403 {
                if contains_str(body.as_str(), "Proxy token") || contains_str(
                    body.as_str(),
                    "Admin→Proxy",
                ) {
                    let a = cat3("探测地址更像 Proxy 而不是 Agent（", url, "）。下游 Base URL 请改为 Agent 的 host:9100。详情：");
                    return Err(cat(a.as_str(), body.as_str()));
                }
                let t = trimmed(token);
                let n = crate::text::chars_of(t.as_str()).len();
                let count = decimal_string(n as u64);
                let a = cat3("下游 Agent Token 被拒绝（探测 ", url, "，token 长度 ");
                let b = cat3(a.as_str(), count.as_str(), "）。请与正在运行的 Agent 一致：优先看 data/auth.token，否则才是 config.toml 的 token。详情：");
                return Err(cat(b.as_str(), body.as_str()));
            }
            if !(200 <= code && code <= 299) {
                let a = cat3("下游 Agent 返回 HTTP ", status_text.as_str(), "（探测 ");
                let b = cat3(a.as_str(), url, "）：");
                return Err(cat(b.as_str(), body.as_str()));
            }
            Ok(())
        },
    }
}

/// The create request as it is checked and stored: base URL normalised and
/// token trimmed.
pub fn normalize_upsert(req: UpsertUpstreamRequest) -> (r: UpsertUpstreamRequest)
    ensures
        r.id == req.id,
        r.name == req.name,
        r.base_url@ == norm_url(req.base_url@),
        r.token@ == trim(req.token@),
{
    let base_url = normalized_url(req.base_url.as_str());
    let token = trimmed(req.token.as_str());
    UpsertUpstreamRequest { id: req.id, name: req.name, base_url, token }
}

/// The base URL and token an update is probed with: the new value when it
/// is given and not empty once normalised, otherwise the current one.
pub fn update_probe_target(req: &UpdateUpstreamRequest, existing: &Upstream) -> (r: (
    String,
    String,
))
    ensures
        r.0@ == match opt_view(req.base_url) {
            Some(u) => if norm_url(u).len() > 0 {
                norm_url(u)
            } else {
                existing.base_url@
            },
            None => existing.base_url@,
        },
        r.1@ == match opt_view(req.token) {
            Some(t) => if trim(t).len() > 0 {
                trim(t)
            } else {
                existing.token@
            },
            None => existing.token@,
        },
{
    let base = match &req.base_url {
        Some(u) => {
            let n = normalized_url(u.as_str());
            if n.as_str().is_empty() {
                existing.base_url.clone()
            } else {
                n
            }
        },
        None => existing.base_url.clone(),
    };
    let token = match &req.token {
        Some(t) => {
            let n = trimmed(t.as_str());
            if n.as_str().is_empty() {
                existing.token.clone()
            } else {
                n
            }
        },
        None => existing.token.clone(),
    };
    (base, token)
}

/// The update request as stored: fields that were given are replaced by the
/// probed base URL and token; the name is passed as it came.
pub fn normalize_update(req: UpdateUpstreamRequest, base_url: String, token: String) -> (r:
    UpdateUpstreamRequest)
    ensures
        r.name == req.name,
        req.base_url is Some ==> r.base_url == Some(base_url),
        req.base_url is None ==> r.base_url is None,
        req.token is Some ==> r.token == Some(token),
        req.token is None ==> r.token is None,
{
    UpdateUpstreamRequest {
        name: req.name,
        base_url: if req.base_url.is_some() {
            Some(base_url)
        } else {
            None
        },
        token: if req.token.is_some() {
            Some(token)
        } else {
            None
        },
    }
}

} // verus!
