//! The admin API's own decisions around the registry, users and agents:
//! error replies, masking of tokens, token rotation, importing an upstream
//! of a proxy as an agent, and the paths of the agent API it calls.
use vstd::prelude::*;
use crate::text::{
    blank, byte_boundary, cat, cat3, decimal, decimal_string, is_blank, owned,
    starts_with, starts_with_str, str_eq, trim, trim_end_char, trimmed, trimmed_end_char, utf8_len,
    utf8_len_at_least, utf8_prefix,
};
use crate::agent::models::{ostr, strs};
use crate::admin::models::{
    AgentInfo, AgentView, ImportUpstreamRequest, ProxyInfo, RegisterAgentRequest,
    RotateTokenResponse, UpdateAgentRequest, UpdateProxyRequest, UpstreamView,
};
use crate::admin::users::{AuthContext, UserError};
use crate::admin::overview::{JsonScalar, as_str, field_str, lookup};

verus! {

/// The reply to a user store error.
pub fn user_err(e: &UserError) -> (r: (u16, String))
    ensures
        r.1@ == e.text(),
        r.0 == match e {
            UserError::NotFound => 404u16,
            UserError::Duplicate => 409u16,
            UserError::InvalidCredentials => 401u16,
            UserError::Disabled => 403u16,
            UserError::Forbidden => 403u16,
            UserError::Other(_) => 400u16,
            UserError::Db(_) => 500u16,
        },
{
    let code: u16 = match e {
        UserError::NotFound => 404,
        UserError::Duplicate => 409,
        UserError::InvalidCredentials => 401,
        UserError::Disabled => 403,
        UserError::Forbidden => 403,
        UserError::Other(_) => 400,
        UserError::Db(_) => 500,
    };
    (code, e.message())
}

/// Only a session user can change a password; gives the user's id.
pub fn password_change_user(ctx: &AuthContext) -> (r: Result<String, (u16, String)>)
    ensures
        match ctx.user_id {
            Some(id) => r == Ok::<String, (u16, String)>(id),
            None => r is Err && r->Err_0.0 == 400 && r->Err_0.1@
                == "service token cannot change password; use a user session"@,
        },
{
    match &ctx.user_id {
        Some(id) => Ok(id.clone()),
        None => Err((400, owned("service token cannot change password; use a user session"))),
    }
}

/// An administrator may not disable their own account.
pub fn check_self_disable(ctx: &AuthContext, id: &str, disabled: bool) -> (r: Result<(), (u16, String)>)
    ensures
        (disabled && ctx.user_id is Some && ctx.user_id->0@ == id@) <==> r is Err,
        r is Err ==> r->Err_0.0 == 400 && r->Err_0.1@ == "cannot disable yourself"@,
{
    let own = match &ctx.user_id {
        Some(u) => str_eq(u.as_str(), id),
        None => false,
    };
    if own && disabled {
        return Err((400, owned("cannot disable yourself")));
    }
    Ok(())
}

/// A token as the API shows it: its first 4 bytes and `****`, or only
/// `****` when it is 4 bytes or shorter.
pub open spec fn masked_as(token: Seq<char>, r: Seq<char>) -> bool {
    if utf8_len(token) > 4 {
        exists|p: Seq<char>|
            utf8_len(p) == 4 && p == token.take(p.len() as int) && r == #[trigger] (p + "****"@)
    } else {
        r == "****"@
    }
}

/// Tokens are cut after 4 bytes, which must end a character.
pub open spec fn maskable(token: Seq<char>) -> bool {
    utf8_len(token) > 4 ==> byte_boundary(token, 4)
}

/// Whether a token can be masked: one longer than 4 bytes must have a
/// character boundary at byte 4.
pub fn maskable_text(token: &str) -> (r: bool)
    ensures
        r == maskable(token@),
{
    if utf8_len_at_least(token, 5) {
        utf8_prefix(token, 4).is_some()
    } else {
        true
    }
}

pub fn mask_token(token: &str) -> (r: String)
    requires
        maskable(token@),
    ensures
        masked_as(token@, r@),
{
    if utf8_len_at_least(token, 5) {
        let p = utf8_prefix(token, 4).unwrap();
        let r = cat(p.as_str(), "****");
        assert(r@ == p@ + "****"@);
        r
    } else {
        owned("****")
    }
}

pub fn mask_agent(agent: AgentInfo) -> (r: AgentInfo)
    requires
        maskable(agent.token@),
    ensures
        masked_as(agent.token@, r.token@),
        r@ == (AgentView { token: r.token@, ..agent@ }),
{
    let mut agent = agent;
    agent.token = mask_token(agent.token.as_str());
    agent
}

pub fn mask_agents(list: Vec<AgentInfo>) -> (r: Vec<AgentInfo>)
    requires
        forall|i: int| 0 <= i < list@.len() ==> maskable(#[trigger] list@[i].token@),
    ensures
        r@.len() == list@.len(),
        forall|i: int|
            0 <= i < list@.len() ==> masked_as(list@[i].token@, #[trigger] r@[i].token@) && r@[i]@
                == (AgentView { token: r@[i].token@, ..list@[i]@ }),
{
    let ghost orig = list@;
    let mut list = list;
    let mut out: Vec<AgentInfo> = Vec::new();
    let n = list.len();
    let mut taken: usize = 0;
    while taken < n
        invariant
            taken <= n,
            n == orig.len(),
            list@ == orig.skip(taken as int),
            out@.len() == taken,
            forall|i: int| 0 <= i < orig.len() ==> maskable(#[trigger] orig[i].token@),
            forall|i: int|
                0 <= i < taken ==> masked_as(orig[i].token@, #[trigger] out@[i].token@) && out@[i]@
                    == (AgentView { token: out@[i].token@, ..orig[i]@ }),
        decreases n - taken,
    {
        let a = list.remove(0);
        assert(a == orig[taken as int]);
        assert(list@ =~= orig.skip(taken + 1));
        let m = mask_agent(a);
        let ghost before = out@;
        out.push(m);
        assert(out@[taken as int] == m);
        assert(masked_as(orig[taken as int].token@, out@[taken as int].token@));
        assert(out@[taken as int]@ == (AgentView { token: out@[taken as int].token@, ..orig[taken as int]@ }));
        assert forall|i: int| 0 <= i < taken + 1 implies masked_as(orig[i].token@, #[trigger] out@[i].token@)
            && out@[i]@ == (AgentView { token: out@[i].token@, ..orig[i]@ }) by {
            if i < taken {
                assert(out@[i] == before[i]);
                assert(masked_as(orig[i].token@, before[i].token@));
            }
        }
        taken = taken + 1;
    }
    out
}

pub fn mask_proxy(p: ProxyInfo) -> (r: ProxyInfo)
    requires
        maskable(p.token@),
    ensures
        masked_as(p.token@, r.token@),
        r@ == (crate::admin::models::ProxyView { token: r.token@, ..p@ }),
{
    let mut p = p;
    p.token = mask_token(p.token.as_str());
    p
}

pub fn mask_proxies(list: Vec<ProxyInfo>) -> (r: Vec<ProxyInfo>)
    requires
        forall|i: int| 0 <= i < list@.len() ==> maskable(#[trigger] list@[i].token@),
    ensures
        r@.len() == list@.len(),
        forall|i: int|
            0 <= i < list@.len() ==> masked_as(list@[i].token@, #[trigger] r@[i].token@) && r@[i]@
                == (crate::admin::models::ProxyView { token: r@[i].token@, ..list@[i]@ }),
{
    let ghost orig = list@;
    let mut list = list;
    let mut out: Vec<ProxyInfo> = Vec::new();
    let n = list.len();
    let mut taken: usize = 0;
    while taken < n
        invariant
            taken <= n,
            n == orig.len(),
            list@ == orig.skip(taken as int),
            out@.len() == taken,
            forall|i: int| 0 <= i < orig.len() ==> maskable(#[trigger] orig[i].token@),
            forall|i: int|
                0 <= i < taken ==> masked_as(orig[i].token@, #[trigger] out@[i].token@) && out@[i]@
                    == (crate::admin::models::ProxyView { token: out@[i].token@, ..orig[i]@ }),
        decreases n - taken,
    {
        let p = list.remove(0);
        assert(p == orig[taken as int]);
        assert(list@ =~= orig.skip(taken + 1));
        let m = mask_proxy(p);
        let ghost before = out@;
        out.push(m);
        assert(out@[taken as int] == m);
        assert(forall|i: int| 0 <= i < taken ==> out@[i] == before[i]);
        taken = taken + 1;
    }
    out
}

/// A proxy addressed as if it were an agent, to call its API.
pub fn proxy_as_agent(p: &ProxyInfo) -> (r: AgentInfo)
    ensures
        r@ == (AgentView {
            id: p.id@,
            name: p.name@,
            base_url: p.base_url@,
            token: p.token@,
            tags: Seq::empty(),
            proxy_id: None,
            created_at: p.created_at@,
            updated_at: p.updated_at@,
        }),
{
    let r = AgentInfo {
        id: p.id.clone(),
        name: p.name.clone(),
        base_url: p.base_url.clone(),
        token: p.token.clone(),
        tags: Vec::new(),
        proxy_id: None,
        created_at: p.created_at.clone(),
        updated_at: p.updated_at.clone(),
    };
    assert(strs(r.tags@) =~= Seq::<Seq<char>>::empty());
    r
}

/// The index of the first upstream with id `id`.
pub open spec fn first_upstream(list: Seq<UpstreamView>, id: Seq<char>, i: int) -> bool {
    0 <= i < list.len() && list[i].id@ == id && forall|j: int| 0 <= j < i ==> (#[trigger] list[j]).id@
        != id
}

/// The registration that importing an upstream of `proxy` makes: named as
/// asked (or after the upstream), reached through the proxy at the
/// upstream's path prefix with the proxy's token, tagged `via:<proxy>`.
pub open spec fn import_request_of(
    proxy: ProxyInfo,
    up: UpstreamView,
    agent_name: Option<Seq<char>>,
    tags: Seq<Seq<char>>,
) -> (Seq<char>, Seq<char>, Seq<char>, Seq<Seq<char>>, Seq<char>) {
    let name = if agent_name is Some && !blank(agent_name->0) {
        trim(agent_name->0)
    } else {
        up.name@
    };
    let via = "via:"@ + proxy.name@;
    let tags2 = if tags.contains(via) {
        tags
    } else {
        tags.push(via)
    };
    let prefix = if starts_with(up.path_prefix@, "/"@) {
        up.path_prefix@
    } else {
        "/"@ + up.path_prefix@
    };
    (name, trim_end_char(proxy.base_url@, '/') + prefix, proxy.token@, tags2, proxy.id@)
}

fn contains_text(v: &Vec<String>, s: &str) -> (r: bool)
    ensures
        r == strs(v@).contains(s@),
{
    let mut i: usize = 0;
    while i < v.len()
        invariant
            i <= v@.len(),
            forall|k: int| 0 <= k < i ==> v@[k]@ != s@,
        decreases v.len() - i,
    {
        if str_eq(v[i].as_str(), s) {
            assert(strs(v@)[i as int] == s@);
            return true;
        }
        i = i + 1;
    }
    proof {
        if strs(v@).contains(s@) {
            let k = choose|k: int| 0 <= k < strs(v@).len() && strs(v@)[k] == s@;
            assert(v@[k]@ == s@);
        }
    }
    false
}

fn find_upstream(list: &Vec<UpstreamView>, id: &str) -> (r: Option<usize>)
    ensures
        match r {
            Some(k) => first_upstream(list@, id@, k as int),
            None => forall|j: int| 0 <= j < list@.len() ==> (#[trigger] list@[j]).id@ != id@,
        },
{
    let mut i: usize = 0;
    while i < list.len()
        invariant
            i <= list@.len(),
            forall|j: int| 0 <= j < i ==> (#[trigger] list@[j]).id@ != id@,
        decreases list.len() - i,
    {
        if str_eq(list[i].id.as_str(), id) {
            return Some(i);
        }
        i = i + 1;
    }
    None
}

/// Importing an upstream: it must be listed by the proxy (its id is
/// matched after trimming), else 404.
pub fn plan_import(proxy: &ProxyInfo, list: &Vec<UpstreamView>, req: ImportUpstreamRequest) -> (r: Result<
    RegisterAgentRequest,
    (u16, String),
>)
    ensures
        (forall|i: int| 0 <= i < list@.len() ==> (#[trigger] list@[i]).id@ != trim(req.upstream_id@))
            ==> (r is Err && r->Err_0.0 == 404 && r->Err_0.1@ == "upstream `"@ + trim(
            req.upstream_id@,
        ) + "` not found on proxy"@),
        r matches Ok(a) ==> exists|i: int|
            first_upstream(list@, trim(req.upstream_id@), i) && (a.name@, a.base_url@, a.token@, strs(
                a.tags@,
            ), a.proxy_id->0@) == import_request_of(
                *proxy,
                #[trigger] list@[i],
                ostr(req.agent_name),
                strs(req.tags@),
            ) && a.proxy_id is Some,
        (exists|i: int| 0 <= i < list@.len() && (#[trigger] list@[i]).id@ == trim(req.upstream_id@))
            ==> r is Ok,
{
    let upstream_id = trimmed(req.upstream_id.as_str());
    let k = match find_upstream(list, upstream_id.as_str()) {
        Some(k) => k,
        None => {
            let m = cat3("upstream `", upstream_id.as_str(), "` not found on proxy");
            return Err((404, m));
        },
    };
    let up = &list[k];
    assert(first_upstream(list@, upstream_id@, k as int));
    let agent_name = match &req.agent_name {
        Some(n) => {
            if is_blank(n.as_str()) {
                up.name.clone()
            } else {
                trimmed(n.as_str())
            }
        },
        None => up.name.clone(),
    };
    let mut tags = req.tags;
    let via = cat("via:", proxy.name.as_str());
    let ghost tags0 = strs(tags@);
    if !contains_text(&tags, via.as_str()) {
        tags.push(via);
        assert(strs(tags@) =~= tags0.push(("via:"@ + proxy.name@)));
    }
    let base = trimmed_end_char(proxy.base_url.as_str(), '/');
    proof {
        reveal_strlit("/");
    }
    let base_url = if starts_with_str(up.path_prefix.as_str(), "/") {
        cat(base.as_str(), up.path_prefix.as_str())
    } else {
        cat3(base.as_str(), "/", up.path_prefix.as_str())
    };
    Ok(
        RegisterAgentRequest {
            name: agent_name,
            base_url,
            token: proxy.token.clone(),
            tags,
            proxy_id: Some(proxy.id.clone()),
        },
    )
}

/// What a token rotation reports: the token to store, whether the remote
/// agent made it, and a note.  `remote` is the agent's answer when a sync
/// was asked: the token it returned (if any), or the error's text.
pub open spec fn rotation_of(
    sync: bool,
    local: Seq<char>,
    remote: Option<Result<Option<Seq<char>>, Seq<char>>>,
) -> (Seq<char>, bool, Seq<char>) {
    if !sync || remote is None {
        (local, false, "registry token updated — copy into agent/proxy if needed"@)
    } else {
        match remote->0 {
            Ok(Some(t)) => (t, true, "remote agent token rotated"@),
            Ok(None) => (
                local,
                false,
                "agent responded but token missing; registry updated with new local token"@,
            ),
            Err(e) => (
                local,
                false,
                "sync failed ("@ + e + "); registry token updated — copy into agent config"@,
            ),
        }
    }
}

/// An agent's reply to a token rotation, as far as it is read: the fields of
/// its `data` member when the reply is an object whose `data` is an object.
pub struct RotateReply {
    pub data: Option<Vec<(String, JsonScalar)>>,
}

/// The token an agent's rotation reply carries: `data.token` when it is a
/// string.
pub fn remote_token(reply: &RotateReply) -> (r: Option<String>)
    ensures
        ostr(r) == match reply.data {
            Some(f) => as_str(lookup(f@, "token"@)),
            None => None,
        },
{
    match &reply.data {
        Some(f) => field_str(f, "token"),
        None => None,
    }
}

pub open spec fn remote_view(remote: Option<Result<Option<String>, String>>) -> Option<
    Result<Option<Seq<char>>, Seq<char>>,
> {
    match remote {
        None => None,
        Some(Ok(t)) => Some(Ok(ostr(t))),
        Some(Err(e)) => Some(Err(e@)),
    }
}

pub fn rotation_outcome(
    sync: bool,
    local: String,
    remote: Option<Result<Option<String>, String>>,
) -> (r: (String, bool, String))
    ensures
        (r.0@, r.1, r.2@) == rotation_of(sync, local@, remote_view(remote)),
{
    if !sync {
        return (local, false, owned("registry token updated — copy into agent/proxy if needed"));
    }
    match remote {
        None => (local, false, owned("registry token updated — copy into agent/proxy if needed")),
        Some(Ok(Some(t))) => (t, true, owned("remote agent token rotated")),
        Some(Ok(None)) => (
            local,
            false,
            owned("agent responded but token missing; registry updated with new local token"),
        ),
        Some(Err(e)) => (
            local,
            false,
            cat3("sync failed (", e.as_str(), "); registry token updated — copy into agent config"),
        ),
    }
}

/// The registry update a rotation makes: the token alone.
pub fn token_update(token: &str) -> (r: UpdateAgentRequest)
    ensures
        r.name is None,
        r.base_url is None,
        r.tags is None,
        r.proxy_id is None,
        r.token matches Some(t) && t@ == token@,
{
    UpdateAgentRequest {
        name: None,
        base_url: None,
        token: Some(owned(token)),
        tags: None,
        proxy_id: None,
    }
}

pub fn proxy_token_update(token: &str) -> (r: UpdateProxyRequest)
    ensures
        r.name is None,
        r.base_url is None,
        r.notes is None,
        r.token matches Some(t) && t@ == token@,
{
    UpdateProxyRequest { name: None, base_url: None, token: Some(owned(token)), notes: None }
}

/// What rotating a proxy's token answers: the proxy's config must be
/// edited by hand.
pub fn proxy_rotation_response(id: String, token: String) -> (r: RotateTokenResponse)
    ensures
        r.id == id,
        r.token == token,
        !r.synced,
        r.message matches Some(m) && m@
            == "proxy registry token updated — update proxy config.toml and reload"@,
{
    RotateTokenResponse {
        id,
        token,
        synced: false,
        message: Some(owned("proxy registry token updated — update proxy config.toml and reload")),
    }
}

/// The agent API path of a service resource: `/api/v1/services/{name}`
/// followed by `tail`.
pub fn service_path(name: &str, tail: &str) -> (r: String)
    ensures
        r@ == "/api/v1/services/"@ + name@ + tail@,
{
    cat3("/api/v1/services/", name, tail)
}

/// The log path with its byte limit.
pub fn logs_path(name: &str, bytes: u64) -> (r: String)
    ensures
        r@ == "/api/v1/services/"@ + name@ + "/logs?bytes="@ + decimal(bytes as nat),
{
    let n = decimal_string(bytes);
    let head = service_path(name, "/logs?bytes=");
    cat(head.as_str(), n.as_str())
}

/// The path of one artifact version, followed by `tail`.
pub fn artifact_path(name: &str, version: &str, tail: &str) -> (r: String)
    ensures
        r@ == "/api/v1/services/"@ + name@ + "/artifacts/"@ + version@ + tail@,
{
    let head = service_path(name, "/artifacts/");
    cat3(head.as_str(), version, tail)
}

/// The URL of an agent API path: the base URL followed by the path.
pub fn agent_url(agent: &AgentInfo, path: &str) -> (r: String)
    ensures
        r@ == agent.base_url@ + path@,
{
    cat(agent.base_url.as_str(), path)
}

/// Token rotation keeps the new local token unless the agent itself
/// returned one, and reports a sync only then.
pub proof fn law_rotation_synced_iff_remote_token(
    sync: bool,
    local: Seq<char>,
    remote: Option<Result<Option<Seq<char>>, Seq<char>>>,
)
    ensures
        rotation_of(sync, local, remote).1 <==> (sync && remote matches Some(Ok(Some(_)))),
        !rotation_of(sync, local, remote).1 ==> rotation_of(sync, local, remote).0 == local,
{
}

/// An imported agent is always tagged with the proxy it comes through,
/// exactly once more than it was asked to be.
pub proof fn law_import_tags_via_proxy(
    proxy: ProxyInfo,
    up: UpstreamView,
    agent_name: Option<Seq<char>>,
    tags: Seq<Seq<char>>,
)
    ensures
        import_request_of(proxy, up, agent_name, tags).3.contains("via:"@ + proxy.name@),
        tags.contains("via:"@ + proxy.name@) ==> import_request_of(proxy, up, agent_name, tags).3
            == tags,
        import_request_of(proxy, up, agent_name, tags).4 == proxy.id@,
        import_request_of(proxy, up, agent_name, tags).2 == proxy.token@,
{
    let via = "via:"@ + proxy.name@;
    if !tags.contains(via) {
        assert(tags.push(via)[tags.len() as int] == via);
    }
}

} // verus!
