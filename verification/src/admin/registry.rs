//! The registry of agents and proxies: what a registration or an update
//! must hold, what it stores, the reply to each registry error, and how
//! tags are kept as JSON.  The rows themselves live in SQLite, read and
//! written by the caller.
use vstd::prelude::*;
use crate::text::{blank, cat, hex_digit, is_blank, norm_url, normalized_url, owned, trim, trimmed};
use crate::agent::models::{ostr, strs};
use crate::admin::models::{
    AgentInfo, AgentView, ProxyInfo, ProxyView, RegisterAgentRequest, RegisterProxyRequest,
    UpdateAgentRequest, UpdateProxyRequest,
};

verus! {

#[derive(Debug)]
pub enum RegistryError {
    NotFound,
    DuplicateName(String),
    /// An I/O failure, with the error's text.
    Io(String),
    /// A database failure, with the error's text.
    Db(String),
    Other(String),
}

impl RegistryError {
    pub open spec fn text(&self) -> Seq<char> {
        match self {
            RegistryError::NotFound => "agent not found"@,
            RegistryError::DuplicateName(n) => "agent name already exists: "@ + n@,
            RegistryError::Io(e) => "io error: "@ + e@,
            RegistryError::Db(e) => "db error: "@ + e@,
            RegistryError::Other(m) => m@,
        }
    }

    pub fn message(&self) -> (r: String)
        ensures
            r@ == self.text(),
    {
        match self {
            RegistryError::NotFound => owned("agent not found"),
            RegistryError::DuplicateName(n) => cat("agent name already exists: ", n.as_str()),
            RegistryError::Io(e) => cat("io error: ", e.as_str()),
            RegistryError::Db(e) => cat("db error: ", e.as_str()),
            RegistryError::Other(m) => owned(m.as_str()),
        }
    }
}

#[derive(Debug)]
pub enum ProxyRegistryError {
    NotFound,
    DuplicateName(String),
    /// A database failure, with the error's text.
    Db(String),
    Other(String),
}

impl ProxyRegistryError {
    pub open spec fn text(&self) -> Seq<char> {
        match self {
            ProxyRegistryError::NotFound => "proxy not found"@,
            ProxyRegistryError::DuplicateName(n) => "proxy name already exists: "@ + n@,
            ProxyRegistryError::Db(e) => "db error: "@ + e@,
            ProxyRegistryError::Other(m) => m@,
        }
    }

    pub fn message(&self) -> (r: String)
        ensures
            r@ == self.text(),
    {
        match self {
            ProxyRegistryError::NotFound => owned("proxy not found"),
            ProxyRegistryError::DuplicateName(n) => cat("proxy name already exists: ", n.as_str()),
            ProxyRegistryError::Db(e) => cat("db error: ", e.as_str()),
            ProxyRegistryError::Other(m) => owned(m.as_str()),
        }
    }
}

/// The reply to an agent registry error.
pub fn registry_err(e: &RegistryError) -> (r: (u16, String))
    ensures
        r.1@ == e.text(),
        r.0 == match e {
            RegistryError::NotFound => 404u16,
            RegistryError::DuplicateName(_) => 409u16,
            RegistryError::Other(_) => 400u16,
            RegistryError::Io(_) => 500u16,
            RegistryError::Db(_) => 500u16,
        },
{
    let code: u16 = match e {
        RegistryError::NotFound => 404,
        RegistryError::DuplicateName(_) => 409,
        RegistryError::Other(_) => 400,
        RegistryError::Io(_) => 500,
        RegistryError::Db(_) => 500,
    };
    (code, e.message())
}

/// The reply to a proxy registry error.
pub fn proxy_registry_err(e: &ProxyRegistryError) -> (r: (u16, String))
    ensures
        r.1@ == e.text(),
        r.0 == match e {
            ProxyRegistryError::NotFound => 404u16,
            ProxyRegistryError::DuplicateName(_) => 409u16,
            ProxyRegistryError::Other(_) => 400u16,
            ProxyRegistryError::Db(_) => 500u16,
        },
{
    let code: u16 = match e {
        ProxyRegistryError::NotFound => 404,
        ProxyRegistryError::DuplicateName(_) => 409,
        ProxyRegistryError::Other(_) => 400,
        ProxyRegistryError::Db(_) => 500,
    };
    (code, e.message())
}

pub open spec fn agent_error(r: Result<AgentInfo, RegistryError>, m: Seq<char>) -> bool {
    r matches Err(RegistryError::Other(x)) && x@ == m
}

pub open spec fn proxy_error(r: Result<ProxyInfo, ProxyRegistryError>, m: Seq<char>) -> bool {
    r matches Err(ProxyRegistryError::Other(x)) && x@ == m
}

/// The agent a registration stores: name trimmed, base URL trimmed and
/// without trailing slashes, token as given; each must be non-empty.
pub fn new_agent(req: RegisterAgentRequest, id: String, now: String) -> (r: Result<
    AgentInfo,
    RegistryError,
>)
    ensures
        blank(req.name@) ==> agent_error(r, "name is required"@),
        !blank(req.name@) && norm_url(req.base_url@).len() == 0 ==> agent_error(
            r,
            "base_url is required"@,
        ),
        !blank(req.name@) && norm_url(req.base_url@).len() > 0 && blank(req.token@) ==> agent_error(
            r,
            "token is required"@,
        ),
        !blank(req.name@) && norm_url(req.base_url@).len() > 0 && !blank(req.token@) ==> (r matches Ok(a)
            && a@ == (AgentView {
            id: id@,
            name: trim(req.name@),
            base_url: norm_url(req.base_url@),
            token: req.token@,
            tags: strs(req.tags@),
            proxy_id: ostr(req.proxy_id),
            created_at: now@,
            updated_at: now@,
        })),
{
    let name = trimmed(req.name.as_str());
    let base_url = normalized_url(req.base_url.as_str());
    if name.as_str().is_empty() {
        return Err(RegistryError::Other(owned("name is required")));
    }
    if base_url.as_str().is_empty() {
        return Err(RegistryError::Other(owned("base_url is required")));
    }
    if is_blank(req.token.as_str()) {
        return Err(RegistryError::Other(owned("token is required")));
    }
    let updated_at = owned(now.as_str());
    Ok(
        AgentInfo {
            id,
            name,
            base_url,
            token: req.token,
            tags: req.tags,
            proxy_id: req.proxy_id,
            created_at: now,
            updated_at,
        },
    )
}

/// An agent after an update: each field given replaces the stored one
/// (name trimmed, base URL normalized, token as given), and none may become
/// empty; the first bad field is reported.
pub open spec fn agent_update_of(
    a: AgentView,
    name: Option<Seq<char>>,
    base_url: Option<Seq<char>>,
    token: Option<Seq<char>>,
    tags: Option<Seq<Seq<char>>>,
    now: Seq<char>,
) -> Result<AgentView, Seq<char>> {
    if name is Some && blank(name->0) {
        Err("name cannot be empty"@)
    } else if base_url is Some && norm_url(base_url->0).len() == 0 {
        Err("base_url cannot be empty"@)
    } else if token is Some && blank(token->0) {
        Err("token cannot be empty"@)
    } else {
        Ok(
            AgentView {
                name: if name is Some {
                    trim(name->0)
                } else {
                    a.name
                },
                base_url: if base_url is Some {
                    norm_url(base_url->0)
                } else {
                    a.base_url
                },
                token: if token is Some {
                    token->0
                } else {
                    a.token
                },
                tags: if tags is Some {
                    tags->0
                } else {
                    a.tags
                },
                updated_at: now,
                ..a
            },
        )
    }
}

pub open spec fn otags(o: Option<Vec<String>>) -> Option<Seq<Seq<char>>> {
    match o {
        Some(v) => Some(strs(v@)),
        None => None,
    }
}

pub fn update_agent(agent: AgentInfo, req: UpdateAgentRequest, now: String) -> (r: Result<
    AgentInfo,
    RegistryError,
>)
    ensures
        match agent_update_of(
            agent@,
            ostr(req.name),
            ostr(req.base_url),
            ostr(req.token),
            otags(req.tags),
            now@,
        ) {
            Ok(v) => r matches Ok(a) && a@ == v,
            Err(m) => agent_error(r, m),
        },
{
    let mut agent = agent;
    if let Some(name) = &req.name {
        let n = trimmed(name.as_str());
        if n.as_str().is_empty() {
            return Err(RegistryError::Other(owned("name cannot be empty")));
        }
        agent.name = n;
    }
    if let Some(url) = &req.base_url {
        let u = normalized_url(url.as_str());
        if u.as_str().is_empty() {
            return Err(RegistryError::Other(owned("base_url cannot be empty")));
        }
        agent.base_url = u;
    }
    if let Some(token) = &req.token {
        if is_blank(token.as_str()) {
            return Err(RegistryError::Other(owned("token cannot be empty")));
        }
        agent.token = owned(token.as_str());
    }
    if let Some(tags) = req.tags {
        agent.tags = tags;
    }
    agent.updated_at = now;
    Ok(agent)
}

/// The proxy a registration stores: name trimmed, base URL normalized,
/// token trimmed; each must be non-empty.  Notes default to empty.
pub fn new_proxy(req: RegisterProxyRequest, id: String, now: String) -> (r: Result<
    ProxyInfo,
    ProxyRegistryError,
>)
    ensures
        blank(req.name@) ==> proxy_error(r, "name is required"@),
        !blank(req.name@) && norm_url(req.base_url@).len() == 0 ==> proxy_error(
            r,
            "base_url is required"@,
        ),
        !blank(req.name@) && norm_url(req.base_url@).len() > 0 && blank(req.token@) ==> proxy_error(
            r,
            "token is required"@,
        ),
        !blank(req.name@) && norm_url(req.base_url@).len() > 0 && !blank(req.token@) ==> (r matches Ok(p)
            && p@ == (ProxyView {
            id: id@,
            name: trim(req.name@),
            base_url: norm_url(req.base_url@),
            token: trim(req.token@),
            notes: match req.notes {
                Some(n) => n@,
                None => Seq::empty(),
            },
            created_at: now@,
            updated_at: now@,
        })),
{
    let name = trimmed(req.name.as_str());
    let base_url = normalized_url(req.base_url.as_str());
    if name.as_str().is_empty() {
        return Err(ProxyRegistryError::Other(owned("name is required")));
    }
    if base_url.as_str().is_empty() {
        return Err(ProxyRegistryError::Other(owned("base_url is required")));
    }
    let token = trimmed(req.token.as_str());
    if token.as_str().is_empty() {
        return Err(ProxyRegistryError::Other(owned("token is required")));
    }
    let notes = match req.notes {
        Some(n) => n,
        None => String::new(),
    };
    let updated_at = owned(now.as_str());
    Ok(ProxyInfo { id, name, base_url, token, notes, created_at: now, updated_at })
}

/// A proxy after an update: like an agent's, except that the token is
/// trimmed and notes may be replaced.
pub open spec fn proxy_update_of(
    p: ProxyView,
    name: Option<Seq<char>>,
    base_url: Option<Seq<char>>,
    token: Option<Seq<char>>,
    notes: Option<Seq<char>>,
    now: Seq<char>,
) -> Result<ProxyView, Seq<char>> {
    if name is Some && blank(name->0) {
        Err("name cannot be empty"@)
    } else if base_url is Some && norm_url(base_url->0).len() == 0 {
        Err("base_url cannot be empty"@)
    } else if token is Some && blank(token->0) {
        Err("token cannot be empty"@)
    } else {
        Ok(
            ProxyView {
                name: if name is Some {
                    trim(name->0)
                } else {
                    p.name
                },
                base_url: if base_url is Some {
                    norm_url(base_url->0)
                } else {
                    p.base_url
                },
                token: if token is Some {
                    trim(token->0)
                } else {
                    p.token
                },
                notes: if notes is Some {
                    notes->0
                } else {
                    p.notes
                },
                updated_at: now,
                ..p
            },
        )
    }
}

pub fn update_proxy(proxy: ProxyInfo, req: UpdateProxyRequest, now: String) -> (r: Result<
    ProxyInfo,
    ProxyRegistryError,
>)
    ensures
        match proxy_update_of(
            proxy@,
            ostr(req.name),
            ostr(req.base_url),
            ostr(req.token),
            ostr(req.notes),
            now@,
        ) {
            Ok(v) => r matches Ok(p) && p@ == v,
            Err(m) => proxy_error(r, m),
        },
{
    let mut proxy = proxy;
    if let Some(name) = &req.name {
        let n = trimmed(name.as_str());
        if n.as_str().is_empty() {
            return Err(ProxyRegistryError::Other(owned("name cannot be empty")));
        }
        proxy.name = n;
    }
    if let Some(url) = &req.base_url {
        let u = normalized_url(url.as_str());
        if u.as_str().is_empty() {
            return Err(ProxyRegistryError::Other(owned("base_url cannot be empty")));
        }
        proxy.base_url = u;
    }
    if let Some(token) = &req.token {
        let t = trimmed(token.as_str());
        if t.as_str().is_empty() {
            return Err(ProxyRegistryError::Other(owned("token cannot be empty")));
        }
        proxy.token = t;
    }
    if let Some(notes) = req.notes {
        proxy.notes = notes;
    }
    proxy.updated_at = now;
    Ok(proxy)
}

/// How `serde_json` writes one character inside a string: a quote and a
/// backslash escaped with a backslash, the usual short escapes for
/// backspace, tab, line feed, form feed and carriage return, any other
/// control character as a backslash, `u00` and two lowercase hex digits,
/// everything else as itself.
pub open spec fn json_escaped_char(c: char) -> Seq<char> {
    let n = c as nat;
    if c == '"' {
        seq!['\\', '"']
    } else if c == '\\' {
        seq!['\\', '\\']
    } else if n == 8 {
        seq!['\\', 'b']
    } else if n == 9 {
        seq!['\\', 't']
    } else if n == 10 {
        seq!['\\', 'n']
    } else if n == 12 {
        seq!['\\', 'f']
    } else if n == 13 {
        seq!['\\', 'r']
    } else if n < 32 {
        seq!['\\', 'u', '0', '0', hex_digit(n / 16), hex_digit(n % 16)]
    } else {
        seq![c]
    }
}

/// A string's characters as `serde_json` writes them.
pub open spec fn json_escaped(s: Seq<char>) -> Seq<char>
    decreases s.len(),
{
    if s.len() == 0 {
        Seq::empty()
    } else {
        json_escaped(s.drop_last()) + json_escaped_char(s.last())
    }
}

/// The items of a list, each quoted and escaped, separated by commas.
pub open spec fn json_string_items(items: Seq<Seq<char>>) -> Seq<char>
    decreases items.len(),
{
    if items.len() == 0 {
        Seq::empty()
    } else if items.len() == 1 {
        seq!['"'] + json_escaped(items[0]) + seq!['"']
    } else {
        json_string_items(items.drop_last()) + seq![','] + seq!['"'] + json_escaped(items.last())
            + seq!['"']
    }
}

/// The text `serde_json::to_string` writes for a list of strings: compact,
/// in brackets.
pub open spec fn json_string_array(items: Seq<Seq<char>>) -> Seq<char> {
    seq!['['] + json_string_items(items) + seq![']']
}

/// What `serde_json` reads from a text as a list of strings: the list, or
/// the error's text.
pub uninterp spec fn parsed_string_array(text: Seq<char>) -> Result<Seq<Seq<char>>, Seq<char>>;

/// `serde_json::to_string` of a list of strings.  It succeeds: the failures
/// its documentation names (a value's own `Serialize` failing, a map with
/// non-string keys) cannot happen for a list of strings, and it writes into
/// memory.  Reading the text back gives the same list.
#[verifier::external_body]
fn json_encode_strings(items: &Vec<String>) -> (r: Result<String, String>)
    ensures
        r is Ok,
        r matches Ok(s) ==> (s@ == json_string_array(strs(items@)) && parsed_string_array(s@)
            == Ok::<Seq<Seq<char>>, Seq<char>>(strs(items@))),
{
    serde_json::to_string(items).map_err(|e| e.to_string())
}

/// `serde_json::from_str` into a list of strings.
#[verifier::external_body]
fn json_decode_strings(text: &str) -> (r: Result<Vec<String>, String>)
    ensures
        match r {
            Ok(v) => parsed_string_array(text@) == Ok::<Seq<Seq<char>>, Seq<char>>(strs(v@)),
            Err(e) => parsed_string_array(text@) == Err::<Seq<Seq<char>>, Seq<char>>(e@),
        },
{
    serde_json::from_str::<Vec<String>>(text).map_err(|e| e.to_string())
}

/// The tags column of an agent row: the tags as a JSON array.
pub fn tags_to_json(tags: &Vec<String>) -> (r: Result<String, RegistryError>)
    ensures
        r matches Ok(s) && (s@ == json_string_array(strs(tags@)) && parsed_string_array(s@)
            == Ok::<Seq<Seq<char>>, Seq<char>>(strs(tags@))),
{
    match json_encode_strings(tags) {
        Ok(s) => Ok(s),
        Err(e) => Err(RegistryError::Other(e)),
    }
}

/// The tags read back from an agent row.
pub fn tags_from_json(text: &str) -> (r: Result<Vec<String>, RegistryError>)
    ensures
        match parsed_string_array(text@) {
            Ok(t) => r matches Ok(v) && strs(v@) == t,
            Err(m) => r matches Err(RegistryError::Other(x)) && x@ == m,
        },
{
    match json_decode_strings(text) {
        Ok(v) => Ok(v),
        Err(e) => Err(RegistryError::Other(e)),
    }
}

/// A token-only update (as a token rotation makes) changes the token and
/// the update time and nothing else.
pub proof fn law_token_update_keeps_the_rest(a: AgentView, token: Seq<char>, now: Seq<char>)
    requires
        !blank(token),
    ensures
        agent_update_of(a, None, None, Some(token), None, now) == Ok::<AgentView, Seq<char>>(
            AgentView { token, updated_at: now, ..a },
        ),
{
}

/// An update never changes the id, creation time or proxy link of an agent.
pub proof fn law_agent_update_keeps_identity(
    a: AgentView,
    name: Option<Seq<char>>,
    base_url: Option<Seq<char>>,
    token: Option<Seq<char>>,
    tags: Option<Seq<Seq<char>>>,
    now: Seq<char>,
)
    ensures
        agent_update_of(a, name, base_url, token, tags, now) matches Ok(b) ==> b.id == a.id
            && b.created_at == a.created_at && b.proxy_id == a.proxy_id,
{
}

/// A proxy update never changes its id or creation time; a stored token is
/// never blank afterwards if it was not before.
pub proof fn law_proxy_update_keeps_identity(
    p: ProxyView,
    name: Option<Seq<char>>,
    base_url: Option<Seq<char>>,
    token: Option<Seq<char>>,
    notes: Option<Seq<char>>,
    now: Seq<char>,
)
    requires
        !blank(p.token),
    ensures
        proxy_update_of(p, name, base_url, token, notes, now) matches Ok(q) ==> q.id == p.id
            && q.created_at == p.created_at && !blank(q.token),
{
    if token is Some && !blank(token->0) {
        crate::text::lemma_trim_idempotent(token->0);
    }
}

} // verus!
