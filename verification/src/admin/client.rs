//! Calls from the admin server to agents and proxies: how a reply becomes a
//! value or an error, and how each error is reported to the admin's own
//! caller.  The HTTP exchange itself is the server's.
use vstd::prelude::*;
use crate::text::{
    blank, byte_boundary, cat, cat3, decimal, decimal_string, is_blank, owned, trim, trimmed,
    utf8_len, utf8_len_at_least, utf8_prefix,
};

verus! {

/// `serde_json::Value`, carried through unread.
#[verifier::external_type_specification]
#[verifier::external_body]
pub struct ExJsonValue(serde_json::Value);

/// A failed call to an agent or proxy.
#[derive(Debug)]
pub enum ProxyError {
    /// The request itself failed: the error's text, and whether it timed
    /// out or could not connect.
    Http { text: String, timeout: bool, connect: bool },
    /// The agent answered with a status outside 2xx.
    AgentStatus { status: u16, body: String },
    Other(String),
}

/// The canonical reason phrase of an HTTP status code, when it has one
/// (what `reqwest::StatusCode::canonical_reason` gives).
pub uninterp spec fn status_reason(code: u16) -> Option<Seq<char>>;

/// `StatusCode::from_u16(code)` then `canonical_reason()`; codes outside
/// 100..=999 have none.
#[verifier::external_body]
fn canonical_reason(code: u16) -> (r: Option<String>)
    ensures
        match r {
            Some(s) => status_reason(code) == Some(s@),
            None => status_reason(code) is None,
        },
        !(100 <= code && code <= 999) ==> r is None,
{
    reqwest::StatusCode::from_u16(code).ok().and_then(|s| s.canonical_reason()).map(|s| s.to_string())
}

/// How a status code displays: the number and its reason phrase.
pub open spec fn status_text(code: u16) -> Seq<char> {
    decimal(code as nat) + " "@ + match status_reason(code) {
        Some(r) => r,
        None => "<unknown status code>"@,
    }
}

pub fn status_display(code: u16) -> (r: String)
    ensures
        r@ == status_text(code),
{
    let n = decimal_string(code as u64);
    let reason = match canonical_reason(code) {
        Some(s) => s,
        None => owned("<unknown status code>"),
    };
    cat3(n.as_str(), " ", reason.as_str())
}

impl ProxyError {
    pub open spec fn text(&self) -> Seq<char> {
        match self {
            ProxyError::Http { text, .. } => "agent request failed: "@ + text@,
            ProxyError::AgentStatus { status, body } => "agent returned "@ + status_text(*status)
                + ": "@ + body@,
            ProxyError::Other(m) => m@,
        }
    }

    /// The text the error displays.
    pub fn message(&self) -> (r: String)
        ensures
            r@ == self.text(),
    {
        match self {
            ProxyError::Http { text, .. } => cat("agent request failed: ", text.as_str()),
            ProxyError::AgentStatus { status, body } => {
                let s = status_display(*status);
                let head = cat3("agent returned ", s.as_str(), ": ");
                cat(head.as_str(), body.as_str())
            },
            ProxyError::Other(m) => owned(m.as_str()),
        }
    }
}

/// What `serde_json::from_str` reads from a text as a `Value`: the value,
/// or the text of the parse error.
pub uninterp spec fn json_parsed(text: Seq<char>) -> Result<serde_json::Value, Seq<char>>;

/// `serde_json::from_str` into a `Value`.
#[verifier::external_body]
fn parse_json_text(text: &str) -> (r: Result<serde_json::Value, String>)
    ensures
        match r {
            Ok(v) => json_parsed(text@) == Ok::<serde_json::Value, Seq<char>>(v),
            Err(e) => json_parsed(text@) == Err::<serde_json::Value, Seq<char>>(e@),
        },
{
    serde_json::from_str(text).map_err(|e| e.to_string())
}

/// `serde_json::Value::Null`: the value that the text `null` reads as.
#[verifier::external_body]
fn json_null() -> (r: serde_json::Value)
    ensures
        (json_parsed("null"@) == Ok::<serde_json::Value, Seq<char>>(r)),
{
    serde_json::Value::Null
}

/// What an agent's reply is worth: a status outside 2xx is an error that
/// keeps the body; an empty (blank) body is JSON `null`; anything else must
/// parse as JSON.  `Ok(true)` marks a parsed body, `Ok(false)` a null one.
pub open spec fn reply_outcome(status: u16, text: Seq<char>) -> Result<bool, Option<Seq<char>>> {
    if !(200 <= status && status < 300) {
        Err(None)
    } else if blank(text) {
        Ok(false)
    } else {
        match json_parsed(text) {
            Ok(_) => Ok(true),
            Err(e) => Err(Some(e)),
        }
    }
}

/// The value of a successful reply: the parsed body, or `null` for a blank
/// one.
pub fn parse_reply(status: u16, text: String) -> (r: Result<serde_json::Value, ProxyError>)
    ensures
        reply_outcome(status, text@) == Err::<bool, Option<Seq<char>>>(None) ==> (r matches Err(
            ProxyError::AgentStatus { status: s, body },
        ) && s == status && body == text),
        reply_outcome(status, text@) matches Err(Some(e)) ==> (r matches Err(ProxyError::Other(m))
            && m@ == e),
        reply_outcome(status, text@) is Ok ==> r is Ok,
        reply_outcome(status, text@) == Ok::<bool, Option<Seq<char>>>(true) ==> (r matches Ok(v)
            && json_parsed(text@) == Ok::<serde_json::Value, Seq<char>>(v)),
        reply_outcome(status, text@) == Ok::<bool, Option<Seq<char>>>(false) ==> (r matches Ok(v)
            && json_parsed("null"@) == Ok::<serde_json::Value, Seq<char>>(v)),
{
    if !(200 <= status && status < 300) {
        return Err(ProxyError::AgentStatus { status, body: text });
    }
    if is_blank(text.as_str()) {
        let v = json_null();
        proof {
            reveal_strlit("null");
        }
        return Ok(v);
    }
    match parse_json_text(text.as_str()) {
        Ok(v) => Ok(v),
        Err(e) => Err(ProxyError::Other(e)),
    }
}

/// The hint shown for an agent's error status.
pub open spec fn status_hint(code: u16) -> Seq<char> {
    if code == 401 || code == 403 {
        "?????Token ?????"@
    } else if code == 404 {
        "???????? Agent/Proxy ????? id"@
    } else if code == 409 {
        "?????????????"@
    } else if code == 502 || code == 503 || code == 504 {
        "??????? Proxy ????? Agent ???"@
    } else {
        "??????"@
    }
}

fn hint_for(code: u16) -> (r: &'static str)
    ensures
        r@ == status_hint(code),
{
    if code == 401 || code == 403 {
        "?????Token ?????"
    } else if code == 404 {
        "???????? Agent/Proxy ????? id"
    } else if code == 409 {
        "?????????????"
    } else if code == 502 || code == 503 || code == 504 {
        "??????? Proxy ????? Agent ???"
    } else {
        "??????"
    }
}

/// The body as quoted in an error: nothing when blank, else the trimmed
/// body, cut to its first 240 bytes when longer.
pub open spec fn quoted_body(body: Seq<char>, cut: Seq<char>) -> Seq<char> {
    let b = trim(body);
    if b.len() == 0 {
        Seq::empty()
    } else if utf8_len(b) > 240 {
        " ? "@ + cut + "?"@
    } else {
        " ? "@ + b
    }
}

/// A body that is cut can be cut on a character boundary.
pub open spec fn body_cuttable(body: Seq<char>) -> bool {
    utf8_len(trim(body)) > 240 ==> byte_boundary(trim(body), 240)
}

/// Whether an agent's error body can be quoted: a body longer than 240
/// bytes once trimmed must have a character boundary at byte 240.
pub fn body_cuttable_text(body: &str) -> (r: bool)
    ensures
        r == body_cuttable(body@),
{
    let b = trimmed(body);
    if utf8_len_at_least(b.as_str(), 241) {
        utf8_prefix(b.as_str(), 240).is_some()
    } else {
        true
    }
}

/// The reply to a failed agent call: the agent's status (or 502 when it is
/// not a valid code) with a hint and the start of the body; 502 for a
/// request that failed; 500 for anything else.
pub fn proxy_err(e: &ProxyError) -> (r: (u16, String))
    requires
        e matches ProxyError::AgentStatus { body, .. } ==> body_cuttable(body@),
    ensures
        match e {
            ProxyError::AgentStatus { status, body } => {
                &&& r.0 == if 100 <= *status && *status <= 999 {
                    *status
                } else {
                    502u16
                }
                &&& exists|cut: Seq<char>|
                    (utf8_len(trim(body@)) > 240 ==> utf8_len(cut) == 240 && cut == trim(
                        body@,
                    ).take(cut.len() as int)) && r.1@ == status_hint(*status) + "?HTTP "@
                        + status_text(*status) + "?"@ + #[trigger] quoted_body(body@, cut)
            },
            ProxyError::Http { text, timeout, connect } => {
                &&& r.0 == 502
                &&& r.1@ == if *timeout {
                    "????????????????"@ + text@ + "?"@
                } else if *connect {
                    "???? Agent/Proxy?????????????????"@ + text@ + "?"@
                } else {
                    "???????"@ + text@
                }
            },
            ProxyError::Other(m) => r.0 == 500 && r.1@ == m@,
        },
{
    match e {
        ProxyError::AgentStatus { status, body } => {
            let code: u16 = if 100 <= *status && *status <= 999 {
                *status
            } else {
                502
            };
            let hint = hint_for(*status);
            let b = trimmed(body.as_str());
            let ghost mut cut: Seq<char> = Seq::empty();
            let detail = if b.as_str().is_empty() {
                String::new()
            } else if utf8_len_at_least(b.as_str(), 241) {
                let p = utf8_prefix(b.as_str(), 240).unwrap();
                proof {
                    cut = p@;
                }
                cat3(" ? ", p.as_str(), "?")
            } else {
                cat(" ? ", b.as_str())
            };
            let s = status_display(*status);
            let head = cat3(hint, "?HTTP ", s.as_str());
            let head2 = cat(head.as_str(), "?");
            let msg = cat(head2.as_str(), detail.as_str());
            proof {
                assert(detail@ == quoted_body(body@, cut));
                assert(msg@ == status_hint(*status) + "?HTTP "@ + status_text(*status) + "?"@
                    + quoted_body(body@, cut));
            }
            (code, msg)
        },
        ProxyError::Http { text, timeout, connect } => {
            let msg = if *timeout {
                cat3("????????????????", text.as_str(), "?")
            } else if *connect {
                cat3("???? Agent/Proxy?????????????????", text.as_str(), "?")
            } else {
                cat("???????", text.as_str())
            };
            (502, msg)
        },
        ProxyError::Other(m) => (500, owned(m.as_str())),
    }
}

} // verus!
