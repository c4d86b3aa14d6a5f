//! What the agent's HTTP handlers decide: which requests are refused and
//! with what status and message, how an upload form is read, and how a new
//! agent token is made.  The routing, extraction and blocking tasks are the
//! server's.
use vstd::prelude::*;
use crate::text::{blank, cat, is_blank, owned, str_eq, trim, trimmed};
use crate::agent::models::{ServiceSpec, kind_required_message, resolved_kind_of};
use crate::agent::process::ProcessError;
use crate::agent::artifacts::{lower_hex_char, uuid_simple};

verus! {

/// An error reply: HTTP status and message.
pub type Reply = (u16, String);

/// A failed process operation answers 409 with the error's text.
pub fn map_process_err(e: &ProcessError) -> (r: Reply)
    ensures
        r.0 == 409,
        r.1@ == e.text(),
{
    (409, e.message())
}

/// A spec is accepted for saving or starting when it has a name and its
/// launch kind can be resolved.
pub fn validate_spec(spec: &ServiceSpec) -> (r: Result<(), Reply>)
    ensures
        blank(spec@.name) ==> (r matches Err((code, m)) && code == 400 && m@ == "name is required"@),
        !blank(spec@.name) && resolved_kind_of(spec@) is None ==> (r matches Err((code, m))
            && code == 400 && m@ == kind_required_message()),
        !blank(spec@.name) && resolved_kind_of(spec@) is Some ==> r is Ok,
{
    if is_blank(spec.name.as_str()) {
        return Err((400, owned("name is required")));
    }
    match spec.resolved_kind() {
        Ok(_) => Ok(()),
        Err(e) => Err((400, e)),
    }
}

/// How many bytes of the log's end are returned when the query names none.
pub fn default_log_bytes() -> (r: u64)
    ensures
        r == 32 * 1024,
{
    32 * 1024
}

/// Publishing and rolling back start the service unless told otherwise.
pub fn default_true() -> (r: bool)
    ensures
        r,
{
    true
}

/// The version named in a publish request, trimmed; a blank one is refused.
pub fn publish_version(version: &str) -> (r: Result<String, Reply>)
    ensures
        blank(version@) ==> (r matches Err((code, m)) && code == 400 && m@
            == "version is required"@),
        !blank(version@) ==> (r matches Ok(v) && v@ == trim(version@)),
{
    if is_blank(version) {
        return Err((400, owned("version is required")));
    }
    Ok(trimmed(version))
}

/// What a multipart field of an upload carries.
#[derive(PartialEq, Eq, Structural, Clone, Copy, Debug)]
pub enum UploadField {
    File,
    Version,
    Note,
    Ignored,
}

pub open spec fn upload_field_of(name: Seq<char>) -> UploadField {
    if name == "file"@ || name == "artifact"@ {
        UploadField::File
    } else if name == "version"@ || name == "id"@ {
        UploadField::Version
    } else if name == "note"@ {
        UploadField::Note
    } else {
        UploadField::Ignored
    }
}

/// The role of a field by its name: `file` or `artifact` is the file,
/// `version` or `id` the version, `note` the note; others are skipped.
pub fn upload_field(name: &str) -> (r: UploadField)
    ensures
        r == upload_field_of(name@),
{
    if str_eq(name, "file") || str_eq(name, "artifact") {
        UploadField::File
    } else if str_eq(name, "version") || str_eq(name, "id") {
        UploadField::Version
    } else if str_eq(name, "note") {
        UploadField::Note
    } else {
        UploadField::Ignored
    }
}

/// The fields of an upload read so far.
pub struct UploadForm {
    pub file_name: Option<String>,
    pub file_bytes: Option<Vec<u8>>,
    pub version: Option<String>,
    pub note: Option<String>,
}

/// A text field's value: trimmed, kept only when not blank.
pub open spec fn kept_text(text: Seq<char>) -> Option<Seq<char>> {
    if blank(text) {
        None
    } else {
        Some(trim(text))
    }
}

impl UploadForm {
    pub fn new() -> (f: Self)
        ensures
            f.file_name is None,
            f.file_bytes is None,
            f.version is None,
            f.note is None,
    {
        UploadForm { file_name: None, file_bytes: None, version: None, note: None }
    }

    /// A file field: its file name (an empty one counts as none) and bytes
    /// replace what an earlier file field gave.
    pub fn take_file(&mut self, file_name: Option<String>, bytes: Vec<u8>)
        ensures
            final(self).file_name == (match file_name {
                Some(n) => if n@.len() == 0 {
                    None
                } else {
                    Some(n)
                },
                None => None,
            }),
            final(self).file_bytes == Some(bytes),
            final(self).version == old(self).version,
            final(self).note == old(self).note,
    {
        self.file_name = match file_name {
            Some(n) => if n.as_str().is_empty() {
                None
            } else {
                Some(n)
            },
            None => None,
        };
        self.file_bytes = Some(bytes);
    }

    /// A version field: a blank value leaves the version as it was.
    pub fn take_version(&mut self, text: &str)
        ensures
            final(self).file_name == old(self).file_name,
            final(self).file_bytes == old(self).file_bytes,
            final(self).note == old(self).note,
            kept_text(text@) is None ==> final(self).version == old(self).version,
            kept_text(text@) matches Some(t) ==> final(self).version matches Some(v) && v@ == t,
    {
        if !is_blank(text) {
            self.version = Some(trimmed(text));
        }
    }

    /// A note field: a blank value leaves the note as it was.
    pub fn take_note(&mut self, text: &str)
        ensures
            final(self).file_name == old(self).file_name,
            final(self).file_bytes == old(self).file_bytes,
            final(self).version == old(self).version,
            kept_text(text@) is None ==> final(self).note == old(self).note,
            kept_text(text@) matches Some(t) ==> final(self).note matches Some(v) && v@ == t,
    {
        if !is_blank(text) {
            self.note = Some(trimmed(text));
        }
    }

    /// The upload to store: the file is required; its name defaults to
    /// `artifact.bin`.
    pub fn finish(self) -> (r: Result<(String, Vec<u8>, Option<String>, Option<String>), Reply>)
        ensures
            self.file_bytes is None ==> (r matches Err((code, m)) && code == 400 && m@
                == "multipart field `file` is required"@),
            self.file_bytes matches Some(b) ==> (r matches Ok((name, bytes, version, note)) && {
                &&& bytes == b
                &&& version == self.version
                &&& note == self.note
                &&& match self.file_name {
                    Some(n) => name == n,
                    None => name@ == "artifact.bin"@,
                }
            }),
    {
        let bytes = match self.file_bytes {
            Some(b) => b,
            None => {
                return Err((400, owned("multipart field `file` is required")));
            },
        };
        let name = match self.file_name {
            Some(n) => n,
            None => owned("artifact.bin"),
        };
        Ok((name, bytes, self.version, self.note))
    }
}

/// A new agent token: `axle_` and the 32 hex digits of a random id.
pub fn token_from(hex: &str) -> (r: String)
    ensures
        r@ == "axle_"@ + hex@,
{
    cat("axle_", hex)
}

/// A fresh random agent token.
pub fn new_agent_token() -> (r: String)
    ensures
        r@.len() == 5 + 32,
        r@.take(5) == "axle_"@,
        forall|i: int| 5 <= i < 37 ==> lower_hex_char(#[trigger] r@[i]),
{
    let hex = uuid_simple();
    let t = token_from(hex.as_str());
    proof {
        reveal_strlit("axle_");
        assert(t@.take(5) =~= "axle_"@);
        assert forall|i: int| 5 <= i < 37 implies lower_hex_char(#[trigger] t@[i]) by {
            assert(t@[i] == hex@[i - 5]);
        }
    }
    t
}

/// The reply when the new token could not be written to disk.
pub fn persist_failed(err: &str) -> (r: Reply)
    ensures
        r.0 == 500,
        r.1@ == "persist token failed: "@ + err@,
{
    (500, cat("persist token failed: ", err))
}

/// The reply when a blocking task could not be joined.
pub fn blocking_failed(err: &str) -> (r: Reply)
    ensures
        r.0 == 500,
        r.1@ == "blocking task failed: "@ + err@,
{
    (500, cat("blocking task failed: ", err))
}

/// Proof that a request carried the agent's token in `X-AxleOps-Token`.
pub struct AuthToken;

pub open spec fn token_ok(provided: Option<Seq<char>>, expected: Seq<char>) -> bool {
    let p = match provided {
        Some(p) => p,
        None => Seq::empty(),
    };
    p.len() > 0 && p == expected
}

impl AuthToken {
    /// A request passes when the header is present, not empty, and equal to
    /// the current token; otherwise it is answered 401.
    pub fn check(provided: Option<&str>, expected: &str) -> (r: Result<AuthToken, Reply>)
        ensures
            token_ok(
                match provided {
                    Some(p) => Some(p@),
                    None => None,
                },
                expected@,
            ) <==> r is Ok,
            r is Err ==> r->Err_0.0 == 401 && r->Err_0.1@ == "invalid or missing X-AxleOps-Token"@,
    {
        proof {
            reveal_strlit("");
        }
        let p = match provided {
            Some(p) => p,
            None => "",
        };
        if p.is_empty() || !str_eq(p, expected) {
            return Err((401, owned("invalid or missing X-AxleOps-Token")));
        }
        Ok(AuthToken)
    }
}

} // verus!
