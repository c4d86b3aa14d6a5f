//! Versioned artifacts under `data_dir/artifacts/{service}/`: the manifest
//! of uploaded versions with its active and previous pointers, the names
//! and paths they live under, and what activating, deleting, pruning and
//! rolling back do to it.
use vstd::prelude::*;
use crate::text::{
    blank, cat, cat3, chars_of, contains, contains_str, dir_and_name, lemma_contains_concat,
    name_part, owned, plain_name, single_component,
    str_eq, string_of, trim, trimmed,
};
use crate::agent::models::{ServiceKind, ServiceSpec, ServiceStatus, env_names_unique, ostr};
use crate::agent::process::{ProcessError, is_other};

verus! {

pub const MAX_KEEP: usize = 12;

/// One uploaded version.  `uploaded_at` is an RFC 3339 time.
pub struct ArtifactRecord {
    pub id: String,
    pub filename: String,
    pub size: u64,
    pub uploaded_at: String,
    pub note: Option<String>,
}

pub struct RecordView {
    pub id: Seq<char>,
    pub filename: Seq<char>,
    pub size: u64,
    pub uploaded_at: Seq<char>,
    pub note: Option<Seq<char>>,
}

impl View for ArtifactRecord {
    type V = RecordView;

    open spec fn view(&self) -> RecordView {
        RecordView {
            id: self.id@,
            filename: self.filename@,
            size: self.size,
            uploaded_at: self.uploaded_at@,
            note: ostr(self.note),
        }
    }
}

impl ArtifactRecord {
    pub fn duplicate(&self) -> (r: Self)
        ensures
            r@ == self@,
    {
        ArtifactRecord {
            id: self.id.clone(),
            filename: self.filename.clone(),
            size: self.size,
            uploaded_at: self.uploaded_at.clone(),
            note: crate::agent::models::copy_opt(&self.note),
        }
    }
}

/// The stored record of one service's versions: the active and previous
/// version ids and every uploaded version, oldest first.
pub struct Manifest {
    pub active: Option<String>,
    pub previous: Option<String>,
    pub versions: Vec<ArtifactRecord>,
}

pub struct ManifestView {
    pub active: Option<Seq<char>>,
    pub previous: Option<Seq<char>>,
    pub versions: Seq<RecordView>,
}

pub open spec fn record_views(v: Seq<ArtifactRecord>) -> Seq<RecordView> {
    v.map_values(|r: ArtifactRecord| r@)
}

impl View for Manifest {
    type V = ManifestView;

    open spec fn view(&self) -> ManifestView {
        ManifestView {
            active: ostr(self.active),
            previous: ostr(self.previous),
            versions: record_views(self.versions@),
        }
    }
}

/// A version that the active or previous pointer names.
pub open spec fn pinned(m: ManifestView, id: Seq<char>) -> bool {
    m.active == Some(id) || m.previous == Some(id)
}

/// Pruning: while there are more than `MAX_KEEP` versions, drop the oldest,
/// unless it is pinned, which stops pruning.  Gives the kept versions and the
/// ids dropped, oldest first.
pub open spec fn prune(
    v: Seq<RecordView>,
    active: Option<Seq<char>>,
    previous: Option<Seq<char>>,
) -> (Seq<RecordView>, Seq<Seq<char>>)
    decreases v.len(),
{
    if v.len() <= MAX_KEEP {
        (v, Seq::empty())
    } else if active == Some(v[0].id) || previous == Some(v[0].id) {
        (v, Seq::empty())
    } else {
        let rest = prune(v.drop_first(), active, previous);
        (rest.0, seq![v[0].id] + rest.1)
    }
}

pub open spec fn has_version(v: Seq<RecordView>, id: Seq<char>) -> bool {
    exists|i: int| 0 <= i < v.len() && (#[trigger] v[i]).id == id
}

/// The versions without any record of `id`.
pub open spec fn without(v: Seq<RecordView>, id: Seq<char>) -> Seq<RecordView>
    decreases v.len(),
{
    if v.len() == 0 {
        v
    } else {
        let w = without(v.drop_last(), id);
        if v.last().id == id {
            w
        } else {
            w.push(v.last())
        }
    }
}

proof fn lemma_without_len(v: Seq<RecordView>, id: Seq<char>)
    ensures
        without(v, id).len() <= v.len(),
        without(v, id).len() == v.len() <==> !has_version(v, id),
    decreases v.len(),
{
    if v.len() > 0 {
        let d = v.drop_last();
        lemma_without_len(d, id);
        if has_version(d, id) {
            let k = choose|k: int| 0 <= k < d.len() && (#[trigger] d[k]).id == id;
            assert(v[k].id == id);
        }
        if has_version(v, id) && !has_version(d, id) {
            let k = choose|k: int| 0 <= k < v.len() && (#[trigger] v[k]).id == id;
            if k < d.len() {
                assert(d[k].id == id);
            }
        }
        if v.last().id == id {
            assert(v[v.len() - 1].id == id);
        }
    }
}

/// The manifest after `version` is made active: the active version becomes
/// the previous one, unless `version` is already active.
pub open spec fn activated(m: ManifestView, version: Seq<char>) -> ManifestView {
    if m.active == Some(version) {
        m
    } else {
        ManifestView { active: Some(version), previous: m.active, versions: m.versions }
    }
}

/// The first version with that id.
pub open spec fn first_with(v: Seq<RecordView>, id: Seq<char>, i: int) -> bool {
    0 <= i < v.len() && v[i].id == id && forall|j: int| 0 <= j < i ==> (#[trigger] v[j]).id != id
}

impl Manifest {
    pub fn empty() -> (m: Self)
        ensures
            m@.active is None,
            m@.previous is None,
            m@.versions.len() == 0,
    {
        Manifest { active: None, previous: None, versions: Vec::new() }
    }

    /// The first version with id `id`.
    pub fn find(&self, id: &str) -> (r: Option<ArtifactRecord>)
        ensures
            r is None <==> !has_version(self@.versions, id@),
            r matches Some(x) ==> exists|i: int| first_with(self@.versions, id@, i) && x@
                == self@.versions[i],
    {
        let mut i: usize = 0;
        while i < self.versions.len()
            invariant
                i <= self.versions@.len(),
                forall|j: int| 0 <= j < i ==> (#[trigger] self@.versions[j]).id != id@,
            decreases self.versions.len() - i,
        {
            if str_eq(self.versions[i].id.as_str(), id) {
                assert(first_with(self@.versions, id@, i as int));
                return Some(self.versions[i].duplicate());
            }
            i = i + 1;
        }
        None
    }

    pub fn has(&self, id: &str) -> (r: bool)
        ensures
            r == has_version(self@.versions, id@),
    {
        self.find(id).is_some()
    }

    /// Appends a version and prunes; gives the ids pruned, whose directories
    /// the caller removes.
    pub fn add(&mut self, rec: ArtifactRecord) -> (removed: Vec<String>)
        ensures
            final(self)@.active == old(self)@.active,
            final(self)@.previous == old(self)@.previous,
            ({
                let p = prune(old(self)@.versions.push(rec@), old(self)@.active, old(self)@.previous);
                &&& final(self)@.versions == p.0
                &&& removed@.map_values(|s: String| s@) == p.1
            }),
    {
        let ghost before_push = old(self)@.versions;
        self.versions.push(rec);
        assert(self@.versions =~= before_push.push(rec@));
        let ghost active = self@.active;
        let ghost previous = self@.previous;
        let mut removed: Vec<String> = Vec::new();
        let ghost all = self@.versions;
        assert(removed@.map_values(|s: String| s@) =~= Seq::<Seq<char>>::empty());
        while self.versions.len() > MAX_KEEP
            invariant
                self@.active == active,
                self@.previous == previous,
                prune(all, active, previous) == ({
                    let q = prune(self@.versions, active, previous);
                    (q.0, removed@.map_values(|s: String| s@) + q.1)
                }),
            ensures
                self@.versions.len() <= MAX_KEEP || active == Some(self@.versions[0].id)
                    || previous == Some(self@.versions[0].id),
            decreases self.versions.len(),
        {
            let pin_active = match &self.active {
                Some(a) => str_eq(a.as_str(), self.versions[0].id.as_str()),
                None => false,
            };
            let pin_previous = match &self.previous {
                Some(p) => str_eq(p.as_str(), self.versions[0].id.as_str()),
                None => false,
            };
            if pin_active || pin_previous {
                break;
            }
            let ghost before = self@.versions;
            let ghost rm_before = removed@.map_values(|s: String| s@);
            let oldest = self.versions.remove(0);
            assert(self@.versions =~= before.drop_first());
            removed.push(oldest.id);
            proof {
                assert(removed@.map_values(|s: String| s@) =~= rm_before.push(before[0].id));
                let q = prune(self@.versions, active, previous);
                assert(prune(before, active, previous) == (q.0, seq![before[0].id] + q.1));
                assert(rm_before + (seq![before[0].id] + q.1) =~= rm_before.push(before[0].id) + q.1);
            }
        }
        proof {
            let q = prune(self@.versions, active, previous);
            assert(q.1 =~= Seq::<Seq<char>>::empty());
            assert(removed@.map_values(|s: String| s@) + q.1 =~= removed@.map_values(|s: String| s@));
        }
        removed
    }

    /// Points the manifest at `version`: the active version becomes the
    /// previous one, unless `version` is already active.
    pub fn activate(&mut self, version: &str) -> (changed: bool)
        ensures
            final(self)@ == activated(old(self)@, version@),
            changed == (old(self)@.active != Some(version@)),
    {
        let same = match &self.active {
            Some(a) => str_eq(a.as_str(), version),
            None => false,
        };
        if !same {
            self.previous = crate::agent::models::copy_opt(&self.active);
            self.active = Some(owned(version));
            true
        } else {
            false
        }
    }

    /// Removes every record of `version` and clears the previous pointer
    /// when it named it; the active version cannot be deleted.
    pub fn remove_version(&mut self, version: &str) -> (r: Result<(), ProcessError>)
        ensures
            old(self)@.active == Some(version@) ==> is_other(
                r,
                "cannot delete the active artifact; publish another version first"@,
            ) && final(self)@ == old(self)@,
            old(self)@.active != Some(version@) && !has_version(old(self)@.versions, version@)
                ==> is_other(r, "artifact version not found: "@ + version@),
            old(self)@.active != Some(version@) && has_version(old(self)@.versions, version@) ==> {
                &&& r is Ok
                &&& final(self)@.versions == without(old(self)@.versions, version@)
                &&& final(self)@.active == old(self)@.active
                &&& final(self)@.previous == if old(self)@.previous == Some(version@) {
                    None
                } else {
                    old(self)@.previous
                }
            },
    {
        let is_active = match &self.active {
            Some(a) => str_eq(a.as_str(), version),
            None => false,
        };
        if is_active {
            return Err(ProcessError::Other(owned(
                "cannot delete the active artifact; publish another version first",
            )));
        }
        let ghost all = self@.versions;
        let mut kept: Vec<ArtifactRecord> = Vec::new();
        let mut i: usize = 0;
        while i < self.versions.len()
            invariant
                i <= self.versions@.len(),
                self@.versions == all,
                record_views(kept@) == without(all.take(i as int), version@),
            decreases self.versions.len() - i,
        {
            let ghost prev = kept@;
            assert(all.take(i + 1).drop_last() =~= all.take(i as int));
            if !str_eq(self.versions[i].id.as_str(), version) {
                kept.push(self.versions[i].duplicate());
                assert(record_views(kept@) =~= record_views(prev).push(all[i as int]));
            }
            i = i + 1;
        }
        assert(all.take(all.len() as int) =~= all);
        proof {
            lemma_without_len(all, version@);
        }
        if kept.len() == self.versions.len() {
            return Err(ProcessError::Other(cat("artifact version not found: ", version)));
        }
        self.versions = kept;
        let clear = match &self.previous {
            Some(p) => str_eq(p.as_str(), version),
            None => false,
        };
        if clear {
            self.previous = None;
        }
        Ok(())
    }

    /// The version a rollback goes back to.
    pub fn rollback_target(&self) -> (r: Result<String, ProcessError>)
        ensures
            match self@.previous {
                Some(p) => r matches Ok(x) && x@ == p,
                None => is_other(r, "no previous artifact to roll back to"@),
            },
    {
        match &self.previous {
            Some(p) => Ok(p.clone()),
            None => Err(ProcessError::Other(owned("no previous artifact to roll back to"))),
        }
    }

    /// The record of `version`, for activation.
    pub fn version_record(&self, version: &str) -> (r: Result<ArtifactRecord, ProcessError>)
        ensures
            !has_version(self@.versions, version@) ==> is_other(
                r,
                "artifact version not found: "@ + version@,
            ),
            has_version(self@.versions, version@) ==> (r matches Ok(x) && exists|i: int|
                first_with(self@.versions, version@, i) && x@ == self@.versions[i]),
    {
        match self.find(version) {
            Some(r) => Ok(r),
            None => Err(ProcessError::Other(cat("artifact version not found: ", version))),
        }
    }
}

/// The error when the version's file is gone from disk.
pub fn missing_file(path: &str) -> (r: ProcessError)
    ensures
        r matches ProcessError::Other(m) && m@ == "artifact file missing: "@ + path@,
{
    ProcessError::Other(cat("artifact file missing: ", path))
}

/// A version already in the manifest cannot be uploaded again.
pub fn duplicate_version(id: &str) -> (r: ProcessError)
    ensures
        r matches ProcessError::Other(m) && m@ == "artifact version already exists: "@ + id@,
{
    ProcessError::Other(cat("artifact version already exists: ", id))
}

// ---------------------------------------------------------------------------
// Names
// ---------------------------------------------------------------------------

pub open spec fn safe_char(c: char) -> bool {
    ('a' <= c && c <= 'z') || ('A' <= c && c <= 'Z') || ('0' <= c && c <= '9') || c == '-' || c
        == '_' || c == '.'
}

pub open spec fn sanitized(s: Seq<char>) -> Seq<char> {
    s.map_values(|c: char| if safe_char(c) { c } else { '_' })
}

pub open spec fn name_ok(s: Seq<char>) -> bool {
    let t = sanitized(s);
    !(t.len() == 0 || t == "."@ || t == ".."@ || contains(t, ".."@))
}

fn safe(c: char) -> (r: bool)
    ensures
        r == safe_char(c),
{
    ('a' <= c && c <= 'z') || ('A' <= c && c <= 'Z') || ('0' <= c && c <= '9') || c == '-' || c
        == '_' || c == '.'
}

/// A name made safe for a directory: every character outside ASCII letters,
/// digits, `-`, `_` and `.` becomes `_`; empty, `.`, `..` or anything
/// holding `..` is refused.
pub fn sanitize_name(name: &str) -> (r: Result<String, ProcessError>)
    ensures
        name_ok(name@) ==> (r matches Ok(s) && s@ == sanitized(name@)),
        !name_ok(name@) ==> is_other(r, "invalid name"@),
{
    let v = chars_of(name);
    let mut out = String::new();
    let mut i: usize = 0;
    while i < v.len()
        invariant
            i <= v.len(),
            v@ == name@,
            out@ == sanitized(name@.take(i as int)),
        decreases v.len() - i,
    {
        let c = v[i];
        if safe(c) {
            out.push(c);
        } else {
            out.push('_');
        }
        assert(sanitized(name@.take(i + 1)) =~= sanitized(name@.take(i as int)).push(
            if safe_char(c) {
                c
            } else {
                '_'
            },
        ));
        i = i + 1;
    }
    assert(name@.take(v.len() as int) =~= name@);
    if out.as_str().is_empty() || str_eq(out.as_str(), ".") || str_eq(out.as_str(), "..") {
        return Err(ProcessError::Other(owned("invalid name")));
    }
    if contains_str(out.as_str(), "..") {
        return Err(ProcessError::Other(owned("invalid name")));
    }
    Ok(out)
}

/// A sanitized name holds only safe characters, one for each character of
/// the input.
pub proof fn law_sanitized_is_safe(s: Seq<char>)
    ensures
        sanitized(s).len() == s.len(),
        forall|i: int| 0 <= i < s.len() ==> safe_char(#[trigger] sanitized(s)[i]),
        forall|i: int| 0 <= i < s.len() && safe_char(s[i]) ==> #[trigger] sanitized(s)[i] == s[i],
{
}

/// `Path::file_name` of a path given as text.  What holds of every result
/// is that it occurs in the path; a path of one plain component other than
/// `.` and `..` is its own file name, and a path of plain names separated by
/// `/` has its last name as file name.  Beyond that the result depends on the
/// platform's path syntax and is left unsaid.
#[verifier::external_body]
fn path_file_name(p: &str) -> (r: Option<String>)
    ensures
        r matches Some(f) ==> contains(p@, f@),
        single_component(p@) ==> r is Some && r->0@ == p@,
        dir_and_name(p@) is Some ==> r is Some && r->0@ == name_part(p@),
{
    std::path::Path::new(p).file_name().and_then(|s| s.to_str()).map(|s| s.to_string())
}

/// The upload name from the final path component (read by
/// `Path::file_name`): trimmed, required, then sanitized.
pub fn sanitize_base(base: Option<&str>) -> (r: Result<String, ProcessError>)
    ensures
        ({
            let b = trim(
                match base {
                    Some(x) => x@,
                    None => Seq::empty(),
                },
            );
            &&& b.len() == 0 ==> is_other(r, "filename required"@)
            &&& b.len() > 0 && name_ok(b) ==> (r matches Ok(s) && s@ == sanitized(b))
            &&& b.len() > 0 && !name_ok(b) ==> is_other(r, "invalid name"@)
        }),
{
    let b = match base {
        Some(x) => trimmed(x),
        None => String::new(),
    };
    if b.as_str().is_empty() {
        return Err(ProcessError::Other(owned("filename required")));
    }
    sanitize_name(b.as_str())
}

/// What an upload's trimmed base name gives: the sanitized name, or the
/// message of the refusal.
pub open spec fn base_outcome(b: Seq<char>) -> Result<Seq<char>, Seq<char>> {
    if b.len() == 0 {
        Err("filename required"@)
    } else if name_ok(b) {
        Ok(sanitized(b))
    } else {
        Err("invalid name"@)
    }
}

/// The base name an upload name is read as, when the path has a shape whose
/// file name does not depend on the platform: one plain component, or plain
/// names separated by `/`.
pub open spec fn upload_base(name: Seq<char>) -> Option<Seq<char>> {
    if single_component(name) {
        Some(name)
    } else if dir_and_name(name) is Some {
        Some(name_part(name))
    } else {
        None
    }
}

/// The stored file name of an upload: the outcome of `sanitize_base` on the
/// path's file name.
pub fn sanitize_filename(name: &str) -> (r: Result<String, ProcessError>)
    ensures
        r matches Ok(s) ==> forall|i: int| 0 <= i < s@.len() ==> safe_char(#[trigger] s@[i]),
        upload_base(name@) is Some ==> match base_outcome(trim(upload_base(name@)->0)) {
            Ok(x) => r matches Ok(s) && s@ == x,
            Err(m) => is_other(r, m),
        },
{
    let base = path_file_name(name);
    let r = match base {
        Some(b) => sanitize_base(Some(b.as_str())),
        None => sanitize_base(None),
    };
    proof {
        if r is Ok {
            let s = r->Ok_0;
            assert forall|i: int| 0 <= i < s@.len() implies safe_char(#[trigger] s@[i]) by {
                let b = trim(
                    match base {
                        Some(x) => x@,
                        None => Seq::empty(),
                    },
                );
                assert(s@ == sanitized(b));
            }
        }
    }
    r
}

/// `std::path::Path::join`, shown as text.  What holds of every result:
/// when `child` is a plain name (no separator, no drive colon, not empty),
/// the result is `base` followed by `child`, with a separator in between
/// when one is needed.  For a base with no drive colon and no backslash it
/// is exactly: `child` for an empty base, `base + child` after a trailing
/// `/`, and otherwise one separator between them (a slash, or a backslash on Windows;
/// which one is the platform's).
#[verifier::external_body]
pub(crate) fn join_path(base: &str, child: &str) -> (r: String)
    ensures
        plain_name(child@) ==> joined(base@, child@, r@),
        plain_name(child@) && !base@.contains(':') && !base@.contains('\\') ==> sep_joined(
            base@,
            child@,
            r@,
        ),
{
    std::path::Path::new(base).join(child).display().to_string()
}

/// A digit `0-9` or a letter `a-f`.
pub open spec fn lower_hex_char(c: char) -> bool {
    ('0' <= c && c <= '9') || ('a' <= c && c <= 'f')
}

/// `path` is `base` followed by `child`, with at most one separator
/// between them.
pub open spec fn joined(base: Seq<char>, child: Seq<char>, path: Seq<char>) -> bool {
    path == base + child || path == base + "/"@ + child || path == base + "\\"@ + child
}

/// `path` is `child` under `base` with a separator exactly where one is
/// needed: none after an empty base or a trailing `/`, one otherwise.
pub open spec fn sep_joined(base: Seq<char>, child: Seq<char>, path: Seq<char>) -> bool {
    if base.len() == 0 {
        path == child
    } else if base.last() == '/' {
        path == base + child
    } else {
        path == base + "/"@ + child || path == base + "\\"@ + child
    }
}


/// The id of a version uploaded without one: upload time and the first 8
/// characters of a random id.
pub fn version_id_from(timestamp: &str, random_hex: &str) -> (r: String)
    ensures
        r@ == timestamp@ + "-"@ + random_hex@.take(if random_hex@.len() < 8 {
            random_hex@.len() as int
        } else {
            8
        }),
{
    let v = chars_of(random_hex);
    let n = if v.len() < 8 {
        v.len()
    } else {
        8
    };
    let short = string_of(&v, 0, n);
    assert(v@.subrange(0, n as int) =~= random_hex@.take(n as int));
    cat3(timestamp, "-", short.as_str())
}

/// `chrono`: the current UTC time as `%Y%m%d-%H%M%S`.  It depends on the
/// clock; nothing is stated of it.
#[verifier::external_body]
fn compact_utc_now() -> (r: String) {
    chrono::Utc::now().format("%Y%m%d-%H%M%S").to_string()
}

/// `uuid::Uuid::new_v4().simple()`: a random id written as 32 lowercase
/// hex digits.  Which digits come out is left free.
#[verifier::external_body]
pub(crate) fn uuid_simple() -> (r: String)
    ensures
        r@.len() == 32,
        forall|i: int| 0 <= i < 32 ==> lower_hex_char(#[trigger] r@[i]),
{
    uuid::Uuid::new_v4().simple().to_string()
}

/// A fresh version id: `YYYYmmdd-HHMMSS-xxxxxxxx`.  The time part comes
/// from the clock; the id ends in a dash and 8 random lowercase hex digits.
pub fn default_version_id() -> (r: String)
    ensures
        r@.len() >= 9,
        r@[r@.len() - 9] == '-',
        forall|i: int| r@.len() - 8 <= i < r@.len() ==> lower_hex_char(#[trigger] r@[i]),
{
    let ts = compact_utc_now();
    let u = uuid_simple();
    let r = version_id_from(ts.as_str(), u.as_str());
    proof {
        reveal_strlit("-");
        let t = ts@.len();
        assert forall|i: int| r@.len() - 8 <= i < r@.len() implies lower_hex_char(
            #[trigger] r@[i],
        ) by {
            assert(r@[i] == u@[i - t - 1]);
        }
    }
    r
}

/// The note kept with a version: trimmed, and dropped when empty.
pub fn clean_note(note: Option<&str>) -> (r: Option<String>)
    ensures
        match note {
            Some(n) => if trim(n@).len() > 0 {
                r matches Some(x) && x@ == trim(n@)
            } else {
                r is None
            },
            None => r is None,
        },
{
    match note {
        Some(n) => {
            let t = trimmed(n);
            if t.as_str().is_empty() {
                None
            } else {
                Some(t)
            }
        },
        None => None,
    }
}

/// The stored file name and the version id of an upload, before the
/// manifest is consulted: empty uploads are refused; the file name comes
/// from the last path component; the version given (trimmed, when not
/// blank) is sanitized, else `fallback_id` is used.
pub fn plan_upload(
    byte_count: usize,
    filename: &str,
    version: Option<&str>,
    fallback_id: String,
) -> (r: Result<(String, String), ProcessError>)
    ensures
        byte_count == 0 ==> is_other(r, "empty upload"@),
        r matches Ok((f, id)) ==> {
            &&& byte_count > 0
            &&& forall|i: int| 0 <= i < f@.len() ==> safe_char(#[trigger] f@[i])
            &&& match version {
                Some(v) if trim(v@).len() > 0 => name_ok(trim(v@)) && id@ == sanitized(trim(v@)),
                _ => id@ == fallback_id@,
            }
        },
        byte_count > 0 ==> match version {
            Some(v) if trim(v@).len() > 0 && !name_ok(trim(v@)) => r is Err,
            _ => true,
        },
        byte_count > 0 && upload_base(filename@) is Some ==> match base_outcome(
            trim(upload_base(filename@)->0),
        ) {
            Err(m) => is_other(r, m),
            Ok(f) => match version {
                Some(v) if trim(v@).len() > 0 => if name_ok(trim(v@)) {
                    r matches Ok((f2, id)) && f2@ == f && id@ == sanitized(trim(v@))
                } else {
                    is_other(r, "invalid name"@)
                },
                _ => r matches Ok((f2, id)) && f2@ == f && id@ == fallback_id@,
            },
        },
{
    if byte_count == 0 {
        return Err(ProcessError::Other(owned("empty upload")));
    }
    let f = sanitize_filename(filename)?;
    let id = match version {
        Some(v) => {
            let t = trimmed(v);
            if t.as_str().is_empty() {
                fallback_id
            } else {
                sanitize_name(t.as_str())?
            }
        },
        None => fallback_id,
    };
    Ok((f, id))
}

// ---------------------------------------------------------------------------
// What the API shows
// ---------------------------------------------------------------------------

/// A version as the API shows it.  `path` is the absolute path on the agent
/// host.
pub struct ArtifactInfo {
    pub id: String,
    pub filename: String,
    pub size: u64,
    pub uploaded_at: String,
    pub path: String,
    pub note: Option<String>,
    pub active: bool,
}

pub struct ArtifactList {
    pub service: String,
    pub active: Option<String>,
    pub previous: Option<String>,
    pub artifacts: Vec<ArtifactInfo>,
}

pub struct PublishResult {
    pub service: String,
    pub version: String,
    pub previous: Option<String>,
    pub path: String,
    pub status: ServiceStatus,
}

pub fn info_of(rec: &ArtifactRecord, path: String, active: bool) -> (r: ArtifactInfo)
    ensures
        r.id@ == rec.id@,
        r.filename@ == rec.filename@,
        r.size == rec.size,
        r.uploaded_at@ == rec.uploaded_at@,
        r.path == path,
        ostr(r.note) == ostr(rec.note),
        r.active == active,
{
    ArtifactInfo {
        id: rec.id.clone(),
        filename: rec.filename.clone(),
        size: rec.size,
        uploaded_at: rec.uploaded_at.clone(),
        path,
        note: crate::agent::models::copy_opt(&rec.note),
        active,
    }
}

/// The file of a version: `dir/{id}/{filename}`.
pub fn version_path(dir: &str, rec: &ArtifactRecord) -> (r: String)
    ensures
        plain_name(rec.id@) && plain_name(rec.filename@) ==> exists|d: Seq<char>|
            joined(dir@, rec.id@, d) && #[trigger] joined(d, rec.filename@, r@),
        plain_name(rec.id@) && plain_name(rec.filename@) && !dir@.contains(':')
            && !dir@.contains('\\') ==> exists|d: Seq<char>|
            #[trigger] sep_joined(dir@, rec.id@, d) && (!d.contains('\\') ==> sep_joined(
                d,
                rec.filename@,
                r@,
            )),
{
    let d = join_path(dir, rec.id.as_str());
    let r = join_path(d.as_str(), rec.filename.as_str());
    proof {
        if plain_name(rec.id@) && plain_name(rec.filename@) && !dir@.contains(':')
            && !dir@.contains('\\') {
            reveal_strlit("/");
            reveal_strlit("\\");
            lemma_contains_concat(dir@, "/"@, ':');
            lemma_contains_concat(dir@ + "/"@, rec.id@, ':');
            lemma_contains_concat(dir@, "\\"@, ':');
            lemma_contains_concat(dir@ + "\\"@, rec.id@, ':');
            lemma_contains_concat(dir@, rec.id@, ':');
            assert(!d@.contains(':'));
            assert(sep_joined(dir@, rec.id@, d@));
            assert(!d@.contains('\\') ==> sep_joined(d@, rec.filename@, r@));
        }
    }
    r
}

/// The listing of a manifest: newest first, each flagged when it is the
/// active version.
pub fn list_manifest(service: &str, dir: &str, m: &Manifest) -> (r: ArtifactList)
    ensures
        r.service@ == service@,
        ostr(r.active) == m@.active,
        ostr(r.previous) == m@.previous,
        r.artifacts@.len() == m@.versions.len(),
        forall|i: int| 0 <= i < m@.versions.len() ==> {
            let rec = m@.versions[m@.versions.len() - 1 - i];
            let info = #[trigger] r.artifacts@[i];
            &&& info.id@ == rec.id
            &&& info.filename@ == rec.filename
            &&& info.size == rec.size
            &&& info.uploaded_at@ == rec.uploaded_at
            &&& ostr(info.note) == rec.note
            &&& info.active == (m@.active == Some(rec.id))
        },
{
    let n = m.versions.len();
    let mut artifacts: Vec<ArtifactInfo> = Vec::new();
    let mut i: usize = 0;
    while i < n
        invariant
            i <= n,
            n == m@.versions.len(),
            artifacts@.len() == i,
            forall|k: int| 0 <= k < i ==> {
                let rec = m@.versions[n - 1 - k];
                let info = #[trigger] artifacts@[k];
                &&& info.id@ == rec.id
                &&& info.filename@ == rec.filename
                &&& info.size == rec.size
                &&& info.uploaded_at@ == rec.uploaded_at
                &&& ostr(info.note) == rec.note
                &&& info.active == (m@.active == Some(rec.id))
            },
        decreases n - i,
    {
        let rec = &m.versions[n - 1 - i];
        let active = match &m.active {
            Some(a) => str_eq(a.as_str(), rec.id.as_str()),
            None => false,
        };
        let path = version_path(dir, rec);
        artifacts.push(info_of(rec, path, active));
        i = i + 1;
    }
    ArtifactList {
        service: owned(service),
        active: crate::agent::models::copy_opt(&m.active),
        previous: crate::agent::models::copy_opt(&m.previous),
        artifacts,
    }
}

/// Points a saved spec at an artifact: jar and script services take the
/// path (and keep their kind); command services are refused.
pub fn apply_path_to_spec(spec: &mut ServiceSpec, path: &str) -> (r: Result<(), ProcessError>)
    ensures
        final(spec)@.env == old(spec)@.env,
        env_names_unique(old(spec)@.env) ==> env_names_unique(final(spec)@.env),
        match crate::agent::models::resolved_kind_of(old(spec)@) {
            None => is_other(r, crate::agent::models::kind_required_message()) && final(spec)@
                == old(spec)@,
            Some(ServiceKind::Jar) => r is Ok && final(spec)@ == (crate::agent::models::ServiceSpecView {
                jar_path: Some(path@),
                kind: Some(ServiceKind::Jar),
                ..old(spec)@
            }),
            Some(ServiceKind::Script) => r is Ok && final(spec)@ == (crate::agent::models::ServiceSpecView {
                script_path: Some(path@),
                kind: Some(ServiceKind::Script),
                ..old(spec)@
            }),
            Some(ServiceKind::Command) => is_other(
                r,
                "artifact publish is only supported for jar and script services"@,
            ) && final(spec)@ == old(spec)@,
        },
{
    let kind = match spec.resolved_kind() {
        Ok(k) => k,
        Err(m) => return Err(ProcessError::Other(m)),
    };
    match kind {
        ServiceKind::Jar => {
            spec.jar_path = Some(owned(path));
            spec.kind = Some(ServiceKind::Jar);
        },
        ServiceKind::Script => {
            spec.script_path = Some(owned(path));
            spec.kind = Some(ServiceKind::Script);
        },
        ServiceKind::Command => {
            return Err(ProcessError::Other(owned(
                "artifact publish is only supported for jar and script services",
            )));
        },
    }
    Ok(())
}

/// Where a publish is: stopping the service, activating the version,
/// starting the service again, or finished.
#[derive(PartialEq, Eq, Structural, Clone, Copy)]
pub enum PublishStage {
    Stop,
    Activate,
    Start,
    Finished,
}

/// What the caller learned from the step it performed.
pub enum PublishEvent {
    /// The stop's outcome (`NotRunning` when nothing was running).
    Stopped(Result<(), ProcessError>),
    /// The activation's outcome.
    Activated(Result<(), ProcessError>),
    /// The start's outcome.
    Started(Result<(), ProcessError>),
}

/// What the caller does next.
pub enum PublishAction {
    /// Activate the version (point the spec at its file, update the manifest).
    Activate,
    /// Start the service from its saved spec.
    StartSaved,
    /// Done: report the service's current status.
    FinishWithStatus,
    /// Done: report the status the start gave.
    FinishStarted,
    /// The publish failed with this error.
    Fail(ProcessError),
}

/// The event that can follow each stage.
pub open spec fn publish_event_fits(stage: PublishStage, event: PublishEvent) -> bool {
    match stage {
        PublishStage::Stop => event is Stopped,
        PublishStage::Activate => event is Activated,
        PublishStage::Start => event is Started,
        PublishStage::Finished => false,
    }
}

/// The stage a publish moves to: stop first, then activate, then (when asked)
/// start; any failure finishes it.
pub open spec fn next_publish_stage(stage: PublishStage, start_after: bool, event: PublishEvent) -> PublishStage {
    match (stage, event) {
        (PublishStage::Stop, PublishEvent::Stopped(r)) => match r {
            Ok(_) => PublishStage::Activate,
            Err(ProcessError::NotRunning) => PublishStage::Activate,
            Err(_) => PublishStage::Finished,
        },
        (PublishStage::Activate, PublishEvent::Activated(Ok(_))) => if start_after {
            PublishStage::Start
        } else {
            PublishStage::Finished
        },
        _ => PublishStage::Finished,
    }
}

/// What a publish does after a step: a stop that succeeded or found nothing
/// running leads to the activation, any other stop error ends the publish
/// before it; an activation leads to the start when asked, else to the
/// status; a failed activation or start ends it with that error.
pub open spec fn publish_action_ok(
    stage: PublishStage,
    start_after: bool,
    event: PublishEvent,
    a: PublishAction,
) -> bool {
    match (stage, event) {
        (PublishStage::Stop, PublishEvent::Stopped(r)) => match r {
            Ok(_) => a is Activate,
            Err(ProcessError::NotRunning) => a is Activate,
            Err(e) => a == PublishAction::Fail(e),
        },
        (PublishStage::Activate, PublishEvent::Activated(r)) => match r {
            Ok(_) => if start_after {
                a is StartSaved
            } else {
                a is FinishWithStatus
            },
            Err(e) => a == PublishAction::Fail(e),
        },
        (PublishStage::Start, PublishEvent::Started(r)) => match r {
            Ok(_) => a is FinishStarted,
            Err(e) => a == PublishAction::Fail(e),
        },
        _ => false,
    }
}

/// Takes one step of a publish: the next stage and what to do.
pub fn publish_step(stage: PublishStage, start_after: bool, event: PublishEvent) -> (r: (
    PublishStage,
    PublishAction,
))
    requires
        publish_event_fits(stage, event),
    ensures
        r.0 == next_publish_stage(stage, start_after, event),
        publish_action_ok(stage, start_after, event, r.1),
{
    match (stage, event) {
        (PublishStage::Stop, PublishEvent::Stopped(r)) => match r {
            Ok(_) => (PublishStage::Activate, PublishAction::Activate),
            Err(ProcessError::NotRunning) => (PublishStage::Activate, PublishAction::Activate),
            Err(e) => (PublishStage::Finished, PublishAction::Fail(e)),
        },
        (PublishStage::Activate, PublishEvent::Activated(r)) => match r {
            Ok(_) => if start_after {
                (PublishStage::Start, PublishAction::StartSaved)
            } else {
                (PublishStage::Finished, PublishAction::FinishWithStatus)
            },
            Err(e) => (PublishStage::Finished, PublishAction::Fail(e)),
        },
        (PublishStage::Start, PublishEvent::Started(r)) => match r {
            Ok(_) => (PublishStage::Finished, PublishAction::FinishStarted),
            Err(e) => (PublishStage::Finished, PublishAction::Fail(e)),
        },
        _ => (PublishStage::Finished, PublishAction::FinishWithStatus),
    }
}

/// A publish runs in order: the version is activated only after the stop
/// (that succeeded or found nothing running), and the service is started
/// only after a successful activation, and only when asked; it finishes
/// successfully only after the activation (and the start, when asked).
pub proof fn law_publish_order(stage: PublishStage, start_after: bool, event: PublishEvent, a: PublishAction)
    requires
        publish_event_fits(stage, event),
        publish_action_ok(stage, start_after, event, a),
    ensures
        a is Activate ==> stage == PublishStage::Stop && (event matches PublishEvent::Stopped(r) && (r
            is Ok || r == Err::<(), ProcessError>(ProcessError::NotRunning))),
        a is StartSaved ==> stage == PublishStage::Activate && start_after && (event matches PublishEvent::Activated(
            r,
        ) && r is Ok),
        a is FinishWithStatus ==> stage == PublishStage::Activate && !start_after,
        a is FinishStarted ==> stage == PublishStage::Start && event matches PublishEvent::Started(Ok(_)),
{
}

/// The artifact root of an agent: `data_dir/artifacts`.
pub struct ArtifactStore {
    pub root: String,
}

impl ArtifactStore {
    pub fn new(data_dir: &str) -> (s: Self)
        ensures
            joined(data_dir@, "artifacts"@, s.root@),
            !data_dir@.contains(':') && !data_dir@.contains('\\') ==> sep_joined(
                data_dir@,
                "artifacts"@,
                s.root@,
            ),
    {
        proof {
            reveal_strlit("artifacts");
            assert(!"artifacts"@.contains('/'));
        }
        ArtifactStore { root: join_path(data_dir, "artifacts") }
    }

    /// The directory of a service: its name sanitized, under the root.
    pub fn service_dir(&self, service: &str) -> (r: Result<String, ProcessError>)
        ensures
            !name_ok(service@) ==> is_other(r, "invalid name"@),
            name_ok(service@) ==> (r matches Ok(d) && joined(self.root@, sanitized(service@), d@)),
            name_ok(service@) && !self.root@.contains(':') && !self.root@.contains('\\') ==> (r matches Ok(
                d,
            ) && sep_joined(self.root@, sanitized(service@), d@)),
    {
        let safe_name = sanitize_name(service)?;
        proof {
            let s = safe_name@;
            assert forall|i: int| 0 <= i < s.len() implies safe_char(#[trigger] s[i]) by {}
            assert(!s.contains('/'));
            assert(!s.contains('\\'));
            assert(!s.contains(':'));
        }
        Ok(join_path(self.root.as_str(), safe_name.as_str()))
    }
}

// ---------------------------------------------------------------------------
// Laws
// ---------------------------------------------------------------------------

/// Activating a version twice is the same as activating it once.
pub proof fn law_activate_idempotent(m: ManifestView, v: Seq<char>)
    ensures
        activated(activated(m, v), v) == activated(m, v),
{
}

/// Publishing a version other than the active one and then rolling back
/// makes the formerly active version active again, with the published one
/// as previous; the versions are untouched.
pub proof fn law_publish_then_rollback(m: ManifestView, v: Seq<char>)
    requires
        m.active is Some,
        m.active != Some(v),
    ensures
        ({
            let published = activated(m, v);
            let rolled_back = activated(published, published.previous->0);
            &&& published.previous == m.active
            &&& rolled_back.active == m.active
            &&& rolled_back.previous == Some(v)
            &&& rolled_back.versions == m.versions
        }),
{
}
/// The ids of some versions, in order.
pub open spec fn record_ids(v: Seq<RecordView>) -> Seq<Seq<char>> {
    v.map_values(|r: RecordView| r.id)
}

/// Pruning cuts at `k`: the first `k` versions are dropped (their ids, in
/// order), the rest are kept, and `k` is the first place where at most
/// `MAX_KEEP` versions remain or the oldest one left is active or previous.
pub open spec fn prune_cut_at(
    v: Seq<RecordView>,
    active: Option<Seq<char>>,
    previous: Option<Seq<char>>,
    k: int,
) -> bool {
    &&& 0 <= k <= v.len()
    &&& prune(v, active, previous).0 == v.skip(k)
    &&& prune(v, active, previous).1 == record_ids(v.take(k))
    &&& (v.len() - k <= MAX_KEEP || active == Some(v[k].id) || previous == Some(v[k].id))
    &&& forall|j: int| 0 <= j < k ==> #[trigger] droppable(v, active, previous, j)
}

/// The version at `j` may be dropped: more than `MAX_KEEP` remain from it on,
/// and it is neither active nor previous.
pub open spec fn droppable(
    v: Seq<RecordView>,
    active: Option<Seq<char>>,
    previous: Option<Seq<char>>,
    j: int,
) -> bool {
    v.len() - j > MAX_KEEP && active != Some(v[j].id) && previous != Some(v[j].id)
}

/// Pruning drops the oldest versions while more than `MAX_KEEP` remain and
/// the oldest is neither active nor previous, and nothing else.
pub proof fn law_prune_closed_form(
    v: Seq<RecordView>,
    active: Option<Seq<char>>,
    previous: Option<Seq<char>>,
)
    ensures
        exists|k: int| #[trigger] prune_cut_at(v, active, previous, k),
    decreases v.len(),
{
    if v.len() <= MAX_KEEP || active == Some(v[0].id) || previous == Some(v[0].id) {
        assert(v.skip(0) =~= v);
        assert(record_ids(v.take(0)) =~= Seq::<Seq<char>>::empty());
        assert(prune_cut_at(v, active, previous, 0));
    } else {
        let rest = v.drop_first();
        law_prune_closed_form(rest, active, previous);
        let k = choose|k: int| #[trigger] prune_cut_at(rest, active, previous, k);
        assert(rest.skip(k) =~= v.skip(k + 1));
        assert(seq![v[0].id] + record_ids(rest.take(k)) =~= record_ids(v.take(k + 1)));
        if v.len() - (k + 1) > MAX_KEEP {
            assert(rest[k] == v[k + 1]);
        }
        assert forall|j: int| 0 <= j < k + 1 implies #[trigger] droppable(v, active, previous, j) by {
            if j > 0 {
                assert(rest[j - 1] == v[j]);
                assert(droppable(rest, active, previous, j - 1));
            }
        }
        assert(prune(v, active, previous).0 == v.skip(k + 1));
        assert(prune(v, active, previous).1 == record_ids(v.take(k + 1)));
        assert(v.len() - (k + 1) <= MAX_KEEP || active == Some(v[k + 1].id) || previous == Some(
            v[k + 1].id,
        ));
        assert(prune_cut_at(v, active, previous, k + 1));
    }
}


/// Pruning never drops the active or the previous version, and it leaves
/// at most `MAX_KEEP` versions unless the oldest kept one is pinned.
pub proof fn law_prune_keeps_pinned(
    v: Seq<RecordView>,
    active: Option<Seq<char>>,
    previous: Option<Seq<char>>,
)
    ensures
        forall|k: int|
            0 <= k < v.len() && (active == Some(v[k].id) || previous == Some(v[k].id))
                ==> has_version(prune(v, active, previous).0, #[trigger] v[k].id),
        prune(v, active, previous).0.len() <= MAX_KEEP || active == Some(
            prune(v, active, previous).0[0].id,
        ) || previous == Some(prune(v, active, previous).0[0].id),
        prune(v, active, previous).0.len() + prune(v, active, previous).1.len() == v.len(),
    decreases v.len(),
{
    if v.len() > MAX_KEEP && !(active == Some(v[0].id) || previous == Some(v[0].id)) {
        let rest = v.drop_first();
        law_prune_keeps_pinned(rest, active, previous);
        assert forall|k: int|
            0 <= k < v.len() && (active == Some(v[k].id) || previous == Some(v[k].id))
                implies has_version(prune(v, active, previous).0, #[trigger] v[k].id) by {
            assert(k != 0);
            assert(rest[k - 1] == v[k]);
        }
    } else {
        assert forall|k: int|
            0 <= k < v.len() && (active == Some(v[k].id) || previous == Some(v[k].id))
                implies has_version(prune(v, active, previous).0, #[trigger] v[k].id) by {
            assert(prune(v, active, previous).0[k] == v[k]);
        }
    }
}

} // verus!
