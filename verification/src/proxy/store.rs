//! The proxy's upstream registry: records keyed by id, kept in id order.
//! Its abstract value is a map from id to record; every operation is
//! stated as the map it leaves behind.
use vstd::prelude::*;
use crate::text::{
    blank, cat, contains_char, is_blank, lemma_seq_less_irreflexive,
    lemma_seq_less_total, lemma_seq_less_trans, norm_url, normalized_url, owned, seq_less,
    str_eq, str_less, trim, trimmed,
};
use crate::proxy::config::{Upstream, UpstreamAgent, UpstreamData};

verus! {

#[derive(Debug)]
pub enum StoreError {
    NotFound,
    Duplicate(String),
    Other(String),
}

impl StoreError {
    /// The text the error displays.
    pub open spec fn text(&self) -> Seq<char> {
        match self {
            StoreError::NotFound => "upstream not found"@,
            StoreError::Duplicate(id) => "upstream id already exists: "@ + id@,
            StoreError::Other(m) => m@,
        }
    }

    pub fn message(&self) -> (r: String)
        ensures
            r@ == self.text(),
    {
        match self {
            StoreError::NotFound => owned("upstream not found"),
            StoreError::Duplicate(id) => cat("upstream id already exists: ", id.as_str()),
            StoreError::Other(m) => owned(m.as_str()),
        }
    }
}

/// `r` is the error `Other` with message `m`.
pub open spec fn is_other<T>(r: Result<T, StoreError>, m: Seq<char>) -> bool {
    r matches Err(StoreError::Other(x)) && x@ == m
}

#[derive(Debug)]
pub struct UpstreamRecord {
    pub id: String,
    pub name: String,
    pub base_url: String,
    pub token: String,
}

pub struct UpstreamRecordView {
    pub id: Seq<char>,
    pub name: Seq<char>,
    pub base_url: Seq<char>,
    pub token: Seq<char>,
}

impl View for UpstreamRecord {
    type V = UpstreamRecordView;

    open spec fn view(&self) -> UpstreamRecordView {
        UpstreamRecordView {
            id: self.id@,
            name: self.name@,
            base_url: self.base_url@,
            token: self.token@,
        }
    }
}

pub open spec fn opt_view(o: Option<String>) -> Option<Seq<char>> {
    match o {
        Some(s) => Some(s@),
        None => None,
    }
}

/// The display name: the given name (or the id) trimmed, falling back to
/// the trimmed id when that is empty.
pub open spec fn default_name(name: Option<Seq<char>>, id: Seq<char>) -> Seq<char> {
    let n = trim(
        match name {
            Some(x) => x,
            None => id,
        },
    );
    if n.len() == 0 {
        trim(id)
    } else {
        n
    }
}

pub open spec fn record_from_agent(a: UpstreamAgent) -> UpstreamRecordView {
    UpstreamRecordView {
        id: trim(a.id@),
        name: default_name(opt_view(a.name), a.id@),
        base_url: norm_url(a.base_url@),
        token: a.token@,
    }
}

pub open spec fn upstream_of(r: UpstreamRecordView) -> UpstreamData {
    UpstreamData { id: r.id, name: r.name, base_url: norm_url(r.base_url), token: r.token }
}

pub open spec fn bad_id(id: Seq<char>) -> bool {
    id.contains('/') || id.contains('\\') || id.contains(' ')
}

/// The message `validate` rejects a record with, if any.
pub open spec fn validation_error(r: UpstreamRecordView) -> Option<Seq<char>> {
    if blank(r.id) {
        Some("id is required"@)
    } else if bad_id(r.id) {
        Some("id cannot contain spaces or path separators"@)
    } else if blank(r.base_url) {
        Some("base_url is required"@)
    } else if blank(r.token) {
        Some("token is required"@)
    } else if blank(r.name) {
        Some("name is required"@)
    } else {
        None
    }
}

fn optional_or(o: &Option<String>, fallback: &String) -> (r: String)
    ensures
        r@ == match opt_view(*o) {
            Some(x) => x,
            None => fallback@,
        },
{
    match o {
        Some(s) => owned(s.as_str()),
        None => owned(fallback.as_str()),
    }
}

fn name_or_id(name: &Option<String>, id: &String) -> (r: String)
    ensures
        r@ == default_name(opt_view(*name), id@),
{
    let raw = optional_or(name, id);
    let n = trimmed(raw.as_str());
    if n.as_str().is_empty() {
        trimmed(id.as_str())
    } else {
        n
    }
}

impl UpstreamRecord {
    /// A field-by-field copy.
    pub fn duplicate(&self) -> (r: Self)
        ensures
            r@ == self@,
    {
        UpstreamRecord {
            id: self.id.clone(),
            name: self.name.clone(),
            base_url: self.base_url.clone(),
            token: self.token.clone(),
        }
    }

    pub fn to_upstream(&self) -> (u: Upstream)
        ensures
            u@ == upstream_of(self@),
    {
        Upstream {
            id: self.id.clone(),
            name: self.name.clone(),
            base_url: normalized_url(self.base_url.as_str()),
            token: self.token.clone(),
        }
    }

    pub fn from_agent(a: &UpstreamAgent) -> (r: Self)
        ensures
            r@ == record_from_agent(*a),
    {
        UpstreamRecord {
            id: trimmed(a.id.as_str()),
            name: name_or_id(&a.name, &a.id),
            base_url: normalized_url(a.base_url.as_str()),
            token: a.token.clone(),
        }
    }

    pub fn validate(&self) -> (r: Result<(), StoreError>)
        ensures
            match validation_error(self@) {
                None => r is Ok,
                Some(m) => is_other(r, m),
            },
    {
        if is_blank(self.id.as_str()) {
            return Err(StoreError::Other(owned("id is required")));
        }
        if contains_char(self.id.as_str(), '/') || contains_char(self.id.as_str(), '\\')
            || contains_char(self.id.as_str(), ' ') {
            return Err(StoreError::Other(owned("id cannot contain spaces or path separators")));
        }
        if is_blank(self.base_url.as_str()) {
            return Err(StoreError::Other(owned("base_url is required")));
        }
        if is_blank(self.token.as_str()) {
            return Err(StoreError::Other(owned("token is required")));
        }
        if is_blank(self.name.as_str()) {
            return Err(StoreError::Other(owned("name is required")));
        }
        Ok(())
    }
}

pub struct UpsertUpstreamRequest {
    pub id: String,
    pub name: Option<String>,
    pub base_url: String,
    pub token: String,
}

pub struct UpdateUpstreamRequest {
    pub name: Option<String>,
    pub base_url: Option<String>,
    pub token: Option<String>,
}

/// The record `create` builds from a request.
pub open spec fn record_from_request(req: UpsertUpstreamRequest) -> UpstreamRecordView {
    UpstreamRecordView {
        id: trim(req.id@),
        name: default_name(opt_view(req.name), req.id@),
        base_url: norm_url(req.base_url@),
        token: trim(req.token@),
    }
}

/// What `update` does to a record: each present field is checked and set in
/// turn, stopping at the first empty one; the result is then validated.
/// The record keeps the fields set before a failure.
pub open spec fn apply_update(rec: UpstreamRecordView, req: UpdateUpstreamRequest) -> (
    UpstreamRecordView,
    Option<Seq<char>>,
) {
    let name_step = match req.name {
        Some(n) => if trim(n@).len() == 0 {
            (rec, Some("name cannot be empty"@))
        } else {
            (UpstreamRecordView { name: trim(n@), ..rec }, None)
        },
        None => (rec, None),
    };
    if name_step.1 is Some {
        name_step
    } else {
        let r1 = name_step.0;
        let url_step = match req.base_url {
            Some(u) => if norm_url(u@).len() == 0 {
                (r1, Some("base_url cannot be empty"@))
            } else {
                (UpstreamRecordView { base_url: norm_url(u@), ..r1 }, None)
            },
            None => (r1, None),
        };
        if url_step.1 is Some {
            url_step
        } else {
            let r2 = url_step.0;
            let token_step = match req.token {
                Some(t) => if trim(t@).len() == 0 {
                    (r2, Some("token cannot be empty"@))
                } else {
                    (UpstreamRecordView { token: trim(t@), ..r2 }, None)
                },
                None => (r2, None),
            };
            if token_step.1 is Some {
                token_step
            } else {
                (token_step.0, validation_error(token_step.0))
            }
        }
    }
}

// ---------------------------------------------------------------------------
// Ordered records and their map
// ---------------------------------------------------------------------------

pub open spec fn sorted_ids(s: Seq<UpstreamRecordView>) -> bool {
    forall|i: int, j: int| 0 <= i < j < s.len() ==> seq_less(s[i].id, s[j].id)
}

pub open spec fn has_key(s: Seq<UpstreamRecordView>, k: Seq<char>) -> bool {
    exists|i: int| 0 <= i < s.len() && (#[trigger] s[i]).id == k
}

pub open spec fn to_map(s: Seq<UpstreamRecordView>) -> Map<Seq<char>, UpstreamRecordView> {
    Map::new(
        |k: Seq<char>| has_key(s, k),
        |k: Seq<char>| s[choose|i: int| 0 <= i < s.len() && (#[trigger] s[i]).id == k],
    )
}

pub proof fn lemma_ids_distinct(s: Seq<UpstreamRecordView>, i: int, j: int)
    requires
        sorted_ids(s),
        0 <= i < s.len(),
        0 <= j < s.len(),
        i != j,
    ensures
        s[i].id != s[j].id,
{
    if i < j {
        lemma_seq_less_irreflexive(s[i].id);
    } else {
        lemma_seq_less_irreflexive(s[j].id);
    }
}

pub proof fn lemma_lookup(s: Seq<UpstreamRecordView>, i: int)
    requires
        sorted_ids(s),
        0 <= i < s.len(),
    ensures
        to_map(s).dom().contains(s[i].id),
        to_map(s)[s[i].id] == s[i],
{
    let k = s[i].id;
    assert(has_key(s, k));
    let j = choose|j: int| 0 <= j < s.len() && (#[trigger] s[j]).id == k;
    if j != i {
        lemma_ids_distinct(s, i, j);
    }
}

pub proof fn lemma_insert_map(s: Seq<UpstreamRecordView>, p: int, r: UpstreamRecordView)
    requires
        sorted_ids(s),
        0 <= p <= s.len(),
        sorted_ids(s.insert(p, r)),
        !has_key(s, r.id),
    ensures
        to_map(s.insert(p, r)) == to_map(s).insert(r.id, r),
{
    let t = s.insert(p, r);
    assert forall|k: Seq<char>| #[trigger] has_key(t, k) <==> has_key(s, k) || k == r.id by {
        if has_key(t, k) {
            let i = choose|i: int| 0 <= i < t.len() && (#[trigger] t[i]).id == k;
            if i < p {
                assert(s[i].id == k);
            } else if i > p {
                assert(s[i - 1].id == k);
            }
        }
        if has_key(s, k) {
            let i = choose|i: int| 0 <= i < s.len() && (#[trigger] s[i]).id == k;
            if i < p {
                assert(t[i].id == k);
            } else {
                assert(t[i + 1].id == k);
            }
        }
        if k == r.id {
            assert(t[p].id == k);
        }
    }
    assert forall|k: Seq<char>| #[trigger] to_map(t).dom().contains(k) implies to_map(t)[k]
        == to_map(s).insert(r.id, r)[k] by {
        if k == r.id {
            lemma_lookup(t, p);
        } else {
            let i = choose|i: int| 0 <= i < s.len() && (#[trigger] s[i]).id == k;
            lemma_lookup(s, i);
            if i < p {
                lemma_lookup(t, i);
            } else {
                lemma_lookup(t, i + 1);
            }
        }
    }
    assert(to_map(t) =~= to_map(s).insert(r.id, r));
}

pub proof fn lemma_remove_map(s: Seq<UpstreamRecordView>, p: int)
    requires
        sorted_ids(s),
        0 <= p < s.len(),
    ensures
        sorted_ids(s.remove(p)),
        to_map(s.remove(p)) == to_map(s).remove(s[p].id),
{
    let t = s.remove(p);
    assert forall|i: int, j: int| 0 <= i < j < t.len() implies seq_less(t[i].id, t[j].id) by {
        let a = if i < p { i } else { i + 1 };
        let b = if j < p { j } else { j + 1 };
        assert(t[i] == s[a] && t[j] == s[b]);
    }
    assert forall|k: Seq<char>| #[trigger] has_key(t, k) <==> has_key(s, k) && k != s[p].id by {
        if has_key(t, k) {
            let i = choose|i: int| 0 <= i < t.len() && (#[trigger] t[i]).id == k;
            let a = if i < p { i } else { i + 1 };
            assert(s[a].id == k);
            lemma_ids_distinct(s, a, p);
        }
        if has_key(s, k) && k != s[p].id {
            let i = choose|i: int| 0 <= i < s.len() && (#[trigger] s[i]).id == k;
            if i < p {
                assert(t[i].id == k);
            } else {
                assert(i != p);
                assert(t[i - 1].id == k);
            }
        }
    }
    assert forall|k: Seq<char>| #[trigger] to_map(t).dom().contains(k) implies to_map(t)[k]
        == to_map(s)[k] by {
        let i = choose|i: int| 0 <= i < t.len() && (#[trigger] t[i]).id == k;
        lemma_lookup(t, i);
        let a = if i < p { i } else { i + 1 };
        assert(t[i] == s[a]);
        lemma_lookup(s, a);
    }
    assert(to_map(t) =~= to_map(s).remove(s[p].id));
}

pub proof fn lemma_update_map(s: Seq<UpstreamRecordView>, p: int, r: UpstreamRecordView)
    requires
        sorted_ids(s),
        0 <= p < s.len(),
        r.id == s[p].id,
    ensures
        sorted_ids(s.update(p, r)),
        to_map(s.update(p, r)) == to_map(s).insert(r.id, r),
{
    let t = s.update(p, r);
    assert forall|k: Seq<char>| #[trigger] has_key(t, k) <==> has_key(s, k) by {
        if has_key(t, k) {
            let i = choose|i: int| 0 <= i < t.len() && (#[trigger] t[i]).id == k;
            assert(s[i].id == k);
        }
        if has_key(s, k) {
            let i = choose|i: int| 0 <= i < s.len() && (#[trigger] s[i]).id == k;
            assert(t[i].id == k);
        }
    }
    assert forall|k: Seq<char>| #[trigger] to_map(t).dom().contains(k) implies to_map(t)[k]
        == to_map(s).insert(r.id, r)[k] by {
        let i = choose|i: int| 0 <= i < t.len() && (#[trigger] t[i]).id == k;
        lemma_lookup(t, i);
        if i != p {
            lemma_lookup(s, i);
            lemma_ids_distinct(s, i, p);
        }
    }
    lemma_lookup(s, p);
    assert(to_map(t) =~= to_map(s).insert(r.id, r));
}

pub proof fn lemma_sorted_insert(s: Seq<UpstreamRecordView>, p: int, r: UpstreamRecordView)
    requires
        sorted_ids(s),
        0 <= p <= s.len(),
        forall|j: int| 0 <= j < p ==> seq_less(s[j].id, r.id),
        forall|j: int| p <= j < s.len() ==> seq_less(r.id, s[j].id),
    ensures
        sorted_ids(s.insert(p, r)),
{
    let t = s.insert(p, r);
    assert forall|i: int, j: int| 0 <= i < j < t.len() implies seq_less(t[i].id, t[j].id) by {
        if i < p && j < p {
        } else if i < p && j == p {
        } else if i < p && j > p {
            assert(t[j] == s[j - 1]);
        } else if i == p {
            assert(t[j] == s[j - 1]);
        } else {
            assert(t[i] == s[i - 1] && t[j] == s[j - 1]);
        }
    }
}

/// The map that inserting the records one after another gives: a later
/// record with the same id replaces an earlier one.
pub open spec fn records_map(s: Seq<UpstreamRecordView>) -> Map<Seq<char>, UpstreamRecordView>
    decreases s.len(),
{
    if s.len() == 0 {
        Map::empty()
    } else {
        records_map(s.drop_last()).insert(s.last().id, s.last())
    }
}

pub open spec fn views(v: Seq<UpstreamRecord>) -> Seq<UpstreamRecordView> {
    v.map_values(|r: UpstreamRecord| r@)
}

/// The registry.  Persistence to `upstreams.json` and locking belong to the
/// caller; this value is the in-memory map.
pub struct UpstreamStore {
    records: Vec<UpstreamRecord>,
}

impl View for UpstreamStore {
    type V = Map<Seq<char>, UpstreamRecordView>;

    closed spec fn view(&self) -> Map<Seq<char>, UpstreamRecordView> {
        to_map(views(self.records@))
    }
}

impl UpstreamStore {
    /// Records are kept in strictly increasing id order.
    pub closed spec fn wf(&self) -> bool {
        sorted_ids(views(self.records@))
    }

    pub fn new() -> (s: Self)
        ensures
            s.wf(),
            s@ == Map::<Seq<char>, UpstreamRecordView>::empty(),
    {
        let s = UpstreamStore { records: Vec::new() };
        assert(s@ =~= Map::<Seq<char>, UpstreamRecordView>::empty());
        s
    }

    /// The registry read back from `upstreams.json`: a later record with a
    /// repeated id wins.
    pub fn from_records(list: &Vec<UpstreamRecord>) -> (s: Self)
        ensures
            s.wf(),
            s@ == records_map(views(list@)),
    {
        let mut s = UpstreamStore::new();
        let mut i: usize = 0;
        while i < list.len()
            invariant
                i <= list.len(),
                s.wf(),
                s@ == records_map(views(list@).take(i as int)),
            decreases list.len() - i,
        {
            let d = list[i].duplicate();
            s.put(d);
            assert(views(list@).take(i + 1).drop_last() =~= views(list@).take(i as int));
            i = i + 1;
        }
        assert(views(list@).take(list.len() as int) =~= views(list@));
        s
    }

    /// The registry seeded from the `[[agents]]` of `config.toml`.
    pub fn seeded(agents: &Vec<UpstreamAgent>) -> (s: Self)
        ensures
            s.wf(),
            s@ == records_map(agents@.map_values(|a: UpstreamAgent| record_from_agent(a))),
    {
        let ghost all = agents@.map_values(|a: UpstreamAgent| record_from_agent(a));
        let mut s = UpstreamStore::new();
        let mut i: usize = 0;
        while i < agents.len()
            invariant
                i <= agents.len(),
                all == agents@.map_values(|a: UpstreamAgent| record_from_agent(a)),
                s.wf(),
                s@ == records_map(all.take(i as int)),
            decreases agents.len() - i,
        {
            let d = UpstreamRecord::from_agent(&agents[i]);
            s.put(d);
            assert(all.take(i + 1).drop_last() =~= all.take(i as int));
            i = i + 1;
        }
        assert(all.take(agents.len() as int) =~= all);
        s
    }

    /// Where `id` is, or would go: every earlier record sorts before it.
    fn position(&self, id: &str) -> (r: (usize, bool))
        requires
            self.wf(),
        ensures
            r.0 <= self.records@.len(),
            forall|j: int| 0 <= j < r.0 ==> seq_less(self.records@[j].id@, id@),
            r.1 ==> r.0 < self.records@.len() && self.records@[r.0 as int].id@ == id@,
            !r.1 ==> forall|j: int|
                r.0 <= j < self.records@.len() ==> seq_less(id@, self.records@[j].id@),
            r.1 <==> has_key(views(self.records@), id@),
    {
        let ghost s = views(self.records@);
        let mut i: usize = 0;
        while i < self.records.len() && str_less(self.records[i].id.as_str(), id)
            invariant
                i <= self.records@.len(),
                s == views(self.records@),
                forall|j: int| 0 <= j < i ==> seq_less(self.records@[j].id@, id@),
            decreases self.records.len() - i,
        {
            i = i + 1;
        }
        let found = i < self.records.len() && str_eq(self.records[i].id.as_str(), id);
        proof {
            if !found && i < self.records@.len() {
                lemma_seq_less_total(self.records@[i as int].id@, id@);
                assert forall|j: int| i <= j < self.records@.len() implies seq_less(
                    id@,
                    self.records@[j].id@,
                ) by {
                    if j > i {
                        assert(seq_less(s[i as int].id, s[j].id));
                        lemma_seq_less_trans(id@, self.records@[i as int].id@, self.records@[j].id@);
                    }
                }
            }
            if found {
                assert(s[i as int].id == id@);
            } else {
                assert forall|j: int| 0 <= j < s.len() implies (#[trigger] s[j]).id != id@ by {
                    if j < i {
                        lemma_seq_less_irreflexive(id@);
                    } else {
                        lemma_seq_less_irreflexive(id@);
                    }
                }
            }
        }
        (i, found)
    }

    /// The records in id order: every record once, sorted strictly by id.
    pub fn list(&self) -> (r: Vec<UpstreamRecord>)
        requires
            self.wf(),
        ensures
            sorted_ids(views(r@)),
            to_map(views(r@)) == self@,
            r@.len() == self@.len(),
    {
        let mut out: Vec<UpstreamRecord> = Vec::new();
        let mut i: usize = 0;
        while i < self.records.len()
            invariant
                i <= self.records@.len(),
                views(out@) == views(self.records@).take(i as int),
            decreases self.records.len() - i,
        {
            let ghost prev = out@;
            let d = self.records[i].duplicate();
            out.push(d);
            assert(views(out@) =~= views(prev).push(d@));
            assert(views(out@) =~= views(self.records@).take(i + 1));
            i = i + 1;
        }
        assert(views(self.records@).take(self.records@.len() as int) =~= views(self.records@));
        proof {
            law_list_is_permutation(views(out@), self@);
        }
        out
    }

    pub fn get(&self, id: &str) -> (r: Result<Upstream, StoreError>)
        requires
            self.wf(),
        ensures
            self@.dom().contains(id@) ==> (r matches Ok(u) && u@ == upstream_of(self@[id@])),
            !self@.dom().contains(id@) ==> (r matches Err(StoreError::NotFound)),
    {
        let (p, found) = self.position(id);
        if found {
            proof {
                lemma_lookup(views(self.records@), p as int);
            }
            Ok(self.records[p].to_upstream())
        } else {
            Err(StoreError::NotFound)
        }
    }

    /// Inserts `rec`, or replaces the record with the same id.
    pub fn put(&mut self, rec: UpstreamRecord)
        requires
            old(self).wf(),
        ensures
            final(self).wf(),
            final(self)@ == old(self)@.insert(rec.id@, rec@),
    {
        let ghost r = rec@;
        let (p, found) = self.position(rec.id.as_str());
        let ghost s = views(self.records@);
        if found {
            self.records.set(p, rec);
            proof {
                assert(views(self.records@) =~= s.update(p as int, r));
                lemma_update_map(s, p as int, r);
            }
        } else {
            self.records.insert(p, rec);
            proof {
                assert(views(self.records@) =~= s.insert(p as int, r));
                lemma_sorted_insert(s, p as int, r);
                lemma_insert_map(s, p as int, r);
            }
        }
    }

    pub fn create(&mut self, req: UpsertUpstreamRequest) -> (r: Result<UpstreamRecord, StoreError>)
        requires
            old(self).wf(),
        ensures
            final(self).wf(),
            ({
                let rec = record_from_request(req);
                match validation_error(rec) {
                    Some(m) => is_other(r, m) && final(self)@ == old(self)@,
                    None => if old(self)@.dom().contains(rec.id) {
                        &&& r matches Err(StoreError::Duplicate(x)) && x@ == rec.id
                        &&& final(self)@ == old(self)@
                    } else {
                        &&& r matches Ok(out) && out@ == rec
                        &&& final(self)@ == old(self)@.insert(rec.id, rec)
                    },
                }
            }),
    {
        let rec = UpstreamRecord {
            id: trimmed(req.id.as_str()),
            name: name_or_id(&req.name, &req.id),
            base_url: normalized_url(req.base_url.as_str()),
            token: trimmed(req.token.as_str()),
        };
        rec.validate()?;
        if rec.token.as_str().is_empty() {
            return Err(StoreError::Other(owned("token is required")));
        }
        let (p, found) = self.position(rec.id.as_str());
        if found {
            return Err(StoreError::Duplicate(rec.id));
        }
        let out = rec.duplicate();
        let ghost s = views(self.records@);
        let ghost rv = rec@;
        self.records.insert(p, rec);
        proof {
            assert(views(self.records@) =~= s.insert(p as int, rv));
            lemma_sorted_insert(s, p as int, rv);
            lemma_insert_map(s, p as int, rv);
        }
        Ok(out)
    }

    /// Applies `req` to the record `id`.  The record keeps whatever fields
    /// were set before a failing check, as the registry did in place.
    pub fn update(&mut self, id: &str, req: UpdateUpstreamRequest) -> (r: Result<
        UpstreamRecord,
        StoreError,
    >)
        requires
            old(self).wf(),
        ensures
            final(self).wf(),
            !old(self)@.dom().contains(id@) ==> (r matches Err(StoreError::NotFound)),
            !old(self)@.dom().contains(id@) ==> final(self)@ == old(self)@,
            old(self)@.dom().contains(id@) ==> ({
                let out = apply_update(old(self)@[id@], req);
                &&& final(self)@ == old(self)@.insert(id@, out.0)
                &&& match out.1 {
                    Some(m) => is_other(r, m),
                    None => r matches Ok(v) && v@ == out.0,
                }
            }),
    {
        let (p, found) = self.position(id);
        if !found {
            return Err(StoreError::NotFound);
        }
        proof {
            lemma_lookup(views(self.records@), p as int);
        }
        let ghost s = views(self.records@);
        let ghost orig = s[p as int];
        let mut rec = self.records[p].duplicate();
        let mut failure: Option<StoreError> = None;
        if let Some(name) = &req.name {
            let n = trimmed(name.as_str());
            if n.as_str().is_empty() {
                failure = Some(StoreError::Other(owned("name cannot be empty")));
            } else {
                rec.name = n;
            }
        }
        if failure.is_none() {
            if let Some(url) = &req.base_url {
                let u = normalized_url(url.as_str());
                if u.as_str().is_empty() {
                    failure = Some(StoreError::Other(owned("base_url cannot be empty")));
                } else {
                    rec.base_url = u;
                }
            }
        }
        if failure.is_none() {
            if let Some(token) = &req.token {
                let t = trimmed(token.as_str());
                if t.as_str().is_empty() {
                    failure = Some(StoreError::Other(owned("token cannot be empty")));
                } else {
                    rec.token = t;
                }
            }
        }
        let out = rec.duplicate();
        let ghost rv = rec@;
        assert(rv == apply_update(orig, req).0);
        self.records.set(p, rec);
        proof {
            assert(views(self.records@) =~= s.update(p as int, rv));
            lemma_update_map(s, p as int, rv);
        }
        match failure {
            Some(e) => Err(e),
            None => {
                out.validate()?;
                Ok(out)
            },
        }
    }

    pub fn remove(&mut self, id: &str) -> (r: Result<UpstreamRecord, StoreError>)
        requires
            old(self).wf(),
        ensures
            final(self).wf(),
            old(self)@.dom().contains(id@) ==> (r matches Ok(v) && v@ == old(self)@[id@]),
            old(self)@.dom().contains(id@) ==> final(self)@ == old(self)@.remove(id@),
            !old(self)@.dom().contains(id@) ==> (r matches Err(StoreError::NotFound)),
            !old(self)@.dom().contains(id@) ==> final(self)@ == old(self)@,
    {
        let (p, found) = self.position(id);
        if !found {
            return Err(StoreError::NotFound);
        }
        let ghost s = views(self.records@);
        proof {
            lemma_lookup(s, p as int);
            lemma_remove_map(s, p as int);
        }
        let rec = self.records.remove(p);
        assert(views(self.records@) =~= s.remove(p as int));
        Ok(rec)
    }
}

// ---------------------------------------------------------------------------
// Laws
// ---------------------------------------------------------------------------

/// After a successful `create`, `get` of the new id finds the record that
/// `create` returned, and every other id reads as before.
pub proof fn law_create_then_get(m: Map<Seq<char>, UpstreamRecordView>, req: UpsertUpstreamRequest)
    requires
        validation_error(record_from_request(req)) is None,
        !m.dom().contains(record_from_request(req).id),
    ensures
        ({
            let rec = record_from_request(req);
            let m2 = m.insert(rec.id, rec);
            &&& m2.dom().contains(rec.id)
            &&& upstream_of(m2[rec.id]) == upstream_of(rec)
            &&& forall|k: Seq<char>| k != rec.id ==> (#[trigger] m2.dom().contains(k) == m.dom().contains(k)) && (m.dom().contains(k) ==> m2[k] == m[k])
        }),
{
}

/// A second `create` with an id already present is refused and changes
/// nothing; removing a freshly created id gives back the registry before it.
pub proof fn law_create_remove_roundtrip(m: Map<Seq<char>, UpstreamRecordView>, rec: UpstreamRecordView)
    requires
        !m.dom().contains(rec.id),
    ensures
        m.insert(rec.id, rec).dom().contains(rec.id),
        m.insert(rec.id, rec).remove(rec.id) == m,
{
    assert(m.insert(rec.id, rec).remove(rec.id) =~= m);
}

/// `update` never changes a record's id, so the map key stays the record's own id.
pub proof fn law_update_keeps_id(rec: UpstreamRecordView, req: UpdateUpstreamRequest)
    ensures
        apply_update(rec, req).0.id == rec.id,
{
}

/// A successful `update` leaves a record that passes `validate`.
pub proof fn law_update_result_valid(rec: UpstreamRecordView, req: UpdateUpstreamRequest)
    ensures
        apply_update(rec, req).1 is None ==> validation_error(apply_update(rec, req).0) is None,
{
}

/// Every id `list` returns is unique (the list is strictly increasing).
pub proof fn law_list_ids_unique(s: Seq<UpstreamRecordView>, i: int, j: int)
    requires
        sorted_ids(s),
        0 <= i < s.len(),
        0 <= j < s.len(),
        i != j,
    ensures
        s[i].id != s[j].id,
{
    lemma_ids_distinct(s, i, j);
}

/// The ids of some records, in order.
pub open spec fn record_ids(s: Seq<UpstreamRecordView>) -> Seq<Seq<char>> {
    s.map_values(|r: UpstreamRecordView| r.id)
}

/// What `list` returns (sorted by id, and keyed by id equal to the store) is
/// the store's records each exactly once: as many as the store holds, each
/// one a stored record under its own id, and every stored record among them.
pub proof fn law_list_is_permutation(s: Seq<UpstreamRecordView>, m: Map<Seq<char>, UpstreamRecordView>)
    requires
        sorted_ids(s),
        to_map(s) == m,
    ensures
        s.len() == m.len(),
        forall|i: int| 0 <= i < s.len() ==> m.dom().contains(#[trigger] s[i].id) && m[s[i].id] == s[i],
        forall|k: Seq<char>| #[trigger] m.dom().contains(k) ==> exists|i: int|
            0 <= i < s.len() && s[i].id == k && #[trigger] s[i] == m[k],
{
    let ids = record_ids(s);
    assert forall|i: int, j: int| 0 <= i < ids.len() && 0 <= j < ids.len() && i != j implies ids[i]
        != ids[j] by {
        lemma_ids_distinct(s, i, j);
    }
    ids.unique_seq_to_set();
    assert forall|i: int| 0 <= i < s.len() implies m.dom().contains(#[trigger] s[i].id) && m[s[i].id]
        == s[i] by {
        assert(has_key(s, s[i].id));
        let c = choose|c: int| 0 <= c < s.len() && (#[trigger] s[c]).id == s[i].id;
        if c != i {
            lemma_ids_distinct(s, c, i);
        }
    }
    assert(m.dom() =~= ids.to_set()) by {
        assert forall|k: Seq<char>| m.dom().contains(k) implies ids.to_set().contains(k) by {
            let c = choose|c: int| 0 <= c < s.len() && (#[trigger] s[c]).id == k;
            assert(ids[c] == k);
        }
        assert forall|k: Seq<char>| ids.to_set().contains(k) implies m.dom().contains(k) by {
            let c = choose|c: int| 0 <= c < ids.len() && ids[c] == k;
            assert(s[c].id == k);
            assert(has_key(s, k));
        }
    }
    assert forall|k: Seq<char>| #[trigger] m.dom().contains(k) implies exists|i: int|
        0 <= i < s.len() && s[i].id == k && #[trigger] s[i] == m[k] by {
        let c = choose|c: int| 0 <= c < s.len() && (#[trigger] s[c]).id == k;
        assert(m.dom().contains(s[c].id) && m[s[c].id] == s[c]);
    }
}

/// A successful update sets every field the request gives (name and token
/// trimmed, base URL normalised), keeps every field it leaves out, and
/// never changes the id; an empty given field is refused, the first one in
/// the order name, base URL, token.
pub proof fn law_update_sets_given_fields(rec: UpstreamRecordView, req: UpdateUpstreamRequest)
    ensures
        ({
            let out = apply_update(rec, req);
            &&& out.0.id == rec.id
            &&& out.1 is None ==> {
                &&& (req.name matches Some(n) ==> out.0.name == trim(n@))
                &&& (req.name is None ==> out.0.name == rec.name)
                &&& (req.base_url matches Some(u) ==> out.0.base_url == norm_url(u@))
                &&& (req.base_url is None ==> out.0.base_url == rec.base_url)
                &&& (req.token matches Some(t) ==> out.0.token == trim(t@))
                &&& (req.token is None ==> out.0.token == rec.token)
            }
            &&& (req.name matches Some(n) && trim(n@).len() == 0) ==> out.1 == Some(
                "name cannot be empty"@,
            )
            &&& (req.name matches Some(n) && trim(n@).len() > 0 || req.name is None) && (
            req.base_url matches Some(u) && norm_url(u@).len() == 0) ==> out.1 == Some(
                "base_url cannot be empty"@,
            )
            &&& (req.name matches Some(n) && trim(n@).len() > 0 || req.name is None) && (
            req.base_url matches Some(u) && norm_url(u@).len() > 0 || req.base_url is None) && (
            req.token matches Some(t) && trim(t@).len() == 0) ==> out.1 == Some(
                "token cannot be empty"@,
            )
        }),
{
}

} // verus!
