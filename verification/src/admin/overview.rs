//! The cross-agent service overview: one row per service an agent reports,
//! one row for an agent whose reply is not a list, one row for an agent
//! that could not be reached.  The replies are read from the agents'
//! JSON into the plain values below.
use vstd::prelude::*;
use crate::text::{owned, str_eq};
use crate::admin::models::{OverviewResponse, OverviewRowView, OverviewServiceRow};

verus! {

/// A field value of a service as far as the overview reads it.
pub enum JsonScalar {
    Str(String),
    /// A number that is a non-negative integer fitting in `u64`.
    U64(u64),
    Bool(bool),
    /// Anything else: another number, null, an array or an object.
    Other,
}

/// One element of an agent's service list: its fields, in order (empty when
/// the element is not an object).
pub struct ServiceItem {
    pub fields: Vec<(String, JsonScalar)>,
}

pub enum JsonShape {
    Array(Vec<ServiceItem>),
    Other,
}

/// An agent's reply to the service listing: its `data` member (when the
/// reply is an object that has one) and the reply as a whole.
pub struct ServicesReply {
    pub data: Option<JsonShape>,
    pub whole: JsonShape,
}

/// What one agent answered, or the text of the error when it could not be
/// asked.
pub struct AgentFetch {
    pub agent_id: String,
    pub agent_name: String,
    pub outcome: Result<ServicesReply, String>,
}

/// The value of the first field named `key`.
pub open spec fn lookup(fields: Seq<(String, JsonScalar)>, key: Seq<char>) -> Option<JsonScalar>
    decreases fields.len(),
{
    if fields.len() == 0 {
        None
    } else {
        let r = lookup(fields.drop_last(), key);
        if r is Some {
            r
        } else if fields.last().0@ == key {
            Some(fields.last().1)
        } else {
            None
        }
    }
}

pub open spec fn as_str(v: Option<JsonScalar>) -> Option<Seq<char>> {
    match v {
        Some(JsonScalar::Str(s)) => Some(s@),
        _ => None,
    }
}

pub open spec fn as_u64(v: Option<JsonScalar>) -> Option<u64> {
    match v {
        Some(JsonScalar::U64(n)) => Some(n),
        _ => None,
    }
}

pub open spec fn as_bool(v: Option<JsonScalar>) -> Option<bool> {
    match v {
        Some(JsonScalar::Bool(b)) => Some(b),
        _ => None,
    }
}

pub open spec fn or_text(o: Option<Seq<char>>, d: Seq<char>) -> Seq<char> {
    match o {
        Some(s) => s,
        None => d,
    }
}

/// The row of one listed service.  The target is the `target` field when
/// the service has one (even when it is not text), else `jar_path`.
pub open spec fn item_row(agent_id: Seq<char>, agent_name: Seq<char>, f: Seq<(String, JsonScalar)>) -> OverviewRowView {
    OverviewRowView {
        agent_id,
        agent_name,
        agent_reachable: true,
        name: or_text(as_str(lookup(f, "name"@)), ""@),
        state: or_text(as_str(lookup(f, "state"@)), "unknown"@),
        kind: as_str(lookup(f, "kind"@)),
        pid: as_u64(lookup(f, "pid"@)),
        target: if lookup(f, "target"@) is Some {
            as_str(lookup(f, "target"@))
        } else {
            as_str(lookup(f, "jar_path"@))
        },
        message: as_str(lookup(f, "message"@)),
        healthy: as_bool(lookup(f, "healthy"@)),
        error: None,
    }
}

pub open spec fn blank_row(
    agent_id: Seq<char>,
    agent_name: Seq<char>,
    reachable: bool,
    state: Seq<char>,
    error: Seq<char>,
) -> OverviewRowView {
    OverviewRowView {
        agent_id,
        agent_name,
        agent_reachable: reachable,
        name: ""@,
        state,
        kind: None,
        pid: None,
        target: None,
        message: None,
        healthy: None,
        error: Some(error),
    }
}

/// The list an agent reports: the `data` member when there is one, else the
/// whole reply.
pub open spec fn payload(r: ServicesReply) -> JsonShape {
    match r.data {
        Some(d) => d,
        None => r.whole,
    }
}

pub open spec fn rows_for(f: AgentFetch) -> Seq<OverviewRowView> {
    match f.outcome {
        Err(e) => seq![blank_row(f.agent_id@, f.agent_name@, false, "unreachable"@, e@)],
        Ok(reply) => match payload(reply) {
            JsonShape::Array(items) => items@.map_values(
                |it: ServiceItem| item_row(f.agent_id@, f.agent_name@, it.fields@),
            ),
            JsonShape::Other => seq![
                blank_row(f.agent_id@, f.agent_name@, true, "unknown"@, "unexpected services payload"@),
            ],
        },
    }
}

pub open spec fn all_rows(fs: Seq<AgentFetch>) -> Seq<OverviewRowView>
    decreases fs.len(),
{
    if fs.len() == 0 {
        Seq::empty()
    } else {
        all_rows(fs.drop_last()) + rows_for(fs.last())
    }
}

pub open spec fn reachable_count(fs: Seq<AgentFetch>) -> nat
    decreases fs.len(),
{
    if fs.len() == 0 {
        0
    } else {
        reachable_count(fs.drop_last()) + if fs.last().outcome is Ok {
            1nat
        } else {
            0nat
        }
    }
}

proof fn lemma_lookup_prefix(fields: Seq<(String, JsonScalar)>, key: Seq<char>, i: int, j: int)
    requires
        0 <= i <= j <= fields.len(),
        lookup(fields.take(i), key) is Some,
    ensures
        lookup(fields.take(j), key) == lookup(fields.take(i), key),
    decreases j - i,
{
    if i < j {
        lemma_lookup_prefix(fields, key, i, j - 1);
        assert(fields.take(j).drop_last() =~= fields.take(j - 1));
    }
}

/// The first field named `key`, by position.
fn find_field(fields: &Vec<(String, JsonScalar)>, key: &str) -> (r: Option<usize>)
    ensures
        match r {
            Some(i) => i < fields@.len() && lookup(fields@, key@) == Some(fields@[i as int].1),
            None => lookup(fields@, key@) is None,
        },
{
    let mut i: usize = 0;
    while i < fields.len()
        invariant
            i <= fields@.len(),
            lookup(fields@.take(i as int), key@) is None,
        decreases fields.len() - i,
    {
        assert(fields@.take(i + 1).drop_last() =~= fields@.take(i as int));
        if str_eq(fields[i].0.as_str(), key) {
            proof {
                lemma_lookup_prefix(fields@, key@, i + 1, fields@.len() as int);
                assert(fields@.take(fields@.len() as int) =~= fields@);
            }
            return Some(i);
        }
        i = i + 1;
    }
    assert(fields@.take(fields@.len() as int) =~= fields@);
    None
}

pub(crate) fn field_str(fields: &Vec<(String, JsonScalar)>, key: &str) -> (r: Option<String>)
    ensures
        match r {
            Some(s) => as_str(lookup(fields@, key@)) == Some(s@),
            None => as_str(lookup(fields@, key@)) is None,
        },
{
    match find_field(fields, key) {
        Some(i) => match &fields[i].1 {
            JsonScalar::Str(s) => Some(s.clone()),
            _ => None,
        },
        None => None,
    }
}

fn item_to_row(agent_id: &str, agent_name: &str, item: &ServiceItem) -> (r: OverviewServiceRow)
    ensures
        r@ == item_row(agent_id@, agent_name@, item.fields@),
{
    let f = &item.fields;
    proof {
        reveal_strlit("");
    }
    let name = match field_str(f, "name") {
        Some(s) => s,
        None => owned(""),
    };
    let state = match field_str(f, "state") {
        Some(s) => s,
        None => owned("unknown"),
    };
    let pid = match find_field(f, "pid") {
        Some(i) => match &f[i].1 {
            JsonScalar::U64(n) => Some(*n),
            _ => None,
        },
        None => None,
    };
    let healthy = match find_field(f, "healthy") {
        Some(i) => match &f[i].1 {
            JsonScalar::Bool(b) => Some(*b),
            _ => None,
        },
        None => None,
    };
    let target = if find_field(f, "target").is_some() {
        field_str(f, "target")
    } else {
        field_str(f, "jar_path")
    };
    OverviewServiceRow {
        agent_id: owned(agent_id),
        agent_name: owned(agent_name),
        agent_reachable: true,
        name,
        state,
        kind: field_str(f, "kind"),
        pid,
        target,
        message: field_str(f, "message"),
        healthy,
        error: None,
    }
}

/// Appends the rows of one agent to `rows`; tells whether it was reached.
fn push_rows(rows: &mut Vec<OverviewServiceRow>, f: &AgentFetch) -> (reached: bool)
    ensures
        final(rows)@.map_values(|r: OverviewServiceRow| r@) == old(rows)@.map_values(
            |r: OverviewServiceRow| r@,
        ) + rows_for(*f),
        reached == f.outcome is Ok,
{
    let ghost start = rows@.map_values(|r: OverviewServiceRow| r@);
    proof {
        reveal_strlit("");
    }
    match &f.outcome {
        Err(e) => {
            rows.push(
                OverviewServiceRow {
                    agent_id: f.agent_id.clone(),
                    agent_name: f.agent_name.clone(),
                    agent_reachable: false,
                    name: String::new(),
                    state: owned("unreachable"),
                    kind: None,
                    pid: None,
                    target: None,
                    message: None,
                    healthy: None,
                    error: Some(e.clone()),
                },
            );
            let ghost want = blank_row(f.agent_id@, f.agent_name@, false, "unreachable"@, e@);
            assert(rows@.last()@.name =~= want.name);
            assert(rows@.last()@ == want);
            assert(rows_for(*f) == seq![want]);
            assert(rows@.map_values(|r: OverviewServiceRow| r@) =~= start + rows_for(*f));
            false
        },
        Ok(reply) => {
            let shape = match &reply.data {
                Some(d) => d,
                None => &reply.whole,
            };
            match shape {
                JsonShape::Array(items) => {
                    let ghost want = rows_for(*f);
                    let mut i: usize = 0;
                    while i < items.len()
                        invariant
                            i <= items@.len(),
                            want == items@.map_values(
                                |it: ServiceItem| item_row(f.agent_id@, f.agent_name@, it.fields@),
                            ),
                            rows@.map_values(|r: OverviewServiceRow| r@) == start + want.take(
                                i as int,
                            ),
                        decreases items.len() - i,
                    {
                        let row = item_to_row(f.agent_id.as_str(), f.agent_name.as_str(), &items[i]);
                        let ghost before = rows@.map_values(|r: OverviewServiceRow| r@);
                        rows.push(row);
                        assert(rows@.map_values(|r: OverviewServiceRow| r@) =~= before.push(
                            want[i as int],
                        ));
                        assert(want.take(i + 1) =~= want.take(i as int).push(want[i as int]));
                        i = i + 1;
                    }
                    assert(want.take(items@.len() as int) =~= want);
                },
                JsonShape::Other => {
                    rows.push(
                        OverviewServiceRow {
                            agent_id: f.agent_id.clone(),
                            agent_name: f.agent_name.clone(),
                            agent_reachable: true,
                            name: String::new(),
                            state: owned("unknown"),
                            kind: None,
                            pid: None,
                            target: None,
                            message: None,
                            healthy: None,
                            error: Some(owned("unexpected services payload")),
                        },
                    );
                    let ghost want = blank_row(
                        f.agent_id@,
                        f.agent_name@,
                        true,
                        "unknown"@,
                        "unexpected services payload"@,
                    );
                    assert(rows@.last()@.name =~= want.name);
            assert(rows@.last()@ == want);
                    assert(rows_for(*f) == seq![want]);
                    assert(rows@.map_values(|r: OverviewServiceRow| r@) =~= start + rows_for(*f));
                },
            }
            true
        },
    }
}

/// The overview of all agents: every row, in the agents' order, and how
/// many agents answered.
pub fn build_overview(agents_total: usize, fetched: &Vec<AgentFetch>) -> (r: OverviewResponse)
    ensures
        r.agents_total == agents_total,
        r.agents_reachable == reachable_count(fetched@),
        r.services@.map_values(|x: OverviewServiceRow| x@) == all_rows(fetched@),
{
    let mut services: Vec<OverviewServiceRow> = Vec::new();
    let mut reachable: usize = 0;
    let mut i: usize = 0;
    while i < fetched.len()
        invariant
            i <= fetched@.len(),
            reachable == reachable_count(fetched@.take(i as int)),
            reachable <= i,
            services@.map_values(|x: OverviewServiceRow| x@) == all_rows(fetched@.take(i as int)),
        decreases fetched.len() - i,
    {
        assert(fetched@.take(i + 1).drop_last() =~= fetched@.take(i as int));
        let reached = push_rows(&mut services, &fetched[i]);
        if reached {
            reachable = reachable + 1;
        }
        i = i + 1;
    }
    assert(fetched@.take(fetched@.len() as int) =~= fetched@);
    OverviewResponse { agents_total, agents_reachable: reachable, services }
}

/// Every row of the overview belongs to one of the agents asked, and an
/// agent that answered has no row marked unreachable.
pub proof fn law_overview_rows_match_agents(fs: Seq<AgentFetch>, k: int)
    requires
        0 <= k < all_rows(fs).len(),
    ensures
        exists|j: int|
            0 <= j < fs.len() && #[trigger] fs[j].agent_id@ == all_rows(fs)[k].agent_id
                && fs[j].agent_name@ == all_rows(fs)[k].agent_name && (all_rows(fs)[k].agent_reachable
                <==> fs[j].outcome is Ok),
    decreases fs.len(),
{
    let init = fs.drop_last();
    let n = all_rows(init).len();
    if k < n {
        law_overview_rows_match_agents(init, k);
        let j = choose|j: int|
            0 <= j < init.len() && #[trigger] init[j].agent_id@ == all_rows(init)[k].agent_id
                && init[j].agent_name@ == all_rows(init)[k].agent_name && (
                all_rows(init)[k].agent_reachable <==> init[j].outcome is Ok);
        assert(fs[j] == init[j]);
    } else {
        let last = fs.last();
        assert(all_rows(fs)[k] == rows_for(last)[k - n]);
        assert(fs[fs.len() - 1] == last);
    }
}

/// The reachable count never exceeds the number of agents asked.
pub proof fn law_reachable_at_most_asked(fs: Seq<AgentFetch>)
    ensures
        reachable_count(fs) <= fs.len(),
    decreases fs.len(),
{
    if fs.len() > 0 {
        law_reachable_at_most_asked(fs.drop_last());
    }
}

/// Field `i` is the first one named `key`.
pub open spec fn first_field(f: Seq<(String, JsonScalar)>, key: Seq<char>, i: int) -> bool {
    0 <= i < f.len() && f[i].0@ == key && forall|j: int| 0 <= j < i ==> (#[trigger] f[j]).0@ != key
}

/// No field is named `key`.
pub open spec fn no_field(f: Seq<(String, JsonScalar)>, key: Seq<char>) -> bool {
    forall|j: int| 0 <= j < f.len() ==> (#[trigger] f[j]).0@ != key
}

proof fn lemma_no_field(f: Seq<(String, JsonScalar)>, key: Seq<char>)
    requires
        no_field(f, key),
    ensures
        lookup(f, key) is None,
    decreases f.len(),
{
    if f.len() > 0 {
        let g = f.drop_last();
        assert forall|j: int| 0 <= j < g.len() implies (#[trigger] g[j]).0@ != key by {
            assert(g[j] == f[j]);
        }
        lemma_no_field(g, key);
        assert(f[f.len() - 1] == f.last());
    }
}

proof fn lemma_first_field(f: Seq<(String, JsonScalar)>, key: Seq<char>, i: int)
    requires
        first_field(f, key, i),
    ensures
        lookup(f, key) == Some(f[i].1),
    decreases f.len(),
{
    let g = f.drop_last();
    if i < f.len() - 1 {
        assert(g[i] == f[i]);
        assert forall|j: int| 0 <= j < i implies (#[trigger] g[j]).0@ != key by {
            assert(g[j] == f[j]);
        }
        lemma_first_field(g, key, i);
    } else {
        assert forall|j: int| 0 <= j < g.len() implies (#[trigger] g[j]).0@ != key by {
            assert(g[j] == f[j]);
        }
        lemma_no_field(g, key);
        assert(f.last() == f[i]);
    }
}

/// Each listed service of an agent that answered with a list becomes the
/// row at its place, for that agent, marked reachable and without error.
/// Its name, state, kind and message are those fields when they are text
/// (name empty and state `unknown` when absent), its pid the `pid` field
/// when it is a non-negative integer, its health the `healthy` field when it
/// is a boolean; its target is the `target` field when there is one (and it
/// is text), else the `jar_path` field.  The first field of a name counts.
pub proof fn law_overview_row_fields(fetch: AgentFetch, k: int)
    requires
        fetch.outcome matches Ok(reply) && payload(reply) matches JsonShape::Array(items) && 0 <= k
            < items@.len(),
    ensures
        ({
            let items = match payload(fetch.outcome->Ok_0) {
                JsonShape::Array(items) => items@,
                JsonShape::Other => Seq::empty(),
            };
            let f = items[k].fields@;
            let row = rows_for(fetch)[k];
            &&& rows_for(fetch).len() == items.len()
            &&& row.agent_id == fetch.agent_id@ && row.agent_name == fetch.agent_name@
            &&& row.agent_reachable && row.error is None
            &&& forall|i: int| #[trigger] first_field(f, "name"@, i) ==> (f[i].1 matches JsonScalar::Str(
                x,
            ) ==> row.name == x@)
            &&& no_field(f, "name"@) ==> row.name == ""@
            &&& forall|i: int| #[trigger] first_field(f, "state"@, i) ==> (f[i].1 matches JsonScalar::Str(
                x,
            ) ==> row.state == x@)
            &&& no_field(f, "state"@) ==> row.state == "unknown"@
            &&& forall|i: int| #[trigger] first_field(f, "kind"@, i) ==> ((f[i].1 matches JsonScalar::Str(
                x,
            ) ==> row.kind == Some(x@)) && (!(f[i].1 is Str) ==> row.kind is None))
            &&& no_field(f, "kind"@) ==> row.kind is None
            &&& forall|i: int| #[trigger] first_field(f, "pid"@, i) ==> ((f[i].1 matches JsonScalar::U64(n)
                ==> row.pid == Some(n)) && (!(f[i].1 is U64) ==> row.pid is None))
            &&& no_field(f, "pid"@) ==> row.pid is None
            &&& forall|i: int| #[trigger] first_field(f, "message"@, i) ==> (f[i].1 matches JsonScalar::Str(
                x,
            ) ==> row.message == Some(x@))
            &&& forall|i: int| #[trigger] first_field(f, "healthy"@, i) ==> (f[i].1 matches JsonScalar::Bool(
                b,
            ) ==> row.healthy == Some(b))
            &&& forall|i: int| #[trigger] first_field(f, "target"@, i) ==> ((f[i].1 matches JsonScalar::Str(
                x,
            ) ==> row.target == Some(x@)) && (!(f[i].1 is Str) ==> row.target is None))
            &&& forall|i: int|
                no_field(f, "target"@) && #[trigger] first_field(f, "jar_path"@, i) ==> (f[i].1 matches JsonScalar::Str(
                    x,
                ) ==> row.target == Some(x@))
        }),
{
    let items = match payload(fetch.outcome->Ok_0) {
        JsonShape::Array(items) => items@,
        JsonShape::Other => Seq::empty(),
    };
    let f = items[k].fields@;
    assert(rows_for(fetch)[k] == item_row(fetch.agent_id@, fetch.agent_name@, f));
    assert forall|key: Seq<char>, i: int| #[trigger] first_field(f, key, i) implies lookup(f, key)
        == Some(f[i].1) by {
        lemma_first_field(f, key, i);
    }
    assert forall|key: Seq<char>| #[trigger] no_field(f, key) implies lookup(f, key) is None by {
        lemma_no_field(f, key);
    }
}

} // verus!
