//! Proxy configuration: seed agents, their checks, and the resolved upstream.
use vstd::prelude::*;
use crate::text::{blank, cat3, is_blank, owned, str_eq, trim, trimmed};

verus! {

/// One seed agent from `[[agents]]` in `config.toml`.
#[derive(Debug)]
pub struct UpstreamAgent {
    /// Path key used by Admin: /a/{id}/...
    pub id: String,
    pub name: Option<String>,
    /// Agent base URL, e.g. http://10.0.1.11:9100
    pub base_url: String,
    /// Token for Proxy → Agent
    pub token: String,
}

/// Proxy settings after file and environment have been read.
pub struct Config {
    pub bind: String,
    /// Token for Admin → Proxy (`X-AxleOps-Token`)
    pub token: String,
    pub timeout_secs: u64,
    /// Runtime data (upstreams.json). Seeded from [[agents]] when empty.
    pub data_dir: String,
    /// Optional seed list (used only when data_dir/upstreams.json does not exist yet)
    pub agents: Vec<UpstreamAgent>,
}

/// An agent the proxy forwards to, with its base URL in normal form.
#[derive(Debug)]
pub struct Upstream {
    pub id: String,
    pub name: String,
    pub base_url: String,
    pub token: String,
}

pub struct UpstreamData {
    pub id: Seq<char>,
    pub name: Seq<char>,
    pub base_url: Seq<char>,
    pub token: Seq<char>,
}

impl View for Upstream {
    type V = UpstreamData;

    open spec fn view(&self) -> UpstreamData {
        UpstreamData {
            id: self.id@,
            name: self.name@,
            base_url: self.base_url@,
            token: self.token@,
        }
    }
}

impl Default for Config {
    fn default() -> (c: Self)
        ensures
            c.bind@ == "0.0.0.0:9200"@,
            c.token@ == "change-me-proxy-secret"@,
            c.timeout_secs == 120,
            c.data_dir@ == "./data"@,
            c.agents@.len() == 0,
    {
        Config {
            bind: owned("0.0.0.0:9200"),
            token: owned("change-me-proxy-secret"),
            timeout_secs: 120,
            data_dir: owned("./data"),
            agents: Vec::new(),
        }
    }
}

/// The first complaint about seed agent `a`, if any.
pub open spec fn agent_problem(a: UpstreamAgent) -> Option<Seq<char>> {
    if blank(a.id@) {
        Some("agent id cannot be empty"@)
    } else if blank(a.base_url@) {
        Some("agent `"@ + a.id@ + "` base_url cannot be empty"@)
    } else if blank(a.token@) {
        Some("agent `"@ + a.id@ + "` token cannot be empty"@)
    } else {
        None
    }
}

/// Index of the first agent that has a complaint.
pub open spec fn first_problem(agents: Seq<UpstreamAgent>, i: int) -> bool {
    0 <= i < agents.len() && agent_problem(agents[i]) is Some && forall|j: int|
        0 <= j < i ==> agent_problem(#[trigger] agents[j]) is None
}

/// Agent `j` repeats the id of an earlier agent.
pub open spec fn repeats_earlier(agents: Seq<UpstreamAgent>, j: int) -> bool {
    exists|i: int| 0 <= i < j && #[trigger] agents[i].id@ == agents[j].id@
}

/// Index of the first agent whose id was seen before.
pub open spec fn first_duplicate(agents: Seq<UpstreamAgent>, j: int) -> bool {
    0 <= j < agents.len() && repeats_earlier(agents, j) && forall|k: int|
        0 <= k < j ==> !repeats_earlier(agents, k)
}

impl Config {
    /// The checks `load` applies once the settings are read: the token is
    /// trimmed; every seed agent needs an id, a base URL and a token; ids are
    /// unique.  The error is the message of the first failing check.
    pub fn finish(self) -> (r: Result<Config, String>)
        ensures
            match r {
                Ok(c) => {
                    &&& c.token@ == trim(self.token@)
                    &&& c.bind == self.bind
                    &&& c.timeout_secs == self.timeout_secs
                    &&& c.data_dir == self.data_dir
                    &&& c.agents@ == self.agents@
                    &&& forall|i: int| 0 <= i < self.agents@.len() ==> agent_problem(
                        #[trigger] self.agents@[i],
                    ) is None
                    &&& forall|j: int| 0 <= j < self.agents@.len() ==> !repeats_earlier(
                        self.agents@,
                        j,
                    )
                },
                Err(m) => {
                    ||| exists|i: int|
                        first_problem(self.agents@, i) && m@ == agent_problem(
                            #[trigger] self.agents@[i],
                        )->0
                    ||| (forall|i: int|
                        0 <= i < self.agents@.len() ==> agent_problem(#[trigger] self.agents@[i])
                            is None) && exists|j: int|
                        first_duplicate(self.agents@, j) && m@ == "duplicate agent id `"@
                            + #[trigger] self.agents@[j].id@ + "`"@
                },
            },
    {
        let token = trimmed(self.token.as_str());
        let mut i: usize = 0;
        while i < self.agents.len()
            invariant
                i <= self.agents.len(),
                forall|k: int| 0 <= k < i ==> agent_problem(#[trigger] self.agents@[k]) is None,
            decreases self.agents.len() - i,
        {
            let a = &self.agents[i];
            if is_blank(a.id.as_str()) {
                assert(first_problem(self.agents@, i as int));
                return Err(owned("agent id cannot be empty"));
            }
            if is_blank(a.base_url.as_str()) {
                assert(first_problem(self.agents@, i as int));
                return Err(cat3("agent `", a.id.as_str(), "` base_url cannot be empty"));
            }
            if is_blank(a.token.as_str()) {
                assert(first_problem(self.agents@, i as int));
                return Err(cat3("agent `", a.id.as_str(), "` token cannot be empty"));
            }
            i = i + 1;
        }
        let mut j: usize = 0;
        while j < self.agents.len()
            invariant
                j <= self.agents.len(),
                forall|k: int| 0 <= k < self.agents@.len() ==> agent_problem(
                    #[trigger] self.agents@[k],
                ) is None,
                forall|k: int| 0 <= k < j ==> !repeats_earlier(self.agents@, k),
            decreases self.agents.len() - j,
        {
            let mut i2: usize = 0;
            while i2 < j
                invariant
                    i2 <= j < self.agents.len(),
                    forall|k: int| 0 <= k < self.agents@.len() ==> agent_problem(
                        #[trigger] self.agents@[k],
                    ) is None,
                    forall|k: int| 0 <= k < j ==> !repeats_earlier(self.agents@, k),
                    forall|k: int| 0 <= k < i2 ==> self.agents@[k].id@ != self.agents@[j as int].id@,
                decreases j - i2,
            {
                if str_eq(self.agents[i2].id.as_str(), self.agents[j].id.as_str()) {
                    assert(repeats_earlier(self.agents@, j as int));
                    assert(first_duplicate(self.agents@, j as int));
                    return Err(cat3("duplicate agent id `", self.agents[j].id.as_str(), "`"));
                }
                i2 = i2 + 1;
            }
            j = j + 1;
        }
        Ok(Config {
            bind: self.bind,
            token,
            timeout_secs: self.timeout_secs,
            data_dir: self.data_dir,
            agents: self.agents,
        })
    }
}

} // verus!
