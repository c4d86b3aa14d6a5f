//! What the admin API takes and gives: registered agents and proxies, the
//! requests that change them, and the cross-agent overview.  Times are
//! RFC 3339 texts.
use vstd::prelude::*;
use crate::agent::models::{ostr, strs};

verus! {

/// An agent in the registry.
pub struct AgentInfo {
    pub id: String,
    /// Display name, e.g. prod-node-01
    pub name: String,
    /// Base URL of the agent, e.g. http://10.0.0.5:9100 or http://proxy:9200/a/node-01
    pub base_url: String,
    /// Token used when calling the agent API (Agent token or Proxy token)
    pub token: String,
    pub tags: Vec<String>,
    /// Optional link to a registered axleops-proxy
    pub proxy_id: Option<String>,
    pub created_at: String,
    pub updated_at: String,
}

pub struct AgentView {
    pub id: Seq<char>,
    pub name: Seq<char>,
    pub base_url: Seq<char>,
    pub token: Seq<char>,
    pub tags: Seq<Seq<char>>,
    pub proxy_id: Option<Seq<char>>,
    pub created_at: Seq<char>,
    pub updated_at: Seq<char>,
}

impl View for AgentInfo {
    type V = AgentView;

    open spec fn view(&self) -> AgentView {
        AgentView {
            id: self.id@,
            name: self.name@,
            base_url: self.base_url@,
            token: self.token@,
            tags: strs(self.tags@),
            proxy_id: ostr(self.proxy_id),
            created_at: self.created_at@,
            updated_at: self.updated_at@,
        }
    }
}

pub struct RegisterAgentRequest {
    pub name: String,
    pub base_url: String,
    pub token: String,
    pub tags: Vec<String>,
    pub proxy_id: Option<String>,
}

pub struct UpdateAgentRequest {
    pub name: Option<String>,
    pub base_url: Option<String>,
    pub token: Option<String>,
    pub tags: Option<Vec<String>>,
    pub proxy_id: Option<Option<String>>,
}

/// A proxy in the registry.
pub struct ProxyInfo {
    pub id: String,
    pub name: String,
    /// Proxy root, e.g. http://10.0.0.2:9200
    pub base_url: String,
    /// Token for Admin → Proxy
    pub token: String,
    pub notes: String,
    pub created_at: String,
    pub updated_at: String,
}

pub struct ProxyView {
    pub id: Seq<char>,
    pub name: Seq<char>,
    pub base_url: Seq<char>,
    pub token: Seq<char>,
    pub notes: Seq<char>,
    pub created_at: Seq<char>,
    pub updated_at: Seq<char>,
}

impl View for ProxyInfo {
    type V = ProxyView;

    open spec fn view(&self) -> ProxyView {
        ProxyView {
            id: self.id@,
            name: self.name@,
            base_url: self.base_url@,
            token: self.token@,
            notes: self.notes@,
            created_at: self.created_at@,
            updated_at: self.updated_at@,
        }
    }
}

pub struct RegisterProxyRequest {
    pub name: String,
    pub base_url: String,
    pub token: String,
    pub notes: Option<String>,
}

pub struct UpdateProxyRequest {
    pub name: Option<String>,
    pub base_url: Option<String>,
    pub token: Option<String>,
    pub notes: Option<String>,
}

pub struct ImportUpstreamRequest {
    /// Upstream id from proxy config (`[[agents]].id`)
    pub upstream_id: String,
    /// Override agent display name; default upstream.name
    pub agent_name: Option<String>,
    pub tags: Vec<String>,
}

/// An upstream as a proxy lists it.
pub struct UpstreamView {
    pub id: String,
    pub name: String,
    pub base_url: String,
    pub path_prefix: String,
}

pub struct CreateUpstreamRequest {
    pub id: String,
    pub name: Option<String>,
    pub base_url: String,
    pub token: String,
}

pub struct UpdateUpstreamRequest {
    pub name: Option<String>,
    pub base_url: Option<String>,
    pub token: Option<String>,
}

/// Forward body for starting a service on an agent (jar / script / command).
/// `env` holds the environment variables as pairs.
pub struct StartServiceRequest {
    pub name: String,
    pub kind: Option<String>,
    pub jar_path: Option<String>,
    pub script_path: Option<String>,
    pub command: Option<String>,
    pub interpreter: Option<String>,
    pub work_dir: Option<String>,
    pub jvm_args: Vec<String>,
    pub app_args: Vec<String>,
    pub args: Vec<String>,
    pub env: Vec<(String, String)>,
    pub health_url: Option<String>,
}

pub struct HealthInfo {
    pub service: &'static str,
    pub version: &'static str,
}

/// One service row in the cross-agent overview.
pub struct OverviewServiceRow {
    pub agent_id: String,
    pub agent_name: String,
    pub agent_reachable: bool,
    pub name: String,
    pub state: String,
    pub kind: Option<String>,
    pub pid: Option<u64>,
    pub target: Option<String>,
    pub message: Option<String>,
    pub healthy: Option<bool>,
    pub error: Option<String>,
}

pub struct OverviewRowView {
    pub agent_id: Seq<char>,
    pub agent_name: Seq<char>,
    pub agent_reachable: bool,
    pub name: Seq<char>,
    pub state: Seq<char>,
    pub kind: Option<Seq<char>>,
    pub pid: Option<u64>,
    pub target: Option<Seq<char>>,
    pub message: Option<Seq<char>>,
    pub healthy: Option<bool>,
    pub error: Option<Seq<char>>,
}

impl View for OverviewServiceRow {
    type V = OverviewRowView;

    open spec fn view(&self) -> OverviewRowView {
        OverviewRowView {
            agent_id: self.agent_id@,
            agent_name: self.agent_name@,
            agent_reachable: self.agent_reachable,
            name: self.name@,
            state: self.state@,
            kind: ostr(self.kind),
            pid: self.pid,
            target: ostr(self.target),
            message: ostr(self.message),
            healthy: self.healthy,
            error: ostr(self.error),
        }
    }
}

pub struct OverviewResponse {
    pub agents_total: usize,
    pub agents_reachable: usize,
    pub services: Vec<OverviewServiceRow>,
}

pub struct RotateTokenRequest {
    /// When true, ask the remote Agent to rotate and persist the returned token.
    /// Ignored for proxies (registry-only).
    pub sync: bool,
}

pub struct RotateTokenResponse {
    pub id: String,
    /// New token shown once — copy into Agent/Proxy config if sync was false.
    pub token: String,
    pub synced: bool,
    pub message: Option<String>,
}

} // verus!
