use vstd::prelude::*;
use vstd::string::*;

use crate::ext;
use crate::types::DatabaseReadyInfo;
use crate::types::DeploymentStateMeta;
use crate::types::ProjectConfig;

verus! {

/// The virtual hostname for a project: its name followed by the app suffix.
pub open spec fn host_of(name: Seq<char>) -> Seq<char> {
    name + ".shuttleapp.rs"@
}

/// Distinct project names get distinct virtual hostnames.
pub proof fn lemma_host_of_injective(a: Seq<char>, b: Seq<char>)
    requires
        host_of(a) == host_of(b),
    ensures
        a == b,
{
    assert(host_of(a).len() == a.len() + ".shuttleapp.rs"@.len());
    assert(host_of(b).len() == b.len() + ".shuttleapp.rs"@.len());
    assert(a.len() == b.len());
    assert forall|k: int| 0 <= k < a.len() implies a[k] == b[k] by {
        assert(host_of(a)[k] == a[k]);
        assert(host_of(b)[k] == b[k]);
    }
    assert(a =~= b);
}

/// Deployment metadata. It serves two purposes: carrying the information the
/// deployment pipeline works with, and giving clients a snapshot of the
/// deployment's state.
#[derive(Debug)]
pub struct DeploymentMeta {
    pub id: u128,
    pub config: ProjectConfig,
    pub state: DeploymentStateMeta,
    pub host: String,
    pub build_logs: Option<String>,
    pub runtime_logs: Option<String>,
    pub database_deployment: Option<DatabaseReadyInfo>,
    pub created_at: i64,
}

impl DeploymentMeta {
    /// Fresh metadata at state `Queued`; the identifier and the creation time
    /// come from the outside and are not pinned down.
    pub fn queued(config: &ProjectConfig) -> (r: Self)
        ensures
            r.config == *config,
            r.state is Queued,
            r.host@ == host_of(config.name@),
            r.build_logs is None,
            r.runtime_logs is None,
            r.database_deployment is None,
    {
        Self::new(config, DeploymentStateMeta::Queued)
    }

    /// Fresh metadata at state `Built`; the identifier and the creation time
    /// come from the outside and are not pinned down.
    pub fn built(config: &ProjectConfig) -> (r: Self)
        ensures
            r.config == *config,
            r.state is Built,
            r.host@ == host_of(config.name@),
            r.build_logs is None,
            r.runtime_logs is None,
            r.database_deployment is None,
    {
        Self::new(config, DeploymentStateMeta::Built)
    }

    /// Fresh metadata with an identifier drawn from the outside and the
    /// current time as creation time.
    pub fn new(config: &ProjectConfig, state: DeploymentStateMeta) -> (r: Self)
        ensures
            r.config == *config,
            r.state == state,
            r.host@ == host_of(config.name@),
            r.build_logs is None,
            r.runtime_logs is None,
            r.database_deployment is None,
    {
        let id = ext::fresh_id();
        let created_at = ext::now_millis();
        Self::with_id(id, created_at, config, state)
    }

    /// Fresh metadata, every field pinned by the arguments.
    pub fn with_id(id: u128, created_at: i64, config: &ProjectConfig, state: DeploymentStateMeta) -> (r: Self)
        ensures
            r.id == id,
            r.config == *config,
            r.state == state,
            r.host@ == host_of(config.name@),
            r.build_logs is None,
            r.runtime_logs is None,
            r.database_deployment is None,
            r.created_at == created_at,
    {
        DeploymentMeta {
            id,
            config: config.dup(),
            state,
            host: Self::create_host(config),
            build_logs: None,
            runtime_logs: None,
            database_deployment: None,
            created_at,
        }
    }

    /// The virtual hostname under which the project is served.
    pub fn create_host(project_config: &ProjectConfig) -> (h: String)
        ensures
            h@ == host_of(project_config.name@),
    {
        let mut h = project_config.name.clone();
        h.append(".shuttleapp.rs");
        h
    }

    /// An exact copy of the metadata.
    pub fn dup(&self) -> (r: Self)
        ensures
            r == *self,
    {
        DeploymentMeta {
            id: self.id,
            config: self.config.dup(),
            state: self.state.dup(),
            host: self.host.clone(),
            build_logs: dup_opt_string(&self.build_logs),
            runtime_logs: dup_opt_string(&self.runtime_logs),
            database_deployment: match &self.database_deployment {
                Some(info) => Some(info.dup()),
                None => None,
            },
            created_at: self.created_at,
        }
    }
}

/// An exact copy of an optional string.
pub fn dup_opt_string(s: &Option<String>) -> (r: Option<String>)
    ensures
        r == *s,
{
    match s {
        Some(x) => Some(x.clone()),
        None => None,
    }
}

} // verus!
