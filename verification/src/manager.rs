use vstd::prelude::*;
use vstd::string::*;

use crate::ext;
use crate::meta::host_of;
use crate::meta::lemma_host_of_injective;
use crate::meta::DeploymentMeta;
use crate::router::RouterTable;
use crate::types::valid_project_name;
use crate::types::DatabaseReadyInfo;
use crate::types::DeploymentApiError;
use crate::types::DeploymentStateMeta;
use crate::types::ProjectConfig;

verus! {

/// The bound on deployments that may sit in the build/load pipeline at once.
pub const MAX_DEPLOYS: usize = 4;

/// One registry record: the client-visible metadata plus the local port the
/// deployment holds while its service is being loaded or is serving.
pub struct Deployment {
    pub meta: DeploymentMeta,
    pub port: Option<u16>,
}

/// The record still sits in the pipeline: it has been accepted and has not
/// reached `Deployed` or a terminal state.
pub open spec fn in_pipeline(d: Deployment) -> bool {
    d.meta.state is Queued || d.meta.state is Built || d.meta.state is Loaded
}

/// The record's build or load is under way.
pub open spec fn mid_flight(d: Deployment) -> bool {
    d.meta.state is Built || d.meta.state is Loaded
}

/// The record at `i` must keep waiting in `Queued`: another attempt of its
/// project is mid-flight, or an older attempt of its project is still in the
/// pipeline. Per project, attempts leave `Queued` in acceptance order.
pub open spec fn build_blocked(s: Seq<Deployment>, i: int) -> bool {
    exists|j: int|
        0 <= j < s.len() && j != i && (#[trigger] s[j]).meta.config.name@
            == s[i].meta.config.name@ && (mid_flight(s[j]) || (in_pipeline(s[j]) && j < i))
}

/// How many records sit in the pipeline; `deploy` admits a new one only while
/// this count is below the bound.
pub open spec fn count_pipeline(s: Seq<Deployment>) -> int
    decreases s.len(),
{
    if s.len() == 0 {
        0
    } else {
        count_pipeline(s.drop_last()) + if in_pipeline(s.last()) {
            1int
        } else {
            0int
        }
    }
}

/// How one registry snapshot may follow from another: records are only
/// appended, every record keeps its identity, no state moves backwards, and a
/// terminal record never changes again.
pub open spec fn evolves(pre: Seq<Deployment>, post: Seq<Deployment>) -> bool {
    &&& pre.len() <= post.len()
    &&& forall|i: int|
        0 <= i < pre.len() ==> {
            let a = #[trigger] pre[i];
            let b = #[trigger] post[i];
            &&& b.meta.id == a.meta.id
            &&& b.meta.config == a.meta.config
            &&& b.meta.host == a.meta.host
            &&& b.meta.created_at == a.meta.created_at
            &&& a.meta.state.rank() <= b.meta.state.rank()
            &&& (a.meta.state.is_terminal() ==> b == a)
        }
}

/// The record is the one a client's project-level request addresses: not yet
/// terminal, and belonging to the named project.
pub open spec fn is_active_for(d: Deployment, name: Seq<char>) -> bool {
    !d.meta.state.is_terminal() && d.meta.config.name@ == name
}

/// The given metadata with its state replaced.
pub open spec fn with_state(m: DeploymentMeta, s: DeploymentStateMeta) -> DeploymentMeta {
    DeploymentMeta {
        id: m.id,
        config: m.config,
        state: s,
        host: m.host,
        build_logs: m.build_logs,
        runtime_logs: m.runtime_logs,
        database_deployment: m.database_deployment,
        created_at: m.created_at,
    }
}

/// The given metadata with its state replaced and a build log recorded.
pub open spec fn with_state_and_build_log(
    m: DeploymentMeta,
    s: DeploymentStateMeta,
    log: String,
) -> DeploymentMeta {
    DeploymentMeta {
        id: m.id,
        config: m.config,
        state: s,
        host: m.host,
        build_logs: Some(log),
        runtime_logs: m.runtime_logs,
        database_deployment: m.database_deployment,
        created_at: m.created_at,
    }
}

/// The given metadata with its state replaced and a runtime log recorded.
pub open spec fn with_state_and_runtime_log(
    m: DeploymentMeta,
    s: DeploymentStateMeta,
    log: String,
) -> DeploymentMeta {
    DeploymentMeta {
        id: m.id,
        config: m.config,
        state: s,
        host: m.host,
        build_logs: m.build_logs,
        runtime_logs: Some(log),
        database_deployment: m.database_deployment,
        created_at: m.created_at,
    }
}

/// Record `j` is a previously promoted deployment of the same project as
/// record `i`: the one a successful swap-in displaces.
pub open spec fn prior_deployed(pre: DeploymentSystem, i: int, j: int) -> bool {
    &&& 0 <= j < pre.records@.len()
    &&& j != i
    &&& pre.records@[j].meta.state is Deployed
    &&& pre.records@[j].meta.config.name@ == pre.records@[i].meta.config.name@
}

/// Everything `promote` does, as a relation between the state before and
/// after the call. A `Loaded` record becomes `Deployed` and its hostname is
/// switched to its port in one atomic step; a previously serving deployment
/// of the same project is deleted in the same step and its port drains. Every
/// other hostname keeps its route. A terminal record (killed or superseded
/// before the swap) is returned as it is and changes nothing.
pub open spec fn promote_post(
    pre: DeploymentSystem,
    post: DeploymentSystem,
    id: u128,
    r: Result<DeploymentMeta, DeploymentApiError>,
) -> bool {
    if !pre.has_id(id) {
        &&& post == pre
        &&& r matches Err(e) && e matches DeploymentApiError::NotFound(m) && m@
            == "could not find deployment"@
    } else {
        let i = pre.idx_of(id);
        let d = pre.records@[i];
        if d.meta.state.is_terminal() {
            &&& post == pre
            &&& r matches Ok(m) && m == d.meta
        } else if !(d.meta.state is Loaded) {
            &&& post == pre
            &&& r matches Err(e) && e matches DeploymentApiError::Internal(m) && m@
                == "unexpected deployment state"@
        } else {
            let promoted = with_state(d.meta, DeploymentStateMeta::Deployed);
            &&& r matches Ok(m) && m == promoted
            &&& post.router.routes_to(d.meta.host@, d.port->0)
            &&& forall|p: u16| post.router.routes_to(d.meta.host@, p) ==> p == d.port->0
            &&& forall|h: Seq<char>, p: u16|
                h != d.meta.host@ ==> (post.router.routes_to(h, p) <==> pre.router.routes_to(h, p))
            &&& forall|h: Seq<char>|
                h != d.meta.host@ ==> (post.router.in_table(h) <==> pre.router.in_table(h))
            &&& post.router.in_table(d.meta.host@)
            &&& post.free_ports == pre.free_ports
            &&& post.max_deploys == pre.max_deploys
            &&& (if exists|j: int| prior_deployed(pre, i, j) {
                let j = choose|j: int| prior_deployed(pre, i, j);
                &&& post.records@ == pre.records@.update(
                    i,
                    (Deployment { meta: promoted, port: d.port }),
                ).update(
                    j,
                    (Deployment {
                        meta: with_state(pre.records@[j].meta, DeploymentStateMeta::Deleted),
                        port: None,
                    }),
                )
                &&& post.draining@ == pre.draining@.push(pre.records@[j].port->0)
            } else {
                &&& post.records@ == pre.records@.update(
                    i,
                    (Deployment { meta: promoted, port: d.port }),
                )
                &&& post.draining == pre.draining
            })
        }
    }
}

/// Everything `kill_deployment` does, as a relation between the state before
/// and after the call. An unknown identifier is `NotFound` and changes
/// nothing; a terminal record is returned as it is and changes nothing; a
/// live record moves to `Deleted`, its route (if serving) leaves the table in
/// the same step, and its port (if held) moves to the draining pool until the
/// service's shutdown is confirmed.
pub open spec fn kill_post(
    pre: DeploymentSystem,
    post: DeploymentSystem,
    id: u128,
    r: Result<DeploymentMeta, DeploymentApiError>,
) -> bool {
    if !pre.has_id(id) {
        &&& post == pre
        &&& r matches Err(e) && e matches DeploymentApiError::NotFound(m) && m@
            == "could not find deployment"@
    } else {
        let i = pre.idx_of(id);
        let d = pre.records@[i];
        if d.meta.state.is_terminal() {
            &&& post == pre
            &&& r matches Ok(m) && m == d.meta
        } else {
            let killed = with_state(d.meta, DeploymentStateMeta::Deleted);
            &&& r matches Ok(m) && m == killed
            &&& post.records@ == pre.records@.update(i, (Deployment { meta: killed, port: None }))
            &&& post.free_ports == pre.free_ports
            &&& post.max_deploys == pre.max_deploys
            &&& (match d.port {
                Some(p) => post.draining@ == pre.draining@.push(p),
                None => post.draining == pre.draining,
            })
            &&& (if d.meta.state is Deployed {
                &&& !post.router.in_table(d.meta.host@)
                &&& forall|h: Seq<char>, p: u16|
                    h != d.meta.host@ ==> (post.router.routes_to(h, p) <==> pre.router.routes_to(
                        h,
                        p,
                    ))
                &&& forall|h: Seq<char>|
                    h != d.meta.host@ ==> (post.router.in_table(h) <==> pre.router.in_table(h))
            } else {
                post.router == pre.router
            })
        }
    }
}

/// The deployment lifecycle manager: the single writer over the registry, the
/// routing table and the port pools. Each method is one atomic step of the
/// control plane.
pub struct DeploymentSystem {
    pub records: Vec<Deployment>,
    pub router: RouterTable,
    pub free_ports: Vec<u16>,
    pub draining: Vec<u16>,
    pub max_deploys: usize,
}

impl DeploymentSystem {
    /// Identifiers are unique across the registry.
    pub open spec fn ids_unique(&self) -> bool {
        forall|i: int, j: int|
            0 <= i < self.records@.len() && 0 <= j < self.records@.len() && (
            #[trigger] self.records@[i]).meta.id == (#[trigger] self.records@[j]).meta.id ==> i
                == j
    }

    /// Every record carries a valid project name and the hostname derived
    /// from it.
    pub open spec fn hosts_consistent(&self) -> bool {
        forall|i: int|
            0 <= i < self.records@.len() ==> {
                let d = #[trigger] self.records@[i];
                d.meta.host@ == host_of(d.meta.config.name@) && valid_project_name(
                    d.meta.config.name@,
                )
            }
    }

    /// At most one record per project is `Deployed`.
    pub open spec fn single_deployed_per_project(&self) -> bool {
        forall|i: int, j: int|
            0 <= i < self.records@.len() && 0 <= j < self.records@.len() && (
            #[trigger] self.records@[i]).meta.state is Deployed && (
            #[trigger] self.records@[j]).meta.state is Deployed
                && self.records@[i].meta.config.name@ == self.records@[j].meta.config.name@ ==> i
                == j
    }

    /// At most one record per project sits between `Built` and `Loaded`: a
    /// newer attempt waits in `Queued` until the one in flight settles.
    pub open spec fn single_mid_flight_per_project(&self) -> bool {
        forall|i: int, j: int|
            0 <= i < self.records@.len() && 0 <= j < self.records@.len() && mid_flight(
                #[trigger] self.records@[i],
            ) && mid_flight(#[trigger] self.records@[j])
                && self.records@[i].meta.config.name@ == self.records@[j].meta.config.name@ ==> i
                == j
    }

    /// A record holds a port exactly while it may have a service: always in
    /// `Loaded` and `Deployed`, never in `Queued` or a terminal state.
    pub open spec fn ports_match_states(&self) -> bool {
        forall|i: int|
            0 <= i < self.records@.len() ==> {
                let d = #[trigger] self.records@[i];
                &&& ((d.meta.state is Loaded || d.meta.state is Deployed) ==> d.port is Some)
                &&& ((d.meta.state is Queued || d.meta.state.is_terminal()) ==> d.port is None)
            }
    }

    /// No two records hold the same port.
    pub open spec fn ports_unique(&self) -> bool {
        forall|i: int, j: int|
            0 <= i < self.records@.len() && 0 <= j < self.records@.len() && (
            #[trigger] self.records@[i]).port is Some && (#[trigger] self.records@[j]).port
                is Some && self.records@[i].port->0 == self.records@[j].port->0 ==> i == j
    }

    /// A port a record holds is in neither pool.
    pub open spec fn ports_disjoint_from_pools(&self) -> bool {
        forall|i: int|
            0 <= i < self.records@.len() && (#[trigger] self.records@[i]).port is Some
                ==> !self.free_ports@.contains(self.records@[i].port->0)
                && !self.draining@.contains(self.records@[i].port->0)
    }

    /// Each pool lists a port at most once, and no port is in both: a freed
    /// port re-enters the free pool only once its service has stopped.
    pub open spec fn pools_wf(&self) -> bool {
        &&& forall|i: int, j: int|
            0 <= i < self.free_ports@.len() && 0 <= j < self.free_ports@.len()
                && #[trigger] self.free_ports@[i] == #[trigger] self.free_ports@[j] ==> i == j
        &&& forall|i: int, j: int|
            0 <= i < self.draining@.len() && 0 <= j < self.draining@.len()
                && #[trigger] self.draining@[i] == #[trigger] self.draining@[j] ==> i == j
        &&& forall|p: u16|
            !(#[trigger] self.free_ports@.contains(p) && self.draining@.contains(p))
    }

    /// The routing table holds exactly the hostnames of `Deployed` records,
    /// each forwarding to that record's port.
    pub open spec fn router_matches(&self) -> bool {
        &&& self.router.wf()
        &&& forall|i: int|
            0 <= i < self.records@.len() && (#[trigger] self.records@[i]).meta.state is Deployed
                ==> self.router.routes_to(self.records@[i].meta.host@, self.records@[i].port->0)
        &&& forall|h: Seq<char>, p: u16|
            #[trigger] self.router.routes_to(h, p) ==> exists|i: int|
                0 <= i < self.records@.len() && (#[trigger] self.records@[i]).meta.state
                    is Deployed && self.records@[i].meta.host@ == h && self.records@[i].port
                    == Some(p)
    }

    /// Well-formedness of the whole control-plane state: every invariant the
    /// lifecycle preserves.
    pub open spec fn wf(&self) -> bool {
        &&& self.ids_unique()
        &&& self.hosts_consistent()
        &&& self.single_deployed_per_project()
        &&& self.single_mid_flight_per_project()
        &&& self.ports_match_states()
        &&& self.ports_unique()
        &&& self.ports_disjoint_from_pools()
        &&& self.pools_wf()
        &&& self.router_matches()
    }

    /// Some record carries this identifier.
    pub open spec fn has_id(&self, id: u128) -> bool {
        exists|i: int|
            0 <= i < self.records@.len() && (#[trigger] self.records@[i]).meta.id == id
    }

    /// The index of the record with this identifier (unique when the system
    /// is well formed and the identifier is present).
    pub open spec fn idx_of(&self, id: u128) -> int {
        choose|i: int|
            0 <= i < self.records@.len() && (#[trigger] self.records@[i]).meta.id == id
    }

    /// The record with this identifier.
    pub open spec fn rec_of(&self, id: u128) -> Deployment {
        self.records@[self.idx_of(id)]
    }

    /// A fresh manager: an empty registry, an empty routing table, and a free
    /// pool of `n_ports` consecutive ports starting at `first_port`.
    pub fn new(max_deploys: usize, first_port: u16, n_ports: u16) -> (r: Self)
        requires
            first_port + n_ports <= u16::MAX,
        ensures
            r.wf(),
            r.records@.len() == 0,
            r.max_deploys == max_deploys,
            r.draining@.len() == 0,
            r.free_ports@.len() == n_ports,
            forall|k: int| 0 <= k < n_ports ==> r.free_ports@[k] == first_port + k,
            forall|h: Seq<char>| !r.router.in_table(h),
    {
        let mut free_ports: Vec<u16> = Vec::new();
        let mut k: u16 = 0;
        while k < n_ports
            invariant
                0 <= k <= n_ports,
                first_port + n_ports <= u16::MAX,
                free_ports@.len() == k,
                forall|j: int| 0 <= j < k ==> free_ports@[j] == first_port + j,
            decreases n_ports - k,
        {
            free_ports.push(first_port + k);
            k += 1;
        }
        DeploymentSystem {
            records: Vec::new(),
            router: RouterTable::new(),
            free_ports,
            draining: Vec::new(),
            max_deploys,
        }
    }

    /// Finds the record carrying this identifier.
    fn find_index(&self, id: u128) -> (r: Option<usize>)
        ensures
            r matches Some(i) ==> i < self.records@.len() && self.records@[i as int].meta.id
                == id,
            r is Some <==> self.has_id(id),
    {
        let n = self.records.len();
        let mut i: usize = 0;
        while i < n
            invariant
                0 <= i <= n,
                n == self.records@.len(),
                forall|k: int| 0 <= k < i ==> (#[trigger] self.records@[k]).meta.id != id,
            decreases n - i,
        {
            if self.records[i].meta.id == id {
                return Some(i);
            }
            i += 1;
        }
        None
    }

    /// Counts the records sitting in the pipeline.
    fn count_pipeline_exec(&self) -> (c: usize)
        ensures
            c == count_pipeline(self.records@),
    {
        let n = self.records.len();
        let mut c: usize = 0;
        let mut i: usize = 0;
        while i < n
            invariant
                0 <= i <= n,
                n == self.records@.len(),
                c <= i,
                c == count_pipeline(self.records@.take(i as int)),
            decreases n - i,
        {
            let hit = match self.records[i].meta.state {
                DeploymentStateMeta::Queued => true,
                DeploymentStateMeta::Built => true,
                DeploymentStateMeta::Loaded => true,
                _ => false,
            };
            proof {
                assert(self.records@.take(i + 1).drop_last() =~= self.records@.take(i as int));
                assert(self.records@.take(i + 1).last() == self.records@[i as int]);
            }
            if hit {
                c += 1;
            }
            i += 1;
        }
        proof {
            assert(self.records@.take(n as int) =~= self.records@);
        }
        c
    }

    /// Accepts an upload with a caller-supplied identifier and creation time,
    /// and inserts the record at `Queued`. The record is admitted exactly
    /// when the name is valid, the archive is non-empty, the pipeline is
    /// below its bound, and the identifier is fresh; each rejection names its
    /// reason.
    pub fn deploy_with_id(
        &mut self,
        id: u128,
        created_at: i64,
        config: &ProjectConfig,
        archive: &Vec<u8>,
    ) -> (r: Result<DeploymentMeta, DeploymentApiError>)
        requires
            old(self).wf(),
        ensures
            final(self).wf(),
            evolves(old(self).records@, final(self).records@),
            r is Err ==> *final(self) == *old(self),
            !valid_project_name(config.name@) ==> (r matches Err(e) && e matches
                DeploymentApiError::BadRequest(m) && m@ == "invalid project name"@),
            valid_project_name(config.name@) && archive@.len() == 0 ==> (r matches Err(e)
                && e matches DeploymentApiError::BadRequest(m) && m@ == "malformed archive"@),
            valid_project_name(config.name@) && archive@.len() > 0 && count_pipeline(
                old(self).records@,
            ) >= old(self).max_deploys ==> (r matches Err(e) && e matches
                DeploymentApiError::Unavailable(m) && m@ == "deployment pipeline is saturated"@),
            valid_project_name(config.name@) && archive@.len() > 0 && count_pipeline(
                old(self).records@,
            ) < old(self).max_deploys && old(self).has_id(id) ==> (r matches Err(e) && e matches
                DeploymentApiError::Internal(m) && m@ == "identifier collision"@),
            valid_project_name(config.name@) && archive@.len() > 0 && count_pipeline(
                old(self).records@,
            ) < old(self).max_deploys && !old(self).has_id(id) ==> (r matches Ok(m) && m.id == id
                && m.config == *config && m.state is Queued && m.host@ == host_of(config.name@)
                && m.build_logs is None && m.runtime_logs is None && m.database_deployment is None
                && m.created_at == created_at && final(self).records@ == old(self).records@.push(
                (Deployment { meta: m, port: None }),
            )),
            final(self).router == old(self).router,
            final(self).free_ports == old(self).free_ports,
            final(self).draining == old(self).draining,
            final(self).max_deploys == old(self).max_deploys,
    {
        if !config.has_valid_name() {
            return Err(DeploymentApiError::BadRequest(String::from_str("invalid project name")));
        }
        if archive.len() == 0 {
            return Err(DeploymentApiError::BadRequest(String::from_str("malformed archive")));
        }
        let c = self.count_pipeline_exec();
        if c >= self.max_deploys {
            return Err(
                DeploymentApiError::Unavailable(
                    String::from_str("deployment pipeline is saturated"),
                ),
            );
        }
        if self.find_index(id).is_some() {
            return Err(DeploymentApiError::Internal(String::from_str("identifier collision")));
        }
        let meta = DeploymentMeta::with_id(id, created_at, config, DeploymentStateMeta::Queued);
        let snapshot = meta.dup();
        let ghost pre = *self;
        self.records.push(Deployment { meta, port: None });
        proof {
            let n = self.records@.len() as int;
            assert forall|i: int| 0 <= i < n - 1 implies self.records@[i] == pre.records@[i] by {}
            assert forall|h: Seq<char>, p: u16| #[trigger] self.router.routes_to(h, p) implies exists|i: int|
                0 <= i < self.records@.len() && (#[trigger] self.records@[i]).meta.state
                    is Deployed && self.records@[i].meta.host@ == h && self.records@[i].port
                    == Some(p) by {
                let i = choose|i: int|
                    0 <= i < pre.records@.len() && (#[trigger] pre.records@[i]).meta.state
                        is Deployed && pre.records@[i].meta.host@ == h && pre.records@[i].port
                        == Some(p);
                assert(self.records@[i] == pre.records@[i]);
            }
        }
        Ok(snapshot)
    }

    /// Accepts an upload: draws a fresh identifier and the current time from
    /// the outside, then admits the record as `deploy_with_id` does. Whatever
    /// identifier came back, the accepted record starts at `Queued`; the
    /// deterministic rejections are as in `deploy_with_id`, and only an
    /// identifier collision ends in an internal error.
    pub fn deploy(&mut self, config: &ProjectConfig, archive: &Vec<u8>) -> (r: Result<
        DeploymentMeta,
        DeploymentApiError,
    >)
        requires
            old(self).wf(),
        ensures
            final(self).wf(),
            evolves(old(self).records@, final(self).records@),
            r is Err ==> *final(self) == *old(self),
            r matches Ok(m) ==> (m.state is Queued && m.config == *config && m.host@ == host_of(
                config.name@,
            ) && m.build_logs is None && m.runtime_logs is None && m.database_deployment is None
                && valid_project_name(config.name@) && archive@.len() > 0 && count_pipeline(
                old(self).records@,
            ) < old(self).max_deploys && !old(self).has_id(m.id) && final(self).records@ == old(
                self,
            ).records@.push((Deployment { meta: m, port: None }))),
            !valid_project_name(config.name@) ==> (r matches Err(e) && e is BadRequest),
            valid_project_name(config.name@) && archive@.len() == 0 ==> (r matches Err(e)
                && e is BadRequest),
            valid_project_name(config.name@) && archive@.len() > 0 && count_pipeline(
                old(self).records@,
            ) >= old(self).max_deploys ==> (r matches Err(e) && e is Unavailable),
            valid_project_name(config.name@) && archive@.len() > 0 && count_pipeline(
                old(self).records@,
            ) < old(self).max_deploys ==> (r is Ok || (r matches Err(e) && e is Internal)),
    {
        let id = ext::fresh_id();
        let created_at = ext::now_millis();
        self.deploy_with_id(id, created_at, config, archive)
    }

    /// A snapshot of the record with this identifier; `NotFound` when no
    /// record carries it.
    pub fn get_deployment(&self, id: u128) -> (r: Result<DeploymentMeta, DeploymentApiError>)
        requires
            self.wf(),
        ensures
            self.has_id(id) ==> (r matches Ok(m) && m == self.rec_of(id).meta),
            !self.has_id(id) ==> (r matches Err(e) && e matches DeploymentApiError::NotFound(msg)
                && msg@ == "could not find deployment"@),
    {
        match self.find_index(id) {
            Some(i) => {
                proof {
                    assert(self.records@[self.idx_of(id)].meta.id == id);
                }
                Ok(self.records[i].meta.dup())
            },
            None => Err(DeploymentApiError::NotFound(String::from_str("could not find deployment"))),
        }
    }

    /// A snapshot of the project's most recent record — the deployment a
    /// client polls for, terminal or not, so a failed build's reason stays
    /// visible. `NotFound` only when the project has no record at all.
    pub fn get_deployment_for_project(&self, project_name: &String) -> (r: Result<
        DeploymentMeta,
        DeploymentApiError,
    >)
        requires
            self.wf(),
        ensures
            (exists|i: int|
                0 <= i < self.records@.len() && (#[trigger] self.records@[i]).meta.config.name@
                    == project_name@) <==> r is Ok,
            r matches Ok(m) ==> exists|i: int|
                0 <= i < self.records@.len() && (#[trigger] self.records@[i]).meta.config.name@
                    == project_name@ && m == self.records@[i].meta && (forall|j: int|
                    i < j < self.records@.len() ==> (#[trigger] self.records@[j]).meta.config.name@
                        != project_name@),
            r matches Err(e) ==> e matches DeploymentApiError::NotFound(msg) && msg@
                == "could not find project"@,
    {
        let n = self.records.len();
        let mut i: usize = n;
        while i > 0
            invariant
                0 <= i <= n,
                n == self.records@.len(),
                forall|k: int|
                    i <= k < n ==> (#[trigger] self.records@[k]).meta.config.name@
                        != project_name@,
            decreases i,
        {
            i -= 1;
            if self.records[i].meta.config.name.eq(project_name) {
                return Ok(self.records[i].meta.dup());
            }
        }
        Err(DeploymentApiError::NotFound(String::from_str("could not find project")))
    }

    /// Moves the record with this identifier to `Deleted`: its route leaves
    /// the table in the same step, and its port drains until the service's
    /// shutdown is confirmed. Killing a terminal record changes nothing and
    /// returns it as it is; killing twice is killing once.
    pub fn kill_deployment(&mut self, id: u128) -> (r: Result<DeploymentMeta, DeploymentApiError>)
        requires
            old(self).wf(),
        ensures
            final(self).wf(),
            evolves(old(self).records@, final(self).records@),
            kill_post(*old(self), *final(self), id, r),
    {
        let idx = match self.find_index(id) {
            Some(i) => i,
            None => {
                return Err(
                    DeploymentApiError::NotFound(String::from_str("could not find deployment")),
                );
            },
        };
        proof {
            assert(self.records@[self.idx_of(id)].meta.id == id);
            assert(self.idx_of(id) == idx as int);
        }
        if self.records[idx].meta.state.is_terminal_exec() {
            return Ok(self.records[idx].meta.dup());
        }
        let ghost pre = *self;
        let ghost i = idx as int;
        let was_deployed = match self.records[idx].meta.state {
            DeploymentStateMeta::Deployed => true,
            _ => false,
        };
        if was_deployed {
            let host = self.records[idx].meta.host.clone();
            self.router.remove(&host);
        }
        if let Some(p) = self.records[idx].port {
            self.draining.push(p);
        }
        self.records[idx].meta.state = DeploymentStateMeta::Deleted;
        self.records[idx].port = None;
        let snapshot = self.records[idx].meta.dup();
        proof {
            let killed_rec = (Deployment {
                meta: with_state(pre.records@[i].meta, DeploymentStateMeta::Deleted),
                port: None,
            });
            assert(self.records@ =~= pre.records@.update(i, killed_rec));
            lemma_kill_wf(pre, *self, i);
        }
        Ok(snapshot)
    }

    /// Kills the newest active record of the project, as `kill_deployment`
    /// does; `NotFound` when the project has none.
    pub fn kill_deployment_for_project(&mut self, project_name: &String) -> (r: Result<
        DeploymentMeta,
        DeploymentApiError,
    >)
        requires
            old(self).wf(),
        ensures
            final(self).wf(),
            evolves(old(self).records@, final(self).records@),
            (exists|i: int|
                0 <= i < old(self).records@.len() && is_active_for(
                    #[trigger] old(self).records@[i],
                    project_name@,
                )) <==> r is Ok,
            r is Ok ==> exists|i: int|
                0 <= i < old(self).records@.len() && is_active_for(
                    #[trigger] old(self).records@[i],
                    project_name@,
                ) && (forall|j: int|
                    i < j < old(self).records@.len() ==> !is_active_for(
                        #[trigger] old(self).records@[j],
                        project_name@,
                    )) && kill_post(*old(self), *final(self), old(self).records@[i].meta.id, r),
            r is Err ==> *final(self) == *old(self) && (r matches Err(e) && e matches
                DeploymentApiError::NotFound(msg) && msg@ == "no active deployment for project"@),
    {
        let n = self.records.len();
        let mut i: usize = n;
        while i > 0
            invariant
                0 <= i <= n,
                n == self.records@.len(),
                *self == *old(self),
                self.wf(),
                forall|k: int|
                    i <= k < n ==> !is_active_for(#[trigger] self.records@[k], project_name@),
            decreases i,
        {
            i -= 1;
            let active = !self.records[i].meta.state.is_terminal_exec()
                && self.records[i].meta.config.name.eq(project_name);
            if active {
                let id = self.records[i].meta.id;
                proof {
                    assert(self.records@[self.idx_of(id)].meta.id == id);
                    assert(self.idx_of(id) == i as int);
                }
                return self.kill_deployment(id);
            }
        }
        Err(
            DeploymentApiError::NotFound(
                String::from_str("no active deployment for project"),
            ),
        )
    }

    /// Another attempt of the same project keeps this one waiting: one with a
    /// build or load under way, or an older one still in the pipeline. The
    /// second half serializes attempts per project in acceptance order: an
    /// attempt builds only when it is the oldest of its project still in the
    /// pipeline, so two promoted attempts pass the router in the order they
    /// were accepted.
    fn build_gate_closed(&self, except: usize, name: &String) -> (r: bool)
        requires
            except < self.records@.len(),
            name@ == self.records@[except as int].meta.config.name@,
        ensures
            r == build_blocked(self.records@, except as int),
    {
        let n = self.records.len();
        let mut j: usize = 0;
        while j < n
            invariant
                0 <= j <= n,
                n == self.records@.len(),
                except < n,
                name@ == self.records@[except as int].meta.config.name@,
                forall|k: int|
                    0 <= k < j && k != except ==> !((mid_flight(#[trigger] self.records@[k]) || (
                    in_pipeline(self.records@[k]) && k < except))
                        && self.records@[k].meta.config.name@ == name@),
            decreases n - j,
        {
            if j != except {
                let is_mid = match self.records[j].meta.state {
                    DeploymentStateMeta::Built => true,
                    DeploymentStateMeta::Loaded => true,
                    _ => false,
                };
                let is_older_pipelined = j < except && match self.records[j].meta.state {
                    DeploymentStateMeta::Queued => true,
                    DeploymentStateMeta::Built => true,
                    DeploymentStateMeta::Loaded => true,
                    _ => false,
                };
                if (is_mid || is_older_pipelined) && self.records[j].meta.config.name.eq(name) {
                    return true;
                }
            }
            j += 1;
        }
        false
    }

    /// Records the outcome of the build stage. A record still `Queued` moves
    /// to `Built` with its build log — unless another attempt of the project
    /// is mid-flight or an older one still waits its turn, in which case it
    /// stays `Queued`, or the build failed, in which case it moves to `Error`
    /// with the reason.
    /// A record already terminal (killed while building) is returned as it
    /// is, and the caller discards the artifact. The returned snapshot's
    /// state tells the caller how to go on.
    pub fn handle_build_result(&mut self, id: u128, success: bool, log: String) -> (r: Result<
        DeploymentMeta,
        DeploymentApiError,
    >)
        requires
            old(self).wf(),
        ensures
            final(self).wf(),
            evolves(old(self).records@, final(self).records@),
            r is Err ==> *final(self) == *old(self),
            !old(self).has_id(id) ==> (r matches Err(e) && e matches DeploymentApiError::NotFound(
                m,
            ) && m@ == "could not find deployment"@),
            old(self).has_id(id) ==> {
                let i = old(self).idx_of(id);
                let d = old(self).records@[i];
                if d.meta.state.is_terminal() {
                    &&& *final(self) == *old(self)
                    &&& r matches Ok(m) && m == d.meta
                } else if !(d.meta.state is Queued) {
                    &&& *final(self) == *old(self)
                    &&& r matches Err(e) && e matches DeploymentApiError::Internal(m) && m@
                        == "unexpected deployment state"@
                } else if !success {
                    &&& r matches Ok(m) && m == with_state_and_build_log(
                        d.meta,
                        DeploymentStateMeta::Error(log),
                        log,
                    )
                    &&& final(self).records@ == old(self).records@.update(
                        i,
                        (Deployment {
                            meta: with_state_and_build_log(
                                d.meta,
                                DeploymentStateMeta::Error(log),
                                log,
                            ),
                            port: None,
                        }),
                    )
                    &&& final(self).router == old(self).router
                    &&& final(self).free_ports == old(self).free_ports
                    &&& final(self).draining == old(self).draining
                    &&& final(self).max_deploys == old(self).max_deploys
                } else if build_blocked(old(self).records@, i) {
                    &&& *final(self) == *old(self)
                    &&& r matches Ok(m) && m == d.meta
                } else {
                    &&& r matches Ok(m) && m == with_state_and_build_log(
                        d.meta,
                        DeploymentStateMeta::Built,
                        log,
                    )
                    &&& final(self).records@ == old(self).records@.update(
                        i,
                        (Deployment {
                            meta: with_state_and_build_log(
                                d.meta,
                                DeploymentStateMeta::Built,
                                log,
                            ),
                            port: None,
                        }),
                    )
                    &&& final(self).router == old(self).router
                    &&& final(self).free_ports == old(self).free_ports
                    &&& final(self).draining == old(self).draining
                    &&& final(self).max_deploys == old(self).max_deploys
                }
            },
    {
        let idx = match self.find_index(id) {
            Some(i) => i,
            None => {
                return Err(
                    DeploymentApiError::NotFound(String::from_str("could not find deployment")),
                );
            },
        };
        proof {
            assert(self.records@[self.idx_of(id)].meta.id == id);
            assert(self.idx_of(id) == idx as int);
        }
        if self.records[idx].meta.state.is_terminal_exec() {
            return Ok(self.records[idx].meta.dup());
        }
        let is_queued = match self.records[idx].meta.state {
            DeploymentStateMeta::Queued => true,
            _ => false,
        };
        if !is_queued {
            return Err(
                DeploymentApiError::Internal(String::from_str("unexpected deployment state")),
            );
        }
        if success && self.build_gate_closed(idx, &self.records[idx].meta.config.name) {
            return Ok(self.records[idx].meta.dup());
        }
        let ghost pre = *self;
        let ghost i = idx as int;
        if success {
            self.records[idx].meta.state = DeploymentStateMeta::Built;
        } else {
            self.records[idx].meta.state = DeploymentStateMeta::Error(log.clone());
        }
        self.records[idx].meta.build_logs = Some(log);
        let snapshot = self.records[idx].meta.dup();
        proof {
            assert(self.records@ =~= pre.records@.update(i, self.records@[i]));
            lemma_router_preserved(pre, *self, i, self.records@[i]);
        }
        Ok(snapshot)
    }

    /// Starts the load stage for a record that has been built: draws a port
    /// from the free pool and hands it to the caller, which binds the service
    /// to it. With no port free the record moves to `Error` and the caller is
    /// told the system is `Unavailable`. A record not awaiting load (killed,
    /// failed, or already past this stage) is left as it is.
    pub fn start_load(&mut self, id: u128) -> (r: Result<u16, DeploymentApiError>)
        requires
            old(self).wf(),
        ensures
            final(self).wf(),
            evolves(old(self).records@, final(self).records@),
            !old(self).has_id(id) ==> *final(self) == *old(self) && (r matches Err(e) && e matches
                DeploymentApiError::NotFound(m) && m@ == "could not find deployment"@),
            old(self).has_id(id) ==> {
                let i = old(self).idx_of(id);
                let d = old(self).records@[i];
                if !(d.meta.state is Built) || d.port is Some {
                    &&& *final(self) == *old(self)
                    &&& r matches Err(e) && e matches DeploymentApiError::Internal(m) && m@
                        == "not awaiting load"@
                } else if old(self).free_ports@.len() == 0 {
                    &&& r matches Err(e) && e matches DeploymentApiError::Unavailable(m) && m@
                        == "no free ports"@
                    &&& final(self).records@.len() == old(self).records@.len()
                    &&& forall|j: int|
                        0 <= j < old(self).records@.len() && j != i ==> final(self).records@[j]
                            == old(self).records@[j]
                    &&& final(self).records@[i].port is None
                    &&& final(self).records@[i].meta.state matches DeploymentStateMeta::Error(msg)
                        && msg@ == "no free ports"@
                    &&& final(self).records@[i].meta == with_state(
                        d.meta,
                        final(self).records@[i].meta.state,
                    )
                    &&& final(self).router == old(self).router
                    &&& final(self).free_ports@ == old(self).free_ports@
                    &&& final(self).draining == old(self).draining
                    &&& final(self).max_deploys == old(self).max_deploys
                } else {
                    &&& r matches Ok(p) && p == old(self).free_ports@.last()
                    &&& final(self).records@ == old(self).records@.update(
                        i,
                        (Deployment { meta: d.meta, port: Some(old(self).free_ports@.last()) }),
                    )
                    &&& final(self).free_ports@ == old(self).free_ports@.drop_last()
                    &&& final(self).router == old(self).router
                    &&& final(self).draining == old(self).draining
                    &&& final(self).max_deploys == old(self).max_deploys
                }
            },
    {
        let idx = match self.find_index(id) {
            Some(i) => i,
            None => {
                return Err(
                    DeploymentApiError::NotFound(String::from_str("could not find deployment")),
                );
            },
        };
        proof {
            assert(self.records@[self.idx_of(id)].meta.id == id);
            assert(self.idx_of(id) == idx as int);
        }
        let is_ready = match self.records[idx].meta.state {
            DeploymentStateMeta::Built => true,
            _ => false,
        };
        if !is_ready || self.records[idx].port.is_some() {
            return Err(DeploymentApiError::Internal(String::from_str("not awaiting load")));
        }
        let ghost pre = *self;
        let ghost i = idx as int;
        match self.free_ports.pop() {
            Some(p) => {
                self.records[idx].port = Some(p);
                proof {
                    assert(self.records@ =~= pre.records@.update(i, self.records@[i]));
                    assert(pre.free_ports@.contains(p));
                    assert forall|k: int|
                        0 <= k < self.free_ports@.len() implies #[trigger] self.free_ports@[k]
                        != p by {
                        assert(pre.free_ports@[k] == self.free_ports@[k]);
                        assert(pre.free_ports@[pre.free_ports@.len() - 1] == p);
                    }
                    assert forall|q: u16| #[trigger] self.free_ports@.contains(q) implies pre.free_ports@.contains(
                        q,
                    ) by {
                        let k = choose|k: int|
                            0 <= k < self.free_ports@.len() && self.free_ports@[k] == q;
                        assert(pre.free_ports@[k] == q);
                    }
                    assert forall|k: int|
                        0 <= k < self.records@.len() && (#[trigger] self.records@[k]).port
                            is Some implies !self.free_ports@.contains(self.records@[k].port->0)
                        && !self.draining@.contains(self.records@[k].port->0) by {
                        if k != i {
                            assert(self.records@[k] == pre.records@[k]);
                            if self.free_ports@.contains(self.records@[k].port->0) {
                                let l = choose|l: int|
                                    0 <= l < self.free_ports@.len() && self.free_ports@[l]
                                        == self.records@[k].port->0;
                                assert(pre.free_ports@[l] == self.free_ports@[l]);
                            }
                        } else {
                            if self.draining@.contains(p) {
                                assert(pre.draining@.contains(p));
                                assert(false);
                            }
                        }
                    }
                    lemma_router_preserved(pre, *self, i, self.records@[i]);
                }
                Ok(p)
            },
            None => {
                self.records[idx].meta.state = DeploymentStateMeta::Error(
                    String::from_str("no free ports"),
                );
                proof {
                    assert(self.records@ =~= pre.records@.update(i, self.records@[i]));
                    lemma_router_preserved(pre, *self, i, self.records@[i]);
                }
                Err(DeploymentApiError::Unavailable(String::from_str("no free ports")))
            },
        }
    }

    /// Finds a previously promoted deployment of the same project: the record
    /// a successful swap-in displaces.
    fn find_prior_deployed(&self, except: usize, name: &String) -> (r: Option<usize>)
        requires
            except < self.records@.len(),
            name@ == self.records@[except as int].meta.config.name@,
        ensures
            r matches Some(j) ==> prior_deployed(*self, except as int, j as int),
            r is None ==> forall|j: int| !prior_deployed(*self, except as int, j),
    {
        let n = self.records.len();
        let mut j: usize = 0;
        while j < n
            invariant
                0 <= j <= n,
                n == self.records@.len(),
                except < n,
                name@ == self.records@[except as int].meta.config.name@,
                forall|k: int| 0 <= k < j ==> !prior_deployed(*self, except as int, k),
            decreases n - j,
        {
            if j != except {
                let is_deployed = match self.records[j].meta.state {
                    DeploymentStateMeta::Deployed => true,
                    _ => false,
                };
                if is_deployed && self.records[j].meta.config.name.eq(name) {
                    return Some(j);
                }
            }
            j += 1;
        }
        None
    }

    /// The swap-in: a `Loaded` record becomes `Deployed`, and in the same
    /// atomic step its hostname is switched to its port in the routing table.
    /// A previously serving deployment of the same project is deleted and its
    /// port drains until its service's shutdown is confirmed; the hostname
    /// never goes without a route during the swap. A record already terminal
    /// (killed or superseded before the swap) is returned as it is, and the
    /// caller shuts its service down.
    pub fn promote(&mut self, id: u128) -> (r: Result<DeploymentMeta, DeploymentApiError>)
        requires
            old(self).wf(),
        ensures
            final(self).wf(),
            evolves(old(self).records@, final(self).records@),
            promote_post(*old(self), *final(self), id, r),
    {
        let idx = match self.find_index(id) {
            Some(i) => i,
            None => {
                return Err(
                    DeploymentApiError::NotFound(String::from_str("could not find deployment")),
                );
            },
        };
        proof {
            assert(self.records@[self.idx_of(id)].meta.id == id);
            assert(self.idx_of(id) == idx as int);
        }
        if self.records[idx].meta.state.is_terminal_exec() {
            return Ok(self.records[idx].meta.dup());
        }
        let is_loaded = match self.records[idx].meta.state {
            DeploymentStateMeta::Loaded => true,
            _ => false,
        };
        if !is_loaded {
            return Err(
                DeploymentApiError::Internal(String::from_str("unexpected deployment state")),
            );
        }
        let p = match self.records[idx].port {
            Some(p) => p,
            None => {
                proof {
                    assert(false);
                }
                0
            },
        };
        let ghost pre = *self;
        let ghost i = idx as int;
        let host = self.records[idx].meta.host.clone();
        let name = self.records[idx].meta.config.name.clone();
        let prior = self.find_prior_deployed(idx, &name);
        self.router.upsert(host, p);
        if let Some(jdx) = prior {
            let q = match self.records[jdx].port {
                Some(q) => q,
                None => {
                    proof {
                        assert(false);
                    }
                    0
                },
            };
            self.draining.push(q);
            self.records[jdx].meta.state = DeploymentStateMeta::Deleted;
            self.records[jdx].port = None;
            self.records[idx].meta.state = DeploymentStateMeta::Deployed;
            let snapshot = self.records[idx].meta.dup();
            proof {
                let j = jdx as int;
                assert(prior_deployed(pre, i, j));
                let jj = choose|k: int| prior_deployed(pre, i, k);
                assert(prior_deployed(pre, i, jj));
                assert(jj == j);
                assert(self.records@ =~= pre.records@.update(
                    i,
                    (Deployment {
                        meta: with_state(pre.records@[i].meta, DeploymentStateMeta::Deployed),
                        port: pre.records@[i].port,
                    }),
                ).update(
                    j,
                    (Deployment {
                        meta: with_state(pre.records@[j].meta, DeploymentStateMeta::Deleted),
                        port: None,
                    }),
                ));
                lemma_promote_wf(pre, *self, i, Some(j));
            }
            Ok(snapshot)
        } else {
            self.records[idx].meta.state = DeploymentStateMeta::Deployed;
            let snapshot = self.records[idx].meta.dup();
            proof {
                assert(self.records@ =~= pre.records@.update(
                    i,
                    (Deployment {
                        meta: with_state(pre.records@[i].meta, DeploymentStateMeta::Deployed),
                        port: pre.records@[i].port,
                    }),
                ));
                lemma_promote_wf(pre, *self, i, None);
            }
            Ok(snapshot)
        }
    }

    /// Caches freshly provisioned database credentials on a live record: the
    /// first call stores them, and later calls keep the stored ones, so a
    /// project's deployment sees one set of credentials. A record already
    /// terminal is left as it is.
    pub fn attach_database(&mut self, id: u128, info: DatabaseReadyInfo) -> (r: Result<
        DeploymentMeta,
        DeploymentApiError,
    >)
        requires
            old(self).wf(),
        ensures
            final(self).wf(),
            evolves(old(self).records@, final(self).records@),
            r is Err ==> *final(self) == *old(self),
            !old(self).has_id(id) ==> (r matches Err(e) && e matches DeploymentApiError::NotFound(
                m,
            ) && m@ == "could not find deployment"@),
            old(self).has_id(id) ==> {
                let i = old(self).idx_of(id);
                let d = old(self).records@[i];
                if d.meta.state.is_terminal() || d.meta.database_deployment is Some {
                    &&& *final(self) == *old(self)
                    &&& r matches Ok(m) && m == d.meta
                } else {
                    &&& r matches Ok(m) && m == (DeploymentMeta {
                        id: d.meta.id,
                        config: d.meta.config,
                        state: d.meta.state,
                        host: d.meta.host,
                        build_logs: d.meta.build_logs,
                        runtime_logs: d.meta.runtime_logs,
                        database_deployment: Some(info),
                        created_at: d.meta.created_at,
                    })
                    &&& final(self).records@ == old(self).records@.update(
                        i,
                        (Deployment {
                            meta: DeploymentMeta {
                                id: d.meta.id,
                                config: d.meta.config,
                                state: d.meta.state,
                                host: d.meta.host,
                                build_logs: d.meta.build_logs,
                                runtime_logs: d.meta.runtime_logs,
                                database_deployment: Some(info),
                                created_at: d.meta.created_at,
                            },
                            port: d.port,
                        }),
                    )
                    &&& final(self).router == old(self).router
                    &&& final(self).free_ports == old(self).free_ports
                    &&& final(self).draining == old(self).draining
                    &&& final(self).max_deploys == old(self).max_deploys
                }
            },
    {
        let idx = match self.find_index(id) {
            Some(i) => i,
            None => {
                return Err(
                    DeploymentApiError::NotFound(String::from_str("could not find deployment")),
                );
            },
        };
        proof {
            assert(self.records@[self.idx_of(id)].meta.id == id);
            assert(self.idx_of(id) == idx as int);
        }
        if self.records[idx].meta.state.is_terminal_exec()
            || self.records[idx].meta.database_deployment.is_some() {
            return Ok(self.records[idx].meta.dup());
        }
        let ghost pre = *self;
        let ghost i = idx as int;
        self.records[idx].meta.database_deployment = Some(info);
        let snapshot = self.records[idx].meta.dup();
        proof {
            assert(self.records@ =~= pre.records@.update(i, self.records@[i]));
            lemma_router_same_record_shape(pre, *self, i);
        }
        Ok(snapshot)
    }

    /// Confirms that the service once bound to this port has shut down: the
    /// port leaves the draining pool and re-enters the free pool. A port not
    /// draining is left alone, so a repeated confirmation changes nothing.
    pub fn service_stopped(&mut self, port: u16)
        requires
            old(self).wf(),
        ensures
            final(self).wf(),
            final(self).records == old(self).records,
            final(self).router == old(self).router,
            final(self).max_deploys == old(self).max_deploys,
            old(self).draining@.contains(port) ==> (final(self).free_ports@ == old(
                self,
            ).free_ports@.push(port) && !final(self).draining@.contains(port) && (forall|q: u16|
                q != port ==> (final(self).draining@.contains(q) <==> old(self).draining@.contains(
                    q,
                )))),
            !old(self).draining@.contains(port) ==> *final(self) == *old(self),
    {
        let n = self.draining.len();
        let mut k: usize = 0;
        while k < n
            invariant
                0 <= k <= n,
                n == self.draining@.len(),
                *self == *old(self),
                self.wf(),
                forall|l: int| 0 <= l < k ==> self.draining@[l] != port,
            decreases n - k,
        {
            if self.draining[k] == port {
                let ghost pre = *self;
                self.draining.remove(k);
                self.free_ports.push(port);
                proof {
                    assert(pre.draining@[k as int] == port);
                    assert(pre.draining@.contains(port));
                    assert(!pre.free_ports@.contains(port));
                    assert forall|q: u16| #[trigger] self.draining@.contains(q) implies pre.draining@.contains(
                        q,
                    ) by {
                        let l = choose|l: int|
                            0 <= l < self.draining@.len() && self.draining@[l] == q;
                        if l < k {
                            assert(pre.draining@[l] == q);
                        } else {
                            assert(pre.draining@[l + 1] == q);
                        }
                    }
                    assert forall|q: u16|
                        q != port && pre.draining@.contains(q) implies self.draining@.contains(
                        q,
                    ) by {
                        let l = choose|l: int|
                            0 <= l < pre.draining@.len() && pre.draining@[l] == q;
                        if l < k {
                            assert(self.draining@[l] == q);
                        } else {
                            assert(l != k);
                            assert(self.draining@[l - 1] == q);
                        }
                    }
                    assert forall|l: int|
                        0 <= l < self.draining@.len() implies #[trigger] self.draining@[l]
                        != port by {
                        if l < k {
                            assert(self.draining@[l] == pre.draining@[l]);
                        } else {
                            assert(self.draining@[l] == pre.draining@[l + 1]);
                            assert(pre.draining@[l + 1] == pre.draining@[k as int] ==> l + 1
                                == k);
                        }
                    }
                    assert(!self.draining@.contains(port));
                    // Pool uniqueness and disjointness after the move.
                    assert forall|a: int, b: int|
                        0 <= a < self.draining@.len() && 0 <= b < self.draining@.len()
                            && #[trigger] self.draining@[a] == #[trigger] self.draining@[b] implies a
                        == b by {
                        let qa = if a < k {
                            pre.draining@[a]
                        } else {
                            pre.draining@[a + 1]
                        };
                        let qb = if b < k {
                            pre.draining@[b]
                        } else {
                            pre.draining@[b + 1]
                        };
                        assert(self.draining@[a] == qa);
                        assert(self.draining@[b] == qb);
                    }
                    assert forall|a: int, b: int|
                        0 <= a < self.free_ports@.len() && 0 <= b < self.free_ports@.len()
                            && #[trigger] self.free_ports@[a] == #[trigger] self.free_ports@[b] implies a
                        == b by {
                        let m = pre.free_ports@.len() as int;
                        if a < m && b < m {
                            assert(pre.free_ports@[a] == pre.free_ports@[b]);
                        } else if a < m && b == m {
                            assert(pre.free_ports@.contains(pre.free_ports@[a]));
                            assert(false);
                        } else if b < m && a == m {
                            assert(pre.free_ports@.contains(pre.free_ports@[b]));
                            assert(false);
                        }
                    }
                    assert forall|q: u16|
                        !(#[trigger] self.free_ports@.contains(q) && self.draining@.contains(
                            q,
                        )) by {
                        if self.free_ports@.contains(q) && self.draining@.contains(q) {
                            assert(pre.draining@.contains(q));
                            assert(q != port);
                            let l = choose|l: int|
                                0 <= l < self.free_ports@.len() && self.free_ports@[l] == q;
                            if l < pre.free_ports@.len() {
                                assert(pre.free_ports@.contains(q));
                                assert(false);
                            } else {
                                assert(q == port);
                                assert(false);
                            }
                        }
                    }
                    assert forall|l: int|
                        0 <= l < self.records@.len() && (#[trigger] self.records@[l]).port
                            is Some implies !self.free_ports@.contains(self.records@[l].port->0)
                        && !self.draining@.contains(self.records@[l].port->0) by {
                        let q = self.records@[l].port->0;
                        assert(!pre.free_ports@.contains(q));
                        assert(!pre.draining@.contains(q));
                        if self.free_ports@.contains(q) {
                            let m = choose|m: int|
                                0 <= m < self.free_ports@.len() && self.free_ports@[m] == q;
                            if m < pre.free_ports@.len() {
                                assert(pre.free_ports@.contains(q));
                                assert(false);
                            } else {
                                assert(q == port);
                                assert(false);
                            }
                        }
                    }
                }
                return ;
            }
            k += 1;
        }
    }

    /// Records the outcome of the load stage. A `Built` record whose service
    /// came up moves to `Loaded` with its runtime log; one whose load failed
    /// moves to `Error` with the reason, and its port goes straight back to
    /// the free pool, since no service ever served on it. A record already
    /// terminal (killed while loading) is returned as it is, and the caller
    /// shuts the service down.
    pub fn handle_load_result(&mut self, id: u128, success: bool, log: String) -> (r: Result<
        DeploymentMeta,
        DeploymentApiError,
    >)
        requires
            old(self).wf(),
        ensures
            final(self).wf(),
            evolves(old(self).records@, final(self).records@),
            r is Err ==> *final(self) == *old(self),
            !old(self).has_id(id) ==> (r matches Err(e) && e matches DeploymentApiError::NotFound(
                m,
            ) && m@ == "could not find deployment"@),
            old(self).has_id(id) ==> {
                let i = old(self).idx_of(id);
                let d = old(self).records@[i];
                if d.meta.state.is_terminal() {
                    &&& *final(self) == *old(self)
                    &&& r matches Ok(m) && m == d.meta
                } else if !(d.meta.state is Built) || d.port is None {
                    &&& *final(self) == *old(self)
                    &&& r matches Err(e) && e matches DeploymentApiError::Internal(m) && m@
                        == "not loading"@
                } else if success {
                    &&& r matches Ok(m) && m == with_state_and_runtime_log(
                        d.meta,
                        DeploymentStateMeta::Loaded,
                        log,
                    )
                    &&& final(self).records@ == old(self).records@.update(
                        i,
                        (Deployment {
                            meta: with_state_and_runtime_log(
                                d.meta,
                                DeploymentStateMeta::Loaded,
                                log,
                            ),
                            port: d.port,
                        }),
                    )
                    &&& final(self).router == old(self).router
                    &&& final(self).free_ports == old(self).free_ports
                    &&& final(self).draining == old(self).draining
                    &&& final(self).max_deploys == old(self).max_deploys
                } else {
                    &&& r matches Ok(m) && m == with_state_and_runtime_log(
                        d.meta,
                        DeploymentStateMeta::Error(log),
                        log,
                    )
                    &&& final(self).records@ == old(self).records@.update(
                        i,
                        (Deployment {
                            meta: with_state_and_runtime_log(
                                d.meta,
                                DeploymentStateMeta::Error(log),
                                log,
                            ),
                            port: None,
                        }),
                    )
                    &&& final(self).free_ports@ == old(self).free_ports@.push(d.port->0)
                    &&& final(self).router == old(self).router
                    &&& final(self).draining == old(self).draining
                    &&& final(self).max_deploys == old(self).max_deploys
                }
            },
    {
        let idx = match self.find_index(id) {
            Some(i) => i,
            None => {
                return Err(
                    DeploymentApiError::NotFound(String::from_str("could not find deployment")),
                );
            },
        };
        proof {
            assert(self.records@[self.idx_of(id)].meta.id == id);
            assert(self.idx_of(id) == idx as int);
        }
        if self.records[idx].meta.state.is_terminal_exec() {
            return Ok(self.records[idx].meta.dup());
        }
        let is_built = match self.records[idx].meta.state {
            DeploymentStateMeta::Built => true,
            _ => false,
        };
        if !is_built {
            return Err(DeploymentApiError::Internal(String::from_str("not loading")));
        }
        let p = match self.records[idx].port {
            Some(p) => p,
            None => {
                return Err(DeploymentApiError::Internal(String::from_str("not loading")));
            },
        };
        let ghost pre = *self;
        let ghost i = idx as int;
        if success {
            self.records[idx].meta.state = DeploymentStateMeta::Loaded;
            self.records[idx].meta.runtime_logs = Some(log);
            let snapshot = self.records[idx].meta.dup();
            proof {
                assert(self.records@ =~= pre.records@.update(i, self.records@[i]));
                lemma_router_preserved(pre, *self, i, self.records@[i]);
            }
            Ok(snapshot)
        } else {
            self.records[idx].meta.state = DeploymentStateMeta::Error(log.clone());
            self.records[idx].meta.runtime_logs = Some(log);
            self.records[idx].port = None;
            self.free_ports.push(p);
            let snapshot = self.records[idx].meta.dup();
            proof {
                assert(self.records@ =~= pre.records@.update(i, self.records@[i]));
                assert(!pre.free_ports@.contains(p));
                assert(!pre.draining@.contains(p));
                assert forall|k: int, l: int|
                    0 <= k < self.free_ports@.len() && 0 <= l < self.free_ports@.len()
                        && #[trigger] self.free_ports@[k] == #[trigger] self.free_ports@[l] implies k
                    == l by {
                    let n = pre.free_ports@.len() as int;
                    if k < n && l < n {
                        assert(pre.free_ports@[k] == pre.free_ports@[l]);
                    } else if k < n && l == n {
                        assert(pre.free_ports@.contains(pre.free_ports@[k]));
                        assert(false);
                    } else if l < n && k == n {
                        assert(pre.free_ports@.contains(pre.free_ports@[l]));
                        assert(false);
                    }
                }
                assert forall|q: u16|
                    !(#[trigger] self.free_ports@.contains(q) && self.draining@.contains(q)) by {
                    if self.free_ports@.contains(q) {
                        let k = choose|k: int|
                            0 <= k < self.free_ports@.len() && self.free_ports@[k] == q;
                        if k < pre.free_ports@.len() {
                            assert(pre.free_ports@.contains(q));
                        }
                    }
                }
                assert forall|k: int|
                    0 <= k < self.records@.len() && (#[trigger] self.records@[k]).port
                        is Some implies !self.free_ports@.contains(self.records@[k].port->0)
                    && !self.draining@.contains(self.records@[k].port->0) by {
                    assert(k != i);
                    assert(self.records@[k] == pre.records@[k]);
                    let q = self.records@[k].port->0;
                    if self.free_ports@.contains(q) {
                        let l = choose|l: int|
                            0 <= l < self.free_ports@.len() && self.free_ports@[l] == q;
                        if l < pre.free_ports@.len() {
                            assert(pre.free_ports@.contains(q));
                            assert(false);
                        } else {
                            assert(q == p);
                            assert(pre.records@[k].port == pre.records@[i].port);
                            assert(false);
                        }
                    }
                }
                lemma_router_preserved(pre, *self, i, self.records@[i]);
            }
            Ok(snapshot)
        }
    }
}


/// The routing table still matches the registry after a record update that
/// keeps the record's state, hostname and port, and leaves the table itself
/// as it was.
proof fn lemma_router_same_record_shape(pre: DeploymentSystem, post: DeploymentSystem, i: int)
    requires
        pre.router_matches(),
        0 <= i < pre.records@.len(),
        post.records@ == pre.records@.update(i, post.records@[i]),
        post.records@.len() == pre.records@.len(),
        post.router == pre.router,
        post.records@[i].meta.state == pre.records@[i].meta.state,
        post.records@[i].meta.host == pre.records@[i].meta.host,
        post.records@[i].port == pre.records@[i].port,
    ensures
        post.router_matches(),
{
    assert forall|k: int|
        0 <= k < post.records@.len() && (#[trigger] post.records@[k]).meta.state
            is Deployed implies post.router.routes_to(
        post.records@[k].meta.host@,
        post.records@[k].port->0,
    ) by {
        if k != i {
            assert(post.records@[k] == pre.records@[k]);
        } else {
            assert(pre.router.routes_to(pre.records@[i].meta.host@, pre.records@[i].port->0));
        }
    }
    assert forall|h: Seq<char>, p: u16| #[trigger] post.router.routes_to(h, p) implies exists|k: int|
        0 <= k < post.records@.len() && (#[trigger] post.records@[k]).meta.state is Deployed
            && post.records@[k].meta.host@ == h && post.records@[k].port == Some(p) by {
        assert(pre.router.routes_to(h, p));
        let k = choose|k: int|
            0 <= k < pre.records@.len() && (#[trigger] pre.records@[k]).meta.state is Deployed
                && pre.records@[k].meta.host@ == h && pre.records@[k].port == Some(p);
        if k == i {
            assert(post.records@[i].meta.state is Deployed);
            assert(post.records@[i].meta.host@ == h);
            assert(post.records@[i].port == Some(p));
        } else {
            assert(post.records@[k] == pre.records@[k]);
        }
    }
}

/// The routing table still matches the registry after a record update that
/// touches no `Deployed` record and leaves the table itself as it was.
proof fn lemma_router_preserved(
    pre: DeploymentSystem,
    post: DeploymentSystem,
    i: int,
    d_new: Deployment,
)
    requires
        pre.router_matches(),
        0 <= i < pre.records@.len(),
        post.records@ == pre.records@.update(i, d_new),
        post.router == pre.router,
        !(pre.records@[i].meta.state is Deployed),
        !(d_new.meta.state is Deployed),
    ensures
        post.router_matches(),
{
    assert forall|k: int|
        0 <= k < post.records@.len() && (#[trigger] post.records@[k]).meta.state
            is Deployed implies post.router.routes_to(
        post.records@[k].meta.host@,
        post.records@[k].port->0,
    ) by {
        assert(k != i);
        assert(post.records@[k] == pre.records@[k]);
    }
    assert forall|h: Seq<char>, p: u16| #[trigger] post.router.routes_to(h, p) implies exists|k: int|
        0 <= k < post.records@.len() && (#[trigger] post.records@[k]).meta.state is Deployed
            && post.records@[k].meta.host@ == h && post.records@[k].port == Some(p) by {
        assert(pre.router.routes_to(h, p));
        let k = choose|k: int|
            0 <= k < pre.records@.len() && (#[trigger] pre.records@[k]).meta.state is Deployed
                && pre.records@[k].meta.host@ == h && pre.records@[k].port == Some(p);
        assert(k != i);
        assert(post.records@[k] == pre.records@[k]);
    }
}

/// Re-establishes every invariant after a swap-in: `pre` is well formed, its
/// record at `i` is `Loaded` with a port, and `post` is `pre` with that
/// record promoted, the router switched at its hostname only, and the prior
/// deployment of the project (if any) deleted with its port drained.
proof fn lemma_promote_wf(pre: DeploymentSystem, post: DeploymentSystem, i: int, prior: Option<int>)
    requires
        pre.wf(),
        0 <= i < pre.records@.len(),
        pre.records@[i].meta.state is Loaded,
        pre.records@[i].port is Some,
        (match prior {
            Some(j) => {
                &&& prior_deployed(pre, i, j)
                &&& post.records@ == pre.records@.update(
                    i,
                    (Deployment {
                        meta: with_state(pre.records@[i].meta, DeploymentStateMeta::Deployed),
                        port: pre.records@[i].port,
                    }),
                ).update(
                    j,
                    (Deployment {
                        meta: with_state(pre.records@[j].meta, DeploymentStateMeta::Deleted),
                        port: None,
                    }),
                )
                &&& post.draining@ == pre.draining@.push(pre.records@[j].port->0)
            },
            None => {
                &&& (forall|j: int| !prior_deployed(pre, i, j))
                &&& post.records@ == pre.records@.update(
                    i,
                    (Deployment {
                        meta: with_state(pre.records@[i].meta, DeploymentStateMeta::Deployed),
                        port: pre.records@[i].port,
                    }),
                )
                &&& post.draining == pre.draining
            },
        }),
        post.free_ports == pre.free_ports,
        post.router.wf(),
        post.router.routes_to(pre.records@[i].meta.host@, pre.records@[i].port->0),
        forall|p: u16|
            post.router.routes_to(pre.records@[i].meta.host@, p) ==> p == pre.records@[i].port->0,
        forall|h: Seq<char>, p: u16|
            h != pre.records@[i].meta.host@ ==> (post.router.routes_to(h, p)
                <==> pre.router.routes_to(h, p)),
        forall|h: Seq<char>|
            h != pre.records@[i].meta.host@ ==> (post.router.in_table(h) <==> pre.router.in_table(
                h,
            )),
    ensures
        post.wf(),
        evolves(pre.records@, post.records@),
{
    let d = pre.records@[i];
    let hosti = d.meta.host@;
    assert forall|k: int|
        0 <= k < post.records@.len() && k != i && (prior is Some ==> k != prior->0) implies post.records@[k]
        == pre.records@[k] by {}
    // No other deployed record shares the project, so none shares the host.
    assert forall|k: int|
        0 <= k < post.records@.len() && k != i && (#[trigger] post.records@[k]).meta.state
            is Deployed implies post.records@[k] == pre.records@[k]
        && post.records@[k].meta.config.name@ != d.meta.config.name@
        && post.records@[k].meta.host@ != hosti by {
        if prior is Some {
            assert(k != prior->0);
        }
        assert(post.records@[k] == pre.records@[k]);
        if pre.records@[k].meta.config.name@ == d.meta.config.name@ {
            assert(prior_deployed(pre, i, k));
            if prior is Some {
                let j = prior->0;
                assert(pre.records@[k].meta.state is Deployed);
                assert(pre.records@[j].meta.state is Deployed);
                assert(k == j);
                assert(false);
            } else {
                assert(false);
            }
        }
        if pre.records@[k].meta.host@ == hosti {
            lemma_host_of_injective(pre.records@[k].meta.config.name@, d.meta.config.name@);
            assert(false);
        }
    }
    // The drained port, when a prior deployment leaves.
    if prior is Some {
        let j = prior->0;
        let q = pre.records@[j].port->0;
        assert(pre.records@[j].port is Some);
        assert(!pre.free_ports@.contains(q));
        assert(!pre.draining@.contains(q));
        assert forall|p: u16| #[trigger] post.draining@.contains(p) implies (
        pre.draining@.contains(p) || p == q) by {
            let l = choose|l: int| 0 <= l < post.draining@.len() && post.draining@[l] == p;
            if l < pre.draining@.len() {
                assert(pre.draining@[l] == p);
            }
        }
        assert forall|p: u16| pre.draining@.contains(p) implies post.draining@.contains(p) by {
            let l = choose|l: int| 0 <= l < pre.draining@.len() && pre.draining@[l] == p;
            assert(post.draining@[l] == p);
        }
        assert forall|a: int, b: int|
            0 <= a < post.draining@.len() && 0 <= b < post.draining@.len()
                && #[trigger] post.draining@[a] == #[trigger] post.draining@[b] implies a == b by {
            let m = pre.draining@.len() as int;
            if a < m && b < m {
                assert(pre.draining@[a] == pre.draining@[b]);
            } else if a < m && b == m {
                assert(pre.draining@.contains(pre.draining@[a]));
                assert(false);
            } else if b < m && a == m {
                assert(pre.draining@.contains(pre.draining@[b]));
                assert(false);
            }
        }
    }
    // Router direction: every deployed record still routes.
    assert forall|k: int|
        0 <= k < post.records@.len() && (#[trigger] post.records@[k]).meta.state
            is Deployed implies post.router.routes_to(
        post.records@[k].meta.host@,
        post.records@[k].port->0,
    ) by {
        if k == i {
        } else {
            assert(post.records@[k] == pre.records@[k]);
            assert(post.records@[k].meta.host@ != hosti);
            assert(pre.router.routes_to(post.records@[k].meta.host@, post.records@[k].port->0));
        }
    }
    // Router direction: every route points at a deployed record.
    assert forall|h: Seq<char>, p: u16| #[trigger] post.router.routes_to(h, p) implies exists|k: int|
        0 <= k < post.records@.len() && (#[trigger] post.records@[k]).meta.state is Deployed
            && post.records@[k].meta.host@ == h && post.records@[k].port == Some(p) by {
        if h == hosti {
            assert(p == d.port->0);
            assert(post.records@[i].meta.state is Deployed);
            assert(post.records@[i].meta.host@ == h);
            assert(post.records@[i].port == Some(p));
        } else {
            assert(pre.router.routes_to(h, p));
            let k = choose|k: int|
                0 <= k < pre.records@.len() && (#[trigger] pre.records@[k]).meta.state
                    is Deployed && pre.records@[k].meta.host@ == h && pre.records@[k].port == Some(
                    p,
                );
            assert(k != i);
            if prior is Some {
                let j = prior->0;
                if k == j {
                    assert(pre.records@[j].meta.config.name@ == d.meta.config.name@);
                    assert(pre.records@[j].meta.host@ == host_of(
                        pre.records@[j].meta.config.name@,
                    ));
                    assert(d.meta.host@ == host_of(d.meta.config.name@));
                    assert(pre.records@[j].meta.host@ == hosti);
                    assert(false);
                }
            }
            assert(post.records@[k] == pre.records@[k]);
        }
    }
}

/// Re-establishes every invariant after a kill: `pre` is well formed, its
/// record at `i` is live, and `post` is `pre` with that record deleted, its
/// port drained and (when it was serving) its route removed.
proof fn lemma_kill_wf(pre: DeploymentSystem, post: DeploymentSystem, i: int)
    requires
        pre.wf(),
        0 <= i < pre.records@.len(),
        !pre.records@[i].meta.state.is_terminal(),
        post.records@ == pre.records@.update(
            i,
            (Deployment {
                meta: with_state(pre.records@[i].meta, DeploymentStateMeta::Deleted),
                port: None,
            }),
        ),
        post.free_ports == pre.free_ports,
        (match pre.records@[i].port {
            Some(p) => post.draining@ == pre.draining@.push(p),
            None => post.draining == pre.draining,
        }),
        (if pre.records@[i].meta.state is Deployed {
            &&& post.router.wf()
            &&& !post.router.in_table(pre.records@[i].meta.host@)
            &&& forall|h: Seq<char>, p: u16|
                h != pre.records@[i].meta.host@ ==> (post.router.routes_to(h, p)
                    <==> pre.router.routes_to(h, p))
            &&& forall|h: Seq<char>|
                h != pre.records@[i].meta.host@ ==> (post.router.in_table(h)
                    <==> pre.router.in_table(h))
        } else {
            post.router == pre.router
        }),
    ensures
        post.wf(),
        evolves(pre.records@, post.records@),
{
    let d = pre.records@[i];
    assert forall|j: int| 0 <= j < post.records@.len() && j != i implies post.records@[j]
        == pre.records@[j] by {}
    assert forall|p: u16| post.draining@.contains(p) implies (pre.draining@.contains(p) || (
    d.port matches Some(q) && p == q)) by {
        if d.port is Some {
            let k = choose|k: int| 0 <= k < post.draining@.len() && post.draining@[k] == p;
            if k < pre.draining@.len() {
                assert(pre.draining@[k] == p);
            }
        }
    }
    assert forall|p: u16| pre.draining@.contains(p) implies post.draining@.contains(p) by {
        let k = choose|k: int| 0 <= k < pre.draining@.len() && pre.draining@[k] == p;
        assert(post.draining@[k] == p);
    }
    // The drained port itself.
    if d.port is Some {
        let p = d.port->0;
        assert(post.draining@.last() == p);
        assert(post.draining@.contains(p));
        assert(!pre.free_ports@.contains(p));
        assert(!pre.draining@.contains(p));
    }
    // Pools stay duplicate-free and disjoint.
    assert forall|k: int, l: int|
        0 <= k < post.draining@.len() && 0 <= l < post.draining@.len()
            && #[trigger] post.draining@[k] == #[trigger] post.draining@[l] implies k == l by {
        if d.port is Some {
            let n = pre.draining@.len() as int;
            if k < n && l < n {
                assert(pre.draining@[k] == pre.draining@[l]);
            } else if k < n && l == n {
                assert(pre.draining@.contains(pre.draining@[k]));
                assert(false);
            } else if l < n && k == n {
                assert(pre.draining@.contains(pre.draining@[l]));
                assert(false);
            }
        }
    }
    // Router direction: every deployed record still routes.
    assert forall|j: int|
        0 <= j < post.records@.len() && (#[trigger] post.records@[j]).meta.state
            is Deployed implies post.router.routes_to(
        post.records@[j].meta.host@,
        post.records@[j].port->0,
    ) by {
        assert(j != i);
        assert(post.records@[j] == pre.records@[j]);
        if d.meta.state is Deployed {
            // Two deployed records belong to different projects, so their
            // hostnames differ.
            assert(pre.records@[j].meta.config.name@ != d.meta.config.name@);
            if pre.records@[j].meta.host@ == d.meta.host@ {
                lemma_host_of_injective(pre.records@[j].meta.config.name@, d.meta.config.name@);
            }
            assert(pre.records@[j].meta.host@ != d.meta.host@);
        }
    }
    // Router direction: every route points at a deployed record.
    assert forall|h: Seq<char>, p: u16| #[trigger] post.router.routes_to(h, p) implies exists|j: int|
        0 <= j < post.records@.len() && (#[trigger] post.records@[j]).meta.state is Deployed
            && post.records@[j].meta.host@ == h && post.records@[j].port == Some(p) by {
        if d.meta.state is Deployed {
            let k = choose|k: int|
                0 <= k < post.router.entries@.len() && (#[trigger] post.router.entries@[k]).0@
                    == h && post.router.entries@[k].1 == p;
            assert(post.router.in_table(h));
            assert(h != d.meta.host@);
            assert(pre.router.routes_to(h, p));
        } else {
            assert(pre.router.routes_to(h, p));
        }
        let j = choose|j: int|
            0 <= j < pre.records@.len() && (#[trigger] pre.records@[j]).meta.state is Deployed
                && pre.records@[j].meta.host@ == h && pre.records@[j].port == Some(p);
        assert(j != i || h == d.meta.host@);
        if j == i {
            assert(d.meta.state is Deployed);
            assert(false);
        }
        assert(post.records@[j] == pre.records@[j]);
    }
}

} // verus!
