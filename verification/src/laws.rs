use vstd::prelude::*;

use crate::manager::evolves;
use crate::manager::kill_post;
use crate::manager::mid_flight;
use crate::manager::promote_post;
use crate::manager::with_state;
use crate::manager::Deployment;
use crate::manager::DeploymentSystem;
use crate::meta::host_of;
use crate::types::DeploymentStateMeta;

verus! {

/// Single serving deployment per project: a well-formed registry never holds
/// two `Deployed` records of one project.
pub proof fn lemma_single_deployed_per_project(s: DeploymentSystem, i: int, j: int)
    requires
        s.wf(),
        0 <= i < s.records@.len(),
        0 <= j < s.records@.len(),
        s.records@[i].meta.state is Deployed,
        s.records@[j].meta.state is Deployed,
        s.records@[i].meta.config.name@ == s.records@[j].meta.config.name@,
    ensures
        i == j,
{
}

/// Single attempt in flight per project: a well-formed registry never holds
/// two records of one project between `Built` and `Loaded`.
pub proof fn lemma_single_mid_flight_per_project(s: DeploymentSystem, i: int, j: int)
    requires
        s.wf(),
        0 <= i < s.records@.len(),
        0 <= j < s.records@.len(),
        mid_flight(s.records@[i]),
        mid_flight(s.records@[j]),
        s.records@[i].meta.config.name@ == s.records@[j].meta.config.name@,
    ensures
        i == j,
{
}

/// The routing table reflects the deployed state: a project's hostname has a
/// route exactly when some record of that project is `Deployed`, and the
/// route is that record's port.
pub proof fn lemma_router_reflects_deployed(s: DeploymentSystem, name: Seq<char>)
    requires
        s.wf(),
    ensures
        s.router.in_table(host_of(name)) <==> exists|i: int|
            0 <= i < s.records@.len() && (#[trigger] s.records@[i]).meta.state is Deployed
                && s.records@[i].meta.config.name@ == name,
        forall|p: u16|
            s.router.routes_to(host_of(name), p) ==> exists|i: int|
                0 <= i < s.records@.len() && (#[trigger] s.records@[i]).meta.state is Deployed
                    && s.records@[i].meta.config.name@ == name && s.records@[i].port == Some(p),
{
    let h = host_of(name);
    if s.router.in_table(h) {
        let k = choose|k: int|
            0 <= k < s.router.entries@.len() && (#[trigger] s.router.entries@[k]).0@ == h;
        let p = s.router.entries@[k].1;
        assert(s.router.routes_to(h, p));
        let i = choose|i: int|
            0 <= i < s.records@.len() && (#[trigger] s.records@[i]).meta.state is Deployed
                && s.records@[i].meta.host@ == h && s.records@[i].port == Some(p);
        crate::meta::lemma_host_of_injective(s.records@[i].meta.config.name@, name);
        assert(s.records@[i].meta.config.name@ == name);
    }
    if exists|i: int|
        0 <= i < s.records@.len() && (#[trigger] s.records@[i]).meta.state is Deployed
            && s.records@[i].meta.config.name@ == name {
        let i = choose|i: int|
            0 <= i < s.records@.len() && (#[trigger] s.records@[i]).meta.state is Deployed
                && s.records@[i].meta.config.name@ == name;
        assert(s.router.routes_to(s.records@[i].meta.host@, s.records@[i].port->0));
        assert(s.router.in_table(h));
    }
    assert forall|p: u16| s.router.routes_to(h, p) implies exists|i: int|
        0 <= i < s.records@.len() && (#[trigger] s.records@[i]).meta.state is Deployed
            && s.records@[i].meta.config.name@ == name && s.records@[i].port == Some(p) by {
        let i = choose|i: int|
            0 <= i < s.records@.len() && (#[trigger] s.records@[i]).meta.state is Deployed
                && s.records@[i].meta.host@ == h && s.records@[i].port == Some(p);
        crate::meta::lemma_host_of_injective(s.records@[i].meta.config.name@, name);
    }
}

/// Port uniqueness: two records holding the same port are the same record,
/// and a held port is in neither the free nor the draining pool.
pub proof fn lemma_port_uniqueness(s: DeploymentSystem, i: int, j: int, p: u16)
    requires
        s.wf(),
        0 <= i < s.records@.len(),
        0 <= j < s.records@.len(),
        s.records@[i].port == Some(p),
        s.records@[j].port == Some(p),
    ensures
        i == j,
        !s.free_ports@.contains(p),
        !s.draining@.contains(p),
{
}

/// Monotonic state across any run: the step relation every mutating call of
/// the manager ensures composes, so states never move backwards over a whole
/// history either, and a terminal record stays exactly as it is.
pub proof fn lemma_evolves_transitive(a: Seq<Deployment>, b: Seq<Deployment>, c: Seq<Deployment>)
    requires
        evolves(a, b),
        evolves(b, c),
    ensures
        evolves(a, c),
{
    assert forall|i: int| 0 <= i < a.len() implies {
        let x = #[trigger] a[i];
        let z = #[trigger] c[i];
        &&& z.meta.id == x.meta.id
        &&& z.meta.config == x.meta.config
        &&& z.meta.host == x.meta.host
        &&& z.meta.created_at == x.meta.created_at
        &&& x.meta.state.rank() <= z.meta.state.rank()
        &&& (x.meta.state.is_terminal() ==> z == x)
    } by {
        assert(a[i].meta.id == b[i].meta.id);
    }
}

/// Kill idempotence: killing a deployment a second time returns the very
/// same terminal snapshot and changes nothing at all.
pub proof fn lemma_kill_idempotent(
    s0: DeploymentSystem,
    s1: DeploymentSystem,
    s2: DeploymentSystem,
    id: u128,
    r1: Result<crate::meta::DeploymentMeta, crate::types::DeploymentApiError>,
    r2: Result<crate::meta::DeploymentMeta, crate::types::DeploymentApiError>,
)
    requires
        s0.wf(),
        s1.wf(),
        kill_post(s0, s1, id, r1),
        kill_post(s1, s2, id, r2),
    ensures
        s2 == s1,
        s0.has_id(id) ==> r2 == r1,
        !s0.has_id(id) ==> (r1 matches Err(e1) && r2 matches Err(e2) && (e1 matches
            crate::types::DeploymentApiError::NotFound(m1) && e2 matches
            crate::types::DeploymentApiError::NotFound(m2) && m1@ == m2@)),
{
    if !s0.has_id(id) {
        assert(s1 == s0);
        assert(!s1.has_id(id));
        assert(s2 == s1);
    } else {
        let i = s0.idx_of(id);
        assert(s0.records@[i].meta.id == id);
        let d = s0.records@[i];
        if d.meta.state.is_terminal() {
            assert(s1 == s0);
            assert(s2 == s1);
        } else {
            let killed = with_state(d.meta, DeploymentStateMeta::Deleted);
            assert(s1.records@[i].meta.id == id);
            assert(s1.has_id(id));
            assert(s1.records@[s1.idx_of(id)].meta.id == id);
            assert(s1.idx_of(id) == i);
            assert(s1.records@[i].meta == killed);
            assert(s1.records@[i].meta.state.is_terminal());
            assert(s2 == s1);
            assert(r1 matches Ok(m1) && m1 == killed);
            assert(r2 matches Ok(m2) && m2 == killed);
        }
    }
}

/// Swap atomicity: a promotion never takes a route away. Every hostname that
/// resolved before the swap still resolves after it, and the promoted
/// record's hostname resolves to its port; a reader of the table sees the old
/// target and then the new one, never a gap.
pub proof fn lemma_swap_keeps_routes(
    pre: DeploymentSystem,
    post: DeploymentSystem,
    id: u128,
    r: Result<crate::meta::DeploymentMeta, crate::types::DeploymentApiError>,
)
    requires
        pre.wf(),
        promote_post(pre, post, id, r),
    ensures
        forall|h: Seq<char>| pre.router.in_table(h) ==> post.router.in_table(h),
        pre.has_id(id) && pre.records@[pre.idx_of(id)].meta.state is Loaded
            ==> post.router.routes_to(
            pre.records@[pre.idx_of(id)].meta.host@,
            pre.records@[pre.idx_of(id)].port->0,
        ),
{
    if pre.has_id(id) {
        let i = pre.idx_of(id);
        let d = pre.records@[i];
        if !d.meta.state.is_terminal() && d.meta.state is Loaded {
            assert forall|h: Seq<char>| pre.router.in_table(h) implies post.router.in_table(
                h,
            ) by {
                if h == d.meta.host@ {
                    assert(post.router.in_table(d.meta.host@));
                } else {
                }
            }
        } else {
            assert(post == pre);
        }
    } else {
        assert(post == pre);
    }
}

} // verus!
