use vstd::prelude::*;

verus! {

/// The routing table of the reverse proxy: a map from virtual hostname to the
/// local port of the service that answers for it. The deployment manager is
/// its only writer; an upsert or a removal is a single atomic step, so a
/// reader never observes a half-applied swap.
pub struct RouterTable {
    pub entries: Vec<(String, u16)>,
}

impl RouterTable {
    /// The table holds each hostname at most once.
    pub open spec fn wf(&self) -> bool {
        forall|i: int, j: int|
            0 <= i < self.entries@.len() && 0 <= j < self.entries@.len()
                && #[trigger] self.entries@[i].0@ == #[trigger] self.entries@[j].0@ ==> i == j
    }

    /// The table forwards hostname `h` to port `p`.
    pub open spec fn routes_to(&self, h: Seq<char>, p: u16) -> bool {
        exists|i: int|
            0 <= i < self.entries@.len() && (#[trigger] self.entries@[i]).0@ == h
                && self.entries@[i].1 == p
    }

    /// The table holds an entry for hostname `h`.
    pub open spec fn in_table(&self, h: Seq<char>) -> bool {
        exists|i: int| 0 <= i < self.entries@.len() && (#[trigger] self.entries@[i]).0@ == h
    }

    /// The number of entries.
    pub open spec fn spec_len(&self) -> nat {
        self.entries@.len()
    }

    pub fn new() -> (r: Self)
        ensures
            r.wf(),
            forall|h: Seq<char>| !r.in_table(h),
            r.spec_len() == 0,
    {
        RouterTable { entries: Vec::new() }
    }

    /// Looks a hostname up; the result is the forwarding port exactly when the
    /// table holds the host.
    pub fn lookup(&self, host: &String) -> (r: Option<u16>)
        requires
            self.wf(),
        ensures
            r is Some <==> self.in_table(host@),
            r matches Some(p) ==> self.routes_to(host@, p),
    {
        let n = self.entries.len();
        let mut i: usize = 0;
        while i < n
            invariant
                0 <= i <= n,
                n == self.entries@.len(),
                forall|k: int| 0 <= k < i ==> (#[trigger] self.entries@[k]).0@ != host@,
            decreases n - i,
        {
            if self.entries[i].0.eq(host) {
                return Some(self.entries[i].1);
            }
            i += 1;
        }
        None
    }

    /// Installs or replaces the entry for `host` in one step: afterwards the
    /// host forwards to `port`, and every other host forwards as before.
    pub fn upsert(&mut self, host: String, port: u16)
        requires
            old(self).wf(),
        ensures
            final(self).wf(),
            final(self).routes_to(host@, port),
            final(self).in_table(host@),
            forall|h: Seq<char>, p: u16|
                h != host@ ==> (final(self).routes_to(h, p) <==> old(self).routes_to(h, p)),
            forall|h: Seq<char>| h != host@ ==> (final(self).in_table(h) <==> old(self).in_table(h)),
            forall|p: u16| final(self).routes_to(host@, p) ==> p == port,
    {
        self.remove(&host);
        let ghost mid = *self;
        self.entries.push((host, port));
        proof {
            let n = self.entries@.len() as int;
            assert(self.entries@[n - 1] == (host, port));
            assert(self.routes_to(host@, port));
            assert forall|h: Seq<char>, p: u16| h != host@ implies (self.routes_to(h, p) <==> mid.routes_to(h, p)) by {
                if self.routes_to(h, p) {
                    let j = choose|j: int|
                        0 <= j < self.entries@.len() && (#[trigger] self.entries@[j]).0@ == h
                            && self.entries@[j].1 == p;
                    assert(j < n - 1);
                    assert(mid.entries@[j] == self.entries@[j]);
                }
                if mid.routes_to(h, p) {
                    let j = choose|j: int|
                        0 <= j < mid.entries@.len() && (#[trigger] mid.entries@[j]).0@ == h
                            && mid.entries@[j].1 == p;
                    assert(self.entries@[j] == mid.entries@[j]);
                }
            }
            assert forall|h: Seq<char>| h != host@ implies (self.in_table(h) <==> mid.in_table(h)) by {
                if self.in_table(h) {
                    let j = choose|j: int|
                        0 <= j < self.entries@.len() && (#[trigger] self.entries@[j]).0@ == h;
                    assert(j < n - 1);
                    assert(mid.entries@[j] == self.entries@[j]);
                }
                if mid.in_table(h) {
                    let j = choose|j: int|
                        0 <= j < mid.entries@.len() && (#[trigger] mid.entries@[j]).0@ == h;
                    assert(self.entries@[j] == mid.entries@[j]);
                }
            }
            assert forall|i: int, j: int|
                0 <= i < self.entries@.len() && 0 <= j < self.entries@.len()
                    && #[trigger] self.entries@[i].0@ == #[trigger] self.entries@[j].0@ implies i
                == j by {
                if i < n - 1 && j < n - 1 {
                    assert(mid.entries@[i] == self.entries@[i]);
                    assert(mid.entries@[j] == self.entries@[j]);
                } else if i == n - 1 && j < n - 1 {
                    assert(mid.entries@[j] == self.entries@[j]);
                    assert(mid.in_table(host@));
                    assert(false);
                } else if j == n - 1 && i < n - 1 {
                    assert(mid.entries@[i] == self.entries@[i]);
                    assert(mid.in_table(host@));
                    assert(false);
                }
            }
        }
    }

    /// Removes the entry for `host`, if one is there; every other host
    /// forwards as before.
    pub fn remove(&mut self, host: &String)
        requires
            old(self).wf(),
        ensures
            final(self).wf(),
            !final(self).in_table(host@),
            forall|h: Seq<char>, p: u16|
                h != host@ ==> (final(self).routes_to(h, p) <==> old(self).routes_to(h, p)),
            forall|h: Seq<char>| h != host@ ==> (final(self).in_table(h) <==> old(self).in_table(h)),
    {
        let n = self.entries.len();
        let mut i: usize = 0;
        while i < n
            invariant
                0 <= i <= n,
                n == self.entries@.len(),
                self.wf(),
                *self == *old(self),
                forall|k: int| 0 <= k < i ==> (#[trigger] self.entries@[k]).0@ != host@,
            decreases n - i,
        {
            if self.entries[i].0.eq(host) {
                self.entries.remove(i);
                proof {
                    assert forall|h: Seq<char>, p: u16| h != host@ implies (self.routes_to(h, p)
                        <==> old(self).routes_to(h, p)) by {
                        if old(self).routes_to(h, p) {
                            let j = choose|j: int|
                                0 <= j < old(self).entries@.len() && (#[trigger] old(
                                    self,
                                ).entries@[j]).0@ == h && old(self).entries@[j].1 == p;
                            if j < i {
                                assert(self.entries@[j] == old(self).entries@[j]);
                            } else {
                                assert(self.entries@[j - 1] == old(self).entries@[j]);
                            }
                        }
                        if self.routes_to(h, p) {
                            let j = choose|j: int|
                                0 <= j < self.entries@.len() && (#[trigger] self.entries@[j]).0@
                                    == h && self.entries@[j].1 == p;
                            if j < i {
                                assert(old(self).entries@[j] == self.entries@[j]);
                            } else {
                                assert(old(self).entries@[j + 1] == self.entries@[j]);
                            }
                        }
                    }
                    assert forall|h: Seq<char>| h != host@ implies (self.in_table(h) <==> old(
                        self,
                    ).in_table(h)) by {
                        if old(self).in_table(h) {
                            let j = choose|j: int|
                                0 <= j < old(self).entries@.len() && (#[trigger] old(
                                    self,
                                ).entries@[j]).0@ == h;
                            if j < i {
                                assert(self.entries@[j] == old(self).entries@[j]);
                            } else if j == i {
                                assert(false);
                            } else {
                                assert(self.entries@[j - 1] == old(self).entries@[j]);
                            }
                        }
                        if self.in_table(h) {
                            let j = choose|j: int|
                                0 <= j < self.entries@.len() && (#[trigger] self.entries@[j]).0@
                                    == h;
                            if j < i {
                                assert(old(self).entries@[j] == self.entries@[j]);
                            } else {
                                assert(old(self).entries@[j + 1] == self.entries@[j]);
                            }
                        }
                    }
                    assert forall|j: int| 0 <= j < self.entries@.len() implies (
                    #[trigger] self.entries@[j]).0@ != host@ by {
                        if j < i {
                            assert(self.entries@[j] == old(self).entries@[j]);
                        } else {
                            assert(self.entries@[j] == old(self).entries@[j + 1]);
                            assert(old(self).entries@[i as int].0@ == host@);
                        }
                    }
                }
                return ;
            }
            i += 1;
        }
    }
}

} // verus!
