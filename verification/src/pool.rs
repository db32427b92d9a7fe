use vstd::prelude::*;
use crate::error::Error;

verus! {

/// Transport flavor of an edge server.
#[derive(Debug, Clone, Copy, PartialEq, Eq, Structural)]
pub enum ServerKind {
    /// A LAN cache peer.
    SteamCache,
    /// A regular CDN edge.
    Cdn,
    /// Anything else the directory announces.
    Other,
}

/// One edge server as announced by the server directory.
#[derive(Debug, Clone)]
pub struct ServerDescriptor {
    /// Transport flavor.
    pub kind: ServerKind,
    /// Whether requests must use HTTPS.
    pub https: bool,
    /// Host name.
    pub host: String,
    /// Virtual host.
    pub vhost: String,
    /// TCP port: 443 when HTTPS is mandatory, else 80.
    pub port: u16,
    /// Cell the server sits in; 0 when unspecified.
    pub cell_id: u32,
    /// Raw load.
    pub load: u64,
    /// Weighted load; lower is better.
    pub weighted_load: u64,
}

/// One pool slot: a server and its failure penalty.
pub struct PoolEntry {
    /// The server.
    pub server: ServerDescriptor,
    /// How often requests against this server have failed since the
    /// last refresh.
    pub penalty: u64,
}

/// An entry is preferred outright: it sits in the caller's cell and
/// has never failed since the last refresh.
pub open spec fn affine_ok(e: PoolEntry, cell_id: u32) -> bool {
    e.server.cell_id == cell_id && e.penalty == 0
}

/// An entry is a fallback candidate by its transport flavor.
pub open spec fn is_candidate(e: PoolEntry) -> bool {
    e.server.kind == ServerKind::SteamCache || e.server.kind == ServerKind::Cdn
}

/// `a` ranks strictly better than `b`: lexicographically smaller
/// (penalty, weighted load).
pub open spec fn ranks_better(a: PoolEntry, b: PoolEntry) -> bool {
    a.penalty < b.penalty || (a.penalty == b.penalty && a.server.weighted_load
        < b.server.weighted_load)
}

/// The current list of edge servers with per-server penalty counters.
pub struct ServerPool {
    entries: Vec<PoolEntry>,
}

impl ServerPool {
    /// The pool's slots in order.
    pub closed spec fn spec_entries(self) -> Seq<PoolEntry> {
        self.entries@
    }

    /// The pool is exhausted: it is empty, or every entry has failed at
    /// least once since the last refresh.
    pub open spec fn exhausted(self) -> bool {
        self.spec_entries().len() == 0 || forall|i: int|
            0 <= i < self.spec_entries().len() ==> (#[trigger] self.spec_entries()[i]).penalty > 0
    }

    /// An empty pool; exhausted until the first refresh.
    pub fn new() -> (r: ServerPool)
        ensures
            r.spec_entries().len() == 0,
    {
        ServerPool { entries: Vec::new() }
    }

    pub fn len(&self) -> (r: usize)
        ensures
            r == self.spec_entries().len(),
    {
        self.entries.len()
    }

    /// The server in slot `i`.
    pub fn get(&self, i: usize) -> (r: &ServerDescriptor)
        requires
            i < self.spec_entries().len(),
        ensures
            *r == self.spec_entries()[i as int].server,
    {
        &self.entries[i].server
    }

    /// Whether a pick must re-discover servers first: true exactly when
    /// the pool is exhausted.
    pub fn needs_refresh(&self) -> (r: bool)
        ensures
            r == self.exhausted(),
    {
        let n = self.entries.len();
        if n == 0 {
            return true;
        }
        let mut i: usize = 0;
        while i < n
            invariant
                n == self.spec_entries().len(),
                0 <= i <= n,
                forall|j: int| 0 <= j < i ==> (#[trigger] self.spec_entries()[j]).penalty > 0,
            decreases n - i,
        {
            if self.entries[i].penalty == 0 {
                return false;
            }
            i = i + 1;
        }
        true
    }

    /// Replaces the pool atomically with freshly discovered servers,
    /// resetting every penalty to zero.
    pub fn refresh(&mut self, servers: Vec<ServerDescriptor>)
        ensures
            final(self).spec_entries().len() == servers@.len(),
            forall|i: int|
                0 <= i < servers@.len() ==> (#[trigger] final(self).spec_entries()[i]).server
                    == servers@[i] && final(self).spec_entries()[i].penalty == 0,
    {
        let ghost orig = servers@;
        let mut entries: Vec<PoolEntry> = Vec::new();
        let n = servers.len();
        let mut rest = servers;
        let mut i: usize = 0;
        while i < n
            invariant
                orig.len() == n,
                n == rest@.len() + i,
                entries@.len() == i,
                forall|j: int| 0 <= j < i ==> (#[trigger] entries@[j]).penalty == 0,
                forall|j: int| 0 <= j < rest@.len() ==> #[trigger] rest@[j] == orig[j + i],
                forall|j: int| 0 <= j < i ==> (#[trigger] entries@[j]).server == orig[j],
            decreases n - i,
        {
            let s = rest.remove(0);
            entries.push(PoolEntry { server: s, penalty: 0 });
            i = i + 1;
        }
        self.entries = entries;
    }

    /// Notes a failed request against slot `i`: its penalty grows by
    /// one (saturating); any other slot is untouched.
    pub fn penalize(&mut self, i: usize)
        ensures
            final(self).spec_entries().len() == old(self).spec_entries().len(),
            forall|j: int|
                0 <= j < old(self).spec_entries().len() && j != i
                    ==> #[trigger] final(self).spec_entries()[j] == old(self).spec_entries()[j],
            i < old(self).spec_entries().len() ==> {
                let before = old(self).spec_entries()[i as int];
                let after = final(self).spec_entries()[i as int];
                &&& after.server == before.server
                &&& after.penalty == if before.penalty == u64::MAX {
                    u64::MAX as int
                } else {
                    before.penalty + 1
                }
            },
    {
        if i < self.entries.len() {
            let p = self.entries[i].penalty;
            let bumped = if p == u64::MAX {
                p
            } else {
                p + 1
            };
            self.entries[i].penalty = bumped;
        }
    }

    /// Chooses a server slot: the first never-failed entry of the
    /// caller's cell if there is one, otherwise the first best-ranked
    /// CDN or SteamCache entry, otherwise `NoServers`.
    pub fn pick(&self, cell_id: u32) -> (r: Result<usize, Error>)
        ensures
            (exists|i: int|
                0 <= i < self.spec_entries().len() && affine_ok(
                    #[trigger] self.spec_entries()[i],
                    cell_id,
                )) ==> {
                &&& r is Ok
                &&& (r->Ok_0 as int) < self.spec_entries().len()
                &&& affine_ok(self.spec_entries()[r->Ok_0 as int], cell_id)
                &&& forall|j: int|
                    0 <= j < r->Ok_0 as int ==> !affine_ok(
                        #[trigger] self.spec_entries()[j],
                        cell_id,
                    )
            },
            (forall|i: int|
                0 <= i < self.spec_entries().len() ==> !affine_ok(
                    #[trigger] self.spec_entries()[i],
                    cell_id,
                )) && (exists|i: int|
                0 <= i < self.spec_entries().len() && is_candidate(
                    #[trigger] self.spec_entries()[i],
                )) ==> {
                &&& r is Ok
                &&& (r->Ok_0 as int) < self.spec_entries().len()
                &&& is_candidate(self.spec_entries()[r->Ok_0 as int])
                &&& forall|j: int|
                    0 <= j < self.spec_entries().len() && is_candidate(
                        #[trigger] self.spec_entries()[j],
                    ) ==> !ranks_better(
                        self.spec_entries()[j],
                        self.spec_entries()[r->Ok_0 as int],
                    )
                &&& forall|j: int|
                    0 <= j < r->Ok_0 as int && is_candidate(#[trigger] self.spec_entries()[j])
                        ==> ranks_better(self.spec_entries()[r->Ok_0 as int],
                        self.spec_entries()[j])
            },
            (forall|i: int|
                0 <= i < self.spec_entries().len() ==> !affine_ok(
                    #[trigger] self.spec_entries()[i],
                    cell_id,
                )) && (forall|i: int|
                0 <= i < self.spec_entries().len() ==> !is_candidate(
                    #[trigger] self.spec_entries()[i],
                )) ==> r == Err::<usize, Error>(Error::NoServers),
            r is Ok ==> (r->Ok_0 as int) < self.spec_entries().len(),
            (exists|i: int|
                0 <= i < self.spec_entries().len() && is_candidate(
                    #[trigger] self.spec_entries()[i],
                ) && self.spec_entries()[i].penalty == 0) && (forall|i: int|
                0 <= i < self.spec_entries().len() && affine_ok(
                    #[trigger] self.spec_entries()[i],
                    cell_id,
                ) ==> is_candidate(self.spec_entries()[i])) ==> r is Ok && is_candidate(
                self.spec_entries()[r->Ok_0 as int],
            ),
    {
        let n = self.entries.len();
        let mut i: usize = 0;
        while i < n
            invariant
                n == self.spec_entries().len(),
                0 <= i <= n,
                forall|j: int|
                    0 <= j < i ==> !affine_ok(#[trigger] self.spec_entries()[j], cell_id),
            decreases n - i,
        {
            if self.entries[i].server.cell_id == cell_id && self.entries[i].penalty == 0 {
                return Ok(i);
            }
            i = i + 1;
        }
        let mut best: usize = 0;
        let mut found = false;
        let mut i: usize = 0;
        while i < n
            invariant
                n == self.spec_entries().len(),
                0 <= i <= n,
                forall|j: int|
                    0 <= j < n ==> !affine_ok(#[trigger] self.spec_entries()[j], cell_id),
                !found ==> forall|j: int|
                    0 <= j < i ==> !is_candidate(#[trigger] self.spec_entries()[j]),
                found ==> {
                    &&& (best as int) < i
                    &&& is_candidate(self.spec_entries()[best as int])
                    &&& forall|j: int|
                        0 <= j < i && is_candidate(#[trigger] self.spec_entries()[j])
                            ==> !ranks_better(
                            self.spec_entries()[j],
                            self.spec_entries()[best as int],
                        )
                    &&& forall|j: int|
                        0 <= j < best as int && is_candidate(#[trigger] self.spec_entries()[j])
                            ==> ranks_better(self.spec_entries()[best as int],
                            self.spec_entries()[j])
                },
            decreases n - i,
        {
            let k = self.entries[i].server.kind;
            let cand = match k {
                ServerKind::SteamCache => true,
                ServerKind::Cdn => true,
                ServerKind::Other => false,
            };
            if cand {
                if !found {
                    best = i;
                    found = true;
                } else {
                    let better = self.entries[i].penalty < self.entries[best].penalty
                        || (self.entries[i].penalty == self.entries[best].penalty
                            && self.entries[i].server.weighted_load
                            < self.entries[best].server.weighted_load);
                    if better {
                        best = i;
                    }
                }
            }
            i = i + 1;
        }
        if found {
            Ok(best)
        } else {
            Err(Error::NoServers)
        }
    }
}

/// A pool that holds an entry that never failed is not exhausted, so
/// a pick refreshes nothing; an exhausted pool is refreshed exactly
/// once, and a non-empty refreshed pool is no longer exhausted.
pub proof fn lemma_refreshed_not_exhausted(pool: ServerPool)
    requires
        pool.spec_entries().len() > 0,
        forall|i: int|
            0 <= i < pool.spec_entries().len() ==> (#[trigger] pool.spec_entries()[i]).penalty
                == 0,
    ensures
        !pool.exhausted(),
{
    assert(pool.spec_entries()[0].penalty == 0);
}

} // verus!
