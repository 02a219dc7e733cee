//! The pool of proxy ports of one pipeline and the connection on each.
use vstd::prelude::*;
use crate::connection::{Connection, ConnectionRecord};

verus! {

/// Proxy ports `base .. base + pool_size`, the connection on each live one,
/// and a stack of the free ones.
pub struct ConnectionManager {
    base: u16,
    slots: Vec<Option<Connection>>,
    free: Vec<u16>,
}

impl ConnectionManager {
    pub closed spec fn spec_base(&self) -> u16 {
        self.base
    }

    pub open spec fn spec_pool_size(&self) -> nat {
        self.spec_slots().len()
    }

    /// The connection on each port of the pool, in port order.
    pub closed spec fn spec_slots(&self) -> Seq<Option<Connection>> {
        self.slots@
    }

    pub open spec fn spec_owns(&self, p: u16) -> bool {
        self.spec_base() <= p < self.spec_base() + self.spec_pool_size()
    }

    pub open spec fn spec_live(&self, p: u16) -> bool {
        self.spec_owns(p) && self.spec_slots()[p - self.spec_base()] is Some
    }

    pub open spec fn spec_conn(&self, p: u16) -> Connection {
        self.spec_slots()[p - self.spec_base()].unwrap()
    }

    pub open spec fn spec_full(&self) -> bool {
        forall|i: int| 0 <= i < self.spec_pool_size() ==> self.spec_slots()[i] is Some
    }

    pub closed spec fn wf(&self) -> bool {
        &&& self.base as int + self.slots@.len() <= 65536
        &&& forall|i: int|
            0 <= i < self.slots@.len() && #[trigger] self.slots@[i] is Some ==> self.slots@[i].unwrap().proxy_port
                == self.base + i && self.slots@[i].unwrap().con_rec.proxy_port == self.base + i
        &&& forall|k: int|
            0 <= k < self.free@.len() ==> self.base <= #[trigger] self.free@[k] < self.base
                + self.slots@.len() && self.slots@[self.free@[k] - self.base] is None
        &&& forall|k1: int, k2: int|
            0 <= k1 < k2 < self.free@.len() ==> #[trigger] self.free@[k1] != #[trigger] self.free@[k2]
        &&& forall|i: int|
            0 <= i < self.slots@.len() && #[trigger] self.slots@[i] is None ==> exists|k: int|
                0 <= k < self.free@.len() && self.free@[k] == self.base + i
    }

    /// The connection on a live port holds that port, and so does its record.
    pub proof fn lemma_live_conn(&self, p: u16)
        requires
            self.wf(),
            self.spec_live(p),
        ensures
            self.spec_conn(p).proxy_port == p,
            self.spec_conn(p).con_rec.proxy_port == p,
    {
        let i = p - self.base;
        assert(self.slots@[i] is Some);
    }

    /// The pool's ports all fit in 16 bits.
    pub proof fn lemma_range_fits(&self)
        requires
            self.wf(),
        ensures
            self.spec_base() + self.spec_pool_size() <= 65536,
    {
    }

    /// Every live connection sits on a port of the pool, and no two share one.
    pub proof fn lemma_ports_unique(&self, i: int, j: int)
        requires
            self.wf(),
            0 <= i < self.spec_pool_size(),
            0 <= j < self.spec_pool_size(),
            self.spec_slots()[i] is Some,
            self.spec_slots()[j] is Some,
        ensures
            self.spec_owns(self.spec_slots()[i].unwrap().proxy_port),
            self.spec_slots()[i].unwrap().proxy_port - self.spec_base() == i,
            self.spec_slots()[i].unwrap().con_rec.proxy_port == self.spec_slots()[i].unwrap().proxy_port,
            i != j ==> self.spec_slots()[i].unwrap().proxy_port != self.spec_slots()[j].unwrap().proxy_port,
    {
    }

    /// An empty pool of `pool_size` ports from `base` on.
    pub fn new(base: u16, pool_size: u16) -> (r: ConnectionManager)
        requires
            base as int + pool_size as int <= 65536,
        ensures
            r.wf(),
            r.spec_base() == base,
            r.spec_pool_size() == pool_size,
            forall|p: u16| !r.spec_live(p),
    {
        let mut slots: Vec<Option<Connection>> = Vec::new();
        let mut i: u16 = 0;
        while i < pool_size
            invariant
                i <= pool_size,
                base as int + pool_size as int <= 65536,
                slots@.len() == i,
                forall|j: int| 0 <= j < i ==> #[trigger] slots@[j] is None,
            decreases pool_size - i,
        {
            slots.push(None);
            i = i + 1;
        }
        let mut k: u16 = 0;
        let mut free: Vec<u16> = Vec::new();
        while k < pool_size
            invariant
                k <= pool_size,
                base as int + pool_size as int <= 65536,
                slots@.len() == pool_size,
                free@.len() == k,
                forall|j: int| 0 <= j < pool_size ==> #[trigger] slots@[j] is None,
                forall|m: int| 0 <= m < k ==> #[trigger] free@[m] == base + pool_size - 1 - m,
            decreases pool_size - k,
        {
            free.push(base + (pool_size - 1 - k));
            k = k + 1;
        }
        let r = ConnectionManager { base, slots, free };
        assert forall|i: int| 0 <= i < r.slots@.len() && #[trigger] r.slots@[i] is None implies exists|
            k: int,
        | 0 <= k < r.free@.len() && r.free@[k] == r.base + i by {
            assert(r.free@[pool_size - 1 - i] == base + i);
        }
        r
    }

    /// The lowest proxy port of this pipeline.
    pub fn tcp_port_base(&self) -> (r: u16)
        ensures
            r == self.spec_base(),
    {
        self.base
    }

    pub fn pool_size(&self) -> (r: usize)
        ensures
            r == self.spec_pool_size(),
    {
        self.slots.len()
    }

    /// Whether `p` is in this pipeline's range of proxy ports.
    pub fn owns_tcp_port(&self, p: u16) -> (r: bool)
        requires
            self.wf(),
        ensures
            r == self.spec_owns(p),
    {
        p >= self.base && ((p - self.base) as usize) < self.slots.len()
    }

    /// The connection on port `p`, if there is one.
    pub fn get(&self, p: u16) -> (r: Option<&Connection>)
        requires
            self.wf(),
        ensures
            r is Some <==> self.spec_live(p),
            r is Some ==> *r.unwrap() == self.spec_conn(p),
            r is Some ==> r.unwrap().proxy_port == p && r.unwrap().con_rec.proxy_port == p,
    {
        if self.owns_tcp_port(p) {
            match &self.slots[(p - self.base) as usize] {
                Some(c) => Some(c),
                None => None,
            }
        } else {
            None
        }
    }

    /// Allocates a free port and puts a fresh connection on it; `None` when
    /// every port of the pool is taken.
    pub fn create(&mut self) -> (r: Option<u16>)
        requires
            old(self).wf(),
        ensures
            final(self).wf(),
            final(self).spec_base() == old(self).spec_base(),
            final(self).spec_pool_size() == old(self).spec_pool_size(),
            r is None <==> old(self).spec_full(),
            r is None ==> final(self).spec_slots() == old(self).spec_slots(),
            r is Some ==> {
                let p = r.unwrap();
                &&& old(self).spec_owns(p)
                &&& !old(self).spec_live(p)
                &&& final(self).spec_conn(p).is_fresh(p)
                &&& final(self).spec_live(p)
                &&& final(self).spec_slots() == old(self).spec_slots().update(
                    p - old(self).spec_base(),
                    Some(final(self).spec_conn(p)),
                )
            },
    {
        if self.free.len() == 0 {
            proof {
                assert forall|i: int| 0 <= i < self.slots@.len() implies #[trigger] self.slots@[i] is Some by {
                    if self.slots@[i] is None {
                        let k = choose|k: int| 0 <= k < self.free@.len() && self.free@[k] == self.base + i;
                    }
                }
            }
            return None;
        }
        let ghost old_free = self.free@;
        let ghost old_slots = self.slots@;
        let p = self.free.pop().unwrap();
        let idx = (p - self.base) as usize;
        let mut c = Some(Connection::new(p));
        self.slots.set_and_swap(idx, &mut c);
        proof {
            assert(old_free[old_free.len() - 1] == p);
            assert forall|k: int| 0 <= k < self.free@.len() implies self.base <= #[trigger] self.free@[k]
                < self.base + self.slots@.len() && self.slots@[self.free@[k] - self.base] is None by {
                assert(old_free[k] == self.free@[k]);
                assert(old_free[k] != old_free[old_free.len() - 1]);
            }
            assert forall|i: int| 0 <= i < self.slots@.len() && #[trigger] self.slots@[i] is None implies exists|
                k: int,
            | 0 <= k < self.free@.len() && self.free@[k] == self.base + i by {
                assert(old_slots[i] is None);
                let k = choose|k: int| 0 <= k < old_free.len() && old_free[k] == self.base + i;
                assert(k != old_free.len() - 1);
                assert(self.free@[k] == self.base + i);
            }
            assert(!old(self).spec_full()) by {
                assert(old_slots[idx as int] is None);
            }
        }
        Some(p)
    }

    /// Swaps the live connection on `c.proxy_port` for `c` and returns the
    /// one that was there.
    pub fn replace(&mut self, c: Connection) -> (r: Connection)
        requires
            old(self).wf(),
            old(self).spec_live(c.proxy_port),
            c.con_rec.proxy_port == c.proxy_port,
        ensures
            final(self).wf(),
            final(self).spec_base() == old(self).spec_base(),
            final(self).spec_pool_size() == old(self).spec_pool_size(),
            r == old(self).spec_conn(c.proxy_port),
            r.proxy_port == c.proxy_port,
            r.con_rec.proxy_port == c.proxy_port,
            final(self).spec_slots() == old(self).spec_slots().update(
                c.proxy_port - old(self).spec_base(),
                Some(c),
            ),
    {
        let ghost cc = c;
        let idx = (c.proxy_port - self.base) as usize;
        let mut slot = Some(c);
        self.slots.set_and_swap(idx, &mut slot);
        proof {
            assert forall|i: int| 0 <= i < self.slots@.len() && #[trigger] self.slots@[i] is None implies exists|
                k: int,
            | 0 <= k < self.free@.len() && self.free@[k] == self.base + i by {
                assert(i != idx);
                assert(old(self).slots@[i] is None);
                let k = choose|k: int|
                    0 <= k < old(self).free@.len() && old(self).free@[k] == old(self).base + i;
                assert(self.free@[k] == self.base + i);
            }
        }
        slot.unwrap()
    }

    /// Removes the connection on `p` and returns its record; the port is free
    /// again at once. `None`, and nothing changed, when `p` is not live.
    pub fn release_port(&mut self, p: u16) -> (r: Option<ConnectionRecord>)
        requires
            old(self).wf(),
        ensures
            final(self).wf(),
            final(self).spec_base() == old(self).spec_base(),
            final(self).spec_pool_size() == old(self).spec_pool_size(),
            r is Some <==> old(self).spec_live(p),
            r is None ==> final(self).spec_slots() == old(self).spec_slots(),
            r is Some ==> {
                &&& r.unwrap() == old(self).spec_conn(p).con_rec
                &&& r.unwrap().proxy_port == p
                &&& final(self).spec_slots() == old(self).spec_slots().update(p - old(self).spec_base(), None)
                &&& !final(self).spec_live(p)
            },
    {
        if !self.owns_tcp_port(p) {
            return None;
        }
        let idx = (p - self.base) as usize;
        if self.slots[idx].is_none() {
            return None;
        }
        let ghost old_free = self.free@;
        let ghost old_slots = self.slots@;
        let mut slot: Option<Connection> = None;
        self.slots.set_and_swap(idx, &mut slot);
        self.free.push(p);
        proof {
            assert forall|k: int| 0 <= k < self.free@.len() implies self.base <= #[trigger] self.free@[k]
                < self.base + self.slots@.len() && self.slots@[self.free@[k] - self.base] is None by {
                if k < old_free.len() {
                    assert(old_free[k] == self.free@[k]);
                    assert(old_slots[old_free[k] - self.base] is None);
                }
            }
            assert forall|k1: int, k2: int|
                0 <= k1 < k2 < self.free@.len() implies #[trigger] self.free@[k1] != #[trigger] self.free@[k2] by {
                if k2 == old_free.len() {
                    assert(old_slots[old_free[k1] - self.base] is None);
                } else {
                    assert(old_free[k1] != old_free[k2]);
                }
            }
            assert forall|i: int| 0 <= i < self.slots@.len() && #[trigger] self.slots@[i] is None implies exists|
                k: int,
            | 0 <= k < self.free@.len() && self.free@[k] == self.base + i by {
                if i == idx {
                    assert(self.free@[old_free.len() as int] == self.base + i);
                } else {
                    assert(old_slots[i] is None);
                    let k = choose|k: int| 0 <= k < old_free.len() && old_free[k] == self.base + i;
                    assert(self.free@[k] == self.base + i);
                }
            }
        }
        let c = slot.unwrap();
        Some(c.con_rec)
    }
}

} // verus!
