//! A hashed timer wheel of connection timeouts, keyed by proxy port.
use vstd::prelude::*;
use vstd::arithmetic::div_mod::{lemma_add_mod_noop_right, lemma_div_is_ordered};

verus! {

/// A timeout: the connection on `port` expires at time `deadline`.
#[derive(Clone, Copy, Debug, PartialEq, Eq, Structural)]
pub struct TimerEntry {
    pub port: u16,
    pub deadline: u64,
}

/// Slot `t % slots` holds the entries due in tick `t`, a tick being
/// `granularity` time units. Ticks before `now_tick` are all processed.
pub struct TimerWheel {
    slots: Vec<Vec<TimerEntry>>,
    granularity: u64,
    now_tick: u64,
}

pub proof fn lemma_push_contains(a: Seq<TimerEntry>, y: TimerEntry, x: TimerEntry)
    ensures
        a.push(y).contains(x) <==> a.contains(x) || x == y,
{
    if a.push(y).contains(x) {
        let i = choose|i: int| 0 <= i < a.push(y).len() && a.push(y)[i] == x;
        if i < a.len() {
            assert(a[i] == x);
        }
    }
    if a.contains(x) {
        let i = choose|i: int| 0 <= i < a.len() && a[i] == x;
        assert(a.push(y)[i] == x);
    }
    if x == y {
        assert(a.push(y)[a.len() as int] == x);
    }
}

/// Splits `v` into the entries that `keep` holds of, returned, and the
/// others, appended to `out`.
fn split_entries(v: &Vec<TimerEntry>, by_deadline: bool, now: u64, port: u16, out: &mut Vec<TimerEntry>) -> (kept: Vec<TimerEntry>)
    ensures
        forall|x: TimerEntry|
            #[trigger] kept@.contains(x) <==> v@.contains(x) && keeps(x, by_deadline, now, port),
        forall|x: TimerEntry|
            #[trigger] final(out)@.contains(x) <==> old(out)@.contains(x) || (v@.contains(x) && !keeps(
                x,
                by_deadline,
                now,
                port,
            )),
{
    let mut kept: Vec<TimerEntry> = Vec::new();
    let mut j: usize = 0;
    while j < v.len()
        invariant
            j <= v@.len(),
            forall|x: TimerEntry|
                #[trigger] kept@.contains(x) <==> v@.subrange(0, j as int).contains(x) && keeps(
                    x,
                    by_deadline,
                    now,
                    port,
                ),
            forall|x: TimerEntry|
                #[trigger] out@.contains(x) <==> old(out)@.contains(x) || (v@.subrange(
                    0,
                    j as int,
                ).contains(x) && !keeps(x, by_deadline, now, port)),
        decreases v@.len() - j,
    {
        let e = v[j];
        let ghost kept0 = kept@;
        let ghost out0 = out@;
        let k = if by_deadline {
            e.deadline > now
        } else {
            e.port != port
        };
        if k {
            kept.push(e);
        } else {
            out.push(e);
        }
        proof {
            assert(v@.subrange(0, j + 1) =~= v@.subrange(0, j as int).push(e));
            assert forall|x: TimerEntry| #[trigger] kept@.contains(x) <==> v@.subrange(0, j + 1).contains(x)
                && keeps(x, by_deadline, now, port) by {
                lemma_push_contains(v@.subrange(0, j as int), e, x);
                lemma_push_contains(kept0, e, x);
            }
            assert forall|x: TimerEntry| #[trigger] out@.contains(x) <==> old(out)@.contains(x) || (v@.subrange(
                0,
                j + 1,
            ).contains(x) && !keeps(x, by_deadline, now, port)) by {
                lemma_push_contains(v@.subrange(0, j as int), e, x);
                lemma_push_contains(out0, e, x);
            }
        }
        j = j + 1;
    }
    proof {
        assert(v@.subrange(0, v@.len() as int) =~= v@);
    }
    kept
}

/// The slot of the tick that `deadline` falls in.
pub open spec fn slot_of(deadline: u64, granularity: u64, slot_count: nat) -> int {
    ((deadline / granularity) as int) % (slot_count as int)
}

/// Walking `steps` consecutive ticks from `nt` (all up to `target`, but no
/// more than one turn of `n` slots) visits the slot of every tick in
/// `nt ..= target`.
pub proof fn lemma_tick_walked(nt: int, target: int, n: int, steps: int, tau: int)
    requires
        n > 0,
        0 <= nt <= tau <= target,
        steps == if target - nt >= n {
            n
        } else {
            target - nt + 1
        },
    ensures
        exists|k: int| 0 <= k < steps && #[trigger] ((nt + k) % n) == tau % n,
{
    if target - nt >= n {
        let k = (tau - nt) % n;
        lemma_add_mod_noop_right(nt, tau - nt, n);
        assert((nt + k) % n == tau % n);
    } else {
        let k = tau - nt;
        assert((nt + k) % n == tau % n);
    }
}

/// Entry `x` stays: by deadline, when it is later than `now`; else when it
/// is for another port than `port`.
pub open spec fn keeps(x: TimerEntry, by_deadline: bool, now: u64, port: u16) -> bool {
    if by_deadline {
        x.deadline > now
    } else {
        x.port != port
    }
}

impl TimerWheel {
    pub closed spec fn spec_granularity(&self) -> u64 {
        self.granularity
    }

    pub closed spec fn spec_now_tick(&self) -> u64 {
        self.now_tick
    }

    pub closed spec fn spec_slot_count(&self) -> nat {
        self.slots@.len()
    }

    /// The wheel holds entry `e`.
    pub closed spec fn spec_has(&self, e: TimerEntry) -> bool {
        exists|i: int| 0 <= i < self.slots@.len() && (#[trigger] self.slots@[i])@.contains(e)
    }

    pub closed spec fn wf(&self) -> bool {
        &&& self.slots@.len() > 0
        &&& self.granularity > 0
        &&& forall|i: int, j: int|
            0 <= i < self.slots@.len() && 0 <= j < self.slots@[i]@.len() ==> {
                let e = #[trigger] self.slots@[i]@[j];
                &&& slot_of(e.deadline, self.granularity, self.slots@.len()) == i
                &&& e.deadline / self.granularity >= self.now_tick
            }
    }

    /// An empty wheel of `slot_count` slots, each `granularity` time units.
    pub fn new(slot_count: usize, granularity: u64) -> (r: TimerWheel)
        requires
            slot_count > 0,
            granularity > 0,
        ensures
            r.wf(),
            r.spec_granularity() == granularity,
            r.spec_slot_count() == slot_count,
            r.spec_now_tick() == 0,
            forall|e: TimerEntry| !r.spec_has(e),
    {
        let mut slots: Vec<Vec<TimerEntry>> = Vec::new();
        let mut i: usize = 0;
        while i < slot_count
            invariant
                i <= slot_count,
                slots@.len() == i,
                forall|k: int| 0 <= k < i ==> (#[trigger] slots@[k])@.len() == 0,
            decreases slot_count - i,
        {
            slots.push(Vec::new());
            i = i + 1;
        }
        TimerWheel { slots, granularity, now_tick: 0 }
    }

    /// Adds a timeout for `port` at `deadline`, which must not lie in an
    /// already processed tick.
    pub fn schedule(&mut self, port: u16, deadline: u64)
        requires
            old(self).wf(),
            deadline / old(self).spec_granularity() >= old(self).spec_now_tick(),
        ensures
            final(self).wf(),
            final(self).spec_granularity() == old(self).spec_granularity(),
            final(self).spec_now_tick() == old(self).spec_now_tick(),
            final(self).spec_slot_count() == old(self).spec_slot_count(),
            forall|e: TimerEntry|
                final(self).spec_has(e) <==> old(self).spec_has(e) || e == (TimerEntry {
                    port,
                    deadline,
                }),
    {
        let e = TimerEntry { port, deadline };
        let k = ((deadline / self.granularity) % (self.slots.len() as u64)) as usize;
        let mut v: Vec<TimerEntry> = Vec::new();
        self.slots.set_and_swap(k, &mut v);
        let ghost v0 = v@;
        v.push(e);
        self.slots.set_and_swap(k, &mut v);
        proof {
            assert(self.slots@[k as int]@ == v0.push(e));
            assert forall|e2: TimerEntry| self.spec_has(e2) <==> old(self).spec_has(e2) || e2 == e by {
                lemma_push_contains(v0, e, e2);
                if self.spec_has(e2) {
                    let i = choose|i: int| 0 <= i < self.slots@.len() && (#[trigger] self.slots@[i])@.contains(e2);
                    if i != k {
                        assert(old(self).slots@[i] == self.slots@[i]);
                    }
                }
                if old(self).spec_has(e2) {
                    let i = choose|i: int|
                        0 <= i < old(self).slots@.len() && (#[trigger] old(self).slots@[i])@.contains(e2);
                    if i != k {
                        assert(old(self).slots@[i] == self.slots@[i]);
                    }
                }
                if e2 == e {
                    assert(self.slots@[k as int]@.contains(e2));
                }
            }
            assert forall|i: int, j: int|
                0 <= i < self.slots@.len() && 0 <= j < self.slots@[i]@.len() implies {
                let x = #[trigger] self.slots@[i]@[j];
                &&& slot_of(x.deadline, self.granularity, self.slots@.len()) == i
                &&& x.deadline / self.granularity >= self.now_tick
            } by {
                if i == k && j == v0.len() {
                    assert(self.slots@[i]@[j] == e);
                } else if i == k {
                    assert(self.slots@[i]@[j] == old(self).slots@[i]@[j]);
                }
            }
        }
    }

    /// Rewrites every slot by `split_entries`; the entries it takes out are
    /// appended to `out`.
    fn split_all(&mut self, by_deadline: bool, now: u64, port: u16, out: &mut Vec<TimerEntry>)
        requires
            old(self).wf(),
        ensures
            final(self).wf(),
            final(self).granularity == old(self).granularity,
            final(self).now_tick == old(self).now_tick,
            final(self).slots@.len() == old(self).slots@.len(),
            forall|e: TimerEntry|
                final(self).spec_has(e) <==> old(self).spec_has(e) && keeps(e, by_deadline, now, port),
            forall|e: TimerEntry|
                #[trigger] final(out)@.contains(e) <==> old(out)@.contains(e) || (old(self).spec_has(e)
                    && !keeps(e, by_deadline, now, port)),
    {
        let n = self.slots.len();
        let mut i: usize = 0;
        while i < n
            invariant
                n == self.slots@.len(),
                n == old(self).slots@.len(),
                i <= n,
                self.granularity == old(self).granularity,
                self.now_tick == old(self).now_tick,
                self.wf(),
                forall|k: int| i <= k < n ==> #[trigger] self.slots@[k] == old(self).slots@[k],
                forall|k: int, x: TimerEntry|
                    0 <= k < i ==> (#[trigger] self.slots@[k]@.contains(x) <==> old(self).slots@[k]@.contains(x)
                        && keeps(x, by_deadline, now, port)),
                forall|e: TimerEntry|
                    #[trigger] out@.contains(e) <==> old(out)@.contains(e) || (exists|k: int|
                        0 <= k < i && (#[trigger] old(self).slots@[k])@.contains(e)) && !keeps(
                        e,
                        by_deadline,
                        now,
                        port,
                    ),
            decreases n - i,
        {
            let mut v: Vec<TimerEntry> = Vec::new();
            self.slots.set_and_swap(i, &mut v);
            let ghost out0 = out@;
            let ghost mid = self.slots@;
            let mut kept = split_entries(&v, by_deadline, now, port, out);
            self.slots.set_and_swap(i, &mut kept);
            proof {
                assert(v == old(self).slots@[i as int]);
                assert forall|a: int, b: int|
                    0 <= a < self.slots@.len() && 0 <= b < self.slots@[a]@.len() implies {
                    let x = #[trigger] self.slots@[a]@[b];
                    &&& slot_of(x.deadline, self.granularity, self.slots@.len()) == a
                    &&& x.deadline / self.granularity >= self.now_tick
                } by {
                    if a == i {
                        let x = self.slots@[a]@[b];
                        assert(self.slots@[a]@.contains(x));
                        let j = choose|j: int| 0 <= j < v@.len() && v@[j] == x;
                        assert(old(self).slots@[a]@[j] == x);
                    } else {
                        assert(self.slots@[a] == mid[a]);
                    }
                }
                assert forall|e: TimerEntry| #[trigger] out@.contains(e) <==> old(out)@.contains(e) || (exists|k: int|
                    0 <= k < i + 1 && (#[trigger] old(self).slots@[k])@.contains(e)) && !keeps(
                    e,
                    by_deadline,
                    now,
                    port,
                ) by {
                    if v@.contains(e) {
                        assert(old(self).slots@[i as int]@.contains(e));
                    }
                    if exists|k: int| 0 <= k < i + 1 && (#[trigger] old(self).slots@[k])@.contains(e) {
                        let k = choose|k: int| 0 <= k < i + 1 && (#[trigger] old(self).slots@[k])@.contains(e);
                        if k == i {
                            assert(v@.contains(e));
                        } else {
                            assert(out0.contains(e) || !keeps(e, by_deadline, now, port) ==> out@.contains(e));
                        }
                    }
                }
            }
            i = i + 1;
        }
        proof {
            assert forall|e: TimerEntry|
                self.spec_has(e) <==> old(self).spec_has(e) && keeps(e, by_deadline, now, port) by {
                if self.spec_has(e) {
                    let k = choose|k: int| 0 <= k < self.slots@.len() && (#[trigger] self.slots@[k])@.contains(e);
                    assert(old(self).slots@[k]@.contains(e));
                }
                if old(self).spec_has(e) && keeps(e, by_deadline, now, port) {
                    let k = choose|k: int|
                        0 <= k < old(self).slots@.len() && (#[trigger] old(self).slots@[k])@.contains(e);
                    assert(self.slots@[k]@.contains(e));
                }
            }
            assert forall|e: TimerEntry|
                #[trigger] out@.contains(e) <==> old(out)@.contains(e) || (old(self).spec_has(e) && !keeps(
                    e,
                    by_deadline,
                    now,
                    port,
                )) by {
                if old(self).spec_has(e) {
                    let k = choose|k: int|
                        0 <= k < old(self).slots@.len() && (#[trigger] old(self).slots@[k])@.contains(e);
                }
            }
        }
    }

    /// Removes every timeout of `port`.
    pub fn cancel(&mut self, port: u16)
        requires
            old(self).wf(),
        ensures
            final(self).wf(),
            final(self).spec_granularity() == old(self).spec_granularity(),
            final(self).spec_now_tick() == old(self).spec_now_tick(),
            final(self).spec_slot_count() == old(self).spec_slot_count(),
            forall|e: TimerEntry| final(self).spec_has(e) <==> old(self).spec_has(e) && e.port != port,
    {
        let mut dropped: Vec<TimerEntry> = Vec::new();
        self.split_all(false, 0, port, &mut dropped);
    }

    /// Moves the wheel to time `now` and returns the timeouts due by then;
    /// only the slots of the ticks passed since the last call are visited.
    pub fn advance(&mut self, now: u64) -> (expired: Vec<TimerEntry>)
        requires
            old(self).wf(),
            now / old(self).spec_granularity() >= old(self).spec_now_tick(),
        ensures
            final(self).wf(),
            final(self).spec_granularity() == old(self).spec_granularity(),
            final(self).spec_slot_count() == old(self).spec_slot_count(),
            final(self).spec_now_tick() == now / old(self).spec_granularity(),
            forall|e: TimerEntry| final(self).spec_has(e) <==> old(self).spec_has(e) && e.deadline > now,
            forall|e: TimerEntry| expired@.contains(e) <==> old(self).spec_has(e) && e.deadline <= now,
    {
        let n: u64 = self.slots.len() as u64;
        let nt = self.now_tick;
        let target = now / self.granularity;
        let span = target - nt;
        let steps: u64 = if span >= n {
            n
        } else {
            span + 1
        };
        let mut out: Vec<TimerEntry> = Vec::new();
        let mut t: u64 = 0;
        while t < steps
            invariant
                n == self.slots@.len(),
                n == old(self).slots@.len(),
                n > 0,
                nt == old(self).now_tick,
                nt <= target,
                target == now / old(self).granularity,
                steps as int == if target - nt >= n { n as int } else { target - nt + 1 },
                t <= steps,
                self.granularity == old(self).granularity,
                self.now_tick == old(self).now_tick,
                self.wf(),
                forall|i: int, x: TimerEntry|
                    0 <= i < n ==> (#[trigger] self.slots@[i]@.contains(x) <==> old(self).slots@[i]@.contains(x)
                        && (x.deadline > now || !(exists|k: int| 0 <= k < t && #[trigger] ((nt + k) % (n as int)) == i))),
                forall|e: TimerEntry|
                    #[trigger] out@.contains(e) <==> (exists|k: int|
                        0 <= k < t && old(self).slots@[#[trigger] ((nt + k) % (n as int))]@.contains(e)) && e.deadline
                        <= now,
            decreases steps - t,
        {
            let r: u64 = (nt + t) % n;
            assert(r < self.slots@.len());
            let i = r as usize;
            let mut v: Vec<TimerEntry> = Vec::new();
            self.slots.set_and_swap(i, &mut v);
            let ghost out0 = out@;
            let ghost mid = self.slots@;
            let ghost before = old(self).slots@[i as int]@;
            let mut kept = split_entries(&v, true, now, 0, &mut out);
            self.slots.set_and_swap(i, &mut kept);
            proof {
                assert(i as int == (nt + t) % (n as int));
                assert forall|a: int, b: int|
                    0 <= a < self.slots@.len() && 0 <= b < self.slots@[a]@.len() implies {
                    let x = #[trigger] self.slots@[a]@[b];
                    &&& slot_of(x.deadline, self.granularity, self.slots@.len()) == a
                    &&& x.deadline / self.granularity >= self.now_tick
                } by {
                    if a == i {
                        let x = self.slots@[a]@[b];
                        assert(self.slots@[a]@.contains(x));
                        let j = choose|j: int| 0 <= j < v@.len() && v@[j] == x;
                    } else {
                        assert(self.slots@[a] == mid[a]);
                    }
                }
                assert forall|a: int, x: TimerEntry|
                    0 <= a < n implies (#[trigger] self.slots@[a]@.contains(x) <==> old(self).slots@[a]@.contains(x)
                        && (x.deadline > now || !(exists|k: int| 0 <= k < t + 1 && #[trigger] ((nt + k) % (n as int)) == a))) by {
                    if a == i {
                        if !(x.deadline > now) && self.slots@[a]@.contains(x) {
                            assert(false);
                        }
                        if old(self).slots@[a]@.contains(x) && x.deadline > now {
                            assert(v@.contains(x));
                        }
                    } else {
                        assert(self.slots@[a] == mid[a]);
                        if exists|k: int| 0 <= k < t + 1 && #[trigger] ((nt + k) % (n as int)) == a {
                            let k = choose|k: int| 0 <= k < t + 1 && #[trigger] ((nt + k) % (n as int)) == a;
                            assert(k != t);
                        }
                    }
                }
                assert forall|e: TimerEntry|
                    #[trigger] out@.contains(e) <==> (exists|k: int|
                        0 <= k < t + 1 && old(self).slots@[#[trigger] ((nt + k) % (n as int))]@.contains(e))
                        && e.deadline <= now by {
                    if exists|k: int| 0 <= k < t + 1 && old(self).slots@[#[trigger] ((nt + k) % (n as int))]@.contains(e) {
                        let k = choose|k: int| 0 <= k < t + 1 && old(self).slots@[#[trigger] ((nt + k) % (n as int))]@.contains(e);
                        if k == t && e.deadline <= now {
                            if !out0.contains(e) {
                                assert(v@.contains(e));
                            }
                        }
                    }
                    if out@.contains(e) && !out0.contains(e) {
                        assert(v@.contains(e));
                        assert(old(self).slots@[(nt + t) % (n as int)]@.contains(e));
                    }
                }
            }
            t = t + 1;
        }
        self.now_tick = target;
        proof {
            let g = self.granularity as int;
            assert forall|e: TimerEntry| old(self).spec_has(e) && e.deadline <= now implies exists|k: int|
                0 <= k < steps && #[trigger] ((nt + k) % (n as int)) == slot_of(e.deadline, self.granularity, n as nat) by {
                let i = choose|i: int| 0 <= i < n && (#[trigger] old(self).slots@[i])@.contains(e);
                let j = choose|j: int| 0 <= j < old(self).slots@[i]@.len() && old(self).slots@[i]@[j] == e;
                assert(old(self).slots@[i]@[j] == e);
                lemma_div_is_ordered(e.deadline as int, now as int, g);
                lemma_tick_walked(nt as int, target as int, n as int, steps as int, (e.deadline / self.granularity) as int);
            }
            assert forall|a: int, b: int|
                0 <= a < self.slots@.len() && 0 <= b < self.slots@[a]@.len() implies {
                let x = #[trigger] self.slots@[a]@[b];
                &&& slot_of(x.deadline, self.granularity, self.slots@.len()) == a
                &&& x.deadline / self.granularity >= self.now_tick
            } by {
                let x = self.slots@[a]@[b];
                assert(self.slots@[a]@.contains(x));
                assert(old(self).slots@[a]@.contains(x));
                let j = choose|j: int| 0 <= j < old(self).slots@[a]@.len() && old(self).slots@[a]@[j] == x;
                assert(old(self).slots@[a]@[j] == x);
                if x.deadline <= now {
                    assert(old(self).spec_has(x));
                } else {
                    lemma_div_is_ordered(now as int, x.deadline as int, g);
                }
            }
            assert forall|e: TimerEntry| self.spec_has(e) <==> old(self).spec_has(e) && e.deadline > now by {
                if self.spec_has(e) {
                    let a = choose|a: int| 0 <= a < self.slots@.len() && (#[trigger] self.slots@[a])@.contains(e);
                    assert(old(self).slots@[a]@.contains(e));
                    if e.deadline <= now {
                        assert(old(self).spec_has(e));
                    }
                }
                if old(self).spec_has(e) && e.deadline > now {
                    let a = choose|a: int| 0 <= a < n && (#[trigger] old(self).slots@[a])@.contains(e);
                    assert(self.slots@[a]@.contains(e));
                }
            }
            assert forall|e: TimerEntry| out@.contains(e) <==> old(self).spec_has(e) && e.deadline <= now by {
                if out@.contains(e) {
                    let k = choose|k: int| 0 <= k < steps && old(self).slots@[#[trigger] ((nt + k) % (n as int))]@.contains(e);
                    let a = (nt + k) % (n as int);
                    assert(old(self).slots@[a]@.contains(e));
                }
                if old(self).spec_has(e) && e.deadline <= now {
                    let i = choose|i: int| 0 <= i < n && (#[trigger] old(self).slots@[i])@.contains(e);
                    let j = choose|j: int| 0 <= j < old(self).slots@[i]@.len() && old(self).slots@[i]@[j] == e;
                    assert(old(self).slots@[i]@[j] == e);
                    let k = choose|k: int|
                        0 <= k < steps && #[trigger] ((nt + k) % (n as int)) == slot_of(e.deadline, self.granularity, n as nat);
                    assert(old(self).slots@[(nt + k) % (n as int)]@.contains(e));
                }
            }
        }
        out
    }
}

} // verus!
