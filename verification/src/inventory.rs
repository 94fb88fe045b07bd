//! The agent inventory: a named collection of gear hedgers that behaves
//! as one composite agent, broadcasting quotes and fills to its active
//! members.

use vstd::prelude::*;
use crate::account::OrderFill;
use crate::agents::{Agent, GearHedger};
use crate::fixed::{UNIT_LIMIT, MAX_EXPOSURE_LIMIT, MONEY_LIMIT};
use crate::quote::Tick;

verus! {

/// Whether some entry carries the key `k`.
pub open spec fn has_key(s: Seq<(String, GearHedger)>, k: Seq<char>) -> bool {
    exists|j: int| 0 <= j < s.len() && (#[trigger] s[j]).0@ == k
}

/// The agent stored under key `k`.
pub open spec fn val_at(s: Seq<(String, GearHedger)>, k: Seq<char>) -> GearHedger {
    s[choose|j: int| 0 <= j < s.len() && (#[trigger] s[j]).0@ == k].1
}

/// The collection as a map from name to agent.
pub open spec fn as_map(s: Seq<(String, GearHedger)>) -> Map<Seq<char>, GearHedger> {
    Map::new(|k: Seq<char>| has_key(s, k), |k: Seq<char>| val_at(s, k))
}

/// No two entries share a name.
pub open spec fn keys_unique(s: Seq<(String, GearHedger)>) -> bool {
    forall|i: int, j: int| 0 <= i < j < s.len() ==> (#[trigger] s[i]).0@ != (#[trigger] s[j]).0@
}

/// A member's exposure, staged or booked, stays within a thousand times
/// its cap — what the widest gear can ask for.
pub open spec fn cap_ok(h: GearHedger) -> bool {
    &&& -1000 * h.max_exposure <= h.pl.exposure <= 1000 * h.max_exposure
    &&& -1000 * h.max_exposure <= h.tentative_exposure <= 1000 * h.max_exposure
}

/// Every member is well-formed and within its exposure cap.
pub open spec fn members_ok(s: Seq<(String, GearHedger)>) -> bool {
    forall|i: int| 0 <= i < s.len()
        ==> (#[trigger] s[i]).1.wf() && cap_ok(s[i].1)
}

/// The exposure caps of the members, in order.
pub open spec fn max_seq(s: Seq<(String, GearHedger)>) -> Seq<i64> {
    Seq::new(s.len(), |i: int| s[i].1.max_exposure)
}

/// The sum of a thousand times each cap: a bound on every exposure sum
/// the inventory can report.
pub open spec fn sum_cap_of(m: Seq<i64>) -> int
    decreases m.len(),
{
    if m.len() == 0 {
        0
    } else {
        1000 * m[0] + sum_cap_of(m.drop_first())
    }
}

/// The summed exposure of the active members.
pub open spec fn sum_exposure_active(s: Seq<(String, GearHedger)>) -> int
    decreases s.len(),
{
    if s.len() == 0 {
        0
    } else {
        (if s[0].1.active {
            s[0].1.pl.exposure as int
        } else {
            0
        }) + sum_exposure_active(s.drop_first())
    }
}

/// The summed `next_exposure` returns of the active members.
pub open spec fn sum_next_ret(s: Seq<(String, GearHedger)>, t: Tick) -> int
    decreases s.len(),
{
    if s.len() == 0 {
        0
    } else {
        (if s[0].1.active {
            s[0].1.next_exposure_ret(t)
        } else {
            0
        }) + sum_next_ret(s.drop_first(), t)
    }
}

/// The members after a quote is broadcast to the active ones.
pub open spec fn members_after_tick(s: Seq<(String, GearHedger)>, t: Tick)
    -> Seq<(String, GearHedger)> {
    s.map(|i: int, p: (String, GearHedger)|
        if p.1.active {
            (p.0, p.1.after_next_exposure(t))
        } else {
            p
        })
}

/// The members after a fill is broadcast to the active ones.
pub open spec fn members_after_fill(s: Seq<(String, GearHedger)>, f: OrderFill)
    -> Seq<(String, GearHedger)> {
    s.map(|i: int, p: (String, GearHedger)|
        if p.1.active {
            (p.0, p.1.after_update_on_fill(f))
        } else {
            p
        })
}

/// The members after every one is told to stage a flat position.
pub open spec fn members_after_close(s: Seq<(String, GearHedger)>, t: Tick)
    -> Seq<(String, GearHedger)> {
    s.map(|i: int, p: (String, GearHedger)|
        (p.0, GearHedger { tentative_price: p.1.close_price(t), tentative_exposure: 0, ..p.1 }))
}

/// The members after every one is deactivated.
pub open spec fn members_deactivated(s: Seq<(String, GearHedger)>)
    -> Seq<(String, GearHedger)> {
    s.map(|i: int, p: (String, GearHedger)| (p.0, GearHedger { active: false, ..p.1 }))
}

/// Every active member can book the fill.
pub open spec fn members_fill_ok(s: Seq<(String, GearHedger)>, f: OrderFill) -> bool {
    forall|i: int| 0 <= i < s.len() && (#[trigger] s[i]).1.active
        ==> s[i].1.fill_ok_for(&f)
}

/// Appending a cap adds its contribution to the sum.
proof fn lemma_sum_cap_push(m: Seq<i64>, x: i64)
    ensures
        sum_cap_of(m.push(x)) == sum_cap_of(m) + 1000 * x,
    decreases m.len(),
{
    if m.len() == 0 {
        assert(m.push(x)[0] == x);
        assert(m.push(x).drop_first() =~= Seq::<i64>::empty());
        assert(sum_cap_of(Seq::<i64>::empty()) == 0);
        assert(sum_cap_of(m.push(x)) == 1000 * x + sum_cap_of(m.push(x).drop_first()));
    } else {
        assert(m.push(x)[0] == m[0]);
        assert(m.push(x).drop_first() =~= m.drop_first().push(x));
        lemma_sum_cap_push(m.drop_first(), x);
    }
}

/// Removing a cap takes its contribution out of the sum.
proof fn lemma_sum_cap_remove(m: Seq<i64>, j: int)
    requires
        0 <= j < m.len(),
    ensures
        sum_cap_of(m.remove(j)) == sum_cap_of(m) - 1000 * m[j],
    decreases m.len(),
{
    if j == 0 {
        assert(m.remove(0) =~= m.drop_first());
    } else {
        assert(m.remove(j).drop_first() =~= m.drop_first().remove(j - 1));
        lemma_sum_cap_remove(m.drop_first(), j - 1);
    }
}

/// Replacing a cap adjusts the sum by the difference.
proof fn lemma_sum_cap_update(m: Seq<i64>, j: int, x: i64)
    requires
        0 <= j < m.len(),
    ensures
        sum_cap_of(m.update(j, x)) == sum_cap_of(m) - 1000 * m[j] + 1000 * x,
    decreases m.len(),
{
    if j == 0 {
        assert(m.update(0, x).drop_first() =~= m.drop_first());
    } else {
        assert(m.update(j, x).drop_first() =~= m.drop_first().update(j - 1, x));
        lemma_sum_cap_update(m.drop_first(), j - 1, x);
    }
}

/// The summed caps split at any cut.
proof fn lemma_sum_cap_split(m: Seq<i64>, i: int)
    requires
        0 <= i <= m.len(),
    ensures
        sum_cap_of(m) == sum_cap_of(m.take(i)) + sum_cap_of(m.skip(i)),
    decreases i,
{
    if i == 0 {
        assert(m.take(0) =~= Seq::<i64>::empty());
        assert(m.skip(0) =~= m);
    } else {
        assert(m.take(i).drop_first() =~= m.drop_first().take(i - 1));
        assert(m.skip(i) =~= m.drop_first().skip(i - 1));
        assert(m.take(i)[0] == m[0]);
        lemma_sum_cap_split(m.drop_first(), i - 1);
    }
}

/// With nonnegative caps the sum is nonnegative.
proof fn lemma_sum_cap_nonneg(m: Seq<i64>)
    requires
        forall|j: int| 0 <= j < m.len() ==> 0 <= #[trigger] m[j],
    ensures
        0 <= sum_cap_of(m),
    decreases m.len(),
{
    if m.len() > 0 {
        assert(forall|j: int| 0 <= j < m.drop_first().len()
            ==> #[trigger] m.drop_first()[j] == m[j + 1]);
        lemma_sum_cap_nonneg(m.drop_first());
    }
}

/// Under well-formed members every exposure sum and every staged sum
/// stays within the summed caps, which are themselves nonnegative.
proof fn lemma_sums_bounded(s: Seq<(String, GearHedger)>)
    requires
        members_ok(s),
    ensures
        0 <= sum_cap_of(max_seq(s)),
        -sum_cap_of(max_seq(s)) <= sum_exposure_active(s) <= sum_cap_of(max_seq(s)),
    decreases s.len(),
{
    if s.len() > 0 {
        assert(max_seq(s).drop_first() =~= max_seq(s.drop_first()));
        assert(s.drop_first().len() == s.len() - 1);
        assert(forall|i: int| 0 <= i < s.drop_first().len()
            ==> #[trigger] s.drop_first()[i] == s[i + 1]);
        lemma_sums_bounded(s.drop_first());
        assert(s[0].1.wf() && cap_ok(s[0].1));
    }
}

/// The summed quote replies of the active members stay within the summed
/// caps as well.
proof fn lemma_rets_bounded(s: Seq<(String, GearHedger)>, t: Tick)
    requires
        members_ok(s),
    ensures
        -sum_cap_of(max_seq(s)) <= sum_next_ret(s, t) <= sum_cap_of(max_seq(s)),
    decreases s.len(),
{
    if s.len() > 0 {
        assert(max_seq(s).drop_first() =~= max_seq(s.drop_first()));
        assert(forall|i: int| 0 <= i < s.drop_first().len()
            ==> #[trigger] s.drop_first()[i] == s[i + 1]);
        lemma_rets_bounded(s.drop_first(), t);
        let h = s[0].1;
        assert(h.wf() && cap_ok(h));
        if h.active {
            lemma_next_ret_cap(h, t);
        }
        lemma_sums_bounded(s.drop_first());
    }
}

/// One agent's quote reply stays within a thousand times its cap.
proof fn lemma_next_ret_cap(h: GearHedger, t: Tick)
    requires
        h.wf(),
        cap_ok(h),
    ensures
        -1000 * h.max_exposure <= h.next_exposure_ret(t) <= 1000 * h.max_exposure,
{
    h.lemma_tentative_cap(t.bid as int);
    h.lemma_tentative_cap(t.ask as int);
    assert((crate::fixed::GEAR_LIMIT as int) / (crate::fixed::SCALE as int) == 1000);
}

/// A named collection of agents with an aggregate profit figure; itself
/// a composite agent.
#[derive(Debug)]
pub struct AgentInventory {
    /// The members, keyed by unique names.
    pub agents: Vec<(String, GearHedger)>,
    /// Aggregate profit carried with the inventory.
    pub pl: i128,
}

impl AgentInventory {
    /// A usable inventory: unique names, well-formed members, and summed
    /// caps small enough that every exposure sum fits.
    pub open spec fn wf(self) -> bool {
        &&& keys_unique(self.agents@)
        &&& members_ok(self.agents@)
        &&& sum_cap_of(max_seq(self.agents@)) <= UNIT_LIMIT
    }

    /// An empty inventory.
    pub fn new() -> (r: AgentInventory)
        ensures
            r.agents@.len() == 0,
            r.pl == 0,
            r.wf(),
    {
        AgentInventory { agents: Vec::new(), pl: 0 }
    }

    /// The number of members.
    pub fn len(&self) -> (r: usize)
        ensures
            r == self.agents@.len(),
    {
        self.agents.len()
    }

    /// The member stored under `name`, if any.
    pub fn get(&self, name: &String) -> (r: Option<&GearHedger>)
        requires
            self.wf(),
        ensures
            r is Some <==> has_key(self.agents@, name@),
            r matches Some(v) ==> *v == val_at(self.agents@, name@),
    {
        let n: usize = self.agents.len();
        let mut i: usize = 0;
        while i < n
            invariant
                i <= n,
                n == self.agents@.len(),
                self.wf(),
                forall|j: int| 0 <= j < i ==> (#[trigger] self.agents@[j]).0@ != name@,
            decreases n - i,
        {
            if self.agents[i].0 == *name {
                return Some(&self.agents[i].1);
            }
            i = i + 1;
        }
        None
    }

    /// Insert an agent under `name`, replacing any member of that name.
    pub fn insert(&mut self, name: String, agent: GearHedger)
        requires
            old(self).wf(),
            agent.wf(),
            cap_ok(agent),
            sum_cap_of(max_seq(old(self).agents@)) + 1000 * agent.max_exposure
                <= UNIT_LIMIT,
        ensures
            final(self).wf(),
            final(self).pl == old(self).pl,
            as_map(final(self).agents@) == as_map(old(self).agents@).insert(name@, agent),
            has_key(final(self).agents@, name@),
            val_at(final(self).agents@, name@) == agent,
            sum_cap_of(max_seq(final(self).agents@))
                <= sum_cap_of(max_seq(old(self).agents@)) + 1000 * agent.max_exposure,
    {
        let ghost orig = self.agents@;
        let n: usize = self.agents.len();
        let mut i: usize = 0;
        while i < n
            invariant
                i <= n,
                n == self.agents@.len(),
                self.agents@ == orig,
                orig == old(self).agents@,
                old(self).wf(),
                self.pl == old(self).pl,
                sum_cap_of(max_seq(orig)) + 1000 * agent.max_exposure <= UNIT_LIMIT,
                agent.wf(),
                cap_ok(agent),
                forall|j: int| 0 <= j < i ==> (#[trigger] self.agents@[j]).0@ != name@,
            decreases n - i,
        {
            if self.agents[i].0 == name {
                self.agents[i].1 = agent;
                proof {
                    assert(self.agents@ == orig.update(i as int, (orig[i as int].0, agent)));
                    assert(max_seq(self.agents@)
                        =~= max_seq(orig).update(i as int, agent.max_exposure));
                    lemma_sum_cap_update(max_seq(orig), i as int, agent.max_exposure);
                    assert(orig[i as int].1.wf());
                    assert forall|k: Seq<char>|
                        as_map(self.agents@).contains_key(k)
                            == as_map(orig).insert(name@, agent).contains_key(k) by {
                        if has_key(self.agents@, k) {
                            let j = choose|j: int| 0 <= j < self.agents@.len()
                                && (#[trigger] self.agents@[j]).0@ == k;
                            if j != i {
                                assert(orig[j].0@ == k);
                            }
                        }
                        if k == name@ {
                            assert(self.agents@[i as int].0@ == k);
                        } else if has_key(orig, k) {
                            let j = choose|j: int| 0 <= j < orig.len()
                                && (#[trigger] orig[j]).0@ == k;
                            assert(j != i);
                            assert(self.agents@[j].0@ == k);
                        }
                    }
                    assert forall|k: Seq<char>| as_map(self.agents@).contains_key(k)
                        implies as_map(self.agents@)[k]
                            == as_map(orig).insert(name@, agent)[k] by {
                        if k == name@ {
                            let j = choose|j: int| 0 <= j < self.agents@.len()
                                && (#[trigger] self.agents@[j]).0@ == k;
                            assert(j == i);
                        } else {
                            let j = choose|j: int| 0 <= j < self.agents@.len()
                                && (#[trigger] self.agents@[j]).0@ == k;
                            assert(orig[j].0@ == k);
                        }
                    }
                    assert(as_map(self.agents@) =~= as_map(orig).insert(name@, agent));
                }
                return;
            }
            i = i + 1;
        }
        self.agents.push((name, agent));
        proof {
            assert(max_seq(self.agents@) =~= max_seq(orig).push(agent.max_exposure));
            lemma_sum_cap_push(max_seq(orig), agent.max_exposure);
            assert(self.agents@[orig.len() as int].0@ == name@);
            assert forall|k: Seq<char>|
                as_map(self.agents@).contains_key(k)
                    == as_map(orig).insert(name@, agent).contains_key(k) by {
                if has_key(self.agents@, k) {
                    let j = choose|j: int| 0 <= j < self.agents@.len()
                        && (#[trigger] self.agents@[j]).0@ == k;
                    if j < orig.len() {
                        assert(orig[j].0@ == k);
                    }
                }
                if has_key(orig, k) {
                    let j = choose|j: int| 0 <= j < orig.len()
                        && (#[trigger] orig[j]).0@ == k;
                    assert(self.agents@[j].0@ == k);
                }
            }
            assert forall|k: Seq<char>| as_map(self.agents@).contains_key(k)
                implies as_map(self.agents@)[k]
                    == as_map(orig).insert(name@, agent)[k] by {
                let j = choose|j: int| 0 <= j < self.agents@.len()
                    && (#[trigger] self.agents@[j]).0@ == k;
                if k == name@ {
                    assert(j == orig.len());
                } else {
                    assert(j < orig.len());
                    assert(orig[j].0@ == k);
                }
            }
            assert(as_map(self.agents@) =~= as_map(orig).insert(name@, agent));
        }
    }

    /// Remove and return the member stored under `name`, if any.
    pub fn remove(&mut self, name: &String) -> (r: Option<GearHedger>)
        requires
            old(self).wf(),
        ensures
            final(self).wf(),
            final(self).pl == old(self).pl,
            r is Some <==> has_key(old(self).agents@, name@),
            r matches Some(v) ==> v == val_at(old(self).agents@, name@),
            as_map(final(self).agents@) == as_map(old(self).agents@).remove(name@),
            sum_cap_of(max_seq(final(self).agents@))
                <= sum_cap_of(max_seq(old(self).agents@)),
            r is Some ==> sum_cap_of(max_seq(final(self).agents@))
                == sum_cap_of(max_seq(old(self).agents@))
                    - 1000 * val_at(old(self).agents@, name@).max_exposure,
    {
        let ghost orig = self.agents@;
        let n: usize = self.agents.len();
        let mut i: usize = 0;
        while i < n
            invariant
                i <= n,
                n == self.agents@.len(),
                self.agents@ == orig,
                orig == old(self).agents@,
                old(self).wf(),
                self.pl == old(self).pl,
                self.wf(),
                forall|j: int| 0 <= j < i ==> (#[trigger] self.agents@[j]).0@ != name@,
            decreases n - i,
        {
            if self.agents[i].0 == *name {
                let pair = self.agents.remove(i);
                proof {
                    assert(orig[i as int].0@ == name@);
                    assert(has_key(orig, name@));
                    let j0 = choose|j0: int| 0 <= j0 < orig.len()
                        && (#[trigger] orig[j0]).0@ == name@;
                    assert(j0 == i);
                    assert(max_seq(self.agents@) =~= max_seq(orig).remove(i as int));
                    lemma_sum_cap_remove(max_seq(orig), i as int);
                    assert(1000 * orig[i as int].1.max_exposure >= 0);
                    assert forall|k: Seq<char>|
                        as_map(self.agents@).contains_key(k)
                            == as_map(orig).remove(name@).contains_key(k) by {
                        if has_key(self.agents@, k) {
                            let j = choose|j: int| 0 <= j < self.agents@.len()
                                && (#[trigger] self.agents@[j]).0@ == k;
                            if j < i {
                                assert(orig[j].0@ == k);
                            } else {
                                assert(orig[j + 1].0@ == k);
                            }
                        }
                        if has_key(orig, k) && k != name@ {
                            let j = choose|j: int| 0 <= j < orig.len()
                                && (#[trigger] orig[j]).0@ == k;
                            if j < i {
                                assert(self.agents@[j].0@ == k);
                            } else {
                                assert(j != i);
                                assert(self.agents@[j - 1].0@ == k);
                            }
                        }
                    }
                    assert forall|k: Seq<char>| as_map(self.agents@).contains_key(k)
                        implies as_map(self.agents@)[k]
                            == as_map(orig).remove(name@)[k] by {
                        let j = choose|j: int| 0 <= j < self.agents@.len()
                            && (#[trigger] self.agents@[j]).0@ == k;
                        let j0 = choose|j0: int| 0 <= j0 < orig.len()
                            && (#[trigger] orig[j0]).0@ == k;
                        if j < i {
                            assert(orig[j].0@ == k);
                            assert(j0 == j);
                        } else {
                            assert(orig[j + 1].0@ == k);
                            assert(j0 == j + 1);
                        }
                    }
                    assert(as_map(self.agents@) =~= as_map(orig).remove(name@));
                    assert(val_at(orig, name@) == orig[i as int].1);
                }
                return Some(pair.1);
            }
            i = i + 1;
        }
        proof {
            assert(!has_key(orig, name@));
            assert(as_map(self.agents@) =~= as_map(orig).remove(name@));
        }
        None
    }

    /// The summed exposure caps of the members, scaled as the exposure
    /// bound uses them.
    fn cap_total(&self) -> (r: i128)
        requires
            self.wf(),
        ensures
            r == sum_cap_of(max_seq(self.agents@)),
    {
        let n: usize = self.agents.len();
        let mut acc: i128 = 0;
        let mut i: usize = 0;
        proof {
            assert(max_seq(self.agents@).skip(0) =~= max_seq(self.agents@));
        }
        while i < n
            invariant
                i <= n,
                n == self.agents@.len(),
                self.wf(),
                sum_cap_of(max_seq(self.agents@))
                    == acc + sum_cap_of(max_seq(self.agents@).skip(i as int)),
                0 <= acc <= (i as int) * 1000 * (MAX_EXPOSURE_LIMIT as int),
            decreases n - i,
        {
            proof {
                let m = max_seq(self.agents@);
                assert(m.skip(i as int)[0] == m[i as int]);
                assert(m.skip(i as int).drop_first() =~= m.skip(i as int + 1));
                assert(self.agents@[i as int].1.wf());
                assert((i as int) * 1000 * (MAX_EXPOSURE_LIMIT as int)
                    <= (n as int) * 1000 * (MAX_EXPOSURE_LIMIT as int)
                    && (i as int + 1) * 1000 * (MAX_EXPOSURE_LIMIT as int)
                        == (i as int) * 1000 * (MAX_EXPOSURE_LIMIT as int)
                        + 1000 * (MAX_EXPOSURE_LIMIT as int)) by (nonlinear_arith)
                    requires 0 <= i < n;
            }
            acc = acc + 1000 * (self.agents[i].1.max_exposure as i128);
            i = i + 1;
        }
        proof {
            assert(max_seq(self.agents@).skip(n as int) =~= Seq::<i64>::empty());
        }
        acc
    }
}


impl Agent for AgentInventory {
    open spec fn inv(&self) -> bool {
        self.wf()
    }

    open spec fn fill_ok_for(&self, order_fill: &OrderFill) -> bool {
        members_fill_ok(self.agents@, *order_fill)
    }

    open spec fn prime_ok_for(&self, order_fill: &OrderFill) -> bool {
        &&& 0 <= order_fill.price <= crate::fixed::PRICE_LIMIT
        &&& members_fill_ok(
            members_after_tick(
                self.agents@,
                Tick { time: 0, bid: order_fill.price, ask: order_fill.price },
            ),
            *order_fill,
        )
    }

    /// Tell every member to stage a flat position at the quote.
    fn close(&mut self, tick: &Tick) -> (r: i64)
        ensures
            final(self).agents@ == members_after_close(old(self).agents@, *tick),
            final(self).pl == old(self).pl,
            final(self).wf(),
            r == 0,
    {
        let ghost orig = self.agents@;
        let ghost goal = members_after_close(orig, *tick);
        let n: usize = self.agents.len();
        let mut i: usize = 0;
        while i < n
            invariant
                i <= n,
                n == self.agents@.len(),
                orig == old(self).agents@,
                old(self).wf(),
                tick.wf(),
                self.pl == old(self).pl,
                goal == members_after_close(orig, *tick),
                goal.len() == n,
                forall|j: int| 0 <= j < i ==> self.agents@[j] == #[trigger] goal[j],
                forall|j: int| i <= j < n ==> self.agents@[j] == #[trigger] orig[j],
            decreases n - i,
        {
            proof {
                assert(self.agents@[i as int] == orig[i as int]);
                assert(orig[i as int].1.wf() && cap_ok(orig[i as int].1));
            }
            self.agents[i].1.close(tick);
            proof {
                assert(self.agents@[i as int] == goal[i as int]);
            }
            i = i + 1;
        }
        proof {
            assert(self.agents@ =~= goal);
            assert(max_seq(self.agents@) =~= max_seq(orig));
            assert forall|j: int| 0 <= j < self.agents@.len()
                implies (#[trigger] self.agents@[j]).1.wf() && cap_ok(self.agents@[j].1) by {
                assert(orig[j].1.wf() && cap_ok(orig[j].1));
            }
        }
        0
    }

    /// The inventory never reports itself inactive.
    fn is_active(&self) -> (r: bool)
        ensures
            r == true,
    {
        true
    }

    /// Deactivate every member.
    fn deactivate(&mut self)
        ensures
            final(self).agents@ == members_deactivated(old(self).agents@),
            final(self).pl == old(self).pl,
            final(self).wf(),
    {
        let ghost orig = self.agents@;
        let ghost goal = members_deactivated(orig);
        let n: usize = self.agents.len();
        let mut i: usize = 0;
        while i < n
            invariant
                i <= n,
                n == self.agents@.len(),
                orig == old(self).agents@,
                old(self).wf(),
                self.pl == old(self).pl,
                goal == members_deactivated(orig),
                goal.len() == n,
                forall|j: int| 0 <= j < i ==> self.agents@[j] == #[trigger] goal[j],
                forall|j: int| i <= j < n ==> self.agents@[j] == #[trigger] orig[j],
            decreases n - i,
        {
            proof {
                assert(self.agents@[i as int] == orig[i as int]);
                assert(orig[i as int].1.wf() && cap_ok(orig[i as int].1));
            }
            self.agents[i].1.deactivate();
            proof {
                assert(self.agents@[i as int] == goal[i as int]);
            }
            i = i + 1;
        }
        proof {
            assert(self.agents@ =~= goal);
            assert(max_seq(self.agents@) =~= max_seq(orig));
            assert forall|j: int| 0 <= j < self.agents@.len()
                implies (#[trigger] self.agents@[j]).1.wf() && cap_ok(self.agents@[j].1) by {
                assert(orig[j].1.wf() && cap_ok(orig[j].1));
            }
        }
    }

    /// The inventory never closes itself.
    fn to_be_closed(&self) -> (r: bool)
        ensures
            r == false,
    {
        false
    }

    /// Nothing happens at the inventory level; members act for themselves.
    fn target_action(&mut self) -> (r: i64)
        ensures
            *final(self) == *old(self),
            r == 0,
    {
        0
    }

    /// Nothing happens at the inventory level; members act for themselves.
    fn target_exposure(&mut self, tick: &Tick) -> (r: i64)
        ensures
            *final(self) == *old(self),
            r == 0,
    {
        0
    }

    /// Broadcast the quote to every active member and sum what they want
    /// to hold.
    fn next_exposure(&mut self, tick: &Tick) -> (r: i64)
        ensures
            final(self).agents@ == members_after_tick(old(self).agents@, *tick),
            final(self).pl == old(self).pl,
            final(self).wf(),
            r == sum_next_ret(old(self).agents@, *tick),
    {
        let ghost orig = self.agents@;
        let ghost goal = members_after_tick(orig, *tick);
        let n: usize = self.agents.len();
        let mut acc: i128 = 0;
        let mut i: usize = 0;
        proof {
            assert(orig.skip(0) =~= orig);
            lemma_rets_bounded(orig, *tick);
        }
        while i < n
            invariant
                i <= n,
                n == self.agents@.len(),
                orig == old(self).agents@,
                old(self).wf(),
                tick.wf(),
                self.pl == old(self).pl,
                goal == members_after_tick(orig, *tick),
                goal.len() == n,
                forall|j: int| 0 <= j < i ==> self.agents@[j] == #[trigger] goal[j],
                forall|j: int| i <= j < n ==> self.agents@[j] == #[trigger] orig[j],
                forall|j: int| 0 <= j < i
                    ==> (#[trigger] self.agents@[j]).1.wf() && cap_ok(self.agents@[j].1),
                sum_next_ret(orig, *tick) == acc + sum_next_ret(orig.skip(i as int), *tick),
                -3 * (UNIT_LIMIT as int) <= acc <= 3 * (UNIT_LIMIT as int),
            decreases n - i,
        {
            proof {
                assert(orig.skip(i as int)[0] == orig[i as int]);
                assert(orig.skip(i as int).drop_first() =~= orig.skip(i as int + 1));
                assert forall|j: int| 0 <= j < orig.skip(i as int).len()
                    implies (#[trigger] orig.skip(i as int)[j]).1.wf()
                        && cap_ok(orig.skip(i as int)[j].1) by {
                    assert(orig[i + j].1.wf() && cap_ok(orig[i + j].1));
                }
                lemma_rets_bounded(orig, *tick);
                lemma_rets_bounded(orig.skip(i as int), *tick);
                assert forall|j: int| 0 <= j < orig.skip(i as int + 1).len()
                    implies (#[trigger] orig.skip(i as int + 1)[j]).1.wf()
                        && cap_ok(orig.skip(i as int + 1)[j].1) by {
                    assert(orig[i + 1 + j].1.wf() && cap_ok(orig[i + 1 + j].1));
                }
                lemma_rets_bounded(orig.skip(i as int + 1), *tick);
                lemma_sum_cap_split(max_seq(orig), i as int);
                lemma_sum_cap_split(max_seq(orig), i as int + 1);
                lemma_sum_cap_nonneg(max_seq(orig).take(i as int));
                lemma_sum_cap_nonneg(max_seq(orig).take(i as int + 1));
                assert(max_seq(orig).skip(i as int) =~= max_seq(orig.skip(i as int)));
                assert(max_seq(orig).skip(i as int + 1) =~= max_seq(orig.skip(i as int + 1)));
                assert forall|j: int| 0 <= j < max_seq(orig).take(i as int).len()
                    implies 0 <= #[trigger] max_seq(orig).take(i as int)[j] by {
                    assert(orig[j].1.wf());
                }
                assert forall|j: int| 0 <= j < max_seq(orig).take(i as int + 1).len()
                    implies 0 <= #[trigger] max_seq(orig).take(i as int + 1)[j] by {
                    assert(orig[j].1.wf());
                }
            }
            proof {
                assert(self.agents@[i as int] == orig[i as int]);
                assert(orig[i as int].1.wf() && cap_ok(orig[i as int].1));
            }
            if self.agents[i].1.is_active() {
                let e: i64 = self.agents[i].1.next_exposure(tick);
                proof {
                    let m = orig[i as int].1;
                    m.lemma_tentative_cap(tick.bid as int);
                    m.lemma_tentative_cap(tick.ask as int);
                    assert((crate::fixed::GEAR_LIMIT as int)
                        / (crate::fixed::SCALE as int) == 1000);
                    assert(self.agents@[i as int] == goal[i as int]);
                    assert(self.agents@[i as int].1.wf()
                        && cap_ok(self.agents@[i as int].1));
                }
                acc = acc + (e as i128);
            } else {
                proof {
                    assert(self.agents@[i as int] == goal[i as int]);
                }
            }
            i = i + 1;
        }
        proof {
            assert(orig.skip(n as int) =~= Seq::<(String, GearHedger)>::empty());
            assert(self.agents@ =~= goal);
            assert(max_seq(self.agents@) =~= max_seq(orig));
            lemma_rets_bounded(orig, *tick);
        }
        acc as i64
    }

    /// Broadcast the fill to every active member; each books its own
    /// staged trade against it.
    fn update_on_fill(&mut self, order_fill: &OrderFill)
        ensures
            final(self).agents@ == members_after_fill(old(self).agents@, *order_fill),
            final(self).pl == old(self).pl,
            final(self).wf(),
    {
        let ghost orig = self.agents@;
        let ghost goal = members_after_fill(orig, *order_fill);
        let n: usize = self.agents.len();
        let mut i: usize = 0;
        while i < n
            invariant
                i <= n,
                n == self.agents@.len(),
                orig == old(self).agents@,
                old(self).wf(),
                members_fill_ok(orig, *order_fill),
                self.pl == old(self).pl,
                goal == members_after_fill(orig, *order_fill),
                goal.len() == n,
                forall|j: int| 0 <= j < i ==> self.agents@[j] == #[trigger] goal[j],
                forall|j: int| i <= j < n ==> self.agents@[j] == #[trigger] orig[j],
                forall|j: int| 0 <= j < i
                    ==> (#[trigger] self.agents@[j]).1.wf() && cap_ok(self.agents@[j].1),
            decreases n - i,
        {
            proof {
                assert(self.agents@[i as int] == orig[i as int]);
                assert(orig[i as int].1.wf() && cap_ok(orig[i as int].1));
            }
            if self.agents[i].1.is_active() {
                proof {
                    assert(orig[i as int].1.fill_ok_for(order_fill));
                }
                self.agents[i].1.update_on_fill(order_fill);
                proof {
                    assert(self.agents@[i as int] == goal[i as int]);
                    assert(self.agents@[i as int].1.wf()
                        && cap_ok(self.agents@[i as int].1));
                }
            } else {
                proof {
                    assert(self.agents@[i as int] == goal[i as int]);
                }
            }
            i = i + 1;
        }
        proof {
            assert(self.agents@ =~= goal);
            assert(max_seq(self.agents@) =~= max_seq(orig));
        }
    }

    /// Rearm every member on a synthetic quote at the fill price, then
    /// broadcast the fill.
    fn next_exposure_and_fill(&mut self, order_fill: &OrderFill)
        ensures
            final(self).agents@ == members_after_fill(
                members_after_tick(
                    old(self).agents@,
                    Tick { time: 0, bid: order_fill.price, ask: order_fill.price },
                ),
                *order_fill,
            ),
            final(self).pl == old(self).pl,
            final(self).wf(),
    {
        let synthetic = Tick { time: 0, bid: order_fill.price, ask: order_fill.price };
        self.next_exposure(&synthetic);
        self.update_on_fill(order_fill);
    }

    /// The summed exposure of the active members.
    fn exposure(&self) -> (r: i64)
        ensures
            r == sum_exposure_active(self.agents@),
    {
        let ghost s = self.agents@;
        let n: usize = self.agents.len();
        let mut acc: i128 = 0;
        let mut i: usize = 0;
        proof {
            assert(s.skip(0) =~= s);
            lemma_sums_bounded(s);
        }
        while i < n
            invariant
                i <= n,
                n == s.len(),
                s == self.agents@,
                self.wf(),
                sum_exposure_active(s) == acc + sum_exposure_active(s.skip(i as int)),
                -3 * (UNIT_LIMIT as int) <= acc <= 3 * (UNIT_LIMIT as int),
            decreases n - i,
        {
            proof {
                assert(s.skip(i as int)[0] == s[i as int]);
                assert(s.skip(i as int).drop_first() =~= s.skip(i as int + 1));
                assert forall|j: int| 0 <= j < s.skip(i as int).len()
                    implies (#[trigger] s.skip(i as int)[j]).1.wf()
                        && cap_ok(s.skip(i as int)[j].1) by {
                    assert(s[i + j].1.wf() && cap_ok(s[i + j].1));
                }
                assert forall|j: int| 0 <= j < s.skip(i as int + 1).len()
                    implies (#[trigger] s.skip(i as int + 1)[j]).1.wf()
                        && cap_ok(s.skip(i as int + 1)[j].1) by {
                    assert(s[i + 1 + j].1.wf() && cap_ok(s[i + 1 + j].1));
                }
                lemma_sums_bounded(s);
                lemma_sums_bounded(s.skip(i as int));
                lemma_sums_bounded(s.skip(i as int + 1));
                lemma_sum_cap_split(max_seq(s), i as int);
                lemma_sum_cap_split(max_seq(s), i as int + 1);
                lemma_sum_cap_nonneg(max_seq(s).take(i as int));
                lemma_sum_cap_nonneg(max_seq(s).take(i as int + 1));
                assert(max_seq(s).skip(i as int) =~= max_seq(s.skip(i as int)));
                assert(max_seq(s).skip(i as int + 1) =~= max_seq(s.skip(i as int + 1)));
                assert forall|j: int| 0 <= j < max_seq(s).take(i as int).len()
                    implies 0 <= #[trigger] max_seq(s).take(i as int)[j] by {
                    assert(s[j].1.wf());
                }
                assert forall|j: int| 0 <= j < max_seq(s).take(i as int + 1).len()
                    implies 0 <= #[trigger] max_seq(s).take(i as int + 1)[j] by {
                    assert(s[j].1.wf());
                }
            }
            if self.agents[i].1.is_active() {
                let e: i64 = self.agents[i].1.exposure();
                acc = acc + (e as i128);
            }
            i = i + 1;
        }
        proof {
            assert(s.skip(n as int) =~= Seq::<(String, GearHedger)>::empty());
            lemma_sums_bounded(s);
        }
        acc as i64
    }
}


impl AgentInventory {
    /// Take every entry of `other` into this inventory; on a shared name
    /// the entry of `other` wins.
    pub fn merge(&mut self, other: AgentInventory)
        requires
            old(self).wf(),
            other.wf(),
            sum_cap_of(max_seq(old(self).agents@)) + sum_cap_of(max_seq(other.agents@))
                <= UNIT_LIMIT,
        ensures
            final(self).wf(),
            final(self).pl == old(self).pl,
            forall|k: Seq<char>| #[trigger] has_key(final(self).agents@, k)
                <==> has_key(old(self).agents@, k) || has_key(other.agents@, k),
            forall|k: Seq<char>| #[trigger] has_key(other.agents@, k)
                ==> has_key(final(self).agents@, k)
                    && val_at(final(self).agents@, k) == val_at(other.agents@, k),
            forall|k: Seq<char>| !has_key(other.agents@, k)
                && #[trigger] has_key(old(self).agents@, k)
                ==> val_at(final(self).agents@, k) == val_at(old(self).agents@, k),
    {
        let ghost oself = self.agents@;
        let ghost oo = other.agents@;
        let mut rest = other.agents;
        proof {
            assert(rest@ =~= oo.take(rest@.len() as int));
            assert(oo.skip(rest@.len() as int) =~= Seq::<(String, GearHedger)>::empty());
            assert(max_seq(rest@) =~= max_seq(oo));
        }
        while rest.len() > 0
            invariant
                oo == other.agents@,
                oself == old(self).agents@,
                keys_unique(oo),
                members_ok(oo),
                self.wf(),
                self.pl == old(self).pl,
                rest@ == oo.take(rest@.len() as int),
                rest@.len() <= oo.len(),
                sum_cap_of(max_seq(self.agents@)) + sum_cap_of(max_seq(rest@))
                    <= UNIT_LIMIT,
                forall|k: Seq<char>| #[trigger] has_key(self.agents@, k)
                    <==> has_key(oself, k) || has_key(oo.skip(rest@.len() as int), k),
                forall|k: Seq<char>| #[trigger] has_key(oo.skip(rest@.len() as int), k)
                    ==> has_key(self.agents@, k)
                        && val_at(self.agents@, k) == val_at(oo, k),
                forall|k: Seq<char>| !has_key(oo.skip(rest@.len() as int), k)
                    && #[trigger] has_key(oself, k)
                    ==> val_at(self.agents@, k) == val_at(oself, k),
            decreases rest@.len(),
        {
            let ghost jj = rest@.len() as int;
            let ghost cur = self.agents@;
            let pair = rest.pop().unwrap();
            proof {
                assert(pair == oo[jj - 1]);
                assert(rest@ =~= oo.take(jj - 1));
                assert(oo.take(jj) =~= oo.take(jj - 1).push(oo[jj - 1]));
                assert(max_seq(oo.take(jj)) =~= max_seq(oo.take(jj - 1)).push(
                    oo[jj - 1].1.max_exposure));
                lemma_sum_cap_push(max_seq(oo.take(jj - 1)), oo[jj - 1].1.max_exposure);
                assert(oo[jj - 1].1.wf() && cap_ok(oo[jj - 1].1));
                assert(max_seq(rest@) =~= max_seq(oo.take(jj - 1)));
                assert forall|l: int| 0 <= l < max_seq(oo.take(jj - 1)).len()
                    implies 0 <= #[trigger] max_seq(oo.take(jj - 1))[l] by {
                    assert(oo[l].1.wf());
                }
                lemma_sum_cap_nonneg(max_seq(oo.take(jj - 1)));
            }
            self.insert(pair.0, pair.1);
            proof {
                let ghost e = oo[jj - 1];
                // The suffix grows by exactly the popped key.
                assert forall|k: Seq<char>| #[trigger] has_key(oo.skip(jj - 1), k)
                    implies (k == e.0@ || has_key(oo.skip(jj), k)) by {
                    let l = choose|l: int| 0 <= l < oo.skip(jj - 1).len()
                        && (#[trigger] oo.skip(jj - 1)[l]).0@ == k;
                    if l == 0 {
                        assert(oo.skip(jj - 1)[0] == e);
                    } else {
                        assert(oo.skip(jj - 1)[l] == oo[jj - 1 + l]);
                        assert(oo.skip(jj)[l - 1] == oo[jj + (l - 1)]);
                    }
                }
                assert forall|k: Seq<char>| (k == e.0@ || has_key(oo.skip(jj), k))
                    implies #[trigger] has_key(oo.skip(jj - 1), k) by {
                    if k == e.0@ {
                        assert(oo.skip(jj - 1)[0] == e);
                    } else {
                        let l = choose|l: int| 0 <= l < oo.skip(jj).len()
                            && (#[trigger] oo.skip(jj)[l]).0@ == k;
                        assert(oo.skip(jj - 1)[l + 1] == oo[jj + l]);
                    }
                }
                // The popped key is not in the shorter suffix.
                assert(!has_key(oo.skip(jj), e.0@)) by {
                    if has_key(oo.skip(jj), e.0@) {
                        let l = choose|l: int| 0 <= l < oo.skip(jj).len()
                            && (#[trigger] oo.skip(jj)[l]).0@ == e.0@;
                        assert(oo[jj + l].0@ == e.0@);
                        assert(oo[jj - 1].0@ == e.0@);
                    }
                }
                // The popped key's stored value in `oo` is the popped value.
                assert(val_at(oo, e.0@) == e.1) by {
                    assert(oo[jj - 1].0@ == e.0@);
                    let l = choose|l: int| 0 <= l < oo.len()
                        && (#[trigger] oo[l]).0@ == e.0@;
                    assert(l == jj - 1);
                }
                assert forall|k: Seq<char>| #[trigger] has_key(self.agents@, k)
                    implies (has_key(oself, k) || has_key(oo.skip(jj - 1), k)) by {
                    assert(as_map(self.agents@).contains_key(k));
                    if k != e.0@ {
                        assert(as_map(cur).insert(e.0@, e.1).contains_key(k));
                        assert(has_key(cur, k));
                    } else {
                        assert(oo.skip(jj - 1)[0] == e);
                    }
                }
                assert forall|k: Seq<char>| (has_key(oself, k) || has_key(oo.skip(jj - 1), k))
                    implies #[trigger] has_key(self.agents@, k) by {
                    if k == e.0@ {
                        assert(as_map(self.agents@) == as_map(cur).insert(e.0@, e.1));
                        assert(as_map(self.agents@).contains_key(k));
                    } else {
                        if has_key(oself, k) || has_key(oo.skip(jj), k) {
                            assert(has_key(cur, k));
                            assert(as_map(cur).insert(e.0@, e.1).contains_key(k));
                            assert(as_map(self.agents@).contains_key(k));
                        } else {
                            assert(has_key(oo.skip(jj - 1), k));
                        }
                    }
                }
                assert forall|k: Seq<char>| #[trigger] has_key(oo.skip(jj - 1), k)
                    implies has_key(self.agents@, k)
                        && val_at(self.agents@, k) == val_at(oo, k) by {
                    if k == e.0@ {
                        assert(val_at(self.agents@, k) == e.1);
                    } else {
                        assert(has_key(oo.skip(jj), k));
                        assert(has_key(cur, k));
                        assert(as_map(self.agents@).contains_key(k));
                        assert(as_map(self.agents@)[k] == as_map(cur).insert(e.0@, e.1)[k]);
                        assert(as_map(self.agents@)[k] == as_map(cur)[k]);
                        assert(as_map(self.agents@)[k] == val_at(self.agents@, k));
                        assert(as_map(cur)[k] == val_at(cur, k));
                    }
                }
                assert forall|k: Seq<char>| !has_key(oo.skip(jj - 1), k)
                    && #[trigger] has_key(oself, k)
                    implies val_at(self.agents@, k) == val_at(oself, k) by {
                    assert(k != e.0@);
                    assert(!has_key(oo.skip(jj), k));
                    assert(val_at(cur, k) == val_at(oself, k));
                    assert(has_key(cur, k));
                    assert(as_map(self.agents@)[k] == as_map(cur).insert(e.0@, e.1)[k]);
                    assert(as_map(self.agents@)[k] == as_map(cur)[k]);
                    assert(as_map(self.agents@)[k] == val_at(self.agents@, k));
                    assert(as_map(cur)[k] == val_at(cur, k));
                }
            }
        }
        proof {
            assert(oo.skip(0) =~= oo);
            assert(rest@.len() == 0);
        }
    }
}


/// When replacing two members by their merge can go ahead: both names
/// are present and the merged agent stays within the engine's ranges —
/// a nonempty union band, a merged cap within bounds, finite targets,
/// a summed position within the unit and per-agent caps, and a cap sum
/// that still fits the inventory.
pub open spec fn mergeable(s: Seq<(String, GearHedger)>, k1: Seq<char>, k2: Seq<char>) -> bool {
    let a = val_at(s, k1);
    let b = val_at(s, k2);
    &&& has_key(s, k1)
    &&& has_key(s, k2)
    &&& (if a.gear_f.p_0 <= b.gear_f.p_0 { a.gear_f.p_0 } else { b.gear_f.p_0 })
        < (if a.gear_f.p_n >= b.gear_f.p_n { a.gear_f.p_n } else { b.gear_f.p_n })
    &&& 1 <= crate::agents::merged_max(a, b) <= MAX_EXPOSURE_LIMIT
    &&& -MONEY_LIMIT <= a.target <= MONEY_LIMIT
    &&& -MONEY_LIMIT <= b.target <= MONEY_LIMIT
    &&& -UNIT_LIMIT <= a.pl.exposure + b.pl.exposure <= UNIT_LIMIT
    &&& -1000 * crate::agents::merged_max(a, b) <= a.pl.exposure + b.pl.exposure
    &&& a.pl.exposure + b.pl.exposure <= 1000 * crate::agents::merged_max(a, b)
    &&& sum_cap_of(max_seq(s)) - 1000 * a.max_exposure - 1000 * b.max_exposure
        + 1000 * crate::agents::merged_max(a, b) <= UNIT_LIMIT
}

impl AgentInventory {
    /// Replace the members named `name1` and `name2` by their merge,
    /// stored under `outname`. Nothing changes when either name is
    /// missing or the merged agent would leave the engine's ranges.
    pub fn merge_two(&mut self, name1: &String, name2: &String, outname: String) -> (r: bool)
        requires
            old(self).wf(),
            name1@ != name2@,
        ensures
            final(self).wf(),
            final(self).pl == old(self).pl,
            r == mergeable(old(self).agents@, name1@, name2@),
            !r ==> as_map(final(self).agents@) == as_map(old(self).agents@),
            r ==> has_key(old(self).agents@, name1@) && has_key(old(self).agents@, name2@),
            r ==> {
                let a1 = val_at(old(self).agents@, name1@);
                let a2 = val_at(old(self).agents@, name2@);
                let m = val_at(final(self).agents@, outname@);
                &&& as_map(final(self).agents@) == as_map(old(self).agents@).remove(
                    name1@).remove(name2@).insert(outname@, m)
                &&& m.active
                &&& m.gear_f.p_0 == (if a1.gear_f.p_0 <= a2.gear_f.p_0 {
                    a1.gear_f.p_0
                } else {
                    a2.gear_f.p_0
                })
                &&& m.gear_f.p_n == (if a1.gear_f.p_n >= a2.gear_f.p_n {
                    a1.gear_f.p_n
                } else {
                    a2.gear_f.p_n
                })
                &&& m.target == a1.target + a2.target - a1.pl.cum_profit - a2.pl.cum_profit
                &&& m.pl.exposure == a1.pl.exposure + a2.pl.exposure
            },
    {
        let ghost orig = self.agents@;
        proof {
            if has_key(orig, name1@) {
                let j = choose|j: int| 0 <= j < orig.len()
                    && (#[trigger] orig[j]).0@ == name1@;
                assert(orig[j].1.wf() && cap_ok(orig[j].1));
            }
            if has_key(orig, name2@) {
                let j = choose|j: int| 0 <= j < orig.len()
                    && (#[trigger] orig[j]).0@ == name2@;
                assert(orig[j].1.wf() && cap_ok(orig[j].1));
            }
        }
        let a1 = match self.remove(name1) {
            Some(a) => a,
            None => {
                proof {
                    assert(as_map(self.agents@) =~= as_map(orig));
                }
                return false;
            },
        };
        let ghost mid1 = self.agents@;
        let a2 = match self.remove(name2) {
            Some(a) => a,
            None => {
                self.insert(name1.clone(), a1);
                proof {
                    assert(as_map(mid1).remove(name2@) =~= as_map(mid1));
                    assert(as_map(self.agents@) =~= as_map(orig));
                    assert(!as_map(orig).remove(name1@).contains_key(name2@));
                    assert(!has_key(orig, name2@));
                }
                return false;
            },
        };
        proof {
            assert(as_map(mid1).contains_key(name2@));
            assert(val_at(mid1, name2@) == as_map(mid1)[name2@]);
            assert(as_map(orig).contains_key(name2@));
            assert(a2 == val_at(orig, name2@));
            assert(a1.wf() && cap_ok(a1) && a2.wf() && cap_ok(a2));
        }
        let ghost mid2 = self.agents@;

        let p0: i64 = if a1.gear_f.p_0 <= a2.gear_f.p_0 { a1.gear_f.p_0 } else { a2.gear_f.p_0 };
        let pn: i64 = if a1.gear_f.p_n >= a2.gear_f.p_n { a1.gear_f.p_n } else { a2.gear_f.p_n };
        let lo: i64 = crate::agents::endpoint_units(a1.gear_f.g_0, a1.max_exposure)
            + crate::agents::endpoint_units(a2.gear_f.g_0, a2.max_exposure);
        let hi: i64 = crate::agents::endpoint_units(a1.gear_f.g_n, a1.max_exposure)
            + crate::agents::endpoint_units(a2.gear_f.g_n, a2.max_exposure);
        let loa: i64 = if lo >= 0 { lo } else { -lo };
        let hia: i64 = if hi >= 0 { hi } else { -hi };
        let maxm: i64 = if loa > hia { loa } else { hia };
        let e_sum: i128 = (a1.pl.exposure as i128) + (a2.pl.exposure as i128);
        let cs: i128 = self.cap_total();
        proof {
            assert(maxm == crate::agents::merged_max(a1, a2));
            assert(cs == sum_cap_of(max_seq(orig)) - 1000 * a1.max_exposure
                - 1000 * a2.max_exposure);
        }

        let ok: bool = p0 < pn && 1 <= maxm && maxm <= MAX_EXPOSURE_LIMIT
            && -MONEY_LIMIT <= a1.target && a1.target <= MONEY_LIMIT
            && -MONEY_LIMIT <= a2.target && a2.target <= MONEY_LIMIT
            && -(UNIT_LIMIT as i128) <= e_sum && e_sum <= UNIT_LIMIT as i128
            && -1000 * (maxm as i128) <= e_sum && e_sum <= 1000 * (maxm as i128)
            && cs + 1000 * (maxm as i128) <= UNIT_LIMIT as i128;
        if !ok {
            self.insert(name1.clone(), a1);
            self.insert(name2.clone(), a2);
            proof {
                assert(as_map(self.agents@) =~= as_map(orig));
            }
            return false;
        }
        let merged = a1.merge_flat(&a2);
        self.insert(outname, merged);
        proof {
            assert(val_at(self.agents@, outname@) == merged);
        }
        true
    }
}

} // verus!
