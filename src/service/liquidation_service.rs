use vstd::prelude::*;
use crate::address::Address;
use crate::cache::marginfi_accounts::{AccountView, MarginfiAccountsCache};
use crate::liquidation::{
    choose_liquidation_strategy, permuted, prepares_params, sort_by_health, sorted_by, HealthOrder,
    LiquidationParams,
};

verus! {

/// The addresses of health-index entries, visited in the given order.
pub fn sort_accounts_by_health(accounts: &Vec<(Address, i64)>, order: HealthOrder) -> (r: Vec<Address>)
    ensures
        exists|s: Seq<(Address, i64)>, p: Seq<int>|
            permuted(s, accounts@, p) && sorted_by(s, order) && r@ == s.map_values(|e: (Address, i64)| e.0),
{
    let sorted = sort_by_health(accounts, order);
    let mut r: Vec<Address> = Vec::new();
    let mut i: usize = 0;
    while i < sorted.len()
        invariant
            0 <= i <= sorted@.len(),
            r@ == sorted@.subrange(0, i as int).map_values(|e: (Address, i64)| e.0),
        decreases sorted@.len() - i,
    {
        r.push(sorted[i].0);
        i = i + 1;
        assert(r@ =~= sorted@.subrange(0, i as int).map_values(|e: (Address, i64)| e.0));
    }
    assert(sorted@.subrange(0, i as int) =~= sorted@);
    r
}

/// Whether the cycle acts on `a`: its position is cached and the selected
/// strategy prepares parameters for it.
pub open spec fn acts_on(m: Map<Address, AccountView>, a: Address) -> bool {
    m.contains_key(a) && prepares_params(m[a])
}

/// The first position from `from` on at which the cycle acts, or the end.
pub open spec fn first_actionable(order: Seq<Address>, from: int, m: Map<Address, AccountView>) -> int
    decreases order.len() - from,
{
    if from >= order.len() {
        order.len() as int
    } else if acts_on(m, order[from]) {
        from
    } else {
        first_actionable(order, from + 1, m)
    }
}

/// What the scheduler asks its caller to do next.
#[derive(Debug)]
pub enum CycleAction {
    /// Execute the liquidation of this position with these parameters, then
    /// ask again whatever the execution gave.
    Liquidate(Address, LiquidationParams),
    /// The ordered list is done: sleep, then start a new cycle.
    Finished,
}

/// One scan over the health-ordered candidates.
pub struct LiquidationCycle {
    order: Vec<Address>,
    next: usize,
}

impl LiquidationCycle {
    /// The candidates, in visiting order.
    pub closed spec fn spec_order(&self) -> Seq<Address> {
        self.order@
    }

    /// Position of the next candidate to visit.
    pub closed spec fn spec_next(&self) -> int {
        self.next as int
    }

    /// A cycle over a snapshot of the health index, in the given order.
    pub fn new(accounts_with_health: &Vec<(Address, i64)>, order: HealthOrder) -> (r: Self)
        ensures
            r.spec_next() == 0,
            exists|s: Seq<(Address, i64)>, p: Seq<int>|
                permuted(s, accounts_with_health@, p) && sorted_by(s, order) && r.spec_order() == s.map_values(
                    |e: (Address, i64)| e.0,
                ),
    {
        LiquidationCycle { order: sort_accounts_by_health(accounts_with_health, order), next: 0 }
    }

    /// Visits candidates from the current position: one whose position is no
    /// longer cached, or whose preparation gives nothing or fails, is passed
    /// over; the first one that prepares parameters is handed back, and the
    /// cycle moves past it before the caller executes anything.
    pub fn next_action(&mut self, cache: &MarginfiAccountsCache) -> (r: CycleAction)
        requires
            cache.wf(),
            old(self).spec_next() <= old(self).spec_order().len(),
        ensures
            final(self).spec_order() == old(self).spec_order(),
            final(self).spec_next() <= final(self).spec_order().len(),
            ({
                let k = first_actionable(old(self).spec_order(), old(self).spec_next(), cache@);
                match r {
                    CycleAction::Liquidate(a, _) => k < old(self).spec_order().len() && a == old(
                        self,
                    ).spec_order()[k] && final(self).spec_next() == k + 1,
                    CycleAction::Finished => k == old(self).spec_order().len() && final(self).spec_next()
                        == k,
                }
            }),
    {
        let ghost start = self.next as int;
        while self.next < self.order.len()
            invariant
                cache.wf(),
                self.order@ == old(self).order@,
                start == old(self).next,
                start <= self.next <= self.order@.len(),
                first_actionable(self.order@, start, cache@) == first_actionable(self.order@, self.next as int, cache@),
            decreases self.order@.len() - self.next,
        {
            let address = self.order[self.next];
            let ghost n = self.next as int;
            self.next = self.next + 1;
            match cache.get_account(&address) {
                Ok(account) => {
                    let strategy = choose_liquidation_strategy(&account);
                    match strategy.prepare(&account) {
                        Ok(Some(params)) => {
                            assert(acts_on(cache@, self.order@[n]));
                            assert(first_actionable(self.order@, n, cache@) == n);
                            return CycleAction::Liquidate(address, params);
                        },
                        Ok(None) => {},
                        Err(_) => {},
                    }
                },
                Err(_) => {
                    assert(!acts_on(cache@, self.order@[n]));
                },
            }
        }
        CycleAction::Finished
    }
}

/// Scheduler resilience: once the cycle hands back a candidate, it has moved
/// past it, so whatever the execution gave, the next request visits the
/// following candidate (here one at which the cycle acts).
pub proof fn lemma_failure_does_not_stop_cycle(order: Seq<Address>, k: int, m: Map<Address, AccountView>)
    requires
        0 <= k,
        k + 1 < order.len(),
        acts_on(m, order[k + 1]),
    ensures
        first_actionable(order, k + 1, m) == k + 1,
{
}

} // verus!
