use vstd::prelude::*;
use vstd::string::StringExecFns;

use crate::error::Error;

verus! {

/// The most resource labels that a pool holds, and that one method declares.
pub const MAX_RESOURCES: usize = 8;

/// What a pool holds, slot by slot.
pub struct PoolModel {
    pub labels: Seq<Seq<char>>,
    pub capacities: Seq<u16>,
    pub defaults: Seq<u16>,
    pub used: Seq<u16>,
}

/// Units that `units` asks of slot `i`: missing entries ask for none.
pub open spec fn unit_at(units: Seq<u16>, i: int) -> int {
    if 0 <= i < units.len() {
        units[i] as int
    } else {
        0
    }
}

impl PoolModel {
    pub open spec fn len(self) -> int {
        self.labels.len() as int
    }

    pub open spec fn wf(self) -> bool {
        &&& self.capacities.len() == self.labels.len()
        &&& self.defaults.len() == self.labels.len()
        &&& self.used.len() == self.labels.len()
        &&& self.labels.len() <= MAX_RESOURCES
        &&& forall|i: int|
            0 <= i < self.len() ==> #[trigger] self.used[i] <= self.capacities[i]
                || self.capacities[i] == 0
        &&& forall|i: int| 0 <= i < self.len() && self.capacities[i] == 0 ==> #[trigger] self.used[i] == 0
        &&& forall|i: int, j: int|
            0 <= i < self.len() && 0 <= j < self.len() && i != j ==> #[trigger] self.labels[i]
                != #[trigger] self.labels[j]
    }

    /// Units a claim of `units` takes from slot `i`: none where the capacity is zero,
    /// which stands for "unlimited".
    pub open spec fn taken(self, units: Seq<u16>, i: int) -> int {
        if self.capacities[i] == 0 {
            0
        } else {
            unit_at(units, i)
        }
    }

    /// Slot `i` can give what `units` asks of it.
    pub open spec fn slot_fits(self, units: Seq<u16>, i: int) -> bool {
        self.capacities[i] == 0 || self.used[i] + unit_at(units, i) <= self.capacities[i]
    }

    pub open spec fn fits(self, units: Seq<u16>) -> bool {
        forall|i: int| 0 <= i < self.len() ==> #[trigger] self.slot_fits(units, i)
    }

    /// Slot `k` is the first that cannot give what `units` asks of it.
    pub open spec fn first_blocked(self, units: Seq<u16>, k: int) -> bool {
        &&& 0 <= k < self.len()
        &&& !self.slot_fits(units, k)
        &&& forall|i: int| 0 <= i < k ==> #[trigger] self.slot_fits(units, i)
    }

    /// The units that a successful claim of `units` holds, slot by slot.
    pub open spec fn claimed_units(self, units: Seq<u16>) -> Seq<u16> {
        Seq::new(self.labels.len(), |i: int| self.taken(units, i) as u16)
    }

    /// The pool after a successful claim of `units`.
    pub open spec fn after_claim(self, units: Seq<u16>) -> PoolModel {
        PoolModel {
            used: Seq::new(self.labels.len(), |i: int| (self.used[i] + self.taken(units, i)) as u16),
            ..self
        }
    }

    /// The pool after the units of `guard` are given back.
    pub open spec fn after_release(self, guard: Seq<u16>) -> PoolModel {
        PoolModel {
            used: Seq::new(
                self.labels.len(),
                |i: int|
                    if unit_at(guard, i) <= self.used[i] {
                        (self.used[i] - unit_at(guard, i)) as u16
                    } else {
                        0u16
                    },
            ),
            ..self
        }
    }

    /// The pool after a new slot is added.
    pub open spec fn after_register(self, label: Seq<char>, capacity: u16, default: u16) -> PoolModel {
        PoolModel {
            labels: self.labels.push(label),
            capacities: self.capacities.push(capacity),
            defaults: self.defaults.push(default),
            used: self.used.push(0u16),
        }
    }
}

/// A pool of named resources with fixed capacities. A capacity of zero makes
/// its resource unlimited.
pub struct Resources {
    labels: Vec<String>,
    capacities: Vec<u16>,
    defaults: Vec<u16>,
    used: Vec<u16>,
}

/// The units held by one successful claim; handing it back to
/// `Resources::release` gives them back.
pub struct ResourceGuard {
    units: Vec<u16>,
}

impl View for ResourceGuard {
    type V = Seq<u16>;

    closed spec fn view(&self) -> Seq<u16> {
        self.units@
    }
}

impl ResourceGuard {
    /// The units this claim holds, slot by slot.
    pub fn units(&self) -> (r: &Vec<u16>)
        ensures
            r@ == self@,
    {
        &self.units
    }
}

impl View for Resources {
    type V = PoolModel;

    closed spec fn view(&self) -> PoolModel {
        PoolModel {
            labels: self.labels@.map_values(|s: String| s@),
            capacities: self.capacities@,
            defaults: self.defaults@,
            used: self.used@,
        }
    }
}

impl Resources {
    pub open spec fn wf(&self) -> bool {
        self@.wf()
    }

    /// A pool with no resources.
    pub fn new() -> (r: Self)
        ensures
            r.wf(),
            r@.len() == 0,
    {
        Resources { labels: Vec::new(), capacities: Vec::new(), defaults: Vec::new(), used: Vec::new() }
    }

    /// The number of resource slots.
    pub fn len(&self) -> (r: usize)
        requires
            self.wf(),
        ensures
            r == self@.len(),
    {
        self.labels.len()
    }

    /// The label of slot `i`.
    pub fn label(&self, i: usize) -> (r: String)
        requires
            self.wf(),
            i < self@.len(),
        ensures
            r@ == self@.labels[i as int],
    {
        self.labels[i].clone()
    }

    /// The capacity of slot `i`.
    pub fn capacity(&self, i: usize) -> (r: u16)
        requires
            self.wf(),
            i < self@.len(),
        ensures
            r == self@.capacities[i as int],
    {
        self.capacities[i]
    }

    /// The units that slot `i` has handed out.
    pub fn used(&self, i: usize) -> (r: u16)
        requires
            self.wf(),
            i < self@.len(),
        ensures
            r == self@.used[i as int],
    {
        self.used[i]
    }

    /// The units that a method claims of each slot unless it declares otherwise.
    pub fn defaults(&self) -> (r: Vec<u16>)
        requires
            self.wf(),
        ensures
            r@ == self@.defaults,
    {
        self.defaults.clone()
    }

    /// The slot of `label`, if the pool has it.
    pub fn position(&self, label: &str) -> (r: Option<usize>)
        requires
            self.wf(),
        ensures
            match r {
                Some(i) => i < self@.len() && self@.labels[i as int] == label@,
                None => !self@.labels.contains(label@),
            },
    {
        let wanted = String::from_str(label);
        let mut i: usize = 0;
        while i < self.labels.len()
            invariant
                self.wf(),
                wanted@ == label@,
                i <= self@.len(),
                forall|j: int| 0 <= j < i ==> self@.labels[j] != label@,
            decreases self@.len() - i,
        {
            if self.labels[i] == wanted {
                return Some(i);
            }
            i = i + 1;
        }
        proof {
            if self@.labels.contains(label@) {
                let j = choose|j: int| 0 <= j < self@.len() && self@.labels[j] == label@;
                assert(self@.labels[j] != label@);
            }
        }
        None
    }

    /// Adds a resource of `capacity` units, of which a method claims `default`
    /// unless it declares otherwise.
    pub fn register(&mut self, label: &str, capacity: u16, default: u16) -> (r: Result<(), Error>)
        requires
            old(self).wf(),
        ensures
            final(self).wf(),
            old(self)@.len() >= MAX_RESOURCES ==> r == Err::<(), Error>(Error::MaxResourcesReached)
                && final(self)@ == old(self)@,
            old(self)@.len() < MAX_RESOURCES && old(self)@.labels.contains(label@) ==> (match r {
                Err(Error::ResourceNameAlreadyTaken(l)) => l@ == label@,
                _ => false,
            }) && final(self)@ == old(self)@,
            old(self)@.len() < MAX_RESOURCES && !old(self)@.labels.contains(label@) ==> r is Ok
                && final(self)@ == old(self)@.after_register(label@, capacity, default),
    {
        if self.labels.len() >= MAX_RESOURCES {
            return Err(Error::MaxResourcesReached);
        }
        if self.position(label).is_some() {
            return Err(Error::ResourceNameAlreadyTaken(String::from_str(label)));
        }
        let ghost before = self@;
        self.labels.push(String::from_str(label));
        self.capacities.push(capacity);
        self.defaults.push(default);
        self.used.push(0);
        proof {
            assert(self@.labels =~= before.labels.push(label@));
            assert(self@ == before.after_register(label@, capacity, default));
            assert forall|i: int, j: int|
                0 <= i < self@.len() && 0 <= j < self@.len() && i != j implies #[trigger] self@.labels[i]
                != #[trigger] self@.labels[j] by {
                if i == before.len() {
                    assert(before.labels.contains(before.labels[j]));
                } else if j == before.len() {
                    assert(before.labels.contains(before.labels[i]));
                }
            }
        }
        Ok(())
    }

    /// Reserves `units` (slot by slot) all at once, or nothing. Fails with
    /// `ResourceAtCapacity`, naming the first slot that has not enough left.
    pub fn claim(&mut self, units: &Vec<u16>) -> (r: Result<ResourceGuard, Error>)
        requires
            old(self).wf(),
        ensures
            final(self).wf(),
            match r {
                Ok(g) => old(self)@.fits(units@) && g@ == old(self)@.claimed_units(units@)
                    && final(self)@ == old(self)@.after_claim(units@),
                Err(e) => !old(self)@.fits(units@) && final(self)@ == old(self)@ && exists|k: int|
                    #[trigger] old(self)@.first_blocked(units@, k) && (match e {
                        Error::ResourceAtCapacity(l) => l@ == old(self)@.labels[k],
                        _ => false,
                    }),
            },
    {
        let n = self.labels.len();
        let mut i: usize = 0;
        while i < n
            invariant
                self.wf(),
                n == self@.len(),
                i <= n,
                forall|j: int| 0 <= j < i ==> #[trigger] self@.slot_fits(units@, j),
            decreases n - i,
        {
            let cap = self.capacities[i];
            let want: u16 = if i < units.len() {
                units[i]
            } else {
                0
            };
            if cap != 0 && (self.used[i] as u32) + (want as u32) > cap as u32 {
                proof {
                    assert(self@.first_blocked(units@, i as int));
                }
                return Err(Error::ResourceAtCapacity(self.labels[i].clone()));
            }
            i = i + 1;
        }
        let ghost before = self@;
        let mut taken: Vec<u16> = Vec::new();
        let mut k: usize = 0;
        while k < n
            invariant
                before.wf(),
                before.fits(units@),
                n == before.len(),
                k <= n,
                self.labels@ == old(self).labels@,
                self.capacities@ == before.capacities,
                self.defaults@ == before.defaults,
                self.used@.len() == n,
                self@.labels == before.labels,
                taken@.len() == k,
                forall|j: int| 0 <= j < k ==> #[trigger] taken@[j] == before.taken(units@, j) as u16,
                forall|j: int| 0 <= j < k ==> #[trigger] self.used@[j] == (before.used[j] + before.taken(units@, j)) as u16,
                forall|j: int| k <= j < n ==> #[trigger] self.used@[j] == before.used[j],
            decreases n - k,
        {
            assert(before.slot_fits(units@, k as int));
            let want: u16 = if self.capacities[k] == 0 {
                0
            } else if k < units.len() {
                units[k]
            } else {
                0
            };
            let now = self.used[k] + want;
            self.used.set(k, now);
            taken.push(want);
            k = k + 1;
        }
        proof {
            assert(taken@ =~= before.claimed_units(units@));
            assert(self@.used =~= before.after_claim(units@).used);
            assert(self@ == before.after_claim(units@));
            assert forall|i: int| 0 <= i < self@.len() implies #[trigger] self@.used[i]
                <= self@.capacities[i] || self@.capacities[i] == 0 by {
                assert(before.slot_fits(units@, i));
            }
        }
        Ok(ResourceGuard { units: taken })
    }

    /// Gives back the units that `guard` holds. A slot never drops below zero.
    pub fn release(&mut self, guard: ResourceGuard)
        requires
            old(self).wf(),
        ensures
            final(self).wf(),
            final(self)@ == old(self)@.after_release(guard@),
    {
        let ghost before = self@;
        let n = self.labels.len();
        let mut k: usize = 0;
        while k < n
            invariant
                before.wf(),
                n == before.len(),
                k <= n,
                self.labels@ == old(self).labels@,
                self@.labels == before.labels,
                self.capacities@ == before.capacities,
                self.defaults@ == before.defaults,
                self.used@.len() == n,
                forall|j: int| 0 <= j < k ==> #[trigger] self.used@[j] == before.after_release(guard@).used[j],
                forall|j: int| k <= j < n ==> #[trigger] self.used@[j] == before.used[j],
            decreases n - k,
        {
            let give: u16 = if k < guard.units.len() {
                guard.units[k]
            } else {
                0
            };
            let cur = self.used[k];
            let now: u16 = if give <= cur {
                cur - give
            } else {
                0
            };
            self.used.set(k, now);
            k = k + 1;
        }
        proof {
            assert(self@.used =~= before.after_release(guard@).used);
            assert(self@ == before.after_release(guard@));
        }
    }
}

} // verus!
