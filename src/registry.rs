use vstd::prelude::*;
use vstd::string::StringExecFns;

use crate::error::Error;
use crate::methods::{CallbackModel, MethodCallback, MethodResources, MethodResourcesBuilder, ResourcesModel, decl_model};
use crate::json::{method_not_found_response, not_found_response};
use crate::methods::claim_allowed;
use crate::resources::{PoolModel, ResourceGuard, Resources};

verus! {

/// The names of a registry's entries, in order.
pub open spec fn names_of(s: Seq<(Seq<char>, CallbackModel)>) -> Seq<Seq<char>> {
    s.map_values(|e: (Seq<char>, CallbackModel)| e.0)
}

pub open spec fn has_name(s: Seq<(Seq<char>, CallbackModel)>, name: Seq<char>) -> bool {
    names_of(s).contains(name)
}

/// No name occurs twice.
pub open spec fn registry_wf(s: Seq<(Seq<char>, CallbackModel)>) -> bool {
    names_of(s).no_duplicates()
}

/// The method registered under `name`, if any.
pub open spec fn lookup(s: Seq<(Seq<char>, CallbackModel)>, name: Seq<char>) -> Option<CallbackModel> {
    if has_name(s, name) {
        Some(s[names_of(s).index_of(name)].1)
    } else {
        None
    }
}

/// No name of `b` is registered in `a`.
pub open spec fn disjoint(a: Seq<(Seq<char>, CallbackModel)>, b: Seq<(Seq<char>, CallbackModel)>) -> bool {
    forall|k: int| 0 <= k < b.len() ==> !has_name(a, #[trigger] b[k].0)
}

/// Entry `k` of `b` is the first whose name `a` has already.
pub open spec fn first_clash(
    a: Seq<(Seq<char>, CallbackModel)>,
    b: Seq<(Seq<char>, CallbackModel)>,
    k: int,
) -> bool {
    &&& 0 <= k < b.len()
    &&& has_name(a, b[k].0)
    &&& forall|j: int| 0 <= j < k ==> !has_name(a, #[trigger] b[j].0)
}

/// The slot of `label` in the pool.
pub open spec fn slot_of(pool: PoolModel, label: Seq<char>) -> int {
    pool.labels.index_of(label)
}

/// The dense units of the first `n` declarations of `decl`, bound to `pool`:
/// the pool's defaults, overwritten by each declaration in turn, and zero
/// where the pool's capacity is zero.
pub open spec fn bound_units(pool: PoolModel, decl: Seq<(Seq<char>, u16)>, n: int) -> Seq<u16>
    decreases n,
{
    if n <= 0 {
        pool.defaults
    } else {
        let prev = bound_units(pool, decl, n - 1);
        let idx = slot_of(pool, decl[n - 1].0);
        prev.update(idx, if pool.capacities[idx] == 0 { 0u16 } else { decl[n - 1].1 })
    }
}

/// Every label that `decl` declares is known to the pool.
pub open spec fn labels_known(pool: PoolModel, decl: Seq<(Seq<char>, u16)>) -> bool {
    forall|k: int| 0 <= k < decl.len() ==> pool.labels.contains(#[trigger] decl[k].0)
}

/// The method can be bound to the pool.
pub open spec fn bindable(pool: PoolModel, cb: CallbackModel) -> bool {
    match cb.resources {
        ResourcesModel::Uninitialized(d) => labels_known(pool, d),
        ResourcesModel::Initialized(_) => true,
    }
}

/// The method after binding to the pool; one bound already stays as it is.
pub open spec fn bound(pool: PoolModel, cb: CallbackModel) -> CallbackModel {
    match cb.resources {
        ResourcesModel::Uninitialized(d) => CallbackModel {
            kind: cb.kind,
            resources: ResourcesModel::Initialized(bound_units(pool, d, d.len() as int)),
        },
        ResourcesModel::Initialized(_) => cb,
    }
}

/// The registry after every method is bound to the pool.
pub open spec fn bound_all(pool: PoolModel, s: Seq<(Seq<char>, CallbackModel)>) -> Seq<(Seq<char>, CallbackModel)> {
    s.map_values(|e: (Seq<char>, CallbackModel)| (e.0, bound(pool, e.1)))
}


/// Declaration `k` is the first whose label the pool does not know.
pub open spec fn first_unknown(pool: PoolModel, decl: Seq<(Seq<char>, u16)>, k: int) -> bool {
    &&& 0 <= k < decl.len()
    &&& !pool.labels.contains(decl[k].0)
    &&& forall|j: int| 0 <= j < k ==> pool.labels.contains(#[trigger] decl[j].0)
}

/// Entry `i` is the first that cannot be bound to the pool.
pub open spec fn first_unbindable(pool: PoolModel, s: Seq<(Seq<char>, CallbackModel)>, i: int) -> bool {
    &&& 0 <= i < s.len()
    &&& !bindable(pool, s[i].1)
    &&& forall|j: int| 0 <= j < i ==> bindable(pool, #[trigger] s[j].1)
}

/// Every entry can be bound to the pool.
pub open spec fn all_bindable(pool: PoolModel, s: Seq<(Seq<char>, CallbackModel)>) -> bool {
    forall|i: int| 0 <= i < s.len() ==> bindable(pool, #[trigger] s[i].1)
}

/// Binds one method's declarations to the pool, as `bound_units` says.
fn bind_units(pool: &Resources, decl: &Vec<(String, u16)>, method: &String) -> (r: Result<Vec<u16>, Error>)
    requires
        pool.wf(),
    ensures
        r is Ok <==> labels_known(pool@, decl_model(decl@)),
        match r {
            Ok(u) => u@ == bound_units(pool@, decl_model(decl@), decl@.len() as int),
            Err(Error::ResourceNameNotFoundForMethod(l, m)) => m@ == method@ && exists|k: int|
                #[trigger] first_unknown(pool@, decl_model(decl@), k) && l@ == decl_model(decl@)[k].0,
            Err(_) => false,
        },
{
    let ghost d = decl_model(decl@);
    let mut map = pool.defaults();
    let mut j: usize = 0;
    while j < decl.len()
        invariant
            pool.wf(),
            d == decl_model(decl@),
            j <= decl@.len(),
            map@ == bound_units(pool@, d, j as int),
            map@.len() == pool@.len(),
            forall|k: int| 0 <= k < j ==> pool@.labels.contains(#[trigger] d[k].0),
        decreases decl@.len() - j,
    {
        let label = decl[j].0.as_str();
        match pool.position(label) {
            None => {
                proof {
                    assert(first_unknown(pool@, d, j as int));
                }
                return Err(Error::ResourceNameNotFoundForMethod(decl[j].0.clone(), method.clone()));
            },
            Some(idx) => {
                proof {
                    assert(pool@.labels.contains(d[j as int].0));
                    pool@.labels.unique_seq_to_set();
                    lemma_label_slot(pool@, d[j as int].0, idx as int);
                }
                let units: u16 = if pool.capacity(idx) == 0 {
                    0
                } else {
                    decl[j].1
                };
                map.set(idx, units);
                j = j + 1;
            },
        }
    }
    Ok(map)
}

/// Pool labels are distinct, so a label has one slot.
pub proof fn lemma_label_slot(pool: PoolModel, label: Seq<char>, idx: int)
    requires
        pool.wf(),
        0 <= idx < pool.len(),
        pool.labels[idx] == label,
    ensures
        slot_of(pool, label) == idx,
{
    assert(pool.labels.contains(label));
    let k = pool.labels.index_of(label);
    assert(pool.labels[k] == label);
}

/// A name-to-method registry. Names are unique; entries keep the order in
/// which they were added.
pub struct Methods<H> {
    callbacks: Vec<(String, MethodCallback<H>)>,
}

impl<H> View for Methods<H> {
    type V = Seq<(Seq<char>, CallbackModel)>;

    closed spec fn view(&self) -> Seq<(Seq<char>, CallbackModel)> {
        self.callbacks@.map_values(|e: (String, MethodCallback<H>)| (e.0@, e.1@))
    }
}

impl<H> Methods<H> {
    pub open spec fn wf(&self) -> bool {
        registry_wf(self@)
    }

    /// An empty registry.
    pub fn new() -> (r: Self)
        ensures
            r.wf(),
            r@ == Seq::<(Seq<char>, CallbackModel)>::empty(),
    {
        let r = Methods { callbacks: Vec::new() };
        proof {
            assert(r@ =~= Seq::<(Seq<char>, CallbackModel)>::empty());
            assert(names_of(r@) =~= Seq::<Seq<char>>::empty());
        }
        r
    }

    /// The position of `name`, if registered.
    fn find(&self, name: &str) -> (r: Option<usize>)
        requires
            self.wf(),
        ensures
            match r {
                Some(i) => i < self@.len() && self@[i as int].0 == name@ && names_of(self@).index_of(name@)
                    == i && has_name(self@, name@) && self@[i as int] == (
                    self.callbacks@[i as int].0@,
                    self.callbacks@[i as int].1@,
                ),
                None => !has_name(self@, name@),
            },
    {
        let wanted = String::from_str(name);
        let mut i: usize = 0;
        while i < self.callbacks.len()
            invariant
                self.wf(),
                wanted@ == name@,
                i <= self@.len(),
                self@.len() == self.callbacks@.len(),
                forall|j: int| 0 <= j < i ==> #[trigger] self@[j].0 != name@,
            decreases self@.len() - i,
        {
            if self.callbacks[i].0 == wanted {
                proof {
                    assert(names_of(self@)[i as int] == name@);
                    assert(names_of(self@).contains(name@));
                    lemma_index_of_unique(names_of(self@), name@, i as int);
                }
                return Some(i);
            }
            i = i + 1;
        }
        proof {
            if has_name(self@, name@) {
                let j = choose|j: int| 0 <= j < names_of(self@).len() && names_of(self@)[j] == name@;
                assert(self@[j].0 != name@);
            }
        }
        None
    }

    /// Fails with `MethodAlreadyRegistered` if `name` is taken.
    fn verify_method_name(&self, name: &str) -> (r: Result<(), Error>)
        requires
            self.wf(),
        ensures
            r is Ok <==> !has_name(self@, name@),
            match r {
                Err(Error::MethodAlreadyRegistered(n)) => n@ == name@,
                Err(_) => false,
                Ok(_) => true,
            },
    {
        if self.find(name).is_some() {
            return Err(Error::MethodAlreadyRegistered(String::from_str(name)));
        }
        Ok(())
    }

    /// Adds `callback` under `name`, unless the name is taken.
    pub fn verify_and_insert(&mut self, name: &str, callback: MethodCallback<H>) -> (r: Result<(), Error>)
        requires
            old(self).wf(),
        ensures
            final(self).wf(),
            r is Ok <==> !has_name(old(self)@, name@),
            r is Ok ==> final(self)@ == old(self)@.push((name@, callback@)),
            match r {
                Err(Error::MethodAlreadyRegistered(n)) => n@ == name@ && *final(self) == *old(self),
                Err(_) => false,
                Ok(_) => true,
            },
    {
        self.verify_method_name(name)?;
        let ghost before = self@;
        self.callbacks.push((String::from_str(name), callback));
        proof {
            assert(self@ =~= before.push((name@, callback@)));
            lemma_push_keeps_wf(before, name@, callback@);
        }
        Ok(())
    }

    /// The method registered under `name`.
    pub fn method(&self, name: &str) -> (r: Option<&MethodCallback<H>>)
        requires
            self.wf(),
        ensures
            match r {
                Some(c) => lookup(self@, name@) == Some(c@),
                None => lookup(self@, name@) is None,
            },
    {
        match self.find(name) {
            Some(i) => Some(&self.callbacks[i].1),
            None => None,
        }
    }

    /// The method registered under `name`, with the name as the registry holds it.
    pub fn method_with_name(&self, name: &str) -> (r: Option<(&String, &MethodCallback<H>)>)
        requires
            self.wf(),
        ensures
            match r {
                Some(p) => p.0@ == name@ && lookup(self@, name@) == Some(p.1@),
                None => lookup(self@, name@) is None,
            },
    {
        match self.find(name) {
            Some(i) => Some((&self.callbacks[i].0, &self.callbacks[i].1)),
            None => None,
        }
    }

    /// Binds every method that is not bound yet to `pool`: each declared label
    /// is looked up in the pool, and the method gets a dense vector of units.
    /// Methods bound already stay as they are, so a second call changes nothing.
    /// Fails with `ResourceNameNotFoundForMethod`, naming the first unknown label
    /// of the first method that has one.
    pub fn initialize_resources(self, pool: &Resources) -> (r: Result<Self, Error>)
        requires
            self.wf(),
            pool.wf(),
        ensures
            r is Ok <==> all_bindable(pool@, self@),
            match r {
                Ok(m) => m.wf() && m@ == bound_all(pool@, self@),
                Err(Error::ResourceNameNotFoundForMethod(l, n)) => exists|i: int|
                    #[trigger] first_unbindable(pool@, self@, i) && n@ == self@[i].0 && (match self@[i].1.resources {
                        ResourcesModel::Uninitialized(d) => exists|k: int|
                            #[trigger] first_unknown(pool@, d, k) && l@ == d[k].0,
                        ResourcesModel::Initialized(_) => false,
                    }),
                Err(_) => false,
            },
    {
        let ghost orig = self@;
        let mut this = self;
        let n = this.callbacks.len();
        let mut i: usize = 0;
        while i < n
            invariant
                pool.wf(),
                registry_wf(orig),
                orig == self@,
                n == orig.len(),
                i <= n,
                this@.len() == n,
                this.callbacks@.len() == n,
                forall|j: int| 0 <= j < i ==> bindable(pool@, #[trigger] orig[j].1),
                forall|j: int| 0 <= j < i ==> #[trigger] this@[j] == (orig[j].0, bound(pool@, orig[j].1)),
                forall|j: int| i <= j < n ==> #[trigger] this@[j] == orig[j],
            decreases n - i,
        {
            assert(this@[i as int] == orig[i as int]);
            let bound_now: Option<Vec<u16>> = match this.callbacks[i].1.resources() {
                MethodResources::Uninitialized(d) => {
                    match bind_units(pool, d, &this.callbacks[i].0) {
                        Ok(u) => Some(u),
                        Err(e) => {
                            proof {
                                assert(orig[i as int].1.resources == ResourcesModel::Uninitialized(decl_model(d@)));
                                assert(!labels_known(pool@, decl_model(d@)));
                                assert(!bindable(pool@, orig[i as int].1));
                                assert(first_unbindable(pool@, orig, i as int));
                                assert(!all_bindable(pool@, orig));
                            }
                            return Err(e);
                        },
                    }
                },
                MethodResources::Initialized(_) => None,
            };
            match bound_now {
                Some(u) => {
                    let ghost pre = this@;
                    this.callbacks[i].1.set_initialized(u);
                    proof {
                        assert(this@ =~= pre.update(
                            i as int,
                            (pre[i as int].0, CallbackModel { kind: pre[i as int].1.kind, resources: ResourcesModel::Initialized(u@) }),
                        ));
                    }
                },
                None => {},
            }
            assert(this@[i as int] == (orig[i as int].0, bound(pool@, orig[i as int].1)));
            i = i + 1;
        }
        proof {
            assert(this@ =~= bound_all(pool@, orig));
            assert(names_of(this@) =~= names_of(orig));
        }
        Ok(this)
    }

    /// Moves every method of `other` into `self`. All names of `other` are
    /// checked first: if one is registered already, nothing changes and the
    /// first such name is reported as `MethodAlreadyRegistered`.
    pub fn merge(&mut self, mut other: Methods<H>) -> (r: Result<(), Error>)
        requires
            old(self).wf(),
            other.wf(),
        ensures
            final(self).wf(),
            r is Ok <==> disjoint(old(self)@, other@),
            r is Ok ==> final(self)@ == old(self)@ + other@,
            match r {
                Err(Error::MethodAlreadyRegistered(n)) => *final(self) == *old(self) && exists|k: int|
                    #[trigger] first_clash(old(self)@, other@, k) && n@ == other@[k].0,
                Err(_) => false,
                Ok(_) => true,
            },
    {
        let mut k: usize = 0;
        while k < other.callbacks.len()
            invariant
                self.wf(),
                *self == *old(self),
                k <= other@.len(),
                other@.len() == other.callbacks@.len(),
                forall|j: int| 0 <= j < k ==> !has_name(self@, #[trigger] other@[j].0),
            decreases other@.len() - k,
        {
            assert(other@[k as int].0 == other.callbacks@[k as int].0@);
            let checked = self.verify_method_name(other.callbacks[k].0.as_str());
            if checked.is_err() {
                proof {
                    assert(has_name(self@, other@[k as int].0));
                    assert(first_clash(self@, other@, k as int));
                    assert(!disjoint(self@, other@));
                }
                return checked;
            }
            k = k + 1;
        }
        let ghost before = self@;
        let ghost added = other@;
        self.callbacks.append(&mut other.callbacks);
        proof {
            assert(self@ =~= before + added);
            lemma_concat_keeps_wf(before, added);
        }
        Ok(())
    }

    /// Sets the resources that `builder` declared on its method, which then
    /// waits for the next binding. Nothing changes if the method is not registered.
    pub fn apply_resources(&mut self, builder: MethodResourcesBuilder)
        requires
            old(self).wf(),
        ensures
            final(self).wf(),
            names_of(final(self)@) == names_of(old(self)@),
            match lookup(old(self)@, builder.method_spec()) {
                None => *final(self) == *old(self),
                Some(cb) => final(self)@ == old(self)@.update(
                    names_of(old(self)@).index_of(builder.method_spec()),
                    (
                        builder.method_spec(),
                        CallbackModel {
                            kind: cb.kind,
                            resources: ResourcesModel::Uninitialized(builder.decl()),
                        },
                    ),
                ),
            },
    {
        let ghost before = self@;
        let (name, decl) = builder.into_parts();
        match self.find(name.as_str()) {
            None => {},
            Some(i) => {
                self.callbacks[i].1.set_declared(decl);
                proof {
                    assert(names_of(self@) =~= names_of(before));
                }
            },
        }
    }
    /// Resolves a call to `name`: the method, or else the "method not found"
    /// error response to request `id` (JSON text), and no handler runs.
    pub fn route(&self, name: &str, id: &str) -> (r: Result<&MethodCallback<H>, String>)
        requires
            self.wf(),
        ensures
            match r {
                Ok(c) => lookup(self@, name@) == Some(c@),
                Err(resp) => lookup(self@, name@) is None && resp@ == not_found_response(id@),
            },
    {
        match self.method(name) {
            Some(c) => Ok(c),
            None => Err(method_not_found_response(id)),
        }
    }

    /// Resolves a call to `name` and claims the resources it needs from `pool`.
    /// Fails with `MethodNotFound` for an unknown name; otherwise as
    /// `MethodCallback::claim`. The pool changes only on success.
    pub fn prepare_call(&self, name: &str, pool: &mut Resources) -> (r: Result<(&MethodCallback<H>, ResourceGuard), Error>)
        requires
            self.wf(),
            old(pool).wf(),
        ensures
            final(pool).wf(),
            match lookup(self@, name@) {
                None => (match r {
                    Err(Error::MethodNotFound(n)) => n@ == name@,
                    _ => false,
                }) && final(pool)@ == old(pool)@,
                Some(cb) => (r is Ok <==> claim_allowed(cb, old(pool)@)) && match r {
                    Ok(p) => p.0@ == cb && match cb.resources {
                        ResourcesModel::Initialized(u) => p.1@ == old(pool)@.claimed_units(u) && final(pool)@
                            == old(pool)@.after_claim(u),
                        ResourcesModel::Uninitialized(_) => false,
                    },
                    Err(_) => final(pool)@ == old(pool)@,
                },
            },
    {
        match self.method(name) {
            None => Err(Error::MethodNotFound(String::from_str(name))),
            Some(c) => match c.claim(name, pool) {
                Ok(g) => Ok((c, g)),
                Err(e) => Err(e),
            },
        }
    }

    /// All registered names, in the order they were added.
    pub fn method_names(&self) -> (r: Vec<String>)
        ensures
            r@.map_values(|s: String| s@) == names_of(self@),
    {
        let mut r: Vec<String> = Vec::new();
        let mut i: usize = 0;
        while i < self.callbacks.len()
            invariant
                i <= self@.len(),
                self@.len() == self.callbacks@.len(),
                r@.len() == i,
                forall|j: int| 0 <= j < i ==> (#[trigger] r@[j])@ == self@[j].0,
            decreases self@.len() - i,
        {
            r.push(self.callbacks[i].0.clone());
            i = i + 1;
        }
        proof {
            assert(r@.map_values(|s: String| s@) =~= names_of(self@));
        }
        r
    }
}

/// In a sequence without duplicates, `index_of` finds the one place of an element.
pub proof fn lemma_index_of_unique(s: Seq<Seq<char>>, x: Seq<char>, i: int)
    requires
        s.no_duplicates(),
        0 <= i < s.len(),
        s[i] == x,
    ensures
        s.index_of(x) == i,
{
    assert(s.contains(x));
    let k = s.index_of(x);
    assert(s[k] == x);
}

impl<H: Clone> Methods<H> {
    /// Registers `alias` for the method `existing`: a copy of its entry as it
    /// is now. Fails with `MethodAlreadyRegistered` if `alias` is taken, else
    /// with `MethodNotFound` if `existing` is not registered.
    pub fn register_alias(&mut self, alias: &str, existing: &str) -> (r: Result<(), Error>)
        requires
            old(self).wf(),
        ensures
            final(self).wf(),
            r is Ok <==> !has_name(old(self)@, alias@) && has_name(old(self)@, existing@),
            r is Ok ==> final(self)@ == old(self)@.push((alias@, lookup(old(self)@, existing@)->Some_0)),
            match r {
                Err(Error::MethodAlreadyRegistered(n)) => n@ == alias@ && has_name(old(self)@, alias@)
                    && *final(self) == *old(self),
                Err(Error::MethodNotFound(n)) => n@ == existing@ && !has_name(old(self)@, alias@)
                    && *final(self) == *old(self),
                Err(_) => false,
                Ok(_) => true,
            },
    {
        self.verify_method_name(alias)?;
        let copy = match self.find(existing) {
            Some(i) => self.callbacks[i].1.duplicate(),
            None => {
                return Err(Error::MethodNotFound(String::from_str(existing)));
            },
        };
        let ghost before = self@;
        self.callbacks.push((String::from_str(alias), copy));
        proof {
            assert(self@ =~= before.push((alias@, copy@)));
            lemma_push_keeps_wf(before, alias@, copy@);
        }
        Ok(())
    }
}

/// Two registries with no name in common join into one without duplicates.
pub proof fn lemma_concat_keeps_wf(a: Seq<(Seq<char>, CallbackModel)>, b: Seq<(Seq<char>, CallbackModel)>)
    requires
        registry_wf(a),
        registry_wf(b),
        disjoint(a, b),
    ensures
        registry_wf(a + b),
        names_of(a + b) == names_of(a) + names_of(b),
{
    let na = names_of(a);
    let nb = names_of(b);
    assert(names_of(a + b) =~= na + nb);
    assert forall|i: int, j: int| 0 <= i < (na + nb).len() && 0 <= j < (na + nb).len() && i != j implies
        (na + nb)[i] != (na + nb)[j] by {
        if i < na.len() && j >= na.len() {
            assert(!has_name(a, b[j - na.len()].0));
            assert(na[i] == (na + nb)[i]);
        } else if j < na.len() && i >= na.len() {
            assert(!has_name(a, b[i - na.len()].0));
            assert(na[j] == (na + nb)[j]);
        }
    }
}

/// Adding a name that is not there keeps the names unique.
pub proof fn lemma_push_keeps_wf(s: Seq<(Seq<char>, CallbackModel)>, name: Seq<char>, cb: CallbackModel)
    requires
        registry_wf(s),
        !has_name(s, name),
    ensures
        registry_wf(s.push((name, cb))),
        names_of(s.push((name, cb))) == names_of(s).push(name),
{
    assert(names_of(s.push((name, cb))) =~= names_of(s).push(name));
}

} // verus!
