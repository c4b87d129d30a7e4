use vstd::prelude::*;
use vstd::string::StringExecFns;

use crate::error::Error;
use crate::resources::{MAX_RESOURCES, PoolModel, ResourceGuard, Resources};

verus! {

/// The kind of a handler, without the handler itself.
#[derive(Debug, Clone, Copy, PartialEq, Eq, Structural)]
pub enum Kind {
    Sync,
    Async,
    Subscription,
}

/// A handler of type `H`, tagged with how it is run.
pub enum MethodKind<H> {
    /// Run inline; it answers before it returns.
    Sync(H),
    /// Run as a suspended computation (also used for blocking handlers, which
    /// are run on a thread of their own).
    Async(H),
    /// Sets up or tears down a subscription.
    Subscription(H),
}

impl<H> MethodKind<H> {
    pub open spec fn kind(&self) -> Kind {
        match self {
            MethodKind::Sync(_) => Kind::Sync,
            MethodKind::Async(_) => Kind::Async,
            MethodKind::Subscription(_) => Kind::Subscription,
        }
    }

    /// The handler.
    pub fn handler(&self) -> (r: &H)
        ensures
            match self {
                MethodKind::Sync(h) => r == h,
                MethodKind::Async(h) => r == h,
                MethodKind::Subscription(h) => r == h,
            },
    {
        match self {
            MethodKind::Sync(h) => h,
            MethodKind::Async(h) => h,
            MethodKind::Subscription(h) => h,
        }
    }
}

/// The resources a method needs, as a model.
pub enum ResourcesModel {
    /// Declared as (label, units) pairs, not yet bound to a pool.
    Uninitialized(Seq<(Seq<char>, u16)>),
    /// Units for each slot of the pool it was bound to.
    Initialized(Seq<u16>),
}

/// The resources a method needs.
pub enum MethodResources {
    /// Declared as (label, units) pairs, not yet bound to a pool.
    Uninitialized(Vec<(String, u16)>),
    /// Units for each slot of the pool it was bound to.
    Initialized(Vec<u16>),
}

pub open spec fn decl_model(d: Seq<(String, u16)>) -> Seq<(Seq<char>, u16)> {
    d.map_values(|p: (String, u16)| (p.0@, p.1))
}

impl View for MethodResources {
    type V = ResourcesModel;

    open spec fn view(&self) -> ResourcesModel {
        match self {
            MethodResources::Uninitialized(d) => ResourcesModel::Uninitialized(decl_model(d@)),
            MethodResources::Initialized(u) => ResourcesModel::Initialized(u@),
        }
    }
}

/// A method as the registry sees it: its kind and its resources.
pub struct CallbackModel {
    pub kind: Kind,
    pub resources: ResourcesModel,
}

/// A handler bound to a method name, with the resources it needs.
pub struct MethodCallback<H> {
    callback: MethodKind<H>,
    resources: MethodResources,
}

impl<H> View for MethodCallback<H> {
    type V = CallbackModel;

    closed spec fn view(&self) -> CallbackModel {
        CallbackModel { kind: self.callback.kind(), resources: self.resources@ }
    }
}

/// Whether a claim for a method of model `cb` succeeds against `pool`.
pub open spec fn claim_allowed(cb: CallbackModel, pool: PoolModel) -> bool {
    match cb.resources {
        ResourcesModel::Uninitialized(_) => false,
        ResourcesModel::Initialized(u) => pool.fits(u),
    }
}

fn clone_decl(d: &Vec<(String, u16)>) -> (r: Vec<(String, u16)>)
    ensures
        decl_model(r@) == decl_model(d@),
{
    let mut r: Vec<(String, u16)> = Vec::new();
    let mut i: usize = 0;
    while i < d.len()
        invariant
            i <= d@.len(),
            r@.len() == i,
            forall|j: int| 0 <= j < i ==> (#[trigger] r@[j]).0@ == d@[j].0@ && r@[j].1 == d@[j].1,
        decreases d@.len() - i,
    {
        let label = d[i].0.clone();
        r.push((label, d[i].1));
        i = i + 1;
    }
    proof {
        assert(decl_model(r@) =~= decl_model(d@));
    }
    r
}

impl MethodResources {
    fn duplicate(&self) -> (r: MethodResources)
        ensures
            r@ == self@,
    {
        match self {
            MethodResources::Uninitialized(d) => MethodResources::Uninitialized(clone_decl(d)),
            MethodResources::Initialized(u) => MethodResources::Initialized(u.clone()),
        }
    }
}

impl<H> MethodCallback<H> {
    /// A handler run inline, with nothing declared.
    pub fn new_sync(callback: H) -> (r: Self)
        ensures
            r@ == (CallbackModel { kind: Kind::Sync, resources: ResourcesModel::Uninitialized(seq![]) }),
    {
        let r = MethodCallback { callback: MethodKind::Sync(callback), resources: MethodResources::Uninitialized(Vec::new()) };
        proof {
            assert(decl_model(Seq::<(String, u16)>::empty()) =~= seq![]);
        }
        r
    }

    /// A handler run as a suspended computation, with nothing declared.
    pub fn new_async(callback: H) -> (r: Self)
        ensures
            r@ == (CallbackModel { kind: Kind::Async, resources: ResourcesModel::Uninitialized(seq![]) }),
    {
        let r = MethodCallback { callback: MethodKind::Async(callback), resources: MethodResources::Uninitialized(Vec::new()) };
        proof {
            assert(decl_model(Seq::<(String, u16)>::empty()) =~= seq![]);
        }
        r
    }

    /// A subscription handler, with nothing declared.
    pub fn new_subscription(callback: H) -> (r: Self)
        ensures
            r@ == (CallbackModel { kind: Kind::Subscription, resources: ResourcesModel::Uninitialized(seq![]) }),
    {
        let r = MethodCallback {
            callback: MethodKind::Subscription(callback),
            resources: MethodResources::Uninitialized(Vec::new()),
        };
        proof {
            assert(decl_model(Seq::<(String, u16)>::empty()) =~= seq![]);
        }
        r
    }

    /// Claims the resources this method needs before it runs. Fails with
    /// `UninitializedMethod` before the method is bound to a pool; after that it
    /// succeeds exactly when the pool has room.
    pub fn claim(&self, name: &str, resources: &mut Resources) -> (r: Result<ResourceGuard, Error>)
        requires
            old(resources).wf(),
        ensures
            final(resources).wf(),
            r is Ok <==> claim_allowed(self@, old(resources)@),
            match self@.resources {
                ResourcesModel::Uninitialized(_) => (match r {
                    Err(Error::UninitializedMethod(n)) => n@ == name@,
                    _ => false,
                }) && final(resources)@ == old(resources)@,
                ResourcesModel::Initialized(u) => match r {
                    Ok(g) => g@ == old(resources)@.claimed_units(u) && final(resources)@ == old(
                        resources,
                    )@.after_claim(u),
                    Err(e) => final(resources)@ == old(resources)@ && exists|k: int|
                        #[trigger] old(resources)@.first_blocked(u, k) && (match e {
                            Error::ResourceAtCapacity(l) => l@ == old(resources)@.labels[k],
                            _ => false,
                        }),
                },
            },
    {
        match &self.resources {
            MethodResources::Uninitialized(_) => Err(Error::UninitializedMethod(String::from_str(name))),
            MethodResources::Initialized(units) => resources.claim(units),
        }
    }

    /// The handler and its kind.
    pub fn inner(&self) -> (r: &MethodKind<H>)
        ensures
            r.kind() == self@.kind,
    {
        &self.callback
    }

    /// The resources this method needs.
    pub fn resources(&self) -> (r: &MethodResources)
        ensures
            r@ == self@.resources,
    {
        &self.resources
    }
}

impl<H> MethodCallback<H> {
    /// Binds the method to a pool: from now on it claims `units`.
    pub(crate) fn set_initialized(&mut self, units: Vec<u16>)
        ensures
            final(self)@ == (CallbackModel { kind: old(self)@.kind, resources: ResourcesModel::Initialized(units@) }),
    {
        self.resources = MethodResources::Initialized(units);
    }

    /// Replaces what the method declares it needs; it is unbound until the next binding.
    pub(crate) fn set_declared(&mut self, decl: Vec<(String, u16)>)
        ensures
            final(self)@ == (CallbackModel {
                kind: old(self)@.kind,
                resources: ResourcesModel::Uninitialized(decl_model(decl@)),
            }),
    {
        self.resources = MethodResources::Uninitialized(decl);
    }
}

/// Collects the resources that a newly registered method needs; handed to
/// `Methods::apply_resources`, it sets them on that method.
pub struct MethodResourcesBuilder {
    method: String,
    build: Vec<(String, u16)>,
}

impl MethodResourcesBuilder {
    /// The method this builder declares resources for.
    pub closed spec fn method_spec(&self) -> Seq<char> {
        self.method@
    }

    /// The (label, units) pairs declared so far.
    pub closed spec fn decl(&self) -> Seq<(Seq<char>, u16)> {
        decl_model(self.build@)
    }

    /// A builder for `method` with nothing declared.
    pub fn new(method: &str) -> (r: Self)
        ensures
            r.method_spec() == method@,
            r.decl() == Seq::<(Seq<char>, u16)>::empty(),
    {
        let r = MethodResourcesBuilder { method: String::from_str(method), build: Vec::new() };
        proof {
            assert(decl_model(r.build@) =~= Seq::<(Seq<char>, u16)>::empty());
        }
        r
    }

    /// The method this builder declares resources for.
    pub fn method(&self) -> (r: &String)
        ensures
            r@ == self.method_spec(),
    {
        &self.method
    }

    /// Declares that the method uses `units` of the resource `label` while it runs.
    /// Fails with `MaxResourcesReached` once the fixed maximum is declared.
    pub fn resource(self, label: &str, units: u16) -> (r: Result<Self, Error>)
        ensures
            self.decl().len() >= MAX_RESOURCES ==> r == Err::<Self, Error>(Error::MaxResourcesReached),
            self.decl().len() < MAX_RESOURCES ==> (match r {
                Ok(b) => b.method_spec() == self.method_spec() && b.decl() == self.decl().push((label@, units)),
                Err(_) => false,
            }),
    {
        let mut this = self;
        if this.build.len() >= MAX_RESOURCES {
            return Err(Error::MaxResourcesReached);
        }
        let ghost before = this.build@;
        this.build.push((String::from_str(label), units));
        proof {
            assert(decl_model(this.build@) =~= decl_model(before).push((label@, units)));
        }
        Ok(this)
    }

    /// The method name and the declared pairs.
    pub fn into_parts(self) -> (r: (String, Vec<(String, u16)>))
        ensures
            r.0@ == self.method_spec(),
            decl_model(r.1@) == self.decl(),
    {
        (self.method, self.build)
    }
}

impl<H: Clone> MethodCallback<H> {
    /// A copy that shares the handler's value, as `Clone` of `H` gives it.
    pub fn duplicate(&self) -> (r: Self)
        ensures
            r@ == self@,
    {
        let callback = match &self.callback {
            MethodKind::Sync(h) => MethodKind::Sync(h.clone()),
            MethodKind::Async(h) => MethodKind::Async(h.clone()),
            MethodKind::Subscription(h) => MethodKind::Subscription(h.clone()),
        };
        MethodCallback { callback, resources: self.resources.duplicate() }
    }
}

} // verus!
