use std::sync::Arc;

use vstd::prelude::*;
use vstd::string::StringExecFns;

use crate::error::Error;
use crate::methods::{CallbackModel, Kind, MethodCallback, MethodResourcesBuilder, ResourcesModel};
use crate::registry::{Methods, disjoint, first_clash, has_name, lookup, names_of};

verus! {

/// A registry bound to a shared context that every handler may read. The
/// context is fixed when the module is made.
pub struct RpcModule<Context, H> {
    ctx: Arc<Context>,
    methods: Methods<H>,
}

/// A freshly registered method of kind `kind`, with nothing declared.
pub open spec fn fresh(kind: Kind) -> CallbackModel {
    CallbackModel { kind, resources: ResourcesModel::Uninitialized(seq![]) }
}

impl<Context, H> RpcModule<Context, H> {
    /// The registry's entries.
    pub closed spec fn entries(&self) -> Seq<(Seq<char>, CallbackModel)> {
        self.methods@
    }

    pub closed spec fn wf(&self) -> bool {
        self.methods.wf()
    }

    /// A module with no methods around `ctx`.
    pub fn new(ctx: Context) -> (r: Self)
        ensures
            r.wf(),
            r.entries() == Seq::<(Seq<char>, CallbackModel)>::empty(),
    {
        RpcModule { ctx: Arc::new(ctx), methods: Methods::new() }
    }

    /// The shared context.
    pub fn context(&self) -> &Arc<Context> {
        &self.ctx
    }

    /// The registry.
    pub fn methods(&self) -> (r: &Methods<H>)
        requires
            self.wf(),
        ensures
            r.wf(),
            r@ == self.entries(),
    {
        &self.methods
    }

    /// The registry, without the context.
    pub fn into_methods(self) -> (r: Methods<H>)
        requires
            self.wf(),
        ensures
            r.wf(),
            r@ == self.entries(),
    {
        self.methods
    }

    /// The same methods in a module with the unit context.
    pub fn remove_context(self) -> (r: RpcModule<(), H>)
        requires
            self.wf(),
        ensures
            r.wf(),
            r.entries() == self.entries(),
    {
        RpcModule { ctx: Arc::new(()), methods: self.methods }
    }

    fn register_kind(&mut self, name: &str, callback: MethodCallback<H>) -> (r: Result<MethodResourcesBuilder, Error>)
        requires
            old(self).wf(),
        ensures
            final(self).wf(),
            r is Ok <==> !has_name(old(self).entries(), name@),
            match r {
                Ok(b) => final(self).entries() == old(self).entries().push((name@, callback@)) && b.method_spec()
                    == name@ && b.decl() == Seq::<(Seq<char>, u16)>::empty(),
                Err(Error::MethodAlreadyRegistered(n)) => n@ == name@ && *final(self) == *old(self),
                Err(_) => false,
            },
    {
        self.methods.verify_and_insert(name, callback)?;
        Ok(MethodResourcesBuilder::new(name))
    }

    /// Registers a handler that runs inline. Fails with
    /// `MethodAlreadyRegistered` if the name is taken, leaving the module as it was.
    /// The builder it returns declares the method's resources.
    pub fn register_method(&mut self, name: &str, handler: H) -> (r: Result<MethodResourcesBuilder, Error>)
        requires
            old(self).wf(),
        ensures
            final(self).wf(),
            r is Ok <==> !has_name(old(self).entries(), name@),
            match r {
                Ok(b) => final(self).entries() == old(self).entries().push((name@, fresh(Kind::Sync)))
                    && b.method_spec() == name@ && b.decl() == Seq::<(Seq<char>, u16)>::empty(),
                Err(Error::MethodAlreadyRegistered(n)) => n@ == name@ && *final(self) == *old(self),
                Err(_) => false,
            },
    {
        self.register_kind(name, MethodCallback::new_sync(handler))
    }

    /// Registers a handler that runs as a suspended computation; as `register_method` otherwise.
    pub fn register_async_method(&mut self, name: &str, handler: H) -> (r: Result<MethodResourcesBuilder, Error>)
        requires
            old(self).wf(),
        ensures
            final(self).wf(),
            r is Ok <==> !has_name(old(self).entries(), name@),
            match r {
                Ok(b) => final(self).entries() == old(self).entries().push((name@, fresh(Kind::Async)))
                    && b.method_spec() == name@ && b.decl() == Seq::<(Seq<char>, u16)>::empty(),
                Err(Error::MethodAlreadyRegistered(n)) => n@ == name@ && *final(self) == *old(self),
                Err(_) => false,
            },
    {
        self.register_kind(name, MethodCallback::new_async(handler))
    }

    /// Registers a handler that may block; it is run on a thread of its own and
    /// so is kept as an asynchronous method. As `register_method` otherwise.
    pub fn register_blocking_method(&mut self, name: &str, handler: H) -> (r: Result<MethodResourcesBuilder, Error>)
        requires
            old(self).wf(),
        ensures
            final(self).wf(),
            r is Ok <==> !has_name(old(self).entries(), name@),
            match r {
                Ok(b) => final(self).entries() == old(self).entries().push((name@, fresh(Kind::Async)))
                    && b.method_spec() == name@ && b.decl() == Seq::<(Seq<char>, u16)>::empty(),
                Err(Error::MethodAlreadyRegistered(n)) => n@ == name@ && *final(self) == *old(self),
                Err(_) => false,
            },
    {
        self.register_kind(name, MethodCallback::new_async(handler))
    }

    /// Registers a subscription: `subscribe` under `sub_name` starts one and
    /// `unsubscribe` under `unsub_name` ends one. Fails with
    /// `SubscriptionNameConflict` if the two names are equal, else with
    /// `MethodAlreadyRegistered` for the first name that is taken; on failure
    /// nothing is registered.
    pub fn register_subscription(
        &mut self,
        sub_name: &str,
        unsub_name: &str,
        subscribe: H,
        unsubscribe: H,
    ) -> (r: Result<(), Error>)
        requires
            old(self).wf(),
        ensures
            final(self).wf(),
            r is Ok <==> sub_name@ != unsub_name@ && !has_name(old(self).entries(), sub_name@) && !has_name(
                old(self).entries(),
                unsub_name@,
            ),
            r is Ok ==> final(self).entries() == old(self).entries().push(
                (sub_name@, fresh(Kind::Subscription)),
            ).push((unsub_name@, fresh(Kind::Subscription))),
            match r {
                Err(Error::SubscriptionNameConflict(n)) => sub_name@ == unsub_name@ && n@ == sub_name@,
                Err(Error::MethodAlreadyRegistered(n)) => sub_name@ != unsub_name@ && (if has_name(
                    old(self).entries(),
                    sub_name@,
                ) {
                    n@ == sub_name@
                } else {
                    n@ == unsub_name@ && has_name(old(self).entries(), unsub_name@)
                }),
                Err(_) => false,
                Ok(_) => true,
            },
            r is Err ==> *final(self) == *old(self),
    {
        let same = String::from_str(sub_name) == String::from_str(unsub_name);
        if same {
            return Err(Error::SubscriptionNameConflict(String::from_str(sub_name)));
        }
        if self.methods.method(sub_name).is_some() {
            return Err(Error::MethodAlreadyRegistered(String::from_str(sub_name)));
        }
        if self.methods.method(unsub_name).is_some() {
            return Err(Error::MethodAlreadyRegistered(String::from_str(unsub_name)));
        }
        let first = self.methods.verify_and_insert(sub_name, MethodCallback::new_subscription(subscribe));
        let second = self.methods.verify_and_insert(unsub_name, MethodCallback::new_subscription(unsubscribe));
        proof {
            assert(first is Ok);
            assert(names_of(old(self).entries().push((sub_name@, fresh(Kind::Subscription)))) =~= names_of(
                old(self).entries(),
            ).push(sub_name@));
        }
        second
    }

    /// Sets the resources that `builder` declared on its method, which then
    /// waits for the next binding. Nothing changes if the method is not registered.
    pub fn apply_resources(&mut self, builder: MethodResourcesBuilder)
        requires
            old(self).wf(),
        ensures
            final(self).wf(),
            match lookup(old(self).entries(), builder.method_spec()) {
                None => final(self).entries() == old(self).entries(),
                Some(cb) => final(self).entries() == old(self).entries().update(
                    names_of(old(self).entries()).index_of(builder.method_spec()),
                    (
                        builder.method_spec(),
                        CallbackModel {
                            kind: cb.kind,
                            resources: ResourcesModel::Uninitialized(builder.decl()),
                        },
                    ),
                ),
            },
    {
        self.methods.apply_resources(builder)
    }

    /// Moves every method of `other` into this module, all or nothing, as `Methods::merge`.
    pub fn merge(&mut self, other: Methods<H>) -> (r: Result<(), Error>)
        requires
            old(self).wf(),
            other.wf(),
        ensures
            final(self).wf(),
            r is Ok <==> disjoint(old(self).entries(), other@),
            r is Ok ==> final(self).entries() == old(self).entries() + other@,
            match r {
                Err(Error::MethodAlreadyRegistered(n)) => *final(self) == *old(self) && exists|k: int| #[trigger] first_clash(old(self).entries(), other@, k) && n@ == other@[k].0,
                Err(_) => false,
                Ok(_) => true,
            },
    {
        self.methods.merge(other)
    }
}

impl<Context, H: Clone> RpcModule<Context, H> {
    /// Registers `alias` for the method `existing`, a copy of it as it is now.
    /// Fails with `MethodAlreadyRegistered` if `alias` is taken, else with
    /// `MethodNotFound` if `existing` is not registered.
    pub fn register_alias(&mut self, alias: &str, existing: &str) -> (r: Result<(), Error>)
        requires
            old(self).wf(),
        ensures
            final(self).wf(),
            r is Ok <==> !has_name(old(self).entries(), alias@) && has_name(old(self).entries(), existing@),
            r is Ok ==> final(self).entries() == old(self).entries().push(
                (alias@, lookup(old(self).entries(), existing@)->Some_0),
            ),
            match r {
                Err(Error::MethodAlreadyRegistered(n)) => n@ == alias@ && has_name(old(self).entries(), alias@)
                    && *final(self) == *old(self),
                Err(Error::MethodNotFound(n)) => n@ == existing@ && !has_name(old(self).entries(), alias@)
                    && *final(self) == *old(self),
                Err(_) => false,
                Ok(_) => true,
            },
    {
        self.methods.register_alias(alias, existing)
    }
}

} // verus!
