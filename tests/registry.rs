use rpc_registry::error::Error;
use rpc_registry::json::response_json;
use rpc_registry::methods::{MethodCallback, MethodKind, MethodResources, MethodResourcesBuilder};
use rpc_registry::module::RpcModule;
use rpc_registry::registry::Methods;
use rpc_registry::resources::{Resources, MAX_RESOURCES};

type Handler = fn(&str) -> String;

fn echo(params: &str) -> String {
    params.trim_start_matches('[').trim_end_matches(']').to_string()
}

fn answer(_: &str) -> String {
    "42".to_string()
}

fn run(cb: &MethodCallback<Handler>, params: &str) -> String {
    let h = cb.inner().handler();
    h(params)
}

#[test]
fn register_twice_keeps_first_handler() {
    let mut module: RpcModule<(), Handler> = RpcModule::new(());
    assert!(module.register_method("m", echo).is_ok());
    let err = module.register_method("m", answer).err().unwrap();
    assert_eq!(err, Error::MethodAlreadyRegistered("m".to_string()));
    let cb = module.methods().method("m").unwrap();
    assert_eq!(run(cb, "[5]"), "5");
    assert!(matches!(cb.inner(), MethodKind::Sync(_)));
}

#[test]
fn merge_disjoint_gives_union() {
    let mut a: RpcModule<(), Handler> = RpcModule::new(());
    a.register_method("a1", echo).unwrap();
    a.register_async_method("a2", echo).unwrap();
    let mut b: RpcModule<(), Handler> = RpcModule::new(());
    b.register_blocking_method("b1", answer).unwrap();
    assert!(a.merge(b.into_methods()).is_ok());
    let names = a.methods().method_names();
    assert_eq!(names, vec!["a1".to_string(), "a2".to_string(), "b1".to_string()]);
    assert_eq!(run(a.methods().method("b1").unwrap(), "[]"), "42");
    assert!(matches!(a.methods().method("a2").unwrap().inner(), MethodKind::Async(_)));
}

#[test]
fn merge_overlap_changes_nothing() {
    let mut a: Methods<Handler> = Methods::new();
    a.verify_and_insert("x", MethodCallback::new_sync(echo)).unwrap();
    a.verify_and_insert("y", MethodCallback::new_sync(echo)).unwrap();
    let mut b: Methods<Handler> = Methods::new();
    b.verify_and_insert("z", MethodCallback::new_sync(answer)).unwrap();
    b.verify_and_insert("y", MethodCallback::new_sync(answer)).unwrap();
    b.verify_and_insert("x", MethodCallback::new_sync(answer)).unwrap();
    let err = a.merge(b).unwrap_err();
    assert_eq!(err, Error::MethodAlreadyRegistered("y".to_string()));
    assert_eq!(a.method_names(), vec!["x".to_string(), "y".to_string()]);
    assert!(a.method("z").is_none());
    assert_eq!(run(a.method("y").unwrap(), "[1]"), "1");
}

#[test]
fn alias_shares_handler_and_checks_names() {
    let mut m: RpcModule<u32, Handler> = RpcModule::new(7);
    m.register_method("echo", echo).unwrap();
    assert!(m.register_alias("say", "echo").is_ok());
    assert_eq!(run(m.methods().method("say").unwrap(), "[3]"), "3");
    assert_eq!(m.register_alias("say", "echo"), Err(Error::MethodAlreadyRegistered("say".to_string())));
    assert_eq!(m.register_alias("other", "missing"), Err(Error::MethodNotFound("missing".to_string())));
    assert_eq!(**m.context(), 7);
}

#[test]
fn subscription_names_are_checked() {
    let mut m: RpcModule<(), Handler> = RpcModule::new(());
    assert_eq!(
        m.register_subscription("s", "s", echo, echo),
        Err(Error::SubscriptionNameConflict("s".to_string()))
    );
    m.register_method("taken", echo).unwrap();
    assert_eq!(
        m.register_subscription("sub", "taken", echo, echo),
        Err(Error::MethodAlreadyRegistered("taken".to_string()))
    );
    assert!(m.methods().method("sub").is_none());
    assert!(m.register_subscription("sub", "unsub", echo, answer).is_ok());
    assert!(matches!(m.methods().method("unsub").unwrap().inner(), MethodKind::Subscription(_)));
    let m = m.remove_context();
    assert_eq!(m.methods().method_names().len(), 3);
}

#[test]
fn claim_before_initialization_fails() {
    let mut pool = Resources::new();
    pool.register("cpu", 4, 1).unwrap();
    let mut m: RpcModule<(), Handler> = RpcModule::new(());
    let b = m.register_method("work", echo).unwrap().resource("cpu", 3).unwrap();
    m.apply_resources(b);
    let methods = m.into_methods();
    let cb = methods.method("work").unwrap();
    assert!(matches!(cb.resources(), MethodResources::Uninitialized(_)));
    assert_eq!(cb.claim("work", &mut pool).err().unwrap(), Error::UninitializedMethod("work".to_string()));
    let methods = methods.initialize_resources(&pool).unwrap();
    let cb = methods.method("work").unwrap();
    match cb.resources() {
        MethodResources::Initialized(u) => assert_eq!(u, &vec![3u16]),
        _ => panic!("not bound"),
    }
    let g = cb.claim("work", &mut pool).unwrap();
    assert_eq!(pool.used(0), 3);
    assert_eq!(cb.claim("work", &mut pool).err().unwrap(), Error::ResourceAtCapacity("cpu".to_string()));
    pool.release(g);
    assert_eq!(pool.used(0), 0);
}

#[test]
fn initialization_is_idempotent_and_uses_defaults() {
    let mut pool = Resources::new();
    pool.register("cpu", 10, 1).unwrap();
    pool.register("mem", 10, 2).unwrap();
    let mut m: RpcModule<(), Handler> = RpcModule::new(());
    let b = m.register_method("a", echo).unwrap().resource("mem", 5).unwrap();
    m.apply_resources(b);
    m.register_method("b", echo).unwrap();
    let methods = m.into_methods().initialize_resources(&pool).unwrap();
    let again = methods.initialize_resources(&pool).unwrap();
    match again.method("a").unwrap().resources() {
        MethodResources::Initialized(u) => assert_eq!(u, &vec![1u16, 5]),
        _ => panic!("not bound"),
    }
    match again.method("b").unwrap().resources() {
        MethodResources::Initialized(u) => assert_eq!(u, &vec![1u16, 2]),
        _ => panic!("not bound"),
    }
}

#[test]
fn unknown_resource_label_fails_initialization() {
    let mut pool = Resources::new();
    pool.register("cpu", 10, 0).unwrap();
    let mut m: RpcModule<(), Handler> = RpcModule::new(());
    m.register_method("fine", echo).unwrap();
    let b = m.register_method("bad", echo).unwrap().resource("cpu", 1).unwrap().resource("gpu", 1).unwrap();
    m.apply_resources(b);
    let err = m.into_methods().initialize_resources(&pool).err().unwrap();
    assert_eq!(err, Error::ResourceNameNotFoundForMethod("gpu".to_string(), "bad".to_string()));
}

#[test]
fn too_many_resources_declared() {
    let mut b = MethodResourcesBuilder::new("m");
    for i in 0..MAX_RESOURCES {
        b = b.resource(&format!("r{}", i), 1).unwrap();
    }
    assert_eq!(b.resource("extra", 1).err().unwrap(), Error::MaxResourcesReached);
}

#[test]
fn echo_call_answers_seven() {
    let mut m: RpcModule<(), Handler> = RpcModule::new(());
    m.register_method("echo", echo).unwrap();
    let cb = m.methods().route("echo", "0").unwrap();
    let result = run(cb, "[7]");
    assert_eq!(result, "7");
    assert_eq!(response_json("0", &result), r#"{"jsonrpc":"2.0","result":7,"id":0}"#);
}

#[test]
fn unknown_method_yields_method_not_found() {
    let mut m: RpcModule<(), Handler> = RpcModule::new(());
    m.register_method("echo", echo).unwrap();
    let resp = m.methods().route("nope", "0").err().unwrap();
    assert_eq!(resp, r#"{"jsonrpc":"2.0","error":{"code":-32601,"message":"Method not found"},"id":0}"#);
    let mut pool = Resources::new();
    let err = m.methods().prepare_call("nope", &mut pool).err().unwrap();
    assert_eq!(err, Error::MethodNotFound("nope".to_string()));
    assert_eq!(pool.len(), 0);
}

#[test]
fn slow_method_holds_the_pool_one_at_a_time() {
    let mut pool = Resources::new();
    pool.register("cpu", 2, 0).unwrap();
    let mut m: RpcModule<(), Handler> = RpcModule::new(());
    let b = m.register_method("slow", echo).unwrap().resource("cpu", 2).unwrap();
    m.apply_resources(b);
    let methods = m.into_methods().initialize_resources(&pool).unwrap();
    let (_, first) = methods.prepare_call("slow", &mut pool).unwrap();
    assert_eq!(first.units(), &vec![2u16]);
    let err = methods.prepare_call("slow", &mut pool).err().unwrap();
    assert_eq!(err, Error::ResourceAtCapacity("cpu".to_string()));
    pool.release(first);
    let (_, second) = methods.prepare_call("slow", &mut pool).unwrap();
    assert_eq!(pool.used(0), 2);
    pool.release(second);
}
