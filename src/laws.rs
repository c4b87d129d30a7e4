use vstd::prelude::*;

use crate::json::{CloseReasonModel, notification};
use crate::methods::{CallbackModel, claim_allowed};
use crate::registry::{bound_all, disjoint, has_name, lookup, names_of, registry_wf};
use crate::resources::PoolModel;
use crate::subscription::{
    KeyModel, PipeEventModel, PipeStepModel, SinkModel, close_message, close_output, has_key, keys_of,
    lemma_without_key, no_reason, pipe_next, with_entry, without_key,
};

verus! {

/// Once `name` is registered, registering it again is refused (the name is
/// taken), and the name still leads to the handler first registered.
pub proof fn lemma_register_twice(m: Seq<(Seq<char>, CallbackModel)>, name: Seq<char>, cb: CallbackModel)
    requires
        registry_wf(m),
        !has_name(m, name),
    ensures
        has_name(m.push((name, cb)), name),
        lookup(m.push((name, cb)), name) == Some(cb),
{
    let m2 = m.push((name, cb));
    assert(names_of(m2) =~= names_of(m).push(name));
    let i = m.len() as int;
    assert(names_of(m2)[i] == name);
    assert(names_of(m2).contains(name));
    let k = names_of(m2).index_of(name);
    if k != i {
        assert(names_of(m)[k] == name);
        assert(names_of(m).contains(name));
    }
}

/// Two registries with no name in common merge into one that holds the
/// union of their names, each leading to the method it led to before.
pub proof fn lemma_merge_union(a: Seq<(Seq<char>, CallbackModel)>, b: Seq<(Seq<char>, CallbackModel)>)
    requires
        registry_wf(a),
        registry_wf(b),
        disjoint(a, b),
    ensures
        registry_wf(a + b),
        names_of(a + b).to_set() == names_of(a).to_set().union(names_of(b).to_set()),
        forall|n: Seq<char>| #[trigger] lookup(a + b, n) == if has_name(a, n) { lookup(a, n) } else { lookup(b, n) },
{
    crate::registry::lemma_concat_keeps_wf(a, b);
    let na = names_of(a);
    let nb = names_of(b);
    assert(names_of(a + b) == na + nb);
    assert((na + nb).to_set() =~= na.to_set().union(nb.to_set())) by {
        assert forall|x: Seq<char>| (na + nb).to_set().contains(x) <==> na.to_set().union(nb.to_set()).contains(x) by {
            if (na + nb).contains(x) {
                let i = choose|i: int| 0 <= i < (na + nb).len() && (na + nb)[i] == x;
                if i < na.len() {
                    assert(na[i] == x);
                } else {
                    assert(nb[i - na.len()] == x);
                }
            }
            if na.contains(x) {
                let i = choose|i: int| 0 <= i < na.len() && na[i] == x;
                assert((na + nb)[i] == x);
            }
            if nb.contains(x) {
                let i = choose|i: int| 0 <= i < nb.len() && nb[i] == x;
                assert((na + nb)[i + na.len()] == x);
            }
        }
    }
    assert forall|n: Seq<char>| #[trigger] lookup(a + b, n) == if has_name(a, n) { lookup(a, n) } else { lookup(b, n) } by {
        let ab = a + b;
        if has_name(a, n) {
            let i = na.index_of(n);
            assert(na[i] == n);
            assert(names_of(ab)[i] == n);
            crate::registry::lemma_index_of_unique(names_of(ab), n, i);
            assert(ab[i] == a[i]);
        } else if has_name(b, n) {
            let j = nb.index_of(n);
            assert(nb[j] == n);
            assert(names_of(ab)[j + na.len()] == n);
            crate::registry::lemma_index_of_unique(names_of(ab), n, j + na.len());
            assert(ab[j + na.len()] == b[j]);
        } else {
            if names_of(ab).contains(n) {
                let i = choose|i: int| 0 <= i < names_of(ab).len() && names_of(ab)[i] == n;
                if i < na.len() {
                    assert(na[i] == n);
                } else {
                    assert(nb[i - na.len()] == n);
                }
            }
        }
    }
}

/// A method that has not been bound to a pool cannot claim; once bound, a
/// claim succeeds exactly when the pool has room for its units.
pub proof fn lemma_claim_needs_binding(s: Seq<(Seq<char>, CallbackModel)>, pool: PoolModel, i: int)
    requires
        0 <= i < s.len(),
    ensures
        s[i].1.resources is Uninitialized ==> !claim_allowed(s[i].1, pool),
        bound_all(pool, s)[i].1.resources is Initialized,
        claim_allowed(bound_all(pool, s)[i].1, pool) == pool.fits(
            bound_all(pool, s)[i].1.resources->Initialized_0,
        ),
{
}

/// A slot of capacity zero never blocks a claim, whatever it asks of it, and
/// a claim leaves its count at zero.
pub proof fn lemma_unlimited_slot(pool: PoolModel, units: Seq<u16>, i: int, k: int)
    requires
        pool.wf(),
        0 <= i < pool.len(),
        pool.capacities[i] == 0,
    ensures
        pool.slot_fits(units, i),
        pool.first_blocked(units, k) ==> k != i,
        pool.after_claim(units).used[i] == 0,
{
}

/// After a subscription is recorded, unsubscribing finds it once: the first
/// unsubscribe finds its key, and afterwards the key is gone, so a second
/// finds nothing.
pub proof fn lemma_unsubscribe_once<T>(t: Seq<(KeyModel, T)>, k: KeyModel, entry: T)
    requires
        keys_of(t).no_duplicates(),
    ensures
        has_key(with_entry(t, k, entry), k),
        !has_key(without_key(with_entry(t, k, entry), k), k),
        without_key(without_key(with_entry(t, k, entry), k), k) == without_key(with_entry(t, k, entry), k),
{
    let t1 = with_entry(t, k, entry);
    if has_key(t, k) {
        let i = keys_of(t).index_of(k);
        assert(keys_of(t)[i] == k);
        assert(keys_of(t1) =~= keys_of(t).update(i, k));
        assert(keys_of(t1)[i] == k);
    } else {
        assert(keys_of(t1) =~= keys_of(t).push(k));
        assert(keys_of(t1)[t.len() as int] == k);
    }
    lemma_without_key(t1, k);
}

/// Dropping a live sink without a close takes its entry out and sends exactly
/// one close notification, with the generic reason; any close after that
/// sends nothing.
pub proof fn lemma_drop_closes_once<T>(s: SinkModel, t: Seq<(KeyModel, T)>, later: Option<CloseReasonModel>)
    requires
        keys_of(t).no_duplicates(),
        has_key(t, s.key),
    ensures
        close_output(s, t, Some(no_reason())) == Some(close_message(s, no_reason())),
        !has_key(without_key(t, s.key), s.key),
        close_output(SinkModel { active: false, ..s }, without_key(t, s.key), later) is None,
{
    lemma_without_key(t, s.key);
}

/// The steps of the stream-bridging loop over `items` with no cancellation,
/// followed by the end of the stream.
pub open spec fn pipe_items<T>(s: SinkModel, t: Seq<(KeyModel, T)>, items: Seq<Seq<char>>) -> Seq<PipeStepModel>
    decreases items.len(),
{
    if items.len() == 0 {
        seq![pipe_next(s, t, PipeEventModel::StreamEnded, false, false).0]
    } else {
        let next = pipe_next(s, t, PipeEventModel::Item(items[0]), false, false);
        seq![next.0] + pipe_items(next.1, next.2, items.drop_first())
    }
}

/// With no cancellation, a live sink delivers each item of a finite stream,
/// in order, then stops without a close message.
pub proof fn lemma_pipe_delivers_in_order<T>(s: SinkModel, t: Seq<(KeyModel, T)>, items: Seq<Seq<char>>)
    requires
        s.active,
    ensures
        pipe_items(s, t, items) == items.map_values(
            |x: Seq<char>| PipeStepModel::Deliver(notification(s.method, s.key.sub_id, x)),
        ).push(PipeStepModel::Finished(None)),
    decreases items.len(),
{
    if items.len() > 0 {
        lemma_pipe_delivers_in_order(s, t, items.drop_first());
        let f = |x: Seq<char>| PipeStepModel::Deliver(notification(s.method, s.key.sub_id, x));
        assert(items.map_values(f).push(PipeStepModel::Finished(None)) =~= seq![f(items[0])]
            + items.drop_first().map_values(f).push(PipeStepModel::Finished(None)));
    } else {
        assert(items.map_values(|x: Seq<char>| PipeStepModel::Deliver(notification(s.method, s.key.sub_id, x))).push(
            PipeStepModel::Finished(None),
        ) =~= seq![PipeStepModel::Finished(None)]);
    }
}

/// A disconnect stops the loop with the close notification carrying
/// `ConnectionReset` (if the subscription was live), and after it no item is
/// delivered.
pub proof fn lemma_pipe_stops_on_disconnect<T>(
    s: SinkModel,
    t: Seq<(KeyModel, T)>,
    item: Seq<char>,
    closed: bool,
    unsubscribed: bool,
)
    requires
        keys_of(t).no_duplicates(),
    ensures
        ({
            let after = pipe_next(s, t, PipeEventModel::Disconnected, false, false);
            &&& after.0 == PipeStepModel::Finished(close_output(s, t, Some(CloseReasonModel::ConnectionReset)))
            &&& has_key(t, s.key) ==> after.0 == PipeStepModel::Finished(
                Some(close_message(s, CloseReasonModel::ConnectionReset)),
            )
            &&& !(pipe_next(after.1, after.2, PipeEventModel::Item(item), closed, unsubscribed).0 is Deliver)
        }),
{
}

} // verus!
