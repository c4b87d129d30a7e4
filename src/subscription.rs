use vstd::prelude::*;
use vstd::string::StringExecFns;

use crate::error::{CloseReason, Error};
use crate::json::{
    CloseReasonModel, SubIdModel, SubscriptionId, close_reason_json, close_reason_model, notification,
    notification_json, reason_json,
};

verus! {

/// Identifies a live subscription: the connection and the subscription id.
pub struct SubscriptionKey {
    pub conn_id: usize,
    pub sub_id: SubscriptionId,
}

pub struct KeyModel {
    pub conn_id: usize,
    pub sub_id: SubIdModel,
}

impl View for SubscriptionKey {
    type V = KeyModel;

    open spec fn view(&self) -> KeyModel {
        KeyModel { conn_id: self.conn_id, sub_id: self.sub_id@ }
    }
}

impl SubscriptionKey {
    /// Whether the two keys are the same.
    pub fn same(&self, other: &SubscriptionKey) -> (r: bool)
        ensures
            r == (self@ == other@),
    {
        self.conn_id == other.conn_id && self.sub_id.same(&other.sub_id)
    }
}

pub open spec fn keys_of<T>(s: Seq<(KeyModel, T)>) -> Seq<KeyModel> {
    s.map_values(|e: (KeyModel, T)| e.0)
}

pub open spec fn has_key<T>(s: Seq<(KeyModel, T)>, k: KeyModel) -> bool {
    keys_of(s).contains(k)
}

/// The table after the entry of `k`, if any, is taken out.
pub open spec fn without_key<T>(s: Seq<(KeyModel, T)>, k: KeyModel) -> Seq<(KeyModel, T)> {
    if has_key(s, k) {
        s.remove(keys_of(s).index_of(k))
    } else {
        s
    }
}

/// The subscribers of one subscription method: an entry of type `T` for each
/// live subscription, at most one per key.
pub struct SubscriptionTable<T> {
    entries: Vec<(SubscriptionKey, T)>,
}

impl<T> View for SubscriptionTable<T> {
    type V = Seq<(KeyModel, T)>;

    closed spec fn view(&self) -> Seq<(KeyModel, T)> {
        self.entries@.map_values(|e: (SubscriptionKey, T)| (e.0@, e.1))
    }
}

/// In a sequence without duplicates, `index_of` finds the one place of an element.
pub proof fn lemma_key_index<T>(s: Seq<(KeyModel, T)>, k: KeyModel, i: int)
    requires
        keys_of(s).no_duplicates(),
        0 <= i < s.len(),
        s[i].0 == k,
    ensures
        has_key(s, k),
        keys_of(s).index_of(k) == i,
{
    assert(keys_of(s)[i] == k);
    assert(keys_of(s).contains(k));
    let j = keys_of(s).index_of(k);
    assert(keys_of(s)[j] == k);
}

/// Taking an entry out keeps the keys unique, and its key is gone.
pub proof fn lemma_without_key<T>(s: Seq<(KeyModel, T)>, k: KeyModel)
    requires
        keys_of(s).no_duplicates(),
    ensures
        keys_of(without_key(s, k)).no_duplicates(),
        !has_key(without_key(s, k), k),
{
    if has_key(s, k) {
        let i = keys_of(s).index_of(k);
        assert(keys_of(s)[i] == k);
        let r = s.remove(i);
        assert(keys_of(r) =~= keys_of(s).remove(i));
        if has_key(r, k) {
            let j = choose|j: int| 0 <= j < keys_of(r).len() && keys_of(r)[j] == k;
            if j < i {
                assert(keys_of(s)[j] == k);
            } else {
                assert(keys_of(s)[j + 1] == k);
            }
        }
    }
}

impl<T> SubscriptionTable<T> {
    pub open spec fn wf(&self) -> bool {
        keys_of(self@).no_duplicates()
    }

    /// An empty table.
    pub fn new() -> (r: Self)
        ensures
            r.wf(),
            r@ == Seq::<(KeyModel, T)>::empty(),
    {
        let r = SubscriptionTable { entries: Vec::new() };
        proof {
            assert(r@ =~= Seq::<(KeyModel, T)>::empty());
            assert(keys_of(r@) =~= Seq::<KeyModel>::empty());
        }
        r
    }

    /// The number of live subscriptions.
    pub fn len(&self) -> (r: usize)
        ensures
            r == self@.len(),
    {
        self.entries.len()
    }

    fn find(&self, key: &SubscriptionKey) -> (r: Option<usize>)
        requires
            self.wf(),
        ensures
            match r {
                Some(i) => i < self@.len() && self@[i as int].0 == key@ && has_key(self@, key@)
                    && keys_of(self@).index_of(key@) == i,
                None => !has_key(self@, key@),
            },
    {
        let mut i: usize = 0;
        while i < self.entries.len()
            invariant
                self.wf(),
                i <= self@.len(),
                self@.len() == self.entries@.len(),
                forall|j: int| 0 <= j < i ==> #[trigger] self@[j].0 != key@,
            decreases self@.len() - i,
        {
            if self.entries[i].0.same(key) {
                proof {
                    lemma_key_index(self@, key@, i as int);
                }
                return Some(i);
            }
            i = i + 1;
        }
        proof {
            if has_key(self@, key@) {
                let j = choose|j: int| 0 <= j < keys_of(self@).len() && keys_of(self@)[j] == key@;
                assert(self@[j].0 != key@);
            }
        }
        None
    }

    /// Whether `key` has an entry.
    pub fn contains(&self, key: &SubscriptionKey) -> (r: bool)
        requires
            self.wf(),
        ensures
            r == has_key(self@, key@),
    {
        self.find(key).is_some()
    }

    /// Adds the entry of `key`; one that was there is replaced and handed back.
    pub fn insert(&mut self, key: SubscriptionKey, value: T) -> (r: Option<T>)
        requires
            old(self).wf(),
        ensures
            final(self).wf(),
            has_key(final(self)@, key@),
            has_key(old(self)@, key@) ==> r == Some(old(self)@[keys_of(old(self)@).index_of(key@)].1)
                && final(self)@ == old(self)@.update(keys_of(old(self)@).index_of(key@), (key@, value)),
            !has_key(old(self)@, key@) ==> r is None && final(self)@ == old(self)@.push((key@, value)),
            final(self)@ == with_entry(old(self)@, key@, value),
    {
        let ghost before = self@;
        match self.find(&key) {
            Some(i) => {
                let (_, prev) = self.entries.remove(i);
                self.entries.insert(i, (key, value));
                proof {
                    assert(self@ =~= before.update(i as int, (key@, value)));
                    assert(keys_of(self@) =~= keys_of(before));
                    assert(keys_of(self@)[i as int] == key@);
                }
                Some(prev)
            },
            None => {
                self.entries.push((key, value));
                proof {
                    assert(self@ =~= before.push((key@, value)));
                    assert(keys_of(self@) =~= keys_of(before).push(key@));
                    assert(keys_of(self@)[before.len() as int] == key@);
                }
                None
            },
        }
    }

    /// Takes out the entry of `key`, if there is one.
    pub fn remove(&mut self, key: &SubscriptionKey) -> (r: Option<T>)
        requires
            old(self).wf(),
        ensures
            final(self).wf(),
            final(self)@ == without_key(old(self)@, key@),
            !has_key(final(self)@, key@),
            has_key(old(self)@, key@) ==> r == Some(old(self)@[keys_of(old(self)@).index_of(key@)].1),
            !has_key(old(self)@, key@) ==> r is None,
    {
        let ghost before = self@;
        proof {
            lemma_without_key(before, key@);
        }
        match self.find(key) {
            Some(i) => {
                let (_, v) = self.entries.remove(i);
                proof {
                    assert(self@ =~= before.remove(i as int));
                }
                Some(v)
            },
            None => None,
        }
    }
}

/// The table after `value` is recorded under `k`, replacing an entry of `k`.
pub open spec fn with_entry<T>(s: Seq<(KeyModel, T)>, k: KeyModel, value: T) -> Seq<(KeyModel, T)> {
    if has_key(s, k) {
        s.update(keys_of(s).index_of(k), (k, value))
    } else {
        s.push((k, value))
    }
}

/// Starts a subscription of connection `conn_id` under `sub_id`: records
/// `entry` (what reaches the subscriber) in `table` and gives the sink that
/// pushes under the notification method `notif`.
pub fn subscribe<T>(
    table: &mut SubscriptionTable<T>,
    conn_id: usize,
    sub_id: SubscriptionId,
    entry: T,
    notif: &str,
) -> (r: SubscriptionSink)
    requires
        old(table).wf(),
    ensures
        final(table).wf(),
        final(table)@ == with_entry(old(table)@, KeyModel { conn_id, sub_id: sub_id@ }, entry),
        r@ == (SinkModel { method: notif@, key: KeyModel { conn_id, sub_id: sub_id@ }, active: true }),
{
    let key = SubscriptionKey { conn_id, sub_id: sub_id.duplicate() };
    table.insert(key, entry);
    SubscriptionSink::new(notif, SubscriptionKey { conn_id, sub_id })
}

/// Ends the subscription of connection `conn_id` under `sub_id`: true if it
/// was live, false if it was gone or never existed.
pub fn unsubscribe<T>(table: &mut SubscriptionTable<T>, conn_id: usize, sub_id: SubscriptionId) -> (r: bool)
    requires
        old(table).wf(),
    ensures
        final(table).wf(),
        r == has_key(old(table)@, KeyModel { conn_id, sub_id: sub_id@ }),
        final(table)@ == without_key(old(table)@, KeyModel { conn_id, sub_id: sub_id@ }),
{
    let key = SubscriptionKey { conn_id, sub_id };
    table.remove(&key).is_some()
}

/// What a subscription sink is, as a model.
pub struct SinkModel {
    pub method: Seq<char>,
    pub key: KeyModel,
    pub active: bool,
}

/// The handle with which a handler pushes notifications to one subscriber and
/// closes the subscription. The channel, the liveness signal and the table it
/// shares with its subscription method are held by the caller, who passes what
/// each step needs.
pub struct SubscriptionSink {
    method: String,
    uniq_sub: SubscriptionKey,
    active: bool,
}

impl View for SubscriptionSink {
    type V = SinkModel;

    closed spec fn view(&self) -> SinkModel {
        SinkModel { method: self.method@, key: self.uniq_sub@, active: self.active }
    }
}

/// The message that closing with `reason` sends: the notification carrying the reason.
pub open spec fn close_message(s: SinkModel, reason: CloseReasonModel) -> Seq<char> {
    notification(s.method, s.key.sub_id, reason_json(reason))
}

/// What closing the sink of model `s` with an optional reason sends: one message
/// if the subscription was still in the table and a reason is given, else nothing.
pub open spec fn close_output<T>(s: SinkModel, t: Seq<(KeyModel, T)>, reason: Option<CloseReasonModel>) -> Option<Seq<char>> {
    if has_key(t, s.key) && reason is Some {
        Some(close_message(s, reason->Some_0))
    } else {
        None
    }
}

/// The reason an implicit close carries.
pub open spec fn no_reason() -> CloseReasonModel {
    CloseReasonModel::Server("No close reason provided"@)
}

/// The kinds of event a stream-bridging loop reacts to.
pub enum PipeEvent {
    /// The stream produced an item (JSON text).
    Item(String),
    /// The stream ended.
    StreamEnded,
    /// The subscriber went away.
    Disconnected,
}

pub enum PipeEventModel {
    Item(Seq<char>),
    StreamEnded,
    Disconnected,
}

impl View for PipeEvent {
    type V = PipeEventModel;

    open spec fn view(&self) -> PipeEventModel {
        match self {
            PipeEvent::Item(s) => PipeEventModel::Item(s@),
            PipeEvent::StreamEnded => PipeEventModel::StreamEnded,
            PipeEvent::Disconnected => PipeEventModel::Disconnected,
        }
    }
}

/// What a stream-bridging loop does next.
pub enum PipeStep {
    /// Write this notification and wait for the next event.
    Deliver(String),
    /// Stop; write the final message first, if there is one.
    Finished(Option<String>),
}

pub enum PipeStepModel {
    Deliver(Seq<char>),
    Finished(Option<Seq<char>>),
}

impl View for PipeStep {
    type V = PipeStepModel;

    open spec fn view(&self) -> PipeStepModel {
        match self {
            PipeStep::Deliver(s) => PipeStepModel::Deliver(s@),
            PipeStep::Finished(m) => PipeStepModel::Finished(
                match m {
                    Some(s) => Some(s@),
                    None => None,
                },
            ),
        }
    }
}

/// One step of the stream-bridging loop, as a model: the step taken, the sink
/// and the table after it. `closed` says the channel is closed, `unsubscribed`
/// that the subscriber has unsubscribed.
pub open spec fn pipe_next<T>(
    s: SinkModel,
    t: Seq<(KeyModel, T)>,
    ev: PipeEventModel,
    closed: bool,
    unsubscribed: bool,
) -> (PipeStepModel, SinkModel, Seq<(KeyModel, T)>) {
    let gone = SinkModel { active: false, ..s };
    match ev {
        PipeEventModel::Item(item) => if closed || !s.active {
            (
                PipeStepModel::Finished(close_output(s, t, Some(CloseReasonModel::ConnectionReset))),
                gone,
                without_key(t, s.key),
            )
        } else if unsubscribed {
            (PipeStepModel::Finished(None), gone, without_key(t, s.key))
        } else {
            (PipeStepModel::Deliver(notification(s.method, s.key.sub_id, item)), s, t)
        },
        PipeEventModel::StreamEnded => (PipeStepModel::Finished(None), s, t),
        PipeEventModel::Disconnected => (
            PipeStepModel::Finished(close_output(s, t, Some(CloseReasonModel::ConnectionReset))),
            gone,
            without_key(t, s.key),
        ),
    }
}

impl SubscriptionSink {
    /// A live sink for subscription `key`, which pushes under the notification method `method`.
    pub fn new(method: &str, key: SubscriptionKey) -> (r: Self)
        ensures
            r@ == (SinkModel { method: method@, key: key@, active: true }),
    {
        SubscriptionSink { method: String::from_str(method), uniq_sub: key, active: true }
    }

    /// The subscription this sink pushes to.
    pub fn subscription_key(&self) -> (r: &SubscriptionKey)
        ensures
            r@ == self@.key,
    {
        &self.uniq_sub
    }

    /// The notification method name.
    pub fn method(&self) -> (r: &String)
        ensures
            r@ == self@.method,
    {
        &self.method
    }

    /// Whether the sink is closed: by a close, or because its channel is.
    pub fn is_closed(&self, channel_closed: bool) -> (r: bool)
        ensures
            r == (channel_closed || !self@.active),
    {
        channel_closed || !self.active
    }

    /// The notification that carries `result` (JSON text).
    pub fn build_message(&self, result: &str) -> (r: String)
        ensures
            r@ == notification(self@.method, self@.key.sub_id, result@),
    {
        notification_json(self.method.as_str(), &self.uniq_sub.sub_id, result)
    }

    /// Closes the sink and takes its entry out of `table`. If the entry was
    /// still there and a reason is given, returns the final notification to
    /// send (best effort). Closing twice changes nothing more.
    fn inner_close<T>(&mut self, table: &mut SubscriptionTable<T>, reason: Option<&CloseReason>) -> (r: Option<String>)
        requires
            old(table).wf(),
        ensures
            final(table).wf(),
            final(self)@ == (SinkModel { active: false, ..old(self)@ }),
            final(table)@ == without_key(old(table)@, old(self)@.key),
            (match r {
                Some(m) => Some(m@),
                None => None,
            }) == close_output(
                old(self)@,
                old(table)@,
                match reason {
                    Some(c) => Some(close_reason_model(*c)),
                    None => None,
                },
            ),
    {
        self.active = false;
        match table.remove(&self.uniq_sub) {
            Some(_) => match reason {
                Some(c) => {
                    let body = close_reason_json(c);
                    Some(self.build_message(body.as_str()))
                },
                None => None,
            },
            None => None,
        }
    }

    /// Prepares the notification for `result` (JSON text), for the caller to
    /// write to the channel. Fails with `SubscriptionClosed(ConnectionReset)`
    /// if the sink is closed, leaving everything as it was. If the subscriber
    /// has unsubscribed, closes without a message and fails with
    /// `SubscriptionClosed(Unsubscribed)`.
    pub fn send<T>(
        &mut self,
        table: &mut SubscriptionTable<T>,
        result: &str,
        channel_closed: bool,
        unsubscribed: bool,
    ) -> (r: Result<String, Error>)
        requires
            old(table).wf(),
        ensures
            final(table).wf(),
            channel_closed || !old(self)@.active ==> r == Err::<String, Error>(
                Error::SubscriptionClosed(CloseReason::ConnectionReset),
            ) && final(self)@ == old(self)@ && final(table)@ == old(table)@,
            !(channel_closed || !old(self)@.active) && unsubscribed ==> r == Err::<String, Error>(
                Error::SubscriptionClosed(CloseReason::Unsubscribed),
            ) && final(self)@ == (SinkModel { active: false, ..old(self)@ }) && final(table)@
                == without_key(old(table)@, old(self)@.key),
            !(channel_closed || !old(self)@.active) && !unsubscribed ==> (match r {
                Ok(m) => m@ == notification(old(self)@.method, old(self)@.key.sub_id, result@),
                Err(_) => false,
            }) && final(self)@ == old(self)@ && final(table)@ == old(table)@,
    {
        if self.is_closed(channel_closed) {
            return Err(Error::SubscriptionClosed(CloseReason::ConnectionReset));
        }
        let msg = self.build_message(result);
        if unsubscribed {
            self.inner_close(table, None);
            return Err(Error::SubscriptionClosed(CloseReason::Unsubscribed));
        }
        Ok(msg)
    }

    /// Writing a prepared notification failed because the receiver is gone:
    /// closes without a message and gives the error to report.
    pub fn send_failed<T>(&mut self, table: &mut SubscriptionTable<T>) -> (r: Error)
        requires
            old(table).wf(),
        ensures
            final(table).wf(),
            r == Error::SubscriptionClosed(CloseReason::ConnectionReset),
            final(self)@ == (SinkModel { active: false, ..old(self)@ }),
            final(table)@ == without_key(old(table)@, old(self)@.key),
    {
        self.inner_close(table, None);
        Error::SubscriptionClosed(CloseReason::ConnectionReset)
    }

    /// Closes the subscription with `reason`; returns the final notification
    /// to send if the subscription was still live.
    pub fn close<T>(&mut self, table: &mut SubscriptionTable<T>, reason: &CloseReason) -> (r: Option<String>)
        requires
            old(table).wf(),
        ensures
            final(table).wf(),
            final(self)@ == (SinkModel { active: false, ..old(self)@ }),
            final(table)@ == without_key(old(table)@, old(self)@.key),
            (match r {
                Some(m) => Some(m@),
                None => None,
            }) == close_output(old(self)@, old(table)@, Some(close_reason_model(*reason))),
    {
        self.inner_close(table, Some(reason))
    }

    /// Closes the subscription with a server message as the reason.
    pub fn close_with_custom_message<T>(&mut self, table: &mut SubscriptionTable<T>, msg: &str) -> (r: Option<String>)
        requires
            old(table).wf(),
        ensures
            final(table).wf(),
            final(self)@ == (SinkModel { active: false, ..old(self)@ }),
            final(table)@ == without_key(old(table)@, old(self)@.key),
            (match r {
                Some(m) => Some(m@),
                None => None,
            }) == close_output(old(self)@, old(table)@, Some(CloseReasonModel::Server(msg@))),
    {
        let reason = CloseReason::Server(String::from_str(msg));
        self.inner_close(table, Some(&reason))
    }

    /// The close that runs when the sink is dropped without one: the reason
    /// says that none was given.
    pub fn close_on_drop<T>(&mut self, table: &mut SubscriptionTable<T>) -> (r: Option<String>)
        requires
            old(table).wf(),
        ensures
            final(table).wf(),
            final(self)@ == (SinkModel { active: false, ..old(self)@ }),
            final(table)@ == without_key(old(table)@, old(self)@.key),
            (match r {
                Some(m) => Some(m@),
                None => None,
            }) == close_output(old(self)@, old(table)@, Some(no_reason())),
    {
        let reason = CloseReason::Server(String::from_str("No close reason provided"));
        self.inner_close(table, Some(&reason))
    }

    /// One step of bridging a stream into the subscription: an item is pushed
    /// (or, if that finds the sink closed, the sink is closed with that reason
    /// and the loop stops); the end of the stream stops the loop without a close;
    /// a disconnect closes with `ConnectionReset` and stops.
    pub fn pipe_step<T>(
        &mut self,
        table: &mut SubscriptionTable<T>,
        event: PipeEvent,
        channel_closed: bool,
        unsubscribed: bool,
    ) -> (r: PipeStep)
        requires
            old(table).wf(),
        ensures
            final(table).wf(),
            (r@, final(self)@, final(table)@) == pipe_next(
                old(self)@,
                old(table)@,
                event@,
                channel_closed,
                unsubscribed,
            ),
    {
        proof {
            lemma_without_key(table@, self@.key);
        }
        match event {
            PipeEvent::Item(item) => match self.send(table, item.as_str(), channel_closed, unsubscribed) {
                Ok(m) => PipeStep::Deliver(m),
                Err(Error::SubscriptionClosed(reason)) => {
                    let last = self.close(table, &reason);
                    PipeStep::Finished(last)
                },
                Err(_) => PipeStep::Finished(None),
            },
            PipeEvent::StreamEnded => PipeStep::Finished(None),
            PipeEvent::Disconnected => PipeStep::Finished(self.close(table, &CloseReason::ConnectionReset)),
        }
    }
}

} // verus!
