use vstd::prelude::*;
use vstd::string::StringExecFns;

use crate::error::CloseReason;

verus! {

/// The JSON string literal for `s`: quoted, with JSON's escapes.
pub uninterp spec fn json_quoted(s: Seq<char>) -> Seq<char>;

/// Relies on serde_json::to_string for a `str`: it writes the JSON string
/// literal of its argument and cannot fail on a `str`.
#[verifier::external_body]
fn quote(s: &str) -> (r: String)
    ensures
        r@ == json_quoted(s@),
{
    match serde_json::to_string(s) {
        Ok(v) => v,
        Err(_) => String::new(),
    }
}

pub open spec fn digit_char(d: int) -> char {
    if d == 0 {
        '0'
    } else if d == 1 {
        '1'
    } else if d == 2 {
        '2'
    } else if d == 3 {
        '3'
    } else if d == 4 {
        '4'
    } else if d == 5 {
        '5'
    } else if d == 6 {
        '6'
    } else if d == 7 {
        '7'
    } else if d == 8 {
        '8'
    } else {
        '9'
    }
}

/// The decimal digits of `n`, most significant first, without leading zeros.
pub open spec fn decimal(n: nat) -> Seq<char>
    decreases n,
{
    if n < 10 {
        seq![digit_char(n as int)]
    } else {
        decimal(n / 10).push(digit_char((n % 10) as int))
    }
}

/// Relies on serde_json::to_string for a `u64`: it writes the number in
/// decimal and cannot fail on one.
#[verifier::external_body]
fn number(n: u64) -> (r: String)
    ensures
        r@ == decimal(n as nat),
{
    match serde_json::to_string(&n) {
        Ok(v) => v,
        Err(_) => String::new(),
    }
}

/// A subscription id: a number or a string, as the id provider chose.
#[derive(Debug, Clone, PartialEq, Eq)]
pub enum SubscriptionId {
    Num(u64),
    Str(String),
}

pub enum SubIdModel {
    Num(u64),
    Str(Seq<char>),
}

impl View for SubscriptionId {
    type V = SubIdModel;

    open spec fn view(&self) -> SubIdModel {
        match self {
            SubscriptionId::Num(n) => SubIdModel::Num(*n),
            SubscriptionId::Str(s) => SubIdModel::Str(s@),
        }
    }
}

impl SubscriptionId {
    /// Whether the two ids are the same.
    pub fn same(&self, other: &SubscriptionId) -> (r: bool)
        ensures
            r == (self@ == other@),
    {
        match (self, other) {
            (SubscriptionId::Num(a), SubscriptionId::Num(b)) => *a == *b,
            (SubscriptionId::Str(a), SubscriptionId::Str(b)) => *a == *b,
            _ => false,
        }
    }

    /// A copy of the id.
    pub fn duplicate(&self) -> (r: SubscriptionId)
        ensures
            r@ == self@,
    {
        match self {
            SubscriptionId::Num(n) => SubscriptionId::Num(*n),
            SubscriptionId::Str(s) => SubscriptionId::Str(s.clone()),
        }
    }
}

/// The JSON text of a subscription id.
pub open spec fn id_json(id: SubIdModel) -> Seq<char> {
    match id {
        SubIdModel::Num(n) => decimal(n as nat),
        SubIdModel::Str(s) => json_quoted(s),
    }
}

/// Writes a subscription id as JSON.
pub fn subscription_id_json(id: &SubscriptionId) -> (r: String)
    ensures
        r@ == id_json(id@),
{
    match id {
        SubscriptionId::Num(n) => number(*n),
        SubscriptionId::Str(s) => quote(s.as_str()),
    }
}

pub open spec fn close_reason_model(r: CloseReason) -> CloseReasonModel {
    match r {
        CloseReason::Unsubscribed => CloseReasonModel::Unsubscribed,
        CloseReason::ConnectionReset => CloseReasonModel::ConnectionReset,
        CloseReason::Server(m) => CloseReasonModel::Server(m@),
    }
}

pub enum CloseReasonModel {
    Unsubscribed,
    ConnectionReset,
    Server(Seq<char>),
}

/// The JSON text of a close reason: `{"reason":"Unsubscribed"}`,
/// `{"reason":"ConnectionReset"}` or `{"reason":{"Server":<message>}}`.
pub open spec fn reason_json(r: CloseReasonModel) -> Seq<char> {
    match r {
        CloseReasonModel::Unsubscribed => "{\"reason\":\"Unsubscribed\"}"@,
        CloseReasonModel::ConnectionReset => "{\"reason\":\"ConnectionReset\"}"@,
        CloseReasonModel::Server(m) => "{\"reason\":{\"Server\":"@ + json_quoted(m) + "}}"@,
    }
}

/// Writes a close reason as JSON.
pub fn close_reason_json(reason: &CloseReason) -> (r: String)
    ensures
        r@ == reason_json(close_reason_model(*reason)),
{
    match reason {
        CloseReason::Unsubscribed => String::from_str("{\"reason\":\"Unsubscribed\"}"),
        CloseReason::ConnectionReset => String::from_str("{\"reason\":\"ConnectionReset\"}"),
        CloseReason::Server(m) => {
            let mut s = String::from_str("{\"reason\":{\"Server\":");
            let q = quote(m.as_str());
            s.append(q.as_str());
            s.append("}}");
            s
        },
    }
}

/// The notification that pushes `result` (JSON text) to subscription `id`
/// under the notification method `method`.
pub open spec fn notification(method: Seq<char>, id: SubIdModel, result: Seq<char>) -> Seq<char> {
    "{\"jsonrpc\":\"2.0\",\"method\":"@ + json_quoted(method) + ",\"params\":{\"subscription\":"@
        + id_json(id) + ",\"result\":"@ + result + "}}"@
}

/// Writes the notification envelope around `result`, which is JSON text.
pub fn notification_json(method: &str, id: &SubscriptionId, result: &str) -> (r: String)
    ensures
        r@ == notification(method@, id@, result@),
{
    let mut s = String::from_str("{\"jsonrpc\":\"2.0\",\"method\":");
    let m = quote(method);
    s.append(m.as_str());
    s.append(",\"params\":{\"subscription\":");
    let i = subscription_id_json(id);
    s.append(i.as_str());
    s.append(",\"result\":");
    s.append(result);
    s.append("}}");
    s
}

/// The success response to request `id` carrying `result`, both JSON text.
pub open spec fn success_response(id: Seq<char>, result: Seq<char>) -> Seq<char> {
    "{\"jsonrpc\":\"2.0\",\"result\":"@ + result + ",\"id\":"@ + id + "}"@
}

/// Writes the success response to request `id` carrying `result`, both JSON text.
pub fn response_json(id: &str, result: &str) -> (r: String)
    ensures
        r@ == success_response(id@, result@),
{
    let mut s = String::from_str("{\"jsonrpc\":\"2.0\",\"result\":");
    s.append(result);
    s.append(",\"id\":");
    s.append(id);
    s.append("}");
    s
}

/// The error response to request `id` (JSON text) for a method that is not registered.
pub open spec fn not_found_response(id: Seq<char>) -> Seq<char> {
    "{\"jsonrpc\":\"2.0\",\"error\":{\"code\":-32601,\"message\":\"Method not found\"},\"id\":"@ + id + "}"@
}

/// Writes the "method not found" error response to request `id` (JSON text).
pub fn method_not_found_response(id: &str) -> (r: String)
    ensures
        r@ == not_found_response(id@),
{
    let mut s = String::from_str("{\"jsonrpc\":\"2.0\",\"error\":{\"code\":-32601,\"message\":\"Method not found\"},\"id\":");
    s.append(id);
    s.append("}");
    s
}

} // verus!
