//! Moonraker client state that does not touch the network: errors,
//! configuration, reconnection backoff and the table of requests that
//! await a reply.
use vstd::prelude::*;
use std::collections::HashMap;
use vstd::std_specs::hash::spec_keys_iter;
use vstd::std_specs::iter::IteratorSpec;
use vstd::string::StringExecFns;
use crate::text::{dec, dec_int, push_dec, push_dec_i64};
use crate::json::{json_parse, parse_json, JsonValue};
use crate::moonraker::message::JsonRpcMessage;
use vstd::arithmetic::power2::{pow2, lemma_pow2_unfold, lemma2_to64};

verus! {

broadcast use vstd::std_specs::hash::group_hash_axioms;

/// Errors that can occur in the Moonraker client.
#[derive(Debug)]
pub enum MoonrakerError {
    ConnectionFailed(String),
    WebSocketError(String),
    JsonError(String),
    HttpError(String),
    RpcError { code: i64, message: String },
    NotConnected,
    Timeout,
    ChannelClosed,
}

/// The text an error is shown with.
pub open spec fn error_text(e: MoonrakerError) -> Seq<char> {
    match e {
        MoonrakerError::ConnectionFailed(m) => "connection failed: "@ + m@,
        MoonrakerError::WebSocketError(m) => "websocket error: "@ + m@,
        MoonrakerError::JsonError(m) => "json error: "@ + m@,
        MoonrakerError::HttpError(m) => "http error: "@ + m@,
        MoonrakerError::RpcError { code, message } => "rpc error "@ + dec_int(code as int) + ": "@
            + message@,
        MoonrakerError::NotConnected => "not connected"@,
        MoonrakerError::Timeout => "request timed out"@,
        MoonrakerError::ChannelClosed => "channel closed"@,
    }
}

impl MoonrakerError {
    /// The text an error is shown with.
    pub fn message(&self) -> (r: String)
        ensures
            r@ == error_text(*self),
    {
        match self {
            MoonrakerError::ConnectionFailed(m) => {
                let mut s = "connection failed: ".to_string();
                s.append(m.as_str());
                s
            },
            MoonrakerError::WebSocketError(m) => {
                let mut s = "websocket error: ".to_string();
                s.append(m.as_str());
                s
            },
            MoonrakerError::JsonError(m) => {
                let mut s = "json error: ".to_string();
                s.append(m.as_str());
                s
            },
            MoonrakerError::HttpError(m) => {
                let mut s = "http error: ".to_string();
                s.append(m.as_str());
                s
            },
            MoonrakerError::RpcError { code, message } => {
                let mut s = "rpc error ".to_string();
                push_dec_i64(&mut s, *code);
                s.append(": ");
                s.append(message.as_str());
                s
            },
            MoonrakerError::NotConnected => "not connected".to_string(),
            MoonrakerError::Timeout => "request timed out".to_string(),
            MoonrakerError::ChannelClosed => "channel closed".to_string(),
        }
    }
}

/// How an HTTP status is shown: its code, a space and its reason (the
/// status's canonical reason, `<unknown status code>` when it has none).
pub open spec fn status_text(status: u16, reason: Option<Seq<char>>) -> Seq<char> {
    dec(status as nat) + " "@ + match reason {
        Some(r) => r,
        None => "<unknown status code>"@,
    }
}

/// Whether an HTTP status is a success (200-299).
pub open spec fn is_success(status: u16) -> bool {
    200 <= status < 300
}

/// The error for an HTTP reply: none for a success; otherwise
/// `HttpError("HTTP {status} {reason}: {body}")`.
pub fn http_failure(status: u16, reason: Option<&str>, body: &str) -> (r: Option<MoonrakerError>)
    ensures
        is_success(status) ==> r is None,
        !is_success(status) ==> (r matches Some(MoonrakerError::HttpError(m)) && m@ == "HTTP "@
            + status_text(status, match reason {
            Some(x) => Some(x@),
            None => None,
        }) + ": "@ + body@),
{
    if 200 <= status && status < 300 {
        return None;
    }
    let mut m = "HTTP ".to_string();
    push_dec(&mut m, status as u64);
    m.append(" ");
    match reason {
        Some(x) => m.append(x),
        None => m.append("<unknown status code>"),
    }
    m.append(": ");
    m.append(body);
    Some(MoonrakerError::HttpError(m))
}

/// The JSON document of a reply body, or `JsonError` with the parser's
/// message when the body is not JSON.
pub fn parse_reply(body: &str) -> (r: Result<JsonValue, MoonrakerError>)
    ensures
        json_parse(body@) is Ok ==> (r is Ok && r->Ok_0 == json_parse(body@)->Ok_0),
        json_parse(body@) is Err ==> (r matches Err(MoonrakerError::JsonError(m)) && m@ == json_parse(
            body@,
        )->Err_0),
{
    match parse_json(body) {
        Ok(v) => Ok(v),
        Err(e) => Err(MoonrakerError::JsonError(e)),
    }
}

/// Configuration for the Moonraker client; durations in milliseconds.
#[derive(Debug, Clone)]
pub struct MoonrakerConfig {
    pub http_url: String,
    pub ws_url: String,
    pub client_name: String,
    pub client_version: String,
    pub reconnect_delay_min_ms: u64,
    pub reconnect_delay_max_ms: u64,
    pub rpc_timeout_ms: u64,
}

impl Default for MoonrakerConfig {
    /// Local Moonraker on port 7125; reconnect after 1 s doubling up to
    /// 30 s; requests time out after 10 s. The version is this package's.
    fn default() -> (c: Self)
        ensures
            c.http_url@ == "http://localhost:7125"@,
            c.ws_url@ == "ws://localhost:7125/websocket"@,
            c.client_name@ == "VectorScreen"@,
            c.client_version@ == "0.1.0"@,
            c.reconnect_delay_min_ms == 1000,
            c.reconnect_delay_max_ms == 30000,
            c.rpc_timeout_ms == 10000,
    {
        MoonrakerConfig {
            http_url: "http://localhost:7125".to_string(),
            ws_url: "ws://localhost:7125/websocket".to_string(),
            client_name: "VectorScreen".to_string(),
            client_version: "0.1.0".to_string(),
            reconnect_delay_min_ms: 1000,
            reconnect_delay_max_ms: 30000,
            rpc_timeout_ms: 10000,
        }
    }
}

impl MoonrakerConfig {
    /// The configuration for the printer at `ip`:`port`: its HTTP and
    /// WebSocket URLs, every other setting at its default.
    pub fn for_printer(ip: &str, port: u16) -> (c: Self)
        ensures
            c.http_url@ == "http://"@ + ip@ + ":"@ + dec(port as nat),
            c.ws_url@ == "ws://"@ + ip@ + ":"@ + dec(port as nat) + "/websocket"@,
            c.client_name@ == "VectorScreen"@,
            c.client_version@ == "0.1.0"@,
            c.reconnect_delay_min_ms == 1000,
            c.reconnect_delay_max_ms == 30000,
            c.rpc_timeout_ms == 10000,
    {
        let mut http_url = "http://".to_string();
        http_url.append(ip);
        http_url.append(":");
        push_dec(&mut http_url, port as u64);
        let mut ws_url = "ws://".to_string();
        ws_url.append(ip);
        ws_url.append(":");
        push_dec(&mut ws_url, port as u64);
        ws_url.append("/websocket");
        let d = MoonrakerConfig::default();
        MoonrakerConfig { http_url, ws_url, ..d }
    }
}

/// The delay after one more failure: doubled, but never above `max`.
pub open spec fn next_delay(delay: nat, max: nat) -> nat {
    if 2 * delay < max {
        2 * delay
    } else {
        max
    }
}

/// The delay waited after the `k`-th consecutive failure since the last
/// successful connection (the first waits `min`).
pub open spec fn delay_after(min: nat, max: nat, k: nat) -> nat
    decreases k,
{
    if k == 0 {
        min
    } else {
        next_delay(delay_after(min, max, (k - 1) as nat), max)
    }
}

/// Exponential reconnection backoff: wait `min` after the first failure,
/// then double the wait after each further failure up to `max`; a
/// successful connection starts over from `min`.
pub struct Backoff {
    delay_ms: u64,
    min_ms: u64,
    max_ms: u64,
    /// Failures since the last success.
    failures: Ghost<nat>,
}

impl Backoff {
    #[verifier::type_invariant]
    spec fn follows_failures(&self) -> bool {
        self.delay_ms as nat == delay_after(self.min_ms as nat, self.max_ms as nat, self.failures@)
    }

    pub closed spec fn delay(&self) -> nat {
        self.delay_ms as nat
    }

    pub closed spec fn min(&self) -> nat {
        self.min_ms as nat
    }

    pub closed spec fn max(&self) -> nat {
        self.max_ms as nat
    }

    /// The number of failures since the last success (or since creation).
    pub closed spec fn failures(&self) -> nat {
        self.failures@
    }

    pub fn new(min_ms: u64, max_ms: u64) -> (b: Self)
        ensures
            b.delay() == min_ms,
            b.min() == min_ms,
            b.max() == max_ms,
            b.failures() == 0,
    {
        Backoff { delay_ms: min_ms, min_ms, max_ms, failures: Ghost(0) }
    }

    /// The connection succeeded: the next failure waits `min` again.
    pub fn reset(&mut self)
        ensures
            final(self).delay() == old(self).min(),
            final(self).min() == old(self).min(),
            final(self).max() == old(self).max(),
            final(self).failures() == 0,
    {
        *self = Backoff { delay_ms: self.min_ms, min_ms: self.min_ms, max_ms: self.max_ms, failures: Ghost(0) };
    }

    /// A failure: returns how long to wait before reconnecting and doubles
    /// the next wait, capped at `max`. The `k`-th failure since the last
    /// success (counting from 0) waits `delay_after(min, max, k)`.
    pub fn on_failure(&mut self) -> (wait_ms: u64)
        ensures
            wait_ms == old(self).delay(),
            wait_ms == delay_after(old(self).min(), old(self).max(), old(self).failures()),
            final(self).delay() == next_delay(old(self).delay(), old(self).max()),
            final(self).failures() == old(self).failures() + 1,
            final(self).min() == old(self).min(),
            final(self).max() == old(self).max(),
    {
        proof {
            use_type_invariant(&*self);
        }
        let wait = self.delay_ms;
        let next = if self.delay_ms < self.max_ms / 2 + self.max_ms % 2 {
            self.delay_ms * 2
        } else {
            self.max_ms
        };
        proof {
            assert(next as nat == delay_after(self.min_ms as nat, self.max_ms as nat, self.failures@ + 1));
        }
        let failures = Ghost(self.failures@ + 1);
        *self = Backoff { delay_ms: next, min_ms: self.min_ms, max_ms: self.max_ms, failures };
        wait
    }
}

/// After `k` failures in a row the wait is `min * 2^k`, capped at `max`
/// (and `min` itself before the first failure).
pub proof fn lemma_backoff_closed_form(min: nat, max: nat, k: nat)
    requires
        k > 0,
    ensures
        delay_after(min, max, k) == if min * pow2(k) < max {
            min * pow2(k)
        } else {
            max
        },
    decreases k,
{
    lemma_pow2_unfold(k);
    assert(min * pow2(k) == 2 * (min * pow2((k - 1) as nat))) by (nonlinear_arith)
        requires
            pow2(k) == 2 * pow2((k - 1) as nat),
    ;
    if k > 1 {
        lemma_backoff_closed_form(min, max, (k - 1) as nat);
    } else {
        lemma2_to64();
        reveal_with_fuel(delay_after, 2);
        assert(pow2(0) == 1);
        assert(min * pow2(0) == min);
    }
}

/// With `min <= max`, every wait lies between `min` and `max`.
pub proof fn lemma_backoff_within(min: nat, max: nat, k: nat)
    requires
        min <= max,
    ensures
        min <= delay_after(min, max, k) <= max,
    decreases k,
{
    if k > 0 {
        lemma_backoff_within(min, max, (k - 1) as nat);
    }
}

/// The wait never exceeds the larger of `min` and `max`, and from the
/// second failure on it never exceeds `max`.
pub proof fn lemma_backoff_bounded(min: nat, max: nat, k: nat)
    ensures
        delay_after(min, max, k) <= if min < max { max } else { min },
        k > 0 ==> delay_after(min, max, k) <= max,
    decreases k,
{
    if k > 0 {
        lemma_backoff_bounded(min, max, (k - 1) as nat);
    }
}

/// Whether `s` lists exactly the entries of `m`: each once, with its value.
pub open spec fn lists_all<R>(s: Seq<(u64, R)>, m: Map<u64, R>) -> bool {
    &&& s.len() == m.len()
    &&& forall|i: int|
        0 <= i < s.len() ==> m.contains_key(#[trigger] s[i].0) && s[i].1 == m[s[i].0]
    &&& forall|i: int, j: int| 0 <= i < j < s.len() ==> (#[trigger] s[i]).0 != (#[trigger] s[j]).0
    &&& forall|id: u64| #[trigger] m.contains_key(id) ==> exists|i: int| 0 <= i < s.len() && s[i].0 == id
}

/// The requests that were sent and await a reply, by request id.
pub struct PendingRequests<R> {
    waiting: HashMap<u64, R>,
}

impl<R> PendingRequests<R> {
    /// The waiting requests, by id.
    pub closed spec fn waiting(&self) -> Map<u64, R> {
        self.waiting@
    }

    pub fn new() -> (p: Self)
        ensures
            p.waiting() == Map::<u64, R>::empty(),
    {
        PendingRequests { waiting: HashMap::new() }
    }

    /// Takes the request with this id out of the table, if it is waiting.
    pub fn remove(&mut self, id: u64) -> (r: Option<R>)
        ensures
            final(self).waiting() == old(self).waiting().remove(id),
            old(self).waiting().contains_key(id) ==> r == Some(old(self).waiting()[id]),
            !old(self).waiting().contains_key(id) ==> r is None,
    {
        self.waiting.remove(&id)
    }

    /// Registers a request; one already waiting under the same id is
    /// replaced and returned.
    pub fn insert(&mut self, id: u64, responder: R) -> (r: Option<R>)
        ensures
            final(self).waiting() == old(self).waiting().insert(id, responder),
            old(self).waiting().contains_key(id) ==> r == Some(old(self).waiting()[id]),
            !old(self).waiting().contains_key(id) ==> r is None,
    {
        self.waiting.insert(id, responder)
    }

    pub fn len(&self) -> (n: usize)
        ensures
            n == self.waiting().len(),
    {
        self.waiting.len()
    }

    /// Takes every waiting request out of the table (to fail them all on
    /// disconnect or shutdown), in no particular order.
    pub fn take_all(&mut self) -> (r: Vec<(u64, R)>)
        ensures
            final(self).waiting() == Map::<u64, R>::empty(),
            lists_all(r@, old(self).waiting()),
    {
        let mut map: HashMap<u64, R> = HashMap::new();
        std::mem::swap(&mut map, &mut self.waiting);
        let ghost m0 = map@;
        let ghost ks = spec_keys_iter(&map).remaining();
        assert(ks.unref().to_set() == m0.dom());
        assert(ks.no_duplicates());
        assert(ks.len() == m0.dom().len());
        let mut ids: Vec<u64> = Vec::new();
        for k in it: map.keys()
            invariant
                it.seq() == ks,
                ids@.len() == it.index(),
                forall|i: int| 0 <= i < it.index() ==> ids@[i] == *ks[i],
        {
            ids.push(*k);
        }
        assert(ids@.len() == ks.len());
        assert forall|i: int| 0 <= i < ids@.len() implies m0.contains_key(#[trigger] ids@[i]) by {
            assert(ks.unref()[i] == *ks[i]);
            assert(ks.unref().contains(ks.unref()[i]));
        }
        assert forall|i: int, j: int| 0 <= i < j < ids@.len() implies #[trigger] ids@[i] != #[trigger] ids@[j] by {
            assert(ks[i] != ks[j]);
        }
        assert forall|id: u64| #[trigger] m0.contains_key(id) implies exists|i: int| 0 <= i < ids@.len() && ids@[i] == id by {
            assert(ks.unref().to_set().contains(id));
            let i = choose|i: int| 0 <= i < ks.unref().len() && ks.unref()[i] == id;
            assert(ids@[i] == *ks[i]);
        }
        let mut out: Vec<(u64, R)> = Vec::new();
        let mut i: usize = 0;
        while i < ids.len()
            invariant
                i <= ids@.len(),
                out@.len() == i,
                forall|j: int| 0 <= j < i ==> (#[trigger] out@[j]).0 == ids@[j] && out@[j].1 == m0[ids@[j]],
                forall|k: u64| #[trigger] map@.contains_key(k) <==> (m0.contains_key(k) && !ids@.take(i as int).contains(k)),
                forall|k: u64| #[trigger] map@.contains_key(k) ==> map@[k] == m0[k],
                forall|j: int| 0 <= j < ids@.len() ==> m0.contains_key(#[trigger] ids@[j]),
                forall|a: int, b: int| 0 <= a < b < ids@.len() ==> #[trigger] ids@[a] != #[trigger] ids@[b],
            decreases ids@.len() - i,
        {
            let id = ids[i];
            proof {
                assert(!ids@.take(i as int).contains(id)) by {
                    if ids@.take(i as int).contains(id) {
                        let j = choose|j: int| 0 <= j < i && ids@.take(i as int)[j] == id;
                        assert(ids@[j] == ids@[i as int]);
                    }
                }
                assert(map@.contains_key(id));
                assert(ids@.take(i + 1) == ids@.take(i as int).push(id));
            }
            match map.remove(&id) {
                Some(v) => {
                    out.push((id, v));
                    proof {
                        let t = ids@.take(i as int);
                        let t1 = ids@.take(i + 1);
                        assert forall|k: u64| #[trigger] t1.contains(k) <==> (t.contains(k) || k == id) by {
                            if t1.contains(k) {
                                let j = choose|j: int| 0 <= j < t1.len() && t1[j] == k;
                                if j < i {
                                    assert(t[j] == k);
                                }
                            }
                            if t.contains(k) {
                                let j = choose|j: int| 0 <= j < t.len() && t[j] == k;
                                assert(t1[j] == k);
                            }
                            if k == id {
                                assert(t1[i as int] == k);
                            }
                        }
                    }
                },
                None => {
                    proof {
                        assert(false);
                    }
                },
            }
            i = i + 1;
        }
        proof {
            assert(ids@.take(ids@.len() as int) == ids@);
            let o = out@;
            assert forall|a: int, b: int| 0 <= a < b < o.len() implies (#[trigger] o[a]).0 != (#[trigger] o[b]).0 by {
                assert(o[a].0 == ids@[a] && o[b].0 == ids@[b]);
            }
            assert forall|id: u64| #[trigger] m0.contains_key(id) implies exists|j: int| 0 <= j < o.len() && o[j].0 == id by {
                let j = choose|j: int| 0 <= j < ids@.len() && ids@[j] == id;
                assert(o[j].0 == ids@[j]);
            }
            assert forall|j: int| 0 <= j < o.len() implies m0.contains_key(#[trigger] o[j].0) && o[j].1 == m0[o[j].0] by {
                assert(o[j].0 == ids@[j]);
            }
        }
        out
    }
}

/// What to do with an incoming message.
pub enum Delivery<R> {
    /// Answer the request that waited for this reply.
    Reply { responder: R, outcome: Result<JsonValue, MoonrakerError> },
    /// The message is a notification.
    Notify(JsonRpcMessage),
    /// Neither a reply to a waiting request nor a notification.
    Ignore,
}

/// The answer a reply carries: its error as an `RpcError`, else its result
/// (`Null` when absent).
pub open spec fn reply_outcome(msg: JsonRpcMessage) -> Result<JsonValue, MoonrakerError> {
    match msg.error {
        Some(e) => Err(MoonrakerError::RpcError { code: e.code, message: e.message }),
        None => Ok(
            match msg.result {
                Some(v) => v,
                None => JsonValue::Null,
            },
        ),
    }
}

/// Routes an incoming message: a reply whose id is waiting answers that
/// request (which leaves the table); otherwise a message with a method is a
/// notification, and anything else is dropped.
pub fn route_message<R>(msg: JsonRpcMessage, pending: &mut PendingRequests<R>) -> (d: Delivery<R>)
    ensures
        (msg.id matches Some(id) && old(pending).waiting().contains_key(id)) ==> {
            &&& final(pending).waiting() == old(pending).waiting().remove(msg.id->0)
            &&& d matches Delivery::Reply { responder, outcome }
            &&& responder == old(pending).waiting()[msg.id->0]
            &&& outcome == reply_outcome(msg)
        },
        !(msg.id matches Some(id) && old(pending).waiting().contains_key(id)) ==> {
            &&& final(pending).waiting() == old(pending).waiting()
            &&& msg.method is Some ==> d == Delivery::<R>::Notify(msg)
            &&& msg.method is None ==> d is Ignore
        },
{
    if let Some(id) = msg.id {
        if let Some(responder) = pending.remove(id) {
            let outcome = match msg.error {
                Some(e) => Err(MoonrakerError::RpcError { code: e.code, message: e.message }),
                None => Ok(
                    match msg.result {
                        Some(v) => v,
                        None => JsonValue::Null,
                    },
                ),
            };
            return Delivery::Reply { responder, outcome };
        }
    }
    if msg.method.is_some() {
        Delivery::Notify(msg)
    } else {
        Delivery::Ignore
    }
}

/// Source of request ids: each id handed out is one more than the last,
/// so none is handed out twice.
pub struct RequestIds {
    next: u64,
    /// The ids handed out so far.
    issued: Ghost<Set<u64>>,
}

impl RequestIds {
    #[verifier::type_invariant]
    spec fn issued_below_next(&self) -> bool {
        forall|x: u64| #[trigger] self.issued@.contains(x) ==> x < self.next
    }

    pub closed spec fn next_id(&self) -> nat {
        self.next as nat
    }

    /// The ids handed out so far.
    pub closed spec fn issued(&self) -> Set<u64> {
        self.issued@
    }

    /// Ids start at 1.
    pub fn new() -> (g: Self)
        ensures
            g.next_id() == 1,
            g.issued() == Set::<u64>::empty(),
    {
        RequestIds { next: 1, issued: Ghost(Set::empty()) }
    }

    /// A source whose first id is `next`.
    pub fn starting_at(next: u64) -> (g: Self)
        ensures
            g.next_id() == next,
            g.issued() == Set::<u64>::empty(),
    {
        RequestIds { next, issued: Ghost(Set::empty()) }
    }

    /// The id the next call of `fresh` hands out.
    pub fn next_id_value(&self) -> (r: u64)
        ensures
            r == self.next_id(),
    {
        self.next
    }

    /// A fresh id: one more than the last, and never handed out before by
    /// this source.
    pub fn fresh(&mut self) -> (id: u64)
        requires
            old(self).next_id() < u64::MAX,
        ensures
            id == old(self).next_id(),
            final(self).next_id() == old(self).next_id() + 1,
            !old(self).issued().contains(id),
            final(self).issued() == old(self).issued().insert(id),
    {
        proof {
            use_type_invariant(&*self);
        }
        let id = self.next;
        let issued = Ghost(self.issued@.insert(id));
        *self = RequestIds { next: id + 1, issued };
        id
    }
}

} // verus!
