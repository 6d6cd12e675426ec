//! The decisions of the task that keeps the Moonraker WebSocket connected:
//! each event of the connection (connected, lost, a request, a message, a
//! failed send, shutdown) goes to a `Session`, which says what to do next.
//! The task itself performs the I/O and the waiting.
use vstd::prelude::*;
use crate::json::JsonValue;
use crate::moonraker::client::{
    delay_after, next_delay, reply_outcome, route_message, Backoff, Delivery,
    MoonrakerConfig, MoonrakerError, PendingRequests, RequestIds,
};
use crate::moonraker::message::{identify_params, JsonRpcMessage, JsonRpcRequest, Notification};

verus! {

/// A request that fails, with the error its responder is sent.
pub struct Failed<R> {
    pub id: u64,
    pub responder: R,
    pub error: MoonrakerError,
}

/// Whether `failed` holds exactly the requests of `waiting` (each once,
/// with its responder), every one with an error that `is_error` accepts.
pub open spec fn fails_all<R>(
    failed: Seq<Failed<R>>,
    waiting: Map<u64, R>,
    is_error: spec_fn(MoonrakerError) -> bool,
) -> bool {
    &&& failed.len() == waiting.len()
    &&& forall|i: int|
        0 <= i < failed.len() ==> waiting.contains_key(#[trigger] failed[i].id) && failed[i].responder
            == waiting[failed[i].id] && is_error(failed[i].error)
    &&& forall|i: int, j: int| 0 <= i < j < failed.len() ==> (#[trigger] failed[i]).id != (#[trigger] failed[j]).id
    &&& forall|id: u64| #[trigger] waiting.contains_key(id) ==> exists|i: int| 0 <= i < failed.len() && failed[i].id == id
}

/// `WebSocketError("disconnected")`.
pub open spec fn is_disconnected(e: MoonrakerError) -> bool {
    e matches MoonrakerError::WebSocketError(m) && m@ == "disconnected"@
}

/// `ChannelClosed`.
pub open spec fn is_channel_closed(e: MoonrakerError) -> bool {
    e is ChannelClosed
}

/// State of the connection task: the reconnection backoff, the requests
/// awaiting a reply, the ids of its own requests, and how it identifies
/// itself.
pub struct Session<R> {
    backoff: Backoff,
    pending: PendingRequests<R>,
    ids: RequestIds,
    client_name: String,
    client_version: String,
}

impl<R> Session<R> {
    /// The wait before the next reconnection attempt, in milliseconds.
    pub closed spec fn wait(&self) -> nat {
        self.backoff.delay()
    }

    pub closed spec fn min_wait(&self) -> nat {
        self.backoff.min()
    }

    pub closed spec fn max_wait(&self) -> nat {
        self.backoff.max()
    }

    /// The requests awaiting a reply, by id.
    pub closed spec fn waiting(&self) -> Map<u64, R> {
        self.pending.waiting()
    }

    /// The id of the next request the task makes itself.
    pub closed spec fn next_id(&self) -> nat {
        self.ids.next_id()
    }

    /// Failed connection attempts and lost connections since the last
    /// successful connection.
    pub closed spec fn failures(&self) -> nat {
        self.backoff.failures()
    }

    /// The ids of the task's own requests handed out so far.
    pub closed spec fn issued(&self) -> Set<u64> {
        self.ids.issued()
    }

    pub closed spec fn name(&self) -> Seq<char> {
        self.client_name@
    }

    pub closed spec fn version(&self) -> Seq<char> {
        self.client_version@
    }

    /// A session before the first connection: nothing waits, the first
    /// failure waits the configured minimum, own ids start at 1.
    pub fn new(config: &MoonrakerConfig) -> (s: Self)
        ensures
            s.wait() == config.reconnect_delay_min_ms,
            s.min_wait() == config.reconnect_delay_min_ms,
            s.max_wait() == config.reconnect_delay_max_ms,
            s.waiting() == Map::<u64, R>::empty(),
            s.next_id() == 1,
            s.failures() == 0,
            s.issued() == Set::<u64>::empty(),
            s.name() == config.client_name@,
            s.version() == config.client_version@,
    {
        Session {
            backoff: Backoff::new(config.reconnect_delay_min_ms, config.reconnect_delay_max_ms),
            pending: PendingRequests::new(),
            ids: RequestIds::new(),
            client_name: config.client_name.clone(),
            client_version: config.client_version.clone(),
        }
    }

    /// The id the next identify request will carry.
    pub fn next_request_id(&self) -> (r: u64)
        ensures
            r == self.next_id(),
    {
        self.ids.next_id_value()
    }

    /// A client request: it waits for its reply under its id (one that
    /// waited under the same id is dropped and returned).
    pub fn on_request(&mut self, id: u64, responder: R) -> (r: Option<R>)
        ensures
            final(self).waiting() == old(self).waiting().insert(id, responder),
            old(self).waiting().contains_key(id) ==> r == Some(old(self).waiting()[id]),
            !old(self).waiting().contains_key(id) ==> r is None,
            final(self).wait() == old(self).wait(),
            final(self).next_id() == old(self).next_id(),
            final(self).min_wait() == old(self).min_wait(),
            final(self).max_wait() == old(self).max_wait(),
            final(self).name() == old(self).name(),
            final(self).version() == old(self).version(),
            final(self).issued() == old(self).issued(),
            final(self).failures() == old(self).failures(),
    {
        self.pending.insert(id, responder)
    }

    /// The WebSocket connected: the backoff starts over and the task
    /// identifies itself with `server.connection.identify`.
    pub fn on_connected(&mut self) -> (req: JsonRpcRequest)
        requires
            old(self).next_id() < u64::MAX,
        ensures
            final(self).wait() == old(self).min_wait(),
            final(self).next_id() == old(self).next_id() + 1,
            req.jsonrpc@ == "2.0"@,
            req.method@ == "server.connection.identify"@,
            req.id == old(self).next_id(),
            !old(self).issued().contains(req.id),
            req.params matches Some(p) && p matches JsonValue::Object(m) && m@.len() == 3
                && m@[0].0@ == "client_name"@ && m@[1].0@ == "type"@ && m@[2].0@ == "version"@
                && (m@[0].1 matches JsonValue::String(a) && a@ == old(self).name())
                && (m@[1].1 matches JsonValue::String(b) && b@ == "web"@)
                && (m@[2].1 matches JsonValue::String(c) && c@ == old(self).version()),
            final(self).waiting() == old(self).waiting(),
            final(self).min_wait() == old(self).min_wait(),
            final(self).max_wait() == old(self).max_wait(),
            final(self).name() == old(self).name(),
            final(self).version() == old(self).version(),
            final(self).issued() == old(self).issued().insert(req.id),
            final(self).failures() == 0,
    {
        self.backoff.reset();
        let id = self.ids.fresh();
        let params = identify_params(self.client_name.as_str(), self.client_version.as_str());
        JsonRpcRequest::new("server.connection.identify", Some(params), id)
    }

    /// A connection attempt failed, or the identify request could not be
    /// sent: wait the returned time, and twice as long (up to the maximum)
    /// after the next failure. The `k`-th failure since the last successful
    /// connection (counting from 0) waits `delay_after(min, max, k)`. The
    /// screen is told that the printer is not connected.
    pub fn on_connect_failed(&mut self) -> (r: (u64, Notification))
        ensures
            r.0 == old(self).wait(),
            r.0 == delay_after(old(self).min_wait(), old(self).max_wait(), old(self).failures()),
            r.1 == (Notification::ConnectionState { connected: false }),
            final(self).wait() == next_delay(old(self).wait(), old(self).max_wait()),
            final(self).waiting() == old(self).waiting(),
            final(self).next_id() == old(self).next_id(),
            final(self).min_wait() == old(self).min_wait(),
            final(self).max_wait() == old(self).max_wait(),
            final(self).name() == old(self).name(),
            final(self).version() == old(self).version(),
            final(self).issued() == old(self).issued(),
            final(self).failures() == old(self).failures() + 1,
    {
        let wait = self.backoff.on_failure();
        (wait, Notification::ConnectionState { connected: false })
    }

    /// An incoming message: a reply answers the request it is for, which
    /// stops waiting (see `route_message`).
    pub fn on_message(&mut self, msg: JsonRpcMessage) -> (d: Delivery<R>)
        ensures
            (msg.id matches Some(id) && old(self).waiting().contains_key(id)) ==> {
                &&& final(self).waiting() == old(self).waiting().remove(msg.id->0)
                &&& d matches Delivery::Reply { responder, outcome }
                &&& responder == old(self).waiting()[msg.id->0]
                &&& outcome == reply_outcome(msg)
            },
            !(msg.id matches Some(id) && old(self).waiting().contains_key(id)) ==> {
                &&& final(self).waiting() == old(self).waiting()
                &&& msg.method is Some ==> d == Delivery::<R>::Notify(msg)
                &&& msg.method is None ==> d is Ignore
            },
            final(self).wait() == old(self).wait(),
            final(self).next_id() == old(self).next_id(),
            final(self).min_wait() == old(self).min_wait(),
            final(self).max_wait() == old(self).max_wait(),
            final(self).name() == old(self).name(),
            final(self).version() == old(self).version(),
            final(self).issued() == old(self).issued(),
            final(self).failures() == old(self).failures(),
    {
        route_message(msg, &mut self.pending)
    }

    /// A request could not be sent: it stops waiting and fails with
    /// `WebSocketError(reason)`.
    pub fn on_send_failed(&mut self, id: u64, reason: String) -> (r: Option<Failed<R>>)
        ensures
            final(self).waiting() == old(self).waiting().remove(id),
            old(self).waiting().contains_key(id) ==> (r matches Some(f) && f.id == id && f.responder
                == old(self).waiting()[id] && f.error == MoonrakerError::WebSocketError(reason)),
            !old(self).waiting().contains_key(id) ==> r is None,
            final(self).wait() == old(self).wait(),
            final(self).next_id() == old(self).next_id(),
            final(self).min_wait() == old(self).min_wait(),
            final(self).max_wait() == old(self).max_wait(),
            final(self).name() == old(self).name(),
            final(self).version() == old(self).version(),
            final(self).issued() == old(self).issued(),
            final(self).failures() == old(self).failures(),
    {
        match self.pending.remove(id) {
            Some(responder) => Some(
                Failed { id, responder, error: MoonrakerError::WebSocketError(reason) },
            ),
            None => None,
        }
    }

    fn fail_all(&mut self, disconnected: bool) -> (failed: Vec<Failed<R>>)
        ensures
            final(self).waiting() == Map::<u64, R>::empty(),
            fails_all(
                failed@,
                old(self).waiting(),
                if disconnected {
                    |e: MoonrakerError| is_disconnected(e)
                } else {
                    |e: MoonrakerError| is_channel_closed(e)
                },
            ),
            final(self).wait() == old(self).wait(),
            final(self).next_id() == old(self).next_id(),
            final(self).min_wait() == old(self).min_wait(),
            final(self).max_wait() == old(self).max_wait(),
            final(self).name() == old(self).name(),
            final(self).version() == old(self).version(),
            final(self).issued() == old(self).issued(),
            final(self).failures() == old(self).failures(),
    {
        let ghost w = self.waiting();
        let mut all = self.pending.take_all();
        let ghost all0 = all@;
        let ghost is_error = if disconnected {
            |e: MoonrakerError| is_disconnected(e)
        } else {
            |e: MoonrakerError| is_channel_closed(e)
        };
        let mut failed: Vec<Failed<R>> = Vec::new();
        let n = all.len();
        while all.len() > 0
            invariant
                all@.len() + failed@.len() == n,
                n == all0.len(),
                all@ == all0.take(all@.len() as int),
                forall|j: int|
                    0 <= j < failed@.len() ==> (#[trigger] failed@[j]).id == all0[n - 1 - j].0
                        && failed@[j].responder == all0[n - 1 - j].1 && is_error(failed@[j].error),
                is_error == (if disconnected {
                    |e: MoonrakerError| is_disconnected(e)
                } else {
                    |e: MoonrakerError| is_channel_closed(e)
                }),
            decreases all@.len(),
        {
            let (id, responder) = all.pop().unwrap();
            let error = if disconnected {
                MoonrakerError::WebSocketError("disconnected".to_string())
            } else {
                MoonrakerError::ChannelClosed
            };
            failed.push(Failed { id, responder, error });
            proof {
                assert(all@ =~= all0.take(all@.len() as int));
            }
        }
        proof {
            let f = failed@;
            assert forall|i: int|
                0 <= i < f.len() implies w.contains_key(#[trigger] f[i].id) && f[i].responder == w[f[i].id]
                && is_error(f[i].error) by {
                assert(f[i].id == all0[n - 1 - i].0);
            }
            assert forall|i: int, j: int| 0 <= i < j < f.len() implies (#[trigger] f[i]).id != (#[trigger] f[j]).id by {
                assert(f[i].id == all0[n - 1 - i].0);
                assert(f[j].id == all0[n - 1 - j].0);
            }
            assert forall|id: u64| #[trigger] w.contains_key(id) implies exists|i: int|
                0 <= i < f.len() && f[i].id == id by {
                let k = choose|k: int| 0 <= k < all0.len() && all0[k].0 == id;
                assert(f[n - 1 - k].id == all0[k].0);
            }
        }
        failed
    }

    /// The connection was lost: every waiting request fails with
    /// `WebSocketError("disconnected")`; wait the returned time before
    /// reconnecting, and twice as long (up to the maximum) after the next
    /// failure. The screen is told twice that the printer is not connected
    /// (once as the connection ends, once before the wait).
    pub fn on_connection_lost(&mut self) -> (r: (Vec<Failed<R>>, u64, Vec<Notification>))
        ensures
            r.2@.len() == 2,
            forall|i: int| 0 <= i < 2 ==> r.2@[i] == (Notification::ConnectionState { connected: false }),
            final(self).waiting() == Map::<u64, R>::empty(),
            fails_all(r.0@, old(self).waiting(), |e: MoonrakerError| is_disconnected(e)),
            r.1 == old(self).wait(),
            r.1 == delay_after(old(self).min_wait(), old(self).max_wait(), old(self).failures()),
            final(self).wait() == next_delay(old(self).wait(), old(self).max_wait()),
            final(self).next_id() == old(self).next_id(),
            final(self).min_wait() == old(self).min_wait(),
            final(self).max_wait() == old(self).max_wait(),
            final(self).name() == old(self).name(),
            final(self).version() == old(self).version(),
            final(self).issued() == old(self).issued(),
            final(self).failures() == old(self).failures() + 1,
    {
        let failed = self.fail_all(true);
        let wait = self.backoff.on_failure();
        let mut notices: Vec<Notification> = Vec::new();
        notices.push(Notification::ConnectionState { connected: false });
        notices.push(Notification::ConnectionState { connected: false });
        (failed, wait, notices)
    }

    /// Shutdown: every waiting request fails with `ChannelClosed`.
    pub fn on_shutdown(&mut self) -> (failed: Vec<Failed<R>>)
        ensures
            final(self).waiting() == Map::<u64, R>::empty(),
            fails_all(failed@, old(self).waiting(), |e: MoonrakerError| is_channel_closed(e)),
            final(self).wait() == old(self).wait(),
            final(self).next_id() == old(self).next_id(),
            final(self).min_wait() == old(self).min_wait(),
            final(self).max_wait() == old(self).max_wait(),
            final(self).name() == old(self).name(),
            final(self).version() == old(self).version(),
            final(self).issued() == old(self).issued(),
            final(self).failures() == old(self).failures(),
    {
        self.fail_all(false)
    }
}

} // verus!
