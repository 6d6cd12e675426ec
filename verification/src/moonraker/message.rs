//! JSON-RPC message shapes exchanged with Moonraker, as plain values.
use vstd::prelude::*;
use vstd::string::StringExecFns;
use crate::json::{find_member, json_get, json_text, member_index, write_json, JsonValue};
use crate::text::{dec, push_dec};

verus! {

/// An outgoing JSON-RPC request.
#[derive(Debug)]
pub struct JsonRpcRequest {
    pub jsonrpc: String,
    pub method: String,
    pub params: Option<JsonValue>,
    pub id: u64,
}

/// The compact JSON text of a request: its fields in declaration order,
/// `params` left out when absent.
pub open spec fn request_text(r: JsonRpcRequest) -> Seq<char> {
    "{\"jsonrpc\":"@ + json_text(JsonValue::String(r.jsonrpc)) + ",\"method\":"@ + json_text(
        JsonValue::String(r.method),
    ) + match r.params {
        Some(p) => ",\"params\":"@ + json_text(p),
        None => Seq::empty(),
    } + ",\"id\":"@ + dec(r.id as nat) + "}"@
}

/// The text of every request ends with its id, `,"id":{id}}`, whether or
/// not it has parameters, and begins with its version and method; the
/// parameters are the only field ever left out.
pub proof fn lemma_request_text_shape(r: JsonRpcRequest)
    ensures
        ({
            let t = request_text(r);
            let head = "{\"jsonrpc\":"@ + json_text(JsonValue::String(r.jsonrpc)) + ",\"method\":"@
                + json_text(JsonValue::String(r.method));
            let tail = ",\"id\":"@ + dec(r.id as nat) + "}"@;
            &&& t.len() >= head.len() + tail.len()
            &&& t.subrange(0, head.len() as int) == head
            &&& t.subrange(t.len() - tail.len(), t.len() as int) == tail
            &&& r.params is None ==> t.len() == head.len() + tail.len()
            &&& r.params matches Some(p) ==> t.subrange(
                head.len() as int,
                t.len() - tail.len(),
            ) == ",\"params\":"@ + json_text(p)
        }),
{
    let t = request_text(r);
    let head = "{\"jsonrpc\":"@ + json_text(JsonValue::String(r.jsonrpc)) + ",\"method\":"@ + json_text(
        JsonValue::String(r.method),
    );
    let tail = ",\"id\":"@ + dec(r.id as nat) + "}"@;
    let mid = match r.params {
        Some(p) => ",\"params\":"@ + json_text(p),
        None => Seq::<char>::empty(),
    };
    assert(t == head + mid + tail);
    assert(t.subrange(0, head.len() as int) =~= head);
    assert(t.subrange(t.len() - tail.len(), t.len() as int) =~= tail);
    assert(t.subrange(head.len() as int, t.len() - tail.len()) =~= mid);
}

impl JsonRpcRequest {
    /// A JSON-RPC 2.0 request.
    pub fn new(method: &str, params: Option<JsonValue>, id: u64) -> (r: Self)
        ensures
            r.jsonrpc@ == "2.0"@,
            r.method@ == method@,
            r.params == params,
            r.id == id,
    {
        JsonRpcRequest { jsonrpc: "2.0".to_string(), method: method.to_string(), params, id }
    }

    /// The text sent over the WebSocket.
    pub fn to_text(&self) -> (r: String)
        ensures
            r@ == request_text(*self),
    {
        let mut out = "{\"jsonrpc\":".to_string();
        write_json(&JsonValue::String(self.jsonrpc.clone()), &mut out);
        out.append(",\"method\":");
        write_json(&JsonValue::String(self.method.clone()), &mut out);
        match &self.params {
            Some(p) => {
                out.append(",\"params\":");
                write_json(p, &mut out);
            },
            None => {},
        }
        out.append(",\"id\":");
        push_dec(&mut out, self.id);
        out.append("}");
        out
    }
}

/// The parameters a connection identifies itself with:
/// `{"client_name":..,"type":"web","version":..}` (keys in sorted order).
pub fn identify_params(client_name: &str, version: &str) -> (v: JsonValue)
    ensures
        v matches JsonValue::Object(m) && m@.len() == 3 && m@[0].0@ == "client_name"@
            && m@[1].0@ == "type"@ && m@[2].0@ == "version"@
            && (m@[0].1 matches JsonValue::String(a) && a@ == client_name@)
            && (m@[1].1 matches JsonValue::String(b) && b@ == "web"@)
            && (m@[2].1 matches JsonValue::String(c) && c@ == version@),
{
    let mut members: Vec<(String, JsonValue)> = Vec::new();
    members.push(("client_name".to_string(), JsonValue::String(client_name.to_string())));
    members.push(("type".to_string(), JsonValue::String("web".to_string())));
    members.push(("version".to_string(), JsonValue::String(version.to_string())));
    let v = JsonValue::Object(members);
    v
}

/// The field `field` of the printer object `object` in a status update
/// (`objects[object][field]`).
pub open spec fn status_field_of(objects: Seq<(String, JsonValue)>, object: Seq<char>, field: Seq<char>) -> Option<JsonValue> {
    let i = member_index(objects, object);
    if i < objects.len() {
        json_get(objects[i as int].1, field)
    } else {
        None
    }
}

/// Looks up the field `field` of the printer object `object` in the
/// objects of a status update.
pub fn status_field<'a>(objects: &'a Vec<(String, JsonValue)>, object: &str, field: &str) -> (r: Option<&'a JsonValue>)
    ensures
        r matches Some(v) ==> status_field_of(objects@, object@, field@) == Some(*v),
        r is None ==> status_field_of(objects@, object@, field@) is None,
{
    match find_member(objects, object) {
        Some(o) => o.get(field),
        None => None,
    }
}

/// An incoming JSON-RPC message: a reply (with an id) or a notification
/// (with a method).
#[derive(Debug)]
pub struct JsonRpcMessage {
    pub jsonrpc: Option<String>,
    pub id: Option<u64>,
    pub method: Option<String>,
    pub params: Option<JsonValue>,
    pub result: Option<JsonValue>,
    pub error: Option<JsonRpcError>,
}

#[derive(Debug)]
pub struct JsonRpcError {
    pub code: i64,
    pub message: String,
    pub data: Option<JsonValue>,
}

#[derive(Debug, Clone)]
pub struct ConnectionIdentifyResult {
    pub connection_id: String,
}

#[derive(Debug, Clone)]
pub struct ServerInfo {
    pub klippy_state: Option<String>,
    pub klippy_connected: Option<bool>,
    pub server_version: Option<String>,
}

#[derive(Debug, Clone)]
pub struct GcodeScriptResponse {
    pub result: Option<String>,
}

impl GcodeScriptResponse {
    /// The reply text of a G-code script request: its result, or "ok" when
    /// Moonraker sent none.
    pub fn reply_text(self) -> (r: String)
        ensures
            r@ == match self.result {
                Some(t) => t@,
                None => "ok"@,
            },
    {
        match self.result {
            Some(t) => t,
            None => "ok".to_string(),
        }
    }
}

/// Parsed notification types from the Moonraker WebSocket.
#[derive(Debug)]
pub enum Notification {
    /// `notify_status_update`: changed printer object fields, and the event
    /// time as its JSON number text (absent when not a number).
    StatusUpdate { objects: Vec<(String, JsonValue)>, eventtime: Option<String> },
    KlippyReady,
    KlippyDisconnected,
    KlippyShutdown,
    KlippyError(String),
    GcodeResponse(String),
    Unknown { method: String, params: JsonValue },
    /// WebSocket connection state changed (internal, not from Moonraker).
    ConnectionState { connected: bool },
}

/// A notification as plain values.
pub enum NotificationModel {
    StatusUpdate { objects: Seq<(String, JsonValue)>, eventtime: Option<Seq<char>> },
    KlippyReady,
    KlippyDisconnected,
    KlippyShutdown,
    KlippyError(Seq<char>),
    GcodeResponse(Seq<char>),
    Unknown { method: Seq<char>, params: JsonValue },
    ConnectionState { connected: bool },
}

impl View for Notification {
    type V = NotificationModel;

    open spec fn view(&self) -> NotificationModel {
        match self {
            Notification::StatusUpdate { objects, eventtime } => NotificationModel::StatusUpdate {
                objects: objects@,
                eventtime: match eventtime {
                    Some(t) => Some(t@),
                    None => None,
                },
            },
            Notification::KlippyReady => NotificationModel::KlippyReady,
            Notification::KlippyDisconnected => NotificationModel::KlippyDisconnected,
            Notification::KlippyShutdown => NotificationModel::KlippyShutdown,
            Notification::KlippyError(t) => NotificationModel::KlippyError(t@),
            Notification::GcodeResponse(t) => NotificationModel::GcodeResponse(t@),
            Notification::Unknown { method, params } => NotificationModel::Unknown {
                method: method@,
                params: *params,
            },
            Notification::ConnectionState { connected } => NotificationModel::ConnectionState {
                connected: *connected,
            },
        }
    }
}

/// The text a message parameter is shown as: a string as is, anything else
/// as its JSON text.
pub open spec fn param_text(p: JsonValue) -> Seq<char> {
    match p {
        JsonValue::String(s) => s@,
        _ => json_text(p),
    }
}

/// The notification a message carries: none without a method; a status
/// update needs array parameters (first item: the changed objects when an
/// object, second: the event time when a number); other known methods map
/// to their variants and unknown ones keep method and parameters
/// (`Null` when absent).
pub open spec fn notification_of(msg: JsonRpcMessage) -> Option<NotificationModel> {
    match msg.method {
        None => None,
        Some(m) => {
            let params = match msg.params {
                Some(p) => p,
                None => JsonValue::Null,
            };
            if m@ == "notify_status_update"@ {
                match params {
                    JsonValue::Array(a) => Some(
                        NotificationModel::StatusUpdate {
                            objects: if a@.len() > 0 && a@[0] is Object {
                                a@[0]->Object_0@
                            } else {
                                Seq::empty()
                            },
                            eventtime: if a@.len() > 1 && a@[1] is Number {
                                Some(a@[1]->Number_0@)
                            } else {
                                None
                            },
                        },
                    ),
                    _ => None,
                }
            } else if m@ == "notify_klippy_ready"@ {
                Some(NotificationModel::KlippyReady)
            } else if m@ == "notify_klippy_disconnected"@ {
                Some(NotificationModel::KlippyDisconnected)
            } else if m@ == "notify_klippy_shutdown"@ {
                Some(NotificationModel::KlippyShutdown)
            } else if m@ == "notify_klippy_error"@ {
                Some(NotificationModel::KlippyError(param_text(params)))
            } else if m@ == "notify_gcode_response"@ {
                Some(NotificationModel::GcodeResponse(param_text(params)))
            } else {
                Some(NotificationModel::Unknown { method: m@, params })
            }
        },
    }
}

/// A status update keeps every changed object: its objects are exactly
/// the members of the first parameter, all of them and in order, and its
/// event time is the text of the second parameter when that is a number.
pub proof fn lemma_status_update_objects(
    msg: JsonRpcMessage,
    a: Vec<JsonValue>,
    o: Vec<(String, JsonValue)>,
)
    requires
        msg.method matches Some(m) && m@ == "notify_status_update"@,
        msg.params == Some(JsonValue::Array(a)),
        a@.len() > 0,
        a@[0] == JsonValue::Object(o),
    ensures
        notification_of(msg) matches Some(NotificationModel::StatusUpdate { objects, eventtime })
            && objects.len() == o@.len() && (forall|i: int|
            0 <= i < o@.len() ==> #[trigger] objects[i] == o@[i]) && (a@.len() > 1 && a@[1] is Number
            ==> eventtime == Some(a@[1]->Number_0@)) && (!(a@.len() > 1 && a@[1] is Number)
            ==> eventtime is None),
{
}

/// Replies carry no notification; a Klipper error or G-code response whose
/// parameter is a string carries that string; a method that is not one of
/// the known notifications is kept with its parameters (`Null` when there
/// are none).
pub proof fn lemma_notification_kinds(msg: JsonRpcMessage)
    ensures
        msg.method is None ==> notification_of(msg) is None,
        (msg.method matches Some(m) && m@ == "notify_klippy_error"@ && msg.params matches Some(
            JsonValue::String(t),
        )) ==> notification_of(msg) == Some(NotificationModel::KlippyError(msg.params->0->String_0@)),
        (msg.method matches Some(m) && m@ == "notify_gcode_response"@ && msg.params matches Some(
            JsonValue::String(t),
        )) ==> notification_of(msg) == Some(NotificationModel::GcodeResponse(msg.params->0->String_0@)),
        (msg.method matches Some(m) && m@ != "notify_status_update"@ && m@ != "notify_klippy_ready"@
            && m@ != "notify_klippy_disconnected"@ && m@ != "notify_klippy_shutdown"@ && m@
            != "notify_klippy_error"@ && m@ != "notify_gcode_response"@) ==> notification_of(msg)
            == Some(
            NotificationModel::Unknown {
                method: msg.method->0@,
                params: match msg.params {
                    Some(p) => p,
                    None => JsonValue::Null,
                },
            },
        ),
{
    reveal_strlit("notify_status_update");
    reveal_strlit("notify_klippy_ready");
    reveal_strlit("notify_klippy_disconnected");
    reveal_strlit("notify_klippy_shutdown");
    reveal_strlit("notify_klippy_error");
    reveal_strlit("notify_gcode_response");
    let e = "notify_klippy_error"@;
    let g = "notify_gcode_response"@;
    assert(e != "notify_status_update"@ && e != "notify_klippy_ready"@ && e != "notify_klippy_disconnected"@
        && e != "notify_klippy_shutdown"@) by {
        assert(e[14] != "notify_klippy_ready"@[14]);
        assert(e.len() != "notify_status_update"@.len());
        assert(e.len() != "notify_klippy_disconnected"@.len());
        assert(e.len() != "notify_klippy_shutdown"@.len());
    }
    assert(g != "notify_status_update"@ && g != "notify_klippy_ready"@ && g != "notify_klippy_disconnected"@
        && g != "notify_klippy_shutdown"@ && g != e) by {
        assert(g.len() != "notify_status_update"@.len());
        assert(g.len() != "notify_klippy_ready"@.len());
        assert(g.len() != "notify_klippy_disconnected"@.len());
        assert(g[7] != "notify_klippy_shutdown"@[7]);
        assert(g.len() != e.len());
    }
}

fn text_of_param(p: &JsonValue) -> (r: String)
    ensures
        r@ == param_text(*p),
{
    match p {
        JsonValue::String(s) => s.clone(),
        _ => {
            let mut out = String::new();
            write_json(p, &mut out);
            assert(out@ =~= json_text(*p));
            out
        },
    }
}

impl Notification {
    /// The notification a message carries (see `notification_of`);
    /// `None` for replies, which have no method.
    pub fn from_message(msg: JsonRpcMessage) -> (r: Option<Self>)
        ensures
            r matches Some(n) ==> notification_of(msg) == Some(n@),
            r is None ==> notification_of(msg) is None,
    {
        let ghost msg0 = msg;
        let method = match msg.method {
            Some(m) => m,
            None => return None,
        };
        let params = match msg.params {
            Some(p) => p,
            None => JsonValue::Null,
        };
        if method == "notify_status_update".to_string() {
            match params {
                JsonValue::Array(a) => {
                    let mut a = a;
                    let ghost a0 = a@;
                    let eventtime = if a.len() > 1 {
                        match &a[1] {
                            JsonValue::Number(t) => Some(t.clone()),
                            _ => None,
                        }
                    } else {
                        None
                    };
                    let objects = if a.len() > 0 {
                        match a.remove(0) {
                            JsonValue::Object(m) => m,
                            _ => Vec::new(),
                        }
                    } else {
                        Vec::new()
                    };
                    proof {
                        assert(objects@ =~= if a0.len() > 0 && a0[0] is Object {
                            a0[0]->Object_0@
                        } else {
                            Seq::<(String, JsonValue)>::empty()
                        });
                    }
                    Some(Notification::StatusUpdate { objects, eventtime })
                },
                _ => None,
            }
        } else if method == "notify_klippy_ready".to_string() {
            Some(Notification::KlippyReady)
        } else if method == "notify_klippy_disconnected".to_string() {
            Some(Notification::KlippyDisconnected)
        } else if method == "notify_klippy_shutdown".to_string() {
            Some(Notification::KlippyShutdown)
        } else if method == "notify_klippy_error".to_string() {
            Some(Notification::KlippyError(text_of_param(&params)))
        } else if method == "notify_gcode_response".to_string() {
            Some(Notification::GcodeResponse(text_of_param(&params)))
        } else {
            Some(Notification::Unknown { method, params })
        }
    }
}

} // verus!
