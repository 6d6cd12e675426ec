//! What the screen shows in answer to Moonraker's notifications, and the
//! printer objects it follows.
use vstd::prelude::*;
use crate::json::JsonValue;
use crate::moonraker::message::Notification;

verus! {

/// What happens to the error banner.
#[derive(Debug, PartialEq, Eq)]
pub enum Banner {
    /// Left as it is.
    Keep,
    /// Shown with this message.
    Show(String),
    /// Hidden.
    Hide,
}

/// The change a notification makes to the screen: the connection
/// indicator (when it changes) and the error banner. Status updates are
/// applied field by field elsewhere and change neither.
#[derive(Debug)]
pub struct ScreenChange {
    pub connected: Option<bool>,
    pub banner: Banner,
}

/// The banner text for a lost connection.
pub open spec fn reconnecting_text() -> Seq<char> {
    "Connection lost \u{2014} reconnecting..."@
}

/// Whether `c` is the change that notification `n` makes.
pub open spec fn change_of(n: Notification, c: ScreenChange) -> bool {
    match n {
        Notification::KlippyDisconnected => c.connected == Some(false) && (c.banner matches Banner::Show(
            m,
        ) && m@ == "Klipper disconnected"@),
        Notification::KlippyError(msg) => c.connected is None && (c.banner matches Banner::Show(m)
            && m@ == msg@),
        Notification::ConnectionState { connected } => c.connected == Some(connected) && if connected {
            c.banner is Hide
        } else {
            c.banner matches Banner::Show(m) && m@ == reconnecting_text()
        },
        _ => c.connected is None && c.banner is Keep,
    }
}

/// The change notification `n` makes to the screen. Klipper becoming ready
/// or shutting down, G-code responses and unknown notifications change
/// nothing (they are only logged).
pub fn screen_change(n: &Notification) -> (c: ScreenChange)
    ensures
        change_of(*n, c),
{
    match n {
        Notification::KlippyDisconnected => ScreenChange {
            connected: Some(false),
            banner: Banner::Show("Klipper disconnected".to_string()),
        },
        Notification::KlippyError(msg) => ScreenChange {
            connected: None,
            banner: Banner::Show(msg.clone()),
        },
        Notification::ConnectionState { connected } => ScreenChange {
            connected: Some(*connected),
            banner: if *connected {
                Banner::Hide
            } else {
                Banner::Show("Connection lost \u{2014} reconnecting...".to_string())
            },
        },
        _ => ScreenChange { connected: None, banner: Banner::Keep },
    }
}

/// Whether the screen subscribes to the printer objects on this
/// notification: when Klipper reports ready and no subscription has
/// succeeded yet.
pub fn should_subscribe(n: &Notification, subscribed: bool) -> (r: bool)
    ensures
        r == (*n is KlippyReady && !subscribed),
{
    match n {
        Notification::KlippyReady => !subscribed,
        _ => false,
    }
}

/// The printer objects the screen follows, in sorted order.
pub open spec fn followed_objects() -> Seq<Seq<char>> {
    seq!["extruder"@, "heater_bed"@, "print_stats"@, "toolhead"@]
}

/// The parameters of the subscription to the followed objects:
/// `{"objects":{name: null, ...}}`, every field of each object.
pub fn status_subscription() -> (p: JsonValue)
    ensures
        p matches JsonValue::Object(top) && top@.len() == 1 && top@[0].0@ == "objects"@ && (
        top@[0].1 matches JsonValue::Object(objs) && objs@.len() == 4 && (forall|i: int|
            0 <= i < 4 ==> (#[trigger] objs@[i]).0@ == followed_objects()[i] && objs@[i].1 is Null)),
{
    let mut objs: Vec<(String, JsonValue)> = Vec::new();
    objs.push(("extruder".to_string(), JsonValue::Null));
    objs.push(("heater_bed".to_string(), JsonValue::Null));
    objs.push(("print_stats".to_string(), JsonValue::Null));
    objs.push(("toolhead".to_string(), JsonValue::Null));
    let mut top: Vec<(String, JsonValue)> = Vec::new();
    top.push(("objects".to_string(), JsonValue::Object(objs)));
    JsonValue::Object(top)
}

} // verus!
