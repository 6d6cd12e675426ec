//! Fan control state for the controls screen.
use vstd::prelude::*;
use vstd::string::StringExecFns;
use crate::text::{hundredths, push_hundredths};

verus! {

/// A requested speed limited to 100%.
pub open spec fn clamp_percent(v: u8) -> u8 {
    if v < 100 { v } else { 100 }
}

/// Fan control state: each fan speed is stored as 0-100% and rendered as
/// 0.00-1.00 in G-code.
pub struct FanControl {
    pub part_cooling: u8,
    pub aux_fan: u8,
    pub controller_fan: u8,
    /// Exhaust fan speed (0-100%). Uses SET_PIN instead of SET_FAN_SPEED.
    pub exhaust_fan: u8,
}

impl FanControl {
    /// A new FanControl with all fans off.
    pub fn new() -> (f: Self)
        ensures
            f.part_cooling == 0,
            f.aux_fan == 0,
            f.controller_fan == 0,
            f.exhaust_fan == 0,
    {
        FanControl { part_cooling: 0, aux_fan: 0, controller_fan: 0, exhaust_fan: 0 }
    }

    pub fn set_part_cooling(&mut self, speed: u8)
        ensures
            final(self).part_cooling == clamp_percent(speed),
            final(self).aux_fan == old(self).aux_fan,
            final(self).controller_fan == old(self).controller_fan,
            final(self).exhaust_fan == old(self).exhaust_fan,
    {
        self.part_cooling = if speed < 100 { speed } else { 100 };
    }

    pub fn set_aux_fan(&mut self, speed: u8)
        ensures
            final(self).aux_fan == clamp_percent(speed),
            final(self).part_cooling == old(self).part_cooling,
            final(self).controller_fan == old(self).controller_fan,
            final(self).exhaust_fan == old(self).exhaust_fan,
    {
        self.aux_fan = if speed < 100 { speed } else { 100 };
    }

    pub fn set_controller_fan(&mut self, speed: u8)
        ensures
            final(self).controller_fan == clamp_percent(speed),
            final(self).part_cooling == old(self).part_cooling,
            final(self).aux_fan == old(self).aux_fan,
            final(self).exhaust_fan == old(self).exhaust_fan,
    {
        self.controller_fan = if speed < 100 { speed } else { 100 };
    }

    pub fn set_exhaust_fan(&mut self, speed: u8)
        ensures
            final(self).exhaust_fan == clamp_percent(speed),
            final(self).part_cooling == old(self).part_cooling,
            final(self).aux_fan == old(self).aux_fan,
            final(self).controller_fan == old(self).controller_fan,
    {
        self.exhaust_fan = if speed < 100 { speed } else { 100 };
    }

    pub fn part_cooling_gcode(&self) -> (r: String)
        ensures
            r@ == "SET_FAN_SPEED FAN="@ + "part_fan"@ + " SPEED="@ + hundredths(self.part_cooling as nat),
    {
        format_fan_speed("part_fan", self.part_cooling)
    }

    pub fn aux_fan_gcode(&self) -> (r: String)
        ensures
            r@ == "SET_FAN_SPEED FAN="@ + "aux_fan"@ + " SPEED="@ + hundredths(self.aux_fan as nat),
    {
        format_fan_speed("aux_fan", self.aux_fan)
    }

    pub fn controller_fan_gcode(&self) -> (r: String)
        ensures
            r@ == "SET_FAN_SPEED FAN="@ + "controller_fan"@ + " SPEED="@ + hundredths(
                self.controller_fan as nat,
            ),
    {
        format_fan_speed("controller_fan", self.controller_fan)
    }

    /// G-code for the exhaust fan: SET_PIN, since the exhaust is a digital output.
    pub fn exhaust_fan_gcode(&self) -> (r: String)
        ensures
            r@ == "SET_PIN PIN="@ + "exhaust_fan"@ + " VALUE="@ + hundredths(self.exhaust_fan as nat),
    {
        format_output_pin("exhaust_fan", self.exhaust_fan)
    }
}

/// The fans that have a toggle on the fans screen.
#[derive(Debug, Clone, Copy, PartialEq, Eq)]
pub enum Fan {
    PartCooling,
    Aux,
    Controller,
    /// Driven through an output pin.
    Exhaust,
}

/// The G-code that switches a fan fully on (`1.00`) or off (`0.00`).
pub open spec fn switch_text(fan: Fan, on: bool) -> Seq<char> {
    let v = if on {
        "1.00"@
    } else {
        "0.00"@
    };
    match fan {
        Fan::PartCooling => "SET_FAN_SPEED FAN=part_fan SPEED="@ + v,
        Fan::Aux => "SET_FAN_SPEED FAN=aux_fan SPEED="@ + v,
        Fan::Controller => "SET_FAN_SPEED FAN=controller_fan SPEED="@ + v,
        Fan::Exhaust => "SET_PIN PIN=exhaust_fan VALUE="@ + v,
    }
}

/// A fan's switch G-code ends in `1.00` exactly when it switches the fan
/// on and in `0.00` exactly when it switches it off; switching on and
/// switching off the same fan differ only in those four characters.
pub proof fn lemma_switch_text_value(fan: Fan, on: bool)
    ensures
        ({
            let t = switch_text(fan, on);
            let u = switch_text(fan, !on);
            &&& t.len() >= 4 && u.len() == t.len()
            &&& t.subrange(t.len() - 4, t.len() as int) == (if on {
                "1.00"@
            } else {
                "0.00"@
            })
            &&& t.subrange(0, t.len() - 4) == u.subrange(0, u.len() - 4)
            &&& t != u
        }),
{
    reveal_strlit("1.00");
    reveal_strlit("0.00");
    let t = switch_text(fan, on);
    let u = switch_text(fan, !on);
    let (pre, v, w) = match fan {
        Fan::PartCooling => ("SET_FAN_SPEED FAN=part_fan SPEED="@, if on { "1.00"@ } else { "0.00"@ }, if on { "0.00"@ } else { "1.00"@ }),
        Fan::Aux => ("SET_FAN_SPEED FAN=aux_fan SPEED="@, if on { "1.00"@ } else { "0.00"@ }, if on { "0.00"@ } else { "1.00"@ }),
        Fan::Controller => ("SET_FAN_SPEED FAN=controller_fan SPEED="@, if on { "1.00"@ } else { "0.00"@ }, if on { "0.00"@ } else { "1.00"@ }),
        Fan::Exhaust => ("SET_PIN PIN=exhaust_fan VALUE="@, if on { "1.00"@ } else { "0.00"@ }, if on { "0.00"@ } else { "1.00"@ }),
    };
    assert(t == pre + v);
    assert(u == pre + w);
    assert(t.subrange(t.len() - 4, t.len() as int) =~= v);
    assert(t.subrange(0, t.len() - 4) =~= pre);
    assert(u.subrange(0, u.len() - 4) =~= pre);
    assert(v[0] != w[0] || v[3] != w[3] || v != w);
    assert(t[t.len() - 4] == v[0] && u[u.len() - 4] == w[0]);
}

impl FanControl {
    /// A fan's toggle button: the fan's new state (the opposite of
    /// `was_on`) and the G-code that switches it fully on or off.
    pub fn toggle(fan: Fan, was_on: bool) -> (r: (bool, String))
        ensures
            r.0 == !was_on,
            r.1@ == switch_text(fan, !was_on),
    {
        let on = !was_on;
        let mut s = match fan {
            Fan::PartCooling => "SET_FAN_SPEED FAN=part_fan SPEED=".to_string(),
            Fan::Aux => "SET_FAN_SPEED FAN=aux_fan SPEED=".to_string(),
            Fan::Controller => "SET_FAN_SPEED FAN=controller_fan SPEED=".to_string(),
            Fan::Exhaust => "SET_PIN PIN=exhaust_fan VALUE=".to_string(),
        };
        if on {
            s.append("1.00");
        } else {
            s.append("0.00");
        }
        (on, s)
    }
}

impl Default for FanControl {
    fn default() -> (f: Self)
        ensures
            f.part_cooling == 0,
            f.aux_fan == 0,
            f.controller_fan == 0,
            f.exhaust_fan == 0,
    {
        Self::new()
    }
}

/// `SET_FAN_SPEED FAN={fan_name} SPEED={speed/100 with two decimals}`.
pub fn format_fan_speed(fan_name: &str, speed: u8) -> (r: String)
    ensures
        r@ == "SET_FAN_SPEED FAN="@ + fan_name@ + " SPEED="@ + hundredths(speed as nat),
{
    let mut s = "SET_FAN_SPEED FAN=".to_string();
    s.append(fan_name);
    s.append(" SPEED=");
    push_hundredths(&mut s, speed as u64);
    s
}

/// `SET_PIN PIN={pin_name} VALUE={value/100 with two decimals}`.
pub fn format_output_pin(pin_name: &str, value: u8) -> (r: String)
    ensures
        r@ == "SET_PIN PIN="@ + pin_name@ + " VALUE="@ + hundredths(value as nat),
{
    let mut s = "SET_PIN PIN=".to_string();
    s.append(pin_name);
    s.append(" VALUE=");
    push_hundredths(&mut s, value as u64);
    s
}

} // verus!
