//! Chamber LED control state for the controls screen.
use vstd::prelude::*;
use crate::text::{dec, digit_char, push_char, push_dec};

verus! {

/// Tenths of `brightness / 100`, as `{:.1}` rounds `brightness as f64 / 100.0`:
/// to nearest, except at 15, 25, 35, 85 and 95, whose nearest double lies at
/// or below the midpoint and so rounds down.
pub open spec fn brightness_tenths(brightness: nat) -> nat {
    if brightness == 15 || brightness == 25 || brightness == 35 || brightness == 85 || brightness
        == 95 {
        brightness / 10
    } else {
        (brightness + 5) / 10
    }
}

/// The one-decimal brightness is the fraction `brightness / 100` to the
/// nearest tenth: never more than half a tenth away, and within 0.0-1.0.
pub proof fn lemma_brightness_nearest_tenth(brightness: nat)
    requires
        brightness <= 100,
    ensures
        10 * brightness_tenths(brightness) <= brightness + 5,
        brightness <= 10 * brightness_tenths(brightness) + 5,
        brightness_tenths(brightness) <= 10,
        brightness % 10 < 5 ==> brightness_tenths(brightness) == brightness / 10,
        brightness % 10 > 5 ==> brightness_tenths(brightness) == brightness / 10 + 1,
{
}

/// The brightness fraction with one decimal (`0.0` to `1.0`).
pub open spec fn brightness_text(brightness: nat) -> Seq<char> {
    let t = brightness_tenths(brightness);
    dec(t / 10) + seq!['.', digit_char(t % 10)]
}

/// LED control state: chamber light on/off and brightness (0-100%),
/// rendered as `SET_LED LED=chamber_light WHITE={value}`.
pub struct LedControl {
    is_on: bool,
    brightness: u8,
}

impl LedControl {
    #[verifier::type_invariant]
    spec fn brightness_in_range(&self) -> bool {
        self.brightness <= 100
    }

    pub closed spec fn on(&self) -> bool {
        self.is_on
    }

    pub closed spec fn level(&self) -> u8 {
        self.brightness
    }

    /// A new LedControl: off, 50% brightness.
    pub fn new() -> (l: Self)
        ensures
            !l.on(),
            l.level() == 50,
    {
        LedControl { is_on: false, brightness: 50 }
    }

    pub fn toggle(&mut self)
        ensures
            final(self).on() == !old(self).on(),
            final(self).level() == old(self).level(),
    {
        proof {
            use_type_invariant(&*self);
        }
        self.is_on = !self.is_on;
    }

    pub fn set_on(&mut self, on: bool)
        ensures
            final(self).on() == on,
            final(self).level() == old(self).level(),
    {
        proof {
            use_type_invariant(&*self);
        }
        self.is_on = on;
    }

    pub fn is_on(&self) -> (b: bool)
        ensures
            b == self.on(),
    {
        self.is_on
    }

    /// Sets the brightness, limited to 100.
    pub fn set_brightness(&mut self, brightness: u8)
        ensures
            final(self).level() == if brightness < 100 { brightness } else { 100 },
            final(self).on() == old(self).on(),
    {
        self.brightness = if brightness < 100 { brightness } else { 100 };
    }

    pub fn brightness(&self) -> (b: u8)
        ensures
            b == self.level(),
            b <= 100,
    {
        proof {
            use_type_invariant(self);
        }
        self.brightness
    }

    /// G-code to turn the LED on at the current brightness.
    pub fn led_on_gcode(&self) -> (r: String)
        ensures
            r@ == "SET_LED LED=chamber_light WHITE="@ + brightness_text(self.level() as nat),
    {
        self.set_brightness_gcode()
    }

    pub fn led_off_gcode(&self) -> (r: String)
        ensures
            r@ == "SET_LED LED=chamber_light WHITE=0.0"@,
    {
        "SET_LED LED=chamber_light WHITE=0.0".to_string()
    }

    /// G-code to set the LED brightness, as a 0.0-1.0 fraction with one decimal.
    pub fn set_brightness_gcode(&self) -> (r: String)
        ensures
            r@ == "SET_LED LED=chamber_light WHITE="@ + brightness_text(self.level() as nat),
    {
        proof {
            use_type_invariant(self);
        }
        let b = self.brightness as u64;
        let t: u64 = if b == 15 || b == 25 || b == 35 || b == 85 || b == 95 {
            b / 10
        } else {
            (b + 5) / 10
        };
        let mut s = "SET_LED LED=chamber_light WHITE=".to_string();
        push_dec(&mut s, t / 10);
        push_char(&mut s, '.');
        let d: u8 = 48u8 + ((t % 10) as u8);
        push_char(&mut s, d as char);
        assert(s@ =~= "SET_LED LED=chamber_light WHITE="@ + brightness_text(self.level() as nat));
        s
    }
}

impl Default for LedControl {
    fn default() -> (l: Self)
        ensures
            !l.on(),
            l.level() == 50,
    {
        Self::new()
    }
}

} // verus!
