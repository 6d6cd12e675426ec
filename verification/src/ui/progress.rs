//! Print-progress formatting.
use vstd::prelude::*;
use crate::text::{dec, push_char, push_dec};
use vstd::arithmetic::div_mod::lemma_fundamental_div_mod_converse;

verus! {

/// "{value}{unit}" when the value is non-zero, nothing otherwise.
pub open spec fn duration_part(value: nat, unit: char) -> Seq<Seq<char>> {
    if value > 0 {
        seq![dec(value).push(unit)]
    } else {
        Seq::empty()
    }
}

/// The non-zero day/hour/minute/second parts of `seconds`, largest first.
pub open spec fn duration_parts(seconds: nat) -> Seq<Seq<char>> {
    let r_day = seconds % 86400;
    let r_hour = r_day % 3600;
    duration_part(seconds / 86400, 'd') + duration_part(r_day / 3600, 'h') + duration_part(
        r_hour / 60,
        'm',
    ) + duration_part(r_hour % 60, 's')
}

/// At most the two most significant parts, separated by a space; "0s" for zero.
pub open spec fn duration_text(seconds: nat) -> Seq<char> {
    let p = duration_parts(seconds);
    if p.len() == 0 {
        seq!['0', 's']
    } else if p.len() == 1 {
        p[0]
    } else {
        p[0] + seq![' '] + p[1]
    }
}

/// Format a duration in seconds to a human-readable string.
///
/// Shows at most 2 time units:
/// - `3661` → `"1h 1m"`
/// - `125` → `"2m 5s"`
/// - `65` → `"1m 5s"`
/// - `0` → `"0s"`
pub fn format_duration(seconds: u64) -> (r: String)
    ensures
        r@ == duration_text(seconds as nat),
{
    let days = seconds / 86400;
    let r_day = seconds % 86400;
    let hours = r_day / 3600;
    let r_hour = r_day % 3600;
    let minutes = r_hour / 60;
    let secs = r_hour % 60;
    let values: [u64; 4] = [days, hours, minutes, secs];
    let units: [char; 4] = ['d', 'h', 'm', 's'];
    let ghost parts = duration_parts(seconds as nat);
    let mut out = String::new();
    let mut shown: usize = 0;
    let mut i: usize = 0;
    proof {
        assert(duration_parts(seconds as nat) =~= duration_part(values@[0] as nat, units@[0])
            + duration_part(values@[1] as nat, units@[1]) + duration_part(values@[2] as nat, units@[2])
            + duration_part(values@[3] as nat, units@[3]));
    }
    while i < 4
        invariant
            i <= 4,
            values@ == seq![days, hours, minutes, secs],
            units@ == seq!['d', 'h', 'm', 's'],
            parts == duration_parts(seconds as nat),
            parts == duration_part(values@[0] as nat, units@[0]) + duration_part(values@[1] as nat, units@[1])
                + duration_part(values@[2] as nat, units@[2]) + duration_part(values@[3] as nat, units@[3]),
            shown == prefix_parts(values@, units@, i as nat).len() || (shown == 2 && prefix_parts(values@, units@, i as nat).len() >= 2),
            shown <= 2,
            out@ == shown_text(prefix_parts(values@, units@, i as nat)),
        decreases 4 - i,
    {
        if values[i] > 0 {
            if shown < 2 {
                if shown == 1 {
                    push_char(&mut out, ' ');
                }
                push_dec(&mut out, values[i]);
                push_char(&mut out, units[i]);
            }
            shown = if shown < 2 { shown + 1 } else { 2 };
        }
        proof {
            lemma_shown_step(values@, units@, i as nat);
        }
        i = i + 1;
    }
    proof {
        reveal_with_fuel(prefix_parts, 5);
        let a = duration_part(values@[0] as nat, units@[0]);
        assert(Seq::<Seq<char>>::empty() + a =~= a);
        assert(prefix_parts(values@, units@, 4) =~= parts);
    }
    if shown == 0 {
        out = "0s".to_string();
        proof {
            reveal_strlit("0s");
        }
    }
    out
}

/// A duration of `d` days, `h` hours, `m` minutes and `s` seconds (with
/// `h < 24`, `m < 60`, `s < 60`) is shown by its non-zero parts in that
/// order, at most two of them: the days and hours when both are there,
/// else the days and the next non-zero part, and so on; "0s" when all are
/// zero.
pub proof fn lemma_duration_decomposition(d: nat, h: nat, m: nat, s: nat)
    requires
        h < 24,
        m < 60,
        s < 60,
    ensures
        ({
            let x = 86400 * d + 3600 * h + 60 * m + s;
            &&& duration_parts(x) == duration_part(d, 'd') + duration_part(h, 'h') + duration_part(m, 'm')
                + duration_part(s, 's')
            &&& d > 0 && h > 0 ==> duration_text(x) == dec(d).push('d') + seq![' '] + dec(h).push('h')
            &&& d > 0 && h == 0 && m > 0 ==> duration_text(x) == dec(d).push('d') + seq![' '] + dec(m).push('m')
            &&& d > 0 && h == 0 && m == 0 && s > 0 ==> duration_text(x) == dec(d).push('d') + seq![' '] + dec(s).push('s')
            &&& d > 0 && h == 0 && m == 0 && s == 0 ==> duration_text(x) == dec(d).push('d')
            &&& d == 0 && h > 0 && m > 0 ==> duration_text(x) == dec(h).push('h') + seq![' '] + dec(m).push('m')
            &&& d == 0 && h == 0 && m > 0 && s > 0 ==> duration_text(x) == dec(m).push('m') + seq![' '] + dec(s).push('s')
            &&& d == 0 && h == 0 && m == 0 && s == 0 ==> duration_text(x) == seq!['0', 's']
        }),
{
    let x = 86400 * d + 3600 * h + 60 * m + s;
    let r_day = 3600 * h + 60 * m + s;
    lemma_fundamental_div_mod_converse(x as int, 86400, d as int, r_day as int);
    let r_hour = 60 * m + s;
    lemma_fundamental_div_mod_converse(r_day as int, 3600, h as int, r_hour as int);
    lemma_fundamental_div_mod_converse(r_hour as int, 60, m as int, s as int);
    let p = duration_parts(x);
    let (pd, ph, pm, ps) = (duration_part(d, 'd'), duration_part(h, 'h'), duration_part(m, 'm'), duration_part(s, 's'));
    assert(p =~= pd + ph + pm + ps);
    if d > 0 && h > 0 {
        assert(p[0] == dec(d).push('d') && p[1] == dec(h).push('h'));
    } else if d > 0 && h == 0 && m > 0 {
        assert(p[0] == dec(d).push('d') && p[1] == dec(m).push('m'));
    } else if d > 0 && h == 0 && m == 0 && s > 0 {
        assert(p[0] == dec(d).push('d') && p[1] == dec(s).push('s'));
    } else if d == 0 && h > 0 && m > 0 {
        assert(p[0] == dec(h).push('h') && p[1] == dec(m).push('m'));
    } else if d == 0 && h == 0 && m > 0 && s > 0 {
        assert(p[0] == dec(m).push('m') && p[1] == dec(s).push('s'));
    }
}

/// The parts of the first `n` of the four (value, unit) pairs.
pub open spec fn prefix_parts(values: Seq<u64>, units: Seq<char>, n: nat) -> Seq<Seq<char>>
    decreases n,
{
    if n == 0 {
        Seq::empty()
    } else {
        prefix_parts(values, units, (n - 1) as nat) + duration_part(
            values[n - 1] as nat,
            units[n - 1],
        )
    }
}

/// The first two of `p` separated by a space (empty when `p` is).
pub open spec fn shown_text(p: Seq<Seq<char>>) -> Seq<char> {
    if p.len() == 0 {
        Seq::empty()
    } else if p.len() == 1 {
        p[0]
    } else {
        p[0] + seq![' '] + p[1]
    }
}

proof fn lemma_shown_step(values: Seq<u64>, units: Seq<char>, i: nat)
    requires
        i < values.len(),
        i < units.len(),
    ensures
        prefix_parts(values, units, i + 1) == prefix_parts(values, units, i) + duration_part(
            values[i as int] as nat,
            units[i as int],
        ),
{
}

} // verus!
