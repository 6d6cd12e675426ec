//! Command formatting and output parsing for `nmcli`-based Wi-Fi operations.
//! Nothing here runs a command: callers run the returned strings.
use vstd::prelude::*;
use vstd::string::StringExecFns;
use crate::text::{
    chars_of, first_index, lemma_first_index, lemma_trim_strips, lines, parse_i32, parse_signed,
    split_lines, string_of_range, trim, trim_bounds, find_char, is_space,
};

verus! {

/// Information about a single Wi-Fi network as reported by `nmcli`.
#[derive(Debug, Clone, PartialEq, Eq)]
pub struct NetworkInfo {
    pub ssid: String,
    pub signal_strength: i32,
    pub security: String,
    pub connected: bool,
}

/// A network as plain values: (ssid, signal, security, connected).
pub open spec fn network_view(n: NetworkInfo) -> (Seq<char>, int, Seq<char>, bool) {
    (n.ssid@, n.signal_strength as int, n.security@, n.connected)
}

/// The network one line of `nmcli -t -f SSID,SIGNAL,SECURITY` output
/// describes: `SSID:SIGNAL:SECURITY` after trimming, where the security
/// field is everything after the second ':' and a signal that does not parse
/// as an `i32` counts as 0. Blank lines, lines with an empty SSID (hidden
/// networks) and lines with fewer than two ':' describe none.
pub open spec fn scan_entry(line: Seq<char>) -> Option<(Seq<char>, int, Seq<char>, bool)> {
    let t = trim(line);
    let i = first_index(t, ':');
    let rest = t.skip(i + 1int);
    let j = first_index(rest, ':');
    if t.len() == 0 || i == 0 || i >= t.len() || j >= rest.len() {
        None
    } else {
        let signal = match parse_signed(rest.take(j as int), 2147483648, 2147483647) {
            Some(v) => v,
            None => 0,
        };
        Some((t.take(i as int), signal, rest.skip(j + 1int), false))
    }
}

/// A line `SSID:SIGNAL:SECURITY`, whatever whitespace surrounds it, with a
/// non-empty SSID and no ':' in the SSID or the signal, describes the
/// network with that SSID, the signal as `i32` parsing gives it (0 when it
/// does not parse), everything after the second ':' as its security, and
/// not connected. A line whose SSID is empty (a hidden network) describes
/// none.
pub proof fn lemma_scan_entry_fields(
    pre: Seq<char>,
    ssid: Seq<char>,
    sig: Seq<char>,
    sec: Seq<char>,
    post: Seq<char>,
)
    requires
        forall|i: int| 0 <= i < pre.len() ==> is_space(#[trigger] pre[i]),
        forall|i: int| 0 <= i < post.len() ==> is_space(#[trigger] post[i]),
        forall|i: int| 0 <= i < ssid.len() ==> #[trigger] ssid[i] != ':',
        forall|i: int| 0 <= i < sig.len() ==> #[trigger] sig[i] != ':',
        ssid.len() == 0 || !is_space(ssid[0]),
        sec.len() == 0 || !is_space(sec.last()),
    ensures
        ({
            let line = pre + (ssid + seq![':'] + sig + seq![':'] + sec) + post;
            let signal = match parse_signed(sig, 2147483648, 2147483647) {
                Some(v) => v,
                None => 0,
            };
            &&& ssid.len() > 0 ==> scan_entry(line) == Some((ssid, signal, sec, false))
            &&& ssid.len() == 0 ==> scan_entry(line) is None
        }),
{
    let core = ssid + seq![':'] + sig + seq![':'] + sec;
    let line = pre + core + post;
    assert(!is_space(':'));
    if ssid.len() == 0 {
        assert(core[0] == ':');
    } else {
        assert(core[0] == ssid[0]);
    }
    if sec.len() == 0 {
        assert(core.last() == ':');
    } else {
        assert(core.last() == sec.last());
    }
    lemma_trim_strips(pre, core, post);
    assert(trim(line) == core);
    let n = ssid.len();
    assert forall|j: int| 0 <= j < n implies #[trigger] core[j] != ':' by {
        assert(core[j] == ssid[j]);
    }
    assert(core[n as int] == ':');
    lemma_first_index(core, ':', n as int);
    let rest = core.skip(n + 1int);
    assert(rest =~= sig + seq![':'] + sec);
    assert forall|j: int| 0 <= j < sig.len() implies #[trigger] rest[j] != ':' by {
        assert(rest[j] == sig[j]);
    }
    assert(rest[sig.len() as int] == ':');
    lemma_first_index(rest, ':', sig.len() as int);
    assert(core.take(n as int) =~= ssid);
    assert(rest.take(sig.len() as int) =~= sig);
    assert(rest.skip(sig.len() + 1int) =~= sec);
}

/// The networks described by a sequence of lines, in order.
pub open spec fn scan_entries(ls: Seq<Seq<char>>) -> Seq<(Seq<char>, int, Seq<char>, bool)>
    decreases ls.len(),
{
    if ls.len() == 0 {
        Seq::empty()
    } else {
        let prev = scan_entries(ls.drop_last());
        match scan_entry(ls.last()) {
            Some(e) => prev.push(e),
            None => prev,
        }
    }
}


/// Scan output: the result for two runs of items one after the other is the
/// result for the first followed by the result for the second, so nothing
/// is dropped, added or moved because of where it stands.
pub proof fn lemma_scan_entries_concat(a: Seq<Seq<char>>, b: Seq<Seq<char>>)
    ensures
        scan_entries(a + b) == scan_entries(a) + scan_entries(b),
    decreases b.len(),
{
    if b.len() == 0 {
        assert(a + b =~= a);
        assert(scan_entries(a) + scan_entries(b) =~= scan_entries(a));
    } else {
        lemma_scan_entries_concat(a, b.drop_last());
        assert((a + b).drop_last() =~= a + b.drop_last());
        assert((a + b).last() == b.last());
        match scan_entry(b.last()) {
            Some(e) => {
                assert(scan_entries(a) + scan_entries(b.drop_last()).push(e) =~= (scan_entries(a) + scan_entries(b.drop_last())).push(e));
            },
            None => {},
        }
    }
}

/// Scan output: when every item describes one, all of them are kept, in order.
pub proof fn lemma_scan_entries_all(items: Seq<Seq<char>>)
    requires
        forall|i: int| 0 <= i < items.len() ==> #[trigger] scan_entry(items[i]) is Some,
    ensures
        scan_entries(items).len() == items.len(),
        forall|i: int| 0 <= i < items.len() ==> Some(#[trigger] scan_entries(items)[i]) == scan_entry(items[i]),
    decreases items.len(),
{
    if items.len() > 0 {
        let p = items.drop_last();
        assert forall|i: int| 0 <= i < p.len() implies #[trigger] scan_entry(p[i]) is Some by {
            assert(p[i] == items[i]);
        }
        lemma_scan_entries_all(p);
        assert(scan_entry(items[items.len() - 1]) is Some);
        assert forall|i: int| 0 <= i < items.len() implies Some(#[trigger] scan_entries(items)[i]) == scan_entry(items[i]) by {
            if i < p.len() {
                assert(items[i] == p[i]);
            }
        }
    }
}

/// Stateless helper for building and parsing `nmcli` commands.
pub struct WifiManager;

impl WifiManager {
    /// The `nmcli` command that lists visible Wi-Fi networks
    /// (colon-separated output: SSID, SIGNAL, SECURITY).
    pub fn scan_command() -> (r: String)
        ensures
            r@ == "nmcli -t -f SSID,SIGNAL,SECURITY dev wifi list"@,
    {
        "nmcli -t -f SSID,SIGNAL,SECURITY dev wifi list".to_string()
    }

    /// The `nmcli` command that connects to a network.
    pub fn connect_command(ssid: &str, password: &str) -> (r: String)
        ensures
            r@ == "nmcli dev wifi connect \""@ + ssid@ + "\" password \""@ + password@ + "\""@,
    {
        let mut s = "nmcli dev wifi connect \"".to_string();
        s.append(ssid);
        s.append("\" password \"");
        s.append(password);
        s.append("\"");
        s
    }

    /// The `nmcli` command that disconnects an interface.
    pub fn disconnect_command(interface: &str) -> (r: String)
        ensures
            r@ == "nmcli dev disconnect "@ + interface@,
    {
        let mut s = "nmcli dev disconnect ".to_string();
        s.append(interface);
        s
    }

    /// Parse the colon-separated output of `nmcli -t -f SSID,SIGNAL,SECURITY`,
    /// one network per line that describes one (see `scan_entry`).
    pub fn parse_scan_output(output: &str) -> (r: Vec<NetworkInfo>)
        ensures
            r@.map_values(|n: NetworkInfo| network_view(n)) == scan_entries(lines(output@)),
    {
        let cs = chars_of(output);
        let ls = split_lines(cs.as_slice());
        let ghost lsv = ls.deep_view();
        let mut out: Vec<NetworkInfo> = Vec::new();
        let mut k: usize = 0;
        while k < ls.len()
            invariant
                k <= ls@.len(),
                lsv == ls.deep_view(),
                lsv == lines(output@),
                out@.map_values(|n: NetworkInfo| network_view(n)) == scan_entries(lsv.take(k as int)),
            decreases ls@.len() - k,
        {
            let line = &ls[k];
            let ghost lv = line@;
            assert(lv == lsv[k as int]);
            assert(lsv.take(k + 1).drop_last() =~= lsv.take(k as int));
            let ghost before = out@;
            match parse_line(line.as_slice()) {
                Some(n) => {
                    out.push(n);
                    assert(out@.map_values(|n: NetworkInfo| network_view(n)) =~= before.map_values(
                        |n: NetworkInfo| network_view(n),
                    ).push(network_view(n)));
                },
                None => {},
            }
            k = k + 1;
        }
        assert(lsv.take(ls@.len() as int) =~= lsv);
        out
    }
}

/// The network one output line describes, if any (see `scan_entry`).
fn parse_line(line: &[char]) -> (r: Option<NetworkInfo>)
    ensures
        r matches Some(n) ==> scan_entry(line@) == Some(network_view(n)),
        r is None ==> scan_entry(line@) is None,
{
    let (a, b) = trim_bounds(line);
    let ghost t = line@.subrange(a as int, b as int);
    let i = find_char(line, a, b, ':');
    if a == b || i == a || i >= b {
        return None;
    }
    let j = find_char(line, i + 1, b, ':');
    proof {
        let rest = t.skip(i - a + 1);
        assert(rest =~= line@.subrange(i + 1, b as int));
    }
    if j >= b {
        return None;
    }
    let signal = match parse_i32(line, i + 1, j) {
        Some(v) => v,
        None => 0,
    };
    let ssid = string_of_range(line, a, i);
    let security = string_of_range(line, j + 1, b);
    proof {
        let rest = t.skip(i - a + 1);
        assert(rest.take(j - i - 1) =~= line@.subrange(i + 1, j as int));
        assert(rest.skip(j - i - 1 + 1) =~= line@.subrange(j + 1, b as int));
        assert(t.take(i - a) =~= line@.subrange(a as int, i as int));
    }
    Some(NetworkInfo { ssid, signal_strength: signal, security, connected: false })
}

} // verus!
