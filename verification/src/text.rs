//! Character-level helpers: building strings, decimal rendering and the
//! line/whitespace rules that the rest of the crate formats and parses by.
use vstd::prelude::*;

verus! {

/// Appends one character to a string (`String::push`).
#[verifier::external_body]
pub(crate) fn push_char(s: &mut String, c: char)
    ensures
        final(s)@ == old(s)@.push(c),
{
    s.push(c);
}

/// The ASCII digit for `d` (`d < 10`).
pub open spec fn digit_char(d: nat) -> char
    recommends
        d < 10,
{
    (48 + d) as char
}

/// Decimal rendering of a natural number, without leading zeros.
pub open spec fn dec(n: nat) -> Seq<char>
    decreases n,
{
    if n < 10 {
        seq![digit_char(n)]
    } else {
        dec(n / 10).push(digit_char(n % 10))
    }
}

/// Decimal rendering of an integer, with a leading '-' when negative.
pub open spec fn dec_int(i: int) -> Seq<char> {
    if i < 0 {
        seq!['-'] + dec((-i) as nat)
    } else {
        dec(i as nat)
    }
}

/// `n` rendered with exactly `width` digits, padded on the left with zeros
/// (`n < 10^width` is the caller's business: only the low digits are shown).
pub open spec fn dec_fixed(n: nat, width: nat) -> Seq<char>
    decreases width,
{
    if width == 0 {
        Seq::empty()
    } else {
        dec_fixed(n / 10, (width - 1) as nat).push(digit_char(n % 10))
    }
}

fn digit(d: u64) -> (c: char)
    requires
        d < 10,
    ensures
        c == digit_char(d as nat),
{
    let b: u8 = 48u8 + (d as u8);
    b as char
}

/// Appends the decimal rendering of `n`.
pub fn push_dec(s: &mut String, n: u64)
    ensures
        final(s)@ == old(s)@ + dec(n as nat),
    decreases n,
{
    if n >= 10 {
        push_dec(s, n / 10);
    }
    push_char(s, digit(n % 10));
    assert(dec(n as nat) == if n < 10 { seq![digit_char(n as nat)] } else { dec((n / 10) as nat).push(digit_char((n % 10) as nat)) });
}

/// Appends the decimal rendering of a signed integer.
pub fn push_dec_i64(s: &mut String, n: i64)
    ensures
        final(s)@ == old(s)@ + dec_int(n as int),
{
    if n < 0 {
        push_char(s, '-');
        let m: u64 = if n == i64::MIN {
            9223372036854775808u64
        } else {
            (-n) as u64
        };
        push_dec(s, m);
        assert(old(s)@.push('-') + dec(m as nat) == old(s)@ + (seq!['-'] + dec(m as nat)));
    } else {
        push_dec(s, n as u64);
    }
}

/// Appends exactly `width` low decimal digits of `n`, zero-padded.
pub fn push_dec_fixed(s: &mut String, n: u64, width: u64)
    ensures
        final(s)@ == old(s)@ + dec_fixed(n as nat, width as nat),
    decreases width,
{
    if width > 0 {
        push_dec_fixed(s, n / 10, width - 1);
        push_char(s, digit(n % 10));
    } else {
        assert(old(s)@ + Seq::<char>::empty() == old(s)@);
    }
}

/// Appends every character of `chars`.
pub(crate) fn push_chars(s: &mut String, chars: &[char])
    ensures
        final(s)@ == old(s)@ + chars@,
{
    let ghost start = s@;
    let mut i: usize = 0;
    while i < chars.len()
        invariant
            i <= chars@.len(),
            s@ == start + chars@.take(i as int),
        decreases chars@.len() - i,
    {
        push_char(s, chars[i]);
        assert(chars@.take(i + 1) == chars@.take(i as int).push(chars@[i as int]));
        i = i + 1;
    }
    assert(chars@.take(chars@.len() as int) == chars@);
}

/// A string holding exactly `chars`.
pub fn string_of(chars: &[char]) -> (s: String)
    ensures
        s@ == chars@,
{
    let mut s = String::new();
    push_chars(&mut s, chars);
    assert(Seq::<char>::empty() + chars@ == chars@);
    s
}

/// The characters of `s`, in order.
pub fn chars_of(s: &str) -> (v: Vec<char>)
    ensures
        v@ == s@,
{
    let mut v: Vec<char> = Vec::new();
    for c in it: s.chars()
        invariant
            it.seq() == s@,
            v@ == it.seq().take(it.index() as int),
    {
        v.push(c);
        assert(it.seq().take(it.index() + 1) == it.seq().take(it.index() as int).push(c));
    }
    assert(s@.take(s@.len() as int) == s@);
    v
}

/// Unicode `White_Space`, the set that `char::is_whitespace` and `str::trim` use.
pub open spec fn is_space(c: char) -> bool {
    let u = c as u32;
    ||| 0x09 <= u <= 0x0D
    ||| u == 0x20
    ||| u == 0x85
    ||| u == 0xA0
    ||| u == 0x1680
    ||| 0x2000 <= u <= 0x200A
    ||| u == 0x2028
    ||| u == 0x2029
    ||| u == 0x202F
    ||| u == 0x205F
    ||| u == 0x3000
}

pub fn char_is_space(c: char) -> (b: bool)
    ensures
        b == is_space(c),
{
    let u = c as u32;
    (0x09 <= u && u <= 0x0D) || u == 0x20 || u == 0x85 || u == 0xA0 || u == 0x1680 || (0x2000
        <= u && u <= 0x200A) || u == 0x2028 || u == 0x2029 || u == 0x202F || u == 0x205F || u
        == 0x3000
}

/// Number of leading whitespace characters.
pub open spec fn lead_space(s: Seq<char>) -> nat
    decreases s.len(),
{
    if s.len() > 0 && is_space(s[0]) {
        1 + lead_space(s.drop_first())
    } else {
        0
    }
}

/// Number of trailing whitespace characters.
pub open spec fn trail_space(s: Seq<char>) -> nat
    decreases s.len(),
{
    if s.len() > 0 && is_space(s.last()) {
        1 + trail_space(s.drop_last())
    } else {
        0
    }
}

/// `s` without leading and trailing whitespace (`str::trim`).
pub open spec fn trim(s: Seq<char>) -> Seq<char> {
    let t = s.skip(lead_space(s) as int);
    t.take(t.len() - trail_space(t))
}

proof fn lemma_lead_space(s: Seq<char>, i: int)
    requires
        0 <= i <= s.len(),
        forall|j: int| 0 <= j < i ==> is_space(#[trigger] s[j]),
        i == s.len() || !is_space(s[i]),
    ensures
        lead_space(s) == i,
    decreases i,
{
    if i > 0 {
        lemma_lead_space(s.drop_first(), i - 1);
    }
}

proof fn lemma_trail_space(s: Seq<char>, i: int)
    requires
        0 <= i <= s.len(),
        forall|j: int| i <= j < s.len() ==> is_space(#[trigger] s[j]),
        i == 0 || !is_space(s[i - 1]),
    ensures
        trail_space(s) == s.len() - i,
    decreases s.len() - i,
{
    if i < s.len() {
        lemma_trail_space(s.drop_last(), i);
    }
}

/// Trimming removes exactly the surrounding whitespace: whatever runs of
/// whitespace stand before and after a text that neither begins nor ends
/// with whitespace, trimming gives that text back.
pub proof fn lemma_trim_strips(pre: Seq<char>, core: Seq<char>, post: Seq<char>)
    requires
        forall|i: int| 0 <= i < pre.len() ==> is_space(#[trigger] pre[i]),
        forall|i: int| 0 <= i < post.len() ==> is_space(#[trigger] post[i]),
        core.len() > 0 ==> !is_space(core[0]) && !is_space(core.last()),
    ensures
        trim(pre + core + post) == core,
{
    let s = pre + core + post;
    if core.len() > 0 {
        assert(s[pre.len() as int] == core[0]);
        assert forall|j: int| 0 <= j < pre.len() implies is_space(#[trigger] s[j]) by {
            assert(s[j] == pre[j]);
        }
        lemma_lead_space(s, pre.len() as int);
    } else {
        assert forall|j: int| 0 <= j < s.len() implies is_space(#[trigger] s[j]) by {
            if j < pre.len() {
                assert(s[j] == pre[j]);
            } else {
                assert(s[j] == post[j - pre.len()]);
            }
        }
        lemma_lead_space(s, s.len() as int);
    }
    let t = s.skip(lead_space(s) as int);
    if core.len() > 0 {
        assert(t =~= core + post);
        assert(t[core.len() - 1] == core.last());
        assert forall|j: int| core.len() <= j < t.len() implies is_space(#[trigger] t[j]) by {
            assert(t[j] == post[j - core.len()]);
        }
        lemma_trail_space(t, core.len() as int);
        assert(t.take(core.len() as int) =~= core);
    } else {
        assert(t.len() == 0);
        assert(t.take(0) =~= core);
    }
}

/// Bounds `[a, b)` such that `s[a..b]` is `trim(s)`.
pub fn trim_bounds(s: &[char]) -> (r: (usize, usize))
    ensures
        r.0 <= r.1 <= s@.len(),
        s@.subrange(r.0 as int, r.1 as int) == trim(s@),
{
    let mut a: usize = 0;
    while a < s.len() && char_is_space(s[a])
        invariant
            a <= s@.len(),
            forall|j: int| 0 <= j < a ==> is_space(#[trigger] s@[j]),
        decreases s@.len() - a,
    {
        a = a + 1;
    }
    proof {
        lemma_lead_space(s@, a as int);
    }
    let mut b: usize = s.len();
    while b > a && char_is_space(s[b - 1])
        invariant
            a <= b <= s@.len(),
            forall|j: int| b <= j < s@.len() ==> is_space(#[trigger] s@[j]),
        decreases b,
    {
        b = b - 1;
    }
    proof {
        let t = s@.skip(a as int);
        assert forall|j: int| b - a <= j < t.len() implies is_space(#[trigger] t[j]) by {
            assert(t[j] == s@[j + a]);
        }
        if b > a {
            assert(t[b - a - 1] == s@[b - 1]);
        }
        lemma_trail_space(t, b - a);
        assert(s@.subrange(a as int, b as int) =~= t.take(t.len() - trail_space(t)));
    }
    (a, b)
}

/// Index of the first `c` in `s`, or `s.len()` when there is none.
pub open spec fn first_index(s: Seq<char>, c: char) -> nat
    decreases s.len(),
{
    if s.len() == 0 {
        0
    } else if s[0] == c {
        0
    } else {
        1 + first_index(s.drop_first(), c)
    }
}

/// Index of the first '\n' in `s`, or `s.len()` when there is none.
pub open spec fn first_newline(s: Seq<char>) -> nat {
    first_index(s, '\n')
}

/// A line with the '\r' of a "\r\n" ending removed.
pub open spec fn strip_cr(l: Seq<char>) -> Seq<char> {
    if l.len() > 0 && l.last() == '\r' {
        l.drop_last()
    } else {
        l
    }
}

/// The lines of `s` as `str::lines` yields them: split after each '\n',
/// the '\n' (and a '\r' just before it) removed, and no empty line after a
/// final '\n'.
pub open spec fn lines(s: Seq<char>) -> Seq<Seq<char>>
    decreases s.len(),
{
    if s.len() == 0 {
        Seq::empty()
    } else {
        let i = first_newline(s);
        if i >= s.len() {
            seq![s]
        } else {
            seq![strip_cr(s.take(i as int))] + lines(s.skip(i + 1int))
        }
    }
}

/// The lines joined with '\n' between them (`[..].join("\n")`).
pub open spec fn join_lines(ls: Seq<Seq<char>>) -> Seq<char>
    decreases ls.len(),
{
    if ls.len() == 0 {
        Seq::empty()
    } else if ls.len() == 1 {
        ls[0]
    } else {
        join_lines(ls.drop_last()) + seq!['\n'] + ls.last()
    }
}

pub proof fn lemma_first_index(s: Seq<char>, c: char, i: int)
    requires
        0 <= i <= s.len(),
        forall|j: int| 0 <= j < i ==> #[trigger] s[j] != c,
        i == s.len() || s[i] == c,
    ensures
        first_index(s, c) == i,
    decreases i,
{
    if i > 0 {
        lemma_first_index(s.drop_first(), c, i - 1);
    }
}

proof fn lemma_first_newline(s: Seq<char>, i: int)
    requires
        0 <= i <= s.len(),
        forall|j: int| 0 <= j < i ==> #[trigger] s[j] != '\n',
        i == s.len() || s[i] == '\n',
    ensures
        first_newline(s) == i,
{
    lemma_first_index(s, '\n', i);
}

/// The first index `k` in `[from, to)` with `s[k] == c`, or `to`.
pub fn find_char(s: &[char], from: usize, to: usize, c: char) -> (r: usize)
    requires
        from <= to <= s@.len(),
    ensures
        from <= r <= to,
        r - from == first_index(s@.subrange(from as int, to as int), c),
{
    let mut k = from;
    while k < to && s[k] != c
        invariant
            from <= k <= to <= s@.len(),
            forall|j: int| from <= j < k ==> s@[j] != c,
        decreases to - k,
    {
        k = k + 1;
    }
    proof {
        let sub = s@.subrange(from as int, to as int);
        assert forall|j: int| 0 <= j < k - from implies #[trigger] sub[j] != c by {
            assert(sub[j] == s@[j + from]);
        }
        if k < to {
            assert(sub[k - from] == s@[k as int]);
        }
        lemma_first_index(sub, c, k - from);
    }
    k
}

/// Whether `c` is an ASCII decimal digit.
pub open spec fn is_digit(c: char) -> bool {
    48 <= (c as u32) <= 57
}

/// The value of a decimal digit character.
pub open spec fn digit_value(c: char) -> nat {
    ((c as u32) - 48) as nat
}

pub open spec fn all_digits(s: Seq<char>) -> bool {
    forall|i: int| 0 <= i < s.len() ==> is_digit(#[trigger] s[i])
}

/// The number that the decimal digits `s` spell.
pub open spec fn digits_value(s: Seq<char>) -> nat
    decreases s.len(),
{
    if s.len() == 0 {
        0
    } else {
        digits_value(s.drop_last()) * 10 + digit_value(s.last())
    }
}

/// What `str::parse` gives for an unsigned type whose largest value is
/// `max`: an optional '+', then at least one digit, with no overflow.
pub open spec fn parse_unsigned(s: Seq<char>, max: nat) -> Option<nat> {
    let body = if s.len() > 0 && s[0] == '+' { s.drop_first() } else { s };
    if body.len() > 0 && all_digits(body) && digits_value(body) <= max {
        Some(digits_value(body))
    } else {
        None
    }
}

/// What `str::parse` gives for a signed type with range `[-neg_max, max]`:
/// an optional sign, then at least one digit, within range.
pub open spec fn parse_signed(s: Seq<char>, neg_max: nat, max: nat) -> Option<int> {
    if s.len() > 0 && s[0] == '-' {
        let body = s.drop_first();
        if body.len() > 0 && all_digits(body) && digits_value(body) <= neg_max {
            Some(-(digits_value(body) as int))
        } else {
            None
        }
    } else {
        match parse_unsigned(s, max) {
            Some(v) => Some(v as int),
            None => None,
        }
    }
}

proof fn lemma_digits_value_grows(s: Seq<char>, c: char)
    requires
        is_digit(c),
    ensures
        digits_value(s.push(c)) == digits_value(s) * 10 + digit_value(c),
        digits_value(s.push(c)) >= digits_value(s),
{
    assert(s.push(c).drop_last() =~= s);
}

proof fn lemma_digit_char(d: nat)
    requires
        d < 10,
    ensures
        is_digit(digit_char(d)),
        digit_value(digit_char(d)) == d,
        digit_char(d) != '+' && digit_char(d) != '-',
        d > 0 ==> digit_char(d) != '0',
{
}

/// The decimal rendering of `n` spells `n`: it is a non-empty run of
/// digits whose value is `n`, with no leading zero.
pub proof fn lemma_dec_spells(n: nat)
    ensures
        dec(n).len() > 0,
        all_digits(dec(n)),
        digits_value(dec(n)) == n,
        n > 0 ==> dec(n)[0] != '0',
        dec(n).len() > 1 ==> dec(n)[0] != '0',
    decreases n,
{
    if n < 10 {
        lemma_digit_char(n);
        assert(dec(n).drop_last() =~= Seq::<char>::empty());
        assert(digits_value(Seq::<char>::empty()) == 0);
        assert(digits_value(dec(n)) == digits_value(dec(n).drop_last()) * 10 + digit_value(dec(n).last()));
    } else {
        lemma_dec_spells(n / 10);
        lemma_digit_char(n % 10);
        let p = dec(n / 10);
        assert(dec(n).drop_last() =~= p);
        assert forall|i: int| 0 <= i < dec(n).len() implies is_digit(#[trigger] dec(n)[i]) by {
            if i < p.len() {
                assert(dec(n)[i] == p[i]);
            }
        }
        assert(dec(n)[0] == p[0]);
        assert(digits_value(dec(n)) == digits_value(p) * 10 + digit_value(dec(n).last()));
        assert(n == (n / 10) * 10 + n % 10);
    }
}

/// Reading back a rendered number gives the number: `str::parse` of the
/// decimal rendering of `n` gives `n` whenever `n` fits.
pub proof fn lemma_parse_unsigned_dec(n: nat, max: nat)
    requires
        n <= max,
    ensures
        parse_unsigned(dec(n), max) == Some(n),
{
    lemma_dec_spells(n);
    assert(is_digit(dec(n)[0]));
}

/// Reading back a rendered integer gives the integer, within the range of
/// the type read.
pub proof fn lemma_parse_signed_dec_int(i: int, neg_max: nat, max: nat)
    requires
        -neg_max <= i <= max,
    ensures
        parse_signed(dec_int(i), neg_max, max) == Some(i),
{
    if i < 0 {
        lemma_dec_spells((-i) as nat);
        assert((seq!['-'] + dec((-i) as nat)).drop_first() =~= dec((-i) as nat));
    } else {
        lemma_dec_spells(i as nat);
        assert(is_digit(dec(i as nat)[0]));
    }
}

/// `hundredths(v)` shows `v / 100` with two decimals: digits, a '.', and
/// exactly two digits, whose values give back `v`.
pub proof fn lemma_hundredths_spells(v: nat)
    ensures
        ({
            let t = hundredths(v);
            &&& t.len() >= 4
            &&& t[t.len() - 3] == '.'
            &&& all_digits(t.take(t.len() - 3))
            &&& all_digits(t.skip(t.len() - 2))
            &&& digits_value(t.take(t.len() - 3)) * 100 + digits_value(t.skip(t.len() - 2)) == v
        }),
{
    let t = hundredths(v);
    let a = dec(v / 100);
    let f = v % 100;
    lemma_dec_spells(v / 100);
    lemma_digit_char(f / 10);
    lemma_digit_char(f % 10);
    let b = dec_fixed(f, 2);
    reveal_with_fuel(dec_fixed, 3);
    assert((f / 10) % 10 == f / 10);
    assert(b =~= seq![digit_char(f / 10), digit_char(f % 10)]);
    assert(t =~= a + seq!['.'] + b);
    assert(t.take(t.len() - 3) =~= a);
    assert(t.skip(t.len() - 2) =~= b);
    assert(b.drop_last() =~= seq![digit_char(f / 10)]);
    assert(b.drop_last().drop_last() =~= Seq::<char>::empty());
    let c1 = seq![digit_char(f / 10)];
    assert(digits_value(Seq::<char>::empty()) == 0);
    assert(digits_value(c1) == digits_value(c1.drop_last()) * 10 + digit_value(c1.last()));
    assert(c1.drop_last() =~= Seq::<char>::empty());
    assert(digits_value(c1) == f / 10);
    assert(digits_value(b) == digits_value(b.drop_last()) * 10 + digit_value(b.last()));
    assert(digits_value(b) == (f / 10) * 10 + f % 10);
    assert(v == (v / 100) * 100 + f);
}

/// `Some(v)` when `s[from..to]` is a non-empty run of digits whose value
/// `v` is at most `limit`; `None` otherwise.
pub fn parse_digits(s: &[char], from: usize, to: usize, limit: u64) -> (r: Option<u64>)
    requires
        from <= to <= s@.len(),
    ensures
        ({
            let body = s@.subrange(from as int, to as int);
            r == if body.len() > 0 && all_digits(body) && digits_value(body) <= limit {
                Some(digits_value(body) as u64)
            } else {
                None
            }
        }),
{
    if from == to {
        return None;
    }
    let mut acc: u64 = 0;
    let mut over = false;
    let mut k = from;
    while k < to
        invariant
            from <= k <= to <= s@.len(),
            all_digits(s@.subrange(from as int, k as int)),
            !over ==> acc == digits_value(s@.subrange(from as int, k as int)) && acc <= limit,
            over ==> digits_value(s@.subrange(from as int, k as int)) > limit,
        decreases to - k,
    {
        let c = s[k];
        let cu = c as u32;
        if cu < 48 || cu > 57 {
            proof {
                let body = s@.subrange(from as int, to as int);
                assert(body[k - from] == c);
            }
            return None;
        }
        let d = (cu - 48) as u64;
        proof {
            let p = s@.subrange(from as int, k as int);
            assert(s@.subrange(from as int, k + 1) =~= p.push(c));
            lemma_digits_value_grows(p, c);
        }
        if !over {
            let next: u128 = (acc as u128) * 10 + (d as u128);
            if next > limit as u128 {
                over = true;
            } else {
                acc = next as u64;
            }
        }
        k = k + 1;
    }
    if over {
        None
    } else {
        Some(acc)
    }
}

/// `str::parse::<i32>` on `s[from..to]`.
pub fn parse_i32(s: &[char], from: usize, to: usize) -> (r: Option<i32>)
    requires
        from <= to <= s@.len(),
    ensures
        r matches Some(v) ==> parse_signed(s@.subrange(from as int, to as int), 2147483648, 2147483647)
            == Some(v as int),
        r is None ==> parse_signed(s@.subrange(from as int, to as int), 2147483648, 2147483647) is None,
{
    let ghost sub = s@.subrange(from as int, to as int);
    if from < to && s[from] == '-' {
        assert(sub.drop_first() =~= s@.subrange(from + 1, to as int));
        match parse_digits(s, from + 1, to, 2147483648) {
            Some(v) => {
                if v == 2147483648 {
                    Some(-2147483647i32 - 1)
                } else {
                    Some(-(v as i32))
                }
            },
            None => None,
        }
    } else {
        let start = if from < to && s[from] == '+' { from + 1 } else { from };
        assert(s@.subrange(start as int, to as int) =~= if sub.len() > 0 && sub[0] == '+' { sub.drop_first() } else { sub });
        match parse_digits(s, start, to, 2147483647) {
            Some(v) => Some(v as i32),
            None => None,
        }
    }
}

/// `str::parse::<u16>` on `s[from..to]`.
pub fn parse_u16(s: &[char], from: usize, to: usize) -> (r: Option<u16>)
    requires
        from <= to <= s@.len(),
    ensures
        r matches Some(v) ==> parse_unsigned(s@.subrange(from as int, to as int), 65535) == Some(v as nat),
        r is None ==> parse_unsigned(s@.subrange(from as int, to as int), 65535) is None,
{
    let ghost sub = s@.subrange(from as int, to as int);
    let start = if from < to && s[from] == '+' { from + 1 } else { from };
    assert(s@.subrange(start as int, to as int) =~= if sub.len() > 0 && sub[0] == '+' { sub.drop_first() } else { sub });
    match parse_digits(s, start, to, 65535) {
        Some(v) => Some(v as u16),
        None => None,
    }
}

/// The lines of `s` (see `lines`), each as its characters.
pub fn split_lines(s: &[char]) -> (r: Vec<Vec<char>>)
    ensures
        r.deep_view() == lines(s@),
{
    let mut out: Vec<Vec<char>> = Vec::new();
    let mut start: usize = 0;
    assert(s@.skip(0) =~= s@);
    assert(out.deep_view() =~= Seq::<Seq<char>>::empty());
    assert(Seq::<Seq<char>>::empty() + lines(s@) =~= lines(s@));
    while start < s.len()
        invariant
            start <= s@.len(),
            lines(s@) == out.deep_view() + lines(s@.skip(start as int)),
        decreases s@.len() - start,
    {
        let ghost rest = s@.skip(start as int);
        let mut i: usize = start;
        while i < s.len() && s[i] != '\n'
            invariant
                start <= i <= s@.len(),
                rest == s@.skip(start as int),
                forall|j: int| start <= j < i ==> s@[j] != '\n',
            decreases s@.len() - i,
        {
            i = i + 1;
        }
        proof {
            assert forall|j: int| 0 <= j < i - start implies #[trigger] rest[j] != '\n' by {
                assert(rest[j] == s@[j + start]);
            }
            if i < s.len() {
                assert(rest[i - start] == s@[i as int]);
            }
            lemma_first_newline(rest, i - start);
        }
        let mut end = i;
        if i < s.len() && end > start && s[end - 1] == '\r' {
            end = end - 1;
        }
        let mut line: Vec<char> = Vec::new();
        let mut k: usize = start;
        while k < end
            invariant
                start <= k <= end <= s@.len(),
                line@ == s@.subrange(start as int, k as int),
            decreases end - k,
        {
            line.push(s[k]);
            assert(s@.subrange(start as int, k + 1) == s@.subrange(start as int, k as int).push(s@[k as int]));
            k = k + 1;
        }
        let ghost old_out = out.deep_view();
        let ghost old_vec = out@;
        assert(line.deep_view() =~= line@);
        out.push(line);
        proof {
            assert(out@ == old_vec.push(line));
            assert forall|j: int| 0 <= j < out@.len() implies #[trigger] out.deep_view()[j] == old_out.push(s@.subrange(start as int, end as int))[j] by {
                if j < old_vec.len() {
                    assert(out@[j] == old_vec[j]);
                }
            }
            assert(out.deep_view() =~= old_out.push(s@.subrange(start as int, end as int)));
            if i < s.len() {
                assert(rest.take(i - start) =~= s@.subrange(start as int, i as int));
                assert(rest.skip(i - start + 1) =~= s@.skip(i + 1));
                assert(strip_cr(rest.take(i - start)) =~= s@.subrange(start as int, end as int));
                assert(lines(rest) == seq![strip_cr(rest.take(i - start))] + lines(rest.skip(i - start + 1)));
                assert(old_out + lines(rest) =~= out.deep_view() + lines(s@.skip(i + 1)));
            } else {
                assert(rest =~= s@.subrange(start as int, end as int));
                assert(lines(rest) == seq![rest]);
                assert(s@.skip(s@.len() as int) =~= Seq::<char>::empty());
                assert(old_out + lines(rest) =~= out.deep_view() + lines(s@.skip(s@.len() as int)));
            }
        }
        start = if i < s.len() { i + 1 } else { i };
    }
    proof {
        assert(s@.skip(start as int) =~= Seq::<char>::empty());
        assert(out.deep_view() + Seq::<Seq<char>>::empty() =~= out.deep_view());
    }
    out
}

/// Appends `ls` joined with '\n'.
pub fn push_joined_lines(s: &mut String, ls: &[Vec<char>])
    ensures
        final(s)@ == old(s)@ + join_lines(ls.deep_view()),
{
    let ghost start = s@;
    let mut i: usize = 0;
    while i < ls.len()
        invariant
            i <= ls@.len(),
            s@ == start + join_lines(ls.deep_view().take(i as int)),
        decreases ls@.len() - i,
    {
        let ghost before = s@;
        if i > 0 {
            push_char(s, '\n');
        }
        push_chars(s, ls[i].as_slice());
        proof {
            let d = ls.deep_view();
            assert(d.take(i + 1).drop_last() =~= d.take(i as int));
            assert(d.take(i + 1).last() == ls@[i as int]@);
            if i == 0 {
                assert(join_lines(d.take(0)) =~= Seq::<char>::empty());
                assert(s@ =~= start + join_lines(d.take(1)));
            } else {
                assert(s@ =~= start + join_lines(d.take(i + 1)));
            }
        }
        i = i + 1;
    }
    assert(ls.deep_view().take(ls@.len() as int) =~= ls.deep_view());
}


/// Removes and returns the last character (`String::pop`).
#[verifier::external_body]
pub(crate) fn pop_char(s: &mut String) -> (r: Option<char>)
    ensures
        old(s)@.len() == 0 ==> r is None && final(s)@ == old(s)@,
        old(s)@.len() > 0 ==> r == Some(old(s)@.last()) && final(s)@ == old(s)@.drop_last(),
{
    s.pop()
}

/// A string holding `chars[a..b]`.
pub fn string_of_range(chars: &[char], a: usize, b: usize) -> (s: String)
    requires
        a <= b <= chars@.len(),
    ensures
        s@ == chars@.subrange(a as int, b as int),
{
    let mut s = String::new();
    let mut k: usize = a;
    while k < b
        invariant
            a <= k <= b <= chars@.len(),
            s@ == chars@.subrange(a as int, k as int),
        decreases b - k,
    {
        push_char(&mut s, chars[k]);
        assert(chars@.subrange(a as int, k + 1) == chars@.subrange(a as int, k as int).push(chars@[k as int]));
        k = k + 1;
    }
    s
}

/// `s` without leading and trailing whitespace (`str::trim`).
pub fn trimmed(s: &str) -> (r: String)
    ensures
        r@ == trim(s@),
{
    let cs = chars_of(s);
    let (a, b) = trim_bounds(cs.as_slice());
    string_of_range(cs.as_slice(), a, b)
}

/// `v / 100` rendered with two decimals, as `{:.2}` renders `v as f64 / 100.0`
/// (the quotient is within half a unit of the last place, so the digits are exact).
pub open spec fn hundredths(v: nat) -> Seq<char> {
    dec(v / 100) + seq!['.'] + dec_fixed(v % 100, 2)
}

/// Appends `hundredths(v)`.
pub fn push_hundredths(s: &mut String, v: u64)
    ensures
        final(s)@ == old(s)@ + hundredths(v as nat),
{
    push_dec(s, v / 100);
    push_char(s, '.');
    push_dec_fixed(s, v % 100, 2);
    assert(final(s)@ =~= old(s)@ + hundredths(v as nat));
}

} // verus!
