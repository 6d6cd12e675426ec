//! A JSON document as plain values, for the replies and notifications that
//! Moonraker sends. Numbers are kept as their JSON text.
use vstd::prelude::*;
use vstd::string::StringExecFns;
use crate::text::{chars_of, push_char, push_chars};

verus! {

#[derive(Debug)]
pub enum JsonValue {
    Null,
    Bool(bool),
    /// A number, as its JSON text.
    Number(String),
    String(String),
    Array(Vec<JsonValue>),
    /// Members in document order; keys are distinct.
    Object(Vec<(String, JsonValue)>),
}

/// Index of the first member of `members` named `key` (`members.len()` if none).
pub open spec fn member_index(members: Seq<(String, JsonValue)>, key: Seq<char>) -> nat
    decreases members.len(),
{
    if members.len() == 0 {
        0
    } else if members[0].0@ == key {
        0
    } else {
        1 + member_index(members.drop_first(), key)
    }
}

/// The member `key` of an object (`Value::get` with a string key).
pub open spec fn json_get(v: JsonValue, key: Seq<char>) -> Option<JsonValue> {
    match v {
        JsonValue::Object(members) => {
            let i = member_index(members@, key);
            if i < members@.len() {
                Some(members@[i as int].1)
            } else {
                None
            }
        },
        _ => None,
    }
}

/// `\u00XX` for a control character, with lowercase hex digits.
pub open spec fn hex_digit(d: nat) -> char {
    if d < 10 {
        (48 + d) as char
    } else {
        (87 + d) as char
    }
}

/// The escaped form of one character inside a JSON string, as serde_json
/// writes it.
pub open spec fn escape_char(c: char) -> Seq<char> {
    let u = c as u32;
    if c == '"' {
        seq!['\\', '"']
    } else if c == '\\' {
        seq!['\\', '\\']
    } else if u == 0x08 {
        seq!['\\', 'b']
    } else if u == 0x0C {
        seq!['\\', 'f']
    } else if c == '\n' {
        seq!['\\', 'n']
    } else if c == '\r' {
        seq!['\\', 'r']
    } else if c == '\t' {
        seq!['\\', 't']
    } else if u < 0x20 {
        seq!['\\', 'u', '0', '0', hex_digit((u / 16) as nat), hex_digit((u % 16) as nat)]
    } else {
        seq![c]
    }
}

/// The characters of a string, escaped.
pub open spec fn escaped(s: Seq<char>) -> Seq<char>
    decreases s.len(),
{
    if s.len() == 0 {
        Seq::empty()
    } else {
        escaped(s.drop_last()) + escape_char(s.last())
    }
}

/// A string with no quote, backslash or control character is written as it
/// is: escaping changes only those characters.
pub proof fn lemma_escaped_plain(s: Seq<char>)
    requires
        forall|i: int|
            0 <= i < s.len() ==> #[trigger] s[i] != '"' && s[i] != '\\' && (s[i] as u32) >= 0x20,
    ensures
        escaped(s) == s,
    decreases s.len(),
{
    if s.len() > 0 {
        let p = s.drop_last();
        assert forall|i: int| 0 <= i < p.len() implies #[trigger] p[i] != '"' && p[i] != '\\' && (p[i] as u32) >= 0x20 by {
            assert(p[i] == s[i]);
        }
        lemma_escaped_plain(p);
        let c = s.last();
        assert(c != '\n' && c != '\r' && c != '\t');
        assert(escape_char(c) == seq![c]);
        assert(p.push(c) =~= s);
    }
}

/// Compact JSON text of a value (serde_json's `Value::to_string`).
pub open spec fn json_text(v: JsonValue) -> Seq<char>
    decreases v,
{
    match v {
        JsonValue::Null => "null"@,
        JsonValue::Bool(b) => if b { "true"@ } else { "false"@ },
        JsonValue::Number(t) => t@,
        JsonValue::String(s) => seq!['"'] + escaped(s@) + seq!['"'],
        JsonValue::Array(a) => seq!['['] + items_text(a@) + seq![']'],
        JsonValue::Object(m) => seq!['{'] + members_text(m@) + seq!['}'],
    }
}

/// Items separated by ','.
pub open spec fn items_text(items: Seq<JsonValue>) -> Seq<char>
    decreases items,
{
    if items.len() == 0 {
        Seq::empty()
    } else if items.len() == 1 {
        json_text(items[0])
    } else {
        items_text(items.drop_last()) + seq![','] + json_text(items.last())
    }
}

/// Members as `"key":value`, separated by ','.
pub open spec fn members_text(members: Seq<(String, JsonValue)>) -> Seq<char>
    decreases members,
{
    if members.len() == 0 {
        Seq::empty()
    } else {
        let m = members.last();
        let one = seq!['"'] + escaped(m.0@) + seq!['"', ':'] + json_text(m.1);
        if members.len() == 1 {
            one
        } else {
            members_text(members.drop_last()) + seq![','] + one
        }
    }
}

proof fn lemma_member_index(members: Seq<(String, JsonValue)>, key: Seq<char>, i: int)
    requires
        0 <= i <= members.len(),
        forall|j: int| 0 <= j < i ==> (#[trigger] members[j]).0@ != key,
        i == members.len() || members[i].0@ == key,
    ensures
        member_index(members, key) == i,
    decreases i,
{
    if i > 0 {
        lemma_member_index(members.drop_first(), key, i - 1);
    }
}

fn hex_char(d: u32) -> (c: char)
    requires
        d < 16,
    ensures
        c == hex_digit(d as nat),
{
    let b: u8 = if d < 10 { 48u8 + (d as u8) } else { 87u8 + (d as u8) };
    b as char
}

/// Appends the escaped form of `c` inside a JSON string.
fn push_escaped_char(out: &mut String, c: char)
    ensures
        final(out)@ == old(out)@ + escape_char(c),
{
    let u = c as u32;
    let ghost start = out@;
    if c == '"' {
        push_char(out, '\\');
        push_char(out, '"');
    } else if c == '\\' {
        push_char(out, '\\');
        push_char(out, '\\');
    } else if u == 0x08 {
        push_char(out, '\\');
        push_char(out, 'b');
    } else if u == 0x0C {
        push_char(out, '\\');
        push_char(out, 'f');
    } else if c == '\n' {
        push_char(out, '\\');
        push_char(out, 'n');
    } else if c == '\r' {
        push_char(out, '\\');
        push_char(out, 'r');
    } else if c == '\t' {
        push_char(out, '\\');
        push_char(out, 't');
    } else if u < 0x20 {
        push_char(out, '\\');
        push_char(out, 'u');
        push_char(out, '0');
        push_char(out, '0');
        push_char(out, hex_char(u / 16));
        push_char(out, hex_char(u % 16));
    } else {
        push_char(out, c);
    }
    assert(out@ =~= start + escape_char(c));
}

/// Appends `"` + the escaped characters of `s` + `"`.
fn push_quoted(out: &mut String, s: &str)
    ensures
        final(out)@ == old(out)@ + (seq!['"'] + escaped(s@) + seq!['"']),
{
    let ghost start = out@;
    let cs = chars_of(s);
    push_char(out, '"');
    let mut i: usize = 0;
    while i < cs.len()
        invariant
            i <= cs@.len(),
            cs@ == s@,
            out@ == start.push('"') + escaped(cs@.take(i as int)),
        decreases cs@.len() - i,
    {
        push_escaped_char(out, cs[i]);
        assert(cs@.take(i + 1).drop_last() =~= cs@.take(i as int));
        i = i + 1;
    }
    push_char(out, '"');
    assert(cs@.take(cs@.len() as int) =~= cs@);
    assert(out@ =~= start + (seq!['"'] + escaped(s@) + seq!['"']));
}

/// `serde_json::Value`, the document that `serde_json` parses text into.
#[verifier::external_type_specification]
#[verifier::external_body]
pub struct ExSerdeValue(serde_json::Value);

/// What `serde_json::from_str::<serde_json::Value>` makes of a text: the
/// document, as a `JsonValue`, or the text of its error.
pub uninterp spec fn json_parse(text: Seq<char>) -> Result<JsonValue, Seq<char>>;

/// Parses a JSON text with `serde_json::from_str` into a
/// `serde_json::Value` and hands the document back as a `JsonValue`, or
/// the error's text (`Display`). The contract only names the outcome:
/// it depends on the text alone.
#[verifier::external_body]
pub fn parse_json(text: &str) -> (r: Result<JsonValue, String>)
    ensures
        r is Ok <==> json_parse(text@) is Ok,
        r is Ok ==> r->Ok_0 == json_parse(text@)->Ok_0,
        r is Err ==> r->Err_0@ == json_parse(text@)->Err_0,
{
    match serde_json::from_str::<serde_json::Value>(text) {
        Ok(v) => Ok(from_serde_value(v)),
        Err(e) => Err(e.to_string()),
    }
}

/// A `serde_json::Value` as a `JsonValue`, variant for variant; a number
/// keeps its text (`serde_json::Number`'s `Display`). Only `parse_json`
/// uses it, to convert its result.
#[verifier::external_body]
fn from_serde_value(v: serde_json::Value) -> JsonValue {
    match v {
        serde_json::Value::Null => JsonValue::Null,
        serde_json::Value::Bool(b) => JsonValue::Bool(b),
        serde_json::Value::Number(n) => JsonValue::Number(n.to_string()),
        serde_json::Value::String(s) => JsonValue::String(s),
        serde_json::Value::Array(a) => JsonValue::Array(a.into_iter().map(from_serde_value).collect()),
        serde_json::Value::Object(m) => JsonValue::Object(m.into_iter().map(|(k, v)| (k, from_serde_value(v))).collect()),
    }
}

/// Appends the compact JSON text of `v`.
pub fn write_json(v: &JsonValue, out: &mut String)
    ensures
        final(out)@ == old(out)@ + json_text(*v),
    decreases v,
{
    let ghost start = out@;
    match v {
        JsonValue::Null => {
            out.append("null");
        },
        JsonValue::Bool(b) => {
            if *b {
                out.append("true");
            } else {
                out.append("false");
            }
        },
        JsonValue::Number(t) => {
            out.append(t.as_str());
        },
        JsonValue::String(t) => {
            push_quoted(out, t.as_str());
        },
        JsonValue::Array(a) => {
            push_char(out, '[');
            let mut i: usize = 0;
            while i < a.len()
                invariant
                    i <= a@.len(),
                    *v == JsonValue::Array(*a),
                    out@ == start.push('[') + items_text(a@.take(i as int)),
                decreases a@.len() - i,
            {
                let ghost before = out@;
                if i > 0 {
                    push_char(out, ',');
                }
                proof {
                    assert(decreases_to!(*v => (*v)->Array_0));
                    assert(decreases_to!(*a => a@));
                    assert(decreases_to!(a@ => a@[i as int]));
                    assert(decreases_to!(*v => a@[i as int]));
                }
                write_json(&a[i], out);
                proof {
                    let t = a@.take(i + 1);
                    assert(t.drop_last() =~= a@.take(i as int));
                    if i == 0 {
                        assert(items_text(a@.take(0)) =~= Seq::<char>::empty());
                    }
                    assert(out@ =~= start.push('[') + items_text(t));
                }
                i = i + 1;
            }
            push_char(out, ']');
            assert(a@.take(a@.len() as int) =~= a@);
        },
        JsonValue::Object(m) => {
            push_char(out, '{');
            let mut i: usize = 0;
            while i < m.len()
                invariant
                    i <= m@.len(),
                    *v == JsonValue::Object(*m),
                    out@ == start.push('{') + members_text(m@.take(i as int)),
                decreases m@.len() - i,
            {
                if i > 0 {
                    push_char(out, ',');
                }
                push_quoted(out, m[i].0.as_str());
                push_char(out, ':');
                proof {
                    assert(decreases_to!(*v => (*v)->Object_0));
                    assert(decreases_to!(*m => m@));
                    assert(decreases_to!(m@ => m@[i as int]));
                    assert(decreases_to!(m@[i as int] => m@[i as int].1));
                    assert(decreases_to!(*v => m@[i as int].1));
                }
                write_json(&m[i].1, out);
                proof {
                    let t = m@.take(i + 1);
                    assert(t.drop_last() =~= m@.take(i as int));
                    if i == 0 {
                        assert(members_text(m@.take(0)) =~= Seq::<char>::empty());
                    }
                    assert(out@ =~= start.push('{') + members_text(t));
                }
                i = i + 1;
            }
            push_char(out, '}');
            assert(m@.take(m@.len() as int) =~= m@);
        },
    }
    assert(out@ =~= start + json_text(*v));
}

/// The value of the first member named `key`.
pub fn find_member<'a>(members: &'a Vec<(String, JsonValue)>, key: &str) -> (r: Option<&'a JsonValue>)
    ensures
        member_index(members@, key@) < members@.len() ==> r == Some(
            &members@[member_index(members@, key@) as int].1,
        ),
        member_index(members@, key@) >= members@.len() ==> r is None,
{
    let k = key.to_string();
    let mut i: usize = 0;
    while i < members.len()
        invariant
            i <= members@.len(),
            k@ == key@,
            forall|j: int| 0 <= j < i ==> (#[trigger] members@[j]).0@ != key@,
        decreases members@.len() - i,
    {
        if members[i].0 == k {
            proof {
                lemma_member_index(members@, key@, i as int);
            }
            return Some(&members[i].1);
        }
        i = i + 1;
    }
    proof {
        lemma_member_index(members@, key@, i as int);
    }
    None
}

impl JsonValue {
    /// The member `key` of an object; `None` for a missing member or a
    /// value that is not an object.
    pub fn get(&self, key: &str) -> (r: Option<&JsonValue>)
        ensures
            r matches Some(x) ==> json_get(*self, key@) == Some(*x),
            r is None ==> json_get(*self, key@) is None,
    {
        match self {
            JsonValue::Object(members) => find_member(members, key),
            _ => None,
        }
    }

    /// The items of an array.
    pub fn as_array(&self) -> (r: Option<&Vec<JsonValue>>)
        ensures
            r matches Some(a) ==> *self == JsonValue::Array(*a),
            r is None ==> !(*self is Array),
    {
        match self {
            JsonValue::Array(a) => Some(a),
            _ => None,
        }
    }

    /// The text of a string.
    pub fn as_str(&self) -> (r: Option<&str>)
        ensures
            r matches Some(s) ==> (*self matches JsonValue::String(t) && t@ == s@),
            r is None ==> !(*self is String),
    {
        match self {
            JsonValue::String(s) => Some(s.as_str()),
            _ => None,
        }
    }
}

} // verus!
