//! File entries from Moonraker's file list API.
use vstd::prelude::*;
use crate::json::{json_get, json_parse, JsonValue};
use crate::moonraker::client::{parse_reply, MoonrakerError};
use crate::text::{all_digits, chars_of, dec, digits_value, lemma_dec_spells, parse_digits};

verus! {

/// A file entry returned by the Moonraker file list API.
#[derive(Debug, Clone, PartialEq)]
pub struct FileEntry {
    /// Filename (e.g. "test.gcode").
    pub name: String,
    /// File size in bytes.
    pub size: u64,
    /// Last modified timestamp (Unix epoch or ISO string), as text.
    pub modified: String,
}

/// The unsigned integer a JSON number text spells, if it is one that fits
/// in a `u64` (no sign, fraction or exponent).
pub open spec fn json_u64(t: Seq<char>) -> Option<u64> {
    if t.len() > 0 && all_digits(t) && digits_value(t) <= u64::MAX {
        Some(digits_value(t) as u64)
    } else {
        None
    }
}

/// The name of a file entry: a string.
pub open spec fn name_of(v: JsonValue) -> Option<Seq<char>> {
    match v {
        JsonValue::String(s) => Some(s@),
        _ => None,
    }
}

/// The size of a file entry: an unsigned integer.
pub open spec fn size_of(v: JsonValue) -> Option<u64> {
    match v {
        JsonValue::Number(t) => json_u64(t@),
        _ => None,
    }
}

/// Whether a JSON number text has a fraction or an exponent, so that it
/// denotes a floating-point number rather than an integer.
pub open spec fn is_float_text(t: Seq<char>) -> bool {
    t.contains('.') || t.contains('e') || t.contains('E')
}

/// The modification time of a file entry, and whether it still has to be
/// rendered as a floating-point number: a string as it is; an integer as
/// its text, which is already how it is shown; a floating-point number as
/// its JSON text, marked for rendering.
pub open spec fn modified_of(v: JsonValue) -> Option<(Seq<char>, bool)> {
    match v {
        JsonValue::String(s) => Some((s@, false)),
        JsonValue::Number(t) => Some((t@, is_float_text(t@))),
        _ => None,
    }
}

/// A file entry from its three fields, when each has the right kind: name,
/// size, modification text, and whether that text is a floating-point
/// number still to be rendered.
pub open spec fn entry_from(
    name: Option<JsonValue>,
    size: Option<JsonValue>,
    modified: Option<JsonValue>,
) -> Option<(Seq<char>, u64, Seq<char>, bool)> {
    match (name, size, modified) {
        (Some(n), Some(s), Some(m)) => match (name_of(n), size_of(s), modified_of(m)) {
            (Some(n), Some(s), Some(m)) => Some((n, s, m.0, m.1)),
            _ => None,
        },
        _ => None,
    }
}

/// The entry a list item describes (see `entry_from`): an object with the fields `filename`,
/// `size` and `modified` (others are ignored), or an array of exactly
/// those three values in that order; anything else describes none.
pub open spec fn entry_of(v: JsonValue) -> Option<(Seq<char>, u64, Seq<char>, bool)> {
    match v {
        JsonValue::Object(_) => entry_from(
            json_get(v, "filename"@),
            json_get(v, "size"@),
            json_get(v, "modified"@),
        ),
        JsonValue::Array(a) => if a@.len() == 3 {
            entry_from(Some(a@[0]), Some(a@[1]), Some(a@[2]))
        } else {
            None
        },
        _ => None,
    }
}

/// An object listing a file by name, size and modification time describes
/// that file: its name, the size that the decimal size text spells, and
/// the time as given, marked for rendering only when it is a number with a
/// fraction or an exponent. Other members do not matter.
pub proof fn lemma_entry_of_object(
    v: JsonValue,
    name: String,
    size: nat,
    modified: JsonValue,
)
    requires
        v is Object,
        json_get(v, "filename"@) == Some(JsonValue::String(name)),
        size <= u64::MAX,
        json_get(v, "size"@) matches Some(JsonValue::Number(t)) && t@ == dec(size),
        json_get(v, "modified"@) == Some(modified),
        modified is String || modified is Number,
    ensures
        entry_of(v) matches Some(e) && e.0 == name@ && e.1 == size && (modified matches JsonValue::String(m)
            ==> e.2 == m@ && !e.3) && (modified matches JsonValue::Number(t) ==> e.2 == t@ && e.3
            == is_float_text(t@)),
{
    lemma_dec_spells(size);
}

/// A list item that is neither an object nor an array of three values
/// describes no file, nor does an object without a string `filename`.
pub proof fn lemma_entry_of_rejects(v: JsonValue)
    requires
        !(v is Object || v is Array) || (v is Object && !(json_get(v, "filename"@) matches Some(
            JsonValue::String(_),
        ))),
    ensures
        entry_of(v) is None,
{
}

/// The entries that the items describe, in order; items that describe none
/// are skipped.
pub open spec fn entries_of(items: Seq<JsonValue>) -> Seq<(Seq<char>, u64, Seq<char>, bool)>
    decreases items.len(),
{
    if items.len() == 0 {
        Seq::empty()
    } else {
        let rest = entries_of(items.drop_last());
        match entry_of(items.last()) {
            Some(e) => rest.push(e),
            None => rest,
        }
    }
}


/// File lists: the result for two runs of items one after the other is the
/// result for the first followed by the result for the second, so nothing
/// is dropped, added or moved because of where it stands.
pub proof fn lemma_entries_of_concat(a: Seq<JsonValue>, b: Seq<JsonValue>)
    ensures
        entries_of(a + b) == entries_of(a) + entries_of(b),
    decreases b.len(),
{
    if b.len() == 0 {
        assert(a + b =~= a);
        assert(entries_of(a) + entries_of(b) =~= entries_of(a));
    } else {
        lemma_entries_of_concat(a, b.drop_last());
        assert((a + b).drop_last() =~= a + b.drop_last());
        assert((a + b).last() == b.last());
        match entry_of(b.last()) {
            Some(e) => {
                assert(entries_of(a) + entries_of(b.drop_last()).push(e) =~= (entries_of(a) + entries_of(b.drop_last())).push(e));
            },
            None => {},
        }
    }
}

/// File lists: when every item describes one, all of them are kept, in order.
pub proof fn lemma_entries_of_all(items: Seq<JsonValue>)
    requires
        forall|i: int| 0 <= i < items.len() ==> #[trigger] entry_of(items[i]) is Some,
    ensures
        entries_of(items).len() == items.len(),
        forall|i: int| 0 <= i < items.len() ==> Some(#[trigger] entries_of(items)[i]) == entry_of(items[i]),
    decreases items.len(),
{
    if items.len() > 0 {
        let p = items.drop_last();
        assert forall|i: int| 0 <= i < p.len() implies #[trigger] entry_of(p[i]) is Some by {
            assert(p[i] == items[i]);
        }
        lemma_entries_of_all(p);
        assert(entry_of(items[items.len() - 1]) is Some);
        assert forall|i: int| 0 <= i < items.len() implies Some(#[trigger] entries_of(items)[i]) == entry_of(items[i]) by {
            if i < p.len() {
                assert(items[i] == p[i]);
            }
        }
    }
}

/// The file list of a reply to `server/files/list`: the entries of its
/// `result` array, none when there is no such array.
pub open spec fn file_list_of(reply: JsonValue) -> Seq<(Seq<char>, u64, Seq<char>, bool)> {
    match json_get(reply, "result"@) {
        Some(JsonValue::Array(a)) => entries_of(a@),
        _ => Seq::empty(),
    }
}

/// A file entry read from a file list. When `float_modified` is set,
/// `entry.modified` holds the JSON text of a number with a fraction or an
/// exponent; the list shows such a time as the floating-point number it
/// denotes, which the caller renders (floating point stays outside this
/// library).
#[derive(Debug, Clone, PartialEq)]
pub struct ListedFile {
    pub entry: FileEntry,
    pub float_modified: bool,
}

/// A listed file as plain values.
pub open spec fn entry_model(e: ListedFile) -> (Seq<char>, u64, Seq<char>, bool) {
    (e.entry.name@, e.entry.size, e.entry.modified@, e.float_modified)
}

/// Whether `t` has a '.', 'e' or 'E'.
fn has_float_mark(t: &str) -> (r: bool)
    ensures
        r == is_float_text(t@),
{
    let cs = chars_of(t);
    let mut i: usize = 0;
    while i < cs.len()
        invariant
            i <= cs@.len(),
            cs@ == t@,
            forall|j: int| 0 <= j < i ==> cs@[j] != '.' && cs@[j] != 'e' && cs@[j] != 'E',
        decreases cs@.len() - i,
    {
        let c = cs[i];
        if c == '.' || c == 'e' || c == 'E' {
            assert(t@[i as int] == c);
            return true;
        }
        i = i + 1;
    }
    assert(!t@.contains('.') && !t@.contains('e') && !t@.contains('E'));
    false
}

fn name_field(v: &JsonValue) -> (r: Option<String>)
    ensures
        r matches Some(s) ==> name_of(*v) == Some(s@),
        r is None ==> name_of(*v) is None,
{
    match v {
        JsonValue::String(s) => Some(s.clone()),
        _ => None,
    }
}

fn size_field(v: &JsonValue) -> (r: Option<u64>)
    ensures
        r == size_of(*v),
{
    match v {
        JsonValue::Number(t) => {
            let cs = chars_of(t.as_str());
            assert(cs@.subrange(0, cs@.len() as int) =~= t@);
            parse_digits(cs.as_slice(), 0, cs.len(), u64::MAX)
        },
        _ => None,
    }
}

fn modified_field(v: &JsonValue) -> (r: Option<(String, bool)>)
    ensures
        r matches Some(m) ==> modified_of(*v) == Some((m.0@, m.1)),
        r is None ==> modified_of(*v) is None,
{
    match v {
        JsonValue::String(s) => Some((s.clone(), false)),
        JsonValue::Number(t) => Some((t.clone(), has_float_mark(t.as_str()))),
        _ => None,
    }
}

fn entry_fields(name: Option<&JsonValue>, size: Option<&JsonValue>, modified: Option<&JsonValue>) -> (r: Option<ListedFile>)
    ensures
        r matches Some(e) ==> entry_from(
            match name { Some(x) => Some(*x), None => None },
            match size { Some(x) => Some(*x), None => None },
            match modified { Some(x) => Some(*x), None => None },
        ) == Some(entry_model(e)),
        r is None ==> entry_from(
            match name { Some(x) => Some(*x), None => None },
            match size { Some(x) => Some(*x), None => None },
            match modified { Some(x) => Some(*x), None => None },
        ) is None,
{
    match (name, size, modified) {
        (Some(n), Some(s), Some(m)) => match (name_field(n), size_field(s), modified_field(m)) {
            (Some(n), Some(s), Some((m, f))) => Some(
                ListedFile { entry: FileEntry { name: n, size: s, modified: m }, float_modified: f },
            ),
            _ => None,
        },
        _ => None,
    }
}

/// The entry a list item describes (see `entry_of`).
pub fn parse_entry(v: &JsonValue) -> (r: Option<ListedFile>)
    ensures
        r matches Some(e) ==> entry_of(*v) == Some(entry_model(e)),
        r is None ==> entry_of(*v) is None,
{
    match v {
        JsonValue::Object(_) => entry_fields(v.get("filename"), v.get("size"), v.get("modified")),
        JsonValue::Array(a) => {
            if a.len() == 3 {
                entry_fields(Some(&a[0]), Some(&a[1]), Some(&a[2]))
            } else {
                None
            }
        },
        _ => None,
    }
}

/// The file list of a reply to `server/files/list` (see `file_list_of`).
pub fn parse_file_list(reply: &JsonValue) -> (r: Vec<ListedFile>)
    ensures
        r@.map_values(|e: ListedFile| entry_model(e)) == file_list_of(*reply),
{
    let mut out: Vec<ListedFile> = Vec::new();
    match reply.get("result") {
        Some(JsonValue::Array(items)) => {
            let mut i: usize = 0;
            while i < items.len()
                invariant
                    i <= items@.len(),
                    out@.map_values(|e: ListedFile| entry_model(e)) == entries_of(items@.take(i as int)),
                decreases items@.len() - i,
            {
                let ghost before = out@;
                proof {
                    assert(items@.take(i + 1).drop_last() =~= items@.take(i as int));
                }
                match parse_entry(&items[i]) {
                    Some(e) => {
                        out.push(e);
                        assert(out@.map_values(|e: ListedFile| entry_model(e)) =~= before.map_values(
                            |e: ListedFile| entry_model(e),
                        ).push(entry_model(out@.last())));
                    },
                    None => {},
                }
                i = i + 1;
            }
            assert(items@.take(items@.len() as int) =~= items@);
        },
        _ => {
            assert(out@.map_values(|e: ListedFile| entry_model(e)) =~= Seq::<(Seq<char>, u64, Seq<char>, bool)>::empty());
        },
    }
    out
}

/// The file list in the body of a successful reply to
/// `server/files/list`: `JsonError` when the body is not JSON, else its
/// entries (see `file_list_of`).
pub fn file_list_from_text(body: &str) -> (r: Result<Vec<ListedFile>, MoonrakerError>)
    ensures
        json_parse(body@) is Err ==> (r matches Err(MoonrakerError::JsonError(m)) && m@ == json_parse(
            body@,
        )->Err_0),
        json_parse(body@) is Ok ==> (r matches Ok(l) && l@.map_values(|e: ListedFile| entry_model(e))
            == file_list_of(json_parse(body@)->Ok_0)),
{
    let reply = parse_reply(body)?;
    Ok(parse_file_list(&reply))
}

} // verus!
