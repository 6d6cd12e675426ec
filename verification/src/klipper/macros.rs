//! Klipper macro lists as Moonraker reports them.
use vstd::prelude::*;
use vstd::string::StringExecFns;
use crate::json::{json_get, JsonValue};

verus! {

/// Information about a single Klipper macro.
#[derive(Debug, Clone, PartialEq)]
pub struct MacroInfo {
    pub name: String,
    pub params: Vec<String>,
}

/// A macro as plain values: (name, parameter names).
pub open spec fn macro_view(m: MacroInfo) -> (Seq<char>, Seq<Seq<char>>) {
    (m.name@, m.params.deep_view())
}

/// The strings among `items`, in order; other values are skipped.
pub open spec fn string_items(items: Seq<JsonValue>) -> Seq<Seq<char>>
    decreases items.len(),
{
    if items.len() == 0 {
        Seq::empty()
    } else {
        let prev = string_items(items.drop_last());
        match items.last() {
            JsonValue::String(s) => prev.push(s@),
            _ => prev,
        }
    }
}

/// The macro an entry of the list describes: it needs a string "name";
/// "params" contributes its string items when it is an array.
pub open spec fn macro_entry(e: JsonValue) -> Option<(Seq<char>, Seq<Seq<char>>)> {
    match json_get(e, "name"@) {
        Some(JsonValue::String(n)) => {
            let params = match json_get(e, "params"@) {
                Some(JsonValue::Array(a)) => string_items(a@),
                _ => Seq::empty(),
            };
            Some((n@, params))
        },
        _ => None,
    }
}

/// The macros the entries describe, in order; entries without a name are skipped.
pub open spec fn macro_entries(items: Seq<JsonValue>) -> Seq<(Seq<char>, Seq<Seq<char>>)>
    decreases items.len(),
{
    if items.len() == 0 {
        Seq::empty()
    } else {
        let prev = macro_entries(items.drop_last());
        match macro_entry(items.last()) {
            Some(m) => prev.push(m),
            None => prev,
        }
    }
}


/// Macro lists: the result for two runs of items one after the other is the
/// result for the first followed by the result for the second, so nothing
/// is dropped, added or moved because of where it stands.
pub proof fn lemma_macro_entries_concat(a: Seq<JsonValue>, b: Seq<JsonValue>)
    ensures
        macro_entries(a + b) == macro_entries(a) + macro_entries(b),
    decreases b.len(),
{
    if b.len() == 0 {
        assert(a + b =~= a);
        assert(macro_entries(a) + macro_entries(b) =~= macro_entries(a));
    } else {
        lemma_macro_entries_concat(a, b.drop_last());
        assert((a + b).drop_last() =~= a + b.drop_last());
        assert((a + b).last() == b.last());
        match macro_entry(b.last()) {
            Some(e) => {
                assert(macro_entries(a) + macro_entries(b.drop_last()).push(e) =~= (macro_entries(a) + macro_entries(b.drop_last())).push(e));
            },
            None => {},
        }
    }
}

/// Macro lists: when every item describes one, all of them are kept, in order.
pub proof fn lemma_macro_entries_all(items: Seq<JsonValue>)
    requires
        forall|i: int| 0 <= i < items.len() ==> #[trigger] macro_entry(items[i]) is Some,
    ensures
        macro_entries(items).len() == items.len(),
        forall|i: int| 0 <= i < items.len() ==> Some(#[trigger] macro_entries(items)[i]) == macro_entry(items[i]),
    decreases items.len(),
{
    if items.len() > 0 {
        let p = items.drop_last();
        assert forall|i: int| 0 <= i < p.len() implies #[trigger] macro_entry(p[i]) is Some by {
            assert(p[i] == items[i]);
        }
        lemma_macro_entries_all(p);
        assert(macro_entry(items[items.len() - 1]) is Some);
        assert forall|i: int| 0 <= i < items.len() implies Some(#[trigger] macro_entries(items)[i]) == macro_entry(items[i]) by {
            if i < p.len() {
                assert(items[i] == p[i]);
            }
        }
    }
}

/// The macros of a `/printer/gcode/macros` response: `None` unless its
/// "macros" member is an array.
pub open spec fn macro_list_of(response: JsonValue) -> Option<Seq<(Seq<char>, Seq<Seq<char>>)>> {
    match json_get(response, "macros"@) {
        Some(JsonValue::Array(a)) => Some(macro_entries(a@)),
        _ => None,
    }
}

/// A list of macros retrieved from the Moonraker `/printer/gcode/macros` endpoint.
#[derive(Debug, Clone, PartialEq)]
pub struct MacroList {
    macros: Vec<MacroInfo>,
}

fn string_params(items: &Vec<JsonValue>) -> (r: Vec<String>)
    ensures
        r.deep_view() == string_items(items@),
{
    let mut out: Vec<String> = Vec::new();
    let mut i: usize = 0;
    while i < items.len()
        invariant
            i <= items@.len(),
            out.deep_view() == string_items(items@.take(i as int)),
        decreases items@.len() - i,
    {
        assert(items@.take(i + 1).drop_last() =~= items@.take(i as int));
        let ghost before = out@;
        match items[i].as_str() {
            Some(s) => {
                out.push(s.to_string());
                assert(out.deep_view() =~= string_items(items@.take(i as int)).push(s@)) by {
                    assert forall|j: int| 0 <= j < before.len() implies out.deep_view()[j]
                        == string_items(items@.take(i as int))[j] by {
                        assert(out@[j] == before[j]);
                    }
                }
            },
            None => {},
        }
        i = i + 1;
    }
    assert(items@.take(items@.len() as int) =~= items@);
    out
}

fn parse_entry(e: &JsonValue) -> (r: Option<MacroInfo>)
    ensures
        r matches Some(m) ==> macro_entry(*e) == Some(macro_view(m)),
        r is None ==> macro_entry(*e) is None,
{
    let name = match e.get("name") {
        Some(v) => match v.as_str() {
            Some(s) => s.to_string(),
            None => return None,
        },
        None => return None,
    };
    let params = match e.get("params") {
        Some(p) => match p.as_array() {
            Some(a) => string_params(a),
            None => {
                let v: Vec<String> = Vec::new();
                assert(v.deep_view() =~= Seq::<Seq<char>>::empty());
                v
            },
        },
        None => {
            let v: Vec<String> = Vec::new();
            assert(v.deep_view() =~= Seq::<Seq<char>>::empty());
            v
        },
    };
    Some(MacroInfo { name, params })
}

impl MacroList {
    /// The macros, as plain values.
    pub closed spec fn entries(&self) -> Seq<(Seq<char>, Seq<Seq<char>>)> {
        self.macros@.map_values(|m: MacroInfo| macro_view(m))
    }

    /// Parse a Moonraker `/printer/gcode/macros` response
    /// (`{"macros": [{"name": "LOAD_FILAMENT", "params": ["SPEED"]}, ...]}`).
    ///
    /// Returns `None` if the response has no "macros" array.
    pub fn parse(response: &JsonValue) -> (r: Option<Self>)
        ensures
            r matches Some(l) ==> macro_list_of(*response) == Some(l.entries()),
            r is None ==> macro_list_of(*response) is None,
    {
        let items = match response.get("macros") {
            Some(v) => match v.as_array() {
                Some(a) => a,
                None => return None,
            },
            None => return None,
        };
        let mut macros: Vec<MacroInfo> = Vec::new();
        let mut i: usize = 0;
        while i < items.len()
            invariant
                i <= items@.len(),
                macros@.map_values(|m: MacroInfo| macro_view(m)) == macro_entries(items@.take(i as int)),
            decreases items@.len() - i,
        {
            assert(items@.take(i + 1).drop_last() =~= items@.take(i as int));
            let ghost before = macros@;
            match parse_entry(&items[i]) {
                Some(m) => {
                    macros.push(m);
                    assert(macros@.map_values(|m: MacroInfo| macro_view(m)) =~= before.map_values(
                        |m: MacroInfo| macro_view(m),
                    ).push(macro_view(m)));
                },
                None => {},
            }
            i = i + 1;
        }
        assert(items@.take(items@.len() as int) =~= items@);
        Some(MacroList { macros })
    }

    /// The macros, in the order the response listed them.
    pub fn macros(&self) -> (r: &[MacroInfo])
        ensures
            r@.map_values(|m: MacroInfo| macro_view(m)) == self.entries(),
    {
        self.macros.as_slice()
    }

    pub fn get_names(&self) -> (r: Vec<&str>)
        ensures
            r@.len() == self.entries().len(),
            forall|i: int| 0 <= i < r@.len() ==> (#[trigger] r@[i])@ == self.entries()[i].0,
    {
        let mut out: Vec<&str> = Vec::new();
        let mut i: usize = 0;
        while i < self.macros.len()
            invariant
                i <= self.macros@.len(),
                out@.len() == i,
                forall|j: int| 0 <= j < i ==> (#[trigger] out@[j])@ == self.macros@[j].name@,
            decreases self.macros@.len() - i,
        {
            out.push(self.macros[i].name.as_str());
            i = i + 1;
        }
        out
    }

    /// The command that runs the named macro.
    pub fn execute_command(name: &str) -> (r: String)
        ensures
            r@ == "RUN_MACRO NAME="@ + name@,
    {
        let mut s = "RUN_MACRO NAME=".to_string();
        s.append(name);
        s
    }

    pub fn is_empty(&self) -> (b: bool)
        ensures
            b == (self.entries().len() == 0),
    {
        self.macros.len() == 0
    }

    pub fn len(&self) -> (n: usize)
        ensures
            n == self.entries().len(),
    {
        self.macros.len()
    }
}

} // verus!
