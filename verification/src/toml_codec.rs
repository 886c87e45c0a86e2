use vstd::prelude::*;

verus! {

/// A top-level value of a spec document, as far as this library reads one:
/// a string, a list of strings, or something of any other shape.
#[derive(Debug, Clone, PartialEq, Eq)]
pub enum RawVal {
    Str(String),
    List(Vec<String>),
    Other,
}

/// The mathematical image of a `RawVal`.
pub enum RawValV {
    Str(Seq<char>),
    List(Seq<Seq<char>>),
    Other,
}

impl View for RawVal {
    type V = RawValV;

    open spec fn view(&self) -> RawValV {
        match self {
            RawVal::Str(s) => RawValV::Str(s@),
            RawVal::List(items) => RawValV::List(items@.map_values(|s: String| s@)),
            RawVal::Other => RawValV::Other,
        }
    }
}

/// A value this library writes into a document: a string or a list of
/// strings; nothing else is ever written.
#[derive(Debug, Clone, PartialEq, Eq)]
pub enum EmitVal {
    Str(String),
    List(Vec<String>),
}

impl View for EmitVal {
    type V = RawValV;

    open spec fn view(&self) -> RawValV {
        match self {
            EmitVal::Str(s) => RawValV::Str(s@),
            EmitVal::List(items) => RawValV::List(items@.map_values(|s: String| s@)),
        }
    }
}

/// The table a list of key/value entries denotes; a later entry with the
/// same key overrides an earlier one.
pub open spec fn table_map(entries: Seq<(String, RawVal)>) -> Map<Seq<char>, RawValV>
    decreases entries.len(),
{
    if entries.len() == 0 {
        Map::<Seq<char>, RawValV>::empty()
    } else {
        table_map(entries.drop_last()).insert(entries.last().0@, entries.last().1@)
    }
}

/// As `table_map`, for the entries this library writes out.
pub open spec fn emit_map(entries: Seq<(String, EmitVal)>) -> Map<Seq<char>, RawValV>
    decreases entries.len(),
{
    if entries.len() == 0 {
        Map::<Seq<char>, RawValV>::empty()
    } else {
        emit_map(entries.drop_last()).insert(entries.last().0@, entries.last().1@)
    }
}

/// What the TOML reader makes of a document: `None` when the text is not a
/// well-formed TOML document, otherwise its top-level table with every value
/// reduced to a `RawValV`.
pub uninterp spec fn toml_table_of(s: Seq<char>) -> Option<Map<Seq<char>, RawValV>>;

/// Relies on `toml::from_str::<toml::Table>`: reads a TOML document and
/// hands back its top-level table. String values and arrays made only of
/// strings keep their contents; a value of any other shape is opaque here.
/// The error carries the parser's own diagnostic.
#[verifier::external_body]
pub(crate) fn read_toml_table(text: &str) -> (r: Result<Vec<(String, RawVal)>, String>)
    ensures
        match r {
            Ok(entries) => toml_table_of(text@) == Some(table_map(entries@)),
            Err(_) => toml_table_of(text@) is None,
        },
{
    match toml::from_str::<toml::Table>(text) {
        Err(e) => Err(e.to_string()),
        Ok(t) => Ok(t.into_iter().map(|(k, v)| (k, match v {
            toml::Value::String(s) => RawVal::Str(s),
            toml::Value::Array(a) => a.into_iter().map(
                |i| if let toml::Value::String(s) = i { Ok(s) } else { Err(()) },
            ).collect::<Result<Vec<String>, ()>>().map_or(RawVal::Other, RawVal::List),
            _ => RawVal::Other,
        })).collect()),
    }
}

/// Relies on `toml::to_string`: a table holding only strings and lists of
/// strings serializes to a document that reads back as that same table.
#[verifier::external_body]
pub(crate) fn write_toml_table(entries: &Vec<(String, EmitVal)>) -> (r: String)
    ensures
        toml_table_of(r@) == Some(emit_map(entries@)),
{
    let table: toml::Table = entries.iter().map(|(k, v)| (k.clone(), match v {
        EmitVal::Str(s) => toml::Value::String(s.clone()),
        EmitVal::List(items) => toml::Value::Array(
            items.iter().cloned().map(toml::Value::String).collect(),
        ),
    })).collect();
    toml::to_string(&table).expect("a table of strings serializes")
}

/// Entries at or past `idx` never mention `key`, so looking `key` up in the
/// whole table is looking it up among the first `idx` entries.
pub proof fn lemma_table_map_skip(entries: Seq<(String, RawVal)>, idx: int, key: Seq<char>)
    requires
        0 <= idx <= entries.len(),
        forall|j: int| idx <= j < entries.len() ==> (#[trigger] entries[j].0)@ != key,
    ensures
        table_map(entries).contains_key(key) == table_map(
            entries.take(idx),
        ).contains_key(key),
        table_map(entries).contains_key(key) ==> table_map(entries)[key] == table_map(
            entries.take(idx),
        )[key],
    decreases entries.len() - idx,
{
    if idx == entries.len() {
        assert(entries.take(idx) =~= entries);
    } else {
        lemma_table_map_skip(entries, idx + 1, key);
        let t = entries.take(idx + 1);
        assert(t.drop_last() =~= entries.take(idx));
        assert(t.last() == entries[idx]);
        assert(table_map(t) == table_map(entries.take(idx)).insert(
            entries[idx].0@,
            entries[idx].1@,
        ));
    }
}

/// A copy of a list of strings whose views are the same.
pub fn dup_strings(items: &Vec<String>) -> (r: Vec<String>)
    ensures
        r@.map_values(|s: String| s@) == items@.map_values(|s: String| s@),
{
    let mut copy: Vec<String> = Vec::new();
    let mut i: usize = 0;
    while i < items.len()
        invariant
            0 <= i <= items@.len(),
            copy@.len() == i,
            forall|j: int| 0 <= j < i ==> (#[trigger] copy@[j])@ == items@[j]@,
        decreases items@.len() - i,
    {
        copy.push(items[i].clone());
        i = i + 1;
    }
    proof {
        assert(copy@.map_values(|s: String| s@) =~= items@.map_values(|s: String| s@));
    }
    copy
}

impl RawVal {
    /// A copy whose view is the same.
    pub fn dup(&self) -> (r: RawVal)
        ensures
            r@ == self@,
    {
        match self {
            RawVal::Str(s) => RawVal::Str(s.clone()),
            RawVal::List(items) => RawVal::List(dup_strings(items)),
            RawVal::Other => RawVal::Other,
        }
    }
}

/// Looks a key up in a list of entries; a later entry with the same key
/// wins, as it does in the table the entries denote.
pub fn table_get(entries: &Vec<(String, RawVal)>, key: &str) -> (r: Option<RawVal>)
    ensures
        match r {
            Some(v) => table_map(entries@).contains_key(key@) && table_map(entries@)[key@]
                == v@,
            None => !table_map(entries@).contains_key(key@),
        },
{
    let mut idx = entries.len();
    while idx > 0
        invariant
            0 <= idx <= entries@.len(),
            forall|j: int| idx <= j < entries@.len() ==> (#[trigger] entries@[j].0)@ != key@,
        decreases idx,
    {
        idx = idx - 1;
        if crate::strutil::str_eq(entries[idx].0.as_str(), key) {
            proof {
                lemma_table_map_skip(entries@, idx + 1, key@);
                let t = entries@.take(idx + 1);
                assert(t.drop_last() =~= entries@.take(idx as int));
                assert(t.last() == entries@[idx as int]);
                assert(table_map(t) == table_map(entries@.take(idx as int)).insert(
                    entries@[idx as int].0@,
                    entries@[idx as int].1@,
                ));
            }
            return Some(entries[idx].1.dup());
        }
    }
    proof {
        lemma_table_map_skip(entries@, 0, key@);
        assert(entries@.take(0) =~= Seq::<(String, RawVal)>::empty());
    }
    None
}


/// Whether the key occurs in the table the entries denote.
pub fn table_has(entries: &Vec<(String, RawVal)>, key: &str) -> (r: bool)
    ensures
        r == table_map(entries@).contains_key(key@),
{
    match table_get(entries, key) {
        Some(_) => true,
        None => false,
    }
}

} // verus!
