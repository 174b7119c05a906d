//! Flat configuration files: which format a path names, and the lookup in
//! the string-to-string table that a file of that format parses to.

use crate::json::opt_view;
use vstd::prelude::*;
use vstd::string::StrSliceExecFns;

verus! {

/// The formats of a flat configuration file.
#[derive(Clone, Copy, Debug, PartialEq, Eq, Structural)]
pub enum FileFormat {
    Toml,
    Json,
    Yaml,
}

/// `path` ends in a dot and `ext`, and the dot does not begin the file name.
pub open spec fn has_extension(path: Seq<char>, ext: Seq<char>) -> bool {
    let dot = path.len() - ext.len() - 1;
    &&& dot >= 1
    &&& path[dot] == '.'
    &&& path[dot - 1] != '/'
    &&& path.subrange(dot + 1, path.len() as int) == ext
}

/// The format that the extension of `path` names, if it names one.
pub open spec fn format_of(path: Seq<char>) -> Option<FileFormat> {
    if has_extension(path, "toml"@) {
        Some(FileFormat::Toml)
    } else if has_extension(path, "json"@) {
        Some(FileFormat::Json)
    } else if has_extension(path, "yaml"@) || has_extension(path, "yml"@) {
        Some(FileFormat::Yaml)
    } else {
        None
    }
}

/// Whether `path` has the extension `ext`.
pub fn ends_with_extension(path: &str, ext: &str) -> (b: bool)
    ensures
        b == has_extension(path@, ext@),
{
    let n = path.unicode_len();
    let m = ext.unicode_len();
    if n < 2 || m > n - 2 {
        return false;
    }
    let dot: usize = n - m - 1;
    if path.get_char(dot) != '.' || path.get_char(dot - 1) == '/' {
        return false;
    }
    let mut j: usize = 0;
    while j < m
        invariant
            0 <= j <= m,
            n == path@.len(),
            m == ext@.len(),
            dot == n - m - 1,
            dot >= 1,
            forall|k: int| 0 <= k < j ==> path@[dot + 1 + k] == ext@[k],
        decreases m - j,
    {
        if path.get_char(dot + 1 + j) != ext.get_char(j) {
            assert(path@.subrange(dot + 1, n as int)[j as int] != ext@[j as int]);
            return false;
        }
        j += 1;
    }
    assert(path@.subrange(dot + 1, n as int) =~= ext@);
    true
}

/// The format that the extension of `path` names.
pub fn detect_format(path: &str) -> (format: Option<FileFormat>)
    ensures
        format == format_of(path@),
{
    if ends_with_extension(path, "toml") {
        Some(FileFormat::Toml)
    } else if ends_with_extension(path, "json") {
        Some(FileFormat::Json)
    } else if ends_with_extension(path, "yaml") || ends_with_extension(path, "yml") {
        Some(FileFormat::Yaml)
    } else {
        None
    }
}

/// Index of the first entry of `entries` named `key` at or after `from`.
pub open spec fn entry_index<V>(entries: Seq<(String, V)>, key: Seq<char>, from: int) -> Option<int>
    decreases entries.len() - from,
{
    if 0 <= from < entries.len() {
        if entries[from].0@ == key {
            Some(from)
        } else {
            entry_index(entries, key, from + 1)
        }
    } else {
        None
    }
}

/// The table that a list of entries stands for: each key that occurs, with
/// the value of its first entry.
pub open spec fn table_of(entries: Seq<(String, String)>) -> Map<Seq<char>, Seq<char>> {
    Map::new(
        |k: Seq<char>| entry_index(entries, k, 0) is Some,
        |k: Seq<char>| entries[entry_index(entries, k, 0).unwrap()].1@,
    )
}

/// The value of `key` in `table`, if it has one.
pub open spec fn table_value(table: Map<Seq<char>, Seq<char>>, key: Seq<char>) -> Option<Seq<char>> {
    if table.contains_key(key) {
        Some(table[key])
    } else {
        None
    }
}

/// The table that a list of parsed entries stands for: each key that
/// occurs, with what its first entry holds.
pub open spec fn parsed_table_of(entries: Seq<(String, Option<String>)>) -> Map<Seq<char>, Option<Seq<char>>> {
    Map::new(
        |k: Seq<char>| entry_index(entries, k, 0) is Some,
        |k: Seq<char>| opt_view(entries[entry_index(entries, k, 0).unwrap()].1),
    )
}

/// No two entries have the same key.
pub open spec fn distinct_keys(entries: Seq<(String, Option<String>)>) -> bool {
    forall|i: int, j: int| 0 <= i < j < entries.len() ==> entries[i].0@ != entries[j].0@
}

/// The top-level table that `text` parses to in `format`, where it parses:
/// each key with the string that its value reads as, and with `None` where
/// the value is no scalar.
pub uninterp spec fn parsed_table(text: Seq<char>, format: FileFormat) -> Option<
    Map<Seq<char>, Option<Seq<char>>>,
>;

/// Every value of `table` is a scalar.
pub open spec fn all_scalar(table: Map<Seq<char>, Option<Seq<char>>>) -> bool {
    forall|k: Seq<char>| table.contains_key(k) ==> (#[trigger] table[k]) is Some
}

/// The flat table that `text` holds when read in `format`: its top-level
/// table, where the text parses and every value in that table is a scalar.
/// One value that is a table or a list leaves the file without a flat table.
pub open spec fn flat_table(text: Seq<char>, format: FileFormat) -> Option<Map<Seq<char>, Seq<char>>> {
    match parsed_table(text, format) {
        Some(table) => if all_scalar(table) {
            Some(Map::new(|k: Seq<char>| table.contains_key(k), |k: Seq<char>| table[k].unwrap()))
        } else {
            None
        },
        None => None,
    }
}

/// Parses `text` with the format's own parser of the `config` crate,
/// `config::Format::parse` on a `config::FileFormat`, and reads each
/// top-level value with `config::Value::into_string`. No key is taken as a
/// path and no configuration is built.
///
/// Trusted: the outcome is a function of text and format alone, named
/// [`parsed_table`]. The entries list that table, one entry for each key, in
/// no stated order; a value that `into_string` refuses is `None`.
#[verifier::external_body]
fn parse_table(text: &str, format: FileFormat) -> (r: Option<Vec<(String, Option<String>)>>)
    ensures
        r matches Some(entries) ==> distinct_keys(entries@) && parsed_table(text@, format) == Some(
            parsed_table_of(entries@),
        ),
        r is None ==> parsed_table(text@, format) is None,
{
    let format = match format {
        FileFormat::Toml => config::FileFormat::Toml,
        FileFormat::Json => config::FileFormat::Json,
        FileFormat::Yaml => config::FileFormat::Yaml,
    };
    let table = config::Format::parse(&format, None, text).ok()?;
    Some(table.into_iter().map(|(key, value)| (key, value.into_string().ok())).collect())
}

/// `flat` holds the entries of `parsed`, every one of them a scalar.
pub open spec fn same_entries(parsed: Seq<(String, Option<String>)>, flat: Seq<(String, String)>) -> bool {
    &&& flat.len() == parsed.len()
    &&& forall|i: int|
        0 <= i < parsed.len() ==> (#[trigger] parsed[i]).0@ == flat[i].0@ && opt_view(parsed[i].1) == Some(
            flat[i].1@,
        )
}

/// Where `entry_index` finds an entry, it is one named `key` at or after
/// `from`.
pub proof fn lemma_entry_index_found<V>(entries: Seq<(String, V)>, key: Seq<char>, from: int)
    requires
        0 <= from,
    ensures
        entry_index(entries, key, from) matches Some(i) ==> from <= i < entries.len() && entries[i].0@
            == key,
    decreases entries.len() - from,
{
    if from < entries.len() && entries[from].0@ != key {
        lemma_entry_index_found(entries, key, from + 1);
    }
}

/// Two lists with the same keys in the same places find a key at the same
/// place.
pub proof fn lemma_entry_index_by_keys<V, W>(
    a: Seq<(String, V)>,
    b: Seq<(String, W)>,
    key: Seq<char>,
    from: int,
)
    requires
        a.len() == b.len(),
        forall|i: int| 0 <= i < a.len() ==> (#[trigger] a[i]).0@ == b[i].0@,
    ensures
        entry_index(a, key, from) == entry_index(b, key, from),
    decreases a.len() - from,
{
    if 0 <= from < a.len() {
        assert(a[from].0@ == b[from].0@);
        if a[from].0@ != key {
            lemma_entry_index_by_keys(a, b, key, from + 1);
        }
    }
}

/// Among entries with distinct keys, every entry is the first of its key.
pub proof fn lemma_entry_index_distinct(entries: Seq<(String, Option<String>)>, at: int, from: int)
    requires
        distinct_keys(entries),
        0 <= from <= at < entries.len(),
    ensures
        entry_index(entries, entries[at].0@, from) == Some(at),
    decreases at - from,
{
    if from < at {
        lemma_entry_index_distinct(entries, at, from + 1);
    }
}

/// The entries as a flat list, where every one of them is a scalar.
pub fn scalar_entries(entries: &Vec<(String, Option<String>)>) -> (flat: Option<Vec<(String, String)>>)
    ensures
        match flat {
            Some(list) => same_entries(entries@, list@),
            None => exists|i: int| 0 <= i < entries@.len() && (#[trigger] entries@[i]).1 is None,
        },
{
    let mut list: Vec<(String, String)> = Vec::new();
    let mut i: usize = 0;
    while i < entries.len()
        invariant
            0 <= i <= entries.len(),
            list@.len() == i,
            forall|k: int|
                0 <= k < i ==> (#[trigger] entries@[k]).0@ == list@[k].0@ && opt_view(entries@[k].1) == Some(
                    list@[k].1@,
                ),
        decreases entries.len() - i,
    {
        match &entries[i].1 {
            Some(value) => {
                list.push((entries[i].0.clone(), value.clone()));
            },
            None => {
                return None;
            },
        }
        i += 1;
    }
    Some(list)
}

/// The value of the first entry named `key`.
pub fn entry_value(entries: &Vec<(String, String)>, key: &str) -> (value: Option<String>)
    ensures
        opt_view(value) == table_value(table_of(entries@), key@),
{
    let wanted = key.to_owned();
    let mut i: usize = 0;
    while i < entries.len()
        invariant
            0 <= i <= entries.len(),
            wanted@ == key@,
            entry_index(entries@, key@, 0) == entry_index(entries@, key@, i as int),
        decreases entries.len() - i,
    {
        if entries[i].0 == wanted {
            return Some(entries[i].1.clone());
        }
        i += 1;
    }
    None
}

/// Reads `text` as a flat table in `format` and looks `key` up in it.
pub fn flat_value(text: &str, format: FileFormat, key: &str) -> (value: Option<String>)
    ensures
        opt_view(value) == match flat_table(text@, format) {
            Some(table) => table_value(table, key@),
            None => None,
        },
{
    match parse_table(text, format) {
        Some(entries) => {
            let ghost table = parsed_table_of(entries@);
            match scalar_entries(&entries) {
                Some(flat) => {
                    proof {
                        assert forall|k: Seq<char>| table.contains_key(k) implies (#[trigger] table[k]) is Some by {
                            lemma_entry_index_found(entries@, k, 0);
                        }
                        lemma_entry_index_by_keys(entries@, flat@, key@, 0);
                        lemma_entry_index_found(entries@, key@, 0);
                    }
                    entry_value(&flat, key)
                },
                None => {
                    proof {
                        let i = choose|i: int| 0 <= i < entries@.len() && (#[trigger] entries@[i]).1 is None;
                        lemma_entry_index_distinct(entries@, i, 0);
                        assert(table.contains_key(entries@[i].0@));
                        assert(table[entries@[i].0@] is None);
                    }
                    None
                },
            }
        },
        None => None,
    }
}

} // verus!
