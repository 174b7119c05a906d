//! JSON documents as the lookup reads them, and the key search over them.

use crate::cli::JSONFileHandler;
use vstd::prelude::*;

verus! {

/// A parsed JSON value.
///
/// Numbers are kept as their JSON text. Arrays and objects carry, beside
/// their children, the compact JSON text of the whole value, so that a
/// matched value can be handed out as a string without serialising again.
/// Object members stand in the order in which the document's map yields them.
pub enum JsonValue {
    Null,
    Bool(bool),
    Number(String),
    String(String),
    Array { items: Vec<JsonValue>, text: String },
    Object { members: Vec<(String, JsonValue)>, text: String },
}

/// The mathematical value of a [`JsonValue`].
pub ghost enum JsonModel {
    Null,
    Bool(bool),
    Number(Seq<char>),
    String(Seq<char>),
    Array { items: Seq<JsonModel>, text: Seq<char> },
    Object { members: Seq<(Seq<char>, JsonModel)>, text: Seq<char> },
}

impl View for JsonValue {
    type V = JsonModel;

    open spec fn view(&self) -> JsonModel {
        model_of(*self)
    }
}

/// The model of a value: the same tree, with every string as its characters.
pub open spec fn model_of(v: JsonValue) -> JsonModel
    decreases v, 1int, 0int,
{
    match v {
        JsonValue::Null => JsonModel::Null,
        JsonValue::Bool(b) => JsonModel::Bool(b),
        JsonValue::Number(n) => JsonModel::Number(n@),
        JsonValue::String(s) => JsonModel::String(s@),
        JsonValue::Array { items, text } => JsonModel::Array {
            items: items_model(v, items.len() as int),
            text: text@,
        },
        JsonValue::Object { members, text } => JsonModel::Object {
            members: members_model(v, members.len() as int),
            text: text@,
        },
    }
}

/// The models of the first `n` elements of an array.
pub open spec fn items_model(v: JsonValue, n: int) -> Seq<JsonModel>
    decreases v, 0int, n,
{
    if v is Array && 0 < n <= v->items.len() {
        items_model(v, n - 1).push(model_of(v->items[n - 1]))
    } else {
        Seq::empty()
    }
}

/// The models of the first `n` members of an object.
pub open spec fn members_model(v: JsonValue, n: int) -> Seq<(Seq<char>, JsonModel)>
    decreases v, 0int, n,
{
    if v is Object && 0 < n <= v->members.len() {
        members_model(v, n - 1).push((v->members[n - 1].0@, model_of(v->members[n - 1].1)))
    } else {
        Seq::empty()
    }
}

/// The string that a value yields when a key matches it: a JSON string
/// gives its raw characters, every other value its JSON text.
pub open spec fn text_of(v: JsonModel) -> Seq<char> {
    match v {
        JsonModel::Null => "null"@,
        JsonModel::Bool(b) => if b { "true"@ } else { "false"@ },
        JsonModel::Number(n) => n,
        JsonModel::String(s) => s,
        JsonModel::Array { items, text } => text,
        JsonModel::Object { members, text } => text,
    }
}

/// Index of the first member named `key` at or after `from`, if any.
pub open spec fn direct_index(members: Seq<(Seq<char>, JsonModel)>, key: Seq<char>, from: int) -> Option<int>
    decreases members.len() - from,
{
    if 0 <= from < members.len() {
        if members[from].0 == key {
            Some(from)
        } else {
            direct_index(members, key, from + 1)
        }
    } else {
        None
    }
}

/// Depth-first, pre-order search for `key`: an object answers with a member
/// of that name before any of its children is searched; otherwise the
/// children are searched in order and the first hit wins.
pub open spec fn search(v: JsonModel, key: Seq<char>) -> Option<Seq<char>>
    decreases v, 1int, 0int,
{
    match v {
        JsonModel::Object { members, text } => match direct_index(members, key, 0) {
            Some(i) => Some(text_of(members[i].1)),
            None => search_members(v, key, 0),
        },
        JsonModel::Array { items, text } => search_items(v, key, 0),
        _ => None,
    }
}

/// First hit among the array's elements `from..`.
pub open spec fn search_items(v: JsonModel, key: Seq<char>, from: int) -> Option<Seq<char>>
    decreases v, 0int, (if v is Array { v->items.len() - from } else { 0 }),
{
    if v is Array && 0 <= from < v->items.len() {
        match search(v->items[from], key) {
            Some(s) => Some(s),
            None => search_items(v, key, from + 1),
        }
    } else {
        None
    }
}

/// First hit below the object's members `from..`.
pub open spec fn search_members(v: JsonModel, key: Seq<char>, from: int) -> Option<Seq<char>>
    decreases v, 0int, (if v is Object { v->members.len() - from } else { 0 }),
{
    if v is Object && 0 <= from < v->members.len() {
        match search(v->members[from].1, key) {
            Some(s) => Some(s),
            None => search_members(v, key, from + 1),
        }
    } else {
        None
    }
}

/// Where some member at or after `from` is named `key`, `direct_index` finds
/// the first such member.
pub proof fn lemma_direct_index_first(
    members: Seq<(Seq<char>, JsonModel)>,
    key: Seq<char>,
    from: int,
    at: int,
)
    requires
        0 <= from <= at < members.len(),
        members[at].0 == key,
    ensures
        direct_index(members, key, from) matches Some(i) && from <= i <= at && members[i].0 == key
            && forall|k: int| from <= k < i ==> members[k].0 != key,
    decreases at - from,
{
    if members[from].0 != key {
        lemma_direct_index_first(members, key, from + 1, at);
    }
}

/// A member of an object shadows every member of the same name that lies
/// deeper: where an object has a member named `key`, the search answers
/// with the first such member, whatever its children hold.
pub proof fn lemma_direct_member_shadows(v: JsonModel, key: Seq<char>, at: int)
    requires
        v is Object,
        0 <= at < v->members.len(),
        v->members[at].0 == key,
    ensures
        search(v, key) matches Some(found) && exists|i: int|
            0 <= i <= at && v->members[i].0 == key && found == text_of(#[trigger] v->members[i].1),
{
    lemma_direct_index_first(v->members, key, 0, at);
    let i = direct_index(v->members, key, 0).unwrap();
    assert(search(v, key) == Some(text_of(v->members[i].1)));
}

/// The characters of an optional string.
pub open spec fn opt_view(o: Option<String>) -> Option<Seq<char>> {
    match o {
        Some(s) => Some(s@),
        None => None,
    }
}

/// The model of `members`, entry by entry.
pub open spec fn members_match(members: Vec<(String, JsonValue)>, model: Seq<(Seq<char>, JsonModel)>) -> bool {
    &&& model.len() == members.len()
    &&& forall|k: int| 0 <= k < members.len() ==> #[trigger] model[k] == (members[k].0@, members[k].1@)
}

/// The model of `items`, entry by entry.
pub open spec fn items_match(items: Vec<JsonValue>, model: Seq<JsonModel>) -> bool {
    &&& model.len() == items.len()
    &&& forall|k: int| 0 <= k < items.len() ==> #[trigger] model[k] == items[k]@
}

/// `serde_json::Value`, opaque to the verifier.
#[verifier::external_type_specification]
#[verifier::external_body]
pub struct ExValue(serde_json::Value);

/// `serde_json::Error`, opaque to the verifier.
#[verifier::external_type_specification]
#[verifier::external_body]
pub struct ExError(serde_json::Error);

/// The document that `text` parses to, where it is JSON: the tree that
/// `serde_json::from_str` gives, every number, array and object in it with
/// the text that `serde_json` displays it as.
pub uninterp spec fn json_document(text: Seq<char>) -> Option<JsonModel>;

/// Rebuilds a `serde_json::Value` as a [`JsonValue`], variant by variant.
/// The text of a number, an array and an object is what `to_string` gives
/// for it.
///
/// Trusted: nothing is claimed of the result here.
#[verifier::external_body]
fn from_serde(value: &serde_json::Value) -> JsonValue {
    match value {
        serde_json::Value::Null => JsonValue::Null,
        serde_json::Value::Bool(b) => JsonValue::Bool(*b),
        serde_json::Value::Number(n) => JsonValue::Number(n.to_string()),
        serde_json::Value::String(s) => JsonValue::String(s.clone()),
        serde_json::Value::Array(a) => JsonValue::Array {
            items: a.iter().map(from_serde).collect(),
            text: value.to_string(),
        },
        serde_json::Value::Object(m) => JsonValue::Object {
            members: m.iter().map(|(k, v)| (k.clone(), from_serde(v))).collect(),
            text: value.to_string(),
        },
    }
}

/// Calls `serde_json::from_str` for a `serde_json::Value` and rebuilds the
/// value with [`from_serde`].
///
/// Trusted: the outcome is a function of the text alone, named
/// [`json_document`]; an error stands for a text that is no JSON document.
#[verifier::external_body]
fn parse_json(text: &str) -> (r: Result<JsonValue, serde_json::Error>)
    ensures
        r matches Ok(doc) ==> json_document(text@) == Some(doc@),
        r is Err ==> json_document(text@) is None,
{
    serde_json::from_str::<serde_json::Value>(text).map(|v| from_serde(&v))
}

impl JsonValue {
    /// Parses `text` as a JSON document.
    pub fn parse(text: &str) -> (doc: Option<JsonValue>)
        ensures
            match doc {
                Some(d) => json_document(text@) == Some(d@),
                None => json_document(text@) is None,
            },
    {
        match parse_json(text) {
            Ok(d) => Some(d),
            Err(_) => None,
        }
    }

    /// The model of an array or object lists the models of its children.
    pub proof fn lemma_view_children(&self)
        ensures
            self matches JsonValue::Object { members, text } ==> self@ is Object && self@->Object_text
                == text@ && members_match(*members, self@->members),
            self matches JsonValue::Array { items, text } ==> self@ is Array && self@->Array_text
                == text@ && items_match(*items, self@->items),
    {
        match self {
            JsonValue::Object { members, text } => {
                Self::lemma_members_model(*self, members.len() as int);
            },
            JsonValue::Array { items, text } => {
                Self::lemma_items_model(*self, items.len() as int);
            },
            _ => {},
        }
    }

    proof fn lemma_members_model(v: JsonValue, n: int)
        requires
            v is Object,
            0 <= n <= v->members.len(),
        ensures
            members_model(v, n).len() == n,
            forall|k: int| 0 <= k < n ==> #[trigger] members_model(v, n)[k] == (v->members[k].0@, v->members[k].1@),
        decreases n,
    {
        if n > 0 {
            Self::lemma_members_model(v, n - 1);
        }
    }

    proof fn lemma_items_model(v: JsonValue, n: int)
        requires
            v is Array,
            0 <= n <= v->items.len(),
        ensures
            items_model(v, n).len() == n,
            forall|k: int| 0 <= k < n ==> #[trigger] items_model(v, n)[k] == v->items[k]@,
        decreases n,
    {
        if n > 0 {
            Self::lemma_items_model(v, n - 1);
        }
    }

    /// The string handed out when a key matches this value.
    pub fn text(&self) -> (s: String)
        ensures
            s@ == text_of(self@),
    {
        match self {
            JsonValue::Null => "null".to_owned(),
            JsonValue::Bool(b) => if *b { "true".to_owned() } else { "false".to_owned() },
            JsonValue::Number(n) => n.clone(),
            JsonValue::String(s) => s.clone(),
            JsonValue::Array { items, text } => text.clone(),
            JsonValue::Object { members, text } => text.clone(),
        }
    }
}

impl<'a> JSONFileHandler<'a> {
    /// Searches `json_value` for `key`, depth first and pre-order: an object
    /// answers with its own member of that name before any of its children
    /// is searched, and the first hit among the children wins.
    pub fn find_key_recursive(json_value: &JsonValue, key: &str) -> (found: Option<String>)
        ensures
            opt_view(found) == search(json_value@, key@),
        decreases *json_value,
    {
        match json_value {
            JsonValue::Object { members, text } => {
                let wanted = key.to_owned();
                proof {
                    json_value.lemma_view_children();
                }
                let mut i: usize = 0;
                while i < members.len()
                    invariant
                        0 <= i <= members.len(),
                        wanted@ == key@,
                        *json_value matches JsonValue::Object { members: m, text: t } && m == *members,
                        json_value@ is Object,
                        members_match(*members, json_value@->members),
                        direct_index(json_value@->members, key@, 0) == direct_index(json_value@->members, key@, i as int),
                    decreases members.len() - i,
                {
                    if members[i].0 == wanted {
                        return Some(members[i].1.text());
                    }
                    i += 1;
                }
                let mut j: usize = 0;
                while j < members.len()
                    invariant
                        0 <= j <= members.len(),
                        *json_value matches JsonValue::Object { members: m, text: t } && m == *members,
                        json_value@ is Object,
                        members_match(*members, json_value@->members),
                        search(json_value@, key@) == search_members(json_value@, key@, j as int),
                    decreases members.len() - j,
                {
                    let hit = Self::find_key_recursive(&members[j].1, key);
                    if hit.is_some() {
                        return hit;
                    }
                    j += 1;
                }
                None
            },
            JsonValue::Array { items, text } => {
                proof {
                    json_value.lemma_view_children();
                }
                let mut j: usize = 0;
                while j < items.len()
                    invariant
                        0 <= j <= items.len(),
                        *json_value matches JsonValue::Array { items: m, text: t } && m == *items,
                        json_value@ is Array,
                        items_match(*items, json_value@->items),
                        search(json_value@, key@) == search_items(json_value@, key@, j as int),
                    decreases items.len() - j,
                {
                    let hit = Self::find_key_recursive(&items[j], key);
                    if hit.is_some() {
                        return hit;
                    }
                    j += 1;
                }
                None
            },
            _ => None,
        }
    }
}

} // verus!
