//! JSON values: a plain tree that the rest of the library reads and builds, and its passage to
//! and from the text that `serde_json` reads and writes.
use vstd::prelude::*;
use vstd::string::*;
use crate::name_map;
use crate::name_map::NameMap;
use crate::text;

verus! {

/// `serde_json::Value`, the tree that the JSON reader and writer work on.
#[verifier::external_type_specification]
#[verifier::external_body]
pub struct ExValue(serde_json::Value);

/// `serde_json::Number`, a JSON number. The library carries numbers through and never computes
/// with them.
#[verifier::external_type_specification]
#[verifier::external_body]
pub struct ExNumber(serde_json::Number);

/// `serde_json::Error`, the reason why a text was not read or a value not written.
#[verifier::external_type_specification]
#[verifier::external_body]
pub struct ExJsonError(serde_json::Error);

/// A JSON value. Where a name stands more than once among the fields of an object, the last one
/// counts.
pub enum Json {
    Null,
    Bool(bool),
    Number(serde_json::Number),
    Text(String),
    Array(Vec<Json>),
    Object(Vec<(String, Json)>),
}

/// What a JSON value says.
pub enum JsonTree {
    Null,
    Bool(bool),
    Number(serde_json::Number),
    Text(Seq<char>),
    Array(Seq<JsonTree>),
    Object(Map<Seq<char>, JsonTree>),
}

/// The object that has the given fields, where a later field takes the place of an earlier one of
/// the same name.
pub open spec fn fields_map(fields: Seq<(Seq<char>, JsonTree)>) -> Map<Seq<char>, JsonTree>
    decreases fields.len(),
{
    if fields.len() == 0 {
        Map::empty()
    } else {
        fields_map(fields.drop_last()).insert(fields.last().0, fields.last().1)
    }
}

impl Json {
    /// What this value says.
    pub open spec fn tree(self) -> JsonTree
        decreases self,
    {
        match self {
            Json::Null => JsonTree::Null,
            Json::Bool(b) => JsonTree::Bool(b),
            Json::Number(n) => JsonTree::Number(n),
            Json::Text(s) => JsonTree::Text(s@),
            Json::Array(items) => JsonTree::Array(trees(items@)),
            Json::Object(fields) => JsonTree::Object(fields_map(field_trees(fields@))),
        }
    }
}

impl JsonTree {
    /// The value of the field `name`, where this is an object that has one.
    pub open spec fn field(self, name: Seq<char>) -> Option<JsonTree> {
        match self {
            JsonTree::Object(m) => if m.contains_key(name) {
                Some(m[name])
            } else {
                None
            },
            _ => None,
        }
    }

    /// This object with the field `name` set to `value`. What is no object stays as it is.
    pub open spec fn with_field(self, name: Seq<char>, value: JsonTree) -> JsonTree {
        match self {
            JsonTree::Object(m) => JsonTree::Object(m.insert(name, value)),
            _ => self,
        }
    }

    /// The characters, where this is a text.
    pub open spec fn text(self) -> Option<Seq<char>> {
        match self {
            JsonTree::Text(s) => Some(s),
            _ => None,
        }
    }

    /// The items, where this is an array.
    pub open spec fn items(self) -> Option<Seq<JsonTree>> {
        match self {
            JsonTree::Array(items) => Some(items),
            _ => None,
        }
    }
}

/// What each of the values says.
pub open spec fn trees(items: Seq<Json>) -> Seq<JsonTree>
    decreases items,
{
    if items.len() == 0 {
        Seq::empty()
    } else {
        trees(items.drop_last()).push(items.last().tree())
    }
}

/// The name of each of the fields, with what its value says.
pub open spec fn field_trees(fields: Seq<(String, Json)>) -> Seq<(Seq<char>, JsonTree)>
    decreases fields,
{
    if fields.len() == 0 {
        Seq::empty()
    } else {
        field_trees(fields.drop_last()).push((fields.last().0@, fields.last().1.tree()))
    }
}

/// The values' trees stand in the values' order.
pub proof fn lemma_trees(items: Seq<Json>)
    ensures
        trees(items).len() == items.len(),
        forall|i: int| 0 <= i < items.len() ==> #[trigger] trees(items)[i] == items[i].tree(),
    decreases items.len(),
{
    if items.len() > 0 {
        lemma_trees(items.drop_last());
    }
}

/// The fields' trees stand in the fields' order.
pub proof fn lemma_field_trees(fields: Seq<(String, Json)>)
    ensures
        field_trees(fields).len() == fields.len(),
        forall|i: int|
            0 <= i < fields.len() ==> #[trigger] field_trees(fields)[i] == (
                fields[i].0@,
                fields[i].1.tree(),
            ),
    decreases fields.len(),
{
    if fields.len() > 0 {
        lemma_field_trees(fields.drop_last());
    }
}

impl DeepView for Json {
    type V = JsonTree;

    open spec fn deep_view(&self) -> JsonTree {
        self.tree()
    }
}

/// The two ways to speak of the trees of a list of values agree.
pub proof fn lemma_deep_trees(items: &Vec<Json>)
    ensures
        items.deep_view() == trees(items@),
{
    lemma_trees(items@);
    assert(items.deep_view() =~= trees(items@));
}

/// A list of values again.
pub fn duplicate_values(items: &Vec<Json>) -> (r: Vec<Json>)
    ensures
        r.deep_view() == items.deep_view(),
{
    let mut out: Vec<Json> = Vec::new();
    let mut i: usize = 0;
    while i < items.len()
        invariant
            i <= items@.len(),
            out@.len() == i,
            forall|j: int| 0 <= j < i ==> (#[trigger] out@[j]).tree() == items@[j].tree(),
        decreases items@.len() - i,
    {
        out.push(items[i].duplicate());
        i += 1;
    }
    assert(out.deep_view() =~= items.deep_view());
    out
}

/// What a `serde_json::Value` holds: its scalars, the items of its arrays, the fields of its
/// objects.
pub uninterp spec fn value_tree(v: serde_json::Value) -> JsonTree;

/// What `serde_json` reads from a text as a `Value`; `None` where it reports an error.
pub uninterp spec fn json_parsed(bytes: Seq<u8>) -> Option<JsonTree>;

/// Whether `serde_json` takes two values for equal.
pub uninterp spec fn json_equal(a: JsonTree, b: JsonTree) -> bool;

/// The JSON number that stands for an integer.
pub uninterp spec fn integer_number(n: int) -> serde_json::Number;

/// The text on several lines that `serde_json` writes for a value.
pub uninterp spec fn json_pretty(tree: JsonTree) -> Seq<char>;

/// The compact text that `serde_json` writes for a value.
pub uninterp spec fn json_text(tree: JsonTree) -> Seq<char>;

/// The outermost layer of a `serde_json::Value`.
enum ValueLayer<'a> {
    Null,
    Bool(bool),
    Number(&'a serde_json::Number),
    Text(&'a String),
    Array(&'a Vec<serde_json::Value>),
    Object(Vec<(&'a String, &'a serde_json::Value)>),
}

impl<'a> ValueLayer<'a> {
    /// The tree that this layer is the outermost layer of.
    spec fn tree(self) -> JsonTree {
        match self {
            ValueLayer::Null => JsonTree::Null,
            ValueLayer::Bool(b) => JsonTree::Bool(b),
            ValueLayer::Number(n) => JsonTree::Number(*n),
            ValueLayer::Text(s) => JsonTree::Text(s@),
            ValueLayer::Array(items) => JsonTree::Array(
                Seq::new(items@.len(), |i: int| value_tree(items@[i])),
            ),
            ValueLayer::Object(fields) => JsonTree::Object(
                fields_map(
                    Seq::new(fields@.len(), |i: int| (fields@[i].0@, value_tree(*fields@[i].1))),
                ),
            ),
        }
    }
}

/// The outermost layer of a `serde_json::Value` that is to be built.
enum OwnedLayer {
    Null,
    Bool(bool),
    Number(serde_json::Number),
    Text(String),
    Array(Vec<serde_json::Value>),
    Object(Vec<(String, serde_json::Value)>),
}

impl OwnedLayer {
    /// The tree that this layer is the outermost layer of.
    spec fn tree(self) -> JsonTree {
        match self {
            OwnedLayer::Null => JsonTree::Null,
            OwnedLayer::Bool(b) => JsonTree::Bool(b),
            OwnedLayer::Number(n) => JsonTree::Number(n),
            OwnedLayer::Text(s) => JsonTree::Text(s@),
            OwnedLayer::Array(items) => JsonTree::Array(
                Seq::new(items@.len(), |i: int| value_tree(items@[i])),
            ),
            OwnedLayer::Object(fields) => JsonTree::Object(
                fields_map(
                    Seq::new(fields@.len(), |i: int| (fields@[i].0@, value_tree(fields@[i].1))),
                ),
            ),
        }
    }
}

/// Tells the variants of a `serde_json::Value` apart. The fields of an object come from
/// `serde_json::Map::iter`, each once.
#[verifier::external_body]
fn value_layer(v: &serde_json::Value) -> (r: ValueLayer<'_>)
    ensures
        r.tree() == value_tree(*v),
        r matches ValueLayer::Object(fields) ==> forall|i: int, j: int|
            0 <= i < j < fields@.len() ==> fields@[i].0@ != fields@[j].0@,
{
    match v {
        serde_json::Value::Null => ValueLayer::Null,
        serde_json::Value::Bool(b) => ValueLayer::Bool(*b),
        serde_json::Value::Number(n) => ValueLayer::Number(n),
        serde_json::Value::String(s) => ValueLayer::Text(s),
        serde_json::Value::Array(items) => ValueLayer::Array(items),
        serde_json::Value::Object(fields) => ValueLayer::Object(fields.iter().collect()),
    }
}

/// The same number again (`serde_json::Number::clone`).
#[verifier::external_body]
fn copy_number(n: &serde_json::Number) -> (r: serde_json::Number)
    ensures
        r == *n,
{
    n.clone()
}

/// A `serde_json::Value` as a plain tree.
fn from_value(v: &serde_json::Value) -> (r: Json)
    ensures
        r.tree() == value_tree(*v),
    decreases value_tree(*v),
{
    match value_layer(v) {
        ValueLayer::Null => Json::Null,
        ValueLayer::Bool(b) => Json::Bool(b),
        ValueLayer::Number(n) => Json::Number(copy_number(n)),
        ValueLayer::Text(s) => Json::Text(s.clone()),
        ValueLayer::Array(items) => {
            let mut out: Vec<Json> = Vec::new();
            let mut i: usize = 0;
            while i < items.len()
                invariant
                    i <= items@.len(),
                    out@.len() == i,
                    value_tree(*v) == ValueLayer::Array(items).tree(),
                    forall|j: int| 0 <= j < i ==> (#[trigger] out@[j]).tree() == value_tree(items@[j]),
                decreases items@.len() - i,
            {
                assert(value_tree(*v)->Array_0[i as int] == value_tree(items@[i as int]));
                out.push(from_value(&items[i]));
                i += 1;
            }
            let r = Json::Array(out);
            proof {
                lemma_trees(out@);
            }
            assert(r.tree()->Array_0 =~= value_tree(*v)->Array_0);
            r
        },
        ValueLayer::Object(fields) => {
            let mut out: Vec<(String, Json)> = Vec::new();
            let mut i: usize = 0;
            let ghost entries = Seq::new(
                fields@.len(),
                |i: int| (fields@[i].0@, value_tree(*fields@[i].1)),
            );
            while i < fields.len()
                invariant
                    i <= fields@.len(),
                    out@.len() == i,
                    entries == Seq::new(
                        fields@.len(),
                        |i: int| (fields@[i].0@, value_tree(*fields@[i].1)),
                    ),
                    value_tree(*v) == JsonTree::Object(fields_map(entries)),
                    forall|a: int, b: int|
                        0 <= a < b < fields@.len() ==> fields@[a].0@ != fields@[b].0@,
                    forall|j: int|
                        0 <= j < i ==> (#[trigger] out@[j]).0@ == entries[j].0 && out@[j].1.tree()
                            == entries[j].1,
                decreases fields@.len() - i,
            {
                proof {
                    lemma_field_decreases(entries, i as int);
                }
                let child = from_value(fields[i].1);
                out.push((fields[i].0.clone(), child));
                i += 1;
            }
            let r = Json::Object(out);
            proof {
                lemma_field_trees(out@);
            }
            assert(field_trees(out@) =~= entries);
            r
        },
    }
}

/// The last field of a name is the one that the object has under that name.
pub proof fn lemma_fields_map_last(entries: Seq<(Seq<char>, JsonTree)>, i: int)
    requires
        0 <= i < entries.len(),
        forall|j: int| i < j < entries.len() ==> entries[j].0 != entries[i].0,
    ensures
        fields_map(entries).contains_key(entries[i].0),
        fields_map(entries)[entries[i].0] == entries[i].1,
    decreases entries.len(),
{
    if i < entries.len() - 1 {
        lemma_fields_map_last(entries.drop_last(), i);
    }
}

/// An object has no field under a name that none of its fields has.
pub proof fn lemma_fields_map_absent(entries: Seq<(Seq<char>, JsonTree)>, k: Seq<char>)
    requires
        forall|j: int| 0 <= j < entries.len() ==> entries[j].0 != k,
    ensures
        !fields_map(entries).contains_key(k),
    decreases entries.len(),
{
    if entries.len() > 0 {
        lemma_fields_map_absent(entries.drop_last(), k);
    }
}

/// An object has finitely many fields.
proof fn lemma_fields_map_finite(entries: Seq<(Seq<char>, JsonTree)>)
    ensures
        fields_map(entries).dom().finite(),
    decreases entries.len(),
{
    if entries.len() > 0 {
        lemma_fields_map_finite(entries.drop_last());
    }
}

/// The value of a field is smaller than the object.
proof fn lemma_field_decreases(entries: Seq<(Seq<char>, JsonTree)>, i: int)
    requires
        0 <= i < entries.len(),
        forall|j: int| i < j < entries.len() ==> entries[j].0 != entries[i].0,
    ensures
        decreases_to!(JsonTree::Object(fields_map(entries)) => entries[i].1),
{
    lemma_fields_map_last(entries, i);
    lemma_fields_map_finite(entries);
    let m = fields_map(entries);
    assert(decreases_to!(m => m[entries[i].0]));
    let object = JsonTree::Object(m);
    assert(decreases_to!(object => object->Object_0));
}

/// The name of the field `i` is not that of a later one.
spec fn comes_last(entries: Seq<(Seq<char>, JsonTree)>, i: int) -> bool {
    &&& 0 <= i < entries.len()
    &&& forall|j: int| i < j < entries.len() ==> (#[trigger] entries[j]).0 != entries[i].0
}

/// `entry` is one of the first `n` fields, and its name is not that of a later one.
spec fn is_last_field(
    entries: Seq<(Seq<char>, JsonTree)>,
    n: int,
    entry: (Seq<char>, JsonTree),
) -> bool {
    exists|i: int| #[trigger] comes_last(entries, i) && i < n && entries[i] == entry
}

/// What an object has under a name is the last field of that name.
proof fn lemma_fields_map_origin(entries: Seq<(Seq<char>, JsonTree)>, name: Seq<char>)
    requires
        fields_map(entries).contains_key(name),
    ensures
        exists|i: int| #[trigger] comes_last(entries, i) && entries[i].0 == name,
    decreases entries.len(),
{
    let last = entries.len() - 1;
    if entries[last].0 == name {
        assert(comes_last(entries, last));
    } else {
        let before = entries.drop_last();
        lemma_fields_map_origin(before, name);
        let i = choose|i: int| #[trigger] comes_last(before, i) && before[i].0 == name;
        assert forall|j: int| i < j < entries.len() implies (#[trigger] entries[j]).0
            != entries[i].0 by {
            if j < last {
                assert(before[j].0 != before[i].0);
            }
        }
        assert(comes_last(entries, i) && entries[i].0 == name);
    }
}

/// An object is made by the last field of each name alone.
proof fn lemma_last_fields(
    entries: Seq<(Seq<char>, JsonTree)>,
    kept: Seq<(Seq<char>, JsonTree)>,
)
    requires
        forall|i: int, j: int|
            0 <= i < j < kept.len() ==> (#[trigger] kept[i]).0 != (#[trigger] kept[j]).0,
        forall|p: int|
            0 <= p < kept.len() ==> is_last_field(
                entries,
                entries.len() as int,
                #[trigger] kept[p],
            ),
        forall|i: int| #[trigger] comes_last(entries, i) ==> kept.contains(entries[i]),
    ensures
        fields_map(kept) == fields_map(entries),
{
    let m = fields_map(entries);
    let k = fields_map(kept);
    assert forall|name: Seq<char>| #[trigger] m.contains_key(name) implies k.contains_key(name)
        && k[name] == m[name] by {
        lemma_fields_map_origin(entries, name);
        let i = choose|i: int| #[trigger] comes_last(entries, i) && entries[i].0 == name;
        lemma_fields_map_last(entries, i);
        let p = choose|p: int| 0 <= p < kept.len() && kept[p] == entries[i];
        lemma_fields_map_last(kept, p);
    }
    assert forall|name: Seq<char>| k.contains_key(name) == m.contains_key(name) by {
        if k.contains_key(name) {
            lemma_fields_map_origin(kept, name);
            let p = choose|p: int| #[trigger] comes_last(kept, p) && kept[p].0 == name;
            assert(is_last_field(entries, entries.len() as int, kept[p]));
            let i = choose|i: int| #[trigger] comes_last(entries, i) && entries[i] == kept[p];
            lemma_fields_map_last(entries, i);
        }
    }
    assert(k =~= m);
}

/// Whether the name of the field `i` is that of a later one.
fn comes_again(fields: &Vec<(String, Json)>, i: usize) -> (r: bool)
    requires
        i < fields@.len(),
    ensures
        r == !comes_last(field_trees(fields@), i as int),
{
    proof {
        lemma_field_trees(fields@);
    }
    let ghost entries = field_trees(fields@);
    let mut j: usize = fields.len();
    while j > i + 1
        invariant
            i < j <= fields@.len(),
            entries == field_trees(fields@),
            entries.len() == fields@.len(),
            forall|k: int| 0 <= k < fields@.len() ==> (#[trigger] entries[k]).0 == fields@[k].0@,
            forall|k: int| j <= k < fields@.len() ==> (#[trigger] entries[k]).0
                != entries[i as int].0,
        decreases j,
    {
        j -= 1;
        if text::same_text(fields[j].0.as_str(), fields[i].0.as_str()) {
            assert(entries[j as int].0 == entries[i as int].0);
            return true;
        }
    }
    false
}

/// Writes a layer as a `serde_json::Value`. The fields of an object, each of another name, go
/// through `serde_json::Map::from_iter`.
#[verifier::external_body]
fn layer_value(layer: OwnedLayer) -> (r: serde_json::Value)
    requires
        layer matches OwnedLayer::Object(fields) ==> forall|i: int, j: int|
            0 <= i < j < fields@.len() ==> fields@[i].0@ != fields@[j].0@,
    ensures
        value_tree(r) == layer.tree(),
{
    match layer {
        OwnedLayer::Null => serde_json::Value::Null,
        OwnedLayer::Bool(b) => serde_json::Value::Bool(b),
        OwnedLayer::Number(n) => serde_json::Value::Number(n),
        OwnedLayer::Text(s) => serde_json::Value::String(s),
        OwnedLayer::Array(items) => serde_json::Value::Array(items),
        OwnedLayer::Object(fields) => serde_json::Value::Object(fields.into_iter().collect()),
    }
}

/// The object that has the texts `texts` for fields.
pub open spec fn text_object(texts: Map<Seq<char>, Seq<char>>) -> JsonTree {
    JsonTree::Object(texts.map_values(|t: Seq<char>| JsonTree::Text(t)))
}

/// What `serde_json` reads from a text as a map of texts; `None` where it reports an error.
pub uninterp spec fn texts_parsed(bytes: Seq<u8>) -> Option<Map<Seq<char>, Seq<char>>>;

/// Where `bytes` are what `serde_json` writes for an object of texts, `r` holds those texts.
pub open spec fn texts_read_back(bytes: Seq<u8>, r: Option<Vec<(String, String)>>) -> bool {
    forall|texts: Map<Seq<char>, Seq<char>>|
        texts.dom().finite() && bytes == vstd::utf8::encode_utf8(
            json_text(#[trigger] text_object(texts)),
        ) ==> (r matches Some(entries) && name_map::entries_map(entries.deep_view()) == texts)
}

/// Reads a text as a map of texts (`serde_json::from_slice` into a map from `String` to `String`).
/// Each name stands once in what is read. An object of texts that `serde_json` wrote is read back
/// as it was.
#[verifier::external_body]
fn read_texts(bytes: &[u8]) -> (r: Option<Vec<(String, String)>>)
    ensures
        match r {
            Some(entries) => name_map::distinct_names(entries.deep_view()) && texts_parsed(bytes@)
                == Some(name_map::entries_map(entries.deep_view())),
            None => texts_parsed(bytes@) is None,
        },
        texts_read_back(bytes@, r),
{
    let texts = serde_json::from_slice::<std::collections::BTreeMap<String, String>>(bytes);
    texts.ok().map(|t| t.into_iter().collect())
}

/// Reads a text as one JSON value (`serde_json::from_slice`). Nothing is said of reading back what
/// was written: a floating-point number may come back changed, a value nested too deeply is not
/// read, and an object whose first name is one that `serde_json` keeps for itself is read as
/// something else.
#[verifier::external_body]
fn read_value(bytes: &[u8]) -> (r: Result<serde_json::Value, serde_json::Error>)
    ensures
        match r {
            Ok(v) => json_parsed(bytes@) == Some(value_tree(v)),
            Err(_) => json_parsed(bytes@) is None,
        },
{
    serde_json::from_slice(bytes)
}

/// Writes a value as compact text (`serde_json::to_string`). It reports an error only for a type
/// whose `Serialize` does, or for a map whose keys are not strings; that of `Value` does not, and
/// the keys of its maps are strings. The text holds no line feed: none stands between the pieces,
/// and in strings it is written as an escape.
#[verifier::external_body]
fn write_value(v: &serde_json::Value) -> (r: Result<String, serde_json::Error>)
    ensures
        r is Ok,
        r->Ok_0@ == json_text(value_tree(*v)),
        !r->Ok_0@.contains('\n'),
{
    serde_json::to_string(v)
}

/// Writes a value as text on several lines (`serde_json::to_string_pretty`). It reports no error
/// for a `Value`, for the same reasons as `serde_json::to_string`.
#[verifier::external_body]
fn write_value_pretty(v: &serde_json::Value) -> (r: Result<String, serde_json::Error>)
    ensures
        r is Ok,
        r->Ok_0@ == json_pretty(value_tree(*v)),
{
    serde_json::to_string_pretty(v)
}

/// Compares two values (`serde_json::Value::eq`). A value equals itself.
#[verifier::external_body]
fn values_equal(a: &serde_json::Value, b: &serde_json::Value) -> (r: bool)
    ensures
        r == json_equal(value_tree(*a), value_tree(*b)),
        value_tree(*a) == value_tree(*b) ==> r,
{
    a == b
}

/// The JSON number for an integer (`serde_json::Number::from`).
#[verifier::external_body]
fn number_from(n: i64) -> (r: serde_json::Number)
    ensures
        r == integer_number(n as int),
{
    serde_json::Number::from(n)
}

/// A plain tree as a `serde_json::Value`.
fn to_value(j: &Json) -> (r: serde_json::Value)
    ensures
        value_tree(r) == j.tree(),
    decreases j,
{
    match j {
        Json::Null => layer_value(OwnedLayer::Null),
        Json::Bool(b) => layer_value(OwnedLayer::Bool(*b)),
        Json::Number(n) => layer_value(OwnedLayer::Number(copy_number(n))),
        Json::Text(s) => layer_value(OwnedLayer::Text(s.clone())),
        Json::Array(items) => {
            let mut out: Vec<serde_json::Value> = Vec::new();
            let mut i: usize = 0;
            while i < items.len()
                invariant
                    i <= items@.len(),
                    *j == Json::Array(*items),
                    out@.len() == i,
                    forall|k: int| 0 <= k < i ==> value_tree(#[trigger] out@[k]) == items@[k].tree(),
                decreases items@.len() - i,
            {
                proof {
                    let whole = j->Array_0;
                    assert(decreases_to!(*j => j->Array_0));
                    assert(decreases_to!(whole => whole@));
                    assert(decreases_to!(whole@ => whole@[i as int]));
                }
                out.push(to_value(&items[i]));
                i += 1;
            }
            let layer = OwnedLayer::Array(out);
            proof {
                lemma_trees(items@);
            }
            assert(layer.tree()->Array_0 =~= trees(items@));
            layer_value(layer)
        },
        Json::Object(fields) => {
            let mut out: Vec<(String, serde_json::Value)> = Vec::new();
            let mut i: usize = 0;
            let ghost entries = field_trees(fields@);
            let ghost mut kept: Seq<(Seq<char>, JsonTree)> = Seq::empty();
            proof {
                lemma_field_trees(fields@);
            }
            while i < fields.len()
                invariant
                    i <= fields@.len(),
                    *j == Json::Object(*fields),
                    entries == field_trees(fields@),
                    entries.len() == fields@.len(),
                    forall|k: int|
                        0 <= k < fields@.len() ==> #[trigger] entries[k] == (
                            fields@[k].0@,
                            fields@[k].1.tree(),
                        ),
                    kept.len() == out@.len(),
                    forall|p: int|
                        0 <= p < kept.len() ==> #[trigger] kept[p] == (
                            out@[p].0@,
                            value_tree(out@[p].1),
                        ),
                    forall|p: int|
                        0 <= p < kept.len() ==> is_last_field(
                            entries,
                            i as int,
                            #[trigger] kept[p],
                        ),
                    forall|k: int| #[trigger]
                        comes_last(entries, k) && k < i ==> kept.contains(entries[k]),
                    forall|p: int, q: int|
                        0 <= p < q < kept.len() ==> (#[trigger] kept[p]).0 != (
                        #[trigger] kept[q]).0,
                decreases fields@.len() - i,
            {
                if comes_again(fields, i) {
                    i += 1;
                    continue;
                }
                proof {
                    let whole = j->Object_0;
                    let pair = whole@[i as int];
                    assert(decreases_to!(*j => j->Object_0));
                    assert(decreases_to!(whole => whole@));
                    assert(decreases_to!(whole@ => whole@[i as int]));
                    assert(decreases_to!(pair => pair.1));
                }
                let child = to_value(&fields[i].1);
                out.push((fields[i].0.clone(), child));
                proof {
                    let before = kept;
                    kept = before.push(entries[i as int]);
                    assert(kept[before.len() as int] == entries[i as int]);
                    assert forall|p: int, q: int| 0 <= p < q < kept.len() implies (
                    #[trigger] kept[p]).0 != (#[trigger] kept[q]).0 by {
                        assert(kept[p] == before[p]);
                        if q < before.len() {
                            assert(kept[q] == before[q]);
                        } else {
                            assert(is_last_field(entries, i as int, before[p]));
                            let k = choose|k: int| #[trigger]
                                comes_last(entries, k) && k < i && entries[k] == before[p];
                            assert(entries[i as int].0 != entries[k].0);
                        }
                    }
                    assert forall|p: int| 0 <= p < kept.len() implies is_last_field(
                        entries,
                        i + 1,
                        #[trigger] kept[p],
                    ) by {
                        if p < before.len() {
                            assert(kept[p] == before[p]);
                            assert(is_last_field(entries, i as int, before[p]));
                            let k = choose|k: int| #[trigger]
                                comes_last(entries, k) && k < i && entries[k] == before[p];
                            assert(comes_last(entries, k) && k < i + 1 && entries[k] == kept[p]);
                        } else {
                            assert(comes_last(entries, i as int) && entries[i as int] == kept[p]);
                        }
                    }
                    assert forall|k: int| #[trigger] comes_last(entries, k) && k < i
                        + 1 implies kept.contains(entries[k]) by {
                        if k < i {
                            let p = choose|p: int| 0 <= p < before.len() && before[p] == entries[k];
                            assert(kept[p] == entries[k]);
                        }
                    }
                }
                i += 1;
            }
            let layer = OwnedLayer::Object(out);
            proof {
                lemma_last_fields(entries, kept);
                assert(Seq::new(out@.len(), |p: int| (out@[p].0@, value_tree(out@[p].1))) =~= kept);
                assert forall|p: int, q: int| 0 <= p < q < out@.len() implies out@[p].0@
                    != out@[q].0@ by {
                    assert(kept[p].0 != kept[q].0);
                }
            }
            layer_value(layer)
        },
    }
}

/// Reads a text as one JSON value; `None` where the text is not JSON.
pub fn parse_json(bytes: &[u8]) -> (r: Option<Json>)
    ensures
        match r {
            Some(j) => json_parsed(bytes@) == Some(j.tree()),
            None => json_parsed(bytes@) is None,
        },
{
    match read_value(bytes) {
        Ok(v) => Some(from_value(&v)),
        Err(_) => None,
    }
}

impl Json {
    /// The compact text of this value.
    pub fn to_text(&self) -> (r: String)
        ensures
            r@ == json_text(self.tree()),
            !r@.contains('\n'),
    {
        write_value(&to_value(self)).unwrap()
    }

    /// The text of this value on several lines.
    pub fn to_pretty_text(&self) -> (r: String)
        ensures
            r@ == json_pretty(self.tree()),
    {
        write_value_pretty(&to_value(self)).unwrap()
    }

    /// Whether this value and another are equal.
    pub fn equals(&self, other: &Json) -> (r: bool)
        ensures
            r == json_equal(self.tree(), other.tree()),
            self.tree() == other.tree() ==> r,
    {
        values_equal(&to_value(self), &to_value(other))
    }

    /// The number for an integer.
    pub fn integer(n: i64) -> (r: Json)
        ensures
            r.tree() == JsonTree::Number(integer_number(n as int)),
    {
        Json::Number(number_from(n))
    }

    /// A text.
    pub fn text(s: &str) -> (r: Json)
        ensures
            r.tree() == JsonTree::Text(s@),
    {
        Json::Text(s.to_owned())
    }

    /// An object with the given fields.
    pub fn object(fields: Vec<(String, Json)>) -> (r: Json)
        ensures
            r.tree() == JsonTree::Object(fields_map(field_trees(fields@))),
    {
        Json::Object(fields)
    }

    /// This object with the field `name` set to `value`. What is no object stays as it is.
    pub fn with_field(&self, name: &str, value: Json) -> (r: Json)
        ensures
            r.tree() == self.tree().with_field(name@, value.tree()),
    {
        match self {
            Json::Object(fields) => {
                let mut out: Vec<(String, Json)> = Vec::new();
                let mut i: usize = 0;
                while i < fields.len()
                    invariant
                        i <= fields@.len(),
                        out@.len() == i,
                        forall|j: int|
                            0 <= j < i ==> (#[trigger] out@[j]).0@ == fields@[j].0@
                                && out@[j].1.tree() == fields@[j].1.tree(),
                    decreases fields@.len() - i,
                {
                    out.push((fields[i].0.clone(), fields[i].1.duplicate()));
                    i += 1;
                }
                proof {
                    lemma_field_trees(out@);
                    lemma_field_trees(fields@);
                    assert(field_trees(out@) =~= field_trees(fields@));
                }
                let ghost before = out@;
                out.push((name.to_owned(), value));
                proof {
                    lemma_field_trees(out@);
                    assert(out@.drop_last() =~= before);
                    let entries = field_trees(out@);
                    assert(entries.drop_last() =~= field_trees(before));
                }
                Json::Object(out)
            },
            _ => self.duplicate(),
        }
    }

    /// The same value again.
    pub fn duplicate(&self) -> (r: Json)
        ensures
            r.tree() == self.tree(),
        decreases self,
    {
        match self {
            Json::Null => Json::Null,
            Json::Bool(b) => Json::Bool(*b),
            Json::Number(n) => Json::Number(copy_number(n)),
            Json::Text(s) => Json::Text(s.clone()),
            Json::Array(items) => {
                let mut out: Vec<Json> = Vec::new();
                let mut i: usize = 0;
                while i < items.len()
                    invariant
                        i <= items@.len(),
                        *self == Json::Array(*items),
                        out@.len() == i,
                        forall|k: int| 0 <= k < i ==> (#[trigger] out@[k]).tree() == items@[k].tree(),
                    decreases items@.len() - i,
                {
                    proof {
                        let whole = self->Array_0;
                        assert(decreases_to!(*self => self->Array_0));
                        assert(decreases_to!(whole => whole@));
                        assert(decreases_to!(whole@ => whole@[i as int]));
                    }
                    out.push(items[i].duplicate());
                    i += 1;
                }
                proof {
                    lemma_trees(items@);
                    lemma_trees(out@);
                    assert(trees(out@) =~= trees(items@));
                }
                Json::Array(out)
            },
            Json::Object(fields) => {
                let mut out: Vec<(String, Json)> = Vec::new();
                let mut i: usize = 0;
                while i < fields.len()
                    invariant
                        i <= fields@.len(),
                        *self == Json::Object(*fields),
                        out@.len() == i,
                        forall|k: int|
                            0 <= k < i ==> (#[trigger] out@[k]).0@ == fields@[k].0@
                                && out@[k].1.tree() == fields@[k].1.tree(),
                    decreases fields@.len() - i,
                {
                    proof {
                        let whole = self->Object_0;
                        let pair = whole@[i as int];
                        assert(decreases_to!(*self => self->Object_0));
                        assert(decreases_to!(whole => whole@));
                        assert(decreases_to!(whole@ => whole@[i as int]));
                        assert(decreases_to!(pair => pair.1));
                    }
                    let child = fields[i].1.duplicate();
                    out.push((fields[i].0.clone(), child));
                    i += 1;
                }
                proof {
                    lemma_field_trees(fields@);
                    lemma_field_trees(out@);
                    assert(field_trees(out@) =~= field_trees(fields@));
                }
                Json::Object(out)
            },
        }
    }

    /// The value of the field `name`, where this is an object that has one.
    pub fn get(&self, name: &str) -> (r: Option<&Json>)
        ensures
            match r {
                Some(child) => self.tree().field(name@) == Some(child.tree()),
                None => self.tree().field(name@) is None,
            },
    {
        match self {
            Json::Object(fields) => {
                let mut n: usize = fields.len();
                proof {
                    lemma_field_trees(fields@);
                }
                while n > 0
                    invariant
                        n <= fields@.len(),
                        *self == Json::Object(*fields),
                        field_trees(fields@).len() == fields@.len(),
                        forall|i: int|
                            0 <= i < fields@.len() ==> #[trigger] field_trees(fields@)[i] == (
                                fields@[i].0@,
                                fields@[i].1.tree(),
                            ),
                        forall|j: int|
                            n <= j < fields@.len() ==> (#[trigger] field_trees(fields@)[j]).0
                                != name@,
                    decreases n,
                {
                    n -= 1;
                    if text::same_text(fields[n].0.as_str(), name) {
                        proof {
                            assert(field_trees(fields@)[n as int].0 == name@);
                            lemma_fields_map_last(field_trees(fields@), n as int);
                        }
                        return Some(&fields[n].1);
                    }
                }
                proof {
                    lemma_fields_map_absent(field_trees(fields@), name@);
                }
                None
            },
            _ => None,
        }
    }

    /// The characters, where this is a text.
    pub fn as_str(&self) -> (r: Option<&str>)
        ensures
            match r {
                Some(s) => self.tree().text() == Some(s@),
                None => self.tree().text() is None,
            },
    {
        match self {
            Json::Text(s) => Some(s.as_str()),
            _ => None,
        }
    }

    /// The items, where this is an array.
    pub fn as_array(&self) -> (r: Option<&Vec<Json>>)
        ensures
            match r {
                Some(items) => self.tree().items() == Some(trees(items@)),
                None => self.tree().items() is None,
            },
    {
        match self {
            Json::Array(items) => Some(items),
            _ => None,
        }
    }
}

/// Reads a text as an object that has texts for fields; `None` where it is not one. What
/// `serde_json` wrote for such an object is read back as it was.
pub fn parse_texts(bytes: &[u8]) -> (r: Option<NameMap<String>>)
    ensures
        match r {
            Some(texts) => texts_parsed(bytes@) == Some(texts@),
            None => texts_parsed(bytes@) is None,
        },
        forall|texts: Map<Seq<char>, Seq<char>>|
            texts.dom().finite() && bytes@ == vstd::utf8::encode_utf8(
                json_text(#[trigger] text_object(texts)),
            ) ==> (r matches Some(found) && found@ == texts),
{
    match read_texts(bytes) {
        Some(fields) => {
            let ghost entries = fields.deep_view();
            let mut texts: NameMap<String> = NameMap::new();
            let mut i: usize = 0;
            assert(entries.take(0) =~= Seq::empty());
            while i < fields.len()
                invariant
                    i <= fields@.len(),
                    entries == fields.deep_view(),
                    texts@ == name_map::entries_map(entries.take(i as int)),
                decreases fields@.len() - i,
            {
                texts.insert(fields[i].0.clone(), fields[i].1.clone());
                proof {
                    assert(entries.take(i + 1).drop_last() =~= entries.take(i as int));
                    assert(entries.take(i + 1).last() == (
                        fields@[i as int].0@,
                        fields@[i as int].1@,
                    ));
                }
                i += 1;
            }
            assert(entries.take(i as int) =~= entries);
            Some(texts)
        },
        None => None,
    }
}

/// The object of the entries of a map of texts.
proof fn lemma_text_entries(entries: Seq<(Seq<char>, Seq<char>)>)
    ensures
        JsonTree::Object(
            fields_map(entries.map_values(|e: (Seq<char>, Seq<char>)| (e.0, JsonTree::Text(e.1)))),
        ) == text_object(name_map::entries_map(entries)),
    decreases entries.len(),
{
    let fields = entries.map_values(|e: (Seq<char>, Seq<char>)| (e.0, JsonTree::Text(e.1)));
    let texts = name_map::entries_map(entries);
    if entries.len() == 0 {
        assert(fields_map(fields) =~= text_object(texts)->Object_0);
    } else {
        let before = entries.drop_last();
        lemma_text_entries(before);
        assert(fields.drop_last() =~= before.map_values(
            |e: (Seq<char>, Seq<char>)| (e.0, JsonTree::Text(e.1)),
        ));
        assert(fields_map(fields) =~= text_object(texts)->Object_0);
    }
}

impl Json {
    /// The object that has the given texts for fields.
    pub fn from_texts(texts: &NameMap<String>) -> (r: Json)
        ensures
            r.tree() == text_object(texts@),
    {
        let mut fields: Vec<(String, Json)> = Vec::new();
        let mut i: usize = 0;
        let n: usize = texts.len();
        let ghost entries = texts.entries();
        while i < n
            invariant
                i <= n,
                n == entries.len(),
                entries == texts.entries(),
                fields@.len() == i,
                forall|j: int|
                    0 <= j < i ==> (#[trigger] fields@[j]).0@ == entries[j].0 && fields@[j].1
                        == Json::Text(fields@[j].1->Text_0) && fields@[j].1->Text_0@
                        == entries[j].1,
            decreases n - i,
        {
            let entry = texts.entry(i);
            fields.push((entry.0.clone(), Json::Text(entry.1.clone())));
            i += 1;
        }
        proof {
            lemma_field_trees(fields@);
            lemma_text_entries(entries);
            assert(field_trees(fields@) =~= entries.map_values(
                |e: (Seq<char>, Seq<char>)| (e.0, JsonTree::Text(e.1)),
            ));
        }
        Json::Object(fields)
    }
}

/// The object that has the lists `lists` for fields.
pub open spec fn list_object(lists: Map<Seq<char>, Seq<JsonTree>>) -> JsonTree {
    JsonTree::Object(lists.map_values(|items: Seq<JsonTree>| JsonTree::Array(items)))
}

/// The object of the entries of a map of lists.
proof fn lemma_list_entries(entries: Seq<(Seq<char>, Seq<JsonTree>)>)
    ensures
        JsonTree::Object(
            fields_map(
                entries.map_values(|e: (Seq<char>, Seq<JsonTree>)| (e.0, JsonTree::Array(e.1))),
            ),
        ) == list_object(name_map::entries_map(entries)),
    decreases entries.len(),
{
    let fields = entries.map_values(|e: (Seq<char>, Seq<JsonTree>)| (e.0, JsonTree::Array(e.1)));
    let lists = name_map::entries_map(entries);
    if entries.len() == 0 {
        assert(fields_map(fields) =~= list_object(lists)->Object_0);
    } else {
        let before = entries.drop_last();
        lemma_list_entries(before);
        assert(fields.drop_last() =~= before.map_values(
            |e: (Seq<char>, Seq<JsonTree>)| (e.0, JsonTree::Array(e.1)),
        ));
        assert(fields_map(fields) =~= list_object(lists)->Object_0);
    }
}

impl Json {
    /// The object that has the given lists for fields.
    pub fn from_lists(lists: &NameMap<Vec<Json>>) -> (r: Json)
        ensures
            r.tree() == list_object(lists@),
    {
        let mut fields: Vec<(String, Json)> = Vec::new();
        let mut i: usize = 0;
        let n: usize = lists.len();
        let ghost entries = lists.entries();
        while i < n
            invariant
                i <= n,
                n == entries.len(),
                entries == lists.entries(),
                fields@.len() == i,
                forall|j: int|
                    0 <= j < i ==> (#[trigger] fields@[j]).0@ == entries[j].0
                        && fields@[j].1.tree() == JsonTree::Array(entries[j].1),
            decreases n - i,
        {
            let entry = lists.entry(i);
            let items = duplicate_values(entry.1);
            proof {
                lemma_deep_trees(&items);
            }
            fields.push((entry.0.clone(), Json::Array(items)));
            i += 1;
        }
        proof {
            lemma_field_trees(fields@);
            lemma_list_entries(entries);
            assert(field_trees(fields@) =~= entries.map_values(
                |e: (Seq<char>, Seq<JsonTree>)| (e.0, JsonTree::Array(e.1)),
            ));
        }
        Json::Object(fields)
    }
}

/// What a plain value says: a scalar says itself, a list says what its items say, in order, and an
/// object has under each name what the last field of that name says.
pub proof fn law_tree(
    b: bool,
    n: serde_json::Number,
    s: String,
    items: Vec<Json>,
    fields: Vec<(String, Json)>,
    i: int,
)
    ensures
        Json::Null.tree() == JsonTree::Null,
        Json::Bool(b).tree() == JsonTree::Bool(b),
        Json::Number(n).tree() == JsonTree::Number(n),
        Json::Text(s).tree() == JsonTree::Text(s@),
        Json::Array(items).tree() matches JsonTree::Array(said) && said.len() == items@.len() && (
        0 <= i < items@.len() ==> said[i] == items@[i].tree()),
        Json::Object(fields).tree() is Object,
        0 <= i < fields@.len() && (forall|j: int|
            i < j < fields@.len() ==> (#[trigger] fields@[j]).0@ != fields@[i].0@) ==> Json::Object(
            fields,
        ).tree().field(fields@[i].0@) == Some(fields@[i].1.tree()),
{
    lemma_trees(items@);
    lemma_field_trees(fields@);
    if 0 <= i < fields@.len() && (forall|j: int|
        i < j < fields@.len() ==> (#[trigger] fields@[j]).0@ != fields@[i].0@) {
        let entries = field_trees(fields@);
        assert forall|j: int| i < j < entries.len() implies entries[j].0 != entries[i].0 by {
            assert(entries[j].0 == fields@[j].0@);
        }
        lemma_fields_map_last(entries, i);
    }
}

/// An object has no field under a name that none of its fields has.
pub proof fn law_tree_absent(fields: Vec<(String, Json)>, name: Seq<char>)
    requires
        forall|j: int| 0 <= j < fields@.len() ==> (#[trigger] fields@[j]).0@ != name,
    ensures
        Json::Object(fields).tree().field(name) is None,
{
    lemma_field_trees(fields@);
    let entries = field_trees(fields@);
    assert forall|j: int| 0 <= j < entries.len() implies entries[j].0 != name by {
        assert(entries[j].0 == fields@[j].0@);
    }
    lemma_fields_map_absent(entries, name);
}

/// What is read of a value: an object's fields by name, a text's characters, an array's items, and
/// nothing of a value of another kind.
pub proof fn law_access(value: JsonTree, name: Seq<char>)
    ensures
        value is Object ==> (value.field(name) is Some <==> value->Object_0.contains_key(name)),
        value.field(name) is Some ==> value.field(name)->0 == value->Object_0[name],
        !(value is Object) ==> value.field(name) is None,
        value matches JsonTree::Text(s) ==> value.text() == Some(s),
        !(value is Text) ==> value.text() is None,
        value matches JsonTree::Array(items) ==> value.items() == Some(items),
        !(value is Array) ==> value.items() is None,
{
}

/// A field that was set is read back, and the other fields stay as they were.
pub proof fn law_set_field(value: JsonTree, name: Seq<char>, new: JsonTree, other: Seq<char>)
    ensures
        value is Object ==> value.with_field(name, new).field(name) == Some(new),
        value is Object ==> value.with_field(name, new) is Object,
        other != name ==> value.with_field(name, new).field(other) == value.field(other),
        !(value is Object) ==> value.with_field(name, new) == value,
{
}

/// An object of texts, or of lists, has exactly these under their names.
pub proof fn law_objects_of(
    texts: Map<Seq<char>, Seq<char>>,
    lists: Map<Seq<char>, Seq<JsonTree>>,
    name: Seq<char>,
)
    ensures
        text_object(texts).field(name) == if texts.contains_key(name) {
            Some(JsonTree::Text(texts[name]))
        } else {
            None
        },
        list_object(lists).field(name) == if lists.contains_key(name) {
            Some(JsonTree::Array(lists[name]))
        } else {
            None
        },
        text_object(texts) is Object,
        list_object(lists) is Object,
{
}

} // verus!
