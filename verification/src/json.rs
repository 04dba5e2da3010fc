//! JSON documents: reading a text, and looking into what it holds.

use serde_json::Value;
use vstd::prelude::*;
use vstd::string::*;
use vstd::utf8::*;

use crate::text::{bytes_less, lemma_text_less_irreflexive, same_text};

verus! {

/// A JSON document as the shell reads it: what a number is worth as a whole number,
/// and the fields of an object in the order of the map that held them.
#[derive(Debug, PartialEq, Eq)]
pub enum Json {
    Null,
    Bool(bool),
    Number(Option<u64>),
    Text(String),
    Array(Vec<Json>),
    Object(Vec<(String, Json)>),
}

/// The mathematical value of a [`Json`].
pub enum JsonTree {
    Null,
    Bool(bool),
    Number(Option<u64>),
    Text(Seq<char>),
    Array(Seq<JsonTree>),
    Object(Seq<(Seq<char>, JsonTree)>),
}

impl View for Json {
    type V = JsonTree;

    open spec fn view(&self) -> JsonTree {
        self.tree()
    }
}

impl Json {
    /// The mathematical value of the document.
    pub open spec fn tree(&self) -> JsonTree
        decreases self,
    {
        match self {
            Json::Null => JsonTree::Null,
            Json::Bool(b) => JsonTree::Bool(*b),
            Json::Number(n) => JsonTree::Number(*n),
            Json::Text(s) => JsonTree::Text(s@),
            Json::Array(items) => JsonTree::Array(
                Seq::new(items@.len(), |i: int|
                    if 0 <= i < items@.len() { items@[i].tree() } else { JsonTree::Null }),
            ),
            Json::Object(fields) => JsonTree::Object(
                Seq::new(fields@.len(), |i: int|
                    if 0 <= i < fields@.len() {
                        (fields@[i].0@, fields@[i].1.tree())
                    } else {
                        (Seq::empty(), JsonTree::Null)
                    }),
            ),
        }
    }
}

/// The value of the first field named `key`.
pub open spec fn field_of(fields: Seq<(Seq<char>, JsonTree)>, key: Seq<char>) -> Option<JsonTree>
    decreases fields.len(),
{
    if fields.len() == 0 {
        None
    } else if fields[0].0 == key {
        Some(fields[0].1)
    } else {
        field_of(fields.drop_first(), key)
    }
}

/// The keys of an object ascend strictly, by the bytes of their UTF-8 form; no key
/// occurs twice.
pub open spec fn keys_ascend(fields: Seq<(Seq<char>, JsonTree)>) -> bool {
    forall|i: int, j: int|
        0 <= i < j < fields.len() ==> bytes_less(
            encode_utf8((#[trigger] fields[i]).0),
            encode_utf8((#[trigger] fields[j]).0),
        )
}

impl JsonTree {
    /// The field of an object; nothing else has fields.
    pub open spec fn field(self, key: Seq<char>) -> Option<JsonTree> {
        match self {
            JsonTree::Object(fields) => field_of(fields, key),
            _ => None,
        }
    }

    /// The text that this is, where it is one.
    pub open spec fn text(self) -> Option<Seq<char>> {
        match self {
            JsonTree::Text(s) => Some(s),
            _ => None,
        }
    }

    /// The items of an array; nothing else has items.
    pub open spec fn items(self) -> Option<Seq<JsonTree>> {
        match self {
            JsonTree::Array(items) => Some(items),
            _ => None,
        }
    }

    /// The items of an array, or of the array that is the first field of an object.
    pub open spec fn first_items(self) -> Option<Seq<JsonTree>> {
        match self {
            JsonTree::Object(fields) => if fields.len() > 0 {
                fields[0].1.items()
            } else {
                None
            },
            _ => self.items(),
        }
    }

    /// The whole number that this is, where it is one from 0 to `u64::MAX`.
    pub open spec fn whole(self) -> Option<u64> {
        match self {
            JsonTree::Number(n) => n,
            _ => None,
        }
    }

    /// The text of a field, where the field is there and is a text.
    pub open spec fn text_field(self, key: Seq<char>) -> Option<Seq<char>> {
        match self.field(key) {
            Some(v) => v.text(),
            None => None,
        }
    }

    /// Every object in the document has strictly ascending keys.
    pub open spec fn ordered(self) -> bool
        decreases self,
    {
        match self {
            JsonTree::Array(items) => forall|i: int|
                0 <= i < items.len() ==> #[trigger] items[i].ordered(),
            JsonTree::Object(fields) => {
                &&& keys_ascend(fields)
                &&& forall|i: int| 0 <= i < fields.len() ==> (#[trigger] fields[i]).1.ordered()
            },
            _ => true,
        }
    }
}

impl Json {
    /// The value of the field `key`, where this is an object that has it.
    pub fn get(&self, key: &str) -> (r: Option<&Json>)
        ensures
            match r {
                Some(v) => self@.field(key@) == Some(v@),
                None => self@.field(key@) is None,
            },
    {
        match self {
            Json::Object(fields) => {
                let ghost all = self@->Object_0;
                proof {
                    lemma_object_tree(*fields);
                    assert(all.skip(0) =~= all);
                }
                let mut i: usize = 0;
                while i < fields.len()
                    invariant
                        i <= fields@.len() == all.len(),
                        self@ == JsonTree::Object(all),
                        all == field_trees(fields@),
                        field_of(all, key@) == field_of(all.skip(i as int), key@),
                    decreases fields@.len() - i,
                {
                    proof {
                        assert(all.skip(i as int)[0] == all[i as int]);
                        assert(all.skip(i as int).drop_first() =~= all.skip(i + 1));
                    }
                    if same_text(fields[i].0.as_str(), key) {
                        return Some(&fields[i].1);
                    }
                    i += 1;
                }
                None
            },
            _ => None,
        }
    }

    /// The text that this is, where it is one.
    pub fn as_str(&self) -> (r: Option<&str>)
        ensures
            match r {
                Some(s) => self@.text() == Some(s@),
                None => self@.text() is None,
            },
    {
        match self {
            Json::Text(s) => Some(s.as_str()),
            _ => None,
        }
    }

    /// The items, where this is an array.
    pub fn as_array(&self) -> (r: Option<&Vec<Json>>)
        ensures
            match r {
                Some(items) => self@.items() == Some(item_trees(items@)),
                None => self@.items() is None,
            },
    {
        match self {
            Json::Array(items) => {
                proof {
                    lemma_array_tree(*items);
                }
                Some(items)
            },
            _ => None,
        }
    }

    /// The items of an array, or of the array that is the first field of an object.
    pub fn first_array(&self) -> (r: Option<&Vec<Json>>)
        ensures
            match r {
                Some(items) => self@.first_items() == Some(item_trees(items@)),
                None => self@.first_items() is None,
            },
    {
        match self {
            Json::Object(fields) => {
                proof {
                    lemma_object_tree(*fields);
                }
                if fields.len() == 0 {
                    return None;
                }
                assert(field_trees(fields@)[0].1 == fields@[0].1@);
                fields[0].1.as_array()
            },
            _ => self.as_array(),
        }
    }

    /// The whole number that this is, where it is one from 0 to `u64::MAX`.
    pub fn as_u64(&self) -> (r: Option<u64>)
        ensures
            r == self@.whole(),
    {
        match self {
            Json::Number(n) => *n,
            _ => None,
        }
    }

    /// The text of the field `key`, where it is there and is a text.
    pub fn text_field(&self, key: &str) -> (r: Option<&str>)
        ensures
            match r {
                Some(s) => self@.text_field(key@) == Some(s@),
                None => self@.text_field(key@) is None,
            },
    {
        match self.get(key) {
            Some(v) => v.as_str(),
            None => None,
        }
    }
}

/// The values of the items of an array.
pub open spec fn item_trees(items: Seq<Json>) -> Seq<JsonTree> {
    items.map_values(|j: Json| j@)
}

/// The values of the fields of an object.
pub open spec fn field_trees(fields: Seq<(String, Json)>) -> Seq<(Seq<char>, JsonTree)> {
    fields.map_values(|f: (String, Json)| (f.0@, f.1@))
}

proof fn lemma_array_tree(items: Vec<Json>)
    ensures
        Json::Array(items)@ == JsonTree::Array(item_trees(items@)),
{
    let t = Json::Array(items)@;
    assert forall|i: int| 0 <= i < items@.len() implies t->Array_0[i] == items@[i]@ by {}
    assert(t->Array_0 =~= item_trees(items@));
}

proof fn lemma_object_tree(fields: Vec<(String, Json)>)
    ensures
        Json::Object(fields)@ == JsonTree::Object(field_trees(fields@)),
{
    let t = Json::Object(fields)@;
    assert forall|i: int| 0 <= i < fields@.len() implies t->Object_0[i] == (
        fields@[i].0@,
        fields@[i].1@,
    ) by {}
    assert(t->Object_0 =~= field_trees(fields@));
}

/// `serde_json::Value`, carried opaquely from the parser to [`open_value`].
#[verifier::external_type_specification]
#[verifier::external_body]
pub struct ExValue(serde_json::Value);

/// The document that a `serde_json::Value` holds.
pub uninterp spec fn value_tree(value: serde_json::Value) -> JsonTree;

/// What `serde_json::from_str` makes of a text: the document, or the message of the
/// error.
pub uninterp spec fn json_document(text: Seq<char>) -> Result<JsonTree, Seq<char>>;

/// The text that `serde_json::to_string` writes for an object of text fields.
pub uninterp spec fn object_document(fields: Seq<(Seq<char>, Seq<char>)>) -> Seq<char>;

/// One layer of a `serde_json::Value`: its own variant, with the values below it left
/// unopened.
enum Layer {
    Null,
    Bool(bool),
    Number(Option<u64>),
    Text(String),
    Array(Vec<Value>),
    Object(Vec<(String, Value)>),
}

spec fn value_trees(values: Seq<Value>) -> Seq<JsonTree> {
    values.map_values(|v: Value| value_tree(v))
}

spec fn value_fields(fields: Seq<(String, Value)>) -> Seq<(Seq<char>, JsonTree)> {
    fields.map_values(|f: (String, Value)| (f.0@, value_tree(f.1)))
}

impl Layer {
    spec fn tree(self) -> JsonTree {
        match self {
            Layer::Null => JsonTree::Null,
            Layer::Bool(b) => JsonTree::Bool(b),
            Layer::Number(n) => JsonTree::Number(n),
            Layer::Text(s) => JsonTree::Text(s@),
            Layer::Array(items) => JsonTree::Array(value_trees(items@)),
            Layer::Object(fields) => JsonTree::Object(value_fields(fields@)),
        }
    }
}

/// Trusted: the variants of `serde_json::Value`, `Number::as_u64` and `Map::into_iter`.
///
/// The result is the outermost layer of the value. A number is kept as `as_u64` reads
/// it: a whole number from 0 to `u64::MAX`, or nothing. The fields of an object come in
/// the order of the map's iterator; the map is a `BTreeMap`, so their keys ascend by
/// their bytes.
#[verifier::external_body]
fn open_value(value: Value) -> (r: Layer)
    ensures
        r.tree() == value_tree(value),
        r matches Layer::Object(fields) ==> keys_ascend(value_fields(fields@)),
{
    match value {
        Value::Null => Layer::Null,
        Value::Bool(b) => Layer::Bool(b),
        Value::Number(n) => Layer::Number(n.as_u64()),
        Value::String(s) => Layer::Text(s),
        Value::Array(items) => Layer::Array(items),
        Value::Object(fields) => Layer::Object(fields.into_iter().collect()),
    }
}

/// Trusted: `serde_json::from_str`, read as a `Value`.
///
/// The result is a function of the text alone, named [`json_document`]: the document,
/// or the message that the parser's error displays.
#[verifier::external_body]
fn parse_value(text: &str) -> (r: Result<Value, String>)
    ensures
        match r {
            Ok(v) => json_document(text@) == Ok::<JsonTree, Seq<char>>(value_tree(v)),
            Err(e) => json_document(text@) == Err::<JsonTree, Seq<char>>(e@),
        },
{
    serde_json::from_str(text).map_err(|e| e.to_string())
}

/// Unfolds a value layer by layer.
fn json_of(value: Value) -> (r: Json)
    ensures
        r@ == value_tree(value),
        r@.ordered(),
    decreases value_tree(value),
{
    match open_value(value) {
        Layer::Null => Json::Null,
        Layer::Bool(b) => Json::Bool(b),
        Layer::Number(n) => Json::Number(n),
        Layer::Text(s) => Json::Text(s),
        Layer::Array(items) => {
            let ghost all = items@;
            let mut out: Vec<Json> = Vec::new();
            for item in it: items
                invariant
                    value_tree(value) == JsonTree::Array(value_trees(all)),
                    it.seq() == all,
                    out@.len() == it.index(),
                    forall|i: int|
                        0 <= i < out@.len() ==> #[trigger] out@[i]@ == value_tree(all[i])
                            && out@[i]@.ordered(),
            {
                proof {
                    assert(value_tree(value)->Array_0[out@.len() as int] == value_tree(item));
                }
                out.push(json_of(item));
            }
            proof {
                lemma_array_tree(out);
                assert(item_trees(out@) =~= value_trees(all));
            }
            Json::Array(out)
        },
        Layer::Object(fields) => {
            let ghost all = fields@;
            let mut out: Vec<(String, Json)> = Vec::new();
            for field in it: fields
                invariant
                    value_tree(value) == JsonTree::Object(value_fields(all)),
                    it.seq() == all,
                    out@.len() == it.index(),
                    forall|i: int|
                        0 <= i < out@.len() ==> (#[trigger] out@[i]).0 == all[i].0 && out@[i].1@
                            == value_tree(all[i].1) && out@[i].1@.ordered(),
            {
                proof {
                    assert(value_tree(value)->Object_0[out@.len() as int].1 == value_tree(field.1));
                }
                let (key, inner) = field;
                out.push((key, json_of(inner)));
            }
            proof {
                lemma_object_tree(out);
                assert(field_trees(out@) =~= value_fields(all));
            }
            Json::Object(out)
        },
    }
}

/// Reads a JSON text.
pub fn parse_json(text: &str) -> (r: Result<Json, String>)
    ensures
        match r {
            Ok(j) => json_document(text@) == Ok::<JsonTree, Seq<char>>(j@) && j@.ordered(),
            Err(e) => json_document(text@) == Err::<JsonTree, Seq<char>>(e@),
        },
{
    match parse_value(text) {
        Ok(value) => Ok(json_of(value)),
        Err(e) => Err(e),
    }
}

/// The texts of a list of pairs.
pub open spec fn text_pairs(fields: Seq<(String, String)>) -> Seq<(Seq<char>, Seq<char>)> {
    fields.map_values(|f: (String, String)| (f.0@, f.1@))
}

/// No key occurs twice.
pub open spec fn distinct_keys(fields: Seq<(Seq<char>, Seq<char>)>) -> bool {
    forall|i: int, j: int|
        0 <= i < j < fields.len() ==> (#[trigger] fields[i]).0 != (#[trigger] fields[j]).0
}

/// The document is an object with exactly these text fields.
pub open spec fn holds_exactly(document: JsonTree, fields: Seq<(Seq<char>, Seq<char>)>) -> bool {
    &&& document matches JsonTree::Object(found)
    &&& found.len() == fields.len()
    &&& forall|i: int|
        0 <= i < fields.len() ==> document.field((#[trigger] fields[i]).0) == Some(
            JsonTree::Text(fields[i].1),
        )
}

/// Trusted: `serde_json::to_string` on a `Value` collected from text fields.
///
/// Serialising texts under text keys into a string never fails, and the text written is
/// a function of the fields alone, named [`object_document`]. Where no key occurs twice,
/// `serde_json::from_str` reads the same fields back from it.
#[verifier::external_body]
pub(crate) fn object_text(fields: Vec<(String, String)>) -> (r: Result<String, String>)
    ensures
        r is Ok,
        r->Ok_0@ == object_document(text_pairs(fields@)),
        distinct_keys(text_pairs(fields@)) ==> {
            &&& json_document(r->Ok_0@) is Ok
            &&& holds_exactly(json_document(r->Ok_0@)->Ok_0, text_pairs(fields@))
        },
{
    let object: Value = fields.into_iter().collect();
    serde_json::to_string(&object).map_err(|e| e.to_string())
}

/// In an object whose keys ascend, looking a key up finds the field that has it.
pub proof fn law_field_found(fields: Seq<(Seq<char>, JsonTree)>, i: int)
    requires
        keys_ascend(fields),
        0 <= i < fields.len(),
    ensures
        field_of(fields, fields[i].0) == Some(fields[i].1),
    decreases fields.len(),
{
    let key = fields[i].0;
    if i > 0 {
        if fields[0].0 == key {
            assert(bytes_less(encode_utf8(fields[0].0), encode_utf8(fields[i].0)));
            lemma_text_less_irreflexive(key);
        }
        let rest = fields.drop_first();
        assert forall|a: int, b: int| 0 <= a < b < rest.len() implies bytes_less(
            encode_utf8((#[trigger] rest[a]).0),
            encode_utf8((#[trigger] rest[b]).0),
        ) by {
            assert(rest[a] == fields[a + 1] && rest[b] == fields[b + 1]);
        }
        law_field_found(rest, i - 1);
    }
}

/// A key that no field has is not found.
pub proof fn law_field_missing(fields: Seq<(Seq<char>, JsonTree)>, key: Seq<char>)
    requires
        forall|i: int| 0 <= i < fields.len() ==> (#[trigger] fields[i]).0 != key,
    ensures
        field_of(fields, key) is None,
    decreases fields.len(),
{
    if fields.len() > 0 {
        let rest = fields.drop_first();
        assert forall|i: int| 0 <= i < rest.len() implies (#[trigger] rest[i]).0 != key by {
            assert(rest[i] == fields[i + 1]);
        }
        law_field_missing(rest, key);
    }
}

/// A field of an object is the first one with that key.
pub proof fn law_field_is_the_first(fields: Seq<(Seq<char>, JsonTree)>, key: Seq<char>, i: int)
    requires
        0 <= i < fields.len(),
        fields[i].0 == key,
        forall|j: int| 0 <= j < i ==> (#[trigger] fields[j]).0 != key,
    ensures
        JsonTree::Object(fields).field(key) == Some(fields[i].1),
        JsonTree::Object(fields).text_field(key) == match fields[i].1 {
            JsonTree::Text(s) => Some(s),
            _ => None,
        },
    decreases i,
{
    if i > 0 {
        let rest = fields.drop_first();
        assert(fields[0].0 != key);
        assert forall|j: int| 0 <= j < i - 1 implies (#[trigger] rest[j]).0 != key by {
            assert(rest[j] == fields[j + 1]);
        }
        law_field_is_the_first(rest, key, i - 1);
    }
}

/// An object has no field with a key that none of its fields has, and nothing but an object
/// has fields.
pub proof fn law_no_field(v: JsonTree, key: Seq<char>)
    requires
        v matches JsonTree::Object(fields) ==> forall|i: int|
            0 <= i < fields.len() ==> (#[trigger] fields[i]).0 != key,
    ensures
        v.field(key) is None,
        v.text_field(key) is None,
{
    if let JsonTree::Object(fields) = v {
        law_field_missing(fields, key);
    }
}

/// What a document is, as a text, as a list and as a whole number: only a text is a text,
/// only an array has items, and only a number is worth something.
pub proof fn law_kinds_of_documents(v: JsonTree)
    ensures
        v.text() == match v {
            JsonTree::Text(s) => Some(s),
            _ => None,
        },
        v.items() == match v {
            JsonTree::Array(items) => Some(items),
            _ => None,
        },
        v.whole() == match v {
            JsonTree::Number(n) => n,
            _ => None,
        },
        v.first_items() == match v {
            JsonTree::Array(items) => Some(items),
            JsonTree::Object(fields) => if fields.len() > 0 && fields[0].1 is Array {
                Some(fields[0].1->Array_0)
            } else {
                None
            },
            _ => None,
        },
{
}

/// The value of a document is built of the values of all its parts, in their order.
pub proof fn law_tree_has_all_parts(
    b: bool,
    n: Option<u64>,
    s: String,
    items: Vec<Json>,
    fields: Vec<(String, Json)>,
)
    ensures
        Json::Null@ == JsonTree::Null,
        Json::Bool(b)@ == JsonTree::Bool(b),
        Json::Number(n)@ == JsonTree::Number(n),
        Json::Text(s)@ == JsonTree::Text(s@),
        Json::Array(items)@ matches JsonTree::Array(trees) && trees == item_trees(items@),
        item_trees(items@).len() == items@.len(),
        forall|i: int| 0 <= i < items@.len() ==> #[trigger] item_trees(items@)[i] == items@[i]@,
        Json::Object(fields)@ matches JsonTree::Object(trees) && trees == field_trees(fields@),
        field_trees(fields@).len() == fields@.len(),
        forall|i: int|
            0 <= i < fields@.len() ==> #[trigger] field_trees(fields@)[i] == (
                fields@[i].0@,
                fields@[i].1@,
            ),
{
    lemma_array_tree(items);
    lemma_object_tree(fields);
}

} // verus!
