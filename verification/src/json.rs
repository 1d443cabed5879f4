//! JSON documents as plain data.

use crate::text::{decimal, law_unsigned_value, push_decimal, unsigned_value};
use vstd::prelude::*;

verus! {

/// What a JSON document says, as a mathematical value.
///
/// A number is the text that it is printed with. An integer from `i64::MIN` to
/// `u64::MAX` that was written without a point or an exponent is printed in base
/// ten. Any other number, `-0` and a larger integer among them, is printed with a
/// point or an exponent. The fields of an object stand in the order in which they
/// are stored.
pub enum JsonTree {
    Null,
    Bool(bool),
    Number(Seq<char>),
    Text(Seq<char>),
    Array(Seq<JsonTree>),
    Object(Seq<(Seq<char>, JsonTree)>),
}

/// The value of the first of `fields` that is named `key`.
pub open spec fn first_named(fields: Seq<(Seq<char>, JsonTree)>, key: Seq<char>) -> Option<JsonTree>
    decreases fields.len(),
{
    if fields.len() == 0 {
        None
    } else if fields[0].0 == key {
        Some(fields[0].1)
    } else {
        first_named(fields.skip(1), key)
    }
}

impl JsonTree {
    /// The field `key` of an object; nothing else has fields.
    pub open spec fn get(self, key: Seq<char>) -> Option<JsonTree> {
        match self {
            JsonTree::Object(fields) => first_named(fields, key),
            _ => None,
        }
    }

    /// The number, where this is one whose text is the base ten of a `u64`.
    pub open spec fn as_u64(self) -> Option<u64> {
        match self {
            JsonTree::Number(text) => unsigned_value(text),
            _ => None,
        }
    }

    /// The characters, where this is text.
    pub open spec fn as_str(self) -> Option<Seq<char>> {
        match self {
            JsonTree::Text(chars) => Some(chars),
            _ => None,
        }
    }
}

/// A JSON document.
#[derive(Debug)]
pub enum Json {
    Null,
    Bool(bool),
    Number(JsonNumber),
    Text(String),
    Array(Vec<Json>),
    Object(Vec<(String, Json)>),
}

/// A JSON number, with the `u64` that its text spells at hand.
#[derive(Debug)]
pub struct JsonNumber {
    unsigned: Option<u64>,
    text: String,
}

impl View for JsonNumber {
    type V = Seq<char>;

    closed spec fn view(&self) -> Seq<char> {
        self.text@
    }
}

impl JsonNumber {
    #[verifier::type_invariant]
    spec fn agrees(&self) -> bool {
        self.unsigned == unsigned_value(self.text@)
    }

    /// The number `n`.
    pub fn from_u64(n: u64) -> (number: Self)
        ensures
            number@ == decimal(n as nat),
    {
        let mut text = String::new();
        push_decimal(&mut text, n);
        assert(text@ =~= decimal(n as nat));
        proof {
            law_unsigned_value(text@, n);
        }
        JsonNumber { unsigned: Some(n), text }
    }

    /// The number as a `u64`: `None` for a negative number, one past `u64::MAX`,
    /// and one that is printed with a point or an exponent, be it whole or not.
    pub fn as_u64(&self) -> (number: Option<u64>)
        ensures
            number == unsigned_value(self@),
    {
        proof {
            use_type_invariant(self);
        }
        self.unsigned
    }

    /// The number as printed.
    pub fn text(&self) -> (text: &str)
        ensures
            text@ == self@,
    {
        self.text.as_str()
    }
}

impl Json {
    /// What this document says.
    pub open spec fn tree(&self) -> JsonTree
        decreases self,
    {
        match self {
            Json::Null => JsonTree::Null,
            Json::Bool(b) => JsonTree::Bool(*b),
            Json::Number(n) => JsonTree::Number(n@),
            Json::Text(s) => JsonTree::Text(s@),
            Json::Array(items) => JsonTree::Array(
                Seq::new(
                    items@.len(),
                    |i: int|
                        if 0 <= i < items@.len() {
                            items@[i].tree()
                        } else {
                            JsonTree::Null
                        },
                ),
            ),
            Json::Object(fields) => JsonTree::Object(
                Seq::new(
                    fields@.len(),
                    |i: int|
                        if 0 <= i < fields@.len() {
                            (fields@[i].0@, fields@[i].1.tree())
                        } else {
                            (Seq::empty(), JsonTree::Null)
                        },
                ),
            ),
        }
    }
}

impl View for Json {
    type V = JsonTree;

    open spec fn view(&self) -> JsonTree {
        self.tree()
    }
}

impl Json {
    /// The field `key` of an object; `None` for anything but an object.
    pub fn get(&self, key: &str) -> (value: Option<&Json>)
        ensures
            match value {
                Some(json) => self@.get(key@) == Some(json@),
                None => self@.get(key@) is None,
            },
    {
        match self {
            Json::Object(fields) => {
                let wanted = key.to_string();
                let ghost trees = self@->Object_0;
                let mut i: usize = 0;
                assert(trees.skip(0) =~= trees);
                while i < fields.len()
                    invariant
                        i <= fields@.len(),
                        wanted@ == key@,
                        self@ == JsonTree::Object(trees),
                        trees.len() == fields@.len(),
                        forall|k: int|
                            #![trigger fields@[k]]
                            0 <= k < fields@.len() ==> trees[k] == (
                                fields@[k].0@,
                                fields@[k].1@,
                            ),
                        first_named(trees, key@) == first_named(trees.skip(i as int), key@),
                    decreases fields@.len() - i,
                {
                    if fields[i].0 == wanted {
                        return Some(&fields[i].1);
                    }
                    assert(trees.skip(i as int).skip(1) =~= trees.skip(i + 1));
                    i += 1;
                }
                None
            },
            _ => None,
        }
    }

    /// The number, where this is a non-negative integer up to `u64::MAX`, written
    /// without a point or an exponent.
    pub fn as_u64(&self) -> (number: Option<u64>)
        ensures
            number == self@.as_u64(),
    {
        match self {
            Json::Number(number) => number.as_u64(),
            _ => None,
        }
    }

    /// The text, where this is text.
    pub fn as_str(&self) -> (text: Option<&str>)
        ensures
            match text {
                Some(chars) => self@.as_str() == Some(chars@),
                None => self@.as_str() is None,
            },
    {
        match self {
            Json::Text(text) => Some(text.as_str()),
            _ => None,
        }
    }
}

/// Declares `serde_json::Value`, a parsed document.
#[verifier::external_type_specification]
#[verifier::external_body]
pub struct ExValue(serde_json::Value);

/// What a `serde_json::Value` holds.
pub uninterp spec fn value_tree(value: serde_json::Value) -> JsonTree;

/// What `serde_json::from_slice` makes of `bytes`: the document, or the text of
/// its error.
pub uninterp spec fn json_outcome(bytes: Seq<u8>) -> Result<JsonTree, Seq<char>>;

/// A `serde_json::Value` taken apart once: its variant with what the variant holds.
enum Layer {
    Null,
    Bool(bool),
    Number(Option<u64>, String),
    Text(String),
    Array(Vec<serde_json::Value>),
    Object(Vec<(String, serde_json::Value)>),
}

impl Layer {
    spec fn tree(&self) -> JsonTree {
        match self {
            Layer::Null => JsonTree::Null,
            Layer::Bool(b) => JsonTree::Bool(*b),
            Layer::Number(_, text) => JsonTree::Number(text@),
            Layer::Text(s) => JsonTree::Text(s@),
            Layer::Array(items) => JsonTree::Array(
                items@.map_values(|item: serde_json::Value| value_tree(item)),
            ),
            Layer::Object(fields) => JsonTree::Object(
                fields@.map_values(
                    |field: (String, serde_json::Value)| (field.0@, value_tree(field.1)),
                ),
            ),
        }
    }
}

/// A layer says what it holds, and of what lies deeper what the values there hold,
/// each in its place.
proof fn law_layer_says_what_it_holds(layer: Layer)
    ensures
        match layer {
            Layer::Null => layer.tree() == JsonTree::Null,
            Layer::Bool(b) => layer.tree() == JsonTree::Bool(b),
            Layer::Number(_, text) => layer.tree() == JsonTree::Number(text@),
            Layer::Text(text) => layer.tree() == JsonTree::Text(text@),
            Layer::Array(items) => {
                &&& layer.tree() is Array
                &&& layer.tree()->Array_0.len() == items@.len()
                &&& forall|i: int|
                    0 <= i < items@.len() ==> layer.tree()->Array_0[i] == value_tree(
                        #[trigger] items@[i],
                    )
            },
            Layer::Object(fields) => {
                &&& layer.tree() is Object
                &&& layer.tree()->Object_0.len() == fields@.len()
                &&& forall|i: int|
                    #![trigger fields@[i]]
                    0 <= i < fields@.len() ==> layer.tree()->Object_0[i] == (
                        fields@[i].0@,
                        value_tree(fields@[i].1),
                    )
            },
        },
{
}

/// Takes a `serde_json::Value` apart, one arm for each variant. The layer holds
/// what the value held. A number gives `Number::as_u64` and what it writes through
/// `Display`: the first is some `n` exactly when the second is the base ten of `n`.
/// A negative integer is written with a sign, and a float with a point or an
/// exponent. An object gives its entries in the order of `Map::into_iter`.
#[verifier::external_body]
fn outer_layer(value: serde_json::Value) -> (layer: Layer)
    ensures
        layer.tree() == value_tree(value),
        layer matches Layer::Number(unsigned, text) ==> forall|n: u64|
            unsigned == Some(n) <==> text@ == #[trigger] decimal(n as nat),
{
    match value {
        serde_json::Value::Null => Layer::Null,
        serde_json::Value::Bool(b) => Layer::Bool(b),
        serde_json::Value::Number(n) => Layer::Number(n.as_u64(), n.to_string()),
        serde_json::Value::String(s) => Layer::Text(s),
        serde_json::Value::Array(items) => Layer::Array(items),
        serde_json::Value::Object(fields) => Layer::Object(fields.into_iter().collect()),
    }
}

/// The bytes from `from` up to `to` are ASCII digits.
pub open spec fn is_digit_run(bytes: Seq<u8>, from: int, to: int) -> bool {
    forall|k: int| from <= k < to ==> 48 <= #[trigger] bytes[k] <= 57
}

/// No run of ASCII digits is longer than an `i32` can count. Digits inside a string
/// count here too, though the parser counts only those of a number.
pub open spec fn digits_countable(bytes: Seq<u8>) -> bool {
    forall|from: int, to: int|
        0 <= from <= to <= bytes.len() && #[trigger] is_digit_run(bytes, from, to) ==> to - from
            <= i32::MAX
}

/// Bytes that are themselves no more than an `i32` can count hold no longer run.
pub proof fn law_short_bytes_are_countable(bytes: Seq<u8>)
    requires
        bytes.len() <= i32::MAX,
    ensures
        digits_countable(bytes),
{
}

/// Tells whether every run of ASCII digits is one that an `i32` can count.
pub fn has_countable_digits(bytes: &[u8]) -> (countable: bool)
    ensures
        countable == digits_countable(bytes@),
{
    let limit: usize = i32::MAX as usize;
    if bytes.len() <= limit {
        return true;
    }
    let mut run: usize = 0;
    let mut i: usize = 0;
    while i < bytes.len()
        invariant
            limit == i32::MAX,
            run <= i <= bytes@.len(),
            run <= limit,
            is_digit_run(bytes@, i - run, i as int),
            i == run || !(48 <= bytes@[i - run - 1] <= 57),
            forall|from: int, to: int|
                0 <= from <= to <= i && #[trigger] is_digit_run(bytes@, from, to) ==> to - from
                    <= limit,
        decreases bytes@.len() - i,
    {
        let ghost start = i - run;
        if 48 <= bytes[i] && bytes[i] <= 57 {
            if run == limit {
                assert(is_digit_run(bytes@, start, i + 1));
                return false;
            }
            run += 1;
        } else {
            run = 0;
        }
        i += 1;
        assert forall|from: int, to: int|
            0 <= from <= to <= i && #[trigger] is_digit_run(bytes@, from, to) implies to - from
            <= limit by {
            if to == i && from < to {
                assert(48 <= bytes@[i - 1] <= 57);
                if from < start {
                    assert(48 <= bytes@[start - 1] <= 57);
                }
            }
        }
    }
    true
}

/// Calls `serde_json::from_slice` for a `serde_json::Value`. Whether the bytes are
/// a document, which document, and what the error says through `Display` depend on
/// the bytes alone. The parser counts the digits of a number in an `i32` and
/// panics on overflow in a checked build, so a longer run of digits is left out.
#[verifier::external_body]
fn json_from_slice(bytes: &[u8]) -> (outcome: Result<serde_json::Value, String>)
    requires
        digits_countable(bytes@),
    ensures
        match outcome {
            Ok(value) => json_outcome(bytes@) == Ok::<JsonTree, Seq<char>>(value_tree(value)),
            Err(text) => json_outcome(bytes@) == Err::<JsonTree, Seq<char>>(text@),
        },
{
    match serde_json::from_slice(bytes) {
        Ok(value) => Ok(value),
        Err(error) => Err(error.to_string()),
    }
}

/// The same document as plain data.
fn json_of(value: serde_json::Value) -> (json: Json)
    ensures
        json@ == value_tree(value),
    decreases value_tree(value),
{
    match outer_layer(value) {
        Layer::Null => Json::Null,
        Layer::Bool(b) => Json::Bool(b),
        Layer::Number(unsigned, text) => {
            proof {
                if let Some(n) = unsigned {
                    law_unsigned_value(text@, n);
                }
            }
            Json::Number(JsonNumber { unsigned, text })
        },
        Layer::Text(s) => Json::Text(s),
        Layer::Array(items) => {
            let ghost values = items@;
            let ghost trees = value_tree(value)->Array_0;
            let mut out: Vec<Json> = Vec::new();
            for item in it: items
                invariant
                    it.seq() == values,
                    out@.len() == it.index(),
                    value_tree(value) is Array,
                    trees == value_tree(value)->Array_0,
                    trees.len() == values.len(),
                    forall|i: int| 0 <= i < trees.len() ==> trees[i] == value_tree(
                        #[trigger] values[i],
                    ),
                    forall|i: int| 0 <= i < out@.len() ==> #[trigger] out@[i]@ == trees[i],
            {
                assert(decreases_to!(value_tree(value) => trees[it.index()]));
                out.push(json_of(item));
            }
            let json = Json::Array(out);
            assert forall|i: int| 0 <= i < trees.len() implies json@->Array_0[i] == trees[i] by {
                assert(json->Array_0@[i]@ == trees[i]);
            }
            assert(json@->Array_0 =~= trees);
            json
        },
        Layer::Object(fields) => {
            let ghost values = fields@;
            let ghost trees = value_tree(value)->Object_0;
            let mut out: Vec<(String, Json)> = Vec::new();
            for field in it: fields
                invariant
                    it.seq() == values,
                    out@.len() == it.index(),
                    value_tree(value) is Object,
                    trees == value_tree(value)->Object_0,
                    trees.len() == values.len(),
                    forall|i: int|
                        #![trigger values[i]]
                        0 <= i < trees.len() ==> trees[i] == (values[i].0@, value_tree(values[i].1)),
                    forall|i: int|
                        #![trigger out@[i]]
                        0 <= i < out@.len() ==> trees[i] == (out@[i].0@, out@[i].1@),
            {
                assert(decreases_to!(value_tree(value) => trees[it.index()].1));
                out.push((field.0, json_of(field.1)));
            }
            let json = Json::Object(out);
            assert(json@->Object_0 =~= trees);
            json
        },
    }
}

/// Parses a JSON document. An error is what the parser says of the bytes.
pub fn parse_json(bytes: &[u8]) -> (outcome: Result<Json, String>)
    requires
        digits_countable(bytes@),
    ensures
        match outcome {
            Ok(json) => json_outcome(bytes@) == Ok::<JsonTree, Seq<char>>(json@),
            Err(text) => json_outcome(bytes@) == Err::<JsonTree, Seq<char>>(text@),
        },
{
    match json_from_slice(bytes) {
        Ok(value) => Ok(json_of(value)),
        Err(text) => Err(text),
    }
}

/// The field that is found is the first with its name, and one is found whenever
/// there is any.
pub proof fn law_get_finds_the_first(fields: Seq<(Seq<char>, JsonTree)>, key: Seq<char>)
    ensures
        match JsonTree::Object(fields).get(key) {
            Some(value) => exists|i: int|
                0 <= i < fields.len() && #[trigger] fields[i] == (key, value) && (forall|j: int|
                    0 <= j < i ==> (#[trigger] fields[j]).0 != key),
            None => forall|i: int| 0 <= i < fields.len() ==> (#[trigger] fields[i]).0 != key,
        },
    decreases fields.len(),
{
    if fields.len() > 0 {
        let rest = fields.skip(1);
        if fields[0].0 == key {
            assert(fields[0] == (key, fields[0].1));
        } else {
            law_get_finds_the_first(rest, key);
            match JsonTree::Object(fields).get(key) {
                Some(value) => {
                    let i = choose|i: int|
                        0 <= i < rest.len() && #[trigger] rest[i] == (key, value) && (forall|j: int|
                            0 <= j < i ==> (#[trigger] rest[j]).0 != key);
                    assert(fields[i + 1] == (key, value));
                    assert forall|j: int| 0 <= j < i + 1 implies (#[trigger] fields[j]).0
                        != key by {
                        if j > 0 {
                            assert(rest[j - 1] == fields[j]);
                        }
                    }
                },
                None => {
                    assert forall|j: int| 0 <= j < fields.len() implies (#[trigger] fields[j]).0
                        != key by {
                        if j > 0 {
                            assert(rest[j - 1] == fields[j]);
                        }
                    }
                },
            }
        }
    }
}

/// Only an object has fields, only a number in base ten has a `u64`, and only text
/// has characters.
pub proof fn law_only_the_right_kind(tree: JsonTree, key: Seq<char>, n: u64, chars: Seq<char>)
    ensures
        tree !is Object ==> tree.get(key) is None,
        tree.as_u64() == Some(n) <==> tree == JsonTree::Number(decimal(n as nat)),
        tree.as_str() == Some(chars) <==> tree == JsonTree::Text(chars),
{
    if let JsonTree::Number(text) = tree {
        law_unsigned_value(text, n);
    }
}

/// A document says what its parts say, each in its place.
pub proof fn law_document_says_what_its_parts_say(json: Json)
    ensures
        match json {
            Json::Null => json@ == JsonTree::Null,
            Json::Bool(b) => json@ == JsonTree::Bool(b),
            Json::Number(number) => json@ == JsonTree::Number(number@),
            Json::Text(text) => json@ == JsonTree::Text(text@),
            Json::Array(items) => {
                &&& json@ is Array
                &&& json@->Array_0.len() == items@.len()
                &&& forall|i: int|
                    0 <= i < items@.len() ==> json@->Array_0[i] == (#[trigger] items@[i])@
            },
            Json::Object(fields) => {
                &&& json@ is Object
                &&& json@->Object_0.len() == fields@.len()
                &&& forall|i: int|
                    #![trigger fields@[i]]
                    0 <= i < fields@.len() ==> json@->Object_0[i] == (
                        fields@[i].0@,
                        fields@[i].1@,
                    )
            },
        },
{
}

/// Bytes are uncountable exactly when somewhere more than `i32::MAX` ASCII digits
/// stand in a row.
pub proof fn law_uncountable_means_a_long_run(bytes: Seq<u8>)
    ensures
        digits_countable(bytes) <==> !exists|from: int, to: int|
            0 <= from <= to <= bytes.len() && to - from > 0x7fff_ffff && #[trigger] is_digit_run(
                bytes,
                from,
                to,
            ),
        forall|from: int, to: int|
            0 <= from <= to <= bytes.len() ==> (#[trigger] is_digit_run(bytes, from, to) <==> (
            forall|k: int| from <= k < to ==> '0' as int <= #[trigger] bytes[k] <= '9' as int)),
{
}

} // verus!
