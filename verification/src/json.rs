//! The data tree of a case: a JSON document held as plain values.

use crate::text::{
    all_digits, chars_of, digits_value, is_digit, parse_i64, parse_i64_spec, replace_all, replaced,
    split, split_from, str_eq, string_views,
};
use vstd::prelude::*;

verus! {

/// A JSON document.
#[derive(Debug)]
pub enum Json {
    /// `null`.
    Null,
    /// `true` or `false`.
    Bool(bool),
    /// A number, as it is written.
    Number(String),
    /// A string.
    Text(String),
    /// An array.
    Array(Vec<Json>),
    /// An object: its fields, each a name and a value. Where a name occurs twice, the
    /// first field of that name counts.
    Object(Vec<(String, Json)>),
}

/// What a JSON document holds.
pub enum JsonV {
    Null,
    Bool(bool),
    Number(Seq<char>),
    Text(Seq<char>),
    Array(Seq<JsonV>),
    Object(Seq<(Seq<char>, JsonV)>),
}

/// What the documents of `items` hold.
pub open spec fn json_views(items: Seq<Json>) -> Seq<JsonV>
    decreases items,
{
    Seq::new(
        items.len(),
        |i: int|
            if 0 <= i < items.len() {
                json_view(items[i])
            } else {
                JsonV::Null
            },
    )
}

/// What the fields of `fields` hold.
pub open spec fn field_views(fields: Seq<(String, Json)>) -> Seq<(Seq<char>, JsonV)>
    decreases fields,
{
    Seq::new(
        fields.len(),
        |i: int|
            if 0 <= i < fields.len() {
                (fields[i].0@, json_view(fields[i].1))
            } else {
                (Seq::<char>::empty(), JsonV::Null)
            },
    )
}

/// What the document `j` holds.
pub open spec fn json_view(j: Json) -> JsonV
    decreases j,
{
    match j {
        Json::Null => JsonV::Null,
        Json::Bool(b) => JsonV::Bool(b),
        Json::Number(n) => JsonV::Number(n@),
        Json::Text(s) => JsonV::Text(s@),
        Json::Array(items) => JsonV::Array(json_views(items@)),
        Json::Object(fields) => JsonV::Object(field_views(fields@)),
    }
}

impl View for Json {
    type V = JsonV;

    open spec fn view(&self) -> JsonV {
        json_view(*self)
    }
}

/// The value of the first field of `fields` that is named `key`.
pub open spec fn field_value(fields: Seq<(Seq<char>, JsonV)>, key: Seq<char>) -> Option<JsonV>
    decreases fields.len(),
{
    if fields.len() == 0 {
        None
    } else if fields[0].0 == key {
        Some(fields[0].1)
    } else {
        field_value(fields.drop_first(), key)
    }
}

/// The place of the first field of `fields` that is named `key`.
pub open spec fn field_place(fields: Seq<(Seq<char>, JsonV)>, key: Seq<char>) -> Option<int>
    decreases fields.len(),
{
    if fields.len() == 0 {
        None
    } else if fields[0].0 == key {
        Some(0)
    } else {
        match field_place(fields.drop_first(), key) {
            Some(i) => Some(i + 1),
            None => None,
        }
    }
}

/// `fields` with `value` under the name `key`: in the first field of that name, or in a
/// new field behind the others.
pub open spec fn fields_with(fields: Seq<(Seq<char>, JsonV)>, key: Seq<char>, value: JsonV) -> Seq<
    (Seq<char>, JsonV),
> {
    match field_place(fields, key) {
        Some(i) => fields.update(i, (key, value)),
        None => fields.push((key, value)),
    }
}

proof fn lemma_field_place_found(fields: Seq<(Seq<char>, JsonV)>, key: Seq<char>, at: int)
    requires
        0 <= at < fields.len(),
        fields[at].0 == key,
        forall|k: int| 0 <= k < at ==> (#[trigger] fields[k]).0 != key,
    ensures
        field_place(fields, key) == Some(at),
        field_value(fields, key) == Some(fields[at].1),
    decreases fields.len(),
{
    if at == 0 {
    } else {
        let rest = fields.drop_first();
        assert(fields[0].0 != key);
        assert(rest[at - 1] == fields[at]);
        assert forall|k: int| 0 <= k < at - 1 implies (#[trigger] rest[k]).0 != key by {
            assert(rest[k] == fields[k + 1]);
        }
        lemma_field_place_found(rest, key, at - 1);
    }
}

proof fn lemma_field_place_missing(fields: Seq<(Seq<char>, JsonV)>, key: Seq<char>)
    requires
        forall|k: int| 0 <= k < fields.len() ==> (#[trigger] fields[k]).0 != key,
    ensures
        field_place(fields, key) is None,
        field_value(fields, key) is None,
    decreases fields.len(),
{
    if fields.len() > 0 {
        let rest = fields.drop_first();
        assert(fields[0].0 != key);
        assert forall|k: int| 0 <= k < rest.len() implies (#[trigger] rest[k]).0 != key by {
            assert(rest[k] == fields[k + 1]);
        }
        lemma_field_place_missing(rest, key);
    }
}

impl JsonV {
    /// The text of a string.
    pub open spec fn text(self) -> Option<Seq<char>> {
        match self {
            JsonV::Text(s) => Some(s),
            _ => None,
        }
    }

    /// The flag that a boolean holds.
    pub open spec fn flag(self) -> Option<bool> {
        match self {
            JsonV::Bool(b) => Some(b),
            _ => None,
        }
    }

    /// The number of a document that is a number which an `i64` holds.
    pub open spec fn integer(self) -> Option<i64> {
        match self {
            JsonV::Number(n) => parse_i64_spec(n),
            _ => None,
        }
    }

    /// The items of an array.
    pub open spec fn items(self) -> Option<Seq<JsonV>> {
        match self {
            JsonV::Array(items) => Some(items),
            _ => None,
        }
    }

    /// The value of the field `key` of an object; `null` for a field that is missing.
    /// Of a document that is no object, nothing.
    pub open spec fn field(self, key: Seq<char>) -> Option<JsonV> {
        match self {
            JsonV::Object(fields) => match field_value(fields, key) {
                Some(v) => Some(v),
                None => Some(JsonV::Null),
            },
            _ => None,
        }
    }

    /// The value of the field `key`; `null` for a field that is missing, and for a
    /// document that is no object.
    pub open spec fn member(self, key: Seq<char>) -> JsonV {
        match self {
            JsonV::Object(fields) => match field_value(fields, key) {
                Some(v) => v,
                None => JsonV::Null,
            },
            _ => JsonV::Null,
        }
    }

    /// Whether the document is an object that has a field `key`.
    pub open spec fn has_field(self, key: Seq<char>) -> bool {
        match self {
            JsonV::Object(fields) => field_value(fields, key) is Some,
            _ => false,
        }
    }

    /// The object with `value` in its field `key`; any other document as it is.
    pub open spec fn with_field(self, key: Seq<char>, value: JsonV) -> JsonV {
        match self {
            JsonV::Object(fields) => JsonV::Object(fields_with(fields, key, value)),
            _ => self,
        }
    }

    /// The array with `value` in place of its item `at`; any other document, or one
    /// that has no such item, as it is.
    pub open spec fn with_item(self, at: int, value: JsonV) -> JsonV {
        match self {
            JsonV::Array(items) => if 0 <= at < items.len() {
                JsonV::Array(items.update(at, value))
            } else {
                self
            },
            _ => self,
        }
    }
}

impl Json {
    /// The text of a document that is a string.
    pub fn as_str(&self) -> (r: Option<&str>)
        ensures
            match r {
                Some(s) => self@.text() == Some(s@),
                None => self@.text() is None,
            },
    {
        match self {
            Json::Text(s) => Some(s.as_str()),
            _ => None,
        }
    }

    /// The flag of a document that is a boolean.
    pub fn as_bool(&self) -> (r: Option<bool>)
        ensures
            r == self@.flag(),
    {
        match self {
            Json::Bool(b) => Some(*b),
            _ => None,
        }
    }

    /// The number of a document that is a number which an `i64` holds.
    pub fn as_i64(&self) -> (r: Option<i64>)
        ensures
            r == self@.integer(),
    {
        match self {
            Json::Number(n) => parse_i64(n.as_str()),
            _ => None,
        }
    }

    /// Whether the document is a number.
    pub fn is_number(&self) -> (r: bool)
        ensures
            r == (self@ is Number),
    {
        match self {
            Json::Number(_) => true,
            _ => false,
        }
    }

    /// Whether the document is `null`.
    pub fn is_null(&self) -> (r: bool)
        ensures
            r == (self@ is Null),
    {
        match self {
            Json::Null => true,
            _ => false,
        }
    }

    /// Whether the document is an object.
    pub fn is_object(&self) -> (r: bool)
        ensures
            r == (self@ is Object),
    {
        match self {
            Json::Object(_) => true,
            _ => false,
        }
    }

    /// The items of a document that is an array.
    pub fn as_array(&self) -> (r: Option<&Vec<Json>>)
        ensures
            match r {
                Some(items) => self@.items() == Some(json_views(items@)),
                None => self@.items() is None,
            },
    {
        match self {
            Json::Array(items) => Some(items),
            _ => None,
        }
    }

    /// The value of the field `key` of a document that is an object and has that field.
    pub fn get(&self, key: &str) -> (r: Option<&Json>)
        ensures
            match r {
                Some(v) => self@.has_field(key@) && self@.field(key@) == Some(v@),
                None => !self@.has_field(key@),
            },
    {
        match self {
            Json::Object(fields) => {
                let mut i: usize = 0;
                while i < fields.len()
                    invariant
                        i <= fields@.len(),
                        self@ == JsonV::Object(field_views(fields@)),
                        forall|k: int| 0 <= k < i ==> (#[trigger] field_views(fields@)[k]).0 != key@,
                    decreases fields.len() - i,
                {
                    if str_eq(fields[i].0.as_str(), key) {
                        proof {
                            lemma_field_place_found(field_views(fields@), key@, i as int);
                        }
                        return Some(&fields[i].1);
                    }
                    i += 1;
                }
                proof {
                    lemma_field_place_missing(field_views(fields@), key@);
                }
                None
            },
            _ => None,
        }
    }

    /// The text of the field `key`, where it holds text.
    pub fn text_of(&self, key: &str) -> (r: Option<String>)
        ensures
            match r {
                Some(t) => self@.member(key@).text() == Some(t@),
                None => self@.member(key@).text() is None,
            },
    {
        match self.get(key) {
            Some(v) => match v.as_str() {
                Some(t) => Some(t.to_owned()),
                None => None,
            },
            None => None,
        }
    }

    /// The flag of the field `key`, where it holds a boolean.
    pub fn flag_of(&self, key: &str) -> (r: Option<bool>)
        ensures
            r == self@.member(key@).flag(),
    {
        match self.get(key) {
            Some(v) => v.as_bool(),
            None => None,
        }
    }

    /// The number of the field `key`, where it holds a number that an `i64` holds.
    pub fn integer_of(&self, key: &str) -> (r: Option<i64>)
        ensures
            r == self@.member(key@).integer(),
    {
        match self.get(key) {
            Some(v) => v.as_i64(),
            None => None,
        }
    }

    /// The items of the field `key`, where it holds an array.
    pub fn items_of(&self, key: &str) -> (r: Option<&Vec<Json>>)
        ensures
            match r {
                Some(items) => self@.member(key@).items() == Some(json_views(items@)),
                None => self@.member(key@).items() is None,
            },
    {
        match self.get(key) {
            Some(v) => v.as_array(),
            None => None,
        }
    }

    /// Whether the document is an object that has a field `key`.
    pub fn contains_key(&self, key: &str) -> (r: bool)
        ensures
            r == self@.has_field(key@),
    {
        self.get(key).is_some()
    }

    /// A copy of the document.
    pub fn duplicate(&self) -> (r: Json)
        ensures
            r@ == self@,
        decreases self, 1int,
    {
        match self {
            Json::Null => Json::Null,
            Json::Bool(b) => Json::Bool(*b),
            Json::Number(n) => Json::Number(n.clone()),
            Json::Text(s) => Json::Text(s.clone()),
            Json::Array(items) => Json::Array(duplicate_items(items)),
            Json::Object(fields) => Json::Object(duplicate_fields(fields)),
        }
    }

    /// Puts `value` into the field `key` of a document that is an object: into the first
    /// field of that name, or into a new field behind the others. Any other document
    /// stays as it is.
    pub fn with_field(self, key: &str, value: Json) -> (r: Json)
        ensures
            r@ == self@.with_field(key@, value@),
    {
        match self {
            Json::Object(fields) => {
                let mut fields = fields;
                let ghost before = field_views(fields@);
                let mut i: usize = 0;
                while i < fields.len()
                    invariant
                        i <= fields@.len(),
                        before == field_views(fields@),
                        self@ == JsonV::Object(before),
                        forall|k: int| 0 <= k < i ==> (#[trigger] before[k]).0 != key@,
                    decreases fields.len() - i,
                {
                    if str_eq(fields[i].0.as_str(), key) {
                        proof {
                            lemma_field_place_found(before, key@, i as int);
                        }
                        let _old = fields.remove(i);
                        fields.insert(i, (key.to_owned(), value));
                        assert(field_views(fields@) =~= before.update(i as int, (key@, value@)));
                        return Json::Object(fields);
                    }
                    i += 1;
                }
                proof {
                    lemma_field_place_missing(before, key@);
                }
                fields.push((key.to_owned(), value));
                assert(field_views(fields@) =~= before.push((key@, value@)));
                Json::Object(fields)
            },
            other => other,
        }
    }

    /// Puts `value` in place of the item `at` of a document that is an array and has
    /// such an item. Any other document stays as it is.
    pub fn with_item(self, at: usize, value: Json) -> (r: Json)
        ensures
            r@ == self@.with_item(at as int, value@),
    {
        match self {
            Json::Array(items) => {
                let mut items = items;
                if at < items.len() {
                    let ghost before = json_views(items@);
                    let _old = items.remove(at);
                    items.insert(at, value);
                    assert(json_views(items@) =~= before.update(at as int, value@));
                }
                Json::Array(items)
            },
            other => other,
        }
    }
}

/// Copies of the documents of `items`.
fn duplicate_items(items: &Vec<Json>) -> (out: Vec<Json>)
    ensures
        json_views(out@) == json_views(items@),
    decreases items, 0int,
{
    let mut out: Vec<Json> = Vec::new();
    let mut i: usize = 0;
    while i < items.len()
        invariant
            i <= items@.len(),
            out@.len() == i,
            forall|k: int| 0 <= k < i ==> (#[trigger] out@[k])@ == items@[k]@,
        decreases items.len() - i,
    {
        out.push(items[i].duplicate());
        i += 1;
    }
    assert(json_views(out@) =~= json_views(items@));
    out
}

/// Copies of the fields of `fields`.
fn duplicate_fields(fields: &Vec<(String, Json)>) -> (out: Vec<(String, Json)>)
    ensures
        field_views(out@) == field_views(fields@),
    decreases fields, 0int,
{
    let mut out: Vec<(String, Json)> = Vec::new();
    let mut i: usize = 0;
    while i < fields.len()
        invariant
            i <= fields@.len(),
            out@.len() == i,
            forall|k: int|
                0 <= k < i ==> (#[trigger] out@[k]).0@ == fields@[k].0@ && out@[k].1@
                    == fields@[k].1@,
        decreases fields.len() - i,
    {
        out.push((fields[i].0.clone(), fields[i].1.duplicate()));
        i += 1;
    }
    assert(field_views(out@) =~= field_views(fields@));
    out
}

/// A reference token of a JSON pointer, read as it is written: `~1` stands for `/`, and
/// then `~0` for `~`.
pub open spec fn unescaped(token: Seq<char>) -> Seq<char> {
    replaced(replaced(token, "~1"@, "/"@), "~0"@, "~"@)
}

/// The reference tokens of the JSON pointer `pointer`: none for the empty pointer, and
/// for one that begins with `/`, what stands between its slashes. Anything else is no
/// pointer.
pub open spec fn pointer_tokens(pointer: Seq<char>) -> Option<Seq<Seq<char>>> {
    if pointer.len() == 0 {
        Some(Seq::empty())
    } else if pointer[0] != '/' {
        None
    } else {
        let raw = split_from(pointer, "/"@, 1);
        Some(Seq::new(raw.len(), |i: int| unescaped(raw[i])))
    }
}

/// The place in an array that a reference token names: decimal digits without a sign,
/// and without a leading zero unless the token is `0`.
pub open spec fn token_index(token: Seq<char>) -> Option<nat> {
    if token.len() == 0 || !all_digits(token) || (token[0] == '0' && token.len() != 1) {
        None
    } else {
        Some(digits_value(token))
    }
}

/// The part of `j` that the one reference token `token` names.
pub open spec fn child(j: JsonV, token: Seq<char>) -> Option<JsonV> {
    match j {
        JsonV::Object(fields) => field_value(fields, token),
        JsonV::Array(items) => match token_index(token) {
            Some(n) => if n < items.len() {
                Some(items[n as int])
            } else {
                None
            },
            None => None,
        },
        _ => None,
    }
}

/// The part of `j` that the reference tokens `tokens` lead to, one after the other.
pub open spec fn at_tokens(j: JsonV, tokens: Seq<Seq<char>>) -> Option<JsonV>
    decreases tokens.len(),
{
    if tokens.len() == 0 {
        Some(j)
    } else {
        match child(j, tokens[0]) {
            Some(c) => at_tokens(c, tokens.drop_first()),
            None => None,
        }
    }
}

/// `j` with `value` in the place that `tokens` lead to; `j` itself where they lead
/// nowhere.
pub open spec fn put_tokens(j: JsonV, tokens: Seq<Seq<char>>, value: JsonV) -> JsonV
    decreases tokens.len(),
{
    if tokens.len() == 0 {
        value
    } else {
        match j {
            JsonV::Object(fields) => match field_place(fields, tokens[0]) {
                Some(i) => if 0 <= i < fields.len() {
                    JsonV::Object(
                        fields.update(
                            i,
                            (fields[i].0, put_tokens(fields[i].1, tokens.drop_first(), value)),
                        ),
                    )
                } else {
                    j
                },
                None => j,
            },
            JsonV::Array(items) => match token_index(tokens[0]) {
                Some(n) => if n < items.len() {
                    JsonV::Array(
                        items.update(
                            n as int,
                            put_tokens(items[n as int], tokens.drop_first(), value),
                        ),
                    )
                } else {
                    j
                },
                None => j,
            },
            _ => j,
        }
    }
}

/// The part of `j` that the JSON pointer `pointer` names.
pub open spec fn pointed(j: JsonV, pointer: Seq<char>) -> Option<JsonV> {
    match pointer_tokens(pointer) {
        Some(tokens) => at_tokens(j, tokens),
        None => None,
    }
}

/// `j` with `value` in the place that the JSON pointer `pointer` names; `j` itself
/// where the pointer names no place in it.
pub open spec fn put(j: JsonV, pointer: Seq<char>, value: JsonV) -> JsonV {
    match pointer_tokens(pointer) {
        Some(tokens) => if at_tokens(j, tokens) is Some {
            put_tokens(j, tokens, value)
        } else {
            j
        },
        None => j,
    }
}

/// The reference tokens of the JSON pointer `pointer`.
pub fn tokens_of(pointer: &str) -> (r: Option<Vec<String>>)
    ensures
        match r {
            Some(tokens) => pointer_tokens(pointer@) == Some(string_views(tokens@)),
            None => pointer_tokens(pointer@) is None,
        },
{
    let chars = chars_of(pointer);
    if chars.len() == 0 {
        let tokens: Vec<String> = Vec::new();
        assert(string_views(tokens@) =~= Seq::<Seq<char>>::empty());
        return Some(tokens);
    }
    if chars[0] != '/' {
        return None;
    }
    let sep = chars_of("/");
    proof {
        reveal_strlit("/");
    }
    let raw = split(&chars, &sep, 1);
    let mut tokens: Vec<String> = Vec::new();
    let mut i: usize = 0;
    while i < raw.len()
        invariant
            i <= raw@.len(),
            tokens@.len() == i,
            forall|k: int| 0 <= k < i ==> (#[trigger] tokens@[k])@ == unescaped(raw@[k]@),
        decreases raw.len() - i,
    {
        let slash = replace_all(raw[i].as_str(), "~1", "/");
        let token = replace_all(slash.as_str(), "~0", "~");
        tokens.push(token);
        i += 1;
    }
    assert(string_views(tokens@) =~= Seq::new(
        string_views(raw@).len(),
        |i: int| unescaped(string_views(raw@)[i]),
    ));
    Some(tokens)
}

/// The place in an array that the reference token `token` names, where a `usize` holds
/// it.
pub fn index_of_token(token: &str) -> (r: Option<usize>)
    ensures
        match r {
            Some(n) => token_index(token@) == Some(n as nat),
            None => token_index(token@) matches Some(n) ==> n > usize::MAX,
        },
{
    let chars = chars_of(token);
    if chars.len() == 0 {
        return None;
    }
    if chars[0] == '0' && chars.len() != 1 {
        return None;
    }
    let mut acc: usize = 0;
    let mut i: usize = 0;
    assert(chars@.take(0) =~= Seq::<char>::empty());
    while i < chars.len()
        invariant
            i <= chars@.len(),
            chars@ == token@,
            all_digits(chars@.take(i as int)),
            acc == digits_value(chars@.take(i as int)),
        decreases chars.len() - i,
    {
        let c = chars[i];
        if c < '0' || c > '9' {
            assert(!is_digit(chars@[i as int]));
            return None;
        }
        let d: usize = (c as u32 - '0' as u32) as usize;
        proof {
            assert(chars@.take(i + 1).drop_last() == chars@.take(i as int));
            assert(chars@.take(i + 1).last() == c);
            crate::text::lemma_digits_value_grows(chars@, i + 1);
            assert forall|k: int| 0 <= k < chars@.take(i + 1).len() implies is_digit(
                #[trigger] chars@.take(i + 1)[k],
            ) by {
                if k < i {
                    assert(chars@.take(i as int)[k] == chars@.take(i + 1)[k]);
                }
            }
        }
        if acc > (usize::MAX - d) / 10 {
            assert(digits_value(chars@.take(i + 1)) == acc * 10 + d);
            return None;
        }
        acc = acc * 10 + d;
        i += 1;
    }
    assert(chars@.take(chars@.len() as int) == chars@);
    Some(acc)
}

impl Json {
    /// Whether the reference tokens of `tokens` from `from` on lead to a part of the
    /// document.
    fn leads(&self, tokens: &Vec<String>, from: usize) -> (r: bool)
        requires
            from <= tokens@.len(),
        ensures
            r == (at_tokens(self@, string_views(tokens@).skip(from as int)) is Some),
        decreases tokens@.len() - from,
    {
        let ghost rest = string_views(tokens@).skip(from as int);
        if from == tokens.len() {
            return true;
        }
        assert(rest[0] == tokens@[from as int]@);
        assert(rest.drop_first() =~= string_views(tokens@).skip(from + 1));
        let token = tokens[from].as_str();
        match self {
            Json::Object(_) => match self.get(token) {
                Some(c) => {
                    assert(child(self@, rest[0]) == Some(c@));
                    c.leads(tokens, from + 1)
                },
                None => {
                    assert(child(self@, rest[0]) is None);
                    false
                },
            },
            Json::Array(items) => {
                let count = items.len();
                match index_of_token(token) {
                    Some(n) => if n < count {
                        assert(json_views(items@)[n as int] == items@[n as int]@);
                        assert(child(self@, rest[0]) == Some(items@[n as int]@));
                        items[n].leads(tokens, from + 1)
                    } else {
                        assert(child(self@, rest[0]) is None);
                        false
                    },
                    None => {
                        assert(child(self@, rest[0]) is None);
                        false
                    },
                }
            },
            _ => {
                assert(child(self@, rest[0]) is None);
                false
            },
        }
    }

    /// Puts `value` in the place that the reference tokens of `tokens` from `from` on
    /// lead to. A document in which they lead nowhere stays as it is.
    fn put_tokens(self, tokens: &Vec<String>, from: usize, value: Json) -> (r: Json)
        requires
            from <= tokens@.len(),
        ensures
            r@ == put_tokens(self@, string_views(tokens@).skip(from as int), value@),
        decreases tokens@.len() - from,
    {
        let ghost rest = string_views(tokens@).skip(from as int);
        if from == tokens.len() {
            return value;
        }
        assert(rest[0] == tokens@[from as int]@);
        assert(rest.drop_first() =~= string_views(tokens@).skip(from + 1));
        let token = tokens[from].as_str();
        match self {
            Json::Object(fields) => {
                let mut fields = fields;
                let ghost before = field_views(fields@);
                let mut i: usize = 0;
                while i < fields.len()
                    invariant
                        i <= fields@.len(),
                        from < tokens@.len(),
                        tokens@.len() <= usize::MAX,
                        rest == string_views(tokens@).skip(from as int),
                        rest[0] == token@,
                        rest.drop_first() == string_views(tokens@).skip(from + 1),
                        before == field_views(fields@),
                        self@ == JsonV::Object(before),
                        forall|k: int| 0 <= k < i ==> (#[trigger] before[k]).0 != token@,
                    decreases fields.len() - i,
                {
                    if str_eq(fields[i].0.as_str(), token) {
                        proof {
                            lemma_field_place_found(before, token@, i as int);
                        }
                        let (name, old_value) = fields.remove(i);
                        let new_value = old_value.put_tokens(tokens, from + 1, value);
                        fields.insert(i, (name, new_value));
                        assert(field_views(fields@) =~= before.update(
                            i as int,
                            (
                                before[i as int].0,
                                put_tokens(before[i as int].1, rest.drop_first(), value@),
                            ),
                        ));
                        return Json::Object(fields);
                    }
                    i += 1;
                }
                proof {
                    lemma_field_place_missing(before, token@);
                }
                Json::Object(fields)
            },
            Json::Array(items) => {
                let mut items = items;
                let count = items.len();
                match index_of_token(token) {
                    Some(n) => {
                        if n < count {
                            let ghost before = json_views(items@);
                            let old_value = items.remove(n);
                            let new_value = old_value.put_tokens(tokens, from + 1, value);
                            items.insert(n, new_value);
                            assert(json_views(items@) =~= before.update(
                                n as int,
                                put_tokens(before[n as int], rest.drop_first(), value@),
                            ));
                        }
                        Json::Array(items)
                    },
                    None => Json::Array(items),
                }
            },
            other => other,
        }
    }

    /// Puts `value` in the place that the JSON pointer `pointer` names, and says whether
    /// the pointer names a place in the document. Where it names none, the document
    /// stays as it is.
    pub fn put(self, pointer: &str, value: Json) -> (r: (Json, bool))
        ensures
            r.1 == (pointed(self@, pointer@) is Some),
            r.0@ == put(self@, pointer@, value@),
    {
        match tokens_of(pointer) {
            Some(tokens) => {
                assert(string_views(tokens@).skip(0) =~= string_views(tokens@));
                if self.leads(&tokens, 0) {
                    (self.put_tokens(&tokens, 0, value), true)
                } else {
                    (self, false)
                }
            },
            None => (self, false),
        }
    }
}

/// The texts of the items of an array of strings; nothing for any other document.
pub open spec fn texts_before(items: Seq<JsonV>, upto: int) -> Option<Seq<Seq<char>>>
    decreases upto,
{
    if upto <= 0 {
        Some(Seq::empty())
    } else {
        match (texts_before(items, upto - 1), items[upto - 1].text()) {
            (Some(before), Some(text)) => Some(before.push(text)),
            _ => None,
        }
    }
}

/// The texts of the items of an array of strings; nothing for any other document.
pub open spec fn texts_of(value: JsonV) -> Option<Seq<Seq<char>>> {
    match value.items() {
        Some(items) => texts_before(items, items.len() as int),
        None => None,
    }
}

proof fn lemma_texts_before_fails(items: Seq<JsonV>, at: int, upto: int)
    requires
        at <= upto,
        texts_before(items, at) is None,
    ensures
        texts_before(items, upto) is None,
    decreases upto - at,
{
    if at < upto {
        lemma_texts_before_fails(items, at, upto - 1);
    }
}

/// The document `a` with the document `b` laid over it: where both are objects, each
/// field of `b` that is not `null` is laid over the field of that name of `a`, which
/// starts out as `null` where `a` has none; anything else gives way to `b`.
pub open spec fn merged(a: JsonV, b: JsonV) -> JsonV
    decreases b,
{
    match (a, b) {
        (JsonV::Object(_), JsonV::Object(over)) => merged_fields(a, over, over.len() as int),
        _ => b,
    }
}

/// The object `a` with the fields of `over` before `upto` laid over it, one after the
/// other.
pub open spec fn merged_fields(a: JsonV, over: Seq<(Seq<char>, JsonV)>, upto: int) -> JsonV
    decreases over, upto,
{
    if upto <= 0 || upto > over.len() {
        a
    } else {
        let before = merged_fields(a, over, upto - 1);
        let (key, value) = over[upto - 1];
        if value is Null {
            before
        } else {
            before.with_field(key, merged(before.member(key), value))
        }
    }
}

impl Json {
    /// The texts of the items of a document that is an array of strings.
    pub fn strings(&self) -> (r: Option<Vec<String>>)
        ensures
            match r {
                Some(texts) => texts_of(self@) == Some(string_views(texts@)),
                None => texts_of(self@) is None,
            },
    {
        let items = match self.as_array() {
            Some(items) => items,
            None => {
                return None;
            },
        };
        let mut out: Vec<String> = Vec::new();
        let mut i: usize = 0;
        assert(string_views(out@) =~= Seq::<Seq<char>>::empty());
        while i < items.len()
            invariant
                i <= items@.len(),
                self@.items() == Some(json_views(items@)),
                texts_before(json_views(items@), i as int) == Some(string_views(out@)),
            decreases items.len() - i,
        {
            assert(json_views(items@)[i as int] == items@[i as int]@);
            match items[i].as_str() {
                Some(text) => {
                    let ghost before = string_views(out@);
                    out.push(text.to_owned());
                    assert(string_views(out@) =~= before.push(text@));
                },
                None => {
                    assert(texts_before(json_views(items@), i + 1) is None);
                    proof {
                        lemma_texts_before_fails(json_views(items@), i + 1, items@.len() as int);
                    }
                    return None;
                },
            }
            i += 1;
        }
        Some(out)
    }

    /// Lays the document `other` over this one.
    pub fn merge(self, other: Json) -> (r: Json)
        ensures
            r@ == merged(self@, other@),
        decreases other,
    {
        if !self.is_object() {
            return other;
        }
        match other {
            Json::Object(over) => {
                let mut a = self;
                let ghost start = a@;
                let ghost all = field_views(over@);
                let mut queue = over;
                let ghost mut done: int = 0;
                while queue.len() > 0
                    invariant
                        0 <= done <= all.len(),
                        done + queue@.len() == all.len(),
                        field_views(queue@) == all.skip(done),
                        start is Object,
                        a@ is Object,
                        a@ == merged_fields(start, all, done),
                        forall|k: int|
                            0 <= k < queue@.len() ==> decreases_to!(other => (#[trigger] queue@[k]).1),
                    decreases queue@.len(),
                {
                    let ghost rest = field_views(queue@);
                    let (key, value) = queue.remove(0);
                    assert(rest[0] == (key@, value@));
                    assert(all[done] == rest[0]);
                    assert(field_views(queue@) =~= rest.drop_first());
                    assert(rest.drop_first() =~= all.skip(done + 1));
                    // Keep entries that are not in the other document undisturbed.
                    if !value.is_null() {
                        let below = match a.get(key.as_str()) {
                            Some(v) => v.duplicate(),
                            None => Json::Null,
                        };
                        let laid = below.merge(value);
                        a = a.with_field(key.as_str(), laid);
                    }
                    proof {
                        done = done + 1;
                    }
                }
                a
            },
            other => other,
        }
    }
}

} // verus!
