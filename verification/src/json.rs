//! JSON values as the library holds them, and the calls into `serde_json`.
use crate::text::{same, texts};
use vstd::prelude::*;

verus! {

/// The value tree of `serde_json`. Opaque here; `json_of` names what it holds.
#[verifier::external_type_specification]
#[verifier::external_body]
pub struct ExValue(serde_json::Value);

/// The number of `serde_json`. Opaque here; `number_int` names the integer that it holds.
#[verifier::external_type_specification]
#[verifier::external_body]
pub struct ExNumber(serde_json::Number);

/// What a JSON value is, mathematically. A number that is no 64-bit integer stays opaque.
pub enum JsonView {
    Null,
    Bool(bool),
    Int(int),
    Float(serde_json::Number),
    Text(Seq<char>),
    List(Seq<JsonView>),
    Object(Map<Seq<char>, JsonView>),
}

/// A JSON value. Of two fields with one key the later one counts.
pub enum Json {
    Null,
    Bool(bool),
    Uint(u64),
    Sint(i64),
    Number(serde_json::Number),
    Text(String),
    List(Vec<Json>),
    Object(Vec<(String, Json)>),
}

/// What a `serde_json::Value` holds.
pub uninterp spec fn json_of(v: serde_json::Value) -> JsonView;

/// The integer that a `serde_json::Number` holds; none where it holds a number with a fraction.
pub uninterp spec fn number_int(n: serde_json::Number) -> Option<int>;

/// A number of `serde_json` as a JSON value.
pub open spec fn number_view(n: serde_json::Number) -> JsonView {
    match number_int(n) {
        Some(i) => JsonView::Int(i),
        None => JsonView::Float(n),
    }
}

/// What `serde_json::from_str` makes of a text: a value, or the message of its error.
pub uninterp spec fn json_parse(text: Seq<char>) -> Result<JsonView, Seq<char>>;

/// The text that `serde_json::to_string_pretty` writes.
pub uninterp spec fn json_pretty(v: JsonView) -> Seq<char>;

/// The text that `serde_json::to_string` writes.
pub uninterp spec fn json_compact(v: JsonView) -> Seq<char>;

/// The view of a JSON value.
pub open spec fn json_view(j: Json) -> JsonView
    decreases j,
{
    match j {
        Json::Null => JsonView::Null,
        Json::Bool(b) => JsonView::Bool(b),
        Json::Uint(n) => JsonView::Int(n as int),
        Json::Sint(n) => JsonView::Int(n as int),
        Json::Number(n) => number_view(n),
        Json::Text(s) => JsonView::Text(s@),
        Json::List(items) => JsonView::List(
            Seq::new(
                items@.len(),
                |i: int|
                    if 0 <= i < items@.len() {
                        json_view(items@[i])
                    } else {
                        JsonView::Null
                    },
            ),
        ),
        Json::Object(fields) => JsonView::Object(fields_view(fields@)),
    }
}

/// The object that a list of fields makes.
pub open spec fn fields_view(fields: Seq<(String, Json)>) -> Map<Seq<char>, JsonView>
    decreases fields,
{
    if fields.len() == 0 {
        Map::empty()
    } else {
        fields_view(fields.drop_last()).insert(fields.last().0@, json_view(fields.last().1))
    }
}

/// The views of a list of values.
pub open spec fn views(items: Seq<Json>) -> Seq<JsonView> {
    items.map_values(|j: Json| json_view(j))
}

impl View for Json {
    type V = JsonView;

    open spec fn view(&self) -> JsonView {
        json_view(*self)
    }
}

/// A list is the list of the views of its items.
pub broadcast proof fn lemma_list_view(items: Vec<Json>)
    ensures
        #[trigger] json_view(Json::List(items)) == JsonView::List(views(items@)),
{
    assert(json_view(Json::List(items))->List_0 =~= views(items@));
}

/// The list whose items are the texts of `list`.
pub open spec fn text_list(list: Seq<Seq<char>>) -> JsonView {
    JsonView::List(list.map_values(|s: Seq<char>| JsonView::Text(s)))
}

/// The texts among the items of a list.
pub open spec fn texts_among(items: Seq<JsonView>) -> Seq<Seq<char>>
    decreases items.len(),
{
    if items.len() == 0 {
        seq![]
    } else {
        match items.last() {
            JsonView::Text(s) => texts_among(items.drop_last()).push(s),
            _ => texts_among(items.drop_last()),
        }
    }
}

/// A value nests at most `depth` levels deep and holds no number but 64-bit integers.
pub open spec fn nests_within(v: JsonView, depth: nat) -> bool
    decreases depth,
{
    match v {
        JsonView::Null | JsonView::Bool(_) | JsonView::Text(_) => true,
        JsonView::Int(n) => -0x8000_0000_0000_0000 <= n <= 0xffff_ffff_ffff_ffff,
        JsonView::Float(_) => false,
        JsonView::List(items) => depth > 0 && forall|i: int|
            0 <= i < items.len() ==> nests_within(#[trigger] items[i], (depth - 1) as nat),
        JsonView::Object(m) => depth > 0 && m.dom().finite() && forall|k: Seq<char>|
            m.dom().contains(k) ==> nests_within(#[trigger] m[k], (depth - 1) as nat),
    }
}

/// A value that comes back the same when its text is read again. `serde_json` reads at most 127
/// levels, and a number with a fraction may come back as a neighbouring one.
pub open spec fn storable(v: JsonView) -> bool {
    nests_within(v, 127)
}

/// Reading `text` gives `v`.
pub open spec fn reads_as(text: Seq<char>, v: JsonView) -> bool {
    json_parse(text) == Ok::<JsonView, Seq<char>>(v)
}

impl JsonView {
    /// The field `key` of an object.
    pub open spec fn get(self, key: Seq<char>) -> Option<JsonView> {
        match self {
            JsonView::Object(m) => if m.dom().contains(key) {
                Some(m[key])
            } else {
                None
            },
            _ => None,
        }
    }

    /// The field `key` of an object, and `Null` where there is none.
    pub open spec fn at(self, key: Seq<char>) -> JsonView {
        match self.get(key) {
            Some(v) => v,
            None => JsonView::Null,
        }
    }

    /// The text of a text.
    pub open spec fn as_text(self) -> Option<Seq<char>> {
        match self {
            JsonView::Text(s) => Some(s),
            _ => None,
        }
    }

    /// The value of an integer that fits in 64 bits without a sign.
    pub open spec fn as_uint(self) -> Option<u64> {
        match self {
            JsonView::Int(n) => if 0 <= n <= u64::MAX {
                Some(n as u64)
            } else {
                None
            },
            _ => None,
        }
    }

    /// The value of an integer that fits in 64 bits with a sign.
    pub open spec fn as_sint(self) -> Option<i64> {
        match self {
            JsonView::Int(n) => if i64::MIN <= n <= i64::MAX {
                Some(n as i64)
            } else {
                None
            },
            _ => None,
        }
    }

    /// The value of a boolean.
    pub open spec fn as_bool(self) -> Option<bool> {
        match self {
            JsonView::Bool(b) => Some(b),
            _ => None,
        }
    }

    /// The items of a list.
    pub open spec fn as_list(self) -> Option<Seq<JsonView>> {
        match self {
            JsonView::List(items) => Some(items),
            _ => None,
        }
    }

    /// The field `key`, where it is a text.
    pub open spec fn text_at(self, key: Seq<char>) -> Option<Seq<char>> {
        self.at(key).as_text()
    }

    /// The field `key`, where it is a text, and `default` elsewhere.
    pub open spec fn text_or(self, key: Seq<char>, default: Seq<char>) -> Seq<char> {
        match self.text_at(key) {
            Some(s) => s,
            None => default,
        }
    }

    /// The field `key`, where it is a text that is not empty.
    pub open spec fn filled_at(self, key: Seq<char>) -> Option<Seq<char>> {
        match self.text_at(key) {
            Some(s) => if s.len() > 0 {
                Some(s)
            } else {
                None
            },
            None => None,
        }
    }

    /// The field `key`, where it is an integer without a sign.
    pub open spec fn uint_at(self, key: Seq<char>) -> Option<u64> {
        self.at(key).as_uint()
    }

    /// The field `key` as an integer between `lo` and `hi`, with `default` for what is none.
    pub open spec fn uint_clamped(self, key: Seq<char>, default: int, lo: int, hi: int) -> int {
        let n = match self.uint_at(key) {
            Some(n) => n as int,
            None => default,
        };
        if n < lo {
            lo
        } else if n > hi {
            hi
        } else {
            n
        }
    }

    /// The field `key`, where it is a boolean, and `default` elsewhere.
    pub open spec fn bool_or(self, key: Seq<char>, default: bool) -> bool {
        match self.at(key).as_bool() {
            Some(b) => b,
            None => default,
        }
    }

    /// The texts in the list at `key`; none where there is no list.
    pub open spec fn texts_at(self, key: Seq<char>) -> Seq<Seq<char>> {
        match self.at(key).as_list() {
            Some(items) => texts_among(items),
            None => seq![],
        }
    }

    /// An object with one more field, or with that field replaced.
    pub open spec fn with(self, key: Seq<char>, v: JsonView) -> JsonView {
        match self {
            JsonView::Object(m) => JsonView::Object(m.insert(key, v)),
            _ => self,
        }
    }
}

/// The object without fields.
pub open spec fn empty_object() -> JsonView {
    JsonView::Object(Map::empty())
}

/// A field that nests less deep leaves an object as deep as it was.
pub proof fn lemma_with_nests(v: JsonView, key: Seq<char>, field: JsonView, depth: nat)
    requires
        v is Object,
        depth > 0,
        nests_within(v, depth),
        nests_within(field, (depth - 1) as nat),
    ensures
        nests_within(v.with(key, field), depth),
{
    let m = v->Object_0;
    let out = m.insert(key, field);
    assert forall|k: Seq<char>| out.dom().contains(k) implies nests_within(
        #[trigger] out[k],
        (depth - 1) as nat,
    ) by {
        if k != key {
            assert(nests_within(m[k], (depth - 1) as nat));
        }
    }
}

/// A value that nests at most `a` levels deep nests at most `b` levels deep where `a <= b`.
pub proof fn lemma_nests_deeper(v: JsonView, a: nat, b: nat)
    requires
        a <= b,
        nests_within(v, a),
    ensures
        nests_within(v, b),
    decreases a,
{
    match v {
        JsonView::List(items) => {
            assert forall|i: int| 0 <= i < items.len() implies nests_within(
                #[trigger] items[i],
                (b - 1) as nat,
            ) by {
                lemma_nests_deeper(items[i], (a - 1) as nat, (b - 1) as nat);
            }
        },
        JsonView::Object(m) => {
            assert forall|k: Seq<char>| m.dom().contains(k) implies nests_within(
                #[trigger] m[k],
                (b - 1) as nat,
            ) by {
                lemma_nests_deeper(m[k], (a - 1) as nat, (b - 1) as nat);
            }
        },
        _ => {},
    }
}

/// The field of an object nests less deep than the object.
pub proof fn lemma_field_nests(v: JsonView, key: Seq<char>, depth: nat)
    requires
        depth > 0,
        nests_within(v, depth),
    ensures
        nests_within(v.at(key), (depth - 1) as nat),
        v.get(key) matches Some(f) ==> nests_within(f, (depth - 1) as nat),
{
}

/// `serde_json::Number::as_u64` gives the integer of a number that holds one and is not below
/// zero. The integers that a number holds are those of 64 bits, with or without a sign.
#[verifier::external_body]
fn number_uint(n: &serde_json::Number) -> (r: Option<u64>)
    ensures
        match r {
            Some(u) => number_int(*n) == Some(u as int),
            None => number_int(*n) is None || i64::MIN <= number_int(*n)->0 < 0,
        },
{
    n.as_u64()
}

/// `serde_json::Number::as_i64` gives the integer of a number that holds one within the range of
/// 64 bits with a sign.
#[verifier::external_body]
fn number_sint(n: &serde_json::Number) -> (r: Option<i64>)
    ensures
        match r {
            Some(i) => number_int(*n) == Some(i as int),
            None => number_int(*n) is None || i64::MAX < number_int(*n)->0 <= u64::MAX,
        },
{
    n.as_i64()
}

/// Cloning a `serde_json::Number` gives an equal number.
#[verifier::external_body]
pub(crate) fn copy_number(n: &serde_json::Number) -> (r: serde_json::Number)
    ensures
        r == *n,
{
    n.clone()
}

proof fn lemma_fields_push(fields: Seq<(String, Json)>, key: String, value: Json)
    ensures
        fields_view(fields.push((key, value))) == fields_view(fields).insert(
            key@,
            json_view(value),
        ),
{
    assert(fields.push((key, value)).drop_last() =~= fields);
}

/// Takes a text as a JSON value.
pub fn text(s: &str) -> (j: Json)
    ensures
        j@ == JsonView::Text(s@),
{
    Json::Text(s.to_owned())
}

/// Takes a list of texts as a JSON value.
pub fn text_items(list: &[String]) -> (j: Json)
    ensures
        j@ == text_list(texts(list@)),
{
    broadcast use lemma_list_view;

    let mut items: Vec<Json> = Vec::new();
    for i in 0..list.len()
        invariant
            items@.len() == i,
            forall|k: int|
                0 <= k < i ==> json_view(#[trigger] items@[k]) == JsonView::Text(list@[k]@),
    {
        items.push(Json::Text(list[i].clone()));
    }
    assert(views(items@) =~= text_list(texts(list@))->List_0);
    Json::List(items)
}

/// The object without fields.
pub fn object() -> (j: Json)
    ensures
        j@ == empty_object(),
{
    let fields: Vec<(String, Json)> = Vec::new();
    assert(fields_view(fields@) == Map::<Seq<char>, JsonView>::empty());
    Json::Object(fields)
}

impl Json {
    /// Gives an object one more field, or replaces that field. A value that is no object stays as
    /// it is.
    pub fn with(self, key: &str, value: Json) -> (j: Json)
        ensures
            j@ == self@.with(key@, value@),
    {
        match self {
            Json::Object(fields) => {
                let mut fields = fields;
                let key = key.to_owned();
                proof {
                    lemma_fields_push(fields@, key, value);
                }
                fields.push((key, value));
                Json::Object(fields)
            },
            other => other,
        }
    }

    /// The field `key` of an object.
    pub fn get(&self, key: &str) -> (r: Option<&Json>)
        ensures
            match r {
                Some(j) => self@.get(key@) == Some(j@),
                None => self@.get(key@) is None,
            },
    {
        match self {
            Json::Object(fields) => {
                let mut i: usize = fields.len();
                assert(fields@.take(i as int) =~= fields@);
                while i > 0
                    invariant
                        i <= fields@.len(),
                        self@ == JsonView::Object(fields_view(fields@)),
                        fields_view(fields@).dom().contains(key@) == fields_view(
                            fields@.take(i as int),
                        ).dom().contains(key@),
                        fields_view(fields@)[key@] == fields_view(fields@.take(i as int))[key@]
                            || !fields_view(fields@).dom().contains(key@),
                    decreases i,
                {
                    assert(fields@.take(i as int).drop_last() =~= fields@.take(i - 1));
                    assert(fields@.take(i as int).last() == fields@[i - 1]);
                    i = i - 1;
                    if same(fields[i].0.as_str(), key) {
                        return Some(&fields[i].1);
                    }
                }
                None
            },
            _ => None,
        }
    }

    /// The field `key`, where it is a text.
    pub fn text_at(&self, key: &str) -> (r: Option<&str>)
        ensures
            match r {
                Some(s) => self@.text_at(key@) == Some(s@),
                None => self@.text_at(key@) is None,
            },
    {
        match self.get(key) {
            Some(Json::Text(s)) => Some(s.as_str()),
            _ => None,
        }
    }

    /// The field `key`, where it is a text, and `default` elsewhere.
    pub fn text_or<'a>(&'a self, key: &str, default: &'a str) -> (r: &'a str)
        ensures
            r@ == self@.text_or(key@, default@),
    {
        match self.text_at(key) {
            Some(s) => s,
            None => default,
        }
    }

    /// The field `key`, where it is a text that is not empty.
    pub fn filled_at(&self, key: &str) -> (r: Option<&str>)
        ensures
            match r {
                Some(s) => self@.filled_at(key@) == Some(s@),
                None => self@.filled_at(key@) is None,
            },
    {
        match self.text_at(key) {
            Some(s) => if s.is_empty() {
                None
            } else {
                Some(s)
            },
            None => None,
        }
    }

    /// The field `key`, where it is an integer without a sign.
    pub fn uint_at(&self, key: &str) -> (r: Option<u64>)
        ensures
            r == self@.uint_at(key@),
    {
        match self.get(key) {
            Some(j) => j.as_uint(),
            None => None,
        }
    }

    /// The field `key` as an integer between `lo` and `hi`, with `default` for what is none.
    pub fn uint_clamped(&self, key: &str, default: u64, lo: u64, hi: u64) -> (r: u64)
        requires
            lo <= hi,
        ensures
            r == self@.uint_clamped(key@, default as int, lo as int, hi as int),
            lo <= r <= hi,
    {
        let n: u64 = match self.uint_at(key) {
            Some(n) => n,
            None => default,
        };
        if n < lo {
            lo
        } else if n > hi {
            hi
        } else {
            n
        }
    }

    /// The field `key`, where it is a boolean, and `default` elsewhere.
    pub fn bool_or(&self, key: &str, default: bool) -> (r: bool)
        ensures
            r == self@.bool_or(key@, default),
    {
        match self.get(key) {
            Some(Json::Bool(b)) => *b,
            _ => default,
        }
    }

    /// The items of the list at `key`.
    pub fn list_at(&self, key: &str) -> (r: Option<&Vec<Json>>)
        ensures
            match r {
                Some(items) => self@.at(key@).as_list() == Some(views(items@)),
                None => self@.at(key@).as_list() is None,
            },
    {
        broadcast use lemma_list_view;

        match self.get(key) {
            Some(Json::List(items)) => Some(items),
            _ => None,
        }
    }

    /// The texts in the list at `key`; none where there is no list.
    pub fn texts_at(&self, key: &str) -> (r: Vec<String>)
        ensures
            texts(r@) == self@.texts_at(key@),
    {
        let mut out: Vec<String> = Vec::new();
        if let Some(items) = self.list_at(key) {
            for i in 0..items.len()
                invariant
                    texts(out@) =~= texts_among(views(items@).take(i as int)),
            {
                assert(views(items@).take(i + 1).drop_last() =~= views(items@).take(i as int));
                let ghost before = texts(out@);
                if let Json::Text(s) = &items[i] {
                    out.push(s.clone());
                    assert(texts(out@) =~= before.push(s@));
                }
            }
            assert(views(items@).take(items@.len() as int) =~= views(items@));
        }
        out
    }

    /// The text of a text.
    pub fn as_text(&self) -> (r: Option<&str>)
        ensures
            match r {
                Some(s) => self@.as_text() == Some(s@),
                None => self@.as_text() is None,
            },
    {
        match self {
            Json::Text(s) => Some(s.as_str()),
            _ => None,
        }
    }

    /// The value of an integer that fits in 64 bits without a sign.
    pub fn as_uint(&self) -> (r: Option<u64>)
        ensures
            r == self@.as_uint(),
    {
        match self {
            Json::Uint(n) => Some(*n),
            Json::Sint(n) => if *n >= 0 {
                Some(*n as u64)
            } else {
                None
            },
            Json::Number(n) => number_uint(n),
            _ => None,
        }
    }

    /// The value of an integer that fits in 64 bits with a sign.
    pub fn as_sint(&self) -> (r: Option<i64>)
        ensures
            r == self@.as_sint(),
    {
        match self {
            Json::Uint(n) => if *n <= 0x7fff_ffff_ffff_ffff {
                Some(*n as i64)
            } else {
                None
            },
            Json::Sint(n) => Some(*n),
            Json::Number(n) => number_sint(n),
            _ => None,
        }
    }

    /// The value of a boolean.
    pub fn as_bool(&self) -> (r: Option<bool>)
        ensures
            r == self@.as_bool(),
    {
        match self {
            Json::Bool(b) => Some(*b),
            _ => None,
        }
    }

    /// The items of a list.
    pub fn as_list(&self) -> (r: Option<&Vec<Json>>)
        ensures
            match r {
                Some(items) => self@.as_list() == Some(views(items@)),
                None => self@.as_list() is None,
            },
    {
        broadcast use lemma_list_view;

        match self {
            Json::List(items) => Some(items),
            _ => None,
        }
    }

    /// The same value once more.
    pub fn copy(&self) -> (j: Json)
        ensures
            j@ == self@,
        decreases self,
    {
        broadcast use lemma_list_view;

        match self {
            Json::Null => Json::Null,
            Json::Bool(b) => Json::Bool(*b),
            Json::Uint(n) => Json::Uint(*n),
            Json::Sint(n) => Json::Sint(*n),
            Json::Number(n) => Json::Number(copy_number(n)),
            Json::Text(s) => Json::Text(s.clone()),
            Json::List(items) => {
                let mut out: Vec<Json> = Vec::new();
                for i in 0..items.len()
                    invariant
                        *self == Json::List(*items),
                        out@.len() == i,
                        forall|k: int|
                            0 <= k < i ==> json_view(#[trigger] out@[k]) == json_view(items@[k]),
                {
                    assert(decreases_to!(*self => self->List_0));
                    assert(decreases_to!(*items => items@));
                    out.push(items[i].copy());
                }
                assert(views(out@) =~= views(items@));
                Json::List(out)
            },
            Json::Object(fields) => {
                let mut out: Vec<(String, Json)> = Vec::new();
                assert(fields@.take(0) =~= seq![]);
                for i in 0..fields.len()
                    invariant
                        *self == Json::Object(*fields),
                        fields_view(out@) == fields_view(fields@.take(i as int)),
                {
                    assert(decreases_to!(*self => self->Object_0));
                    assert(decreases_to!(*fields => fields@));
                    assert(decreases_to!(fields@ => fields@[i as int]));
                    assert(fields@.take(i + 1).drop_last() =~= fields@.take(i as int));
                    let key = fields[i].0.clone();
                    let value = fields[i].1.copy();
                    proof {
                        lemma_fields_push(out@, key, value);
                    }
                    out.push((key, value));
                }
                assert(fields@.take(fields@.len() as int) =~= fields@);
                Json::Object(out)
            },
        }
    }

    /// The field `key` of an object, and `Null` where there is none.
    pub fn at(&self, key: &str) -> (j: Json)
        ensures
            j@ == self@.at(key@),
    {
        match self.get(key) {
            Some(j) => j.copy(),
            None => Json::Null,
        }
    }
}

/// A field that was given to an object is found in it, and the others are found as before.
pub proof fn law_field_is_found(v: JsonView, key: Seq<char>, field: JsonView, other: Seq<char>)
    requires
        v is Object,
    ensures
        v.with(key, field).get(key) == Some(field),
        other != key ==> v.with(key, field).get(other) == v.get(other),
{
}

/// A list of texts holds each text at its place.
pub proof fn law_text_list_items(list: Seq<Seq<char>>, i: int)
    requires
        0 <= i < list.len(),
    ensures
        text_list(list) is List,
        text_list(list)->List_0.len() == list.len(),
        text_list(list)->List_0[i] == JsonView::Text(list[i]),
{
}

/// The texts of a list of texts are that list.
pub proof fn law_texts_come_back(list: Seq<Seq<char>>)
    ensures
        texts_among(text_list(list)->List_0) == list,
    decreases list.len(),
{
    let items = text_list(list)->List_0;
    if list.len() > 0 {
        law_texts_come_back(list.drop_last());
        assert(items.drop_last() =~= text_list(list.drop_last())->List_0);
        assert(list.drop_last().push(list.last()) =~= list);
    } else {
        assert(texts_among(items) =~= list);
    }
}

/// Items of a list that are no texts are passed over, and the order of the texts stays.
pub proof fn law_texts_of_joined_lists(a: Seq<JsonView>, b: Seq<JsonView>, v: JsonView)
    ensures
        texts_among(a + b) == texts_among(a) + texts_among(b),
        !(v is Text) ==> texts_among(a.push(v)) == texts_among(a),
        texts_among(seq![]) == Seq::<Seq<char>>::empty(),
    decreases b.len(),
{
    assert(a.push(v).drop_last() =~= a);
    if b.len() == 0 {
        assert(a + b =~= a);
        assert(texts_among(a) + texts_among(b) =~= texts_among(a));
    } else {
        law_texts_of_joined_lists(a, b.drop_last(), v);
        assert((a + b).drop_last() =~= a + b.drop_last());
        assert(texts_among(a + b) =~= texts_among(a) + texts_among(b));
    }
}

/// A number within the bounds is taken as it is, one beyond them as the bound, and the default where
/// there is none.
pub proof fn law_clamped_number(v: JsonView, key: Seq<char>, default: int, lo: int, hi: int)
    requires
        lo <= default <= hi,
    ensures
        match v.get(key) {
            Some(JsonView::Int(n)) => if 0 <= n <= u64::MAX {
                &&& lo <= n <= hi ==> v.uint_clamped(key, default, lo, hi) == n
                &&& n < lo ==> v.uint_clamped(key, default, lo, hi) == lo
                &&& n > hi ==> v.uint_clamped(key, default, lo, hi) == hi
            } else {
                v.uint_clamped(key, default, lo, hi) == default
            },
            _ => v.uint_clamped(key, default, lo, hi) == default,
        },
{
}

/// What the fields of an object are read as: a text as a text, a boolean as a boolean, a number without
/// a sign as a number, and the default where there is no such field.
pub proof fn law_fields_by_kind(v: JsonView, key: Seq<char>, default: Seq<char>, flag: bool)
    ensures
        match v.get(key) {
            Some(JsonView::Text(t)) => v.text_or(key, default) == t && v.text_at(key) == Some(t) && (
            t.len() > 0 ==> v.filled_at(key) == Some(t)) && (t.len() == 0 ==> v.filled_at(
                key,
            ) is None),
            _ => v.text_or(key, default) == default && v.text_at(key) is None && v.filled_at(
                key,
            ) is None,
        },
        match v.get(key) {
            Some(JsonView::Bool(b)) => v.bool_or(key, flag) == b,
            _ => v.bool_or(key, flag) == flag,
        },
        match v.get(key) {
            Some(JsonView::Int(n)) => if 0 <= n <= u64::MAX {
                v.uint_at(key) == Some(n as u64)
            } else {
                v.uint_at(key) is None
            },
            _ => v.uint_at(key) is None,
        },
        match v.get(key) {
            Some(JsonView::List(items)) => v.texts_at(key) == texts_among(items),
            _ => v.texts_at(key).len() == 0,
        },
        match v.get(key) {
            Some(JsonView::Int(n)) => if i64::MIN <= n <= i64::MAX {
                v.at(key).as_sint() == Some(n as i64)
            } else {
                v.at(key).as_sint() is None
            },
            _ => v.at(key).as_sint() is None,
        },
{
}

} // verus!
