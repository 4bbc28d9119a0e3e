//! The calls into `serde_json`: reading and writing the text of a JSON value.
use crate::json::{
    copy_number, fields_view, json_compact, json_of, json_parse, json_pretty, json_view,
    lemma_list_view, number_view, reads_as, storable, views, Json, JsonView,
};
use crate::text::same;
use vstd::prelude::*;

verus! {

/// One level of a `serde_json::Value`, taken apart.
enum Node {
    Null,
    Bool(bool),
    Number(serde_json::Number),
    Text(String),
    List(Vec<serde_json::Value>),
    Object(Vec<(String, serde_json::Value)>),
}

/// One level of a `serde_json::Value`, to be put together.
enum Parts {
    Null,
    Bool(bool),
    Uint(u64),
    Sint(i64),
    Number(serde_json::Number),
    Text(String),
    List(Vec<serde_json::Value>),
    Object(Vec<(String, serde_json::Value)>),
}

/// The object that a list of keys and values makes, when a later key replaces an equal earlier one.
pub open spec fn value_fields(fields: Seq<(String, serde_json::Value)>) -> Map<
    Seq<char>,
    JsonView,
>
    decreases fields.len(),
{
    if fields.len() == 0 {
        Map::empty()
    } else {
        value_fields(fields.drop_last()).insert(fields.last().0@, json_of(fields.last().1))
    }
}

/// The keys of a list of keys and values are pairwise different.
pub open spec fn distinct_keys(fields: Seq<(String, serde_json::Value)>) -> bool {
    forall|i: int, j: int|
        0 <= i < j < fields.len() ==> #[trigger] fields[i].0@ != #[trigger] fields[j].0@
}

/// Takes one level of a `serde_json::Value` apart, variant by variant. An object hands out its
/// fields through `into_iter`, each key once.
#[verifier::external_body]
fn open_value(v: serde_json::Value) -> (n: Node)
    ensures
        match n {
            Node::Null => json_of(v) == JsonView::Null,
            Node::Bool(b) => json_of(v) == JsonView::Bool(b),
            Node::Number(n) => json_of(v) == number_view(n),
            Node::Text(s) => json_of(v) == JsonView::Text(s@),
            Node::List(vs) => json_of(v) == JsonView::List(
                Seq::new(vs@.len(), |i: int| json_of(vs@[i])),
            ),
            Node::Object(fs) => json_of(v) == JsonView::Object(value_fields(fs@)) && distinct_keys(
                fs@,
            ),
        },
{
    match v {
        serde_json::Value::Null => Node::Null,
        serde_json::Value::Bool(b) => Node::Bool(b),
        serde_json::Value::Number(n) => Node::Number(n),
        serde_json::Value::String(s) => Node::Text(s),
        serde_json::Value::Array(a) => Node::List(a),
        serde_json::Value::Object(m) => Node::Object(m.into_iter().collect()),
    }
}

/// Puts one level of a `serde_json::Value` together, variant by variant. An object collects its
/// fields, whose keys are pairwise different, from an iterator.
#[verifier::external_body]
fn seal_value(p: Parts) -> (v: serde_json::Value)
    requires
        match p {
            Parts::Object(fs) => distinct_keys(fs@),
            _ => true,
        },
    ensures
        match p {
            Parts::Null => json_of(v) == JsonView::Null,
            Parts::Bool(b) => json_of(v) == JsonView::Bool(b),
            Parts::Uint(n) => json_of(v) == JsonView::Int(n as int),
            Parts::Sint(n) => json_of(v) == JsonView::Int(n as int),
            Parts::Number(n) => json_of(v) == number_view(n),
            Parts::Text(s) => json_of(v) == JsonView::Text(s@),
            Parts::List(vs) => json_of(v) == JsonView::List(
                Seq::new(vs@.len(), |i: int| json_of(vs@[i])),
            ),
            Parts::Object(fs) => json_of(v) == JsonView::Object(value_fields(fs@)),
        },
{
    match p {
        Parts::Null => serde_json::Value::Null,
        Parts::Bool(b) => serde_json::Value::Bool(b),
        Parts::Uint(n) => serde_json::Value::from(n),
        Parts::Sint(n) => serde_json::Value::from(n),
        Parts::Number(n) => serde_json::Value::Number(n),
        Parts::Text(s) => serde_json::Value::String(s),
        Parts::List(vs) => serde_json::Value::Array(vs),
        Parts::Object(fs) => serde_json::Value::Object(fs.into_iter().collect()),
    }
}

proof fn lemma_value_field(fields: Seq<(String, serde_json::Value)>, i: int)
    requires
        0 <= i < fields.len(),
        distinct_keys(fields),
    ensures
        value_fields(fields).dom().finite(),
        value_fields(fields).dom().contains(fields[i].0@),
        value_fields(fields)[fields[i].0@] == json_of(fields[i].1),
    decreases fields.len(),
{
    lemma_value_fields_finite(fields);
    if i < fields.len() - 1 {
        lemma_value_field(fields.drop_last(), i);
        assert(fields.drop_last()[i] == fields[i]);
        assert(fields[i].0@ != fields[fields.len() - 1].0@);
    }
}

proof fn lemma_value_fields_finite(fields: Seq<(String, serde_json::Value)>)
    ensures
        value_fields(fields).dom().finite(),
    decreases fields.len(),
{
    if fields.len() > 0 {
        lemma_value_fields_finite(fields.drop_last());
    }
}

/// Converts a `serde_json::Value` whole.
pub fn from_value(v: serde_json::Value) -> (j: Json)
    ensures
        j@ == json_of(v),
    decreases json_of(v),
{
    match open_value(v) {
        Node::Null => Json::Null,
        Node::Bool(b) => Json::Bool(b),
        Node::Number(n) => Json::Number(n),
        Node::Text(s) => Json::Text(s),
        Node::List(vs) => {
            let mut rest = vs;
            let ghost all = rest@;
            let mut back: Vec<Json> = Vec::new();
            while rest.len() > 0
                invariant
                    rest@.len() + back@.len() == all.len(),
                    rest@ == all.subrange(0, rest@.len() as int),
                    json_of(v) == JsonView::List(Seq::new(all.len(), |i: int| json_of(all[i]))),
                    forall|i: int|
                        0 <= i < back@.len() ==> json_view(#[trigger] back@[i]) == json_of(all[all.len() - 1 - i]),
                decreases rest@.len(),
            {
                let item = rest.pop().unwrap();
                let ghost views = Seq::new(all.len(), |i: int| json_of(all[i]));
                assert(item == all[rest@.len() as int]);
                assert(views[rest@.len() as int] == json_of(item));
                assert(decreases_to!(json_of(v) => json_of(v)->List_0));
                assert(decreases_to!(views => views[rest@.len() as int]));
                assert(decreases_to!(json_of(v) => json_of(item)));
                back.push(from_value(item));
            }
            let items = reversed(back);
            let j = Json::List(items);
            assert(j@ == json_of(v)) by {
                assert(j@->List_0 =~= json_of(v)->List_0);
            }
            j
        },
        Node::Object(fs) => {
            let mut rest = fs;
            let ghost all = rest@;
            let mut back: Vec<(String, Json)> = Vec::new();
            while rest.len() > 0
                invariant
                    rest@.len() + back@.len() == all.len(),
                    rest@ == all.subrange(0, rest@.len() as int),
                    distinct_keys(all),
                    json_of(v) == JsonView::Object(value_fields(all)),
                    forall|i: int| #![trigger back@[i]]
                        0 <= i < back@.len() ==> json_view(back@[i].1) == json_of(all[all.len() - 1 - i].1)
                        && back@[i].0 == all[all.len() - 1 - i].0,
                decreases rest@.len(),
            {
                let (key, item) = rest.pop().unwrap();
                proof {
                    lemma_value_field(all, rest@.len() as int);
                    let m = value_fields(all);
                    assert(decreases_to!(json_of(v) => json_of(v)->Object_0));
                    assert(decreases_to!(m => m[key@]));
                    assert(decreases_to!(json_of(v) => json_of(item)));
                }
                back.push((key, from_value(item)));
            }
            let fields = reversed(back);
            proof {
                lemma_same_fields(fields@, all);
            }
            Json::Object(fields)
        },
    }
}

proof fn lemma_same_fields(a: Seq<(String, Json)>, b: Seq<(String, serde_json::Value)>)
    requires
        a.len() == b.len(),
        forall|i: int| #![trigger a[i]]
            0 <= i < a.len() ==> a[i].0 == b[i].0 && json_view(a[i].1) == json_of(b[i].1),
    ensures
        fields_view(a) == value_fields(b),
    decreases a.len(),
{
    if a.len() > 0 {
        lemma_same_fields(a.drop_last(), b.drop_last());
    }
}

fn reversed<T>(v: Vec<T>) -> (r: Vec<T>)
    ensures
        r@ == v@.reverse(),
{
    let mut rest = v;
    let ghost all = v@;
    let mut r: Vec<T> = Vec::new();
    while rest.len() > 0
        invariant
            rest@.len() + r@.len() == all.len(),
            rest@ == all.subrange(0, rest@.len() as int),
            forall|i: int| 0 <= i < r@.len() ==> #[trigger] r@[i] == all[all.len() - 1 - i],
        decreases rest@.len(),
    {
        let x = rest.pop().unwrap();
        r.push(x);
    }
    r
}

/// Of two fields with one key the later one counts.
proof fn lemma_field_before(f: (String, Json), rest: Seq<(String, Json)>)
    ensures
        fields_view(seq![f] + rest) == if fields_view(rest).dom().contains(f.0@) {
            fields_view(rest)
        } else {
            fields_view(rest).insert(f.0@, json_view(f.1))
        },
    decreases rest.len(),
{
    let all = seq![f] + rest;
    if rest.len() == 0 {
        assert(all.drop_last() =~= seq![]);
        assert(all.last() == f);
        assert(fields_view(all.drop_last()) == Map::<Seq<char>, JsonView>::empty());
    } else {
        lemma_field_before(f, rest.drop_last());
        assert(all.drop_last() =~= seq![f] + rest.drop_last());
        assert(all.last() == rest.last());
        assert(fields_view(all) =~= if fields_view(rest).dom().contains(f.0@) {
            fields_view(rest)
        } else {
            fields_view(rest).insert(f.0@, json_view(f.1))
        });
    }
}

proof fn lemma_value_keys(fields: Seq<(String, serde_json::Value)>, key: Seq<char>)
    ensures
        value_fields(fields).dom().contains(key) <==> exists|i: int|
            0 <= i < fields.len() && #[trigger] fields[i].0@ == key,
    decreases fields.len(),
{
    if fields.len() > 0 {
        let init = fields.drop_last();
        lemma_value_keys(init, key);
        if fields.last().0@ == key {
            assert(fields[fields.len() - 1].0@ == key);
        } else if value_fields(init).dom().contains(key) {
            let i = choose|i: int| 0 <= i < init.len() && #[trigger] init[i].0@ == key;
            assert(fields[i].0@ == key);
        } else {
            assert forall|i: int| 0 <= i < fields.len() implies #[trigger] fields[i].0@ != key by {
                if i < init.len() {
                    assert(init[i].0@ != key);
                }
            }
        }
    }
}

fn has_key(fields: &[(String, serde_json::Value)], key: &str) -> (r: bool)
    ensures
        r == exists|i: int| 0 <= i < fields@.len() && #[trigger] fields@[i].0@ == key@,
{
    for i in 0..fields.len()
        invariant
            forall|k: int| 0 <= k < i ==> #[trigger] fields@[k].0@ != key@,
    {
        if same(fields[i].0.as_str(), key) {
            assert(fields@[i as int].0@ == key@);
            return true;
        }
    }
    false
}

/// Converts a JSON value to a `serde_json::Value` whole.
pub fn to_value(j: &Json) -> (v: serde_json::Value)
    ensures
        json_of(v) == j@,
    decreases j,
{
    broadcast use lemma_list_view;

    match j {
        Json::Null => seal_value(Parts::Null),
        Json::Bool(b) => seal_value(Parts::Bool(*b)),
        Json::Uint(n) => seal_value(Parts::Uint(*n)),
        Json::Sint(n) => seal_value(Parts::Sint(*n)),
        Json::Number(n) => seal_value(Parts::Number(copy_number(n))),
        Json::Text(s) => seal_value(Parts::Text(s.clone())),
        Json::List(items) => {
            let mut out: Vec<serde_json::Value> = Vec::new();
            for i in 0..items.len()
                invariant
                    *j == Json::List(*items),
                    out@.len() == i,
                    forall|k: int|
                        0 <= k < i ==> json_of(#[trigger] out@[k]) == json_view(items@[k]),
            {
                assert(decreases_to!(*j => j->List_0));
                assert(decreases_to!(*items => items@));
                out.push(to_value(&items[i]));
            }
            assert(Seq::new(out@.len(), |i: int| json_of(out@[i])) =~= views(items@));
            seal_value(Parts::List(out))
        },
        Json::Object(fields) => {
            let mut out: Vec<(String, serde_json::Value)> = Vec::new();
            let mut i: usize = fields.len();
            assert(fields@.skip(i as int) =~= seq![]);
            while i > 0
                invariant
                    *j == Json::Object(*fields),
                    i <= fields@.len(),
                    distinct_keys(out@),
                    value_fields(out@) == fields_view(fields@.skip(i as int)),
                decreases i,
            {
                i = i - 1;
                let ghost before = out@;
                proof {
                    assert(decreases_to!(*j => j->Object_0));
                    assert(decreases_to!(*fields => fields@));
                    assert(decreases_to!(fields@ => fields@[i as int]));
                    assert(fields@.skip(i as int) =~= seq![fields@[i as int]] + fields@.skip(i + 1));
                    lemma_field_before(fields@[i as int], fields@.skip(i + 1));
                    lemma_value_keys(before, fields@[i as int].0@);
                }
                let key = &fields[i].0;
                if !has_key(&out, key.as_str()) {
                    out.push((key.clone(), to_value(&fields[i].1)));
                    assert(out@.drop_last() =~= before);
                }
            }
            assert(fields@.skip(0) =~= fields@);
            seal_value(Parts::Object(out))
        },
    }
}

/// `serde_json::from_str` reads the text of a JSON value, or fails with an error, which is kept as
/// its message.
#[verifier::external_body]
fn parse_value(text: &str) -> (r: Result<serde_json::Value, String>)
    ensures
        json_parse(text@) == match r {
            Ok(v) => Ok::<JsonView, Seq<char>>(json_of(v)),
            Err(e) => Err(e@),
        },
{
    serde_json::from_str::<serde_json::Value>(text).map_err(|e| e.to_string())
}

/// `serde_json::to_string_pretty` writes a value over several lines. It does not fail on a
/// `serde_json::Value`, whose keys are texts. Reading the text gives the value back where the
/// value nests within the reader's limit and holds no number with a fraction.
#[verifier::external_body]
fn pretty_value(v: &serde_json::Value) -> (r: String)
    ensures
        r@ == json_pretty(json_of(*v)),
        storable(json_of(*v)) ==> reads_as(r@, json_of(*v)),
{
    serde_json::to_string_pretty(v).unwrap_or_default()
}

/// `serde_json::to_string` writes a value on one line: a line break in a text is written as an
/// escape. What is said of `to_string_pretty` on failing and on reading holds here too.
#[verifier::external_body]
fn compact_value(v: &serde_json::Value) -> (r: String)
    ensures
        r@ == json_compact(json_of(*v)),
        !r@.contains('\n'),
        storable(json_of(*v)) ==> reads_as(r@, json_of(*v)),
{
    serde_json::to_string(v).unwrap_or_default()
}

/// Reads the text of a JSON value; an error is kept as its message.
pub fn parse(text: &str) -> (r: Result<Json, String>)
    ensures
        json_parse(text@) == match r {
            Ok(j) => Ok::<JsonView, Seq<char>>(j@),
            Err(e) => Err(e@),
        },
{
    match parse_value(text) {
        Ok(v) => Ok(from_value(v)),
        Err(e) => Err(e),
    }
}

/// Writes a JSON value over several lines.
pub fn pretty(j: &Json) -> (r: String)
    ensures
        r@ == json_pretty(j@),
        storable(j@) ==> reads_as(r@, j@),
{
    pretty_value(&to_value(j))
}

/// Writes a JSON value on one line.
pub fn compact(j: &Json) -> (r: String)
    ensures
        r@ == json_compact(j@),
        !r@.contains('\n'),
        storable(j@) ==> reads_as(r@, j@),
{
    compact_value(&to_value(j))
}

} // verus!
