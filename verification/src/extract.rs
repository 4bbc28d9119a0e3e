//! Finding the tool call in what the model wrote.
use crate::codec::parse;
use crate::json::{json_parse, Json, JsonView};
use crate::split::slice_text;
use crate::text::{
    chars, find, find_from, find_last, has_prefix, lemma_find_from, lemma_rfind, occurs_at, rfind, trim, trimmed,
};
use vstd::prelude::*;

verus! {

/// A call of a tool.
pub struct ToolCall {
    pub name: String,
    pub input: Json,
}

/// The view of a call.
pub struct ToolCallView {
    pub name: Seq<char>,
    pub input: JsonView,
}

impl View for ToolCall {
    type V = ToolCallView;

    open spec fn view(&self) -> ToolCallView {
        ToolCallView { name: self.name@, input: self.input@ }
    }
}

// ---------------------------------------------------------------------------
// The last balanced object
// ---------------------------------------------------------------------------

/// What a character outside a string adds to the number of open braces.
pub open spec fn brace(c: char) -> int {
    if c == '{' {
        1
    } else if c == '}' {
        -1
    } else {
        0
    }
}

/// What is known of a piece of JSON at its end: how many braces are open, whether a string is, and
/// whether the next character of that string is escaped.
pub struct Scan {
    pub depth: int,
    pub in_string: bool,
    pub escaped: bool,
}

/// One more character. Within a string a brace is a character like any other.
pub open spec fn scan_char(t: Scan, c: char) -> Scan {
    if t.in_string {
        if t.escaped {
            Scan { escaped: false, ..t }
        } else if c == '\\' {
            Scan { escaped: true, ..t }
        } else if c == '"' {
            Scan { in_string: false, ..t }
        } else {
            t
        }
    } else if c == '"' {
        Scan { in_string: true, ..t }
    } else {
        Scan { depth: t.depth + brace(c), ..t }
    }
}

/// What is known at the end of a piece of JSON.
pub open spec fn scanned(s: Seq<char>) -> Scan
    decreases s.len(),
{
    if s.len() == 0 {
        Scan { depth: 0, in_string: false, escaped: false }
    } else {
        scan_char(scanned(s.drop_last()), s.last())
    }
}

/// The number of braces outside strings that a text opens and does not close.
pub open spec fn balance(s: Seq<char>) -> int {
    scanned(s).depth
}

/// The first `n` characters of a text end with a brace outside strings that closes the last open one.
pub open spec fn closes_at(s: Seq<char>, n: int) -> bool {
    s[n - 1] == '}' && !scanned(s.take(n - 1)).in_string && balance(s.take(n)) == 0
}

/// The first length from `from` on at which a text ends with a brace that closes the last open one.
pub open spec fn closing_from(s: Seq<char>, from: int) -> Option<int>
    decreases s.len() + 1 - from,
{
    if from < 1 || from > s.len() {
        None
    } else if closes_at(s, from) {
        Some(from)
    } else {
        closing_from(s, from + 1)
    }
}

/// The last part of a text that begins with `{"tool"` and runs to the brace that closes it.
pub open spec fn last_tool_object(s: Seq<char>) -> Option<Seq<char>> {
    match rfind(s, "{\"tool\""@) {
        None => None,
        Some(start) => {
            let rest = s.skip(start);
            match closing_from(rest, 1) {
                Some(n) => Some(rest.take(n)),
                None => None,
            }
        },
    }
}

proof fn lemma_closing_from(s: Seq<char>, from: int)
    requires
        1 <= from,
        forall|k: int| 1 <= k < from && k <= s.len() ==> !#[trigger] closes_at(s, k),
    ensures
        closing_from(s, from) matches Some(n) ==> {
            &&& from <= n <= s.len()
            &&& closes_at(s, n)
            &&& forall|k: int| 1 <= k < n ==> !#[trigger] closes_at(s, k)
        },
    decreases s.len() + 1 - from,
{
    if from <= s.len() && !closes_at(s, from) {
        lemma_closing_from(s, from + 1);
    }
}

proof fn lemma_open_inside(s: Seq<char>, n: int, k: int)
    requires
        0 < k < n <= s.len(),
        s[0] == '{',
        forall|j: int| 1 <= j < n ==> !#[trigger] closes_at(s, j),
    ensures
        balance(s.take(k)) > 0,
    decreases k,
{
    assert(s.take(k).drop_last() =~= s.take(k - 1));
    if k == 1 {
        assert(s.take(0) =~= seq![]);
        assert(!scanned(s.take(0)).in_string);
        assert(balance(s.take(0)) == 0);
    } else {
        lemma_open_inside(s, n, k - 1);
        assert(!closes_at(s, k));
    }
}

/// The part that is cut out begins at the last `{"tool"`, ends with a brace outside strings, closes
/// every brace that it opens outside strings, and closes the first one only at its end.
pub proof fn law_cut_is_balanced(s: Seq<char>)
    requires
        last_tool_object(s) is Some,
    ensures
        ({
            let part = last_tool_object(s)->0;
            &&& part.len() > 0
            &&& part[0] == '{'
            &&& part.last() == '}'
            &&& !scanned(part.drop_last()).in_string
            &&& balance(part) == 0
            &&& forall|k: int| 0 < k < part.len() ==> #[trigger] balance(part.take(k)) > 0
            &&& exists|start: int|
                {
                    &&& #[trigger] occurs_at(s, "{\"tool\""@, start)
                    &&& occurs_at(s, part, start)
                    &&& forall|j: int| start < j ==> !occurs_at(s, "{\"tool\""@, j)
                }
        }),
{
    reveal_strlit("{\"tool\"");
    let p = "{\"tool\""@;
    let start = rfind(s, p)->0;
    lemma_rfind(s, p);
    let rest = s.skip(start);
    lemma_closing_from(rest, 1);
    let n = closing_from(rest, 1)->0;
    let part = rest.take(n);
    assert(occurs_at(s, p, start));
    assert(s.subrange(start, start + p.len())[0] == p[0]);
    assert(rest[0] == '{');
    assert(part.drop_last() =~= rest.take(n - 1));
    assert forall|k: int| 0 < k < part.len() implies #[trigger] balance(part.take(k)) > 0 by {
        lemma_open_inside(rest, n, k);
        assert(part.take(k) =~= rest.take(k));
    }
    assert(s.subrange(start, start + part.len()) =~= part);
    assert(occurs_at(s, part, start));
}

/// Cuts out the last part of a text that begins with `{"tool"` and runs to the brace that closes it.
pub fn slice_last_balanced_tool_json(s: &str) -> (r: Option<String>)
    ensures
        match (r, last_tool_object(s@)) {
            (Some(p), Some(v)) => p@ == v,
            (None, None) => true,
            _ => false,
        },
{
    let cs = chars(s);
    let pattern = chars("{\"tool\"");
    let start: usize = match find_last(&cs, &pattern) {
        Some(i) => i,
        None => return None,
    };
    let ghost rest = s@.skip(start as int);
    proof {
        reveal_strlit("{\"tool\"");
        lemma_rfind(s@, pattern@);
        assert(occurs_at(s@, pattern@, start as int));
        assert(s@.subrange(start as int, start + pattern@.len())[0] == '{');
        assert(rest[0] == '{');
        assert(rest.take(0) =~= seq![]);
    }
    let mut depth: usize = 0;
    let mut in_string = false;
    let mut escaped = false;
    let mut i: usize = start;
    while i < cs.len()
        invariant
            cs@ == s@,
            start <= i <= cs@.len(),
            start < cs@.len(),
            rest == s@.skip(start as int),
            rest[0] == '{',
            scanned(rest.take(i - start)) == (Scan { depth: depth as int, in_string, escaped }),
            depth <= i - start,
            i > start ==> depth > 0,
            i == start ==> !in_string,
            rfind(s@, "{\"tool\""@) == Some(start as int),
            closing_from(rest, 1) == closing_from(rest, i - start + 1),
        decreases cs@.len() - i,
    {
        let c: char = cs[i];
        assert(rest[i - start] == c);
        assert(rest.take(i - start + 1).drop_last() =~= rest.take(i - start));
        assert(rest.take(i - start + 1).last() == c);
        if in_string {
            if escaped {
                escaped = false;
            } else if c == '\\' {
                escaped = true;
            } else if c == '"' {
                in_string = false;
            }
        } else if c == '"' {
            in_string = true;
        } else if c == '{' {
            depth = depth + 1;
        } else if c == '}' {
            depth = depth - 1;
            if depth == 0 {
                assert(closes_at(rest, i - start + 1));
                let r = slice_text(&cs, start, i + 1);
                assert(r@ =~= rest.take(i - start + 1));
                return Some(r);
            }
        }
        assert(!closes_at(rest, i - start + 1));
        i = i + 1;
    }
    None
}

// ---------------------------------------------------------------------------
// The last fenced block
// ---------------------------------------------------------------------------

/// The inside of the last fenced JSON block at or behind position `from`, and `last` where there is
/// none.
pub open spec fn last_fenced_from(s: Seq<char>, from: int, last: Option<Seq<char>>) -> Option<
    Seq<char>,
>
    decreases s.len() - from,
    via last_fenced_decreases
{
    match find_from(s, "```json"@, from) {
        None => last,
        Some(a) => match find_from(s, "```"@, a + 7) {
            None => last,
            Some(b) => last_fenced_from(s, b + 3, Some(trimmed(s.subrange(a + 7, b)))),
        },
    }
}

#[via_fn]
proof fn last_fenced_decreases(s: Seq<char>, from: int, last: Option<Seq<char>>) {
    reveal_strlit("```json");
    reveal_strlit("```");
    if let Some(a) = find_from(s, "```json"@, from) {
        lemma_find_from(s, "```json"@, from);
        lemma_find_from(s, "```"@, a + 7);
    }
}

/// The inside of the last fenced JSON block of a text, without white space at its ends.
pub open spec fn last_fenced(s: Seq<char>) -> Option<Seq<char>> {
    last_fenced_from(s, 0, None)
}

fn find_last_fenced(s: &str) -> (r: Option<String>)
    ensures
        match (r, last_fenced(s@)) {
            (Some(p), Some(v)) => p@ == v,
            (None, None) => true,
            _ => false,
        },
{
    let cs = chars(s);
    let open = chars("```json");
    let close = chars("```");
    proof {
        reveal_strlit("```json");
        reveal_strlit("```");
    }
    let n: usize = cs.len();
    let mut from: usize = 0;
    let mut last: Option<String> = None;
    loop
        invariant_except_break
            cs@ == s@,
            open@ == "```json"@,
            close@ == "```"@,
            open@.len() == 7,
            close@.len() == 3,
            n == cs@.len(),
            from <= n,
            last_fenced(s@) == last_fenced_from(
                s@,
                from as int,
                match last {
                    Some(l) => Some(l@),
                    None => None,
                },
            ),
        ensures
            match (last, last_fenced(s@)) {
                (Some(p), Some(v)) => p@ == v,
                (None, None) => true,
                _ => false,
            },
        decreases cs@.len() - from,
    {
        let a: usize = match find(&cs, &open, from) {
            Some(a) => a,
            None => {
                break;
            },
        };
        proof {
            lemma_find_from(s@, open@, from as int);
        }
        assert(occurs_at(s@, open@, a as int));
        let b: usize = match find(&cs, &close, a + 7) {
            Some(b) => b,
            None => {
                break;
            },
        };
        proof {
            lemma_find_from(s@, close@, a + 7);
        }
        let inner = trim(slice_text(&cs, a + 7, b).as_str());
        last = Some(inner);
        from = b + 3;
    }
    last
}

// ---------------------------------------------------------------------------
// The call
// ---------------------------------------------------------------------------

/// The call in a value: an object with the name of a tool, whose input may be missing.
pub open spec fn call_in(v: JsonView) -> Option<ToolCallView> {
    match v.text_at("tool"@) {
        Some(name) => Some(ToolCallView { name, input: v.at("input"@) }),
        None => None,
    }
}

/// The call in a value that may be missing.
pub open spec fn call_in_optional(v: Option<JsonView>) -> Option<ToolCallView> {
    match v {
        Some(v) => call_in(v),
        None => None,
    }
}

/// The first call among the values of the whole text, of its last fenced block, and of its last
/// balanced object.
pub open spec fn first_call(
    whole: Option<JsonView>,
    fenced: Option<JsonView>,
    cut: Option<JsonView>,
) -> Option<ToolCallView> {
    if call_in_optional(whole) is Some {
        call_in_optional(whole)
    } else if call_in_optional(fenced) is Some {
        call_in_optional(fenced)
    } else {
        call_in_optional(cut)
    }
}

/// The view of a value that may be missing.
pub open spec fn optional_view(v: Option<Json>) -> Option<JsonView> {
    match v {
        Some(j) => Some(j@),
        None => None,
    }
}

/// A call is the expected one.
pub open spec fn call_is(r: Option<ToolCall>, expected: Option<ToolCallView>) -> bool {
    match (r, expected) {
        (Some(c), Some(v)) => c@ == v,
        (None, None) => true,
        _ => false,
    }
}

fn take_call(v: &Option<Json>) -> (r: Option<ToolCall>)
    ensures
        call_is(r, call_in_optional(optional_view(*v))),
{
    match v {
        None => None,
        Some(j) => match j.text_at("tool") {
            Some(name) => Some(ToolCall { name: name.to_owned(), input: j.at("input") }),
            None => None,
        },
    }
}

/// Takes the first call among three values.
pub fn choose_call(whole: &Option<Json>, fenced: &Option<Json>, cut: &Option<Json>) -> (r: Option<
    ToolCall,
>)
    ensures
        call_is(
            r,
            first_call(optional_view(*whole), optional_view(*fenced), optional_view(*cut)),
        ),
{
    match take_call(whole) {
        Some(c) => Some(c),
        None => match take_call(fenced) {
            Some(c) => Some(c),
            None => take_call(cut),
        },
    }
}

/// The value of a text; none where it cannot be read.
pub open spec fn value_of(s: Seq<char>) -> Option<JsonView> {
    match json_parse(s) {
        Ok(v) => Some(v),
        Err(_) => None,
    }
}

/// The value of a text that may be missing.
pub open spec fn value_of_optional(s: Option<Seq<char>>) -> Option<JsonView> {
    match s {
        Some(s) => value_of(s),
        None => None,
    }
}

/// The call in what the model wrote: the whole text, or its last fenced block, or its last balanced
/// object, whichever of them holds a call.
pub open spec fn extracted(s: Seq<char>) -> Option<ToolCallView> {
    first_call(
        value_of(trimmed(s)),
        value_of_optional(last_fenced(s)),
        value_of_optional(last_tool_object(s)),
    )
}

fn read_value(s: &Option<String>) -> (r: Option<Json>)
    ensures
        optional_view(r) == value_of_optional(crate::reply::optional(*s)),
{
    match s {
        Some(t) => parse(t.as_str()).ok(),
        None => None,
    }
}

/// Finds the call in what the model wrote.
pub fn extract_tool_call(s: &str) -> (r: Option<ToolCall>)
    ensures
        call_is(r, extracted(s@)),
{
    let whole = parse(trim(s).as_str()).ok();
    let fenced = read_value(&find_last_fenced(s));
    let cut = read_value(&slice_last_balanced_tool_json(s));
    choose_call(&whole, &fenced, &cut)
}

/// An answer that is nothing but a call, with or without white space around it, is that call.
pub proof fn law_plain_call(s: Seq<char>)
    ensures
        json_parse(trimmed(s)) matches Ok(v) ==> (v.text_at("tool"@) matches Some(name)
            ==> extracted(s) == Some(ToolCallView { name, input: v.at("input"@) })),
{
}

// ---------------------------------------------------------------------------
// Laws on what is found
// ---------------------------------------------------------------------------

/// In a text without strings the braces that are open are those that were opened less those that were
/// closed, whatever else stands in it.
pub proof fn law_braces_count(s: Seq<char>)
    requires
        !s.contains('"'),
    ensures
        balance(s) == s.to_multiset().count('{') - s.to_multiset().count('}'),
        !scanned(s).in_string,
        !scanned(s).escaped,
    decreases s.len(),
{
    broadcast use vstd::seq_lib::group_to_multiset_ensures;

    if s.len() > 0 {
        let init = s.drop_last();
        assert(s.contains(s.last())) by {
            assert(s[s.len() - 1] == s.last());
        }
        if init.contains('"') {
            let i = choose|i: int| 0 <= i < init.len() && init[i] == '"';
            assert(s[i] == '"');
        }
        law_braces_count(init);
        assert(init.push(s.last()) =~= s);
        assert(s.to_multiset() =~= init.to_multiset().insert(s.last()));
    } else {
        assert(s =~= seq![]);
        assert(s.to_multiset().count('{') == 0);
        assert(s.to_multiset().count('}') == 0);
    }
}

/// A string makes no difference to the braces that are open, whatever braces stand in it.
pub proof fn law_string_is_skipped(s: Seq<char>, t: Seq<char>)
    requires
        !scanned(s).in_string,
        !scanned(s).escaped,
        !t.contains('"'),
        !t.contains('\\'),
    ensures
        scanned(s.push('"') + t.push('"')) == scanned(s),
        scanned(s.push('"') + t).in_string,
{
    assert(s.push('"').drop_last() =~= s);
    assert(scanned(s.push('"')) == scan_char(scanned(s), '"'));
    lemma_inside_string(s.push('"'), t);
    assert((s.push('"') + t.push('"')).drop_last() =~= s.push('"') + t);
}

proof fn lemma_inside_string(s: Seq<char>, t: Seq<char>)
    requires
        scanned(s).in_string,
        !scanned(s).escaped,
        !t.contains('"'),
        !t.contains('\\'),
    ensures
        scanned(s + t) == scanned(s),
    decreases t.len(),
{
    if t.len() == 0 {
        assert(s + t =~= s);
    } else {
        let init = t.drop_last();
        assert(t[t.len() - 1] == t.last());
        assert(t.contains(t.last()));
        if init.contains('"') {
            let i = choose|i: int| 0 <= i < init.len() && init[i] == '"';
            assert(t[i] == '"');
        }
        if init.contains('\\') {
            let i = choose|i: int| 0 <= i < init.len() && init[i] == '\\';
            assert(t[i] == '\\');
        }
        lemma_inside_string(s, init);
        assert((s + t).drop_last() =~= s + init);
        assert((s + t).last() == t.last());
    }
}

/// Within a string an escaped character makes no difference, whatever it is.
pub proof fn law_escape_is_skipped(s: Seq<char>, c: char)
    requires
        scanned(s).in_string,
        !scanned(s).escaped,
    ensures
        scanned(s.push('\\').push(c)) == scanned(s),
{
    assert(s.push('\\').drop_last() =~= s);
    assert(scanned(s.push('\\')) == scan_char(scanned(s), '\\'));
    assert(s.push('\\').push(c).drop_last() =~= s.push('\\'));
}

/// Outside strings only braces and quotes make a difference.
pub proof fn law_other_characters(s: Seq<char>, c: char)
    requires
        !scanned(s).in_string,
    ensures
        c != '{' && c != '}' && c != '"' ==> scanned(s.push(c)) == scanned(s),
        c == '{' ==> balance(s.push(c)) == balance(s) + 1,
        c == '}' ==> balance(s.push(c)) == balance(s) - 1,
{
    assert(s.push(c).drop_last() =~= s);
}

proof fn lemma_closing_complete(s: Seq<char>, from: int, n: int)
    requires
        1 <= from <= n <= s.len(),
        closes_at(s, n),
        forall|k: int| from <= k < n ==> !#[trigger] closes_at(s, k),
    ensures
        closing_from(s, from) == Some(n),
    decreases n - from,
{
    if from < n {
        assert(!closes_at(s, from));
        lemma_closing_complete(s, from + 1, n);
    }
}

proof fn lemma_closing_exists(s: Seq<char>, from: int, n: int)
    requires
        1 <= from <= n <= s.len(),
        closes_at(s, n),
    ensures
        closing_from(s, from) matches Some(m) && from <= m <= n && closes_at(s, m) && forall|k: int|
            from <= k < m ==> !#[trigger] closes_at(s, k),
    decreases n - from,
{
    if !closes_at(s, from) {
        lemma_closing_exists(s, from + 1, n);
    }
}

/// Whenever a text holds `{"tool"` and, from the last place where it does, some piece ends with a brace
/// outside strings that closes the last open one, the shortest such piece is cut out, whatever other
/// characters stand in it.
pub proof fn law_cut_is_complete(s: Seq<char>, start: int, n: int)
    requires
        occurs_at(s, "{\"tool\""@, start),
        forall|j: int| start < j ==> !occurs_at(s, "{\"tool\""@, j),
        1 <= n <= s.len() - start,
        s[start + n - 1] == '}',
        !scanned(s.subrange(start, start + n - 1)).in_string,
        balance(s.subrange(start, start + n)) == 0,
    ensures
        last_tool_object(s) matches Some(part) && {
            &&& 0 < part.len() <= n
            &&& part == s.subrange(start, start + part.len())
            &&& part.last() == '}'
            &&& balance(part) == 0
            &&& forall|k: int|
                0 < k < part.len() && part[k - 1] == '}' && !scanned(part.take(k - 1)).in_string
                    ==> #[trigger] balance(part.take(k)) != 0
        },
{
    let p = "{\"tool\""@;
    lemma_rfind(s, p);
    assert(rfind(s, p) == Some(start));
    let rest = s.skip(start);
    assert(rest.take(n) =~= s.subrange(start, start + n));
    assert(rest.take(n - 1) =~= s.subrange(start, start + n - 1));
    assert(closes_at(rest, n));
    lemma_closing_exists(rest, 1, n);
    let m = closing_from(rest, 1)->0;
    let part = rest.take(m);
    assert(part =~= s.subrange(start, start + m));
    assert forall|k: int|
        0 < k < part.len() && part[k - 1] == '}' && !scanned(part.take(k - 1)).in_string implies
        #[trigger] balance(part.take(k)) != 0 by {
        assert(part.take(k) =~= rest.take(k));
        assert(part.take(k - 1) =~= rest.take(k - 1));
        assert(!closes_at(rest, k));
    }
}

/// An object that begins with `{"tool"` and closes at its end is cut out whole from any text around
/// it, where no other one begins behind it.
pub proof fn law_object_in_prose(pre: Seq<char>, object: Seq<char>, post: Seq<char>)
    requires
        has_prefix(object, "{\"tool\""@),
        object.last() == '}',
        !scanned(object.drop_last()).in_string,
        balance(object) == 0,
        forall|k: int| 0 < k < object.len() ==> #[trigger] balance(object.take(k)) > 0,
        forall|j: int|
            pre.len() < j ==> !#[trigger] occurs_at(pre + object + post, "{\"tool\""@, j),
    ensures
        last_tool_object(pre + object + post) == Some(object),
{
    let s = pre + object + post;
    let p = "{\"tool\""@;
    reveal_strlit("{\"tool\"");
    let at = pre.len() as int;
    let n = object.len() as int;
    assert(s.subrange(at, at + p.len()) =~= object.subrange(0, p.len() as int));
    assert(occurs_at(s, p, at));
    lemma_rfind(s, p);
    assert(rfind(s, p) == Some(at));
    let rest = s.skip(at);
    assert(rest.take(n) =~= object);
    assert(rest.take(n - 1) =~= object.drop_last());
    assert(closes_at(rest, n));
    assert forall|k: int| 1 <= k < n implies !#[trigger] closes_at(rest, k) by {
        assert(rest.take(k) =~= object.take(k));
        assert(balance(object.take(k)) > 0);
    }
    lemma_closing_complete(rest, 1, n);
}

/// The call in a value: the name is its field `tool`, where that is a text, and the input its field
/// `input`, or nothing.
pub proof fn law_call_fields(v: JsonView)
    ensures
        match v.get("tool"@) {
            Some(JsonView::Text(name)) => call_in(v) matches Some(c) && c.name == name && (
            v.get("input"@) matches Some(i) ==> c.input == i) && (v.get("input"@) is None ==> c.input
                == JsonView::Null),
            _ => call_in(v) is None,
        },
{
}

/// A call in prose is found: where neither the whole text nor its last fenced block holds a call, the
/// call is that of the last balanced object.
pub proof fn law_call_in_prose(s: Seq<char>, object: Seq<char>, v: JsonView, name: Seq<char>)
    requires
        last_tool_object(s) == Some(object),
        json_parse(object) == Ok::<JsonView, Seq<char>>(v),
        v.get("tool"@) == Some(JsonView::Text(name)),
        json_parse(trimmed(s)) matches Ok(w) ==> !(w.at("tool"@) is Text),
        last_fenced(s) matches Some(t) ==> (json_parse(t) matches Ok(w) ==> !(w.at(
            "tool"@,
        ) is Text)),
    ensures
        extracted(s) == Some(ToolCallView { name, input: v.at("input"@) }),
{
}

/// A call in the last fenced block is found, where the whole text is none.
pub proof fn law_call_in_block(s: Seq<char>, block: Seq<char>, v: JsonView, name: Seq<char>)
    requires
        last_fenced(s) == Some(block),
        json_parse(block) == Ok::<JsonView, Seq<char>>(v),
        v.get("tool"@) == Some(JsonView::Text(name)),
        json_parse(trimmed(s)) matches Ok(w) ==> !(w.at("tool"@) is Text),
    ensures
        extracted(s) == Some(ToolCallView { name, input: v.at("input"@) }),
{
}

/// Where none of the three holds a call, none is found.
pub proof fn law_no_call(s: Seq<char>)
    requires
        json_parse(trimmed(s)) matches Ok(w) ==> !(w.at("tool"@) is Text),
        last_fenced(s) matches Some(t) ==> (json_parse(t) matches Ok(w) ==> !(w.at(
            "tool"@,
        ) is Text)),
        last_tool_object(s) matches Some(t) ==> (json_parse(t) matches Ok(w) ==> !(w.at(
            "tool"@,
        ) is Text)),
    ensures
        extracted(s) is None,
{
}

/// A fenced block of JSON opens at `a`, the first place from `from` on where one does, and closes at
/// `b`, the first place behind its opening where one does.
pub open spec fn block_at(s: Seq<char>, from: int, a: int, b: int) -> bool {
    &&& from <= a && a + 7 <= b
    &&& occurs_at(s, "```json"@, a)
    &&& forall|j: int| from <= j < a ==> !#[trigger] occurs_at(s, "```json"@, j)
    &&& occurs_at(s, "```"@, b)
    &&& forall|j: int| a + 7 <= j < b ==> !#[trigger] occurs_at(s, "```"@, j)
}

/// These are the fenced blocks of a text from `from` on, one behind the other, up to the last.
pub open spec fn all_blocks(s: Seq<char>, from: int, blocks: Seq<(int, int)>) -> bool
    decreases blocks.len(),
{
    if blocks.len() == 0 {
        forall|j: int| from <= j ==> !#[trigger] occurs_at(s, "```json"@, j)
    } else {
        &&& block_at(s, from, blocks[0].0, blocks[0].1)
        &&& all_blocks(s, blocks[0].1 + 3, blocks.skip(1))
    }
}

proof fn lemma_find_is(s: Seq<char>, p: Seq<char>, from: int, i: int)
    requires
        0 <= from <= i,
        occurs_at(s, p, i),
        forall|j: int| from <= j < i ==> !#[trigger] occurs_at(s, p, j),
    ensures
        find_from(s, p, from) == Some(i),
{
    lemma_find_from(s, p, from);
}

proof fn lemma_last_of_blocks(
    s: Seq<char>,
    from: int,
    blocks: Seq<(int, int)>,
    last: Option<Seq<char>>,
)
    requires
        0 <= from,
        all_blocks(s, from, blocks),
    ensures
        last_fenced_from(s, from, last) == if blocks.len() == 0 {
            last
        } else {
            Some(trimmed(s.subrange(blocks.last().0 + 7, blocks.last().1)))
        },
    decreases blocks.len(),
{
    if blocks.len() == 0 {
        lemma_find_from(s, "```json"@, from);
    } else {
        let (a, b) = blocks[0];
        lemma_find_is(s, "```json"@, from, a);
        lemma_find_is(s, "```"@, a + 7, b);
        let inner = Some(trimmed(s.subrange(a + 7, b)));
        lemma_last_of_blocks(s, b + 3, blocks.skip(1), inner);
        if blocks.len() > 1 {
            assert(blocks.skip(1).last() == blocks.last());
        }
    }
}

/// Of the fenced blocks of JSON in a text the last one counts, without white space at its ends; a text
/// without any has none.
pub proof fn law_last_block_counts(s: Seq<char>, blocks: Seq<(int, int)>)
    requires
        all_blocks(s, 0, blocks),
    ensures
        blocks.len() == 0 ==> last_fenced(s) is None,
        blocks.len() > 0 ==> last_fenced(s) == Some(
            trimmed(s.subrange(blocks.last().0 + 7, blocks.last().1)),
        ),
{
    lemma_last_of_blocks(s, 0, blocks, None);
}

/// The whole text goes before its fenced block, and the block before the object that is cut out.
pub proof fn law_first_call(
    whole: Option<JsonView>,
    fenced: Option<JsonView>,
    cut: Option<JsonView>,
    v: JsonView,
    name: Seq<char>,
)
    requires
        v.get("tool"@) == Some(JsonView::Text(name)),
    ensures
        ({
            let call = Some(ToolCallView { name, input: v.at("input"@) });
            &&& first_call(Some(v), fenced, cut) == call
            &&& (whole matches Some(w) ==> !(w.at("tool"@) is Text)) ==> first_call(
                whole,
                Some(v),
                cut,
            ) == call
            &&& (whole matches Some(w) ==> !(w.at("tool"@) is Text)) && (fenced matches Some(f)
                ==> !(f.at("tool"@) is Text)) ==> first_call(whole, fenced, Some(v)) == call
        }),
{
}

/// The blocks that a text has from a place on, before one that is opened and not closed.
pub open spec fn blocks_before_open(s: Seq<char>, from: int, blocks: Seq<(int, int)>) -> bool
    decreases blocks.len(),
{
    if blocks.len() == 0 {
        exists|a: int|
            {
                &&& from <= a
                &&& #[trigger] occurs_at(s, "```json"@, a)
                &&& forall|j: int| from <= j < a ==> !occurs_at(s, "```json"@, j)
                &&& forall|j: int| a + 7 <= j ==> !occurs_at(s, "```"@, j)
            }
    } else {
        &&& block_at(s, from, blocks[0].0, blocks[0].1)
        &&& blocks_before_open(s, blocks[0].1 + 3, blocks.skip(1))
    }
}

/// A block that is opened and not closed does not count: the last one before it does.
pub proof fn law_open_block_does_not_count(s: Seq<char>, blocks: Seq<(int, int)>)
    requires
        blocks_before_open(s, 0, blocks),
    ensures
        blocks.len() == 0 ==> last_fenced(s) is None,
        blocks.len() > 0 ==> last_fenced(s) == Some(
            trimmed(s.subrange(blocks.last().0 + 7, blocks.last().1)),
        ),
{
    lemma_open_block(s, 0, blocks, None);
}

proof fn lemma_open_block(
    s: Seq<char>,
    from: int,
    blocks: Seq<(int, int)>,
    last: Option<Seq<char>>,
)
    requires
        0 <= from,
        blocks_before_open(s, from, blocks),
    ensures
        blocks.len() == 0 ==> last_fenced_from(s, from, last) == last,
        blocks.len() > 0 ==> last_fenced_from(s, from, last) == Some(
            trimmed(s.subrange(blocks.last().0 + 7, blocks.last().1)),
        ),
    decreases blocks.len(),
{
    reveal_strlit("```json");
    reveal_strlit("```");
    lemma_find_from(s, "```json"@, from);
    if blocks.len() == 0 {
        let a = choose|a: int|
            {
                &&& from <= a
                &&& #[trigger] occurs_at(s, "```json"@, a)
                &&& forall|j: int| from <= j < a ==> !occurs_at(s, "```json"@, j)
                &&& forall|j: int| a + 7 <= j ==> !occurs_at(s, "```"@, j)
            };
        assert(find_from(s, "```json"@, from) == Some(a));
        lemma_find_from(s, "```"@, a + 7);
    } else {
        let (a, b) = blocks[0];
        assert(find_from(s, "```json"@, from) == Some(a));
        lemma_find_from(s, "```"@, a + 7);
        assert(find_from(s, "```"@, a + 7) == Some(b));
        let rest = blocks.skip(1);
        lemma_open_block(s, b + 3, rest, Some(trimmed(s.subrange(a + 7, b))));
        if rest.len() > 0 {
            assert(rest.last() == blocks.last());
        }
    }
}

} // verus!
