//! The reply of the model as it comes in: lines of server-sent events, each with a piece of it.
use crate::bytes::{from_utf8_lossy, lossy_text};
use crate::codec::parse;
use crate::json::{json_parse, views, Json, JsonView};
use crate::split::{lines, text_lines};
use crate::text::{chars, has_prefix, same, starts_with, texts, trim, trimmed};
use crate::thinking::{json_prefix, thinking_json_prefix};
use vstd::prelude::*;

verus! {

/// What is shown of a piece.
pub enum Shown {
    /// The spinner stops: something is there to be shown.
    StopSpinner,
    /// The heading over thoughts.
    ThoughtHeading,
    /// The sign before a thought that is a piece of JSON.
    ThoughtSign(String),
    /// A thought.
    Thought(String),
    /// A piece of the answer.
    Answer(String),
}

/// The view of what is shown.
pub enum ShownView {
    StopSpinner,
    ThoughtHeading,
    ThoughtSign(Seq<char>),
    Thought(Seq<char>),
    Answer(Seq<char>),
}

impl View for Shown {
    type V = ShownView;

    open spec fn view(&self) -> ShownView {
        match self {
            Shown::StopSpinner => ShownView::StopSpinner,
            Shown::ThoughtHeading => ShownView::ThoughtHeading,
            Shown::ThoughtSign(s) => ShownView::ThoughtSign(s@),
            Shown::Thought(s) => ShownView::Thought(s@),
            Shown::Answer(s) => ShownView::Answer(s@),
        }
    }
}

/// The views of what is shown.
pub open spec fn shown_views(list: Seq<Shown>) -> Seq<ShownView> {
    list.map_values(|s: Shown| s@)
}

/// The answer so far, whether anything was shown yet, and whether thoughts were headed yet.
pub struct Stream {
    pub answer: String,
    pub delivered: bool,
    pub headed: bool,
}

/// The view of a stream.
pub struct StreamView {
    pub answer: Seq<char>,
    pub delivered: bool,
    pub headed: bool,
}

impl View for Stream {
    type V = StreamView;

    open spec fn view(&self) -> StreamView {
        StreamView { answer: self.answer@, delivered: self.delivered, headed: self.headed }
    }
}

// ---------------------------------------------------------------------------
// One piece
// ---------------------------------------------------------------------------

/// The piece in an event.
pub open spec fn piece_of(event: JsonView) -> Option<JsonView> {
    match event.at("choices"@).as_list() {
        Some(items) => if items.len() > 0 {
            items[0].get("delta"@)
        } else {
            None
        },
        None => None,
    }
}

/// A text that is not empty.
pub open spec fn filled(t: Option<Seq<char>>) -> Option<Seq<char>> {
    match t {
        Some(s) => if s.len() > 0 {
            Some(s)
        } else {
            None
        },
        None => None,
    }
}

/// The thought in a piece, which has one of two names.
pub open spec fn thought_of(piece: JsonView) -> Option<Seq<char>> {
    match piece.text_at("reasoning_content"@) {
        Some(s) => filled(Some(s)),
        None => filled(piece.text_at("reasoning"@)),
    }
}

/// What is shown where it applies.
pub open spec fn shown_if(applies: bool, s: ShownView) -> Seq<ShownView> {
    if applies {
        seq![s]
    } else {
        seq![]
    }
}

/// What is shown of a thought.
pub open spec fn thought_shown(t: Seq<char>, headed: bool) -> Seq<ShownView> {
    shown_if(!headed, ShownView::ThoughtHeading) + (match json_prefix(t) {
        Some(p) => seq![ShownView::ThoughtSign(p)],
        None => seq![],
    }) + seq![ShownView::Thought(t)]
}

/// What a piece with this thought and this part of the answer does to the stream, and what is shown.
pub open spec fn after_parts(s: StreamView, thought: Option<Seq<char>>, part: Option<Seq<char>>) -> (
    StreamView,
    Seq<ShownView>,
) {
    let any = thought is Some || part is Some;
    (
        StreamView {
            answer: match part {
                Some(c) => s.answer + c,
                None => s.answer,
            },
            delivered: s.delivered || any,
            headed: s.headed || thought is Some,
        },
        shown_if(any && !s.delivered, ShownView::StopSpinner) + (match thought {
            Some(t) => thought_shown(t, s.headed),
            None => seq![],
        }) + (match part {
            Some(c) => seq![ShownView::Answer(c)],
            None => seq![],
        }),
    )
}

/// What an event does to the stream, and what is shown.
pub open spec fn after_event(s: StreamView, event: JsonView) -> (StreamView, Seq<ShownView>) {
    match piece_of(event) {
        Some(piece) => after_parts(s, thought_of(piece), piece.filled_at("content"@)),
        None => (s, seq![]),
    }
}

impl Stream {
    /// A stream in which nothing has come yet.
    pub fn new() -> (r: Stream)
        ensures
            r@ == (StreamView { answer: seq![], delivered: false, headed: false }),
    {
        let r = Stream { answer: String::new(), delivered: false, headed: false };
        assert(r@.answer =~= seq![]);
        r
    }

    fn take_parts(&mut self, thought: Option<&str>, part: Option<&str>) -> (out: Vec<Shown>)
        ensures
            (final(self)@, shown_views(out@)) == after_parts(
                old(self)@,
                match thought {
                    Some(t) => Some(t@),
                    None => None,
                },
                match part {
                    Some(c) => Some(c@),
                    None => None,
                },
            ),
    {
        let mut out: Vec<Shown> = Vec::new();
        let any = thought.is_some() || part.is_some();
        if any && !self.delivered {
            out.push(Shown::StopSpinner);
        }
        if any {
            self.delivered = true;
        }
        let ghost first = shown_if(any && !old(self).delivered, ShownView::StopSpinner);
        assert(shown_views(out@) =~= first);
        let ghost second = match thought {
            Some(t) => thought_shown(t@, old(self).headed),
            None => seq![],
        };
        if let Some(t) = thought {
            if !self.headed {
                out.push(Shown::ThoughtHeading);
                self.headed = true;
            }
            if let Some(p) = thinking_json_prefix(t) {
                out.push(Shown::ThoughtSign(p.to_owned()));
            }
            out.push(Shown::Thought(t.to_owned()));
        }
        assert(shown_views(out@) =~= first + second);
        if let Some(c) = part {
            self.answer.append(c);
            out.push(Shown::Answer(c.to_owned()));
            assert(shown_views(out@) =~= first + second + seq![ShownView::Answer(c@)]);
        } else {
            assert(shown_views(out@) =~= first + second + seq![]);
        }
        out
    }

    /// Takes an event.
    pub fn take_event(&mut self, event: &Json) -> (out: Vec<Shown>)
        ensures
            (final(self)@, shown_views(out@)) == after_event(old(self)@, event@),
    {
        let piece = match event.list_at("choices") {
            Some(items) => if items.len() > 0 {
                assert(views(items@)[0] == items@[0]@);
                items[0].get("delta")
            } else {
                None
            },
            None => None,
        };
        match piece {
            Some(piece) => {
                let thought = match piece.text_at("reasoning_content") {
                    Some(s) => if s.is_empty() {
                        None
                    } else {
                        Some(s)
                    },
                    None => match piece.text_at("reasoning") {
                        Some(s) => if s.is_empty() {
                            None
                        } else {
                            Some(s)
                        },
                        None => None,
                    },
                };
                self.take_parts(thought, piece.filled_at("content"))
            },
            None => {
                let out: Vec<Shown> = Vec::new();
                assert(shown_views(out@) =~= seq![]);
                out
            },
        }
    }
}

// ---------------------------------------------------------------------------
// Lines
// ---------------------------------------------------------------------------

/// What a line is: none of ours, the end of a chunk, or an event.
pub enum LineView {
    Skip,
    Done,
    Event(JsonView),
}

/// What a line is.
pub open spec fn line_view(line: Seq<char>) -> LineView {
    if !has_prefix(line, "data: "@) {
        LineView::Skip
    } else if trimmed(line.skip(6)) == "[DONE]"@ {
        LineView::Done
    } else {
        match json_parse(line.skip(6)) {
            Ok(v) => LineView::Event(v),
            Err(_) => LineView::Skip,
        }
    }
}

/// What some lines do to the stream, and what is shown. The line that says so ends them.
pub open spec fn after_lines(s: StreamView, list: Seq<Seq<char>>) -> (StreamView, Seq<ShownView>)
    decreases list.len(),
{
    if list.len() == 0 {
        (s, seq![])
    } else {
        match line_view(list[0]) {
            LineView::Done => (s, seq![]),
            LineView::Skip => after_lines(s, list.skip(1)),
            LineView::Event(v) => {
                let (s1, shown) = after_event(s, v);
                let (s2, more) = after_lines(s1, list.skip(1));
                (s2, shown + more)
            },
        }
    }
}

enum Line {
    Skip,
    Done,
    Event(Json),
}

fn read_line(line: &str) -> (r: Line)
    ensures
        match (r, line_view(line@)) {
            (Line::Skip, LineView::Skip) => true,
            (Line::Done, LineView::Done) => true,
            (Line::Event(j), LineView::Event(v)) => j@ == v,
            _ => false,
        },
{
    if !starts_with(line, "data: ") {
        return Line::Skip;
    }
    proof {
        reveal_strlit("data: ");
    }
    let cs = chars(line);
    let body = crate::split::slice_text(&cs, 6, cs.len());
    assert(body@ =~= line@.skip(6));
    if same(trim(body.as_str()).as_str(), "[DONE]") {
        return Line::Done;
    }
    match parse(body.as_str()) {
        Ok(v) => Line::Event(v),
        Err(_) => Line::Skip,
    }
}

impl Stream {
    /// Takes the text of a chunk.
    pub fn take_text(&mut self, text: &str) -> (out: Vec<Shown>)
        ensures
            (final(self)@, shown_views(out@)) == after_lines(old(self)@, lines(text@)),
    {
        let list = text_lines(text);
        let ghost all = lines(text@);
        let ghost expected = after_lines(self@, all);
        let mut out: Vec<Shown> = Vec::new();
        let mut i: usize = 0;
        assert(all.skip(0) =~= all);
        assert(shown_views(out@) + after_lines(self@, all.skip(0)).1 =~= expected.1);
        while i < list.len()
            invariant
                all == texts(list@),
                i <= list@.len(),
                expected == after_lines(old(self)@, lines(text@)),
                expected.0 == after_lines(self@, all.skip(i as int)).0,
                expected.1 =~= shown_views(out@) + after_lines(self@, all.skip(i as int)).1,
            decreases list@.len() - i,
        {
            assert(all.skip(i as int)[0] == list@[i as int]@);
            assert(all.skip(i as int).skip(1) =~= all.skip(i + 1));
            match read_line(list[i].as_str()) {
                Line::Done => {
                    assert(shown_views(out@) =~= expected.1);
                    return out;
                },
                Line::Skip => {},
                Line::Event(v) => {
                    let ghost before = shown_views(out@);
                    let mut more = self.take_event(&v);
                    let ghost m = shown_views(more@);
                    out.append(&mut more);
                    assert(shown_views(out@) =~= before + m);
                },
            }
            i = i + 1;
        }
        assert(all.skip(i as int) =~= seq![]);
        assert(shown_views(out@) =~= expected.1);
        out
    }

    /// Takes the bytes of a chunk.
    pub fn take_chunk(&mut self, chunk: &[u8]) -> (out: Vec<Shown>)
        ensures
            (final(self)@, shown_views(out@)) == after_lines(
                old(self)@,
                lines(lossy_text(chunk@)),
            ),
    {
        let text = from_utf8_lossy(chunk);
        self.take_text(text.as_str())
    }
}

// ---------------------------------------------------------------------------
// Laws
// ---------------------------------------------------------------------------

/// The parts of the answer among what is shown, behind one another.
pub open spec fn answer_shown(list: Seq<ShownView>) -> Seq<char>
    decreases list.len(),
{
    if list.len() == 0 {
        seq![]
    } else {
        match list.last() {
            ShownView::Answer(c) => answer_shown(list.drop_last()) + c,
            _ => answer_shown(list.drop_last()),
        }
    }
}

proof fn lemma_answer_shown(a: Seq<ShownView>, b: Seq<ShownView>)
    ensures
        answer_shown(a + b) == answer_shown(a) + answer_shown(b),
    decreases b.len(),
{
    if b.len() == 0 {
        assert(a + b =~= a);
        assert(answer_shown(a) + answer_shown(b) =~= answer_shown(a));
    } else {
        lemma_answer_shown(a, b.drop_last());
        assert((a + b).drop_last() =~= a + b.drop_last());
        assert((a + b).last() == b.last());
        match b.last() {
            ShownView::Answer(c) => {
                assert(answer_shown(a) + (answer_shown(b.drop_last()) + c) =~= answer_shown(a)
                    + answer_shown(b.drop_last()) + c);
            },
            _ => {},
        }
    }
}

proof fn lemma_event_answer(s: StreamView, event: JsonView)
    ensures
        after_event(s, event).0.answer == s.answer + answer_shown(after_event(s, event).1),
{
    match piece_of(event) {
        Some(piece) => {
            let thought = thought_of(piece);
            let part = piece.filled_at("content"@);
            let any = thought is Some || part is Some;
            let a = shown_if(any && !s.delivered, ShownView::StopSpinner);
            let b = match thought {
                Some(t) => thought_shown(t, s.headed),
                None => seq![],
            };
            let c = match part {
                Some(c) => seq![ShownView::Answer(c)],
                None => seq![],
            };
            lemma_answer_shown(a + b, c);
            lemma_answer_shown(a, b);
            reveal_with_fuel(answer_shown, 5);
            assert(answer_shown(a) =~= seq![]);
            assert(answer_shown(b) =~= seq![]);
            if let Some(p) = part {
                assert(c.drop_last() =~= seq![]);
                assert(answer_shown(c) =~= p);
            }
            assert(answer_shown(a + b + c) =~= answer_shown(c));
            assert(after_event(s, event).0.answer =~= s.answer + answer_shown(c));
        },
        None => {
            assert(after_event(s, event).0.answer =~= s.answer + answer_shown(seq![]));
        },
    }
}

/// The answer is just what was shown of it: nothing is kept that was not shown, and no thought gets
/// into it.
pub proof fn law_answer_is_what_was_shown(s: StreamView, list: Seq<Seq<char>>)
    ensures
        after_lines(s, list).0.answer == s.answer + answer_shown(after_lines(s, list).1),
    decreases list.len(),
{
    if list.len() == 0 {
        assert(s.answer + answer_shown(seq![]) =~= s.answer);
    } else {
        match line_view(list[0]) {
            LineView::Done => {
                assert(s.answer + answer_shown(seq![]) =~= s.answer);
            },
            LineView::Skip => {
                law_answer_is_what_was_shown(s, list.skip(1));
            },
            LineView::Event(v) => {
                let (s1, shown) = after_event(s, v);
                let (s2, more) = after_lines(s1, list.skip(1));
                lemma_event_answer(s, v);
                law_answer_is_what_was_shown(s1, list.skip(1));
                lemma_answer_shown(shown, more);
                assert(s.answer + answer_shown(shown) + answer_shown(more) =~= s.answer + (
                answer_shown(shown) + answer_shown(more)));
            },
        }
    }
}

/// Before anything is shown, and only then, the spinner stops.
pub proof fn law_spinner_stops_first(s: StreamView, event: JsonView, k: int)
    requires
        0 <= k < after_event(s, event).1.len(),
    ensures
        (after_event(s, event).1[k] is StopSpinner) == (k == 0 && !s.delivered),
        after_event(s, event).0.delivered,
{
}

// ---------------------------------------------------------------------------
// Laws on what was sent
// ---------------------------------------------------------------------------

/// The text of the answer that an event sends: `choices[0].delta.content`, where it is a text.
pub open spec fn content_sent(event: JsonView) -> Seq<char> {
    match event.get("choices"@) {
        Some(JsonView::List(items)) => if items.len() > 0 {
            match items[0].get("delta"@) {
                Some(delta) => match delta.get("content"@) {
                    Some(JsonView::Text(c)) => c,
                    _ => seq![],
                },
                None => seq![],
            }
        } else {
            seq![]
        },
        _ => seq![],
    }
}

/// The answer grows by just the text that an event sends, white space included, and that text is
/// shown as it is.
pub proof fn law_answer_takes_what_was_sent(s: StreamView, event: JsonView)
    ensures
        after_event(s, event).0.answer == s.answer + content_sent(event),
        content_sent(event).len() > 0 ==> after_event(s, event).1.last() == ShownView::Answer(
            content_sent(event),
        ),
        content_sent(event).len() == 0 ==> forall|i: int|
            0 <= i < after_event(s, event).1.len() ==> !(#[trigger] after_event(
                s,
                event,
            ).1[i] is Answer),
        after_event(s, event).0.delivered == (s.delivered || content_sent(event).len() > 0
            || thought_sent(event).len() > 0),
{
    assert(s.answer + Seq::<char>::empty() =~= s.answer);
    reveal_strlit("content");
}

/// The thought that an event sends: `choices[0].delta.reasoning_content`, or `reasoning` where the
/// first is no text.
pub open spec fn thought_sent(event: JsonView) -> Seq<char> {
    match event.get("choices"@) {
        Some(JsonView::List(items)) => if items.len() > 0 {
            match items[0].get("delta"@) {
                Some(delta) => match delta.get("reasoning_content"@) {
                    Some(JsonView::Text(t)) => t,
                    _ => match delta.get("reasoning"@) {
                        Some(JsonView::Text(t)) => t,
                        _ => seq![],
                    },
                },
                None => seq![],
            }
        } else {
            seq![]
        },
        _ => seq![],
    }
}

/// A thought is shown just as it was sent, under a heading where it is the first, and no other thought
/// is.
pub proof fn law_thought_is_shown(s: StreamView, event: JsonView)
    ensures
        ({
            let (after, shown) = after_event(s, event);
            let t = thought_sent(event);
            &&& t.len() > 0 ==> shown.contains(ShownView::Thought(t))
            &&& forall|i: int|
                0 <= i < shown.len() ==> (#[trigger] shown[i] matches ShownView::Thought(x) ==> x
                    == t && t.len() > 0)
            &&& shown.contains(ShownView::ThoughtHeading) <==> t.len() > 0 && !s.headed
            &&& after.headed == (s.headed || t.len() > 0)
        }),
{
    let (after, shown) = after_event(s, event);
    let t = thought_sent(event);
    if t.len() > 0 {
        let any = true;
        let first = shown_if(any && !s.delivered, ShownView::StopSpinner);
        let middle = thought_shown(t, s.headed);
        assert(middle.last() == ShownView::Thought(t));
        let k = first.len() + middle.len() - 1;
        assert(shown[k] == ShownView::Thought(t));
        if !s.headed {
            assert(middle[0] == ShownView::ThoughtHeading);
            assert(shown[first.len() as int] == ShownView::ThoughtHeading);
        }
    }
}

/// A line is an event where it begins with `data: ` and the rest of it can be read, the end where the
/// rest says so, and nothing elsewhere.
pub proof fn law_lines_of_a_stream(t: Seq<char>, line: Seq<char>)
    ensures
        trimmed(t) == "[DONE]"@ ==> line_view("data: "@ + t) == LineView::Done,
        trimmed(t) != "[DONE]"@ ==> match json_parse(t) {
            Ok(v) => line_view("data: "@ + t) == LineView::Event(v),
            Err(_) => line_view("data: "@ + t) == LineView::Skip,
        },
        !has_prefix(line, "data: "@) ==> line_view(line) == LineView::Skip,
{
    reveal_strlit("data: ");
    let s = "data: "@ + t;
    assert(s.subrange(0, "data: "@.len() as int) =~= "data: "@);
    assert(s.skip(6) =~= t);
}

/// Some lines have the same effect together as one part of them after the other, where the first part
/// does not end the chunk.
pub proof fn law_lines_one_after_the_other(s: StreamView, a: Seq<Seq<char>>, b: Seq<Seq<char>>)
    requires
        forall|i: int| 0 <= i < a.len() ==> !(line_view(#[trigger] a[i]) is Done),
    ensures
        ({
            let (s1, x) = after_lines(s, a);
            let (s2, y) = after_lines(s1, b);
            after_lines(s, a + b) == (s2, x + y)
        }),
    decreases a.len(),
{
    if a.len() == 0 {
        assert(a + b =~= b);
        let (s1, x) = after_lines(s, a);
        let (s2, y) = after_lines(s1, b);
        assert(x + y =~= y);
    } else {
        assert((a + b)[0] == a[0]);
        assert(!(line_view(a[0]) is Done));
        assert((a + b).skip(1) =~= a.skip(1) + b);
        assert forall|i: int| 0 <= i < a.skip(1).len() implies !(line_view(
            #[trigger] a.skip(1)[i],
        ) is Done) by {
            assert(a.skip(1)[i] == a[i + 1]);
        }
        match line_view(a[0]) {
            LineView::Event(v) => {
                let (s0, shown) = after_event(s, v);
                law_lines_one_after_the_other(s0, a.skip(1), b);
                let (s1, x) = after_lines(s0, a.skip(1));
                let (s2, y) = after_lines(s1, b);
                assert(shown + (x + y) =~= (shown + x) + y);
            },
            _ => {
                law_lines_one_after_the_other(s, a.skip(1), b);
            },
        }
    }
}

/// The texts that some events send, behind one another.
pub open spec fn contents_sent(events: Seq<JsonView>) -> Seq<char>
    decreases events.len(),
{
    if events.len() == 0 {
        seq![]
    } else {
        content_sent(events[0]) + contents_sent(events.skip(1))
    }
}

/// Over some events the answer is the texts that they send, behind one another.
pub proof fn law_answer_over_events(s: StreamView, list: Seq<Seq<char>>, events: Seq<JsonView>)
    requires
        list.len() == events.len(),
        forall|i: int|
            0 <= i < list.len() ==> line_view(#[trigger] list[i]) == LineView::Event(events[i]),
    ensures
        after_lines(s, list).0.answer == s.answer + contents_sent(events),
    decreases list.len(),
{
    if list.len() == 0 {
        assert(s.answer + contents_sent(events) =~= s.answer);
    } else {
        assert(line_view(list[0]) == LineView::Event(events[0]));
        let s1 = after_event(s, events[0]).0;
        law_answer_takes_what_was_sent(s, events[0]);
        assert forall|i: int| 0 <= i < list.skip(1).len() implies line_view(
            #[trigger] list.skip(1)[i],
        ) == LineView::Event(events.skip(1)[i]) by {
            assert(list.skip(1)[i] == list[i + 1]);
        }
        law_answer_over_events(s1, list.skip(1), events.skip(1));
        assert(s.answer + content_sent(events[0]) + contents_sent(events.skip(1)) =~= s.answer
            + contents_sent(events));
    }
}

/// A thought that is a piece of JSON has its sign before it, and no other has one.
pub proof fn law_thought_sign(s: StreamView, event: JsonView)
    ensures
        ({
            let shown = after_event(s, event).1;
            let t = thought_sent(event);
            &&& t.len() > 0 ==> (json_prefix(t) matches Some(p) ==> shown.contains(
                ShownView::ThoughtSign(p),
            ))
            &&& forall|i: int|
                0 <= i < shown.len() ==> (#[trigger] shown[i] matches ShownView::ThoughtSign(p)
                    ==> t.len() > 0 && json_prefix(t) == Some(p))
        }),
{
    let shown = after_event(s, event).1;
    let t = thought_sent(event);
    if t.len() > 0 {
        if let Some(p) = json_prefix(t) {
            let first = shown_if(!s.delivered, ShownView::StopSpinner);
            let head = shown_if(!s.headed, ShownView::ThoughtHeading);
            let k = first.len() + head.len();
            assert(thought_shown(t, s.headed)[head.len() as int] == ShownView::ThoughtSign(p));
            assert(shown[k as int] == ShownView::ThoughtSign(p));
        }
    }
}

/// What stands behind the line that ends a chunk has no effect, and neither has a line that is no
/// event.
pub proof fn law_lines_without_effect(
    s: StreamView,
    a: Seq<Seq<char>>,
    line: Seq<char>,
    b: Seq<Seq<char>>,
)
    requires
        forall|i: int| 0 <= i < a.len() ==> !(line_view(#[trigger] a[i]) is Done),
    ensures
        line_view(line) is Done ==> after_lines(s, a.push(line) + b) == after_lines(s, a),
        line_view(line) is Skip ==> after_lines(s, a.push(line) + b) == after_lines(s, a + b),
{
    let tail = seq![line] + b;
    assert(a.push(line) + b =~= a + tail);
    law_lines_one_after_the_other(s, a, tail);
    law_lines_one_after_the_other(s, a, b);
    let (s1, x) = after_lines(s, a);
    assert(tail[0] == line);
    assert(tail.skip(1) =~= b);
    if line_view(line) is Done {
        assert(after_lines(s1, tail) == (s1, Seq::<ShownView>::empty()));
        assert(x + Seq::<ShownView>::empty() =~= x);
    }
    if line_view(line) is Skip {
        assert(after_lines(s1, tail) == after_lines(s1, b));
    }
}

} // verus!
