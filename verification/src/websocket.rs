//! A short exchange over a WebSocket: what is asked for, which messages are taken, and the reply.
use crate::json::{
    empty_object, lemma_list_view, object, text, views, Json, JsonView,
};
use crate::reply::{error, error_view, law_error_fields, ok, ok_view};
use crate::text::{cat, has_prefix, starts_with, texts};
use vstd::prelude::*;

verus! {

// ---------------------------------------------------------------------------
// The request
// ---------------------------------------------------------------------------

/// `url::Url::parse` accepts a text.
pub uninterp spec fn url_valid(s: Seq<char>) -> bool;

/// `url::Url::parse` reads a text as an address by the rules of the WHATWG; here it only matters
/// whether it does.
#[verifier::external_body]
fn url_parses(s: &str) -> (r: bool)
    ensures
        r == url_valid(s@),
{
    url::Url::parse(s).is_ok()
}

/// An exchange to be made.
pub struct WsRequest {
    pub url: String,
    pub timeout_secs: u64,
    pub receive_max: u64,
    pub send_texts: Vec<String>,
}

/// The view of an exchange to be made.
pub struct WsRequestView {
    pub url: Seq<char>,
    pub timeout_secs: int,
    pub receive_max: int,
    pub send_texts: Seq<Seq<char>>,
}

impl View for WsRequest {
    type V = WsRequestView;

    open spec fn view(&self) -> WsRequestView {
        WsRequestView {
            url: self.url@,
            timeout_secs: self.timeout_secs as int,
            receive_max: self.receive_max as int,
            send_texts: texts(self.send_texts@),
        }
    }
}

/// The exchange that an input asks for, or why it is refused. `valid` says whether the address can
/// be read.
pub open spec fn ws_request_view(input: JsonView, valid: bool) -> Result<
    WsRequestView,
    Seq<char>,
> {
    match input.text_at("url"@) {
        None => Err("url (ws:// ou wss://) obrigatoria"@),
        Some(url) => if !has_prefix(url, "ws://"@) && !has_prefix(url, "wss://"@) {
            Err("url deve comecar com ws:// ou wss://"@)
        } else if !valid {
            Err("URL invalida"@)
        } else {
            Ok(
                WsRequestView {
                    url,
                    timeout_secs: input.uint_clamped("timeout_secs"@, 30, 5, 120),
                    receive_max: input.uint_clamped("receive_max"@, 16, 1, 128),
                    send_texts: input.texts_at("send_texts"@),
                },
            )
        },
    }
}

/// A request, or the reply that refuses it, is the expected one.
pub open spec fn ws_requested(
    r: Result<WsRequest, Json>,
    expected: Result<WsRequestView, Seq<char>>,
) -> bool {
    match (r, expected) {
        (Ok(q), Ok(v)) => q@ == v,
        (Err(e), Err(m)) => e@ == error_view(m),
        _ => false,
    }
}

/// Decides what exchange is to be made, given whether the address can be read.
pub fn websocket_request_with(input: &Json, valid: bool) -> (r: Result<WsRequest, Json>)
    ensures
        ws_requested(r, ws_request_view(input@, valid)),
{
    match input.text_at("url") {
        None => Err(error("url (ws:// ou wss://) obrigatoria")),
        Some(url) => if !starts_with(url, "ws://") && !starts_with(url, "wss://") {
            Err(error("url deve comecar com ws:// ou wss://"))
        } else if !valid {
            Err(error("URL invalida"))
        } else {
            Ok(
                WsRequest {
                    url: url.to_owned(),
                    timeout_secs: input.uint_clamped("timeout_secs", 30, 5, 120),
                    receive_max: input.uint_clamped("receive_max", 16, 1, 128),
                    send_texts: input.texts_at("send_texts"),
                },
            )
        },
    }
}

/// Decides what exchange is to be made.
pub fn websocket_request(input: &Json) -> (r: Result<WsRequest, Json>)
    ensures
        ws_requested(r, ws_request_view(input@, url_valid(input@.text_or("url"@, ""@)))),
{
    let valid = url_parses(input.text_or("url", ""));
    websocket_request_with(input, valid)
}

// ---------------------------------------------------------------------------
// The messages
// ---------------------------------------------------------------------------

/// What waiting for a message gave.
pub enum WsEvent {
    /// A text.
    Text(String),
    /// Some bytes; how many.
    Binary(u64),
    /// A ping.
    Ping,
    /// A pong.
    Pong,
    /// The other side closes; its close frame, written out.
    Close(String),
    /// Something else, written out.
    Other(String),
    /// An error; its message.
    Failed(String),
    /// There are no more messages.
    Ended,
    /// No message came in time.
    TimedOut,
}

/// What is noted of a message.
pub open spec fn ws_entry(e: WsEvent) -> Option<JsonView> {
    match e {
        WsEvent::Text(t) => Some(
            empty_object().with("kind"@, JsonView::Text("text"@)).with(
                "data"@,
                JsonView::Text(t@),
            ),
        ),
        WsEvent::Binary(n) => Some(
            empty_object().with("kind"@, JsonView::Text("binary"@)).with(
                "len"@,
                JsonView::Int(n as int),
            ),
        ),
        WsEvent::Ping => Some(empty_object().with("kind"@, JsonView::Text("ping"@))),
        WsEvent::Pong => Some(empty_object().with("kind"@, JsonView::Text("pong"@))),
        WsEvent::Close(f) => Some(
            empty_object().with("kind"@, JsonView::Text("close"@)).with(
                "frame"@,
                JsonView::Text(f@),
            ),
        ),
        WsEvent::Other(m) => Some(
            empty_object().with("kind"@, JsonView::Text("other"@)).with(
                "meta"@,
                JsonView::Text(m@),
            ),
        ),
        WsEvent::Failed(m) => Some(
            empty_object().with("kind"@, JsonView::Text("error"@)).with(
                "message"@,
                JsonView::Text(m@),
            ),
        ),
        WsEvent::Ended => None,
        WsEvent::TimedOut => Some(empty_object().with("kind"@, JsonView::Text("timeout"@))),
    }
}

/// A message after which no other is waited for.
pub open spec fn ws_last(e: WsEvent) -> bool {
    e is Close || e is Failed || e is Ended || e is TimedOut
}

/// The messages that were taken, and whether more are waited for.
pub struct WsSession {
    received: Vec<Json>,
    max: u64,
    open: bool,
}

/// The view of the messages that were taken.
pub struct WsSessionView {
    pub received: Seq<JsonView>,
    pub max: int,
    pub open: bool,
}

impl View for WsSession {
    type V = WsSessionView;

    closed spec fn view(&self) -> WsSessionView {
        WsSessionView { received: views(self.received@), max: self.max as int, open: self.open }
    }
}

/// Another message is waited for.
pub open spec fn ws_waits(s: WsSessionView) -> bool {
    s.open && s.received.len() < s.max
}

/// What a message does to an exchange. Once it is over, nothing changes any more.
pub open spec fn ws_after(s: WsSessionView, e: WsEvent) -> WsSessionView {
    if !ws_waits(s) {
        s
    } else {
        WsSessionView {
            received: match ws_entry(e) {
                Some(v) => s.received.push(v),
                None => s.received,
            },
            max: s.max,
            open: !ws_last(e),
        }
    }
}

/// An exchange in which nothing has come yet.
pub open spec fn ws_begun(max: int) -> WsSessionView {
    WsSessionView { received: seq![], max, open: true }
}

/// What some messages do to an exchange.
pub open spec fn ws_run(s: WsSessionView, events: Seq<WsEvent>) -> WsSessionView
    decreases events.len(),
{
    if events.len() == 0 {
        s
    } else {
        ws_after(ws_run(s, events.drop_last()), events.last())
    }
}

fn note(e: &WsEvent) -> (r: Option<Json>)
    ensures
        match (r, ws_entry(*e)) {
            (Some(j), Some(v)) => j@ == v,
            (None, None) => true,
            _ => false,
        },
{
    match e {
        WsEvent::Text(t) => Some(
            object().with("kind", text("text")).with("data", text(t.as_str())),
        ),
        WsEvent::Binary(n) => Some(
            object().with("kind", text("binary")).with("len", Json::Uint(*n)),
        ),
        WsEvent::Ping => Some(object().with("kind", text("ping"))),
        WsEvent::Pong => Some(object().with("kind", text("pong"))),
        WsEvent::Close(f) => Some(
            object().with("kind", text("close")).with("frame", text(f.as_str())),
        ),
        WsEvent::Other(m) => Some(
            object().with("kind", text("other")).with("meta", text(m.as_str())),
        ),
        WsEvent::Failed(m) => Some(
            object().with("kind", text("error")).with("message", text(m.as_str())),
        ),
        WsEvent::Ended => None,
        WsEvent::TimedOut => Some(object().with("kind", text("timeout"))),
    }
}

fn is_last(e: &WsEvent) -> (r: bool)
    ensures
        r == ws_last(*e),
{
    match e {
        WsEvent::Close(_) | WsEvent::Failed(_) | WsEvent::Ended | WsEvent::TimedOut => true,
        _ => false,
    }
}

impl WsSession {
    /// Begins an exchange in which at most `max` messages are taken.
    pub fn new(max: u64) -> (r: WsSession)
        ensures
            r@ == ws_begun(max as int),
    {
        let r = WsSession { received: Vec::new(), max, open: true };
        assert(r@.received =~= seq![]);
        r
    }

    /// Tells whether another message is waited for.
    pub fn waits(&self) -> (r: bool)
        ensures
            r == ws_waits(self@),
    {
        self.open && (self.received.len() as u64) < self.max
    }

    /// Takes a message.
    pub fn take(&mut self, e: &WsEvent)
        ensures
            final(self)@ == ws_after(old(self)@, *e),
    {
        if self.waits() {
            let ghost before = views(self.received@);
            if let Some(j) = note(e) {
                let ghost v = j@;
                self.received.push(j);
                assert(views(self.received@) =~= before.push(v));
            }
            if is_last(e) {
                self.open = false;
            }
        }
    }

    fn json(&self) -> (j: Json)
        ensures
            j@ == JsonView::List(self@.received),
    {
        broadcast use lemma_list_view;

        let mut out: Vec<Json> = Vec::new();
        for i in 0..self.received.len()
            invariant
                out@.len() == i,
                views(out@) =~= views(self.received@).take(i as int),
        {
            let ghost before = views(out@);
            let item = self.received[i].copy();
            let ghost v = item@;
            out.push(item);
            assert(views(out@) =~= before.push(v));
        }
        assert(views(out@) =~= views(self.received@));
        Json::List(out)
    }
}

// ---------------------------------------------------------------------------
// The reply
// ---------------------------------------------------------------------------

/// How an exchange ended.
pub enum WsEnd {
    /// Nothing could be run; the error.
    NoRuntime(String),
    /// The handshake failed; the error.
    Handshake(String),
    /// The handshake took too long.
    HandshakeTimeout,
    /// A text could not be sent; the error.
    Send(String),
    /// The exchange broke down.
    Panicked,
    /// It came to its end.
    Finished,
}

/// The reply to an exchange.
pub open spec fn ws_reply(url: Seq<char>, received: Seq<JsonView>, end: WsEnd) -> JsonView {
    match end {
        WsEnd::NoRuntime(e) => error_view(e@),
        WsEnd::Handshake(e) => error_view("handshake: "@ + e@),
        WsEnd::HandshakeTimeout => error_view("timeout no handshake WebSocket"@),
        WsEnd::Send(e) => error_view("send: "@ + e@),
        WsEnd::Panicked => error_view("thread websocket panicou"@),
        WsEnd::Finished => ok_view().with("url"@, JsonView::Text(url)).with(
            "received"@,
            JsonView::List(received),
        ),
    }
}

/// Tells how an exchange went.
pub fn websocket_exchange(q: &WsRequest, s: &WsSession, end: &WsEnd) -> (j: Json)
    ensures
        j@ == ws_reply(q@.url, s@.received, *end),
{
    match end {
        WsEnd::NoRuntime(e) => error(e.as_str()),
        WsEnd::Handshake(e) => error(cat("handshake: ", e.as_str()).as_str()),
        WsEnd::HandshakeTimeout => error("timeout no handshake WebSocket"),
        WsEnd::Send(e) => error(cat("send: ", e.as_str()).as_str()),
        WsEnd::Panicked => error("thread websocket panicou"),
        WsEnd::Finished => ok().with("url", text(q.url.as_str())).with("received", s.json()),
    }
}

// ---------------------------------------------------------------------------
// Laws
// ---------------------------------------------------------------------------

/// However many messages come, at most `max` of them are taken.
pub proof fn law_never_more_than_asked(max: int, events: Seq<WsEvent>)
    requires
        max >= 0,
    ensures
        ws_run(ws_begun(max), events).received.len() <= max,
        ws_run(ws_begun(max), events).max == max,
    decreases events.len(),
{
    if events.len() > 0 {
        law_never_more_than_asked(max, events.drop_last());
    }
}

/// Nothing that comes behind a close, an error, the end or a timeout is taken.
pub proof fn law_nothing_after_the_end(s: WsSessionView, first: Seq<WsEvent>, rest: Seq<WsEvent>)
    requires
        first.len() > 0,
        ws_last(first.last()),
    ensures
        ws_run(s, first + rest) == ws_run(s, first),
    decreases rest.len(),
{
    if rest.len() == 0 {
        assert(first + rest =~= first);
    } else {
        law_nothing_after_the_end(s, first, rest.drop_last());
        assert((first + rest).drop_last() =~= first + rest.drop_last());
        assert(!ws_waits(ws_run(s, first)));
    }
}

/// An exchange goes to the address of the call, sends its texts in their order, and has its limits
/// where they are bearable.
pub proof fn law_request_fields(input: JsonView, valid: bool)
    ensures
        ws_request_view(input, valid) matches Ok(q) ==> {
            &&& input.get("url"@) == Some(JsonView::Text(q.url))
            &&& has_prefix(q.url, "ws://"@) || has_prefix(q.url, "wss://"@)
            &&& q.send_texts == input.texts_at("send_texts"@)
            &&& input.get("timeout_secs"@) matches Some(JsonView::Int(n)) ==> (5 <= n <= 120
                ==> q.timeout_secs == n)
            &&& input.get("timeout_secs"@) is None ==> q.timeout_secs == 30
            &&& input.get("receive_max"@) matches Some(JsonView::Int(n)) ==> (1 <= n <= 128
                ==> q.receive_max == n)
            &&& input.get("receive_max"@) is None ==> q.receive_max == 16
            &&& 5 <= q.timeout_secs <= 120 && 1 <= q.receive_max <= 128
        },
        ws_request_view(input, valid) is Ok <==> valid && (input.get("url"@) matches Some(
            JsonView::Text(u),
        ) && (has_prefix(u, "ws://"@) || has_prefix(u, "wss://"@))),
{
}

/// What is noted of each message: a text with all of it, some bytes with their number, a close with
/// its frame, an error with its message.
pub proof fn law_entries(t: String, n: u64)
    ensures
        ws_entry(WsEvent::Text(t)) matches Some(e) && e.get("kind"@) == Some(
            JsonView::Text("text"@),
        ) && e.get("data"@) == Some(JsonView::Text(t@)),
        ws_entry(WsEvent::Binary(n)) matches Some(e) && e.get("kind"@) == Some(
            JsonView::Text("binary"@),
        ) && e.get("len"@) == Some(JsonView::Int(n as int)),
        ws_entry(WsEvent::Close(t)) matches Some(e) && e.get("kind"@) == Some(
            JsonView::Text("close"@),
        ) && e.get("frame"@) == Some(JsonView::Text(t@)),
        ws_entry(WsEvent::Failed(t)) matches Some(e) && e.get("kind"@) == Some(
            JsonView::Text("error"@),
        ) && e.get("message"@) == Some(JsonView::Text(t@)),
        ws_entry(WsEvent::Other(t)) matches Some(e) && e.get("kind"@) == Some(
            JsonView::Text("other"@),
        ) && e.get("meta"@) == Some(JsonView::Text(t@)),
        ws_entry(WsEvent::Ping) matches Some(e) && e.get("kind"@) == Some(JsonView::Text("ping"@)),
        ws_entry(WsEvent::Pong) matches Some(e) && e.get("kind"@) == Some(JsonView::Text("pong"@)),
        ws_entry(WsEvent::TimedOut) matches Some(e) && e.get("kind"@) == Some(
            JsonView::Text("timeout"@),
        ),
        ws_entry(WsEvent::Ended) is None,
{
    reveal_strlit("kind");
    assert("kind"@.len() == 4);
    reveal_strlit("data");
    assert("data"@.len() == 4);
    reveal_strlit("len");
    assert("len"@.len() == 3);
    reveal_strlit("frame");
    assert("frame"@.len() == 5);
    reveal_strlit("message");
    assert("message"@.len() == 7);
    reveal_strlit("meta");
    assert("meta"@.len() == 4);
    assert("kind"@[0] != "data"@[0]);
    assert("kind"@[0] != "meta"@[0]);
    assert("data"@[0] != "meta"@[0]);
}

/// The messages that come are taken in their order, each of them, as long as there is room and none of
/// them ends the exchange; then more are waited for just where there is room for more.
pub proof fn law_messages_are_kept(max: int, events: Seq<WsEvent>)
    requires
        events.len() <= max,
        forall|i: int|
            0 <= i < events.len() ==> !(#[trigger] events[i] is Close || events[i] is Failed
                || events[i] is Ended || events[i] is TimedOut),
    ensures
        ({
            let s = ws_run(ws_begun(max), events);
            &&& s.received.len() == events.len()
            &&& forall|i: int|
                0 <= i < events.len() ==> ws_entry(events[i]) == Some(#[trigger] s.received[i])
            &&& ws_waits(s) <==> events.len() < max
            &&& s.open
        }),
    decreases events.len(),
{
    if events.len() > 0 {
        let init = events.drop_last();
        assert forall|i: int| 0 <= i < init.len() implies !(#[trigger] init[i] is Close || init[i]
            is Failed || init[i] is Ended || init[i] is TimedOut) by {
            assert(init[i] == events[i]);
        }
        law_messages_are_kept(max, init);
        let before = ws_run(ws_begun(max), init);
        let last = events.last();
        assert(events[events.len() - 1] == last);
        assert(!(last is Close || last is Failed || last is Ended || last is TimedOut));
        assert(!ws_last(last));
        assert(ws_entry(last) is Some);
        let s = ws_run(ws_begun(max), events);
        assert(s == ws_after(before, last));
        assert(before.max == max) by {
            law_never_more_than_asked(max, init);
        }
        assert(ws_waits(before));
        assert(s.received == before.received.push(ws_entry(last)->0));
        assert forall|i: int| 0 <= i < events.len() implies ws_entry(events[i]) == Some(
            #[trigger] s.received[i],
        ) by {
            if i < init.len() {
                assert(s.received[i] == before.received[i]);
                assert(init[i] == events[i]);
            }
        }
    }
}

/// The reply to an exchange that came to its end holds the address and all that was taken; one that
/// failed says why.
pub proof fn law_exchange_fields(url: Seq<char>, received: Seq<JsonView>, e: String)
    ensures
        ws_reply(url, received, WsEnd::Finished).get("status"@) == Some(JsonView::Text("ok"@)),
        ws_reply(url, received, WsEnd::Finished).get("url"@) == Some(JsonView::Text(url)),
        ws_reply(url, received, WsEnd::Finished).get("received"@) == Some(
            JsonView::List(received),
        ),
        ws_reply(url, received, WsEnd::Handshake(e)) == error_view("handshake: "@ + e@),
        ws_reply(url, received, WsEnd::Send(e)) == error_view("send: "@ + e@),
        ws_reply(url, received, WsEnd::NoRuntime(e)) == error_view(e@),
        ws_reply(url, received, WsEnd::HandshakeTimeout).get("status"@) == Some(
            JsonView::Text("error"@),
        ),
        ws_reply(url, received, WsEnd::Panicked).get("status"@) == Some(JsonView::Text("error"@)),
{
    reveal_strlit("status");
    assert("status"@.len() == 6);
    reveal_strlit("url");
    assert("url"@.len() == 3);
    reveal_strlit("received");
    assert("received"@.len() == 8);
    reveal_strlit("error");
    assert("error"@.len() == 5);
}

/// A limit that is not bearable is moved to the nearest that is.
pub proof fn law_limits_are_moved(input: JsonView, valid: bool)
    ensures
        ws_request_view(input, valid) matches Ok(q) ==> {
            &&& input.get("timeout_secs"@) matches Some(JsonView::Int(n)) ==> {
                &&& 120 < n <= u64::MAX ==> q.timeout_secs == 120
                &&& 0 <= n < 5 ==> q.timeout_secs == 5
            }
            &&& input.get("receive_max"@) matches Some(JsonView::Int(n)) ==> {
                &&& 128 < n <= u64::MAX ==> q.receive_max == 128
                &&& 0 <= n < 1 ==> q.receive_max == 1
            }
        },
{
}

/// A request that is granted is the expected one, and a refusal holds its message.
pub proof fn law_ws_requested(
    r: Result<WsRequest, Json>,
    expected: Result<WsRequestView, Seq<char>>,
)
    requires
        ws_requested(r, expected),
    ensures
        r is Ok <==> expected is Ok,
        r matches Ok(q) ==> q@ == expected->Ok_0,
        r matches Err(e) ==> e@.get("error"@) == Some(JsonView::Text(expected->Err_0)),
{
    if expected is Err {
        law_error_fields(expected->Err_0);
    }
}

/// A message that ends an exchange with room for more is noted like any other, but for the plain end,
/// and then no more is waited for.
pub proof fn law_exchange_ends(s: WsSessionView, e: WsEvent)
    requires
        s.open,
        s.received.len() < s.max,
        e is Close || e is Failed || e is Ended || e is TimedOut,
    ensures
        !ws_waits(ws_after(s, e)),
        e is Ended ==> ws_after(s, e).received == s.received,
        !(e is Ended) ==> ws_after(s, e).received.len() == s.received.len() + 1 && ws_entry(e)
            == Some(ws_after(s, e).received.last()) && ws_after(s, e).received.drop_last()
            == s.received,
{
}

/// Where more messages come than are asked for, the first ones are taken and the others are not.
pub proof fn law_first_messages_count(s: WsSessionView, e: WsEvent)
    requires
        s.received.len() >= s.max,
    ensures
        ws_after(s, e) == s,
        !ws_waits(s),
{
}

} // verus!
