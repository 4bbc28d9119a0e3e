//! The conversation with the model, and the turn that answers one message of the user: requests
//! that are repeated until they succeed, and tool calls up to a limit.
use crate::codec::{compact, pretty};
use crate::extract::{ToolCall, ToolCallView};
use crate::json::{
    empty_object, json_compact, json_pretty, lemma_list_view, lemma_with_nests, nests_within,
    object, reads_as, storable, text, views, Json, JsonView,
};
use crate::numbers::{decimal, write_decimal};
use crate::paths::{file_in, state_path, TOOLMIND_DIR};
use crate::reply::{error, error_view};
use crate::retry::{
    asked_wait, calc_backoff_sleep_secs, double_backoff, http_status_retryable, next_backoff,
    parse_retry_after_seconds, reqwest_error_retryable, retryable_error, retryable_status,
    wait_secs, NetworkError,
};
use crate::text::{cat, first_chars, lowered, same, same_ignoring_case, take_chars, trim, trimmed};
use vstd::prelude::*;

verus! {

/// The most tools that are run for one message of the user.
pub const MAX_TOOL_CHAIN_PER_TURN: u32 = 48;

/// The file with a turn that waits for the model.
pub const FROZEN_API_TURN_FILE: &'static str = "frozen_api_turn.json";

/// The path of the turn that waits for the model.
pub fn frozen_api_turn_path() -> (r: String)
    ensures
        file_in(r@, TOOLMIND_DIR@, FROZEN_API_TURN_FILE@),
{
    proof {
        reveal_strlit("frozen_api_turn.json");
        reveal_strlit(".");
        reveal_strlit("..");
        assert("frozen_api_turn.json"@.len() != "."@.len());
        assert("frozen_api_turn.json"@.len() != ".."@.len());
    }
    state_path(FROZEN_API_TURN_FILE)
}

// ---------------------------------------------------------------------------
// What the user types
// ---------------------------------------------------------------------------

/// A line that the user typed.
pub enum UserLine {
    /// The end.
    Exit,
    /// Automation of the screen is to stop.
    Disarm,
    /// A message to the model.
    Message(String),
}

/// Reads a line that the user typed.
pub fn read_user_line(line: &str) -> (r: UserLine)
    ensures
        match r {
            UserLine::Exit => trimmed(line@) == "exit"@,
            UserLine::Disarm => trimmed(line@) != "exit"@ && lowered(trimmed(line@)) == lowered(
                "parar"@,
            ),
            UserLine::Message(m) => m@ == trimmed(line@) && trimmed(line@) != "exit"@ && lowered(
                trimmed(line@),
            ) != lowered("parar"@),
        },
{
    let t = trim(line);
    if same(t.as_str(), "exit") {
        UserLine::Exit
    } else if same_ignoring_case(t.as_str(), "parar") {
        UserLine::Disarm
    } else {
        UserLine::Message(t)
    }
}

// ---------------------------------------------------------------------------
// The conversation
// ---------------------------------------------------------------------------

/// A message.
pub struct Message {
    pub role: String,
    pub content: String,
}

/// The view of a message.
pub struct MessageView {
    pub role: Seq<char>,
    pub content: Seq<char>,
}

impl View for Message {
    type V = MessageView;

    open spec fn view(&self) -> MessageView {
        MessageView { role: self.role@, content: self.content@ }
    }
}

/// The messages so far.
pub struct Conversation {
    messages: Vec<Message>,
}

impl View for Conversation {
    type V = Seq<MessageView>;

    closed spec fn view(&self) -> Seq<MessageView> {
        self.messages@.map_values(|m: Message| m@)
    }
}

/// A message in a role.
pub open spec fn says(role: Seq<char>, content: Seq<char>) -> MessageView {
    MessageView { role, content }
}

/// A message as a JSON value.
pub open spec fn message_json(m: MessageView) -> JsonView {
    empty_object().with("role"@, JsonView::Text(m.role)).with("content"@, JsonView::Text(m.content))
}

/// The messages as a JSON value.
pub open spec fn messages_json(ms: Seq<MessageView>) -> JsonView {
    JsonView::List(ms.map_values(|m: MessageView| message_json(m)))
}

/// The body of a request to the model.
pub open spec fn request_view(model: Seq<char>, ms: Seq<MessageView>) -> JsonView {
    empty_object().with("model"@, JsonView::Text(model)).with("messages"@, messages_json(ms)).with(
        "stream"@,
        JsonView::Bool(true),
    )
}

/// The message that ends a chain of too many tools.
pub open spec fn limit_message() -> Seq<char> {
    "Sistema: limite de "@ + decimal(MAX_TOOL_CHAIN_PER_TURN as nat)
        + " ferramentas por mensagem atingido. Responda ao usuário em texto: o que já foi feito e o que falta."@
}

impl Conversation {
    /// Begins a conversation.
    pub fn new(system_prompt: &str) -> (r: Conversation)
        ensures
            r@ == seq![says("system"@, system_prompt@)],
    {
        let mut r = Conversation { messages: Vec::new() };
        r.say("system", system_prompt);
        assert(r@ =~= seq![says("system"@, system_prompt@)]);
        r
    }

    /// Adds a message.
    pub fn say(&mut self, role: &str, content: &str)
        ensures
            final(self)@ == old(self)@.push(says(role@, content@)),
    {
        let ghost before = self@;
        self.messages.push(Message { role: role.to_owned(), content: content.to_owned() });
        assert(self@ =~= before.push(says(role@, content@)));
    }

    /// Takes the last message back.
    pub fn retract(&mut self)
        ensures
            final(self)@ == if old(self)@.len() > 0 {
                old(self)@.drop_last()
            } else {
                old(self)@
            },
    {
        let ghost before = self@;
        if self.messages.len() > 0 {
            let last = self.messages.pop();
            assert(self@ =~= before.drop_last());
        }
    }

    fn json(&self) -> (j: Json)
        ensures
            j@ == messages_json(self@),
    {
        broadcast use lemma_list_view;

        let ghost expected = messages_json(self@)->List_0;
        let mut out: Vec<Json> = Vec::new();
        for i in 0..self.messages.len()
            invariant
                expected == messages_json(self@)->List_0,
                out@.len() == i,
                views(out@) =~= expected.take(i as int),
        {
            let ghost before = views(out@);
            let m = &self.messages[i];
            let item = object().with("role", text(m.role.as_str())).with(
                "content",
                text(m.content.as_str()),
            );
            let ghost v = item@;
            assert(v == expected[i as int]);
            out.push(item);
            assert(views(out@) =~= before.push(v));
        }
        assert(views(out@) =~= expected);
        Json::List(out)
    }

    /// Writes the body of a request to the model.
    pub fn request(&self, model: &str) -> (j: Json)
        ensures
            j@ == request_view(model@, self@),
    {
        object().with("model", text(model)).with("messages", self.json()).with(
            "stream",
            Json::Bool(true),
        )
    }

    /// Ends a chain of too many tools: the answer of the model, and what it is told.
    pub fn stop_chain(&mut self, answer: &str)
        ensures
            final(self)@ == old(self)@.push(says("assistant"@, answer@)).push(
                says("user"@, limit_message()),
            ),
    {
        self.say("assistant", answer);
        let m = cat("Sistema: limite de ", write_decimal(MAX_TOOL_CHAIN_PER_TURN as u128).as_str());
        let m = cat(
            m.as_str(),
            " ferramentas por mensagem atingido. Responda ao usuário em texto: o que já foi feito e o que falta.",
        );
        self.say("user", m.as_str());
    }
}

// ---------------------------------------------------------------------------
// The turn
// ---------------------------------------------------------------------------

/// A tool call by its name and the text of its input.
pub struct CallSig {
    pub tool: String,
    pub input: String,
}

/// How far the answer to a message of the user has come.
pub struct Turn {
    first_request: bool,
    last_call: Option<CallSig>,
    chain_count: u32,
    backoff_secs: u64,
    consecutive_fails: u32,
}

/// The view of a turn.
pub struct TurnView {
    pub first_request: bool,
    pub last_call: Option<(Seq<char>, Seq<char>)>,
    pub chain_count: int,
    pub backoff_secs: int,
    pub consecutive_fails: int,
}

impl View for Turn {
    type V = TurnView;

    closed spec fn view(&self) -> TurnView {
        TurnView {
            first_request: self.first_request,
            last_call: match self.last_call {
                Some(c) => Some((c.tool@, c.input@)),
                None => None,
            },
            chain_count: self.chain_count as int,
            backoff_secs: self.backoff_secs as int,
            consecutive_fails: self.consecutive_fails as int,
        }
    }
}

/// A turn that begins.
pub open spec fn turn_begun() -> TurnView {
    TurnView {
        first_request: true,
        last_call: None,
        chain_count: 0,
        backoff_secs: 2,
        consecutive_fails: 0,
    }
}

/// One more, as far as 32 bits reach.
pub open spec fn one_more(n: int) -> int {
    if n < u32::MAX {
        n + 1
    } else {
        n
    }
}

/// A turn after a request that failed and will be repeated.
pub open spec fn turn_failed(t: TurnView) -> TurnView {
    TurnView {
        consecutive_fails: one_more(t.consecutive_fails),
        backoff_secs: next_backoff(t.backoff_secs),
        ..t
    }
}

/// The seconds until a request that failed is repeated.
pub open spec fn failure_wait(t: TurnView, retry_after: Option<int>) -> int {
    wait_secs(t.backoff_secs, one_more(t.consecutive_fails), retry_after)
}

/// A turn after a request that succeeded.
pub open spec fn turn_succeeded(t: TurnView) -> TurnView {
    TurnView { first_request: false, consecutive_fails: 0, backoff_secs: 2, ..t }
}

/// What stands over the spinner.
pub open spec fn header_view(t: TurnView, plan_active: bool) -> Seq<char> {
    if t.first_request {
        "Analisando seu pedido"@
    } else if plan_active {
        "Plano ativo · próxima ferramenta"@
    } else {
        "Continuando após ferramenta"@
    }
}

/// What is done with a tool call.
#[derive(Clone, Copy, PartialEq, Eq, Structural)]
pub enum Decision {
    /// There were too many: the chain ends.
    Limit,
    /// It is the same as the last one: it is not run again.
    Duplicate,
    /// It is run.
    Run,
}

/// A call by its name and the text of its input.
pub open spec fn call_sig(c: ToolCallView) -> (Seq<char>, Seq<char>) {
    (c.name, json_compact(c.input))
}

/// What is done with a call in a turn.
pub open spec fn decision(t: TurnView, c: ToolCallView) -> Decision {
    if t.chain_count + 1 > MAX_TOOL_CHAIN_PER_TURN {
        Decision::Limit
    } else if t.last_call == Some(call_sig(c)) {
        Decision::Duplicate
    } else {
        Decision::Run
    }
}

/// A turn after one more call.
pub open spec fn turn_called(t: TurnView) -> TurnView {
    TurnView { chain_count: one_more(t.chain_count), ..t }
}

/// A turn after a tool was run.
pub open spec fn turn_ran(t: TurnView, c: ToolCallView) -> TurnView {
    TurnView { last_call: Some(call_sig(c)), ..t }
}

impl Turn {
    /// Begins a turn.
    pub fn new() -> (r: Turn)
        ensures
            r@ == turn_begun(),
    {
        Turn {
            first_request: true,
            last_call: None,
            chain_count: 0,
            backoff_secs: 2,
            consecutive_fails: 0,
        }
    }

    /// Tells whether no request of the turn has succeeded yet.
    pub fn is_first(&self) -> (r: bool)
        ensures
            r == self@.first_request,
    {
        self.first_request
    }

    /// The number of requests that failed in a row.
    pub fn fails(&self) -> (r: u32)
        ensures
            r == self@.consecutive_fails,
    {
        self.consecutive_fails
    }

    /// What stands over the spinner.
    pub fn header(&self, plan_active: bool) -> (r: &'static str)
        ensures
            r@ == header_view(self@, plan_active),
    {
        if self.first_request {
            "Analisando seu pedido"
        } else if plan_active {
            "Plano ativo · próxima ferramenta"
        } else {
            "Continuando após ferramenta"
        }
    }

    /// Notes a request that failed and will be repeated, and gives the seconds until then.
    pub fn failed(&mut self, retry_after: Option<u64>) -> (r: u64)
        ensures
            final(self)@ == turn_failed(old(self)@),
            r == failure_wait(
                old(self)@,
                match retry_after {
                    Some(n) => Some(n as int),
                    None => None,
                },
            ),
    {
        if self.consecutive_fails < u32::MAX {
            self.consecutive_fails = self.consecutive_fails + 1;
        }
        let r: u64 = calc_backoff_sleep_secs(
            self.backoff_secs,
            self.consecutive_fails,
            retry_after,
        );
        self.backoff_secs = double_backoff(self.backoff_secs);
        r
    }

    /// Notes a request that succeeded.
    pub fn succeeded(&mut self)
        ensures
            final(self)@ == turn_succeeded(old(self)@),
    {
        self.first_request = false;
        self.consecutive_fails = 0;
        self.backoff_secs = 2;
    }

    /// Decides what is done with a call. The text that is kept of a call that is taken for a
    /// duplicate is read as its input, so that no other input is taken for the same.
    pub fn decide(&mut self, c: &ToolCall) -> (r: Decision)
        ensures
            final(self)@ == turn_called(old(self)@),
            r == decision(old(self)@, c@),
            r == Decision::Duplicate && storable(c@.input) ==> reads_as(
                (old(self)@.last_call->0).1,
                c@.input,
            ),
    {
        let over = self.chain_count >= MAX_TOOL_CHAIN_PER_TURN;
        if self.chain_count < u32::MAX {
            self.chain_count = self.chain_count + 1;
        }
        if over {
            return Decision::Limit;
        }
        let sig = compact(&c.input);
        match &self.last_call {
            Some(last) => if same(last.tool.as_str(), c.name.as_str()) && same(
                last.input.as_str(),
                sig.as_str(),
            ) {
                Decision::Duplicate
            } else {
                Decision::Run
            },
            None => Decision::Run,
        }
    }

    /// Notes that a tool was run. The text that is kept of the call is read as its input.
    pub fn ran(&mut self, c: &ToolCall)
        ensures
            final(self)@ == turn_ran(old(self)@, c@),
            storable(c@.input) ==> reads_as((final(self)@.last_call->0).1, c@.input),
    {
        self.last_call = Some(CallSig { tool: c.name.clone(), input: compact(&c.input) });
    }
}

// ---------------------------------------------------------------------------
// Requests that fail
// ---------------------------------------------------------------------------

/// The last call as a JSON value.
pub open spec fn sig_json(sig: Option<(Seq<char>, Seq<char>)>) -> JsonView {
    match sig {
        Some((tool, input)) => empty_object().with("tool"@, JsonView::Text(tool)).with(
            "input_sig"@,
            JsonView::Text(input),
        ),
        None => JsonView::Null,
    }
}

/// The status of a reply as a JSON value.
pub open spec fn status_json(status: Option<u16>) -> JsonView {
    match status {
        Some(code) => JsonView::Int(code as int),
        None => JsonView::Null,
    }
}

/// The document that keeps a turn while it waits for the model.
pub open spec fn frozen_document(
    ms: Seq<MessageView>,
    t: TurnView,
    reason: Seq<char>,
    status: Option<u16>,
    detail: Seq<char>,
    now_ms: u64,
) -> JsonView {
    empty_object().with("saved_at_ms"@, JsonView::Int(now_ms as int)).with(
        "reason"@,
        JsonView::Text(reason),
    ).with("http_status"@, status_json(status)).with(
        "detail_preview"@,
        JsonView::Text(first_chars(detail, 800)),
    ).with("tool_chain_count"@, JsonView::Int(t.chain_count)).with(
        "last_tool_sig"@,
        sig_json(t.last_call),
    ).with("messages"@, messages_json(ms))
}

proof fn lemma_message_nests(m: MessageView)
    ensures
        nests_within(message_json(m), 2),
{
    let v = empty_object();
    assert(nests_within(v, 2));
    lemma_with_nests(v, "role"@, JsonView::Text(m.role), 2);
    let v = v.with("role"@, JsonView::Text(m.role));
    lemma_with_nests(v, "content"@, JsonView::Text(m.content), 2);
}

proof fn lemma_frozen_storable(
    ms: Seq<MessageView>,
    t: TurnView,
    reason: Seq<char>,
    status: Option<u16>,
    detail: Seq<char>,
    now_ms: u64,
)
    requires
        0 <= t.chain_count <= u32::MAX,
    ensures
        storable(frozen_document(ms, t, reason, status, detail, now_ms)),
{
    let d: nat = 4;
    let v = empty_object();
    assert(nests_within(v, d));
    let f = JsonView::Int(now_ms as int);
    lemma_with_nests(v, "saved_at_ms"@, f, d);
    let v = v.with("saved_at_ms"@, f);
    let f = JsonView::Text(reason);
    lemma_with_nests(v, "reason"@, f, d);
    let v = v.with("reason"@, f);
    let f = status_json(status);
    lemma_with_nests(v, "http_status"@, f, d);
    let v = v.with("http_status"@, f);
    let f = JsonView::Text(first_chars(detail, 800));
    lemma_with_nests(v, "detail_preview"@, f, d);
    let v = v.with("detail_preview"@, f);
    let f = JsonView::Int(t.chain_count);
    lemma_with_nests(v, "tool_chain_count"@, f, d);
    let v = v.with("tool_chain_count"@, f);
    let f = sig_json(t.last_call);
    if let Some((tool, input)) = t.last_call {
        let s = empty_object();
        assert(nests_within(s, 3));
        lemma_with_nests(s, "tool"@, JsonView::Text(tool), 3);
        let s = s.with("tool"@, JsonView::Text(tool));
        lemma_with_nests(s, "input_sig"@, JsonView::Text(input), 3);
    }
    lemma_with_nests(v, "last_tool_sig"@, f, d);
    let v = v.with("last_tool_sig"@, f);
    let f = messages_json(ms);
    assert(nests_within(f, 3)) by {
        let items = f->List_0;
        assert forall|i: int| 0 <= i < items.len() implies nests_within(#[trigger] items[i], 2) by {
            lemma_message_nests(ms[i]);
        }
    }
    lemma_with_nests(v, "messages"@, f, d);
    crate::json::lemma_nests_deeper(v.with("messages"@, f), d, 127);
}

/// Writes the document that keeps a turn while it waits for the model. Reading it gives it back.
pub fn save_frozen_api_turn(
    conversation: &Conversation,
    turn: &Turn,
    reason: &str,
    status: Option<u16>,
    detail: &str,
    now_ms: u64,
) -> (r: String)
    ensures
        r@ == json_pretty(
            frozen_document(conversation@, turn@, reason@, status, detail@, now_ms),
        ),
        reads_as(
            r@,
            frozen_document(conversation@, turn@, reason@, status, detail@, now_ms),
        ),
{
    let sig = match &turn.last_call {
        Some(c) => object().with("tool", text(c.tool.as_str())).with(
            "input_sig",
            text(c.input.as_str()),
        ),
        None => Json::Null,
    };
    let code = match status {
        Some(code) => Json::Uint(code as u64),
        None => Json::Null,
    };
    let doc = object().with("saved_at_ms", Json::Uint(now_ms)).with("reason", text(reason)).with(
        "http_status",
        code,
    ).with("detail_preview", text(take_chars(detail, 800).as_str())).with(
        "tool_chain_count",
        Json::Uint(turn.chain_count as u64),
    ).with("last_tool_sig", sig).with("messages", conversation.json());
    proof {
        lemma_frozen_storable(conversation@, turn@, reason@, status, detail@, now_ms);
    }
    pretty(&doc)
}

/// How a request failed.
pub enum Failure {
    /// No reply came; the error and its message.
    Network { error: NetworkError, message: String },
    /// The reply was no success; its status, the wait it asks for, and its body.
    Http { code: u16, retry_after: Option<String>, body: String },
}

/// What is done about a failure.
pub enum Recovery {
    /// The request is repeated after some seconds. Until then the document keeps the turn.
    Retry { sleep_secs: u64, fails: u32, frozen: String },
    /// The agent ends.
    Quit,
    /// The turn ends; the beginning of the body that came.
    GiveUp { shown: String },
}

/// A request is repeated after a failure.
pub open spec fn failure_retryable(f: Failure) -> bool {
    match f {
        Failure::Network { error, .. } => retryable_error(error),
        Failure::Http { code, .. } => retryable_status(code),
    }
}

/// The wait that a failure asks for.
pub open spec fn failure_asks(f: Failure) -> Option<int> {
    match f {
        Failure::Network { .. } => None,
        Failure::Http { retry_after, .. } => match asked_wait(
            crate::reply::optional(retry_after),
        ) {
            Some(n) => Some(n as int),
            None => None,
        },
    }
}

/// The document that keeps a turn after a failure.
pub open spec fn failure_document(
    ms: Seq<MessageView>,
    t: TurnView,
    f: Failure,
    now_ms: u64,
) -> JsonView {
    match f {
        Failure::Network { message, .. } => frozen_document(
            ms,
            t,
            "network"@,
            None,
            message@,
            now_ms,
        ),
        Failure::Http { code, body, .. } => frozen_document(
            ms,
            t,
            "http"@,
            Some(code),
            body@,
            now_ms,
        ),
    }
}

/// The message that got no answer is taken back where it began the turn.
pub open spec fn taken_back(ms: Seq<MessageView>, t: TurnView) -> Seq<MessageView> {
    if t.first_request && ms.len() > 0 {
        ms.drop_last()
    } else {
        ms
    }
}

/// Decides what is done about a request that failed.
pub fn recover(
    conversation: &mut Conversation,
    turn: &mut Turn,
    failure: &Failure,
    now_ms: u64,
) -> (r: Recovery)
    ensures
        match r {
            Recovery::Retry { sleep_secs, fails, frozen } => {
                &&& failure_retryable(*failure)
                &&& final(conversation)@ == old(conversation)@
                &&& final(turn)@ == turn_failed(old(turn)@)
                &&& sleep_secs == failure_wait(old(turn)@, failure_asks(*failure))
                &&& fails == final(turn)@.consecutive_fails
                &&& reads_as(
                    frozen@,
                    failure_document(old(conversation)@, old(turn)@, *failure, now_ms),
                )
                &&& frozen@ == json_pretty(
                    failure_document(old(conversation)@, old(turn)@, *failure, now_ms),
                )
            },
            Recovery::Quit => {
                &&& !failure_retryable(*failure)
                &&& *failure is Network
                &&& final(turn)@ == old(turn)@
                &&& final(conversation)@ == taken_back(old(conversation)@, old(turn)@)
            },
            Recovery::GiveUp { shown } => {
                &&& !failure_retryable(*failure)
                &&& *failure matches Failure::Http { body, .. } && shown@ == first_chars(body@, 500)
                &&& final(turn)@ == old(turn)@
                &&& final(conversation)@ == taken_back(old(conversation)@, old(turn)@)
            },
        },
{
    match failure {
        Failure::Network { error, message } => {
            if reqwest_error_retryable(*error) {
                let frozen = save_frozen_api_turn(
                    conversation,
                    turn,
                    "network",
                    None,
                    message.as_str(),
                    now_ms,
                );
                let sleep_secs: u64 = turn.failed(None);
                return Recovery::Retry { sleep_secs, fails: turn.fails(), frozen };
            }
            if turn.is_first() {
                conversation.retract();
            }
            Recovery::Quit
        },
        Failure::Http { code, retry_after, body } => {
            if http_status_retryable(*code) {
                let frozen = save_frozen_api_turn(
                    conversation,
                    turn,
                    "http",
                    Some(*code),
                    body.as_str(),
                    now_ms,
                );
                let asked = match retry_after {
                    Some(s) => parse_retry_after_seconds(Some(s.as_str())),
                    None => None,
                };
                let sleep_secs: u64 = turn.failed(asked);
                return Recovery::Retry { sleep_secs, fails: turn.fails(), frozen };
            }
            if turn.is_first() {
                conversation.retract();
            }
            Recovery::GiveUp { shown: take_chars(body.as_str(), 500) }
        },
    }
}

// ---------------------------------------------------------------------------
// The result of a tool
// ---------------------------------------------------------------------------

/// The reply to a call that is not run again.
pub open spec fn duplicate_reply(name: Seq<char>) -> JsonView {
    empty_object().with("status"@, JsonView::Text("skipped_duplicate"@)).with(
        "tool"@,
        JsonView::Text(name),
    ).with(
        "message"@,
        JsonView::Text(
            "Chamada idêntica à anterior: não repita. Se write_file já retornou ok, confirme ao usuário em texto ou use path_info/read_file apenas para verificar."@,
        ),
    )
}

/// Refuses to run a call again.
pub fn refuse_duplicate(name: &str) -> (j: Json)
    ensures
        j@ == duplicate_reply(name@),
{
    object().with("status", text("skipped_duplicate")).with("tool", text(name)).with(
        "message",
        text(
            "Chamada idêntica à anterior: não repita. Se write_file já retornou ok, confirme ao usuário em texto ou use path_info/read_file apenas para verificar.",
        ),
    )
}

/// Tells that there is no such tool.
pub fn refuse_unknown(name: &str) -> (j: Json)
    ensures
        j@ == error_view("tool '"@ + name@ + "' não registrada"@),
{
    error(cat(cat("tool '", name).as_str(), "' não registrada").as_str())
}

/// The result of a tool, with what it did to the plan.
pub open spec fn with_progress_view(result: JsonView, note: Option<JsonView>) -> JsonView {
    match note {
        Some(n) => result.with("plan_progress"@, n),
        None => result,
    }
}

/// Adds to the result of a tool what it did to the plan.
pub fn with_progress(result: Json, note: Option<Json>) -> (j: Json)
    ensures
        j@ == with_progress_view(result@, crate::extract::optional_view(note)),
{
    match note {
        Some(n) => result.with("plan_progress", n),
        None => result,
    }
}

/// What the model is told of the result of a tool.
pub open spec fn feedback_view(name: Seq<char>, result: JsonView) -> Seq<char> {
    let base = "Resultado da tool `"@ + name + "`:\n"@ + json_pretty(result);
    if result.get("plan_progress"@) is Some {
        base
            + "\n\n[Sistema] plan_progress.json foi atualizado via plan_mark_done_through_step no input. Na cadeia de tools, envie só o JSON da próxima chamada, sem prosa na mesma mensagem."@
    } else {
        base
    }
}

/// Writes what the model is told of the result of a tool.
pub fn tool_feedback(name: &str, result: &Json) -> (r: String)
    ensures
        r@ == feedback_view(name@, result@),
{
    let mut s = "Resultado da tool `".to_owned();
    s.append(name);
    s.append("`:\n");
    s.append(pretty(result).as_str());
    if result.get("plan_progress").is_some() {
        s.append(
            "\n\n[Sistema] plan_progress.json foi atualizado via plan_mark_done_through_step no input. Na cadeia de tools, envie só o JSON da próxima chamada, sem prosa na mesma mensagem.",
        );
    }
    s
}

// ---------------------------------------------------------------------------
// Laws
// ---------------------------------------------------------------------------

/// A tool that was just run is not run again with the same input, whatever fails in between.
pub proof fn law_no_tool_twice(t: TurnView, c: ToolCallView, again: ToolCallView)
    requires
        again.name == c.name,
        again.input == c.input,
    ensures
        decision(turn_ran(t, c), again) != Decision::Run,
        decision(turn_succeeded(turn_failed(turn_ran(t, c))), again) != Decision::Run,
{
}

/// A failed request costs the turn nothing but time: the chain of tools and the last call stay, and
/// so does whether anything succeeded yet.
pub proof fn law_failure_keeps_the_chain(t: TurnView)
    ensures
        turn_failed(t).chain_count == t.chain_count,
        turn_failed(t).last_call == t.last_call,
        turn_failed(t).first_request == t.first_request,
{
}

/// The turn after some failures in a row.
pub open spec fn turn_failing(t: TurnView, n: nat) -> TurnView
    decreases n,
{
    if n == 0 {
        t
    } else {
        turn_failed(turn_failing(t, (n - 1) as nat))
    }
}

/// However often requests fail, the pause before the next attempt is at least a second and what the
/// server asks for, at most five minutes where the server asks for nothing, and a success begins the
/// count anew.
pub proof fn law_pauses_are_bounded(n: nat, retry_after: Option<int>)
    ensures
        1 <= failure_wait(turn_failing(turn_begun(), n), retry_after),
        match retry_after {
            Some(asked) => asked <= failure_wait(turn_failing(turn_begun(), n), retry_after),
            None => failure_wait(turn_failing(turn_begun(), n), retry_after) <= 300,
        },
        2 <= turn_failing(turn_begun(), n).backoff_secs <= 120,
        turn_succeeded(turn_failing(turn_begun(), n)).backoff_secs == 2,
        turn_succeeded(turn_failing(turn_begun(), n)).consecutive_fails == 0,
    decreases n,
{
    if n > 0 {
        law_pauses_are_bounded((n - 1) as nat, retry_after);
    }
}

// ---------------------------------------------------------------------------
// Laws on messages
// ---------------------------------------------------------------------------

/// A request names the model, asks for a stream, and holds each message of the conversation at its
/// place, with its role and its content.
pub proof fn law_request_fields(model: Seq<char>, ms: Seq<MessageView>, i: int)
    ensures
        ({
            let r = request_view(model, ms);
            &&& r.get("model"@) == Some(JsonView::Text(model))
            &&& r.get("stream"@) == Some(JsonView::Bool(true))
            &&& r.get("messages"@) matches Some(JsonView::List(list)) && list.len() == ms.len() && (
            0 <= i < ms.len() ==> list[i].get("role"@) == Some(JsonView::Text(ms[i].role))
                && list[i].get("content"@) == Some(JsonView::Text(ms[i].content)))
        }),
{
    reveal_strlit("model");
    assert("model"@.len() == 5);
    reveal_strlit("messages");
    assert("messages"@.len() == 8);
    reveal_strlit("stream");
    assert("stream"@.len() == 6);
    reveal_strlit("role");
    assert("role"@.len() == 4);
    reveal_strlit("content");
    assert("content"@.len() == 7);
    if 0 <= i < ms.len() {
        assert(messages_json(ms)->List_0[i] == message_json(ms[i]));
    }
}

/// The document that keeps a turn holds the time, the reason, the status of the reply, the beginning
/// of the detail, how many tools were called, the last call, and each message.
pub proof fn law_frozen_fields(
    ms: Seq<MessageView>,
    t: TurnView,
    reason: Seq<char>,
    status: Option<u16>,
    detail: Seq<char>,
    now_ms: u64,
    i: int,
)
    ensures
        ({
            let d = frozen_document(ms, t, reason, status, detail, now_ms);
            &&& d.get("saved_at_ms"@) == Some(JsonView::Int(now_ms as int))
            &&& d.get("reason"@) == Some(JsonView::Text(reason))
            &&& status matches Some(code) ==> d.get("http_status"@) == Some(
                JsonView::Int(code as int),
            )
            &&& status is None ==> d.get("http_status"@) == Some(JsonView::Null)
            &&& detail.len() <= 800 ==> d.get("detail_preview"@) == Some(JsonView::Text(detail))
            &&& detail.len() > 800 ==> d.get("detail_preview"@) == Some(
                JsonView::Text(detail.take(800)),
            )
            &&& d.get("tool_chain_count"@) == Some(JsonView::Int(t.chain_count))
            &&& t.last_call matches Some((tool, input)) ==> d.at("last_tool_sig"@).get("tool"@)
                == Some(JsonView::Text(tool)) && d.at("last_tool_sig"@).get("input_sig"@) == Some(
                JsonView::Text(input),
            )
            &&& t.last_call is None ==> d.get("last_tool_sig"@) == Some(JsonView::Null)
            &&& d.get("messages"@) matches Some(JsonView::List(list)) && list.len() == ms.len() && (
            0 <= i < ms.len() ==> list[i].get("role"@) == Some(JsonView::Text(ms[i].role))
                && list[i].get("content"@) == Some(JsonView::Text(ms[i].content)))
        }),
{
    reveal_strlit("saved_at_ms");
    assert("saved_at_ms"@.len() == 11);
    reveal_strlit("reason");
    assert("reason"@.len() == 6);
    reveal_strlit("http_status");
    assert("http_status"@.len() == 11);
    reveal_strlit("detail_preview");
    assert("detail_preview"@.len() == 14);
    reveal_strlit("tool_chain_count");
    assert("tool_chain_count"@.len() == 16);
    reveal_strlit("last_tool_sig");
    assert("last_tool_sig"@.len() == 13);
    reveal_strlit("messages");
    assert("messages"@.len() == 8);
    reveal_strlit("role");
    assert("role"@.len() == 4);
    reveal_strlit("content");
    assert("content"@.len() == 7);
    reveal_strlit("tool");
    assert("tool"@.len() == 4);
    reveal_strlit("input_sig");
    assert("input_sig"@.len() == 9);
    assert("saved_at_ms"@[0] != "http_status"@[0]);
    assert("role"@[0] != "tool"@[0]);
    if 0 <= i < ms.len() {
        assert(messages_json(ms)->List_0[i] == message_json(ms[i]));
    }
}

/// A turn that waits is kept with the reason, the status and the text of its failure.
pub proof fn law_failure_is_kept(
    ms: Seq<MessageView>,
    t: TurnView,
    error: NetworkError,
    message: String,
    code: u16,
    retry_after: Option<String>,
    body: String,
    now_ms: u64,
)
    ensures
        ({
            let d = failure_document(ms, t, Failure::Network { error, message }, now_ms);
            &&& d.get("reason"@) == Some(JsonView::Text("network"@))
            &&& d.get("http_status"@) == Some(JsonView::Null)
            &&& message@.len() <= 800 ==> d.get("detail_preview"@) == Some(
                JsonView::Text(message@),
            )
        }),
        ({
            let d = failure_document(ms, t, Failure::Http { code, retry_after, body }, now_ms);
            &&& d.get("reason"@) == Some(JsonView::Text("http"@))
            &&& d.get("http_status"@) == Some(JsonView::Int(code as int))
            &&& body@.len() <= 800 ==> d.get("detail_preview"@) == Some(JsonView::Text(body@))
        }),
{
    law_frozen_fields(ms, t, "network"@, None, message@, now_ms, 0);
    law_frozen_fields(ms, t, "http"@, Some(code), body@, now_ms, 0);
}

/// The reply to a call that is not run again names the tool and says why.
pub proof fn law_duplicate_fields(name: Seq<char>)
    ensures
        duplicate_reply(name).get("status"@) == Some(JsonView::Text("skipped_duplicate"@)),
        duplicate_reply(name).get("tool"@) == Some(JsonView::Text(name)),
{
    reveal_strlit("status");
    assert("status"@.len() == 6);
    reveal_strlit("tool");
    assert("tool"@.len() == 4);
    reveal_strlit("message");
    assert("message"@.len() == 7);
}

/// What a call did to the plan is added to its result, which otherwise stays as it is.
pub proof fn law_progress_is_added(result: JsonView, note: JsonView, key: Seq<char>)
    requires
        result is Object,
    ensures
        with_progress_view(result, Some(note)).get("plan_progress"@) == Some(note),
        key != "plan_progress"@ ==> with_progress_view(result, Some(note)).get(key) == result.get(
            key,
        ),
        with_progress_view(result, None) == result,
{
}

/// The model is told the name of the tool and the whole of its result, and of the plan just where the
/// result says something of it.
pub proof fn law_feedback(name: Seq<char>, result: JsonView)
    ensures
        ({
            let base = "Resultado da tool `"@ + name + "`:\n"@ + json_pretty(result);
            let told = feedback_view(name, result);
            &&& told.len() >= base.len()
            &&& told.take(base.len() as int) == base
            &&& result.get("plan_progress"@) is None ==> told == base
            &&& result.get("plan_progress"@) is Some ==> told.len() > base.len()
        }),
{
    reveal_strlit(
        "\n\n[Sistema] plan_progress.json foi atualizado via plan_mark_done_through_step no input. Na cadeia de tools, envie só o JSON da próxima chamada, sem prosa na mesma mensagem.",
    );
    let base = "Resultado da tool `"@ + name + "`:\n"@ + json_pretty(result);
    assert(feedback_view(name, result).take(base.len() as int) =~= base);
}

/// A call is run just where fewer than 48 came before it in the turn and it is not the same as the
/// last one that was run, by its name and its input.
pub proof fn law_decision(t: TurnView, c: ToolCallView)
    requires
        t.chain_count >= 0,
    ensures
        decision(t, c) == Decision::Limit <==> t.chain_count >= 48,
        decision(t, c) == Decision::Duplicate <==> t.chain_count < 48 && t.last_call == Some(
            (c.name, json_compact(c.input)),
        ),
        turn_called(t).last_call == t.last_call,
        t.chain_count < 48 ==> turn_called(t).chain_count == t.chain_count + 1,
        turn_ran(t, c).last_call == Some((c.name, json_compact(c.input))),
        turn_ran(t, c).chain_count == t.chain_count,
{
}

/// What stands over the spinner tells the first request from the others.
pub proof fn law_headers(t: TurnView, plan_active: bool)
    ensures
        t.first_request ==> header_view(t, plan_active) == "Analisando seu pedido"@,
        !t.first_request && plan_active ==> header_view(t, plan_active)
            == "Plano ativo · próxima ferramenta"@,
        !t.first_request && !plan_active ==> header_view(t, plan_active)
            == "Continuando após ferramenta"@,
        turn_begun().first_request,
        !turn_succeeded(t).first_request,
{
}

/// A message that got no answer is taken back just where no request of the turn succeeded, and nothing
/// else of the conversation is.
pub proof fn law_taken_back(ms: Seq<MessageView>, t: TurnView)
    ensures
        t.first_request && ms.len() > 0 ==> taken_back(ms, t) == ms.take(ms.len() - 1),
        !t.first_request ==> taken_back(ms, t) == ms,
{
    if ms.len() > 0 {
        assert(ms.drop_last() =~= ms.take(ms.len() - 1));
    }
}

/// A failure is repeated by its own status or error, and only a reply can ask for a wait.
pub proof fn law_failures(
    error: NetworkError,
    message: String,
    code: u16,
    retry_after: Option<String>,
    body: String,
)
    ensures
        failure_retryable(Failure::Network { error, message }) <==> retryable_error(error),
        failure_retryable(Failure::Http { code, retry_after, body }) <==> (code == 408 || code
            == 429 || (500 <= code && code <= 599)),
        failure_asks(Failure::Network { error, message }) is None,
        retry_after is None ==> failure_asks(Failure::Http { code, retry_after, body }) is None,
        retry_after matches Some(s) ==> match asked_wait(Some(s@)) {
            Some(n) => failure_asks(Failure::Http { code, retry_after, body }) == Some(n as int),
            None => failure_asks(Failure::Http { code, retry_after, body }) is None,
        },
{
}

/// Each failure counts, doubles the pause up to two minutes, and is followed by the pause that the
/// count and the server ask for; each call counts, and a new turn has none behind it.
pub proof fn law_failures_count(t: TurnView, asked: Option<int>)
    requires
        0 <= t.consecutive_fails < 1000,
        1 <= t.backoff_secs <= 120,
    ensures
        turn_failed(t).consecutive_fails == t.consecutive_fails + 1,
        t.backoff_secs <= 60 ==> turn_failed(t).backoff_secs == 2 * t.backoff_secs,
        t.backoff_secs > 60 ==> turn_failed(t).backoff_secs == 120,
        t.consecutive_fails < 4 ==> failure_wait(t, None) == t.backoff_secs,
        t.consecutive_fails >= 4 ==> failure_wait(t, None) == t.backoff_secs + 45,
        asked matches Some(n) ==> (1 <= n <= 300 && t.consecutive_fails < 4 ==> failure_wait(t, asked)
            == n),
        turn_begun().chain_count == 0 && turn_begun().last_call is None
            && turn_begun().consecutive_fails == 0 && turn_begun().backoff_secs == 2,
        turn_succeeded(t).chain_count == t.chain_count,
        turn_succeeded(t).last_call == t.last_call,
{
}

} // verus!
