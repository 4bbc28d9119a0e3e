//! One step of a turn: from what the model answered to what is done next.
use crate::agent::{
    call_sig, decision, duplicate_reply, feedback_view, limit_message, refuse_duplicate,
    refuse_unknown, says, tool_feedback, turn_begun, turn_called, turn_ran, with_progress,
    with_progress_view, Conversation, Decision, MessageView, Turn, TurnView,
    MAX_TOOL_CHAIN_PER_TURN,
};
use crate::extract::{extract_tool_call, extracted, optional_view, ToolCall, ToolCallView};
use crate::json::{json_compact, Json, JsonView};
use crate::plan::updated_progress;
use crate::registry::{lookup, ToolKind, ToolRegistry, ToolView};
use crate::reply::{error_view, law_error_fields};
use vstd::prelude::*;

verus! {

/// What is done next.
pub enum Step {
    /// Nothing: the answer was for the user.
    Finished,
    /// Nothing: there were too many calls.
    Stopped,
    /// The call is the same as the last one; the reply to it.
    Duplicate { call: ToolCall, reply: Json },
    /// The call names no tool; the reply to it.
    Unknown { call: ToolCall, reply: Json },
    /// The tool is run.
    Run { call: ToolCall, kind: ToolKind },
}

/// The view of what is done next.
pub enum StepView {
    Finished,
    Stopped,
    Duplicate(ToolCallView),
    Unknown(ToolCallView),
    Run(ToolCallView, ToolKind),
}

/// What is done next after an answer.
pub open spec fn step_view(t: TurnView, tools: Seq<ToolView>, answer: Seq<char>) -> StepView {
    match extracted(answer) {
        None => StepView::Finished,
        Some(c) => match decision(t, c) {
            Decision::Limit => StepView::Stopped,
            Decision::Duplicate => StepView::Duplicate(c),
            Decision::Run => match lookup(tools, c.name) {
                Some(tool) => StepView::Run(c, tool.kind),
                None => StepView::Unknown(c),
            },
        },
    }
}

/// The turn after an answer.
pub open spec fn step_turn(t: TurnView, tools: Seq<ToolView>, answer: Seq<char>) -> TurnView {
    match step_view(t, tools, answer) {
        StepView::Finished => t,
        StepView::Run(c, _) => turn_ran(turn_called(t), c),
        _ => turn_called(t),
    }
}

/// The conversation after an answer.
pub open spec fn step_messages(
    ms: Seq<MessageView>,
    t: TurnView,
    tools: Seq<ToolView>,
    answer: Seq<char>,
) -> Seq<MessageView> {
    match step_view(t, tools, answer) {
        StepView::Finished => ms.push(says("assistant"@, answer)),
        StepView::Stopped => ms.push(says("assistant"@, answer)).push(
            says("user"@, limit_message()),
        ),
        _ => ms,
    }
}

/// What is done next is the expected thing, and a call that is not run has the reply that tells why.
pub open spec fn step_is(r: Step, expected: StepView) -> bool {
    match (r, expected) {
        (Step::Finished, StepView::Finished) => true,
        (Step::Stopped, StepView::Stopped) => true,
        (Step::Duplicate { call, reply }, StepView::Duplicate(c)) => call@ == c && reply@
            == duplicate_reply(c.name),
        (Step::Unknown { call, reply }, StepView::Unknown(c)) => call@ == c && reply@ == error_view(
            "tool '"@ + c.name + "' não registrada"@,
        ),
        (Step::Run { call, kind }, StepView::Run(c, k)) => call@ == c && kind == k,
        _ => false,
    }
}

/// Decides what is done next after an answer.
pub fn next_step(
    conversation: &mut Conversation,
    turn: &mut Turn,
    registry: &ToolRegistry,
    answer: &str,
) -> (r: Step)
    ensures
        step_is(r, step_view(old(turn)@, registry@, answer@)),
        final(turn)@ == step_turn(old(turn)@, registry@, answer@),
        final(conversation)@ == step_messages(
            old(conversation)@,
            old(turn)@,
            registry@,
            answer@,
        ),
{
    let call = match extract_tool_call(answer) {
        None => {
            conversation.say("assistant", answer);
            return Step::Finished;
        },
        Some(call) => call,
    };
    match turn.decide(&call) {
        Decision::Limit => {
            conversation.stop_chain(answer);
            Step::Stopped
        },
        Decision::Duplicate => {
            let reply = refuse_duplicate(call.name.as_str());
            Step::Duplicate { call, reply }
        },
        Decision::Run => match registry.execute(call.name.as_str()) {
            Some(kind) => {
                turn.ran(&call);
                Step::Run { call, kind }
            },
            None => {
                let reply = refuse_unknown(call.name.as_str());
                Step::Unknown { call, reply }
            },
        },
    }
}

/// The result of a tool ends the chain: it says that a halt is asked for.
pub open spec fn halts_chain(result: JsonView) -> bool {
    result.bool_or("halt_requested"@, false)
}

/// Tells from the result of a tool whether the chain of tools ends with it.
pub fn chain_halts(result: &Json) -> (r: bool)
    ensures
        r == halts_chain(result@),
{
    result.bool_or("halt_requested", false)
}

/// The whole result of a call, and whether the chain of tools ends with it.
pub struct Told {
    pub result: Json,
    pub halted: bool,
}

/// Tells the model of the result of a call and of what it did to the plan.
pub fn tell_result(
    conversation: &mut Conversation,
    call: &ToolCall,
    result: Json,
    progress: Option<Json>,
) -> (r: Told)
    ensures
        r.result@ == with_progress_view(result@, optional_view(progress)),
        r.halted == halts_chain(r.result@),
        final(conversation)@ == old(conversation)@.push(
            says("user"@, feedback_view(call@.name, r.result@)),
        ),
{
    let whole = with_progress(result, progress);
    conversation.say("user", tool_feedback(call.name.as_str(), &whole).as_str());
    let halted = chain_halts(&whole);
    Told { result: whole, halted }
}

// ---------------------------------------------------------------------------
// Laws
// ---------------------------------------------------------------------------

/// The number of tools that are run for some answers in a row, until one of them ends the turn.
pub open spec fn tools_run(t: TurnView, tools: Seq<ToolView>, answers: Seq<Seq<char>>) -> nat
    decreases answers.len(),
{
    if answers.len() == 0 {
        0
    } else {
        let rest = tools_run(step_turn(t, tools, answers[0]), tools, answers.skip(1));
        match step_view(t, tools, answers[0]) {
            StepView::Finished => 0,
            StepView::Stopped => 0,
            StepView::Run(_, _) => rest + 1,
            _ => rest,
        }
    }
}

proof fn lemma_tools_run(t: TurnView, tools: Seq<ToolView>, answers: Seq<Seq<char>>)
    requires
        0 <= t.chain_count <= MAX_TOOL_CHAIN_PER_TURN,
    ensures
        tools_run(t, tools, answers) <= MAX_TOOL_CHAIN_PER_TURN - t.chain_count,
    decreases answers.len(),
{
    if answers.len() > 0 {
        let step = step_view(t, tools, answers[0]);
        if !(step is Finished) && !(step is Stopped) {
            lemma_tools_run(step_turn(t, tools, answers[0]), tools, answers.skip(1));
        }
    }
}

/// Whatever the model answers in a turn, at most 48 tools are run.
pub proof fn law_chain_is_limited(tools: Seq<ToolView>, answers: Seq<Seq<char>>)
    ensures
        tools_run(turn_begun(), tools, answers) <= MAX_TOOL_CHAIN_PER_TURN,
{
    lemma_tools_run(turn_begun(), tools, answers);
}

/// A tool is run only where the model called one that is registered, under its name and with its
/// input, and not the same call as the last one.
pub proof fn law_only_called_tools_run(t: TurnView, tools: Seq<ToolView>, answer: Seq<char>)
    ensures
        step_view(t, tools, answer) matches StepView::Run(c, kind) ==> {
            &&& extracted(answer) == Some(c)
            &&& lookup(tools, c.name) matches Some(tool) && tool.kind == kind
            &&& t.last_call != Some(call_sig(c))
        },
{
}

/// A step forgets nothing: what was said stays, and at most two messages are added.
pub proof fn law_conversation_grows(
    ms: Seq<MessageView>,
    t: TurnView,
    tools: Seq<ToolView>,
    answer: Seq<char>,
)
    ensures
        step_messages(ms, t, tools, answer).len() <= ms.len() + 2,
        step_messages(ms, t, tools, answer).take(ms.len() as int) == ms,
{
    assert(step_messages(ms, t, tools, answer).take(ms.len() as int) =~= ms);
}

/// An update of the plan ends the chain of tools just where it asks for a halt, whatever else is said
/// of the plan.
pub proof fn law_halt_ends_chain(input: JsonView, progress: JsonView, note: Option<JsonView>)
    ensures
        updated_progress(input, progress) matches Ok((_, reply)) ==> halts_chain(
            with_progress_view(reply, note),
        ) == input.bool_or("halt_execution"@, false),
{
    reveal_strlit("plan_progress");
    reveal_strlit("halt_requested");
    assert("plan_progress"@[0] != "halt_requested"@[0]);
}

/// A tool that is registered is run where the model calls it, the turn has room for it, and it is not
/// the last call once more; then the call is remembered and counted.
pub proof fn law_called_tools_run(
    t: TurnView,
    tools: Seq<ToolView>,
    answer: Seq<char>,
    c: ToolCallView,
    tool: ToolView,
)
    requires
        extracted(answer) == Some(c),
        lookup(tools, c.name) == Some(tool),
        0 <= t.chain_count < 48,
        t.last_call != Some((c.name, json_compact(c.input))),
    ensures
        step_view(t, tools, answer) == StepView::Run(c, tool.kind),
        step_turn(t, tools, answer).chain_count == t.chain_count + 1,
        step_turn(t, tools, answer).last_call == Some((c.name, json_compact(c.input))),
{
}

/// An answer without a call is kept as what the assistant said and ends the turn; one whose call is
/// one too many is kept too, with a message that says so; any other leaves the conversation as it is.
pub proof fn law_what_is_said(
    ms: Seq<MessageView>,
    t: TurnView,
    tools: Seq<ToolView>,
    answer: Seq<char>,
)
    requires
        t.chain_count >= 0,
    ensures
        extracted(answer) is None ==> {
            &&& step_view(t, tools, answer) is Finished
            &&& step_messages(ms, t, tools, answer) == ms.push(
                MessageView { role: "assistant"@, content: answer },
            )
            &&& step_turn(t, tools, answer) == t
        },
        extracted(answer) is Some && t.chain_count >= 48 ==> {
            &&& step_view(t, tools, answer) is Stopped
            &&& step_messages(ms, t, tools, answer).len() == ms.len() + 2
            &&& step_messages(ms, t, tools, answer)[ms.len() as int] == (MessageView {
                role: "assistant"@,
                content: answer,
            })
            &&& step_messages(ms, t, tools, answer)[ms.len() as int + 1].role == "user"@
        },
        extracted(answer) is Some && t.chain_count < 48 ==> step_messages(ms, t, tools, answer)
            == ms,
{
}

/// A call that names no tool, or is the last one once more, is counted but not remembered.
pub proof fn law_calls_that_are_not_run(
    t: TurnView,
    tools: Seq<ToolView>,
    answer: Seq<char>,
    c: ToolCallView,
)
    requires
        extracted(answer) == Some(c),
        0 <= t.chain_count < 48,
    ensures
        t.last_call == Some((c.name, json_compact(c.input))) ==> step_view(t, tools, answer)
            == StepView::Duplicate(c),
        t.last_call != Some((c.name, json_compact(c.input))) && lookup(tools, c.name) is None
            ==> step_view(t, tools, answer) == StepView::Unknown(c),
        lookup(tools, c.name) is None || t.last_call == Some((c.name, json_compact(c.input)))
            ==> step_turn(t, tools, answer).last_call == t.last_call && step_turn(
            t,
            tools,
            answer,
        ).chain_count == t.chain_count + 1,
{
}

/// What is done names the call that it is about: a refused one comes with the reply that tells why,
/// and one that is run with the kind of its tool.
pub proof fn law_steps(r: Step, expected: StepView)
    requires
        step_is(r, expected),
    ensures
        r is Finished <==> expected is Finished,
        r is Stopped <==> expected is Stopped,
        r is Duplicate <==> expected is Duplicate,
        r is Unknown <==> expected is Unknown,
        r is Run <==> expected is Run,
        r matches Step::Run { call, kind } ==> expected == StepView::Run(call@, kind),
        r matches Step::Duplicate { call, reply } ==> {
            &&& expected == StepView::Duplicate(call@)
            &&& reply@ == duplicate_reply(call@.name)
        },
        r matches Step::Unknown { call, reply } ==> {
            &&& expected == StepView::Unknown(call@)
            &&& reply@.get("status"@) == Some(JsonView::Text("error"@))
            &&& reply@.get("error"@) == Some(
                JsonView::Text("tool '"@ + call@.name + "' não registrada"@),
            )
        },
{
    if let Step::Unknown { call, reply } = r {
        law_error_fields("tool '"@ + call@.name + "' não registrada"@);
    }
}

/// The result of a tool ends the chain just where it says that a halt is asked for.
pub proof fn law_halting_results(result: JsonView)
    ensures
        halts_chain(result) <==> result.get("halt_requested"@) == Some(JsonView::Bool(true)),
{
}

} // verus!
