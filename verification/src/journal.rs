//! The files to which the agent appends what it did, thought and lacked, one JSON value on a line.
use crate::codec::compact;
use crate::json::{
    empty_object, json_compact, object, reads_as, storable, text, Json, JsonView,
};
use crate::plan::{empty_list, field, field_or, no_items};
use crate::reply::{error, error_view, law_error_fields, ok, ok_view, outcome_view};
use crate::text::{blank, byte_len, bytes_in, cat, trimmed};
use vstd::prelude::*;

verus! {

/// The file with the steps of automation.
pub const AUTOMATION_AUDIT_FILE: &'static str = "automation_audit.jsonl";

/// The file with what the agent thought of its work.
pub const REFLECTIONS_FILE: &'static str = "self_reflections.jsonl";

/// The file with the tools that the agent asked for.
pub const PENDING_TOOLS_FILE: &'static str = "pending_tools.jsonl";

/// A line that is appended: a JSON value and a line break.
pub open spec fn journal_line(entry: JsonView) -> Seq<char> {
    json_compact(entry) + "\n"@
}

/// A line that can be appended and read again: its only line break is at its end, and what stands
/// before it is read as the entry, where the entry can be stored.
pub open spec fn readable_line(line: Seq<char>, entry: JsonView) -> bool {
    &&& line == journal_line(entry)
    &&& line.len() > 0
    &&& line.last() == '\n'
    &&& !line.drop_last().contains('\n')
    &&& storable(entry) ==> reads_as(line.drop_last(), entry)
}

fn line_of(entry: &Json) -> (r: String)
    ensures
        readable_line(r@, entry@),
{
    proof {
        reveal_strlit("\n");
    }
    let body = compact(entry);
    let r = cat(body.as_str(), "\n");
    assert(r@.drop_last() =~= body@);
    r
}

/// A line to be appended, or the reply that refuses it, is the expected one.
pub open spec fn journalled(
    r: Result<String, Json>,
    expected: Result<JsonView, Seq<char>>,
) -> bool {
    match (r, expected) {
        (Ok(line), Ok(entry)) => readable_line(line@, entry),
        (Err(e), Err(m)) => e@ == error_view(m),
        _ => false,
    }
}

/// The entry on a step of automation, or why there is none.
pub open spec fn automation_entry(input: JsonView, now_ms: u64) -> Result<JsonView, Seq<char>> {
    let step = input.text_or("step"@, "step"@);
    let detail = input.text_or("detail"@, ""@);
    let level = input.text_or("level"@, "info"@);
    if byte_len(step) > 512 || byte_len(detail) > 8192 || byte_len(level) > 32 {
        Err("step/detail/level demasiado longos"@)
    } else {
        Ok(audit_entry(now_ms, level, step, detail))
    }
}

/// An entry in the file with the steps of automation.
pub open spec fn audit_entry(
    now_ms: u64,
    level: Seq<char>,
    step: Seq<char>,
    detail: Seq<char>,
) -> JsonView {
    empty_object().with("ts_ms"@, JsonView::Int(now_ms as int)).with(
        "level"@,
        JsonView::Text(level),
    ).with("step"@, JsonView::Text(step)).with("detail"@, JsonView::Text(detail))
}

fn write_audit_entry(now_ms: u64, level: &str, step: &str, detail: &str) -> (j: Json)
    ensures
        j@ == audit_entry(now_ms, level@, step@, detail@),
{
    object().with("ts_ms", Json::Uint(now_ms)).with("level", text(level)).with(
        "step",
        text(step),
    ).with("detail", text(detail))
}

/// Writes the line on a step of automation.
pub fn automation_log(input: &Json, now_ms: u64) -> (r: Result<String, Json>)
    ensures
        journalled(r, automation_entry(input@, now_ms)),
{
    let step = input.text_or("step", "step");
    let detail = input.text_or("detail", "");
    let level = input.text_or("level", "info");
    if bytes_in(step) > 512 || bytes_in(detail) > 8192 || bytes_in(level) > 32 {
        return Err(error("step/detail/level demasiado longos"));
    }
    Ok(line_of(&write_audit_entry(now_ms, level, step, detail)))
}

/// The entry on a tool that was run, with the status of its reply.
pub open spec fn action_entry(tool: Seq<char>, result: JsonView, now_ms: u64) -> JsonView {
    audit_entry(now_ms, "action"@, tool, result.text_or("status"@, ""@))
}

/// Writes the line on a tool that was run.
pub fn action_log(tool: &str, result: &Json, now_ms: u64) -> (r: String)
    ensures
        readable_line(r@, action_entry(tool@, result@, now_ms)),
{
    line_of(&write_audit_entry(now_ms, "action", tool, result.text_or("status", "")))
}

/// The entry on what the agent thought of its work, or why there is none.
pub open spec fn reflection_entry(input: JsonView, now_ms: u64) -> Result<JsonView, Seq<char>> {
    let critique = input.text_or("critique"@, ""@);
    if trimmed(critique).len() == 0 {
        Err("preencha critique (texto obrigatório)"@)
    } else {
        Ok(
            empty_object().with("critique"@, JsonView::Text(critique)).with(
                "improvement_hypothesis"@,
                JsonView::Text(input.text_or("improvement_hypothesis"@, ""@)),
            ).with("severity"@, JsonView::Text(input.text_or("severity"@, "medium"@))).with(
                "next_experiments"@,
                field_or(input, "next_experiments"@, empty_list()),
            ).with("ts_ms"@, JsonView::Int(now_ms as int)),
        )
    }
}

/// Writes the line on what the agent thought of its work.
pub fn reflect_session(input: &Json, now_ms: u64) -> (r: Result<String, Json>)
    ensures
        journalled(r, reflection_entry(input@, now_ms)),
{
    let critique = input.text_or("critique", "");
    if blank(critique) {
        return Err(error("preencha critique (texto obrigatório)"));
    }
    let entry = object().with("critique", text(critique)).with(
        "improvement_hypothesis",
        text(input.text_or("improvement_hypothesis", "")),
    ).with("severity", text(input.text_or("severity", "medium"))).with(
        "next_experiments",
        field(input, "next_experiments", no_items()),
    ).with("ts_ms", Json::Uint(now_ms));
    Ok(line_of(&entry))
}

/// The entry on a tool that the agent asks for.
pub open spec fn wanted_tool_entry(input: JsonView, now_ms: u64) -> JsonView {
    empty_object().with("name"@, JsonView::Text(input.text_or("name"@, "unknown"@))).with(
        "description"@,
        JsonView::Text(input.text_or("description"@, ""@)),
    ).with("suggested_impl"@, JsonView::Text(input.text_or("suggested_impl"@, ""@))).with(
        "requested_at_ms"@,
        JsonView::Int(now_ms as int),
    )
}

/// Writes the line on a tool that the agent asks for.
pub fn create_tool(input: &Json, now_ms: u64) -> (r: String)
    ensures
        readable_line(r@, wanted_tool_entry(input@, now_ms)),
{
    let entry = object().with("name", text(input.text_or("name", "unknown"))).with(
        "description",
        text(input.text_or("description", "")),
    ).with("suggested_impl", text(input.text_or("suggested_impl", ""))).with(
        "requested_at_ms",
        Json::Uint(now_ms),
    );
    line_of(&entry)
}

/// The reply to appending a line: whether the state directory is there, a note, the path of the
/// file, and how appending went.
pub open spec fn appended_view(
    dir_ok: bool,
    note: Option<Seq<char>>,
    path: Seq<char>,
    outcome: Result<(), Seq<char>>,
) -> JsonView {
    if !dir_ok {
        error_view("não foi possível criar .toolmind"@)
    } else {
        match outcome {
            Ok(()) => match note {
                Some(n) => ok_view().with("note"@, JsonView::Text(n)).with(
                    "path"@,
                    JsonView::Text(path),
                ),
                None => ok_view().with("path"@, JsonView::Text(path)),
            },
            Err(e) => error_view(e),
        }
    }
}

/// Tells how appending a line went.
pub fn line_appended(dir_ok: bool, path: &str, outcome: &Result<(), String>) -> (j: Json)
    ensures
        j@ == appended_view(dir_ok, None, path@, outcome_view(*outcome)),
{
    if !dir_ok {
        return error("não foi possível criar .toolmind");
    }
    match outcome {
        Ok(()) => ok().with("path", text(path)),
        Err(e) => error(e.as_str()),
    }
}

/// Tells how appending the line on a tool that the agent asks for went.
pub fn tool_requested(dir_ok: bool, path: &str, outcome: &Result<(), String>) -> (j: Json)
    ensures
        j@ == appended_view(
            dir_ok,
            Some(
                "Pedido anexado a .toolmind/pending_tools.jsonl para você integrar em Rust."@,
            ),
            path@,
            outcome_view(*outcome),
        ),
{
    if !dir_ok {
        return error("não foi possível criar .toolmind");
    }
    match outcome {
        Ok(()) => ok().with(
            "note",
            text("Pedido anexado a .toolmind/pending_tools.jsonl para você integrar em Rust."),
        ).with("path", text(path)),
        Err(e) => error(e.as_str()),
    }
}

// ---------------------------------------------------------------------------
// Laws
// ---------------------------------------------------------------------------

/// An entry on a step of automation holds the step, the detail and the level of the call and the time.
pub proof fn law_audit_fields(input: JsonView, now_ms: u64)
    ensures
        automation_entry(input, now_ms) matches Ok(e) ==> {
            &&& e.get("ts_ms"@) == Some(JsonView::Int(now_ms as int))
            &&& input.get("step"@) matches Some(JsonView::Text(t)) ==> e.get("step"@) == Some(
                JsonView::Text(t),
            )
            &&& input.get("detail"@) matches Some(JsonView::Text(t)) ==> e.get("detail"@) == Some(
                JsonView::Text(t),
            )
            &&& input.get("level"@) matches Some(JsonView::Text(t)) ==> e.get("level"@) == Some(
                JsonView::Text(t),
            )
            &&& input.get("step"@) is None ==> e.get("step"@) == Some(JsonView::Text("step"@))
            &&& input.get("detail"@) is None ==> e.get("detail"@) == Some(JsonView::Text(""@))
            &&& input.get("level"@) is None ==> e.get("level"@) == Some(JsonView::Text("info"@))
        },
        automation_entry(input, now_ms) is Ok <==> {
            &&& vstd::utf8::encode_utf8(input.text_or("step"@, "step"@)).len() <= 512
            &&& vstd::utf8::encode_utf8(input.text_or("detail"@, ""@)).len() <= 8192
            &&& vstd::utf8::encode_utf8(input.text_or("level"@, "info"@)).len() <= 32
        },
{
    reveal_strlit("ts_ms");
    assert("ts_ms"@.len() == 5);
    reveal_strlit("level");
    assert("level"@.len() == 5);
    reveal_strlit("step");
    assert("step"@.len() == 4);
    reveal_strlit("detail");
    assert("detail"@.len() == 6);
    assert("ts_ms"@[0] != "level"@[0]);
}

/// The entry on a tool that was run names it, with the status of its reply and the time.
pub proof fn law_action_fields(tool: Seq<char>, result: JsonView, now_ms: u64)
    ensures
        ({
            let e = action_entry(tool, result, now_ms);
            &&& e.get("ts_ms"@) == Some(JsonView::Int(now_ms as int))
            &&& e.get("step"@) == Some(JsonView::Text(tool))
            &&& result.get("status"@) matches Some(JsonView::Text(t)) ==> e.get("detail"@) == Some(
                JsonView::Text(t),
            )
        }),
{
    reveal_strlit("ts_ms");
    assert("ts_ms"@.len() == 5);
    reveal_strlit("level");
    assert("level"@.len() == 5);
    reveal_strlit("step");
    assert("step"@.len() == 4);
    reveal_strlit("detail");
    assert("detail"@.len() == 6);
    assert("ts_ms"@[0] != "level"@[0]);
}

/// The entry on what the agent thought holds the critique, the hypothesis, the severity and the
/// experiments of the call and the time; there is none just where the critique is blank.
pub proof fn law_reflection_fields(input: JsonView, now_ms: u64)
    ensures
        reflection_entry(input, now_ms) matches Ok(e) ==> {
            &&& e.get("critique"@) == input.get("critique"@)
            &&& input.get("improvement_hypothesis"@) matches Some(JsonView::Text(t)) ==> e.get(
                "improvement_hypothesis"@,
            ) == Some(JsonView::Text(t))
            &&& input.get("severity"@) matches Some(JsonView::Text(t)) ==> e.get("severity"@)
                == Some(JsonView::Text(t))
            &&& input.get("severity"@) is None ==> e.get("severity"@) == Some(
                JsonView::Text("medium"@),
            )
            &&& input.get("next_experiments"@) is Some ==> e.get("next_experiments"@) == input.get(
                "next_experiments"@,
            )
            &&& input.get("next_experiments"@) is None ==> e.get("next_experiments"@) == Some(
                JsonView::List(seq![]),
            )
            &&& e.get("ts_ms"@) == Some(JsonView::Int(now_ms as int))
        },
        reflection_entry(input, now_ms) is Ok <==> (input.get("critique"@) matches Some(
            JsonView::Text(t),
        ) && trimmed(t).len() > 0),
{
    reveal_strlit("critique");
    assert("critique"@.len() == 8);
    reveal_strlit("improvement_hypothesis");
    assert("improvement_hypothesis"@.len() == 22);
    reveal_strlit("severity");
    assert("severity"@.len() == 8);
    reveal_strlit("next_experiments");
    assert("next_experiments"@.len() == 16);
    reveal_strlit("ts_ms");
    assert("ts_ms"@.len() == 5);
    assert("critique"@[0] != "severity"@[0]);
    reveal_strlit("");
    assert(trimmed(""@).len() == 0);
}

/// The entry on a tool that is asked for holds the name, the description and the suggestion of the
/// call and the time.
pub proof fn law_wanted_tool_fields(input: JsonView, now_ms: u64)
    ensures
        ({
            let e = wanted_tool_entry(input, now_ms);
            &&& input.get("name"@) matches Some(JsonView::Text(t)) ==> e.get("name"@) == Some(
                JsonView::Text(t),
            )
            &&& input.get("name"@) is None ==> e.get("name"@) == Some(JsonView::Text("unknown"@))
            &&& input.get("description"@) matches Some(JsonView::Text(t)) ==> e.get("description"@)
                == Some(JsonView::Text(t))
            &&& input.get("suggested_impl"@) matches Some(JsonView::Text(t)) ==> e.get(
                "suggested_impl"@,
            ) == Some(JsonView::Text(t))
            &&& e.get("requested_at_ms"@) == Some(JsonView::Int(now_ms as int))
        }),
{
    reveal_strlit("name");
    assert("name"@.len() == 4);
    reveal_strlit("description");
    assert("description"@.len() == 11);
    reveal_strlit("suggested_impl");
    assert("suggested_impl"@.len() == 14);
    reveal_strlit("requested_at_ms");
    assert("requested_at_ms"@.len() == 15);
}

/// The reply to appending a line names the file, or tells why the line was not appended.
pub proof fn law_appended_fields(note: Option<Seq<char>>, path: Seq<char>, message: Seq<char>)
    ensures
        ({
            let r = appended_view(true, note, path, Ok(()));
            &&& r.get("status"@) == Some(JsonView::Text("ok"@))
            &&& r.get("path"@) == Some(JsonView::Text(path))
            &&& note matches Some(n) ==> r.get("note"@) == Some(JsonView::Text(n))
        }),
        appended_view(true, note, path, Err(message)) == error_view(message),
        appended_view(false, note, path, Ok(())).get("status"@) == Some(JsonView::Text("error"@)),
{
    reveal_strlit("status");
    assert("status"@.len() == 6);
    reveal_strlit("path");
    assert("path"@.len() == 4);
    reveal_strlit("note");
    assert("note"@.len() == 4);
    reveal_strlit("error");
    assert("error"@.len() == 5);
    assert("path"@[0] != "note"@[0]);
}

/// A line that is appended is one line, and reads as its entry; a refusal holds its message.
pub proof fn law_journalled(r: Result<String, Json>, expected: Result<JsonView, Seq<char>>)
    requires
        journalled(r, expected),
    ensures
        r is Ok <==> expected is Ok,
        r matches Ok(line) ==> {
            &&& line@.len() > 0 && line@.last() == '\n' && !line@.drop_last().contains('\n')
            &&& storable(expected->Ok_0) ==> reads_as(line@.drop_last(), expected->Ok_0)
        },
        r matches Err(e) ==> e@.get("error"@) == Some(JsonView::Text(expected->Err_0)),
{
    if expected is Err {
        law_error_fields(expected->Err_0);
    }
}

/// What a call leaves out of an entry is an empty text there; a tool without a status has none in its
/// entry either, and the level of that entry tells that it was run.
pub proof fn law_missing_fields(input: JsonView, tool: Seq<char>, result: JsonView, now_ms: u64)
    ensures
        action_entry(tool, result, now_ms).get("level"@) == Some(JsonView::Text("action"@)),
        !(result.at("status"@) is Text) ==> action_entry(tool, result, now_ms).get("detail"@)
            == Some(JsonView::Text(""@)),
        input.get("description"@) is None ==> wanted_tool_entry(input, now_ms).get("description"@)
            == Some(JsonView::Text(""@)),
        input.get("suggested_impl"@) is None ==> wanted_tool_entry(input, now_ms).get(
            "suggested_impl"@,
        ) == Some(JsonView::Text(""@)),
        reflection_entry(input, now_ms) matches Ok(e) ==> (input.get("improvement_hypothesis"@) is None
            ==> e.get("improvement_hypothesis"@) == Some(JsonView::Text(""@))),
{
    reveal_strlit("ts_ms");
    assert("ts_ms"@.len() == 5);
    reveal_strlit("level");
    assert("level"@.len() == 5);
    reveal_strlit("step");
    assert("step"@.len() == 4);
    reveal_strlit("detail");
    assert("detail"@.len() == 6);
    reveal_strlit("name");
    assert("name"@.len() == 4);
    reveal_strlit("description");
    assert("description"@.len() == 11);
    reveal_strlit("suggested_impl");
    assert("suggested_impl"@.len() == 14);
    reveal_strlit("requested_at_ms");
    assert("requested_at_ms"@.len() == 15);
    reveal_strlit("critique");
    assert("critique"@.len() == 8);
    reveal_strlit("improvement_hypothesis");
    assert("improvement_hypothesis"@.len() == 22);
    reveal_strlit("severity");
    assert("severity"@.len() == 8);
    reveal_strlit("next_experiments");
    assert("next_experiments"@.len() == 16);
    assert("ts_ms"@[0] != "level"@[0]);
    assert("step"@[0] != "name"@[0]);
    assert("critique"@[0] != "severity"@[0]);
}

} // verus!
