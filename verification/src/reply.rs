//! The replies that tools give.
use crate::json::{empty_object, object, text, Json, JsonView};
use vstd::prelude::*;

verus! {

/// The reply of a tool that failed.
pub open spec fn error_view(message: Seq<char>) -> JsonView {
    empty_object().with("status"@, JsonView::Text("error"@)).with("error"@, JsonView::Text(message))
}

/// The beginning of the reply of a tool that succeeded.
pub open spec fn ok_view() -> JsonView {
    empty_object().with("status"@, JsonView::Text("ok"@))
}

/// A text, or `null` where there is none.
pub open spec fn optional_text(t: Option<Seq<char>>) -> JsonView {
    match t {
        Some(s) => JsonView::Text(s),
        None => JsonView::Null,
    }
}

/// Tells of a failure.
pub fn error(message: &str) -> (j: Json)
    ensures
        j@ == error_view(message@),
{
    object().with("status", text("error")).with("error", text(message))
}

/// Begins the reply of a tool that succeeded.
pub fn ok() -> (j: Json)
    ensures
        j@ == ok_view(),
{
    object().with("status", text("ok"))
}

/// Takes a text that may be missing as a JSON value.
pub fn text_or_null(t: &Option<String>) -> (j: Json)
    ensures
        j@ == optional_text(optional(*t)),
{
    match t {
        Some(s) => text(s.as_str()),
        None => Json::Null,
    }
}

/// The text of a string that may be missing.
pub open spec fn optional(t: Option<String>) -> Option<Seq<char>> {
    match t {
        Some(s) => Some(s@),
        None => None,
    }
}

/// What an action that the host carried out gave: done, or the message of its error.
pub open spec fn outcome_view(r: Result<(), String>) -> Result<(), Seq<char>> {
    match r {
        Ok(()) => Ok(()),
        Err(e) => Err(e@),
    }
}

/// What a text that the host read gave: the text, or the message of its error.
pub open spec fn read_view(r: Result<String, String>) -> Result<Seq<char>, Seq<char>> {
    match r {
        Ok(s) => Ok(s@),
        Err(e) => Err(e@),
    }
}

/// A reply that is given once something was written, or the error of writing it.
pub open spec fn written_view(reply: JsonView, outcome: Result<(), Seq<char>>) -> JsonView {
    match outcome {
        Ok(()) => reply,
        Err(e) => error_view(e),
    }
}

/// Gives a reply once something was written, or tells why it was not.
pub fn after_writing(reply: Json, outcome: Result<(), String>) -> (j: Json)
    ensures
        j@ == written_view(reply@, outcome_view(outcome)),
{
    match outcome {
        Ok(()) => reply,
        Err(e) => error(e.as_str()),
    }
}

/// A reply that tells of a failure says so, and gives the message.
pub proof fn law_error_fields(message: Seq<char>)
    ensures
        error_view(message).get("status"@) == Some(JsonView::Text("error"@)),
        error_view(message).get("error"@) == Some(JsonView::Text(message)),
{
    reveal_strlit("status");
    assert("status"@.len() == 6);
    reveal_strlit("error");
    assert("error"@.len() == 5);
}

/// A reply of a tool that succeeded says so.
pub proof fn law_ok_field()
    ensures
        ok_view().get("status"@) == Some(JsonView::Text("ok"@)),
        forall|key: Seq<char>| key != "status"@ ==> #[trigger] ok_view().get(key) is None,
{
}

/// A reply is given just where writing succeeded, and the message of the error elsewhere.
pub proof fn law_written_or_error(reply: JsonView, message: Seq<char>)
    ensures
        written_view(reply, Ok(())) == reply,
        written_view(reply, Err(message)).get("status"@) == Some(JsonView::Text("error"@)),
        written_view(reply, Err(message)).get("error"@) == Some(JsonView::Text(message)),
{
    law_error_fields(message);
}

} // verus!
