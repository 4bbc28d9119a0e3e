//! What is shown while the model thinks.
use crate::text::{contains, has_prefix, holds, starts_with, trim_start, trimmed_start};
use vstd::prelude::*;

verus! {

/// The sign before a thought that is a piece of JSON.
pub open spec fn json_prefix(t: Seq<char>) -> Option<Seq<char>> {
    let u = trimmed_start(t);
    if has_prefix(u, "{"@) && (holds(u, "\"tool\""@) || holds(u, "\"input\""@)) {
        Some("⎿ "@)
    } else if has_prefix(u, "\"tool\""@) || has_prefix(u, "\"input\""@) || has_prefix(u, "tool\""@) {
        Some("⎿ … "@)
    } else {
        None
    }
}

/// The sign before a thought that is a piece of JSON.
pub fn thinking_json_prefix(t: &str) -> (r: Option<&'static str>)
    ensures
        match (r, json_prefix(t@)) {
            (Some(p), Some(v)) => p@ == v,
            (None, None) => true,
            _ => false,
        },
{
    let u = trim_start(t);
    let u = u.as_str();
    if starts_with(u, "{") && (contains(u, "\"tool\"") || contains(u, "\"input\"")) {
        Some("⎿ ")
    } else if starts_with(u, "\"tool\"") || starts_with(u, "\"input\"") || starts_with(u, "tool\"") {
        Some("⎿ … ")
    } else {
        None
    }
}

/// The picture of the spinner after `tick` steps; ten of them go round.
pub open spec fn spinner_picture(tick: u64) -> Seq<char> {
    let k = tick % 10;
    if k == 0 {
        "⠋"@
    } else if k == 1 {
        "⠙"@
    } else if k == 2 {
        "⠹"@
    } else if k == 3 {
        "⠸"@
    } else if k == 4 {
        "⠼"@
    } else if k == 5 {
        "⠴"@
    } else if k == 6 {
        "⠦"@
    } else if k == 7 {
        "⠧"@
    } else if k == 8 {
        "⠇"@
    } else {
        "⠏"@
    }
}

/// What the spinner says after `tick` steps: every 14 steps the next, and the last one for good.
pub open spec fn spinner_says(tick: u64) -> Seq<char> {
    let k = tick / 14;
    if k == 0 {
        "conectando à API"@
    } else if k == 1 {
        "carregando mensagens"@
    } else if k == 2 {
        "aguardando o primeiro token"@
    } else if k == 3 {
        "modelo gerando texto"@
    } else {
        "avaliando ferramentas"@
    }
}

/// The picture of the spinner after `tick` steps.
pub fn spinner_frame(tick: u64) -> (r: &'static str)
    ensures
        r@ == spinner_picture(tick),
{
    let k: u64 = tick % 10;
    if k == 0 {
        "⠋"
    } else if k == 1 {
        "⠙"
    } else if k == 2 {
        "⠹"
    } else if k == 3 {
        "⠸"
    } else if k == 4 {
        "⠼"
    } else if k == 5 {
        "⠴"
    } else if k == 6 {
        "⠦"
    } else if k == 7 {
        "⠧"
    } else if k == 8 {
        "⠇"
    } else {
        "⠏"
    }
}

/// What the spinner says after `tick` steps.
pub fn spinner_phase(tick: u64) -> (r: &'static str)
    ensures
        r@ == spinner_says(tick),
{
    let k: u64 = tick / 14;
    if k == 0 {
        "conectando à API"
    } else if k == 1 {
        "carregando mensagens"
    } else if k == 2 {
        "aguardando o primeiro token"
    } else if k == 3 {
        "modelo gerando texto"
    } else {
        "avaliando ferramentas"
    }
}

/// A thought is marked as a whole object where it begins with a brace and names a tool or an input,
/// and as a piece of one where it begins with one of these names; white space before it does not
/// matter.
pub proof fn law_thought_signs(t: Seq<char>, u: Seq<char>)
    requires
        trimmed_start(t) == u,
    ensures
        ({
            let object = has_prefix(u, "{"@) && (holds(u, "\"tool\""@) || holds(u, "\"input\""@));
            let piece = has_prefix(u, "\"tool\""@) || has_prefix(u, "\"input\""@) || has_prefix(
                u,
                "tool\""@,
            );
            &&& object ==> json_prefix(t) == Some("⎿ "@)
            &&& piece && !object ==> json_prefix(t) == Some("⎿ … "@)
            &&& !object && !piece ==> json_prefix(t) is None
        }),
{
}

/// The pictures of the spinner go round, ten to a round and each another one.
pub proof fn law_spinner_goes_round(a: u64, b: u64)
    ensures
        a % 10 == b % 10 <==> spinner_picture(a) == spinner_picture(b),
{
    reveal_strlit("⠋");
    reveal_strlit("⠙");
    reveal_strlit("⠹");
    reveal_strlit("⠸");
    reveal_strlit("⠼");
    reveal_strlit("⠴");
    reveal_strlit("⠦");
    reveal_strlit("⠧");
    reveal_strlit("⠇");
    reveal_strlit("⠏");
    let k = a % 10;
    let l = b % 10;
    assert(0 <= k < 10 && 0 <= l < 10);
    assert(spinner_picture(a).len() == 1 && spinner_picture(b).len() == 1);
    if k != l {
        assert(spinner_picture(a)[0] != spinner_picture(b)[0]);
    }
}

/// The spinner says the next thing every 14 steps, and the last for good.
pub proof fn law_spinner_speaks(tick: u64)
    ensures
        tick < 14 ==> spinner_says(tick) == "conectando à API"@,
        14 <= tick < 28 ==> spinner_says(tick) == "carregando mensagens"@,
        28 <= tick < 42 ==> spinner_says(tick) == "aguardando o primeiro token"@,
        42 <= tick < 56 ==> spinner_says(tick) == "modelo gerando texto"@,
        56 <= tick ==> spinner_says(tick) == "avaliando ferramentas"@,
{
}

} // verus!
