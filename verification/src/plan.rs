//! The plan of the agent, and how far it has been carried out.
use crate::codec::{parse, pretty};
use crate::json::{
    empty_object, json_parse, json_pretty, lemma_field_nests, lemma_list_view, lemma_with_nests,
    nests_within, object, reads_as, storable, text, views, Json, JsonView,
};
use crate::numbers::{decimal, write_decimal};
use crate::paths::{file_in, state_path, TOOLMIND_DIR};
use crate::reply::{error, error_view, ok, ok_view, outcome_view, read_view};
use crate::text::{cat, same};
use vstd::prelude::*;

verus! {

/// The file with the progress.
pub const PLAN_PROGRESS_FILE: &'static str = "plan_progress.json";

/// The file with the plan.
pub const PLAN_FILE: &'static str = "current_plan.json";

/// The path of the plan.
pub fn plan_current_path() -> (r: String)
    ensures
        file_in(r@, TOOLMIND_DIR@, PLAN_FILE@),
{
    proof {
        reveal_strlit("current_plan.json");
        reveal_strlit(".");
        reveal_strlit("..");
        assert("current_plan.json"@.len() != "."@.len());
        assert("current_plan.json"@.len() != ".."@.len());
    }
    state_path(PLAN_FILE)
}

/// The path of the progress.
pub fn plan_progress_path() -> (r: String)
    ensures
        file_in(r@, TOOLMIND_DIR@, PLAN_PROGRESS_FILE@),
{
    proof {
        reveal_strlit("plan_progress.json");
        reveal_strlit(".");
        reveal_strlit("..");
        assert("plan_progress.json"@.len() != "."@.len());
        assert("plan_progress.json"@.len() != ".."@.len());
    }
    state_path(PLAN_PROGRESS_FILE)
}

// ---------------------------------------------------------------------------
// Saving
// ---------------------------------------------------------------------------

/// A field of an input, or `default` where it is missing.
pub open spec fn field_or(input: JsonView, key: Seq<char>, default: JsonView) -> JsonView {
    match input.get(key) {
        Some(v) => v,
        None => default,
    }
}

/// The list without items.
pub open spec fn empty_list() -> JsonView {
    JsonView::List(seq![])
}

/// The title of the plan in an input.
pub open spec fn plan_title(input: JsonView) -> Seq<char> {
    input.text_or("title"@, "plano"@)
}

/// The document that holds a plan.
pub open spec fn plan_document(input: JsonView, now_ms: u64) -> JsonView {
    empty_object().with("title"@, JsonView::Text(plan_title(input))).with(
        "steps"@,
        input.at("steps"@),
    ).with("saved_at_ms"@, JsonView::Int(now_ms as int)).with(
        "risks"@,
        field_or(input, "risks"@, empty_list()),
    ).with("open_questions"@, field_or(input, "open_questions"@, empty_list())).with(
        "definition_of_done"@,
        field_or(input, "definition_of_done"@, empty_list()),
    ).with("assumptions"@, field_or(input, "assumptions"@, empty_list())).with(
        "notes"@,
        field_or(input, "notes"@, JsonView::Text(""@)),
    ).with("alternatives_rejected"@, field_or(input, "alternatives_rejected"@, empty_list()))
}

/// The number of steps of a plan.
pub open spec fn step_count(plan: JsonView) -> nat {
    match plan.at("steps"@).as_list() {
        Some(steps) => steps.len(),
        None => 0,
    }
}

/// `n` steps that are all to be done.
pub open spec fn all_pending(n: nat) -> Seq<JsonView> {
    Seq::new(n, |i: int| JsonView::Text("pending"@))
}

/// The document that holds the progress of a plan that was just saved.
pub open spec fn progress_document(title: Seq<char>, plan: JsonView) -> JsonView {
    empty_object().with("title"@, JsonView::Text(title)).with(
        "plan_sync_key"@,
        plan.at("saved_at_ms"@),
    ).with("step_statuses"@, JsonView::List(all_pending(step_count(plan)))).with(
        "halt_requested"@,
        JsonView::Bool(false),
    ).with("halt_reason"@, JsonView::Text(""@))
}

/// The texts of the two files that hold a plan.
pub struct PlanFiles {
    pub plan: String,
    pub progress: String,
}

pub(crate) fn field(input: &Json, key: &str, default: Json) -> (j: Json)
    ensures
        j@ == field_or(input@, key@, default@),
{
    match input.get(key) {
        Some(v) => v.copy(),
        None => default,
    }
}

pub(crate) fn no_items() -> (j: Json)
    ensures
        j@ == empty_list(),
{
    broadcast use lemma_list_view;

    let items: Vec<Json> = Vec::new();
    assert(views(items@) =~= seq![]);
    Json::List(items)
}

/// Begins the progress of a plan: every step is to be done.
pub fn init_plan_progress(title: &str, plan: &Json) -> (j: Json)
    ensures
        j@ == progress_document(title@, plan@),
{
    broadcast use lemma_list_view;

    let n: usize = match plan.list_at("steps") {
        Some(steps) => steps.len(),
        None => 0,
    };
    assert(n == step_count(plan@));
    let mut statuses: Vec<Json> = Vec::new();
    for i in 0..n
        invariant
            statuses@.len() == i,
            forall|k: int|
                0 <= k < i ==> (#[trigger] statuses@[k])@ == JsonView::Text("pending"@),
    {
        statuses.push(text("pending"));
    }
    assert(views(statuses@) =~= all_pending(n as nat));
    object().with("title", text(title)).with("plan_sync_key", plan.at("saved_at_ms")).with(
        "step_statuses",
        Json::List(statuses),
    ).with("halt_requested", Json::Bool(false)).with("halt_reason", text(""))
}

proof fn lemma_field_or(input: JsonView, key: Seq<char>, default: JsonView)
    requires
        nests_within(input, 127),
        nests_within(default, 126),
    ensures
        nests_within(field_or(input, key, default), 126),
{
    lemma_field_nests(input, key, 127);
}

proof fn lemma_plan_storable(input: JsonView, now_ms: u64)
    requires
        storable(input),
    ensures
        storable(plan_document(input, now_ms)),
        storable(progress_document(plan_title(input), plan_document(input, now_ms))),
{
    let v = empty_object();
    assert(nests_within(v, 127));
    let t = JsonView::Text(plan_title(input));
    lemma_with_nests(v, "title"@, t, 127);
    let v = v.with("title"@, t);
    lemma_field_nests(input, "steps"@, 127);
    lemma_with_nests(v, "steps"@, input.at("steps"@), 127);
    let v = v.with("steps"@, input.at("steps"@));
    let now = JsonView::Int(now_ms as int);
    lemma_with_nests(v, "saved_at_ms"@, now, 127);
    let v = v.with("saved_at_ms"@, now);
    assert(nests_within(empty_list(), 126));
    lemma_field_or(input, "risks"@, empty_list());
    let f = field_or(input, "risks"@, empty_list());
    lemma_with_nests(v, "risks"@, f, 127);
    let v = v.with("risks"@, f);
    lemma_field_or(input, "open_questions"@, empty_list());
    let f = field_or(input, "open_questions"@, empty_list());
    lemma_with_nests(v, "open_questions"@, f, 127);
    let v = v.with("open_questions"@, f);
    lemma_field_or(input, "definition_of_done"@, empty_list());
    let f = field_or(input, "definition_of_done"@, empty_list());
    lemma_with_nests(v, "definition_of_done"@, f, 127);
    let v = v.with("definition_of_done"@, f);
    lemma_field_or(input, "assumptions"@, empty_list());
    let f = field_or(input, "assumptions"@, empty_list());
    lemma_with_nests(v, "assumptions"@, f, 127);
    let v = v.with("assumptions"@, f);
    lemma_field_or(input, "notes"@, JsonView::Text(""@));
    let f = field_or(input, "notes"@, JsonView::Text(""@));
    lemma_with_nests(v, "notes"@, f, 127);
    let v = v.with("notes"@, f);
    lemma_field_or(input, "alternatives_rejected"@, empty_list());
    let f = field_or(input, "alternatives_rejected"@, empty_list());
    lemma_with_nests(v, "alternatives_rejected"@, f, 127);

    let plan = plan_document(input, now_ms);
    let p = empty_object();
    lemma_with_nests(p, "title"@, t, 127);
    let p = p.with("title"@, t);
    lemma_field_nests(plan, "saved_at_ms"@, 127);
    lemma_with_nests(p, "plan_sync_key"@, plan.at("saved_at_ms"@), 127);
    let p = p.with("plan_sync_key"@, plan.at("saved_at_ms"@));
    let s = JsonView::List(all_pending(step_count(plan)));
    assert forall|i: int| 0 <= i < all_pending(step_count(plan)).len() implies nests_within(
        #[trigger] all_pending(step_count(plan))[i],
        125,
    ) by {}
    lemma_with_nests(p, "step_statuses"@, s, 127);
    let p = p.with("step_statuses"@, s);
    lemma_with_nests(p, "halt_requested"@, JsonView::Bool(false), 127);
    let p = p.with("halt_requested"@, JsonView::Bool(false));
    lemma_with_nests(p, "halt_reason"@, JsonView::Text(""@), 127);
}

/// Writes the documents of a plan and of its progress. Loading them gives back what was saved.
pub fn save_plan(input: &Json, now_ms: u64) -> (r: PlanFiles)
    ensures
        r.plan@ == json_pretty(plan_document(input@, now_ms)),
        r.progress@ == json_pretty(
            progress_document(plan_title(input@), plan_document(input@, now_ms)),
        ),
        storable(input@) ==> loaded_plan(Ok(r.plan@), Ok(r.progress@)) == ok_view().with(
            "plan"@,
            plan_document(input@, now_ms),
        ).with(
            "progress"@,
            progress_document(plan_title(input@), plan_document(input@, now_ms)),
        ),
{
    let title = input.text_or("title", "plano");
    let doc = object().with("title", text(title)).with("steps", input.at("steps")).with(
        "saved_at_ms",
        Json::Uint(now_ms),
    ).with("risks", field(input, "risks", no_items())).with(
        "open_questions",
        field(input, "open_questions", no_items()),
    ).with("definition_of_done", field(input, "definition_of_done", no_items())).with(
        "assumptions",
        field(input, "assumptions", no_items()),
    ).with("notes", field(input, "notes", text(""))).with(
        "alternatives_rejected",
        field(input, "alternatives_rejected", no_items()),
    );
    let progress = init_plan_progress(title, &doc);
    proof {
        if storable(input@) {
            lemma_plan_storable(input@, now_ms);
        }
    }
    PlanFiles { plan: pretty(&doc), progress: pretty(&progress) }
}

/// What is said of the file with the progress.
pub open spec fn progress_note(progress: Result<(), Seq<char>>) -> Seq<char> {
    match progress {
        Ok(()) => TOOLMIND_DIR@ + "/"@ + PLAN_PROGRESS_FILE@,
        Err(e) => "(progresso não inicializado: "@ + e + ")"@,
    }
}

/// The reply to saving a plan: whether the state directory is there, the path of the plan, and how
/// writing each file went.
pub open spec fn plan_saved_view(
    dir_ok: bool,
    path: Seq<char>,
    plan: Result<(), Seq<char>>,
    progress: Result<(), Seq<char>>,
) -> JsonView {
    if !dir_ok {
        error_view("não foi possível criar .toolmind"@)
    } else {
        match plan {
            Ok(()) => ok_view().with("path"@, JsonView::Text(path)).with(
                "plan_progress_path"@,
                JsonView::Text(progress_note(progress)),
            ).with(
                "hint"@,
                JsonView::Text(
                    "Progresso: update_plan_step ou, em qualquer tool com status ok, plan_mark_done_through_step (índice inclusivo). halt_execution:true para parar a cadeia."@,
                ),
            ),
            Err(e) => error_view(e),
        }
    }
}

/// Tells how saving a plan went.
pub fn plan_saved(
    dir_ok: bool,
    path: &str,
    plan: &Result<(), String>,
    progress: &Result<(), String>,
) -> (j: Json)
    ensures
        j@ == plan_saved_view(dir_ok, path@, outcome_view(*plan), outcome_view(*progress)),
{
    if !dir_ok {
        return error("não foi possível criar .toolmind");
    }
    match plan {
        Ok(()) => {
            let note = match progress {
                Ok(()) => cat(cat(TOOLMIND_DIR, "/").as_str(), PLAN_PROGRESS_FILE),
                Err(e) => cat(
                    cat("(progresso não inicializado: ", e.as_str()).as_str(),
                    ")",
                ),
            };
            ok().with("path", text(path)).with("plan_progress_path", text(note.as_str())).with(
                "hint",
                text(
                    "Progresso: update_plan_step ou, em qualquer tool com status ok, plan_mark_done_through_step (índice inclusivo). halt_execution:true para parar a cadeia.",
                ),
            )
        },
        Err(e) => error(e.as_str()),
    }
}

// ---------------------------------------------------------------------------
// Loading
// ---------------------------------------------------------------------------

/// The reply to loading a plan, by what reading the two files gave. Progress that cannot be read
/// is left out.
pub open spec fn loaded_plan(
    plan: Result<Seq<char>, Seq<char>>,
    progress: Result<Seq<char>, Seq<char>>,
) -> JsonView {
    match plan {
        Err(e) => error_view(e),
        Ok(t) => match json_parse(t) {
            Err(e) => error_view(e),
            Ok(p) => {
                let out = ok_view().with("plan"@, p);
                match progress {
                    Err(_) => out,
                    Ok(pt) => match json_parse(pt) {
                        Ok(pp) => out.with("progress"@, pp),
                        Err(_) => out,
                    },
                }
            },
        },
    }
}

/// Loads a plan and its progress.
pub fn load_plan(plan: Result<String, String>, progress: Result<String, String>) -> (j: Json)
    ensures
        j@ == loaded_plan(read_view(plan), read_view(progress)),
{
    match plan {
        Err(e) => error(e.as_str()),
        Ok(t) => match parse(t.as_str()) {
            Err(e) => error(e.as_str()),
            Ok(p) => {
                let out = ok().with("plan", p);
                match progress {
                    Err(_) => out,
                    Ok(pt) => match parse(pt.as_str()) {
                        Ok(pp) => out.with("progress", pp),
                        Err(_) => out,
                    },
                }
            },
        },
    }
}

// ---------------------------------------------------------------------------
// Progress
// ---------------------------------------------------------------------------

/// The steps of a progress document.
pub open spec fn statuses(progress: JsonView) -> Option<Seq<JsonView>> {
    progress.at("step_statuses"@).as_list()
}

/// The steps when step `i` takes a status. A step that is done takes those before it along.
pub open spec fn with_step(list: Seq<JsonView>, i: int, status: Seq<char>) -> Seq<JsonView> {
    Seq::new(
        list.len(),
        |j: int|
            if j == i {
                JsonView::Text(status)
            } else if j < i && status == "done"@ {
                JsonView::Text("done"@)
            } else {
                list[j]
            },
    )
}

/// A status that a step can have.
pub open spec fn known_status(status: Seq<char>) -> bool {
    status == "done"@ || status == "in_progress"@ || status == "pending"@
}

/// The number of a step in an input.
pub open spec fn step_index(input: JsonView) -> Option<u64> {
    match input.uint_at("step_index"@) {
        Some(i) => Some(i),
        None => input.uint_at("index"@),
    }
}

/// A progress document with other steps.
pub open spec fn with_statuses(progress: JsonView, list: Seq<JsonView>) -> JsonView {
    progress.with("step_statuses"@, JsonView::List(list))
}

/// A progress document in which a halt is asked for, where `halt` says so.
pub open spec fn with_halt(progress: JsonView, halt: bool, reason: Seq<char>) -> JsonView {
    if halt {
        progress.with("halt_requested"@, JsonView::Bool(true)).with(
            "halt_reason"@,
            JsonView::Text(reason),
        )
    } else {
        progress
    }
}

/// The progress document after an update and the reply to it, or why it is refused.
pub open spec fn updated_progress(input: JsonView, progress: JsonView) -> Result<
    (JsonView, JsonView),
    Seq<char>,
> {
    let status = input.text_or("status"@, "done"@);
    let halt = input.bool_or("halt_execution"@, false);
    let reason = input.text_or("halt_reason"@, "parada solicitada pelo agente"@);
    match step_index(input) {
        None => Err("step_index (ou index) é obrigatório"@),
        Some(i) => if !known_status(status) {
            Err("status deve ser: done | in_progress | pending"@)
        } else {
            match statuses(progress) {
                None => Err("step_statuses ausente ou inválido"@),
                Some(list) => if i >= list.len() {
                    Err(
                        "step_index "@ + decimal(i as nat) + " fora do intervalo (0.."@ + decimal(
                            list.len(),
                        ) + ")"@,
                    )
                } else {
                    Ok(
                        (
                            with_halt(
                                with_statuses(progress, with_step(list, i as int, status)),
                                halt,
                                reason,
                            ),
                            ok_view().with("step_index"@, JsonView::Int(i as int)).with(
                                "status_applied"@,
                                JsonView::Text(status),
                            ).with("halt_requested"@, JsonView::Bool(halt)),
                        ),
                    )
                },
            }
        },
    }
}

/// An update of the progress document: its new contents, its text, and the reply once it is
/// written.
pub struct ProgressUpdate {
    pub progress: Json,
    pub text: String,
    pub reply: Json,
}

/// The text of a document comes from it, and reading that text gives it back.
pub open spec fn update_texts(u: ProgressUpdate) -> bool {
    u.text@ == json_pretty(u.progress@) && (storable(u.progress@) ==> reads_as(
        u.text@,
        u.progress@,
    ))
}

fn statuses_with(list: &Vec<Json>, i: usize, status: &str) -> (r: Vec<Json>)
    ensures
        views(r@) == with_step(views(list@), i as int, status@),
{
    let earlier = same(status, "done");
    let ghost expected = with_step(views(list@), i as int, status@);
    let mut out: Vec<Json> = Vec::new();
    for j in 0..list.len()
        invariant
            expected == with_step(views(list@), i as int, status@),
            earlier == (status@ == "done"@),
            out@.len() == j,
            views(out@) =~= expected.take(j as int),
    {
        let ghost before = views(out@);
        let item = if j == i {
            text(status)
        } else if j < i && earlier {
            text("done")
        } else {
            list[j].copy()
        };
        assert(item@ == expected[j as int]);
        out.push(item);
        assert(views(out@) =~= before.push(expected[j as int]));
    }
    assert(expected.take(list@.len() as int) =~= expected);
    out
}

/// Updates a step in a progress document.
pub fn update_progress(input: &Json, progress: Json) -> (r: Result<ProgressUpdate, Json>)
    ensures
        match (r, updated_progress(input@, progress@)) {
            (Ok(u), Ok((doc, reply))) => u.progress@ == doc && u.reply@ == reply && update_texts(u),
            (Err(e), Err(m)) => e@ == error_view(m),
            _ => false,
        },
{
    broadcast use lemma_list_view;

    let index = match input.uint_at("step_index") {
        Some(i) => Some(i),
        None => input.uint_at("index"),
    };
    let i: u64 = match index {
        Some(i) => i,
        None => return Err(error("step_index (ou index) é obrigatório")),
    };
    let status = input.text_or("status", "done");
    if !(same(status, "done") || same(status, "in_progress") || same(status, "pending")) {
        return Err(error("status deve ser: done | in_progress | pending"));
    }
    let halt = input.bool_or("halt_execution", false);
    let reason = input.text_or("halt_reason", "parada solicitada pelo agente");
    let list = match progress.list_at("step_statuses") {
        Some(list) => list,
        None => return Err(error("step_statuses ausente ou inválido")),
    };
    if i >= list.len() as u64 {
        let m = cat("step_index ", write_decimal(i as u128).as_str());
        let m = cat(m.as_str(), " fora do intervalo (0..");
        let m = cat(m.as_str(), write_decimal(list.len() as u128).as_str());
        return Err(error(cat(m.as_str(), ")").as_str()));
    }
    let changed = statuses_with(list, i as usize, status);
    let mut doc = progress.with("step_statuses", Json::List(changed));
    if halt {
        doc = doc.with("halt_requested", Json::Bool(true)).with("halt_reason", text(reason));
    }
    let reply = ok().with("step_index", Json::Uint(i)).with("status_applied", text(status)).with(
        "halt_requested",
        Json::Bool(halt),
    );
    let t = pretty(&doc);
    Ok(ProgressUpdate { progress: doc, text: t, reply })
}

/// The update that an input asks for, by the text of the progress document; none where it cannot
/// be read.
pub open spec fn update_from_text(input: JsonView, raw: Option<Seq<char>>) -> Result<
    (JsonView, JsonView),
    Seq<char>,
> {
    if step_index(input) is None {
        Err("step_index (ou index) é obrigatório"@)
    } else if !known_status(input.text_or("status"@, "done"@)) {
        Err("status deve ser: done | in_progress | pending"@)
    } else {
        match raw {
            None => Err("plan_progress.json não encontrado; execute save_plan antes."@),
            Some(t) => match json_parse(t) {
                Err(m) => Err(m),
                Ok(progress) => updated_progress(input, progress),
            },
        }
    }
}

/// Updates a step of the plan, and asks for a halt where the input says so.
pub fn update_plan_step(input: &Json, raw: Option<&str>) -> (r: Result<ProgressUpdate, Json>)
    ensures
        match (
            r,
            update_from_text(
                input@,
                match raw {
                    Some(t) => Some(t@),
                    None => None,
                },
            ),
        ) {
            (Ok(u), Ok((doc, reply))) => u.progress@ == doc && u.reply@ == reply && update_texts(u),
            (Err(e), Err(m)) => e@ == error_view(m),
            _ => false,
        },
{
    if input.uint_at("step_index").is_none() && input.uint_at("index").is_none() {
        return Err(error("step_index (ou index) é obrigatório"));
    }
    let status = input.text_or("status", "done");
    if !(same(status, "done") || same(status, "in_progress") || same(status, "pending")) {
        return Err(error("status deve ser: done | in_progress | pending"));
    }
    match raw {
        None => Err(error("plan_progress.json não encontrado; execute save_plan antes.")),
        Some(t) => match parse(t) {
            Err(e) => Err(error(e.as_str())),
            Ok(progress) => update_progress(input, progress),
        },
    }
}

// ---------------------------------------------------------------------------
// Marking along the way
// ---------------------------------------------------------------------------

/// The step through which a tool call asks to mark the plan as done, where the tool succeeded.
pub open spec fn mark_through(input: JsonView, result: JsonView) -> Option<u64> {
    if result.text_at("status"@) == Some("ok"@) {
        input.uint_at("plan_mark_done_through_step"@)
    } else {
        None
    }
}

/// The steps when those from the first to number `last` are done.
pub open spec fn marked(list: Seq<JsonView>, last: int) -> Seq<JsonView> {
    Seq::new(
        list.len(),
        |j: int|
            if j <= last {
                JsonView::Text("done"@)
            } else {
                list[j]
            },
    )
}

/// The last step that is marked.
pub open spec fn last_marked(through: u64, n: nat) -> int {
    if through < n {
        through as int
    } else {
        n - 1
    }
}

/// The progress document after marking, and what is said of it; nothing where there are no steps.
pub open spec fn marked_progress(through: u64, progress: JsonView) -> Option<(JsonView, JsonView)> {
    match statuses(progress) {
        None => None,
        Some(list) => if list.len() == 0 {
            None
        } else {
            let last = last_marked(through, list.len());
            Some(
                (
                    with_statuses(progress, marked(list, last)),
                    empty_object().with("marked_done_through_step_index"@, JsonView::Int(last)).with(
                        "requested_through"@,
                        JsonView::Int(through as int),
                    ).with(
                        "note"@,
                        JsonView::Text(
                            "plan_progress.json atualizado via plan_mark_done_through_step no input da tool."@,
                        ),
                    ),
                ),
            )
        },
    }
}

/// Marks the steps of a progress document up to number `through` as done.
pub fn mark_progress(through: u64, progress: Json) -> (r: Option<ProgressUpdate>)
    ensures
        match (r, marked_progress(through, progress@)) {
            (Some(u), Some((doc, note))) => u.progress@ == doc && u.reply@ == note && update_texts(
                u,
            ),
            (None, None) => true,
            _ => false,
        },
{
    broadcast use lemma_list_view;

    let list = match progress.list_at("step_statuses") {
        Some(list) => list,
        None => return None,
    };
    if list.len() == 0 {
        return None;
    }
    let last: usize = if through < list.len() as u64 {
        through as usize
    } else {
        list.len() - 1
    };
    let ghost expected = marked(views(list@), last as int);
    let mut out: Vec<Json> = Vec::new();
    for j in 0..list.len()
        invariant
            expected == marked(views(list@), last as int),
            out@.len() == j,
            views(out@) =~= expected.take(j as int),
    {
        let ghost before = views(out@);
        let item = if j <= last {
            text("done")
        } else {
            list[j].copy()
        };
        assert(item@ == expected[j as int]);
        out.push(item);
        assert(views(out@) =~= before.push(expected[j as int]));
    }
    assert(expected.take(list@.len() as int) =~= expected);
    let doc = progress.with("step_statuses", Json::List(out));
    let note = object().with("marked_done_through_step_index", Json::Uint(last as u64)).with(
        "requested_through",
        Json::Uint(through),
    ).with(
        "note",
        text(
            "plan_progress.json atualizado via plan_mark_done_through_step no input da tool.",
        ),
    );
    let t = pretty(&doc);
    Some(ProgressUpdate { progress: doc, text: t, reply: note })
}

/// What a tool call that succeeded does to the progress document with text `raw`.
pub open spec fn optional_mark(input: JsonView, result: JsonView, raw: Option<Seq<char>>) -> Option<
    (JsonView, JsonView),
> {
    match (mark_through(input, result), raw) {
        (Some(through), Some(t)) => match json_parse(t) {
            Ok(progress) => marked_progress(through, progress),
            Err(_) => None,
        },
        _ => None,
    }
}

/// Marks steps of the plan as done where a tool call that succeeded asks for it.
pub fn plan_progress_apply_optional_mark(
    tool_input: &Json,
    tool_result: &Json,
    raw: Option<&str>,
) -> (r: Option<ProgressUpdate>)
    ensures
        match (
            r,
            optional_mark(
                tool_input@,
                tool_result@,
                match raw {
                    Some(t) => Some(t@),
                    None => None,
                },
            ),
        ) {
            (Some(u), Some((doc, note))) => u.progress@ == doc && u.reply@ == note && update_texts(
                u,
            ),
            (None, None) => true,
            _ => false,
        },
{
    let done = match tool_result.text_at("status") {
        Some(s) => same(s, "ok"),
        None => false,
    };
    if !done {
        return None;
    }
    match (tool_input.uint_at("plan_mark_done_through_step"), raw) {
        (Some(through), Some(t)) => match parse(t) {
            Ok(progress) => mark_progress(through, progress),
            Err(_) => None,
        },
        _ => None,
    }
}

/// A plan is being carried out: its progress can be read, and no halt is asked for.
pub open spec fn plan_active(raw: Option<Seq<char>>) -> bool {
    match raw {
        None => false,
        Some(t) => match json_parse(t) {
            Ok(p) => !p.bool_or("halt_requested"@, false),
            Err(_) => false,
        },
    }
}

/// Tells whether a plan is being carried out.
pub fn plan_execution_active_for_spinner(raw: Option<&str>) -> (r: bool)
    ensures
        r == plan_active(
            match raw {
                Some(t) => Some(t@),
                None => None,
            },
        ),
{
    match raw {
        None => false,
        Some(t) => match parse(t) {
            Ok(p) => !p.bool_or("halt_requested", false),
            Err(_) => false,
        },
    }
}

// ---------------------------------------------------------------------------
// Laws
// ---------------------------------------------------------------------------

/// A plan that was just saved has one status for each of its steps, all of them pending, and no
/// halt.
pub proof fn law_new_plan_is_pending(title: Seq<char>, plan: JsonView)
    ensures
        statuses(progress_document(title, plan)) == Some(all_pending(step_count(plan))),
        !progress_document(title, plan).bool_or("halt_requested"@, false),
        progress_document(title, plan).at("plan_sync_key"@) == plan.at("saved_at_ms"@),
{
    lemma_progress_keys();
}

proof fn lemma_progress_keys()
    ensures
        "step_statuses"@ != "halt_requested"@,
        "step_statuses"@ != "halt_reason"@,
        "halt_requested"@ != "halt_reason"@,
        "plan_sync_key"@ != "step_statuses"@,
        "plan_sync_key"@ != "halt_requested"@,
        "plan_sync_key"@ != "halt_reason"@,
{
    reveal_strlit("step_statuses");
    reveal_strlit("halt_requested");
    reveal_strlit("halt_reason");
    reveal_strlit("plan_sync_key");
    assert("step_statuses"@[0] != "halt_requested"@[0]);
    assert("step_statuses"@[0] != "halt_reason"@[0]);
    assert("halt_requested"@.len() != "halt_reason"@.len());
    assert("plan_sync_key"@[0] != "step_statuses"@[0]);
    assert("plan_sync_key"@[0] != "halt_requested"@[0]);
    assert("plan_sync_key"@[0] != "halt_reason"@[0]);
}

/// An update that succeeds changes the step that it names to the status that it names. With `done`
/// every earlier step is done too. No other step changes, and none is lost or added.
pub proof fn law_update_changes_steps(input: JsonView, progress: JsonView, j: int)
    requires
        updated_progress(input, progress) is Ok,
        0 <= j < statuses(progress)->0.len(),
    ensures
        ({
            let i = step_index(input)->0;
            let status = input.text_or("status"@, "done"@);
            let before = statuses(progress)->0;
            let after = statuses((updated_progress(input, progress)->Ok_0).0);
            &&& after is Some
            &&& after->0.len() == before.len()
            &&& j == i ==> after->0[j] == JsonView::Text(status)
            &&& j < i && status == "done"@ ==> after->0[j] == JsonView::Text("done"@)
            &&& j > i || (j < i && status != "done"@) ==> after->0[j] == before[j]
        }),
{
    lemma_progress_keys();
    assert(progress is Object);
}

/// Once a halt is asked for, no update and no mark takes it back.
pub proof fn law_halt_stays(input: JsonView, progress: JsonView, through: u64)
    requires
        progress.bool_or("halt_requested"@, false),
    ensures
        updated_progress(input, progress) matches Ok((after, _)) ==> after.bool_or(
            "halt_requested"@,
            false,
        ),
        marked_progress(through, progress) matches Some((after, _)) ==> after.bool_or(
            "halt_requested"@,
            false,
        ),
{
    lemma_progress_keys();
}

/// An update asks for a halt just where the input says so.
pub proof fn law_halt_is_asked_for(input: JsonView, progress: JsonView)
    requires
        !progress.bool_or("halt_requested"@, false),
    ensures
        updated_progress(input, progress) matches Ok((after, _)) ==> (after.bool_or(
            "halt_requested"@,
            false,
        ) == input.bool_or("halt_execution"@, false)),
{
    lemma_progress_keys();
}

/// Marking makes every step up to the one asked for done, at most all of them, and leaves the
/// others as they were.
pub proof fn law_mark_changes_steps(through: u64, progress: JsonView, j: int)
    requires
        marked_progress(through, progress) is Some,
        0 <= j < statuses(progress)->0.len(),
    ensures
        ({
            let before = statuses(progress)->0;
            let after = statuses((marked_progress(through, progress)->0).0);
            &&& after is Some
            &&& after->0.len() == before.len()
            &&& j <= through ==> after->0[j] == JsonView::Text("done"@)
            &&& j > through ==> after->0[j] == before[j]
        }),
{
    assert(progress is Object);
}

/// The fields of a plan that are taken over from the call as they are.
pub open spec fn kept_field(key: Seq<char>) -> bool {
    key == "steps"@ || key == "risks"@ || key == "open_questions"@ || key == "definition_of_done"@
        || key == "assumptions"@ || key == "notes"@ || key == "alternatives_rejected"@
}

/// What the call says stands in the plan under its own name. What it leaves out is an empty list, the
/// notes an empty text, and the steps nothing. The title and the time stand in it too.
pub proof fn law_plan_fields(input: JsonView, now_ms: u64)
    ensures
        ({
            let doc = plan_document(input, now_ms);
            &&& forall|key: Seq<char>| #[trigger]
                kept_field(key) && input.get(key) is Some ==> doc.get(key) == input.get(key)
            &&& forall|key: Seq<char>| #[trigger]
                kept_field(key) && input.get(key) is None && key != "notes"@ && key != "steps"@
                    ==> doc.get(key) == Some(JsonView::List(seq![]))
            &&& input.get("notes"@) is None ==> doc.get("notes"@) == Some(JsonView::Text(""@))
            &&& input.get("steps"@) is None ==> doc.get("steps"@) == Some(JsonView::Null)
            &&& doc.get("title"@) == Some(
                match input.get("title"@) {
                    Some(JsonView::Text(t)) => JsonView::Text(t),
                    _ => JsonView::Text("plano"@),
                },
            )
            &&& doc.get("saved_at_ms"@) == Some(JsonView::Int(now_ms as int))
        }),
{
    reveal_strlit("title");
    assert("title"@.len() == 5);
    reveal_strlit("steps");
    assert("steps"@.len() == 5);
    reveal_strlit("saved_at_ms");
    assert("saved_at_ms"@.len() == 11);
    reveal_strlit("risks");
    assert("risks"@.len() == 5);
    reveal_strlit("open_questions");
    assert("open_questions"@.len() == 14);
    reveal_strlit("definition_of_done");
    assert("definition_of_done"@.len() == 18);
    reveal_strlit("assumptions");
    assert("assumptions"@.len() == 11);
    reveal_strlit("notes");
    assert("notes"@.len() == 5);
    reveal_strlit("alternatives_rejected");
    assert("alternatives_rejected"@.len() == 21);
    assert("title"@[0] != "steps"@[0]);
    assert("title"@[0] != "risks"@[0]);
    assert("title"@[0] != "notes"@[0]);
    assert("steps"@[0] != "risks"@[0]);
    assert("steps"@[0] != "notes"@[0]);
    assert("saved_at_ms"@[0] != "assumptions"@[0]);
    assert("risks"@[0] != "notes"@[0]);
}

/// A plan that was saved is loaded with all that the call said of it, each field under its own name,
/// and with a progress in which each step is pending.
pub proof fn law_saved_plan_comes_back(
    input: JsonView,
    now_ms: u64,
    plan: Seq<char>,
    progress: Seq<char>,
)
    requires
        reads_as(plan, plan_document(input, now_ms)),
        reads_as(
            progress,
            progress_document(plan_title(input), plan_document(input, now_ms)),
        ),
    ensures
        ({
            let r = loaded_plan(Ok(plan), Ok(progress));
            &&& r.get("status"@) == Some(JsonView::Text("ok"@))
            &&& forall|key: Seq<char>| #[trigger]
                kept_field(key) && input.get(key) is Some ==> r.at("plan"@).get(key) == input.get(
                    key,
                )
            &&& input.get("title"@) matches Some(JsonView::Text(t)) ==> r.at("plan"@).get(
                "title"@,
            ) == Some(JsonView::Text(t)) && r.at("progress"@).get("title"@) == Some(
                JsonView::Text(t),
            )
            &&& input.get("steps"@) matches Some(JsonView::List(steps)) ==> match r.at(
                "progress"@,
            ).get("step_statuses"@) {
                Some(JsonView::List(list)) => list.len() == steps.len() && forall|i: int|
                    0 <= i < list.len() ==> #[trigger] list[i] == JsonView::Text("pending"@),
                _ => false,
            }
            &&& r.at("progress"@).get("plan_sync_key"@) == Some(JsonView::Int(now_ms as int))
            &&& r.at("progress"@).get("halt_requested"@) == Some(JsonView::Bool(false))
        }),
{
    reveal_strlit("status");
    assert("status"@.len() == 6);
    reveal_strlit("plan");
    assert("plan"@.len() == 4);
    reveal_strlit("progress");
    assert("progress"@.len() == 8);
    law_plan_fields(input, now_ms);
    assert(kept_field("steps"@));
    law_progress_fields(plan_title(input), plan_document(input, now_ms));
    let r = loaded_plan(Ok(plan), Ok(progress));
    assert(r.at("plan"@) == plan_document(input, now_ms));
    assert(r.at("progress"@) == progress_document(
        plan_title(input),
        plan_document(input, now_ms),
    ));
}

/// The progress of a plan that was just saved: its title, the time of the plan, a pending step for
/// each step of the plan, and no halt.
pub proof fn law_progress_fields(title: Seq<char>, plan: JsonView)
    ensures
        ({
            let doc = progress_document(title, plan);
            &&& doc.get("title"@) == Some(JsonView::Text(title))
            &&& doc.get("plan_sync_key"@) == Some(plan.at("saved_at_ms"@))
            &&& doc.get("halt_requested"@) == Some(JsonView::Bool(false))
            &&& doc.get("halt_reason"@) == Some(JsonView::Text(""@))
            &&& match doc.get("step_statuses"@) {
                Some(JsonView::List(list)) => {
                    &&& plan.get("steps"@) matches Some(JsonView::List(steps)) ==> list.len()
                        == steps.len()
                    &&& !(plan.at("steps"@) is List) ==> list.len() == 0
                    &&& forall|i: int|
                        0 <= i < list.len() ==> #[trigger] list[i] == JsonView::Text("pending"@)
                },
                _ => false,
            }
        }),
{
    reveal_strlit("title");
    assert("title"@.len() == 5);
    reveal_strlit("plan_sync_key");
    assert("plan_sync_key"@.len() == 13);
    reveal_strlit("step_statuses");
    assert("step_statuses"@.len() == 13);
    reveal_strlit("halt_requested");
    assert("halt_requested"@.len() == 14);
    reveal_strlit("halt_reason");
    assert("halt_reason"@.len() == 11);
    assert("plan_sync_key"@[0] != "step_statuses"@[0]);
}

/// Loading gives the plan and the progress that the two files hold, leaves out a progress that cannot
/// be read, and fails with the error of the plan.
pub proof fn law_loaded_fields(
    plan: Seq<char>,
    progress: Result<Seq<char>, Seq<char>>,
    message: Seq<char>,
)
    ensures
        loaded_plan(Err(message), progress) == error_view(message),
        match json_parse(plan) {
            Err(m) => loaded_plan(Ok(plan), progress) == error_view(m),
            Ok(p) => {
                let r = loaded_plan(Ok(plan), progress);
                &&& r.get("status"@) == Some(JsonView::Text("ok"@))
                &&& r.get("plan"@) == Some(p)
                &&& match progress {
                    Ok(t) => match json_parse(t) {
                        Ok(pp) => r.get("progress"@) == Some(pp),
                        Err(_) => r.get("progress"@) is None,
                    },
                    Err(_) => r.get("progress"@) is None,
                }
            },
        },
{
    reveal_strlit("status");
    assert("status"@.len() == 6);
    reveal_strlit("plan");
    assert("plan"@.len() == 4);
    reveal_strlit("progress");
    assert("progress"@.len() == 8);
}

/// The reply to saving a plan names the file of the plan and that of the progress, or tells why the
/// progress was not begun.
pub proof fn law_saved_reply_fields(path: Seq<char>, message: Seq<char>)
    ensures
        ({
            let r = plan_saved_view(true, path, Ok(()), Ok(()));
            &&& r.get("status"@) == Some(JsonView::Text("ok"@))
            &&& r.get("path"@) == Some(JsonView::Text(path))
            &&& r.get("plan_progress_path"@) == Some(
                JsonView::Text(".toolmind"@ + "/"@ + "plan_progress.json"@),
            )
        }),
        plan_saved_view(true, path, Ok(()), Err(message)).get("plan_progress_path"@) == Some(
            JsonView::Text("(progresso não inicializado: "@ + message + ")"@),
        ),
        plan_saved_view(true, path, Err(message), Ok(())) == error_view(message),
        plan_saved_view(false, path, Ok(()), Ok(())).get("status"@) == Some(
            JsonView::Text("error"@),
        ),
{
    reveal_strlit("status");
    assert("status"@.len() == 6);
    reveal_strlit("path");
    assert("path"@.len() == 4);
    reveal_strlit("plan_progress_path");
    assert("plan_progress_path"@.len() == 18);
    reveal_strlit("hint");
    assert("hint"@.len() == 4);
    reveal_strlit("error");
    assert("error"@.len() == 5);
    assert("path"@[0] != "hint"@[0]);
}

/// An update is made just where it names a step of the progress and a status that there is. It leaves
/// all fields of the progress but the steps and the halt as they were, keeps the reason of a halt, and
/// the reply says what was done.
pub proof fn law_update_fields(input: JsonView, progress: JsonView, key: Seq<char>)
    ensures
        updated_progress(input, progress) is Ok <==> {
            &&& input.uint_at("step_index"@) is Some || input.uint_at("index"@) is Some
            &&& known_status(input.text_or("status"@, "done"@))
            &&& progress.get("step_statuses"@) matches Some(JsonView::List(list)) && (
            match input.uint_at("step_index"@) {
                Some(i) => i < list.len(),
                None => input.uint_at("index"@)->0 < list.len(),
            })
        },
        updated_progress(input, progress) matches Ok((doc, reply)) ==> {
            &&& key != "step_statuses"@ && key != "halt_requested"@ && key != "halt_reason"@
                ==> doc.get(key) == progress.get(key)
            &&& !input.bool_or("halt_execution"@, false) ==> doc.get("halt_requested"@)
                == progress.get("halt_requested"@) && doc.get("halt_reason"@) == progress.get(
                "halt_reason"@,
            )
            &&& input.bool_or("halt_execution"@, false) ==> doc.get("halt_requested"@) == Some(
                JsonView::Bool(true),
            ) && doc.get("halt_reason"@) == Some(
                JsonView::Text(
                    input.text_or("halt_reason"@, "parada solicitada pelo agente"@),
                ),
            )
            &&& reply.get("status"@) == Some(JsonView::Text("ok"@))
            &&& input.uint_at("step_index"@) matches Some(i) ==> reply.get("step_index"@) == Some(
                JsonView::Int(i as int),
            )
            &&& reply.get("status_applied"@) == Some(
                JsonView::Text(input.text_or("status"@, "done"@)),
            )
            &&& reply.get("halt_requested"@) == Some(
                JsonView::Bool(input.bool_or("halt_execution"@, false)),
            )
        },
{
    lemma_progress_keys();
    reveal_strlit("status");
    assert("status"@.len() == 6);
    reveal_strlit("step_index");
    assert("step_index"@.len() == 10);
    reveal_strlit("status_applied");
    assert("status_applied"@.len() == 14);
    reveal_strlit("halt_requested");
    assert("halt_requested"@.len() == 14);
    assert("status_applied"@[0] != "halt_requested"@[0]);
}

/// The statuses that a step can have are these three.
pub proof fn law_known_statuses(status: Seq<char>)
    ensures
        known_status("done"@),
        known_status("in_progress"@),
        known_status("pending"@),
        known_status(status) ==> seq!["done"@, "in_progress"@, "pending"@].contains(status),
{
    let list = seq!["done"@, "in_progress"@, "pending"@];
    assert(list[0] == "done"@ && list[1] == "in_progress"@ && list[2] == "pending"@);
}

/// A mark is made just where the tool succeeded, the call asks for it with a number, and the progress
/// has steps. It leaves all other fields of the progress as they were, and says through which step
/// was marked and which was asked for.
pub proof fn law_mark_fields(
    input: JsonView,
    result: JsonView,
    raw: Seq<char>,
    progress: JsonView,
    key: Seq<char>,
)
    requires
        reads_as(raw, progress),
    ensures
        optional_mark(input, result, Some(raw)) is Some <==> {
            &&& result.get("status"@) == Some(JsonView::Text("ok"@))
            &&& input.get("plan_mark_done_through_step"@) matches Some(JsonView::Int(n)) && 0 <= n
                <= u64::MAX
            &&& progress.get("step_statuses"@) matches Some(JsonView::List(list)) && list.len() > 0
        },
        optional_mark(input, result, Some(raw)) matches Some((doc, note)) ==> {
            let n = input.uint_at("plan_mark_done_through_step"@)->0;
            let list = statuses(progress)->0;
            &&& key != "step_statuses"@ ==> doc.get(key) == progress.get(key)
            &&& note.get("requested_through"@) == Some(JsonView::Int(n as int))
            &&& n < list.len() ==> note.get("marked_done_through_step_index"@) == Some(
                JsonView::Int(n as int),
            )
            &&& n >= list.len() ==> note.get("marked_done_through_step_index"@) == Some(
                JsonView::Int(list.len() - 1),
            )
        },
        optional_mark(input, result, None) is None,
{
    reveal_strlit("marked_done_through_step_index");
    assert("marked_done_through_step_index"@.len() == 30);
    reveal_strlit("requested_through");
    assert("requested_through"@.len() == 17);
    reveal_strlit("note");
    assert("note"@.len() == 4);
}

/// A plan is carried out just while its progress can be read and asks for no halt.
pub proof fn law_plan_is_active(raw: Seq<char>, progress: JsonView)
    requires
        reads_as(raw, progress),
    ensures
        plan_active(Some(raw)) <==> progress.get("halt_requested"@) != Some(JsonView::Bool(true)),
        !plan_active(None),
{
}

/// An update needs the number of a step and a known status before the progress is looked at, and a
/// progress that is there and can be read; it is then the update of that progress.
pub proof fn law_update_from_text(input: JsonView, raw: Option<Seq<char>>, progress: JsonView)
    ensures
        ({
            let r = update_from_text(input, raw);
            &&& step_index(input) is None ==> r is Err
            &&& !known_status(input.text_or("status"@, "done"@)) ==> r is Err
            &&& raw is None ==> r is Err
            &&& raw matches Some(t) ==> (json_parse(t) == Ok::<JsonView, Seq<char>>(progress) ==> r
                is Ok == (updated_progress(input, progress) is Ok) && (r is Ok ==> r
                == updated_progress(input, progress)))
            &&& raw matches Some(t) ==> json_parse(t) is Err ==> r is Err
        }),
{
}

/// The number of a step is `step_index`, and `index` where there is no such number.
pub proof fn law_number_of_a_step(input: JsonView)
    ensures
        input.get("step_index"@) matches Some(JsonView::Int(n)) ==> (0 <= n <= u64::MAX
            ==> step_index(input) == Some(n as u64)),
        input.get("step_index"@) is None ==> match input.get("index"@) {
            Some(JsonView::Int(n)) => if 0 <= n <= u64::MAX {
                step_index(input) == Some(n as u64)
            } else {
                step_index(input) is None
            },
            _ => step_index(input) is None,
        },
{
}

/// What is wrong with an update is told: a missing number before an unknown status, that before a
/// progress without steps, and that before a number behind the last step.
pub proof fn law_refused_updates(input: JsonView, progress: JsonView, raw: Seq<char>)
    ensures
        ({
            let r = updated_progress(input, progress);
            let known = known_status(input.text_or("status"@, "done"@));
            let index = step_index(input);
            &&& index is None ==> r == Err::<(JsonView, JsonView), Seq<char>>(
                "step_index (ou index) é obrigatório"@,
            ) && update_from_text(input, Some(raw)) == r
            &&& index is Some && !known ==> r == Err::<(JsonView, JsonView), Seq<char>>(
                "status deve ser: done | in_progress | pending"@,
            ) && update_from_text(input, Some(raw)) == r
            &&& index is Some && known && !(progress.at("step_statuses"@) is List) ==> r == Err::<
                (JsonView, JsonView),
                Seq<char>,
            >("step_statuses ausente ou inválido"@)
            &&& index is Some && known ==> (progress.get("step_statuses"@) matches Some(
                JsonView::List(list),
            ) ==> (index->0 >= list.len() ==> r == Err::<(JsonView, JsonView), Seq<char>>(
                "step_index "@ + decimal(index->0 as nat) + " fora do intervalo (0.."@ + decimal(
                    list.len(),
                ) + ")"@,
            )))
            &&& index is Some && known ==> update_from_text(input, None) == Err::<
                (JsonView, JsonView),
                Seq<char>,
            >("plan_progress.json não encontrado; execute save_plan antes."@)
            &&& index is Some && known ==> (json_parse(raw) matches Err(m) ==> update_from_text(
                input,
                Some(raw),
            ) == Err::<(JsonView, JsonView), Seq<char>>(m))
            &&& r matches Ok((_, reply)) ==> reply.get("step_index"@) == Some(
                JsonView::Int(index->0 as int),
            )
        }),
{
    reveal_strlit("status");
    assert("status"@.len() == 6);
    reveal_strlit("step_index");
    assert("step_index"@.len() == 10);
    reveal_strlit("status_applied");
    assert("status_applied"@.len() == 14);
    reveal_strlit("halt_requested");
    assert("halt_requested"@.len() == 14);
    assert("status_applied"@[0] != "halt_requested"@[0]);
}

} // verus!
