//! The panel that shows a plan and its progress in the terminal.
use crate::codec::{compact, parse};
use crate::json::{json_compact, json_parse, views, Json, JsonView};
use crate::numbers::{decimal, write_decimal};
use crate::text::{
    cat, chars, control, first_chars, holds, is_control, occurs_at, pad_right, padded, repeat,
    repeated, same, take_chars, texts,
};
use vstd::prelude::*;

verus! {

/// The width of the panel, in characters.
pub const PANEL_WIDTH: usize = 76;

/// The width of the panel between its edges.
pub const PANEL_INNER: usize = 74;

/// How a line of the panel is coloured.
#[derive(Clone, Copy, PartialEq, Eq, Structural)]
pub enum PanelStyle {
    Frame,
    Step,
    Halted,
    Finished,
    Running,
}

/// A line of the panel.
pub struct PanelLine {
    pub style: PanelStyle,
    pub text: String,
}

/// The view of a line.
pub struct PanelLineView {
    pub style: PanelStyle,
    pub text: Seq<char>,
}

impl View for PanelLine {
    type V = PanelLineView;

    open spec fn view(&self) -> PanelLineView {
        PanelLineView { style: self.style, text: self.text@ }
    }
}

/// The views of some lines.
pub open spec fn panel_lines(lines: Seq<PanelLine>) -> Seq<PanelLineView> {
    lines.map_values(|l: PanelLine| l@)
}

// ---------------------------------------------------------------------------
// One step
// ---------------------------------------------------------------------------

/// The characters of a text that are no control characters.
pub open spec fn visible(s: Seq<char>) -> Seq<char>
    decreases s.len(),
{
    if s.len() == 0 {
        seq![]
    } else if is_control(s.last()) {
        visible(s.drop_last())
    } else {
        visible(s.drop_last()).push(s.last())
    }
}

/// A step as a text: itself where it is one, and its JSON elsewhere.
pub open spec fn step_text(step: JsonView) -> Seq<char> {
    match step {
        JsonView::Text(s) => s,
        other => json_compact(other),
    }
}

/// The beginning of a text without control characters, marked where something is left out.
pub open spec fn preview(s: Seq<char>, max_chars: nat) -> Seq<char> {
    if visible(s).len() > max_chars {
        first_chars(visible(s), max_chars) + "…"@
    } else {
        visible(s)
    }
}

fn without_controls(s: &str) -> (r: String)
    ensures
        r@ == visible(s@),
{
    let cs = chars(s);
    let mut r = String::new();
    assert(r@ =~= seq![]);
    for i in 0..cs.len()
        invariant
            r@ == visible(cs@.take(i as int)),
    {
        assert(cs@.take(i + 1).drop_last() =~= cs@.take(i as int));
        if !control(cs[i]) {
            r.push(cs[i]);
        }
    }
    assert(cs@.take(cs@.len() as int) =~= cs@);
    r
}

/// Shows the beginning of a text without control characters.
pub fn shorten(s: &str, max_chars: usize) -> (r: String)
    ensures
        r@ == preview(s@, max_chars as nat),
{
    let all = without_controls(s);
    if all.as_str().unicode_len() > max_chars {
        cat(take_chars(all.as_str(), max_chars).as_str(), "…")
    } else {
        all
    }
}

/// Shows the beginning of a step.
pub fn step_line_preview(step: &Json, max_chars: usize) -> (r: String)
    ensures
        r@ == preview(step_text(step@), max_chars as nat),
{
    match step.as_text() {
        Some(s) => shorten(s, max_chars),
        None => {
            assert(step@ !is Text);
            shorten(compact(step).as_str(), max_chars)
        },
    }
}

// ---------------------------------------------------------------------------
// What is shown
// ---------------------------------------------------------------------------

/// What a panel shows of the progress.
pub struct ProgressShown {
    pub statuses: Vec<String>,
    pub halted: bool,
    pub halt_reason: String,
    pub title: String,
}

/// The view of what a panel shows of the progress.
pub struct ProgressShownView {
    pub statuses: Seq<Seq<char>>,
    pub halted: bool,
    pub halt_reason: Seq<char>,
    pub title: Seq<char>,
}

impl View for ProgressShown {
    type V = ProgressShownView;

    open spec fn view(&self) -> ProgressShownView {
        ProgressShownView {
            statuses: texts(self.statuses@),
            halted: self.halted,
            halt_reason: self.halt_reason@,
            title: self.title@,
        }
    }
}

/// What is shown of a progress document; without one each of the `n` steps has the status `?`.
pub open spec fn progress_shown(progress: Option<JsonView>, n: nat) -> ProgressShownView {
    match progress {
        Some(p) => ProgressShownView {
            statuses: p.texts_at("step_statuses"@),
            halted: p.bool_or("halt_requested"@, false),
            halt_reason: p.text_or("halt_reason"@, ""@),
            title: p.text_or("title"@, ""@),
        },
        None => ProgressShownView {
            statuses: Seq::new(n, |i: int| "?"@),
            halted: false,
            halt_reason: ""@,
            title: ""@,
        },
    }
}

fn show_progress(progress: Option<&Json>, n: usize) -> (r: ProgressShown)
    ensures
        r@ == progress_shown(
            match progress {
                Some(p) => Some(p@),
                None => None,
            },
            n as nat,
        ),
{
    match progress {
        Some(p) => ProgressShown {
            statuses: p.texts_at("step_statuses"),
            halted: p.bool_or("halt_requested", false),
            halt_reason: p.text_or("halt_reason", "").to_owned(),
            title: p.text_or("title", "").to_owned(),
        },
        None => {
            let mut statuses: Vec<String> = Vec::new();
            for i in 0..n
                invariant
                    texts(statuses@) =~= Seq::new(i as nat, |k: int| "?"@),
            {
                let ghost before = texts(statuses@);
                statuses.push("?".to_owned());
                assert(texts(statuses@) =~= before.push("?"@));
            }
            ProgressShown {
                statuses,
                halted: false,
                halt_reason: "".to_owned(),
                title: "".to_owned(),
            }
        },
    }
}

/// Every step is done, and there is one.
pub open spec fn all_done(statuses: Seq<Seq<char>>) -> bool {
    statuses.len() > 0 && forall|i: int| 0 <= i < statuses.len() ==> #[trigger] statuses[i]
        == "done"@
}

fn are_all_done(statuses: &[String]) -> (r: bool)
    ensures
        r == all_done(texts(statuses@)),
{
    let ghost all = texts(statuses@);
    for i in 0..statuses.len()
        invariant
            all == texts(statuses@),
            forall|k: int| 0 <= k < i ==> #[trigger] all[k] == "done"@,
    {
        if !same(statuses[i].as_str(), "done") {
            assert(all[i as int] != "done"@);
            return false;
        }
        assert(all[i as int] == "done"@);
    }
    statuses.len() > 0
}

/// A line between two edges, filled up with blanks.
pub open spec fn boxed(s: Seq<char>) -> Seq<char> {
    "║"@ + padded(first_chars(s, PANEL_INNER as nat), PANEL_INNER as nat) + "║"@
}

/// A line of the frame.
pub open spec fn rule(left: Seq<char>, right: Seq<char>) -> PanelLineView {
    PanelLineView {
        style: PanelStyle::Frame,
        text: left + repeated('═', PANEL_INNER as nat) + right,
    }
}

/// A number of at least two characters.
pub open spec fn two_wide(n: nat) -> Seq<char> {
    if decimal(n).len() < 2 {
        " "@ + decimal(n)
    } else {
        decimal(n)
    }
}

/// The sign before a step.
pub open spec fn status_icon(status: Seq<char>) -> Seq<char> {
    if status == "done"@ {
        "✓"@
    } else if status == "in_progress"@ {
        "⋯"@
    } else {
        "·"@
    }
}

/// The status of step `i`; a step without one is pending.
pub open spec fn status_at(statuses: Seq<Seq<char>>, i: int) -> Seq<char> {
    if 0 <= i < statuses.len() {
        statuses[i]
    } else {
        "pending"@
    }
}

/// The line on step `i`.
pub open spec fn step_row(step: JsonView, i: int, statuses: Seq<Seq<char>>) -> PanelLineView {
    PanelLineView {
        style: PanelStyle::Step,
        text: boxed(
            " "@ + two_wide((i + 1) as nat) + ". "@ + status_icon(status_at(statuses, i)) + " "@
                + preview(step_text(step), 66),
        ),
    }
}

/// The lines on the steps.
pub open spec fn step_rows(steps: Seq<JsonView>, statuses: Seq<Seq<char>>) -> Seq<PanelLineView> {
    Seq::new(steps.len(), |i: int| step_row(steps[i], i, statuses))
}

/// The title in the panel: that of the progress where it has one, else that of the plan.
pub open spec fn shown_title(plan: JsonView, progress_title: Seq<char>) -> Seq<char> {
    if progress_title.len() == 0 {
        first_chars(plan.text_or("title"@, "Plano"@), 56)
    } else {
        first_chars(progress_title, 56)
    }
}

/// The line at the foot.
pub open spec fn foot_row(p: ProgressShownView) -> PanelLineView {
    if p.halted {
        PanelLineView {
            style: PanelStyle::Halted,
            text: boxed(" PARADO: "@ + first_chars(p.halt_reason, 62)),
        }
    } else if all_done(p.statuses) {
        PanelLineView {
            style: PanelStyle::Finished,
            text: boxed(" Todas as etapas concluídas. "@),
        }
    } else {
        PanelLineView {
            style: PanelStyle::Running,
            text: boxed(
                " Em cadeia: conclua cada passo; pare só com update_plan_step (halt_execution:true). "@,
            ),
        }
    }
}

/// The panel for a plan; nothing where it has no steps.
pub open spec fn panel(plan: JsonView, progress: Option<JsonView>) -> Seq<PanelLineView> {
    match plan.at("steps"@).as_list() {
        None => seq![],
        Some(steps) => if steps.len() == 0 {
            seq![]
        } else {
            let p = progress_shown(progress, steps.len());
            seq![
                rule("╔"@, "╗"@),
                PanelLineView {
                    style: PanelStyle::Frame,
                    text: boxed(" PLANO · "@ + shown_title(plan, p.title) + " "@),
                },
                rule("╠"@, "╣"@),
            ] + step_rows(steps, p.statuses) + seq![
                rule("╠"@, "╣"@),
                foot_row(p),
                rule("╚"@, "╝"@),
            ]
        },
    }
}

// ---------------------------------------------------------------------------
// Drawing it
// ---------------------------------------------------------------------------

fn draw_boxed(s: &str) -> (r: String)
    ensures
        r@ == boxed(s@),
{
    let inner = pad_right(take_chars(s, PANEL_INNER).as_str(), PANEL_INNER);
    cat(cat("║", inner.as_str()).as_str(), "║")
}

fn draw_rule(left: &str, right: &str) -> (r: PanelLine)
    ensures
        r@ == rule(left@, right@),
{
    let bar = repeat('═', PANEL_INNER);
    PanelLine {
        style: PanelStyle::Frame,
        text: cat(cat(left, bar.as_str()).as_str(), right),
    }
}

fn draw_step(step: &Json, i: usize, statuses: &[String]) -> (r: PanelLine)
    ensures
        r@ == step_row(step@, i as int, texts(statuses@)),
{
    let number = write_decimal(i as u128 + 1);
    let wide = if number.as_str().unicode_len() < 2 {
        cat(" ", number.as_str())
    } else {
        number
    };
    let status: &str = if i < statuses.len() {
        statuses[i].as_str()
    } else {
        "pending"
    };
    let icon: &str = if same(status, "done") {
        "✓"
    } else if same(status, "in_progress") {
        "⋯"
    } else {
        "·"
    };
    let mut row = " ".to_owned();
    row.append(wide.as_str());
    row.append(". ");
    row.append(icon);
    row.append(" ");
    row.append(step_line_preview(step, 66).as_str());
    PanelLine { style: PanelStyle::Step, text: draw_boxed(row.as_str()) }
}

fn draw_foot(p: &ProgressShown) -> (r: PanelLine)
    ensures
        r@ == foot_row(p@),
{
    if p.halted {
        let row = cat(" PARADO: ", take_chars(p.halt_reason.as_str(), 62).as_str());
        PanelLine { style: PanelStyle::Halted, text: draw_boxed(row.as_str()) }
    } else if are_all_done(&p.statuses) {
        PanelLine {
            style: PanelStyle::Finished,
            text: draw_boxed(" Todas as etapas concluídas. "),
        }
    } else {
        PanelLine {
            style: PanelStyle::Running,
            text: draw_boxed(
                " Em cadeia: conclua cada passo; pare só com update_plan_step (halt_execution:true). ",
            ),
        }
    }
}

/// Draws the panel for a plan.
pub fn draw_panel(plan: &Json, progress: Option<&Json>) -> (r: Vec<PanelLine>)
    ensures
        panel_lines(r@) == panel(
            plan@,
            match progress {
                Some(p) => Some(p@),
                None => None,
            },
        ),
{
    let mut out: Vec<PanelLine> = Vec::new();
    let ghost expected = panel(
        plan@,
        match progress {
            Some(p) => Some(p@),
            None => None,
        },
    );
    if let Some(steps) = plan.list_at("steps") {
        if steps.len() > 0 {
            let p = show_progress(progress, steps.len());
            let ghost pv = p@;
            let title = if p.title.as_str().is_empty() {
                take_chars(plan.text_or("title", "Plano"), 56)
            } else {
                take_chars(p.title.as_str(), 56)
            };
            let mut head = " PLANO · ".to_owned();
            head.append(title.as_str());
            head.append(" ");
            out.push(draw_rule("╔", "╗"));
            out.push(PanelLine { style: PanelStyle::Frame, text: draw_boxed(head.as_str()) });
            out.push(draw_rule("╠", "╣"));
            let ghost top = panel_lines(out@);
            let ghost rows = step_rows(views(steps@), pv.statuses);
            assert(top =~= top + rows.take(0));
            for i in 0..steps.len()
                invariant
                    pv == p@,
                    rows == step_rows(views(steps@), pv.statuses),
                    panel_lines(out@) =~= top + rows.take(i as int),
            {
                let ghost before = panel_lines(out@);
                let row = draw_step(&steps[i], i, &p.statuses);
                let ghost rv = row@;
                assert(views(steps@)[i as int] == steps@[i as int]@);
                assert(rv == rows[i as int]);
                out.push(row);
                assert(panel_lines(out@) =~= before.push(rv));
            }
            assert(rows.take(steps@.len() as int) =~= rows);
            let ghost middle = panel_lines(out@);
            out.push(draw_rule("╠", "╣"));
            out.push(draw_foot(&p));
            out.push(draw_rule("╚", "╝"));
            assert(panel_lines(out@) =~= middle + seq![
                rule("╠"@, "╣"@),
                foot_row(pv),
                rule("╚"@, "╝"@),
            ]);
            assert(panel_lines(out@) =~= expected);
            return out;
        }
    }
    assert(panel_lines(out@) =~= seq![]);
    out
}

/// The value of a text; none where it is missing or cannot be read.
pub open spec fn readable(raw: Option<Seq<char>>) -> Option<JsonView> {
    match raw {
        None => None,
        Some(t) => match json_parse(t) {
            Ok(v) => Some(v),
            Err(_) => None,
        },
    }
}

/// Draws the panel for the plan and the progress with these texts; nothing where the plan cannot be
/// read.
pub fn render_plan_execution_panel(plan_raw: Option<&str>, progress_raw: Option<&str>) -> (r: Vec<
    PanelLine,
>)
    ensures
        panel_lines(r@) == match readable(
            match plan_raw {
                Some(t) => Some(t@),
                None => None,
            },
        ) {
            Some(plan) => panel(
                plan,
                readable(
                    match progress_raw {
                        Some(t) => Some(t@),
                        None => None,
                    },
                ),
            ),
            None => seq![],
        },
{
    let plan = match plan_raw {
        Some(t) => parse(t).ok(),
        None => None,
    };
    let progress = match progress_raw {
        Some(t) => parse(t).ok(),
        None => None,
    };
    match &plan {
        Some(plan) => draw_panel(plan, progress.as_ref()),
        None => {
            let out: Vec<PanelLine> = Vec::new();
            assert(panel_lines(out@) =~= seq![]);
            out
        },
    }
}

/// Every line of a panel is as wide as the panel.
pub proof fn law_panel_is_even(plan: JsonView, progress: Option<JsonView>, i: int)
    requires
        0 <= i < panel(plan, progress).len(),
    ensures
        panel(plan, progress)[i].text.len() == PANEL_WIDTH,
{
    reveal_strlit("║");
    reveal_strlit("╔");
    reveal_strlit("╗");
    reveal_strlit("╠");
    reveal_strlit("╣");
    reveal_strlit("╚");
    reveal_strlit("╝");
    assert forall|s: Seq<char>| (#[trigger] boxed(s)).len() == 76 by {}
    let steps = plan.at("steps"@).as_list()->0;
    let p = progress_shown(progress, steps.len());
    if 3 <= i < 3 + steps.len() {
        assert(panel(plan, progress)[i] == step_rows(steps, p.statuses)[i - 3]);
    }
}

/// A panel has a line for each step, and six around them.
pub proof fn law_panel_shows_every_step(plan: JsonView, progress: Option<JsonView>)
    requires
        plan.at("steps"@).as_list() matches Some(steps) && steps.len() > 0,
    ensures
        panel(plan, progress).len() == plan.at("steps"@).as_list()->0.len() + 6,
{
}

// ---------------------------------------------------------------------------
// Laws on what is shown
// ---------------------------------------------------------------------------

/// A text without control characters is shown as it is where it is short, and elsewhere its beginning
/// with a mark.
pub proof fn law_preview(s: Seq<char>, max_chars: nat)
    requires
        forall|i: int| 0 <= i < s.len() ==> !is_control(#[trigger] s[i]),
    ensures
        s.len() <= max_chars ==> preview(s, max_chars) == s,
        s.len() > max_chars ==> preview(s, max_chars) == s.take(max_chars as int) + "…"@,
{
    lemma_visible(s);
}

proof fn lemma_visible(s: Seq<char>)
    requires
        forall|i: int| 0 <= i < s.len() ==> !is_control(#[trigger] s[i]),
    ensures
        visible(s) == s,
    decreases s.len(),
{
    if s.len() > 0 {
        lemma_visible(s.drop_last());
        assert(s.drop_last().push(s.last()) =~= s);
    } else {
        assert(visible(s) =~= s);
    }
}

/// Control characters are left out, and nothing else.
pub proof fn law_visible(a: Seq<char>, c: char, b: Seq<char>)
    ensures
        visible(a + b) == visible(a) + visible(b),
        is_control(c) ==> visible(a.push(c) + b) == visible(a + b),
        forall|i: int| 0 <= i < visible(a).len() ==> !is_control(#[trigger] visible(a)[i]),
    decreases a.len() + b.len(),
{
    lemma_visible_joined(a, b);
    lemma_visible_joined(a.push(c), b);
    assert(a.push(c).drop_last() =~= a);
    lemma_visible_clean(a);
}

proof fn lemma_visible_joined(a: Seq<char>, b: Seq<char>)
    ensures
        visible(a + b) == visible(a) + visible(b),
    decreases b.len(),
{
    if b.len() == 0 {
        assert(a + b =~= a);
        assert(visible(a) + visible(b) =~= visible(a));
    } else {
        lemma_visible_joined(a, b.drop_last());
        assert((a + b).drop_last() =~= a + b.drop_last());
        assert(visible(a + b) =~= visible(a) + visible(b));
    }
}

proof fn lemma_visible_clean(a: Seq<char>)
    ensures
        forall|i: int| 0 <= i < visible(a).len() ==> !is_control(#[trigger] visible(a)[i]),
    decreases a.len(),
{
    if a.len() > 0 {
        let before = visible(a.drop_last());
        lemma_visible_clean(a.drop_last());
        assert forall|i: int| 0 <= i < visible(a).len() implies !is_control(
            #[trigger] visible(a)[i],
        ) by {
            if i < before.len() {
                assert(visible(a)[i] == before[i]);
            }
        }
    }
}

proof fn lemma_boxed_holds(a: Seq<char>, p: Seq<char>, b: Seq<char>)
    requires
        a.len() + p.len() + b.len() <= PANEL_INNER,
    ensures
        holds(boxed(a + p + b), p),
{
    reveal_strlit("║");
    let s = a + p + b;
    let t = boxed(s);
    assert(first_chars(s, PANEL_INNER as nat) == s);
    assert forall|i: int| 0 <= i < p.len() implies t[a.len() + 1 + i] == #[trigger] p[i] by {
        assert(s[a.len() + i] == p[i]);
        assert(padded(s, PANEL_INNER as nat)[a.len() + i] == s[a.len() + i]);
    }
    assert(t.subrange(a.len() as int + 1, a.len() as int + 1 + p.len()) =~= p);
    assert(occurs_at(t, p, a.len() as int + 1));
}

/// The line of each of the first 99 steps shows its number, the sign of its status and the beginning
/// of its text: `✓` where it is done, `⋯` where it is under way, and `·` elsewhere.
pub proof fn law_row_shows_step(plan: JsonView, progress: JsonView, steps: Seq<JsonView>, i: int)
    requires
        plan.get("steps"@) == Some(JsonView::List(steps)),
        0 <= i < steps.len(),
        i < 99,
    ensures
        ({
            let row = panel(plan, Some(progress))[i + 3];
            let list = progress.texts_at("step_statuses"@);
            &&& row.style == PanelStyle::Step
            &&& steps[i] matches JsonView::Text(t) ==> holds(row.text, preview(t, 66))
            &&& holds(row.text, decimal((i + 1) as nat))
            &&& i < list.len() && list[i] == "done"@ ==> holds(row.text, "✓"@)
            &&& i < list.len() && list[i] == "in_progress"@ ==> holds(row.text, "⋯"@)
            &&& i >= list.len() || (list[i] != "done"@ && list[i] != "in_progress"@) ==> holds(
                row.text,
                "·"@,
            )
        }),
{
    reveal_strlit(" ");
    reveal_strlit(". ");
    reveal_strlit("✓");
    reveal_strlit("⋯");
    reveal_strlit("·");
    reveal_strlit("…");
    reveal_strlit("done");
    reveal_strlit("in_progress");
    reveal_strlit("pending");
    assert("done"@.len() != "in_progress"@.len());
    assert("pending"@.len() != "in_progress"@.len());
    assert("done"@.len() != "pending"@.len());
    let list = progress.texts_at("step_statuses"@);
    let row = panel(plan, Some(progress))[i + 3];
    assert(row == step_rows(steps, list)[i]);
    let n = (i + 1) as nat;
    let number = two_wide(n);
    assert(decimal(n).len() <= 2) by {
        if n >= 10 {
            assert(n / 10 < 10);
            assert(decimal(n / 10).len() == 1);
        }
    }
    let icon = status_icon(status_at(list, i));
    let shown = preview(step_text(steps[i]), 66);
    assert(shown.len() <= 67);
    let all = " "@ + number + ". "@ + icon + " "@ + shown;
    let a = " "@ + number + ". "@ + icon + " "@;
    assert(all =~= a + shown + seq![]);
    lemma_boxed_holds(a, shown, seq![]);
    let a = " "@ + number + ". "@;
    let b = " "@ + shown;
    assert(all =~= a + icon + b);
    lemma_boxed_holds(a, icon, b);
    let pre = if decimal(n).len() < 2 {
        " "@ + " "@
    } else {
        " "@
    };
    let b = ". "@ + icon + " "@ + shown;
    assert(all =~= pre + decimal(n) + b);
    lemma_boxed_holds(pre, decimal(n), b);
}

/// The head of a panel shows the title of the progress, or that of the plan where the progress has
/// none, as far as it fits.
pub proof fn law_head_shows_title(plan: JsonView, progress: JsonView, steps: Seq<JsonView>)
    requires
        plan.get("steps"@) == Some(JsonView::List(steps)),
        steps.len() > 0,
    ensures
        progress.get("title"@) matches Some(JsonView::Text(t)) ==> (t.len() > 0 ==> holds(
            panel(plan, Some(progress))[1].text,
            first_chars(t, 56),
        )),
        plan.get("title"@) matches Some(JsonView::Text(t)) ==> holds(
            panel(plan, None)[1].text,
            first_chars(t, 56),
        ),
{
    reveal_strlit(" PLANO · ");
    reveal_strlit(" ");
    reveal_strlit("");
    if let Some(JsonView::Text(t)) = progress.get("title"@) {
        lemma_boxed_holds(" PLANO · "@, first_chars(t, 56), " "@);
    }
    if let Some(JsonView::Text(t)) = plan.get("title"@) {
        lemma_boxed_holds(" PLANO · "@, first_chars(t, 56), " "@);
    }
}

/// The foot of a panel tells of a halt and its reason where one is asked for, else that all is done
/// where each status says so, else that the plan goes on.
pub proof fn law_foot_tells_the_state(plan: JsonView, progress: JsonView, steps: Seq<JsonView>)
    requires
        plan.get("steps"@) == Some(JsonView::List(steps)),
        steps.len() > 0,
    ensures
        ({
            let foot = panel(plan, Some(progress))[steps.len() as int + 4];
            let list = progress.texts_at("step_statuses"@);
            let halted = progress.get("halt_requested"@) == Some(JsonView::Bool(true));
            &&& halted ==> foot.style == PanelStyle::Halted
            &&& halted ==> (progress.get("halt_reason"@) matches Some(JsonView::Text(t)) ==> holds(
                foot.text,
                first_chars(t, 62),
            ))
            &&& !halted && list.len() > 0 && (forall|i: int|
                0 <= i < list.len() ==> #[trigger] list[i] == "done"@) ==> foot.style
                == PanelStyle::Finished
            &&& !halted && (list.len() == 0 || exists|i: int|
                0 <= i < list.len() && #[trigger] list[i] != "done"@) ==> foot.style
                == PanelStyle::Running
        }),
{
    reveal_strlit(" PARADO: ");
    let p = progress_shown(Some(progress), steps.len());
    assert(panel(plan, Some(progress))[steps.len() as int + 4] == foot_row(p));
    if let Some(JsonView::Text(t)) = progress.get("halt_reason"@) {
        assert(" PARADO: "@ + first_chars(t, 62) =~= " PARADO: "@ + first_chars(t, 62) + seq![]);
        lemma_boxed_holds(" PARADO: "@, first_chars(t, 62), seq![]);
    }
}

/// A step that is a text is shown as that text, and any other as its JSON; a text that is missing or
/// cannot be read has no value.
pub proof fn law_step_text(s: Seq<char>, v: JsonView, raw: Option<Seq<char>>)
    ensures
        step_text(JsonView::Text(s)) == s,
        !(v is Text) ==> step_text(v) == json_compact(v),
        readable(None) is None,
        raw matches Some(t) ==> match json_parse(t) {
            Ok(x) => readable(raw) == Some(x),
            Err(_) => readable(raw) is None,
        },
{
}

/// Where the progress has no title of its own, the head shows that of the plan; where the plan has no
/// steps there is no panel.
pub proof fn law_title_of_the_plan(plan: JsonView, progress: JsonView)
    ensures
        plan.get("steps"@) matches Some(JsonView::List(steps)) ==> (plan.get("title"@) matches Some(
            JsonView::Text(t),
        ) ==> (steps.len() > 0 && (progress.get("title"@) is None || progress.get("title"@) == Some(
            JsonView::Text(seq![]),
        )) ==> holds(panel(plan, Some(progress))[1].text, first_chars(t, 56)))),
        plan.get("steps"@) is None ==> panel(plan, Some(progress)).len() == 0 && panel(
            plan,
            None,
        ).len() == 0,
        plan.get("steps"@) == Some(JsonView::List(seq![])) ==> panel(plan, Some(progress)).len()
            == 0,
{
    reveal_strlit(" PLANO · ");
    reveal_strlit(" ");
    reveal_strlit("");
    if let Some(JsonView::Text(t)) = plan.get("title"@) {
        lemma_boxed_holds(" PLANO · "@, first_chars(t, 56), " "@);
    }
}

/// Without a progress the line of each of the first 99 steps shows its number, the sign of a step that
/// is not begun, and the beginning of its text.
pub proof fn law_row_without_progress(plan: JsonView, steps: Seq<JsonView>, i: int)
    requires
        plan.get("steps"@) == Some(JsonView::List(steps)),
        0 <= i < steps.len(),
        i < 99,
    ensures
        ({
            let row = panel(plan, None)[i + 3];
            &&& row.style == PanelStyle::Step
            &&& steps[i] matches JsonView::Text(t) ==> holds(row.text, preview(t, 66))
            &&& holds(row.text, "·"@)
            &&& panel(plan, None)[steps.len() as int + 4].style == PanelStyle::Running
        }),
{
    reveal_strlit(" ");
    reveal_strlit(". ");
    reveal_strlit("·");
    reveal_strlit("…");
    reveal_strlit("?");
    reveal_strlit("done");
    reveal_strlit("in_progress");
    assert("?"@.len() != "done"@.len());
    assert("?"@.len() != "in_progress"@.len());
    let list = Seq::new(steps.len(), |i: int| "?"@);
    assert(list[0] == "?"@);
    let row = panel(plan, None)[i + 3];
    assert(row == step_rows(steps, list)[i]);
    assert(status_at(list, i) == "?"@);
    let n = (i + 1) as nat;
    let number = two_wide(n);
    assert(decimal(n).len() <= 2) by {
        if n >= 10 {
            assert(n / 10 < 10);
            assert(decimal(n / 10).len() == 1);
        }
    }
    let shown = preview(step_text(steps[i]), 66);
    assert(shown.len() <= 67);
    let all = " "@ + number + ". "@ + "·"@ + " "@ + shown;
    let a = " "@ + number + ". "@ + "·"@ + " "@;
    assert(all =~= a + shown + seq![]);
    lemma_boxed_holds(a, shown, seq![]);
    let a = " "@ + number + ". "@;
    let b = " "@ + shown;
    assert(all =~= a + "·"@ + b);
    lemma_boxed_holds(a, "·"@, b);
}

} // verus!
