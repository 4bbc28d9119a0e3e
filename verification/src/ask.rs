//! Questions to the user with a list of options.
use crate::json::{empty_object, object, text, Json, JsonView};
use crate::numbers::{
    decimal, is_digit, law_decimal_round_trip, law_signed_digits, parse_unsigned, read_unsigned,
    signed_decimal, write_decimal,
};
use crate::reply::{error, error_view, law_error_fields, ok, ok_view, optional};
use crate::text::{
    cat, first_chars, has_prefix, law_trimmed_stays, lower, lowered, same, same_ignoring_case, starts_with, take_chars, texts,
    trim, trimmed,
};
use vstd::prelude::*;

verus! {

/// What the option for a free answer begins with.
pub const OTHER_OPTION_PREFIX: &'static str = "✎ Outro";

/// An option that asks for a free answer. One that is only called `outro` stands for itself.
pub open spec fn other_slot(option: Seq<char>) -> bool {
    has_prefix(option, OTHER_OPTION_PREFIX@)
}

/// One of the options asks for a free answer.
pub open spec fn has_other_slot(options: Seq<Seq<char>>) -> bool {
    exists|i: int| 0 <= i < options.len() && other_slot(#[trigger] options[i])
}

/// Tells whether one of the options asks for a free answer.
pub fn options_already_include_other_slot(options: &[String]) -> (r: bool)
    ensures
        r == has_other_slot(texts(options@)),
{
    let ghost all = texts(options@);
    for i in 0..options.len()
        invariant
            all == texts(options@),
            forall|k: int| 0 <= k < i ==> !other_slot(#[trigger] all[k]),
    {
        let o = options[i].as_str();
        assert(o@ == all[i as int]);
        if starts_with(o, OTHER_OPTION_PREFIX) {
            assert(other_slot(all[i as int]));
            return true;
        }
    }
    assert(all.len() == options@.len());
    false
}

/// The first option from number `from` on that asks for a free answer.
pub open spec fn other_index_from(options: Seq<Seq<char>>, from: int) -> Option<int>
    decreases options.len() - from,
{
    if from < 0 || from >= options.len() {
        None
    } else if other_slot(options[from]) {
        Some(from)
    } else {
        other_index_from(options, from + 1)
    }
}

/// The first option that asks for a free answer.
pub open spec fn other_index(options: Seq<Seq<char>>) -> Option<int> {
    other_index_from(options, 0)
}

/// Finds the option that asks for a free answer.
pub fn find_other_option_index(options: &[String]) -> (r: Option<usize>)
    ensures
        match r {
            Some(i) => other_index(texts(options@)) == Some(i as int) && i < options@.len(),
            None => other_index(texts(options@)) is None,
        },
{
    let ghost all = texts(options@);
    let mut i: usize = 0;
    while i < options.len()
        invariant
            all == texts(options@),
            i <= options@.len(),
            other_index(all) == other_index_from(all, i as int),
        decreases options@.len() - i,
    {
        assert(options@[i as int]@ == all[i as int]);
        if starts_with(options[i].as_str(), OTHER_OPTION_PREFIX) {
            return Some(i);
        }
        i = i + 1;
    }
    None
}

// ---------------------------------------------------------------------------
// The question
// ---------------------------------------------------------------------------

/// A question to the user.
pub struct Question {
    pub question: String,
    pub subtitle: Option<String>,
    pub footer_hint: String,
    pub options: Vec<String>,
    pub default_index: usize,
    pub animate: bool,
    pub simple: bool,
}

/// The view of a question.
pub struct QuestionView {
    pub question: Seq<char>,
    pub subtitle: Option<Seq<char>>,
    pub footer_hint: Seq<char>,
    pub options: Seq<Seq<char>>,
    pub default_index: int,
    pub animate: bool,
    pub simple: bool,
}

impl View for Question {
    type V = QuestionView;

    open spec fn view(&self) -> QuestionView {
        QuestionView {
            question: self.question@,
            subtitle: optional(self.subtitle),
            footer_hint: self.footer_hint@,
            options: texts(self.options@),
            default_index: self.default_index as int,
            animate: self.animate,
            simple: self.simple,
        }
    }
}

/// There is something to choose from, and the default is one of the options.
pub open spec fn question_wf(q: QuestionView) -> bool {
    q.options.len() >= 2 && 0 <= q.default_index < q.options.len()
}

/// The options that are shown: those of the call and, unless it says otherwise or has one, an option
/// for a free answer.
pub open spec fn shown_options(options: Seq<Seq<char>>, include_other: bool) -> Seq<Seq<char>> {
    if include_other && !has_other_slot(options) {
        options.push(OTHER_OPTION_PREFIX@ + " — resposta livre (texto customizado)"@)
    } else {
        options
    }
}

/// The question that a call asks, or why it is refused.
pub open spec fn question_view(input: JsonView) -> Result<QuestionView, Seq<char>> {
    let given = input.texts_at("options"@);
    let include_other = input.bool_or("include_other"@, true);
    let options = shown_options(given, include_other);
    if given.len() == 0 {
        Err("options não pode ser vazio"@)
    } else if !include_other && given.len() < 2 {
        Err(
            "inclua pelo menos 2 opções ou defina include_other: true para adicionar 'Outro'."@,
        )
    } else if options.len() < 2 {
        Err("é necessário ao menos 2 opções no total."@)
    } else {
        Ok(
            QuestionView {
                question: input.text_or("question"@, "Escolha:"@),
                subtitle: input.filled_at("subtitle"@),
                footer_hint: input.text_or("footer_hint"@, ""@),
                options,
                default_index: match input.uint_at("default_index"@) {
                    Some(n) => if n < options.len() {
                        n as int
                    } else {
                        options.len() - 1
                    },
                    None => 0,
                },
                animate: input.bool_or("animate_intro"@, false),
                simple: input.text_or("ui_mode"@, "dialoguer"@) == "simple"@,
            },
        )
    }
}

/// Decides what is asked.
pub fn ask_user_choice(input: &Json) -> (r: Result<Question, Json>)
    ensures
        match (r, question_view(input@)) {
            (Ok(q), Ok(v)) => q@ == v,
            (Err(e), Err(m)) => e@ == error_view(m),
            _ => false,
        },
{
    let include_other = input.bool_or("include_other", true);
    let mut options = input.texts_at("options");
    let ghost given = texts(options@);
    assert(given.len() == options@.len());
    if options.len() == 0 {
        return Err(error("options não pode ser vazio"));
    }
    if !include_other && options.len() < 2 {
        return Err(
            error(
                "inclua pelo menos 2 opções ou defina include_other: true para adicionar 'Outro'.",
            ),
        );
    }
    if include_other && !options_already_include_other_slot(&options) {
        let other = cat(OTHER_OPTION_PREFIX, " — resposta livre (texto customizado)");
        let ghost o = other@;
        options.push(other);
        assert(texts(options@) =~= given.push(o));
    }
    assert(texts(options@) == shown_options(given, include_other));
    assert(texts(options@).len() == options@.len());
    if options.len() < 2 {
        return Err(error("é necessário ao menos 2 opções no total."));
    }
    let default_index: usize = match input.uint_at("default_index") {
        Some(n) => if n < options.len() as u64 {
            n as usize
        } else {
            options.len() - 1
        },
        None => 0,
    };
    let subtitle = match input.filled_at("subtitle") {
        Some(s) => Some(s.to_owned()),
        None => None,
    };
    Ok(
        Question {
            question: input.text_or("question", "Escolha:").to_owned(),
            subtitle,
            footer_hint: input.text_or("footer_hint", "").to_owned(),
            options,
            default_index,
            animate: input.bool_or("animate_intro", false),
            simple: same(input.text_or("ui_mode", "dialoguer"), "simple"),
        },
    )
}

/// The text over the options.
pub open spec fn prompt_view(q: QuestionView) -> Seq<char> {
    match q.subtitle {
        Some(s) => q.question + "\n"@ + s,
        None => q.question,
    }
}

impl Question {
    /// The text over the options.
    pub fn prompt(&self) -> (r: String)
        ensures
            r@ == prompt_view(self@),
    {
        match &self.subtitle {
            Some(s) => cat(cat(self.question.as_str(), "\n").as_str(), s.as_str()),
            None => self.question.clone(),
        }
    }
}

/// The number of pictures before the menu: three rounds of the options, at most 22.
pub open spec fn frame_count(n: nat) -> nat {
    if 3 * n < 22 {
        3 * n
    } else {
        22
    }
}

/// One picture: the number of an option and its beginning.
pub open spec fn ask_frame(options: Seq<Seq<char>>, tick: int) -> Seq<char> {
    let j = tick % (options.len() as int);
    "["@ + decimal((j + 1) as nat) + "] "@ + first_chars(options[j], 70)
}

/// The pictures before the menu: the options go round.
pub open spec fn ask_frames(options: Seq<Seq<char>>, enabled: bool) -> Seq<Seq<char>> {
    if !enabled || options.len() == 0 {
        seq![]
    } else {
        Seq::new(frame_count(options.len()), |tick: int| ask_frame(options, tick))
    }
}

/// Draws the pictures before the menu.
pub fn animate_ask_prelude(options: &[String], enabled: bool) -> (r: Vec<String>)
    ensures
        texts(r@) == ask_frames(texts(options@), enabled),
{
    let ghost all = texts(options@);
    let mut out: Vec<String> = Vec::new();
    if !enabled || options.len() == 0 {
        assert(texts(out@) =~= seq![]);
        return out;
    }
    let n: usize = options.len();
    let count: usize = if n < 8 {
        3 * n
    } else {
        22
    };
    let ghost expected = ask_frames(all, enabled);
    for tick in 0..count
        invariant
            all == texts(options@),
            n == options@.len(),
            n > 0,
            count == frame_count(n as nat),
            expected == Seq::new(frame_count(n as nat), |t: int| ask_frame(all, t)),
            texts(out@) =~= expected.take(tick as int),
    {
        let j: usize = tick % n;
        let ghost before = texts(out@);
        assert(all[j as int] == options@[j as int]@);
        let mut frame = "[".to_owned();
        frame.append(write_decimal(j as u128 + 1).as_str());
        frame.append("] ");
        frame.append(take_chars(options[j].as_str(), 70).as_str());
        let ghost f = frame@;
        assert(f == expected[tick as int]);
        out.push(frame);
        assert(texts(out@) =~= before.push(f));
    }
    assert(expected.take(count as int) =~= expected);
    out
}

// ---------------------------------------------------------------------------
// The answer
// ---------------------------------------------------------------------------

/// An option that was chosen.
#[derive(Clone, Copy, PartialEq, Eq, Structural)]
pub enum Choice {
    /// One that stands for itself.
    Preset(usize),
    /// One that asks for a free answer.
    Free(usize),
}

/// What choosing option `i` means.
pub open spec fn chosen(options: Seq<Seq<char>>, i: int) -> Choice {
    if other_index(options) == Some(i) {
        Choice::Free(i as usize)
    } else {
        Choice::Preset(i as usize)
    }
}

/// The choice in a line that the user typed, or why it is none.
pub open spec fn typed_choice(options: Seq<Seq<char>>, line: Seq<char>) -> Result<
    Choice,
    Seq<char>,
> {
    let t = trimmed(line);
    if lowered(t) == lowered("o"@) || lowered(t) == lowered("outro"@) {
        match other_index(options) {
            Some(i) => Ok(Choice::Free(i as usize)),
            None => Err("esta pergunta não tem opção Outro"@),
        }
    } else {
        match parse_unsigned(t, u64::MAX as nat) {
            None => Err("número inválido"@),
            Some(n) => if n < 1 || n > options.len() {
                Err("número fora do intervalo"@)
            } else {
                Ok(chosen(options, n - 1))
            },
        }
    }
}

/// A choice, or the reply that tells why there is none, is the expected one.
pub open spec fn choice_made(r: Result<Choice, Json>, expected: Result<Choice, Seq<char>>) -> bool {
    match (r, expected) {
        (Ok(c), Ok(v)) => c == v,
        (Err(e), Err(m)) => e@ == error_view(m),
        _ => false,
    }
}

/// Reads the choice in a line that the user typed.
pub fn ask_user_choice_simple(options: &[String], line: &str) -> (r: Result<Choice, Json>)
    ensures
        choice_made(r, typed_choice(texts(options@), line@)),
{
    let t = trim(line);
    let other = find_other_option_index(options);
    assert(texts(options@).len() == options@.len());
    if same_ignoring_case(t.as_str(), "o") || same_ignoring_case(t.as_str(), "outro") {
        return match other {
            Some(i) => Ok(Choice::Free(i)),
            None => Err(error("esta pergunta não tem opção Outro")),
        };
    }
    match read_unsigned(t.as_str(), u64::MAX) {
        None => Err(error("número inválido")),
        Some(n) => {
            if n < 1 || n > options.len() as u64 {
                return Err(error("número fora do intervalo"));
            }
            let i: usize = (n - 1) as usize;
            match other {
                Some(o) => if o == i {
                    Ok(Choice::Free(i))
                } else {
                    Ok(Choice::Preset(i))
                },
                None => Ok(Choice::Preset(i)),
            }
        },
    }
}

/// The reply when the user chose nothing.
pub open spec fn cancelled_view() -> JsonView {
    empty_object().with("status"@, JsonView::Text("cancelled"@)).with(
        "message"@,
        JsonView::Text(
            "Seleção cancelada (Esc). Chame ask_user_choice novamente ou siga em modo texto se o usuário preferir."@,
        ),
    )
}

/// What a menu gave: the number of an option, nothing, or an error.
pub enum Picked {
    Option(usize),
    Nothing,
    Failed(String),
}

/// The choice made in a menu, or the reply that tells why there is none.
pub open spec fn menu_choice(options: Seq<Seq<char>>, picked: Picked) -> Result<Choice, JsonView> {
    match picked {
        Picked::Option(i) => Ok(chosen(options, i as int)),
        Picked::Nothing => Err(cancelled_view()),
        Picked::Failed(e) => if e@ == "cancelled"@ {
            Err(cancelled_view())
        } else {
            Err(error_view(e@ + ". Tente ui_mode: \"simple\"."@))
        },
    }
}

fn cancelled() -> (j: Json)
    ensures
        j@ == cancelled_view(),
{
    object().with("status", text("cancelled")).with(
        "message",
        text(
            "Seleção cancelada (Esc). Chame ask_user_choice novamente ou siga em modo texto se o usuário preferir.",
        ),
    )
}

/// Reads the choice made in a menu.
pub fn ask_user_choice_dialoguer(options: &[String], picked: &Picked) -> (r: Result<Choice, Json>)
    ensures
        match (r, menu_choice(texts(options@), *picked)) {
            (Ok(c), Ok(v)) => c == v,
            (Err(e), Err(v)) => e@ == v,
            _ => false,
        },
{
    match picked {
        Picked::Option(i) => match find_other_option_index(options) {
            Some(o) => if o == *i {
                Ok(Choice::Free(*i))
            } else {
                Ok(Choice::Preset(*i))
            },
            None => Ok(Choice::Preset(*i)),
        },
        Picked::Nothing => Err(cancelled()),
        Picked::Failed(e) => if same(e.as_str(), "cancelled") {
            Err(cancelled())
        } else {
            Err(error(cat(e.as_str(), ". Tente ui_mode: \"simple\".").as_str()))
        },
    }
}

/// The reply to option `i`; a free answer belongs to the option that asks for one.
pub open spec fn choice_reply(q: QuestionView, i: int, free_text: Option<Seq<char>>) -> JsonView {
    let other = other_index(q.options) == Some(i);
    let answer = match free_text {
        Some(s) => trimmed(s),
        None => trimmed(""@),
    };
    let choice = if !other {
        q.options[i]
    } else if answer.len() == 0 {
        "[Outro · sem texto]"@
    } else {
        answer
    };
    let base = ok_view().with(
        "kind"@,
        JsonView::Text(
            if other {
                "other"@
            } else {
                "preset"@
            },
        ),
    ).with("index"@, JsonView::Int(i)).with("selected_index"@, JsonView::Int(i)).with(
        "choice"@,
        JsonView::Text(choice),
    ).with("question"@, JsonView::Text(q.question)).with(
        "subtitle"@,
        JsonView::Text(
            match q.subtitle {
                Some(s) => s,
                None => ""@,
            },
        ),
    ).with("footer_hint"@, JsonView::Text(q.footer_hint));
    if other {
        base.with("free_text"@, JsonView::Text(answer))
    } else {
        base
    }
}

/// Tells what the user chose.
pub fn finalize_choice_json(q: &Question, i: usize, free_text: Option<&str>) -> (j: Json)
    requires
        i < q.options@.len(),
    ensures
        j@ == choice_reply(
            q@,
            i as int,
            match free_text {
                Some(s) => Some(s@),
                None => None,
            },
        ),
{
    let other = match find_other_option_index(&q.options) {
        Some(o) => o == i,
        None => false,
    };
    assert(q@.options[i as int] == q.options@[i as int]@);
    let answer = match free_text {
        Some(s) => trim(s),
        None => trim(""),
    };
    let (kind, choice): (&str, String) = if !other {
        ("preset", q.options[i].clone())
    } else if answer.as_str().is_empty() {
        ("other", "[Outro · sem texto]".to_owned())
    } else {
        ("other", answer.clone())
    };
    let subtitle: &str = match &q.subtitle {
        Some(s) => s.as_str(),
        None => "",
    };
    let base = ok().with("kind", text(kind)).with("index", Json::Uint(i as u64)).with(
        "selected_index",
        Json::Uint(i as u64),
    ).with("choice", text(choice.as_str())).with("question", text(q.question.as_str())).with(
        "subtitle",
        text(subtitle),
    ).with("footer_hint", text(q.footer_hint.as_str()));
    if other {
        base.with("free_text", text(answer.as_str()))
    } else {
        base
    }
}

// ---------------------------------------------------------------------------
// Laws
// ---------------------------------------------------------------------------

/// A question that is asked has at least two options, the default is one of them, the options of
/// the call come first and in their order, and unless the call says otherwise one of them asks for a
/// free answer, so that `o` chooses it.
pub proof fn law_question_offers_a_choice(input: JsonView)
    requires
        question_view(input) is Ok,
    ensures
        ({
            let q = question_view(input)->Ok_0;
            let given = input.texts_at("options"@);
            &&& question_wf(q)
            &&& given.len() <= q.options.len() <= given.len() + 1
            &&& q.options.take(given.len() as int) == given
            &&& input.bool_or("include_other"@, true) ==> other_index(q.options) is Some
            &&& input.bool_or("include_other"@, true) ==> typed_choice(q.options, "o"@) is Ok
        }),
{
    let q = question_view(input)->Ok_0;
    let given = input.texts_at("options"@);
    assert(q.options.take(given.len() as int) =~= given);
    if input.bool_or("include_other"@, true) && !has_other_slot(given) {
        let other = OTHER_OPTION_PREFIX@ + " — resposta livre (texto customizado)"@;
        assert(other.subrange(0, OTHER_OPTION_PREFIX@.len() as int) =~= OTHER_OPTION_PREFIX@);
        assert(other.take(OTHER_OPTION_PREFIX@.len() as int) =~= OTHER_OPTION_PREFIX@);
        assert(q.options[given.len() as int] == other);
        assert(other_slot(q.options[given.len() as int]));
    }
    if has_other_slot(q.options) {
        lemma_other_slot(q.options, 0);
    }
    reveal_strlit("o");
    assert(trimmed("o"@) == "o"@);
}

proof fn lemma_other_slot(options: Seq<Seq<char>>, from: int)
    requires
        0 <= from,
        exists|i: int| from <= i < options.len() && other_slot(#[trigger] options[i]),
    ensures
        other_index_from(options, from) is Some,
    decreases options.len() - from,
{
    if from < options.len() && !other_slot(options[from]) {
        lemma_other_slot(options, from + 1);
    }
}

/// A choice in a line is one of the options.
pub proof fn law_choice_is_an_option(options: Seq<Seq<char>>, line: Seq<char>)
    requires
        options.len() <= usize::MAX,
        typed_choice(options, line) is Ok,
    ensures
        match typed_choice(options, line)->Ok_0 {
            Choice::Preset(i) => i < options.len(),
            Choice::Free(i) => i < options.len() && other_index(options) == Some(i as int),
        },
{
    lemma_other_index(options, 0);
}

proof fn lemma_other_index(options: Seq<Seq<char>>, from: int)
    requires
        0 <= from,
    ensures
        other_index_from(options, from) matches Some(i) ==> from <= i < options.len(),
    decreases options.len() - from,
{
    if from < options.len() {
        lemma_other_index(options, from + 1);
    }
}

/// A question is that of the call: its text, its subtitle where it is not empty, its hint, its default
/// where it names one of the options, and its way to ask.
pub proof fn law_question_fields(input: JsonView)
    ensures
        question_view(input) matches Ok(q) ==> {
            &&& input.get("question"@) matches Some(JsonView::Text(t)) ==> q.question == t
            &&& !(input.at("question"@) is Text) ==> q.question == "Escolha:"@
            &&& input.get("subtitle"@) matches Some(JsonView::Text(t)) ==> (if t.len() > 0 {
                q.subtitle == Some(t)
            } else {
                q.subtitle is None
            })
            &&& !(input.at("subtitle"@) is Text) ==> q.subtitle is None
            &&& input.get("footer_hint"@) matches Some(JsonView::Text(t)) ==> q.footer_hint == t
            &&& input.get("default_index"@) matches Some(JsonView::Int(n)) ==> (0 <= n
                < q.options.len() && n <= u64::MAX ==> q.default_index == n)
            &&& input.get("default_index"@) is None ==> q.default_index == 0
            &&& q.animate <==> input.get("animate_intro"@) == Some(JsonView::Bool(true))
            &&& q.simple <==> input.get("ui_mode"@) == Some(JsonView::Text("simple"@))
        },
{
    reveal_strlit("dialoguer");
    reveal_strlit("simple");
    assert("dialoguer"@.len() != "simple"@.len());
}

/// A call with two options or more is always asked, and one with a single option that is no free one
/// too, unless it wants no free option.
pub proof fn law_question_is_owed(input: JsonView)
    ensures
        input.texts_at("options"@).len() >= 2 ==> question_view(input) is Ok,
        input.texts_at("options"@).len() == 1 && !has_prefix(
            input.texts_at("options"@)[0],
            "✎ Outro"@,
        ) ==> (question_view(input) is Ok <==> input.get("include_other"@) != Some(
            JsonView::Bool(false),
        )),
        input.texts_at("options"@).len() == 0 ==> question_view(input) is Err,
        input.get("include_other"@) == Some(JsonView::Bool(false)) ==> (question_view(
            input,
        ) matches Ok(q) ==> q.options == input.texts_at("options"@)),
{
    let given = input.texts_at("options"@);
    if given.len() == 1 {
        assert(given[0] == given[0]);
        if has_other_slot(given) {
            let i = choose|i: int| 0 <= i < given.len() && other_slot(#[trigger] given[i]);
            assert(i == 0);
        }
    }
}

/// The reply to a choice holds the number of the option and the option itself, or the free answer
/// without white space at its ends, and the question that was asked.
pub proof fn law_choice_fields(q: QuestionView, i: int, free_text: Option<Seq<char>>)
    requires
        0 <= i < q.options.len(),
    ensures
        ({
            let r = choice_reply(q, i, free_text);
            let free = other_index(q.options) == Some(i);
            &&& r.get("status"@) == Some(JsonView::Text("ok"@))
            &&& r.get("index"@) == Some(JsonView::Int(i))
            &&& r.get("selected_index"@) == Some(JsonView::Int(i))
            &&& r.get("question"@) == Some(JsonView::Text(q.question))
            &&& r.get("footer_hint"@) == Some(JsonView::Text(q.footer_hint))
            &&& q.subtitle matches Some(t) ==> r.get("subtitle"@) == Some(JsonView::Text(t))
            &&& !free ==> r.get("kind"@) == Some(JsonView::Text("preset"@)) && r.get("choice"@)
                == Some(JsonView::Text(q.options[i])) && r.get("free_text"@) is None
            &&& free ==> r.get("kind"@) == Some(JsonView::Text("other"@))
            &&& free ==> (free_text matches Some(t) ==> r.get("free_text"@) == Some(
                JsonView::Text(trimmed(t)),
            ))
            &&& free ==> (free_text matches Some(t) ==> (trimmed(t).len() > 0 ==> r.get("choice"@)
                == Some(JsonView::Text(trimmed(t)))))
        }),
{
    reveal_strlit("status");
    assert("status"@.len() == 6);
    reveal_strlit("kind");
    assert("kind"@.len() == 4);
    reveal_strlit("index");
    assert("index"@.len() == 5);
    reveal_strlit("selected_index");
    assert("selected_index"@.len() == 14);
    reveal_strlit("choice");
    assert("choice"@.len() == 6);
    reveal_strlit("question");
    assert("question"@.len() == 8);
    reveal_strlit("subtitle");
    assert("subtitle"@.len() == 8);
    reveal_strlit("footer_hint");
    assert("footer_hint"@.len() == 11);
    reveal_strlit("free_text");
    assert("free_text"@.len() == 9);
    assert("status"@[0] != "choice"@[0]);
    assert("question"@[0] != "subtitle"@[0]);
}

/// Typing the number of an option chooses that option, and one that asks for a free answer asks for
/// it.
pub proof fn law_typed_number(options: Seq<Seq<char>>, n: nat)
    requires
        1 <= n <= u64::MAX,
        options.len() <= usize::MAX,
    ensures
        n <= options.len() ==> typed_choice(options, decimal(n)) == Ok::<Choice, Seq<char>>(
            if other_index(options) == Some(n - 1) {
                Choice::Free((n - 1) as usize)
            } else {
                Choice::Preset((n - 1) as usize)
            },
        ),
        n > options.len() ==> typed_choice(options, decimal(n)) is Err,
{
    let s = decimal(n);
    law_decimal_round_trip(n, u64::MAX as nat);
    law_signed_digits(n as int);
    assert(signed_decimal(n as int) == s);
    assert(is_digit(s[0]));
    assert(is_digit(s[s.len() - 1]));
    law_trimmed_stays(s);
    reveal_strlit("o");
    reveal_strlit("outro");
    assert(lowered(s)[0] == lower(s[0]));
    assert(lowered("o"@)[0] == lower('o'));
    assert(lowered("outro"@)[0] == lower('o'));
}

/// Each picture before the menu shows the number and the beginning of an option, and the options go
/// round.
pub proof fn law_frames_go_round(options: Seq<Seq<char>>, tick: int)
    requires
        options.len() > 0,
        0 <= tick < ask_frames(options, true).len(),
    ensures
        ({
            let k = tick % (options.len() as int);
            ask_frames(options, true)[tick] == "["@ + decimal((k + 1) as nat) + "] "@ + first_chars(
                options[k],
                70,
            )
        }),
        ask_frames(options, true).len() <= 22,
        ask_frames(options, false).len() == 0,
{
}

/// A choice in a menu is the option that was picked; without one the reply says that it was cancelled.
pub proof fn law_menu_choice(options: Seq<Seq<char>>, i: usize, e: String)
    ensures
        menu_choice(options, Picked::Option(i)) == Ok::<Choice, JsonView>(
            if other_index(options) == Some(i as int) {
                Choice::Free(i)
            } else {
                Choice::Preset(i)
            },
        ),
        menu_choice(options, Picked::Nothing) matches Err(r) && r.get("status"@) == Some(
            JsonView::Text("cancelled"@),
        ),
        e@ != "cancelled"@ ==> (menu_choice(options, Picked::Failed(e)) matches Err(r) && r.get(
            "error"@,
        ) == Some(JsonView::Text(e@ + ". Tente ui_mode: \"simple\"."@))),
{
    reveal_strlit("status");
    assert("status"@.len() == 6);
    reveal_strlit("message");
    assert("message"@.len() == 7);
    reveal_strlit("error");
    assert("error"@.len() == 5);
}

/// The option that asks for a free answer is the first that begins with its prefix.
pub proof fn law_free_option(options: Seq<Seq<char>>)
    ensures
        match other_index(options) {
            Some(i) => {
                &&& 0 <= i < options.len()
                &&& has_prefix(options[i], "✎ Outro"@)
                &&& forall|j: int| 0 <= j < i ==> !has_prefix(#[trigger] options[j], "✎ Outro"@)
            },
            None => forall|j: int|
                0 <= j < options.len() ==> !has_prefix(#[trigger] options[j], "✎ Outro"@),
        },
{
    lemma_free_option(options, 0);
}

proof fn lemma_free_option(options: Seq<Seq<char>>, from: int)
    requires
        0 <= from,
        forall|j: int|
            0 <= j < from && j < options.len() ==> !has_prefix(
                #[trigger] options[j],
                OTHER_OPTION_PREFIX@,
            ),
    ensures
        match other_index_from(options, from) {
            Some(i) => {
                &&& 0 <= i < options.len()
                &&& has_prefix(options[i], OTHER_OPTION_PREFIX@)
                &&& forall|j: int|
                    0 <= j < i ==> !has_prefix(#[trigger] options[j], OTHER_OPTION_PREFIX@)
            },
            None => forall|j: int|
                0 <= j < options.len() ==> !has_prefix(
                    #[trigger] options[j],
                    OTHER_OPTION_PREFIX@,
                ),
        },
    decreases options.len() - from,
{
    if from < options.len() && !has_prefix(options[from], OTHER_OPTION_PREFIX@) {
        lemma_free_option(options, from + 1);
    }
}

/// Over the options stands the question, and below it the subtitle where there is one.
pub proof fn law_prompt(q: QuestionView)
    ensures
        q.subtitle matches Some(s) ==> prompt_view(q) == q.question + "\n"@ + s,
        q.subtitle is None ==> prompt_view(q) == q.question,
{
}

/// A choice that is made is the expected one, and a refusal holds its message.
pub proof fn law_choice_made(r: Result<Choice, Json>, expected: Result<Choice, Seq<char>>)
    requires
        choice_made(r, expected),
    ensures
        r is Ok <==> expected is Ok,
        r matches Ok(c) ==> expected == Ok::<Choice, Seq<char>>(c),
        r matches Err(e) ==> e@.get("error"@) == Some(JsonView::Text(expected->Err_0)),
{
    if expected is Err {
        law_error_fields(expected->Err_0);
    }
}

/// There is a place for a free answer just where an option begins with its prefix.
pub proof fn law_free_slot(options: Seq<Seq<char>>, i: int)
    ensures
        0 <= i < options.len() && has_prefix(options[i], "✎ Outro"@) ==> has_other_slot(options),
        has_other_slot(options) ==> other_index(options) is Some,
{
    law_free_option(options);
    if has_other_slot(options) {
        let k = choose|k: int| 0 <= k < options.len() && other_slot(#[trigger] options[k]);
        assert(has_prefix(options[k], "✎ Outro"@));
    }
}

/// A default behind the last option is the last one; the option for a free answer is added at the end
/// where none is there and the call does not refuse it.
pub proof fn law_default_and_free_option(input: JsonView)
    ensures
        question_view(input) matches Ok(q) ==> {
            let given = input.texts_at("options"@);
            &&& input.get("default_index"@) matches Some(JsonView::Int(n)) ==> (q.options.len() <= n
                <= u64::MAX ==> q.default_index == q.options.len() - 1)
            &&& input.get("include_other"@) != Some(JsonView::Bool(false)) && (forall|i: int|
                0 <= i < given.len() ==> !has_prefix(#[trigger] given[i], "✎ Outro"@)) ==> q.options
                == given.push("✎ Outro"@ + " — resposta livre (texto customizado)"@)
            &&& (exists|i: int| 0 <= i < given.len() && has_prefix(#[trigger] given[i], "✎ Outro"@))
                ==> q.options == given
        },
{
    let given = input.texts_at("options"@);
    if has_other_slot(given) {
        let k = choose|k: int| 0 <= k < given.len() && other_slot(#[trigger] given[k]);
        assert(has_prefix(given[k], "✎ Outro"@));
    }
    if exists|i: int| 0 <= i < given.len() && has_prefix(#[trigger] given[i], "✎ Outro"@) {
        let k = choose|k: int| 0 <= k < given.len() && has_prefix(#[trigger] given[k], "✎ Outro"@);
        assert(other_slot(given[k]));
    }
}

/// `o` and `outro`, in any case and with white space around them, ask for the free answer, and are
/// refused where there is none; a number with white space around it is that number.
pub proof fn law_typed_words(options: Seq<Seq<char>>, line: Seq<char>, n: nat)
    ensures
        ({
            let t = trimmed(line);
            let free = lowered(t) == lowered("o"@) || lowered(t) == lowered("outro"@);
            &&& free ==> match other_index(options) {
                Some(i) => typed_choice(options, line) == Ok::<Choice, Seq<char>>(
                    Choice::Free(i as usize),
                ),
                None => typed_choice(options, line) is Err,
            }
            &&& !free && parse_unsigned(t, u64::MAX as nat) is None ==> typed_choice(options, line)
                is Err
            &&& !free && parse_unsigned(t, u64::MAX as nat) == Some(0nat) ==> typed_choice(
                options,
                line,
            ) is Err
            &&& !free && trimmed(t) == t ==> typed_choice(options, line) == typed_choice(options, t)
        }),
{
}

/// A free answer without text is told as such, and a question without a subtitle has an empty one in
/// the reply.
pub proof fn law_free_answer_without_text(q: QuestionView, i: int, free_text: Option<Seq<char>>)
    requires
        0 <= i < q.options.len(),
        free_text matches Some(t) ==> trimmed(t).len() == 0,
    ensures
        ({
            let r = choice_reply(q, i, free_text);
            &&& other_index(q.options) == Some(i) ==> r.get("choice"@) == Some(
                JsonView::Text("[Outro · sem texto]"@),
            )
            &&& q.subtitle is None ==> r.get("subtitle"@) == Some(JsonView::Text(""@))
        }),
{
    reveal_strlit("status");
    assert("status"@.len() == 6);
    reveal_strlit("kind");
    assert("kind"@.len() == 4);
    reveal_strlit("index");
    assert("index"@.len() == 5);
    reveal_strlit("selected_index");
    assert("selected_index"@.len() == 14);
    reveal_strlit("choice");
    assert("choice"@.len() == 6);
    reveal_strlit("question");
    assert("question"@.len() == 8);
    reveal_strlit("subtitle");
    assert("subtitle"@.len() == 8);
    reveal_strlit("footer_hint");
    assert("footer_hint"@.len() == 11);
    reveal_strlit("free_text");
    assert("free_text"@.len() == 9);
    assert("status"@[0] != "choice"@[0]);
    assert("question"@[0] != "subtitle"@[0]);
    reveal_strlit("");
}

/// There are three pictures to an option, and never more than 22.
pub proof fn law_number_of_frames(options: Seq<Seq<char>>)
    ensures
        options.len() <= 7 ==> ask_frames(options, true).len() == 3 * options.len(),
        options.len() > 7 ==> ask_frames(options, true).len() == 22,
{
}

} // verus!
