//! Automation of the screen: who may use it, what is sent to the system, and what is replied.
//! It is there on Windows only, and only while the user has armed it.
use crate::codec::{parse, pretty};
use crate::command::{clamped, Platform};
use crate::json::{
    empty_object, json_parse, json_pretty, lemma_list_view, lemma_with_nests, nests_within, object,
    text, views, Json, JsonView,
};
use crate::numbers::{decimal, write_decimal};
use crate::paths::{file_in, state_path, TOOLMIND_DIR};
use crate::reply::{error, error_view, law_error_fields, ok, ok_view, outcome_view};
use crate::split::{join, join_texts, law_join_holds};
use crate::text::{byte_len, bytes_in, cat, chars, holds, same, texts};
use crate::vision::block::{single_quoted, single_quotes};
use crate::vision::layout::within_32_bits;
use vstd::prelude::*;

verus! {

/// The file that says that automation is armed.
pub const GUI_SESSION_FILE: &'static str = "gui_session.json";

/// The directory with the pictures of the screen.
pub const GUI_SNAPSHOT_DIR: &'static str = "gui_snapshots";

/// The path of the file that says that automation is armed.
pub fn session_path() -> (r: String)
    ensures
        file_in(r@, TOOLMIND_DIR@, GUI_SESSION_FILE@),
{
    proof {
        reveal_strlit("gui_session.json");
        reveal_strlit(".");
        reveal_strlit("..");
        assert("gui_session.json"@.len() != "."@.len());
        assert("gui_session.json"@.len() != ".."@.len());
    }
    state_path(GUI_SESSION_FILE)
}

// ---------------------------------------------------------------------------
// Arming
// ---------------------------------------------------------------------------

/// The text of a file that may be missing.
pub open spec fn file_text(raw: Option<&str>) -> Option<Seq<char>> {
    match raw {
        Some(t) => Some(t@),
        None => None,
    }
}

/// The text of the session file says that automation is armed.
pub open spec fn armed(raw: Option<Seq<char>>) -> bool {
    match raw {
        Some(t) => match json_parse(t) {
            Ok(v) => v.at("armed"@).as_bool() == Some(true),
            Err(_) => false,
        },
        None => false,
    }
}

/// Tells whether automation is armed, by the text of the session file.
pub fn session_armed(raw: Option<&str>) -> (r: bool)
    ensures
        r == armed(file_text(raw)),
{
    match raw {
        Some(t) => match parse(t) {
            Ok(v) => v.bool_or("armed", false),
            Err(_) => false,
        },
        None => false,
    }
}

/// Why nothing is automated on this system or in this session.
pub open spec fn gate_view(platform: Platform, is_armed: bool) -> Option<Seq<char>> {
    if platform != Platform::Windows {
        Some("Automação GUI (rato/teclado/captura) só está implementada no Windows."@)
    } else if !is_armed {
        Some(
            "Sessão GUI não armada. Chame gui_automation_arm primeiro (aprovação única no terminal)."@,
        )
    } else {
        None
    }
}

/// The reply where automation is not there.
pub fn not_supported() -> (j: Json)
    ensures
        j@ == error_view(
            "Automação GUI (rato/teclado/captura) só está implementada no Windows."@,
        ),
{
    error("Automação GUI (rato/teclado/captura) só está implementada no Windows.")
}

/// Lets a call through on Windows while automation is armed.
pub fn require_armed(platform: Platform, raw: Option<&str>) -> (r: Result<(), Json>)
    ensures
        match (r, gate_view(platform, armed(file_text(raw)))) {
            (Ok(()), None) => true,
            (Err(e), Some(m)) => e@ == error_view(m),
            _ => false,
        },
{
    match platform {
        Platform::Windows => if session_armed(raw) {
            Ok(())
        } else {
            Err(
                error(
                    "Sessão GUI não armada. Chame gui_automation_arm primeiro (aprovação única no terminal).",
                ),
            )
        },
        _ => Err(not_supported()),
    }
}

/// The reply that makes a question to the user needless.
pub open spec fn arm_reply(platform: Platform, is_armed: bool) -> Option<JsonView> {
    if platform != Platform::Windows {
        Some(
            error_view(
                "Automação GUI (rato/teclado/captura) só está implementada no Windows."@,
            ),
        )
    } else if is_armed {
        Some(
            ok_view().with("already_armed"@, JsonView::Bool(true)).with(
                "note"@,
                JsonView::Text(
                    "Sessão GUI já estava armada; não é necessário aprovar de novo."@,
                ),
            ),
        )
    } else {
        None
    }
}

/// Decides whether the user is asked to arm automation; where not, there is a reply.
pub fn gui_automation_arm(platform: Platform, raw: Option<&str>) -> (r: Option<Json>)
    ensures
        match (r, arm_reply(platform, armed(file_text(raw)))) {
            (Some(j), Some(v)) => j@ == v,
            (None, None) => true,
            _ => false,
        },
{
    match platform {
        Platform::Windows => if session_armed(raw) {
            Some(
                ok().with("already_armed", Json::Bool(true)).with(
                    "note",
                    text("Sessão GUI já estava armada; não é necessário aprovar de novo."),
                ),
            )
        } else {
            None
        },
        _ => Some(not_supported()),
    }
}

/// The document that says that automation is armed.
pub open spec fn session_document(now_ms: u64) -> JsonView {
    empty_object().with("armed"@, JsonView::Bool(true)).with(
        "armed_at_ms"@,
        JsonView::Int(now_ms as int),
    )
}

proof fn lemma_session_keys()
    ensures
        "armed"@ != "armed_at_ms"@,
{
    reveal_strlit("armed");
    reveal_strlit("armed_at_ms");
    assert("armed"@.len() != "armed_at_ms"@.len());
}

/// Writes the document that says that automation is armed. Read again, it says so.
pub fn session_text(now_ms: u64) -> (r: String)
    ensures
        r@ == json_pretty(session_document(now_ms)),
        armed(Some(r@)),
{
    let doc = object().with("armed", Json::Bool(true)).with("armed_at_ms", Json::Uint(now_ms));
    proof {
        let v = empty_object();
        assert(nests_within(v, 127));
        lemma_with_nests(v, "armed"@, JsonView::Bool(true), 127);
        let v = v.with("armed"@, JsonView::Bool(true));
        lemma_with_nests(v, "armed_at_ms"@, JsonView::Int(now_ms as int), 127);
        lemma_session_keys();
    }
    pretty(&doc)
}

/// The reply to arming: what the user said, and how making the directory and writing the file went.
pub open spec fn arming_view(
    confirmed: bool,
    dir: Result<(), Seq<char>>,
    written: Result<(), Seq<char>>,
) -> JsonView {
    if !confirmed {
        error_view("Autorização recusada no terminal."@)
    } else {
        match dir {
            Err(e) => error_view(e),
            Ok(()) => match written {
                Err(e) => error_view(e),
                Ok(()) => ok_view().with("armed"@, JsonView::Bool(true)).with(
                    "note"@,
                    JsonView::Text(
                        "Sessão armada. Use gui_screen_snapshot, gui_mouse_move, gui_mouse_click, gui_type_text. Revogue com gui_automation_disarm ou `parar` no prompt."@,
                    ),
                ),
            },
        }
    }
}

/// Tells how arming went.
pub fn gui_armed(confirmed: bool, dir: &Result<(), String>, written: &Result<(), String>) -> (j:
    Json)
    ensures
        j@ == arming_view(confirmed, outcome_view(*dir), outcome_view(*written)),
{
    if !confirmed {
        return error("Autorização recusada no terminal.");
    }
    match dir {
        Err(e) => error(e.as_str()),
        Ok(()) => match written {
            Err(e) => error(e.as_str()),
            Ok(()) => ok().with("armed", Json::Bool(true)).with(
                "note",
                text(
                    "Sessão armada. Use gui_screen_snapshot, gui_mouse_move, gui_mouse_click, gui_type_text. Revogue com gui_automation_disarm ou `parar` no prompt.",
                ),
            ),
        },
    }
}

/// The reply to disarming by the user.
pub open spec fn user_disarm_view(platform: Platform) -> JsonView {
    if platform == Platform::Windows {
        ok_view().with("disarmed"@, JsonView::Bool(true)).with(
            "note"@,
            JsonView::Text("Sessão GUI revogada pelo administrador (prompt)."@),
        )
    } else {
        ok_view().with("disarmed"@, JsonView::Bool(false)).with(
            "note"@,
            JsonView::Text("Sem sessão GUI neste SO."@),
        )
    }
}

/// Tells the user that automation is disarmed. On Windows the session file goes.
pub fn user_command_disarm(platform: Platform) -> (j: Json)
    ensures
        j@ == user_disarm_view(platform),
{
    match platform {
        Platform::Windows => ok().with("disarmed", Json::Bool(true)).with(
            "note",
            text("Sessão GUI revogada pelo administrador (prompt)."),
        ),
        _ => ok().with("disarmed", Json::Bool(false)).with(
            "note",
            text("Sem sessão GUI neste SO."),
        ),
    }
}

/// The reply to disarming by the model.
pub open spec fn disarm_view(platform: Platform, was_armed: bool) -> JsonView {
    if platform == Platform::Windows {
        ok_view().with("disarmed"@, JsonView::Bool(true)).with(
            "was_armed"@,
            JsonView::Bool(was_armed),
        ).with(
            "note"@,
            JsonView::Text(
                "Sessão GUI revogada. Novas ações gui_* falham até gui_automation_arm."@,
            ),
        )
    } else {
        error_view("Automação GUI (rato/teclado/captura) só está implementada no Windows."@)
    }
}

/// Tells the model that automation is disarmed. On Windows the session file goes.
pub fn gui_automation_disarm(platform: Platform, raw: Option<&str>) -> (j: Json)
    ensures
        j@ == disarm_view(platform, armed(file_text(raw))),
{
    match platform {
        Platform::Windows => ok().with("disarmed", Json::Bool(true)).with(
            "was_armed",
            Json::Bool(session_armed(raw)),
        ).with(
            "note",
            text("Sessão GUI revogada. Novas ações gui_* falham até gui_automation_arm."),
        ),
        _ => not_supported(),
    }
}

/// The time at which automation was armed, where the session file has one.
pub open spec fn armed_at(raw: Option<Seq<char>>) -> JsonView {
    match raw {
        Some(t) => match json_parse(t) {
            Ok(v) => match v.uint_at("armed_at_ms"@) {
                Some(n) => JsonView::Int(n as int),
                None => JsonView::Null,
            },
            Err(_) => JsonView::Null,
        },
        None => JsonView::Null,
    }
}

fn read_armed_at(raw: Option<&str>) -> (j: Json)
    ensures
        j@ == armed_at(file_text(raw)),
{
    match raw {
        Some(t) => match parse(t) {
            Ok(v) => match v.uint_at("armed_at_ms") {
                Some(n) => Json::Uint(n),
                None => Json::Null,
            },
            Err(_) => Json::Null,
        },
        None => Json::Null,
    }
}

/// The reply on the session.
pub open spec fn status_view(platform: Platform, os: Seq<char>, raw: Option<Seq<char>>) -> JsonView {
    if platform == Platform::Windows {
        ok_view().with("armed"@, JsonView::Bool(armed(raw))).with(
            "armed_at_ms"@,
            armed_at(raw),
        ).with("platform"@, JsonView::Text("windows"@))
    } else {
        ok_view().with("armed"@, JsonView::Bool(false)).with("platform"@, JsonView::Text(os))
    }
}

/// Tells whether automation is armed, and since when.
pub fn gui_automation_status(platform: Platform, os: &str, raw: Option<&str>) -> (j: Json)
    ensures
        j@ == status_view(platform, os@, file_text(raw)),
{
    match platform {
        Platform::Windows => ok().with("armed", Json::Bool(session_armed(raw))).with(
            "armed_at_ms",
            read_armed_at(raw),
        ).with("platform", text("windows")),
        _ => ok().with("armed", Json::Bool(false)).with("platform", text(os)),
    }
}

// ---------------------------------------------------------------------------
// Pictures of the screen
// ---------------------------------------------------------------------------

/// A picture of the screen that was taken.
pub struct Snapshot {
    pub path: String,
    pub width: u32,
    pub height: u32,
    pub title: String,
    pub rect: Option<(i32, i32, i32, i32)>,
    pub corner: Rgb,
}

/// The name of the file with a picture.
pub fn snapshot_name(now_ms: u128) -> (r: String)
    ensures
        r@ == "snap_"@ + decimal(now_ms as nat) + ".png"@,
{
    cat(cat("snap_", write_decimal(now_ms).as_str()).as_str(), ".png")
}

/// A colour: red, green and blue.
#[derive(Clone, Copy, PartialEq, Eq, Structural, Debug)]
pub struct Rgb {
    pub red: u8,
    pub green: u8,
    pub blue: u8,
}

/// A colour in words.
pub open spec fn colour_view(c: Rgb) -> Seq<char> {
    "rgb("@ + decimal(c.red as nat) + ", "@ + decimal(c.green as nat) + ", "@ + decimal(
        c.blue as nat,
    ) + ")"@
}

impl Rgb {
    /// The colour in words.
    pub fn words(&self) -> (r: String)
        ensures
            r@ == colour_view(*self),
    {
        let mut s = "rgb(".to_owned();
        s.append(write_decimal(self.red as u128).as_str());
        s.append(", ");
        s.append(write_decimal(self.green as u128).as_str());
        s.append(", ");
        s.append(write_decimal(self.blue as u128).as_str());
        s.append(")");
        s
    }
}

/// What is said of a picture without reading the text in it: the window, the size, the colour in the
/// upper left corner, and the file.
pub open spec fn summary_view(
    w: u32,
    h: u32,
    title: Seq<char>,
    path: Seq<char>,
    corner: Rgb,
) -> Seq<char> {
    join(
        seq![
            "Janela em foco: \""@ + single_quoted(title) + "\""@,
            "Resolução da captura: "@ + decimal(w as nat) + "×"@ + decimal(h as nat),
            "Cor no canto superior esquerdo: "@ + colour_view(corner),
            "Ficheiro PNG: "@ + path,
            "Conteúdo visual detalhado não é inferido pelo host (sem OCR). Use o ficheiro ou um cliente com visão."@,
        ],
        "\n"@,
    )
}

/// Says of a picture what can be said without reading the text in it.
pub fn screen_text_summary(w: u32, h: u32, title: &str, path: &str, corner: Rgb) -> (r: String)
    ensures
        r@ == summary_view(w, h, title@, path@, corner),
{
    let mut parts: Vec<String> = Vec::new();
    parts.push(
        cat(cat("Janela em foco: \"", single_quotes(title).as_str()).as_str(), "\""),
    );
    let size = cat("Resolução da captura: ", write_decimal(w as u128).as_str());
    parts.push(cat(cat(size.as_str(), "×").as_str(), write_decimal(h as u128).as_str()));
    parts.push(cat("Cor no canto superior esquerdo: ", corner.words().as_str()));
    parts.push(cat("Ficheiro PNG: ", path));
    parts.push(
        "Conteúdo visual detalhado não é inferido pelo host (sem OCR). Use o ficheiro ou um cliente com visão.".to_owned(),
    );
    assert(texts(parts@) =~= seq![
        "Janela em foco: \""@ + single_quoted(title@) + "\""@,
        "Resolução da captura: "@ + decimal(w as nat) + "×"@ + decimal(h as nat),
        "Cor no canto superior esquerdo: "@ + colour_view(corner),
        "Ficheiro PNG: "@ + path@,
        "Conteúdo visual detalhado não é inferido pelo host (sem OCR). Use o ficheiro ou um cliente com visão."@,
    ]);
    join_texts(&parts, "\n")
}

/// A rectangle as a JSON value: left, top, right and bottom.
pub open spec fn rect_json(rect: Option<(i32, i32, i32, i32)>) -> JsonView {
    match rect {
        Some((l, t, r, b)) => JsonView::List(
            seq![
                JsonView::Int(l as int),
                JsonView::Int(t as int),
                JsonView::Int(r as int),
                JsonView::Int(b as int),
            ],
        ),
        None => JsonView::Null,
    }
}

fn write_rect(rect: Option<(i32, i32, i32, i32)>) -> (j: Json)
    ensures
        j@ == rect_json(rect),
{
    broadcast use lemma_list_view;

    match rect {
        Some((l, t, r, b)) => {
            let mut items: Vec<Json> = Vec::new();
            items.push(Json::Sint(l as i64));
            items.push(Json::Sint(t as i64));
            items.push(Json::Sint(r as i64));
            items.push(Json::Sint(b as i64));
            assert(views(items@) =~= rect_json(rect)->List_0);
            Json::List(items)
        },
        None => Json::Null,
    }
}

/// The reply with a picture.
pub open spec fn snapshot_view(s: Snapshot) -> JsonView {
    ok_view().with("image_path"@, JsonView::Text(s.path@)).with(
        "width"@,
        JsonView::Int(s.width as int),
    ).with("height"@, JsonView::Int(s.height as int)).with(
        "foreground_title"@,
        JsonView::Text(s.title@),
    ).with("foreground_rect"@, rect_json(s.rect)).with(
        "textual_summary"@,
        JsonView::Text(summary_view(s.width, s.height, s.title@, s.path@, s.corner)),
    )
}

/// The reply to taking a picture.
pub open spec fn snapshot_taken_view(taken: Result<Snapshot, String>) -> JsonView {
    match taken {
        Ok(s) => snapshot_view(s),
        Err(e) => error_view(e@),
    }
}

/// Tells how taking a picture went.
pub fn gui_screen_snapshot(taken: &Result<Snapshot, String>) -> (j: Json)
    ensures
        j@ == snapshot_taken_view(*taken),
{
    match taken {
        Ok(s) => {
            let summary = screen_text_summary(
                s.width,
                s.height,
                s.title.as_str(),
                s.path.as_str(),
                s.corner,
            );
            ok().with("image_path", text(s.path.as_str())).with(
                "width",
                Json::Uint(s.width as u64),
            ).with("height", Json::Uint(s.height as u64)).with(
                "foreground_title",
                text(s.title.as_str()),
            ).with("foreground_rect", write_rect(s.rect)).with(
                "textual_summary",
                text(summary.as_str()),
            )
        },
        Err(e) => error(e.as_str()),
    }
}

// ---------------------------------------------------------------------------
// The mouse
// ---------------------------------------------------------------------------

/// Where the screens lie: left, top, width and height of the box around them.
#[derive(Clone, Copy)]
pub struct ScreenBounds {
    pub x: i32,
    pub y: i32,
    pub width: i32,
    pub height: i32,
}

/// The last position in a direction, from the first one and the extent.
pub open spec fn last_position(first: i32, extent: i32) -> int {
    within_32_bits(first + within_32_bits(extent - 1))
}

/// There is a screen.
pub open spec fn on_screen(b: ScreenBounds) -> bool {
    b.x <= last_position(b.x, b.width) && b.y <= last_position(b.y, b.height)
}

/// A position moved onto the screens.
pub open spec fn clamped_pos(x: int, y: int, b: ScreenBounds) -> (int, int) {
    (
        clamped(x, b.x as int, last_position(b.x, b.width)),
        clamped(y, b.y as int, last_position(b.y, b.height)),
    )
}

fn last_pixel(first: i32, extent: i32) -> (r: i32)
    ensures
        r == last_position(first, extent),
{
    let n: i64 = if extent == i32::MIN {
        extent as i64
    } else {
        extent as i64 - 1
    };
    let last: i64 = first as i64 + n;
    if last < -0x8000_0000 {
        -0x8000_0000
    } else if last > 0x7fff_ffff {
        0x7fff_ffff
    } else {
        last as i32
    }
}

/// Tells whether there is a screen.
pub fn has_screen(b: ScreenBounds) -> (r: bool)
    ensures
        r == on_screen(b),
{
    b.x <= last_pixel(b.x, b.width) && b.y <= last_pixel(b.y, b.height)
}

/// Moves a position onto the screens.
pub fn clamp_pos(x: i32, y: i32, b: ScreenBounds) -> (r: (i32, i32))
    requires
        on_screen(b),
    ensures
        (r.0 as int, r.1 as int) == clamped_pos(x as int, y as int, b),
{
    let max_x: i32 = last_pixel(b.x, b.width);
    let max_y: i32 = last_pixel(b.y, b.height);
    let x: i32 = if x < b.x {
        b.x
    } else if x > max_x {
        max_x
    } else {
        x
    };
    let y: i32 = if y < b.y {
        b.y
    } else if y > max_y {
        max_y
    } else {
        y
    };
    (x, y)
}

/// Wherever the pointer is sent, it stays on the screens; where it already is on them, it goes there.
pub proof fn law_pointer_stays_on_screen(x: int, y: int, b: ScreenBounds)
    requires
        on_screen(b),
    ensures
        b.x <= clamped_pos(x, y, b).0 <= last_position(b.x, b.width),
        b.y <= clamped_pos(x, y, b).1 <= last_position(b.y, b.height),
        b.x <= x <= last_position(b.x, b.width) && b.y <= y <= last_position(b.y, b.height)
            ==> clamped_pos(x, y, b) == (x, y),
{
}

/// A position that a call asks for.
#[derive(Clone, Copy, PartialEq, Eq, Structural)]
pub struct Position {
    pub x: i64,
    pub y: i64,
}

/// The position that a call asks for, or why there is none.
pub open spec fn move_view(platform: Platform, is_armed: bool, input: JsonView) -> Result<
    Position,
    Seq<char>,
> {
    match gate_view(platform, is_armed) {
        Some(m) => Err(m),
        None => match (input.at("x"@).as_sint(), input.at("y"@).as_sint()) {
            (None, _) => Err("x obrigatório (inteiro, coordenada de ecrã)"@),
            (Some(_), None) => Err("y obrigatório (inteiro, coordenada de ecrã)"@),
            (Some(x), Some(y)) => Ok(Position { x, y }),
        },
    }
}

fn sint_at(input: &Json, key: &str) -> (r: Option<i64>)
    ensures
        r == input@.at(key@).as_sint(),
{
    match input.get(key) {
        Some(j) => j.as_sint(),
        None => None,
    }
}

/// Decides where the pointer is sent.
pub fn gui_mouse_move(platform: Platform, raw: Option<&str>, input: &Json) -> (r: Result<
    Position,
    Json,
>)
    ensures
        match (r, move_view(platform, armed(file_text(raw)), input@)) {
            (Ok(p), Ok(v)) => p == v,
            (Err(e), Err(m)) => e@ == error_view(m),
            _ => false,
        },
{
    match require_armed(platform, raw) {
        Err(e) => Err(e),
        Ok(()) => match (sint_at(input, "x"), sint_at(input, "y")) {
            (None, _) => Err(error("x obrigatório (inteiro, coordenada de ecrã)")),
            (Some(_), None) => Err(error("y obrigatório (inteiro, coordenada de ecrã)")),
            (Some(x), Some(y)) => Ok(Position { x, y }),
        },
    }
}

/// The pixel to which the pointer goes: the low 32 bits of each number, moved onto the screens.
pub fn do_mouse_move(p: Position, b: ScreenBounds) -> (r: (i32, i32))
    requires
        on_screen(b),
    ensures
        (r.0 as int, r.1 as int) == clamped_pos((p.x as i32) as int, (p.y as i32) as int, b),
{
    let x: i32 = #[verifier::truncate]
    (p.x as i32);
    let y: i32 = #[verifier::truncate]
    (p.y as i32);
    clamp_pos(x, y, b)
}

/// The reply to sending the pointer somewhere.
pub open spec fn moved_view(p: Position, outcome: Result<(), Seq<char>>) -> JsonView {
    match outcome {
        Ok(()) => ok_view().with("x"@, JsonView::Int(p.x as int)).with(
            "y"@,
            JsonView::Int(p.y as int),
        ).with(
            "note"@,
            JsonView::Text("Cursor movido (coordenadas absolutas no virtual desktop)."@),
        ),
        Err(e) => error_view(e),
    }
}

/// Tells how sending the pointer somewhere went.
pub fn gui_mouse_moved(p: Position, outcome: &Result<(), String>) -> (j: Json)
    ensures
        j@ == moved_view(p, outcome_view(*outcome)),
{
    match outcome {
        Ok(()) => ok().with("x", Json::Sint(p.x)).with("y", Json::Sint(p.y)).with(
            "note",
            text("Cursor movido (coordenadas absolutas no virtual desktop)."),
        ),
        Err(e) => error(e.as_str()),
    }
}

/// A button of the mouse.
#[derive(Clone, Copy, PartialEq, Eq, Structural, Debug)]
pub enum Button {
    Left,
    Right,
    Middle,
}

/// The name of a button.
pub open spec fn button_name(b: Button) -> Seq<char> {
    match b {
        Button::Left => "left"@,
        Button::Right => "right"@,
        Button::Middle => "middle"@,
    }
}

/// The button with a name.
pub open spec fn button_named(name: Seq<char>) -> Option<Button> {
    if name == "right"@ {
        Some(Button::Right)
    } else if name == "middle"@ {
        Some(Button::Middle)
    } else if name == "left"@ {
        Some(Button::Left)
    } else {
        None
    }
}

impl Button {
    /// The name of a button.
    pub fn name(&self) -> (r: &'static str)
        ensures
            r@ == button_name(*self),
    {
        match self {
            Button::Left => "left",
            Button::Right => "right",
            Button::Middle => "middle",
        }
    }
}

/// A click that a call asks for.
#[derive(Clone, Copy, PartialEq, Eq, Structural)]
pub struct Click {
    pub button: Button,
    pub double: bool,
}

/// The click that a call asks for, or why there is none.
pub open spec fn click_view(platform: Platform, is_armed: bool, input: JsonView) -> Result<
    Click,
    Seq<char>,
> {
    match gate_view(platform, is_armed) {
        Some(m) => Err(m),
        None => match button_named(input.text_or("button"@, "left"@)) {
            Some(button) => Ok(Click { button, double: input.bool_or("double"@, false) }),
            None => Err("button deve ser left, right ou middle"@),
        },
    }
}

/// Decides what is clicked.
pub fn gui_mouse_click(platform: Platform, raw: Option<&str>, input: &Json) -> (r: Result<
    Click,
    Json,
>)
    ensures
        match (r, click_view(platform, armed(file_text(raw)), input@)) {
            (Ok(c), Ok(v)) => c == v,
            (Err(e), Err(m)) => e@ == error_view(m),
            _ => false,
        },
{
    match require_armed(platform, raw) {
        Err(e) => Err(e),
        Ok(()) => {
            let name = input.text_or("button", "left");
            let button = if same(name, "right") {
                Button::Right
            } else if same(name, "middle") {
                Button::Middle
            } else if same(name, "left") {
                Button::Left
            } else {
                return Err(error("button deve ser left, right ou middle"));
            };
            Ok(Click { button, double: input.bool_or("double", false) })
        },
    }
}

/// What is sent to the system for a click.
#[derive(Clone, Copy, PartialEq, Eq, Structural, Debug)]
pub enum MouseStep {
    Down(Button),
    Up(Button),
    PauseMs(u64),
}

/// What is sent to the system for a click: the button goes down and up and, for a double click,
/// after 45 milliseconds once more.
pub open spec fn click_steps(c: Click) -> Seq<MouseStep> {
    let once = seq![MouseStep::Down(c.button), MouseStep::Up(c.button)];
    if c.double {
        once + seq![MouseStep::PauseMs(45)] + once
    } else {
        once
    }
}

/// Lists what is sent to the system for a click.
pub fn do_mouse_click(c: Click) -> (r: Vec<MouseStep>)
    ensures
        r@ == click_steps(c),
{
    let mut steps: Vec<MouseStep> = Vec::new();
    steps.push(MouseStep::Down(c.button));
    steps.push(MouseStep::Up(c.button));
    if c.double {
        steps.push(MouseStep::PauseMs(45));
        steps.push(MouseStep::Down(c.button));
        steps.push(MouseStep::Up(c.button));
    }
    assert(steps@ =~= click_steps(c));
    steps
}

/// The reply to a click.
pub open spec fn clicked_view(c: Click, outcome: Result<(), Seq<char>>) -> JsonView {
    match outcome {
        Ok(()) => ok_view().with("button"@, JsonView::Text(button_name(c.button))).with(
            "double"@,
            JsonView::Bool(c.double),
        ),
        Err(e) => error_view(e),
    }
}

/// Tells how a click went.
pub fn gui_mouse_clicked(c: Click, outcome: &Result<(), String>) -> (j: Json)
    ensures
        j@ == clicked_view(c, outcome_view(*outcome)),
{
    match outcome {
        Ok(()) => ok().with("button", text(c.button.name())).with("double", Json::Bool(c.double)),
        Err(e) => error(e.as_str()),
    }
}

/// What is said where the system took only some of what was sent to it.
pub open spec fn incomplete_view(sent: nat, wanted: nat) -> Seq<char> {
    "SendInput incompleto: "@ + decimal(sent) + "/"@ + decimal(wanted)
}

/// Tells whether the system took all that was sent to it.
pub fn send_inputs(sent: u32, wanted: usize) -> (r: Result<(), String>)
    ensures
        match r {
            Ok(()) => sent == wanted,
            Err(m) => sent != wanted && m@ == incomplete_view(sent as nat, wanted as nat),
        },
{
    if sent as u64 == wanted as u64 {
        return Ok(());
    }
    let m = cat("SendInput incompleto: ", write_decimal(sent as u128).as_str());
    Err(cat(cat(m.as_str(), "/").as_str(), write_decimal(wanted as u128).as_str()))
}

// ---------------------------------------------------------------------------
// The keyboard
// ---------------------------------------------------------------------------

/// The UTF-16 code units of a character: one, or a pair of surrogates.
pub open spec fn units_of(c: char) -> Seq<u16> {
    let n = c as u32;
    if n < 0x1_0000 {
        seq![n as u16]
    } else {
        seq![
            (0xD800 + (n - 0x1_0000) / 0x400) as u16,
            (0xDC00 + (n - 0x1_0000) % 0x400) as u16,
        ]
    }
}

/// The UTF-16 code units of a text.
pub open spec fn utf16(s: Seq<char>) -> Seq<u16>
    decreases s.len(),
{
    if s.len() == 0 {
        seq![]
    } else {
        utf16(s.drop_last()) + units_of(s.last())
    }
}

/// The text that is typed, or why nothing is.
pub open spec fn type_view(platform: Platform, is_armed: bool, input: JsonView) -> Result<
    Seq<char>,
    Seq<char>,
> {
    match gate_view(platform, is_armed) {
        Some(m) => Err(m),
        None => match input.text_at("text"@) {
            None => Err("text obrigatório (UTF-8)"@),
            Some(t) => if t.len() == 0 {
                Err("text vazio"@)
            } else if byte_len(t) > 8000 {
                Err("text demasiado longo (máx. 8000 bytes UTF-8)"@)
            } else {
                Ok(t)
            },
        },
    }
}

/// Decides what is typed.
pub fn gui_type_text(platform: Platform, raw: Option<&str>, input: &Json) -> (r: Result<
    String,
    Json,
>)
    ensures
        match (r, type_view(platform, armed(file_text(raw)), input@)) {
            (Ok(t), Ok(v)) => t@ == v,
            (Err(e), Err(m)) => e@ == error_view(m),
            _ => false,
        },
{
    match require_armed(platform, raw) {
        Err(e) => Err(e),
        Ok(()) => match input.text_at("text") {
            None => Err(error("text obrigatório (UTF-8)")),
            Some(t) => if t.is_empty() {
                Err(error("text vazio"))
            } else if bytes_in(t) > 8000 {
                Err(error("text demasiado longo (máx. 8000 bytes UTF-8)"))
            } else {
                Ok(t.to_owned())
            },
        },
    }
}

/// Lists the keys that type a text: each UTF-16 code unit goes down and up in turn.
pub fn do_type_text(t: &str) -> (r: Vec<u16>)
    ensures
        r@ == utf16(t@),
{
    let cs = chars(t);
    let mut out: Vec<u16> = Vec::new();
    assert(out@ =~= seq![]);
    for i in 0..cs.len()
        invariant
            out@ =~= utf16(cs@.take(i as int)),
    {
        assert(cs@.take(i + 1).drop_last() =~= cs@.take(i as int));
        let ghost before = out@;
        let c: char = cs[i];
        let n: u32 = c as u32;
        if n < 0x1_0000 {
            out.push(n as u16);
        } else {
            out.push((0xD800 + (n - 0x1_0000) / 0x400) as u16);
            out.push((0xDC00 + (n - 0x1_0000) % 0x400) as u16);
        }
        assert(out@ =~= before + units_of(c));
    }
    assert(cs@.take(cs@.len() as int) =~= cs@);
    out
}

/// The reply to typing a text.
pub open spec fn typed_view(t: Seq<char>, outcome: Result<(), Seq<char>>) -> JsonView {
    match outcome {
        Ok(()) => ok_view().with("chars_utf16"@, JsonView::Int(utf16(t).len() as int)).with(
            "note"@,
            JsonView::Text("Texto enviado como Unicode para a janela em foco."@),
        ),
        Err(e) => error_view(e),
    }
}

/// Tells how typing a text went.
pub fn gui_typed(t: &str, outcome: &Result<(), String>) -> (j: Json)
    ensures
        j@ == typed_view(t@, outcome_view(*outcome)),
{
    match outcome {
        Ok(()) => ok().with("chars_utf16", Json::Uint(do_type_text(t).len() as u64)).with(
            "note",
            text("Texto enviado como Unicode para a janela em foco."),
        ),
        Err(e) => error(e.as_str()),
    }
}

// ---------------------------------------------------------------------------
// Laws
// ---------------------------------------------------------------------------

/// Nothing is moved, clicked or typed unless this is Windows and the session file says that
/// automation is armed.
pub proof fn law_nothing_unarmed(platform: Platform, is_armed: bool, input: JsonView)
    requires
        platform != Platform::Windows || !is_armed,
    ensures
        gate_view(platform, is_armed) is Some,
        move_view(platform, is_armed, input) is Err,
        click_view(platform, is_armed, input) is Err,
        type_view(platform, is_armed, input) is Err,
{
}

/// Without a session file, which disarming takes away, automation is not armed.
pub proof fn law_disarmed_without_file()
    ensures
        !armed(None),
{
}

/// Each character is typed as one or two code units.
pub proof fn law_units_of_text(s: Seq<char>)
    ensures
        s.len() <= utf16(s).len() <= 2 * s.len(),
    decreases s.len(),
{
    if s.len() > 0 {
        law_units_of_text(s.drop_last());
    }
}

/// Automation is armed just where the session file can be read and says so.
pub proof fn law_armed(raw: Seq<char>)
    ensures
        armed(Some(raw)) <==> (json_parse(raw) matches Ok(v) && v.get("armed"@) == Some(
            JsonView::Bool(true),
        )),
{
}

/// The session file says that automation is armed, and since when.
pub proof fn law_session_fields(now_ms: u64)
    ensures
        session_document(now_ms).get("armed"@) == Some(JsonView::Bool(true)),
        session_document(now_ms).get("armed_at_ms"@) == Some(JsonView::Int(now_ms as int)),
{
    lemma_session_keys();
}

/// Arming succeeds just where the user agrees and the file could be written.
pub proof fn law_arming(
    confirmed: bool,
    dir: Result<(), Seq<char>>,
    written: Result<(), Seq<char>>,
)
    ensures
        arming_view(confirmed, dir, written).get("status"@) == Some(JsonView::Text("ok"@)) <==> (
        confirmed && dir is Ok && written is Ok),
        confirmed && dir is Ok && written is Ok ==> arming_view(confirmed, dir, written).get(
            "armed"@,
        ) == Some(JsonView::Bool(true)),
        arm_reply(Platform::Windows, false) is None,
        arm_reply(Platform::Windows, true) matches Some(r) && r.get("already_armed"@) == Some(
            JsonView::Bool(true),
        ),
{
    reveal_strlit("status");
    assert("status"@.len() == 6);
    reveal_strlit("armed");
    assert("armed"@.len() == 5);
    reveal_strlit("note");
    assert("note"@.len() == 4);
    reveal_strlit("error");
    assert("error"@.len() == 5);
    reveal_strlit("already_armed");
    assert("already_armed"@.len() == 13);
    assert("armed"@[0] != "error"@[0]);
    reveal_strlit("ok");
}

/// The reply on the session says whether automation is armed, and on Windows since when.
pub proof fn law_status_fields(os: Seq<char>, raw: Seq<char>, v: JsonView, platform: Platform)
    requires
        json_parse(raw) == Ok::<JsonView, Seq<char>>(v),
    ensures
        ({
            let r = status_view(Platform::Windows, os, Some(raw));
            &&& r.get("armed"@) == Some(JsonView::Bool(v.get("armed"@) == Some(JsonView::Bool(true))))
            &&& v.get("armed_at_ms"@) matches Some(JsonView::Int(n)) ==> (0 <= n <= u64::MAX
                ==> r.get("armed_at_ms"@) == Some(JsonView::Int(n)))
        }),
        platform != Platform::Windows ==> status_view(platform, os, Some(raw)).get("armed"@) == Some(
            JsonView::Bool(false),
        ) && status_view(platform, os, Some(raw)).get("platform"@) == Some(JsonView::Text(os)),
        disarm_view(Platform::Windows, true).get("was_armed"@) == Some(JsonView::Bool(true)),
        disarm_view(Platform::Windows, false).get("was_armed"@) == Some(JsonView::Bool(false)),
{
    reveal_strlit("status");
    assert("status"@.len() == 6);
    reveal_strlit("armed");
    assert("armed"@.len() == 5);
    reveal_strlit("armed_at_ms");
    assert("armed_at_ms"@.len() == 11);
    reveal_strlit("platform");
    assert("platform"@.len() == 8);
    reveal_strlit("disarmed");
    assert("disarmed"@.len() == 8);
    reveal_strlit("was_armed");
    assert("was_armed"@.len() == 9);
    reveal_strlit("note");
    assert("note"@.len() == 4);
    assert("platform"@[0] != "disarmed"@[0]);
}

/// The reply with a picture holds its path, its size, the window in front and the summary.
pub proof fn law_snapshot_fields(s: Snapshot)
    ensures
        ({
            let r = snapshot_view(s);
            &&& r.get("status"@) == Some(JsonView::Text("ok"@))
            &&& r.get("image_path"@) == Some(JsonView::Text(s.path@))
            &&& r.get("width"@) == Some(JsonView::Int(s.width as int))
            &&& r.get("height"@) == Some(JsonView::Int(s.height as int))
            &&& r.get("foreground_title"@) == Some(JsonView::Text(s.title@))
            &&& s.rect matches Some((a, b, c, d)) ==> r.get("foreground_rect"@) == Some(
                JsonView::List(
                    seq![
                        JsonView::Int(a as int),
                        JsonView::Int(b as int),
                        JsonView::Int(c as int),
                        JsonView::Int(d as int),
                    ],
                ),
            )
            &&& s.rect is None ==> r.get("foreground_rect"@) == Some(JsonView::Null)
            &&& r.get("textual_summary"@) == Some(
                JsonView::Text(summary_view(s.width, s.height, s.title@, s.path@, s.corner)),
            )
        }),
{
    reveal_strlit("status");
    assert("status"@.len() == 6);
    reveal_strlit("image_path");
    assert("image_path"@.len() == 10);
    reveal_strlit("width");
    assert("width"@.len() == 5);
    reveal_strlit("height");
    assert("height"@.len() == 6);
    reveal_strlit("foreground_title");
    assert("foreground_title"@.len() == 16);
    reveal_strlit("foreground_rect");
    assert("foreground_rect"@.len() == 15);
    reveal_strlit("textual_summary");
    assert("textual_summary"@.len() == 15);
    assert("status"@[0] != "height"@[0]);
    assert("foreground_rect"@[0] != "textual_summary"@[0]);
}

/// The summary of a picture holds the title of the window, the size, the colour in the corner and the
/// path.
pub proof fn law_summary_holds(w: u32, h: u32, title: Seq<char>, path: Seq<char>, corner: Rgb)
    ensures
        ({
            let s = summary_view(w, h, title, path, corner);
            &&& holds(s, "Janela em foco: \""@ + single_quoted(title) + "\""@)
            &&& holds(
                s,
                "Resolução da captura: "@ + decimal(w as nat) + "×"@ + decimal(h as nat),
            )
            &&& holds(
                s,
                "Cor no canto superior esquerdo: "@ + ("rgb("@ + decimal(corner.red as nat) + ", "@
                    + decimal(corner.green as nat) + ", "@ + decimal(corner.blue as nat) + ")"@),
            )
            &&& holds(s, "Ficheiro PNG: "@ + path)
        }),
{
    let list = seq![
        "Janela em foco: \""@ + single_quoted(title) + "\""@,
        "Resolução da captura: "@ + decimal(w as nat) + "×"@ + decimal(h as nat),
        "Cor no canto superior esquerdo: "@ + colour_view(corner),
        "Ficheiro PNG: "@ + path,
        "Conteúdo visual detalhado não é inferido pelo host (sem OCR). Use o ficheiro ou um cliente com visão."@,
    ];
    law_join_holds(list, "\n"@, 0);
    law_join_holds(list, "\n"@, 1);
    law_join_holds(list, "\n"@, 2);
    law_join_holds(list, "\n"@, 3);
}

/// The pointer is sent to the place that the call names, the button of the call is clicked as often as
/// it says, and its text is typed.
pub proof fn law_requests(input: JsonView)
    ensures
        move_view(Platform::Windows, true, input) matches Ok(p) ==> input.get("x"@) == Some(
            JsonView::Int(p.x as int),
        ) && input.get("y"@) == Some(JsonView::Int(p.y as int)),
        click_view(Platform::Windows, true, input) matches Ok(c) ==> {
            &&& input.get("button"@) matches Some(JsonView::Text(b)) ==> button_name(c.button) == b
            &&& input.get("button"@) is None ==> c.button == Button::Left
            &&& c.double <==> input.get("double"@) == Some(JsonView::Bool(true))
        },
        type_view(Platform::Windows, true, input) matches Ok(t) ==> input.get("text"@) == Some(
            JsonView::Text(t),
        ) && 0 < t.len() && vstd::utf8::encode_utf8(t).len() <= 8000,
        input.get("text"@) matches Some(JsonView::Text(t)) ==> (t.len() > 0
            && vstd::utf8::encode_utf8(t).len() <= 8000 ==> type_view(
            Platform::Windows,
            true,
            input,
        ) is Ok),
{
    reveal_strlit("left");
    assert("left"@.len() == 4);
    reveal_strlit("right");
    assert("right"@.len() == 5);
    reveal_strlit("middle");
    assert("middle"@.len() == 6);
}

/// Each button is found under its own name.
pub proof fn law_button_names(b: Button)
    ensures
        button_named(button_name(b)) == Some(b),
        button_name(Button::Left) == "left"@,
        button_name(Button::Right) == "right"@,
        button_name(Button::Middle) == "middle"@,
{
    reveal_strlit("left");
    assert("left"@.len() == 4);
    reveal_strlit("right");
    assert("right"@.len() == 5);
    reveal_strlit("middle");
    assert("middle"@.len() == 6);
}

/// A click presses and releases its own button once, and a double click twice with a pause between.
pub proof fn law_click_steps(c: Click)
    ensures
        click_steps(c)[0] == MouseStep::Down(c.button),
        click_steps(c)[1] == MouseStep::Up(c.button),
        !c.double ==> click_steps(c).len() == 2,
        c.double ==> click_steps(c).len() == 5 && click_steps(c)[2] is PauseMs && click_steps(c)[3]
            == MouseStep::Down(c.button) && click_steps(c)[4] == MouseStep::Up(c.button),
{
}

/// The replies to moving, clicking and typing say what was done, or why it failed.
pub proof fn law_action_replies(p: Position, c: Click, t: Seq<char>, message: Seq<char>)
    ensures
        moved_view(p, Ok(())).get("x"@) == Some(JsonView::Int(p.x as int)),
        moved_view(p, Ok(())).get("y"@) == Some(JsonView::Int(p.y as int)),
        moved_view(p, Err(message)) == error_view(message),
        clicked_view(c, Ok(())).get("button"@) == Some(JsonView::Text(button_name(c.button))),
        clicked_view(c, Ok(())).get("double"@) == Some(JsonView::Bool(c.double)),
        clicked_view(c, Err(message)) == error_view(message),
        typed_view(t, Ok(())).get("chars_utf16"@) == Some(JsonView::Int(utf16(t).len() as int)),
        typed_view(t, Err(message)) == error_view(message),
{
    reveal_strlit("status");
    assert("status"@.len() == 6);
    reveal_strlit("x");
    assert("x"@.len() == 1);
    reveal_strlit("y");
    assert("y"@.len() == 1);
    reveal_strlit("note");
    assert("note"@.len() == 4);
    reveal_strlit("button");
    assert("button"@.len() == 6);
    reveal_strlit("double");
    assert("double"@.len() == 6);
    reveal_strlit("chars_utf16");
    assert("chars_utf16"@.len() == 11);
    assert("status"@[0] != "button"@[0]);
    assert("status"@[0] != "double"@[0]);
    assert("x"@[0] != "y"@[0]);
    assert("button"@[0] != "double"@[0]);
}

/// The code units of a text are those of its characters, one behind the other: a character below
/// 0x10000 is its own unit, and any other a pair of surrogates that stands for it.
pub proof fn law_units_decode(s: Seq<char>, c: char)
    ensures
        utf16(s.push(c)) == utf16(s) + units_of(c),
        (c as u32) < 0x1_0000 ==> units_of(c).len() == 1 && units_of(c)[0] as u32 == c as u32,
        (c as u32) >= 0x1_0000 ==> {
            let u = units_of(c);
            &&& u.len() == 2
            &&& 0xD800 <= u[0] <= 0xDBFF
            &&& 0xDC00 <= u[1] <= 0xDFFF
            &&& 0x1_0000 + (u[0] - 0xD800) * 0x400 + (u[1] - 0xDC00) == c as u32
        },
{
    assert(s.push(c).drop_last() =~= s);
    let n = c as u32;
    if n >= 0x1_0000 {
        assert(n <= 0x10_FFFF);
        let m = n - 0x1_0000;
        assert(0 <= m / 0x400 <= 0x3ff);
        assert(0 <= m % 0x400 < 0x400);
        assert(m == (m / 0x400) * 0x400 + m % 0x400);
    }
}

/// Each part of a colour stands in its own place.
pub proof fn law_colour(red: u8, green: u8, blue: u8)
    ensures
        colour_view(Rgb { red, green, blue }) == "rgb("@ + (decimal(red as nat) + ", "@ + (decimal(
            green as nat,
        ) + ", "@ + (decimal(blue as nat) + ")"@))),
{
}

/// A session is there to be revoked on Windows alone.
pub proof fn law_user_disarms(platform: Platform)
    ensures
        user_disarm_view(platform).get("status"@) == Some(JsonView::Text("ok"@)),
        user_disarm_view(platform).get("disarmed"@) == Some(
            JsonView::Bool(platform == Platform::Windows),
        ),
{
    reveal_strlit("status");
    assert("status"@.len() == 6);
    reveal_strlit("disarmed");
    assert("disarmed"@.len() == 8);
    reveal_strlit("note");
    assert("note"@.len() == 4);
}

/// What was sent is named before what was wanted.
pub proof fn law_incomplete(sent: nat, wanted: nat)
    ensures
        incomplete_view(sent, wanted) == "SendInput incompleto: "@ + (decimal(sent) + "/"@ + decimal(
            wanted,
        )),
{
}

/// A picture that was not taken is answered with the error.
pub proof fn law_no_snapshot(e: String, s: Snapshot)
    ensures
        snapshot_taken_view(Err(e)).get("status"@) == Some(JsonView::Text("error"@)),
        snapshot_taken_view(Err(e)).get("error"@) == Some(JsonView::Text(e@)),
        snapshot_taken_view(Ok(s)).get("image_path"@) == Some(JsonView::Text(s.path@)),
{
    law_error_fields(e@);
    law_snapshot_fields(s);
}

/// A pointer that is sent beyond an edge of the screens stops at that edge.
pub proof fn law_pointer_stops_at_the_edge(x: int, y: int, b: ScreenBounds)
    requires
        0 < b.width,
        0 < b.height,
        b.x + b.width - 1 <= i32::MAX,
        b.y + b.height - 1 <= i32::MAX,
    ensures
        on_screen(b),
        clamped_pos(x, y, b).0 == if x < b.x {
            b.x as int
        } else if x > b.x + b.width - 1 {
            b.x + b.width - 1
        } else {
            x
        },
        clamped_pos(x, y, b).1 == if y < b.y {
            b.y as int
        } else if y > b.y + b.height - 1 {
            b.y + b.height - 1
        } else {
            y
        },
{
}

/// An armed session on Windows moves the pointer wherever the call names both places, and clicks with
/// any of the three buttons; what a call lacks is told.
pub proof fn law_requests_are_owed(input: JsonView, x: int, y: int, button: Button)
    requires
        i64::MIN <= x <= i64::MAX,
        i64::MIN <= y <= i64::MAX,
    ensures
        input.get("x"@) == Some(JsonView::Int(x)) && input.get("y"@) == Some(JsonView::Int(y))
            ==> move_view(Platform::Windows, true, input) == Ok::<Position, Seq<char>>(
            Position { x: x as i64, y: y as i64 },
        ),
        input.get("x"@) is None ==> move_view(Platform::Windows, true, input) == Err::<
            Position,
            Seq<char>,
        >("x obrigatório (inteiro, coordenada de ecrã)"@),
        input.get("x"@) == Some(JsonView::Int(x)) && input.get("y"@) is None ==> move_view(
            Platform::Windows,
            true,
            input,
        ) == Err::<Position, Seq<char>>("y obrigatório (inteiro, coordenada de ecrã)"@),
        input.get("button"@) == Some(JsonView::Text(button_name(button))) ==> (click_view(
            Platform::Windows,
            true,
            input,
        ) matches Ok(c) && c.button == button),
        input.get("button"@) matches Some(JsonView::Text(b)) ==> (b != "left"@ && b != "right"@ && b
            != "middle"@ ==> click_view(Platform::Windows, true, input) is Err),
        input.get("text"@) is None ==> type_view(Platform::Windows, true, input) == Err::<
            Seq<char>,
            Seq<char>,
        >("text obrigatório (UTF-8)"@),
        input.get("text"@) matches Some(JsonView::Text(t)) ==> {
            &&& t.len() == 0 ==> type_view(Platform::Windows, true, input) == Err::<
                Seq<char>,
                Seq<char>,
            >("text vazio"@)
            &&& t.len() > 0 && vstd::utf8::encode_utf8(t).len() > 8000 ==> type_view(
                Platform::Windows,
                true,
                input,
            ) == Err::<Seq<char>, Seq<char>>("text demasiado longo (máx. 8000 bytes UTF-8)"@)
        },
{
    law_button_names(button);
}

/// Arming tells why it failed; revoking says so on Windows, and elsewhere that there is nothing to
/// revoke; a double click pauses 45 milliseconds.
pub proof fn law_session_replies(
    message: Seq<char>,
    other: Result<(), Seq<char>>,
    platform: Platform,
    was_armed: bool,
    os: Seq<char>,
    c: Click,
)
    ensures
        arming_view(false, other, other).get("error"@) == Some(
            JsonView::Text("Autorização recusada no terminal."@),
        ),
        arming_view(true, Err(message), other).get("error"@) == Some(JsonView::Text(message)),
        arming_view(true, Ok(()), Err(message)).get("error"@) == Some(JsonView::Text(message)),
        platform == Platform::Windows ==> disarm_view(platform, was_armed).get("status"@) == Some(
            JsonView::Text("ok"@),
        ) && disarm_view(platform, was_armed).get("disarmed"@) == Some(JsonView::Bool(true)),
        platform != Platform::Windows ==> disarm_view(platform, was_armed).get("status"@) == Some(
            JsonView::Text("error"@),
        ),
        status_view(Platform::Windows, os, None).get("armed"@) == Some(JsonView::Bool(false)),
        status_view(Platform::Windows, os, None).get("armed_at_ms"@) == Some(JsonView::Null),
        status_view(Platform::Windows, os, None).get("platform"@) == Some(
            JsonView::Text("windows"@),
        ),
        status_view(platform, os, None).get("status"@) == Some(JsonView::Text("ok"@)),
        c.double ==> click_steps(c)[2] == MouseStep::PauseMs(45),
        gate_view(Platform::Windows, true) is None,
        platform != Platform::Windows ==> (arm_reply(platform, was_armed) matches Some(r) && r.get(
            "status"@,
        ) == Some(JsonView::Text("error"@))),
{
    reveal_strlit("status");
    assert("status"@.len() == 6);
    reveal_strlit("error");
    assert("error"@.len() == 5);
    reveal_strlit("disarmed");
    assert("disarmed"@.len() == 8);
    reveal_strlit("was_armed");
    assert("was_armed"@.len() == 9);
    reveal_strlit("note");
    assert("note"@.len() == 4);
    reveal_strlit("armed");
    assert("armed"@.len() == 5);
    reveal_strlit("armed_at_ms");
    assert("armed_at_ms"@.len() == 11);
    reveal_strlit("platform");
    assert("platform"@.len() == 8);
    assert("error"@[0] != "armed"@[0]);
    assert("disarmed"@[0] != "platform"@[0]);
}

} // verus!
