//! From an image on disk to its description.
use crate::bytes::{from_utf8, from_utf8_lossy, lossy_text, utf8_error};
use crate::command::Platform;
use crate::json::{
    empty_object, lemma_list_view, object, text, text_items, text_list, views, Json, JsonView,
};
use crate::paths::{
    bare_name, extension_by_rule, extension_known, extension_of, file_name_of, lemma_bare_name,
    name_fixed, path_accepted, path_extension, path_verdict,
};
use crate::reply::{error, error_view, law_error_fields, ok, ok_view, optional};
use crate::split::{join, lines, text_lines};
use crate::text::{alnum, cat, chars, is_alnum, lower_ascii, lowered, same, texts, trim, trimmed};
use crate::vision::block::{build_llm_block, llm_block};
use crate::vision::layout::{
    elements_of, elements_view, kind_name, lowercase, merge_words_to_elements, Element,
    ElementView,
};
use crate::vision::summary::{classify_summary, summary_blob, summary_tags, summary_text};
use crate::vision::tsv::{parse_tsv_words, size_view, table};
use vstd::prelude::*;

verus! {

/// The largest image that is read, in bytes.
pub const MAX_IMAGE_BYTES: u64 = 26_214_400;

/// The languages that are tried by default.
pub const DEFAULT_LANG: &'static str = "por+eng";

/// How thoroughly an image is read.
#[derive(Clone, Copy, PartialEq, Eq, Structural)]
pub enum VisionMode {
    Full,
    Fast,
    OcrOnly,
}

/// The name of a mode.
pub open spec fn mode_name(mode: VisionMode) -> Seq<char> {
    match mode {
        VisionMode::Full => "full"@,
        VisionMode::Fast => "fast"@,
        VisionMode::OcrOnly => "ocr_only"@,
    }
}

/// The mode with a name.
pub open spec fn mode_named(name: Seq<char>) -> Option<VisionMode> {
    if name == "full"@ {
        Some(VisionMode::Full)
    } else if name == "fast"@ {
        Some(VisionMode::Fast)
    } else if name == "ocr_only"@ {
        Some(VisionMode::OcrOnly)
    } else {
        None
    }
}

impl VisionMode {
    /// The name of a mode.
    pub fn name(&self) -> (r: &'static str)
        ensures
            r@ == mode_name(*self),
    {
        match self {
            VisionMode::Full => "full",
            VisionMode::Fast => "fast",
            VisionMode::OcrOnly => "ocr_only",
        }
    }

    /// The mode with a name.
    pub fn named(name: &str) -> (r: Option<VisionMode>)
        ensures
            r == mode_named(name@),
    {
        if same(name, "full") {
            Some(VisionMode::Full)
        } else if same(name, "fast") {
            Some(VisionMode::Fast)
        } else if same(name, "ocr_only") {
            Some(VisionMode::OcrOnly)
        } else {
            None
        }
    }
}

// ---------------------------------------------------------------------------
// File names and languages
// ---------------------------------------------------------------------------

/// An extension of an image that can be read.
pub open spec fn image_extension(ext: Option<Seq<char>>) -> bool {
    match ext {
        Some(e) => {
            let low = lowered(e);
            low == "png"@ || low == "jpg"@ || low == "jpeg"@ || low == "tif"@ || low == "tiff"@
                || low == "bmp"@ || low == "webp"@
        },
        None => false,
    }
}

/// Tells whether an extension is that of an image that can be read.
pub fn known_image_extension(ext: &Option<String>) -> (r: bool)
    ensures
        r == image_extension(optional(*ext)),
{
    match ext {
        Some(e) => {
            let low = lower_ascii(e.as_str());
            let low = low.as_str();
            same(low, "png") || same(low, "jpg") || same(low, "jpeg") || same(low, "tif") || same(
                low,
                "tiff",
            ) || same(low, "bmp") || same(low, "webp")
        },
        None => false,
    }
}

/// What is known of the verdict on the name of an image wherever it is given: its extension decides.
pub open spec fn image_verdict(path: Seq<char>, platform: Platform, allowed: bool) -> bool {
    exists|ext: Option<Seq<char>>| #[trigger]
        extension_known(path, platform, ext) && allowed == image_extension(ext)
}

/// Tells whether a path has the extension of an image that can be read.
pub fn allowed_image_ext(path: &str, platform: Platform) -> (r: bool)
    ensures
        image_verdict(path@, platform, r),
{
    let ext = path_extension(path, platform);
    assert(extension_known(path@, platform, optional(ext)));
    known_image_extension(&ext)
}

/// Where the file name follows from the path and the system, which it does for every path on Unix, the
/// verdict is a matter of that name alone, whatever the directories before it; so it is on every
/// system for a file name that is the same on each.
pub proof fn law_verdict_on_images(path: Seq<char>, platform: Platform, allowed: bool)
    requires
        image_verdict(path, platform, allowed),
    ensures
        name_fixed(path, platform) ==> allowed == image_extension(
            extension_by_rule(path, platform),
        ),
        file_name_of(path) matches Some(name) ==> allowed == image_extension(extension_of(name)),
        bare_name(path) ==> allowed == image_extension(extension_of(path)),
{
    if bare_name(path) {
        lemma_bare_name(path);
    }
}

/// A character that may stand in a list of languages.
pub open spec fn lang_char(c: char) -> bool {
    is_alnum(c) || c == '+' || c == '_'
}

/// The first characters of a text that may stand in a list of languages, up to 48 of them.
pub open spec fn lang_chars(s: Seq<char>) -> Seq<char>
    decreases s.len(),
{
    if s.len() == 0 {
        seq![]
    } else {
        let before = lang_chars(s.drop_last());
        if before.len() < 48 && lang_char(s.last()) {
            before.push(s.last())
        } else {
            before
        }
    }
}

/// The languages that a text asks for.
pub open spec fn lang_of(raw: Option<Seq<char>>) -> Seq<char> {
    let kept = match raw {
        Some(s) => lang_chars(s),
        None => lang_chars(DEFAULT_LANG@),
    };
    if kept.len() == 0 {
        DEFAULT_LANG@
    } else {
        kept
    }
}

/// Keeps of a list of languages what Tesseract takes.
pub fn sanitize_lang(raw: Option<&str>) -> (r: String)
    ensures
        r@ == match raw {
            Some(s) => lang_of(Some(s@)),
            None => lang_of(None),
        },
{
    let asked: &str = match raw {
        Some(s) => s,
        None => DEFAULT_LANG,
    };
    let cs = chars(asked);
    let mut kept = String::new();
    let mut count: usize = 0;
    assert(kept@ =~= seq![]);
    for i in 0..cs.len()
        invariant
            kept@ == lang_chars(cs@.take(i as int)),
            count == kept@.len(),
            count <= 48,
    {
        assert(cs@.take(i + 1).drop_last() =~= cs@.take(i as int));
        if count < 48 && (alnum(cs[i]) || cs[i] == '+' || cs[i] == '_') {
            kept.push(cs[i]);
            count = count + 1;
        }
    }
    assert(cs@.take(cs@.len() as int) =~= cs@);
    if count == 0 {
        DEFAULT_LANG.to_owned()
    } else {
        kept
    }
}

/// Whatever is asked for, the languages are a short text without anything that a command line
/// could take for an option or a path.
pub proof fn law_lang_is_plain(raw: Option<Seq<char>>)
    ensures
        0 < lang_of(raw).len() <= 48,
        forall|i: int| 0 <= i < lang_of(raw).len() ==> lang_char(#[trigger] lang_of(raw)[i]),
{
    reveal_strlit("por+eng");
    match raw {
        Some(s) => {
            lemma_lang_chars(s);
        },
        None => {
            lemma_lang_chars(DEFAULT_LANG@);
        },
    }
}

proof fn lemma_lang_chars(s: Seq<char>)
    ensures
        lang_chars(s).len() <= 48,
        forall|i: int| 0 <= i < lang_chars(s).len() ==> lang_char(#[trigger] lang_chars(s)[i]),
    decreases s.len(),
{
    if s.len() > 0 {
        lemma_lang_chars(s.drop_last());
    }
}

// ---------------------------------------------------------------------------
// The request
// ---------------------------------------------------------------------------

/// An image to be read.
pub struct VisionRequest {
    pub image_path: String,
    pub mode: VisionMode,
    pub lang: String,
}

/// The view of a request.
pub struct VisionRequestView {
    pub image_path: Seq<char>,
    pub mode: VisionMode,
    pub lang: Seq<char>,
}

impl View for VisionRequest {
    type V = VisionRequestView;

    open spec fn view(&self) -> VisionRequestView {
        VisionRequestView { image_path: self.image_path@, mode: self.mode, lang: self.lang@ }
    }
}

/// The request in an input, or why it is refused. `path_ok` and `name_ok` are the verdicts on the
/// path and on the name of the file.
pub open spec fn vision_request_view(input: JsonView, path_ok: bool, name_ok: bool) -> Result<
    VisionRequestView,
    Seq<char>,
> {
    match input.text_at("image_path"@) {
        None => Err("image_path obrigatório (caminho relativo a um ficheiro de imagem)"@),
        Some(path) => if !path_ok {
            Err("image_path inválido (sem .., não absoluto)"@)
        } else if !name_ok {
            Err("extensão não suportada (use png, jpg, webp, tiff, bmp)"@)
        } else {
            match mode_named(input.text_or("mode"@, "fast"@)) {
                None => Err("mode deve ser full, fast ou ocr_only"@),
                Some(mode) => Ok(
                    VisionRequestView {
                        image_path: path,
                        mode,
                        lang: lang_of(input.text_at("lang"@)),
                    },
                ),
            }
        },
    }
}

/// What a request, or the reply that refuses it, says of the input.
pub open spec fn vision_requested(
    r: Result<VisionRequest, Json>,
    expected: Result<VisionRequestView, Seq<char>>,
) -> bool {
    match (r, expected) {
        (Ok(q), Ok(v)) => q@ == v,
        (Err(e), Err(m)) => e@ == error_view(m),
        _ => false,
    }
}

/// Reads a request, given the verdicts on the path and on the name of the file.
pub fn vision_request_with(input: &Json, path_ok: bool, name_ok: bool) -> (r: Result<
    VisionRequest,
    Json,
>)
    ensures
        vision_requested(r, vision_request_view(input@, path_ok, name_ok)),
{
    match input.text_at("image_path") {
        None => Err(error("image_path obrigatório (caminho relativo a um ficheiro de imagem)")),
        Some(path) => if !path_ok {
            Err(error("image_path inválido (sem .., não absoluto)"))
        } else if !name_ok {
            Err(error("extensão não suportada (use png, jpg, webp, tiff, bmp)"))
        } else {
            match VisionMode::named(input.text_or("mode", "fast")) {
                None => Err(error("mode deve ser full, fast ou ocr_only")),
                Some(mode) => Ok(
                    VisionRequest {
                        image_path: path.to_owned(),
                        mode,
                        lang: sanitize_lang(input.text_at("lang")),
                    },
                ),
            }
        },
    }
}

/// Reads a request.
pub fn vision_request(input: &Json, platform: Platform) -> (r: Result<VisionRequest, Json>)
    ensures
        exists|path_ok: bool, name_ok: bool|
            {
                &&& path_verdict(input@.text_or("image_path"@, ""@), platform, path_ok)
                &&& image_verdict(input@.text_or("image_path"@, ""@), platform, name_ok)
                &&& #[trigger] vision_requested(
                    r,
                    vision_request_view(input@, path_ok, name_ok),
                )
            },
{
    let path = input.text_or("image_path", "");
    let path_ok = path_accepted(path, platform);
    let name_ok = allowed_image_ext(path, platform);
    vision_request_with(input, path_ok, name_ok)
}

// ---------------------------------------------------------------------------
// What the host finds
// ---------------------------------------------------------------------------

/// What the host found of the image.
pub enum ImageFound {
    /// There is no current directory; the error.
    NoDirectory(String),
    /// The path leads nowhere; the error.
    NoFile(String),
    /// The file cannot be looked at; the error.
    NoFacts(String),
    /// It is there.
    Facts { is_file: bool, size: u64 },
}

/// Why an image is not read.
pub open spec fn image_refusal_view(found: ImageFound) -> Option<Seq<char>> {
    match found {
        ImageFound::NoDirectory(e) => Some(e@),
        ImageFound::NoFile(e) => Some("ficheiro inexistente ou inacessível: "@ + e@),
        ImageFound::NoFacts(e) => Some(e@),
        ImageFound::Facts { is_file, size } => if !is_file {
            Some("caminho não é ficheiro"@)
        } else if size > MAX_IMAGE_BYTES {
            Some("imagem demasiado grande (máx. 25 MiB)"@)
        } else {
            None
        },
    }
}

/// Refuses an image that cannot be read.
pub fn image_refusal(found: &ImageFound) -> (r: Option<Json>)
    ensures
        match (r, image_refusal_view(*found)) {
            (Some(e), Some(m)) => e@ == error_view(m),
            (None, None) => true,
            _ => false,
        },
{
    match found {
        ImageFound::NoDirectory(e) => Some(error(e.as_str())),
        ImageFound::NoFile(e) => {
            let mut m = "ficheiro inexistente ou inacessível: ".to_owned();
            m.append(e.as_str());
            Some(error(m.as_str()))
        },
        ImageFound::NoFacts(e) => Some(error(e.as_str())),
        ImageFound::Facts { is_file, size } => if !*is_file {
            Some(error("caminho não é ficheiro"))
        } else if *size > MAX_IMAGE_BYTES {
            Some(error("imagem demasiado grande (máx. 25 MiB)"))
        } else {
            None
        },
    }
}

/// The arguments for Tesseract: the image, its output to standard output, the languages, and a
/// table unless only text is wanted.
pub open spec fn tesseract_args_view(image: Seq<char>, q: VisionRequestView) -> Seq<Seq<char>> {
    let base = seq![image, "stdout"@, "-l"@, q.lang];
    if q.mode == VisionMode::OcrOnly {
        base
    } else {
        base.push("tsv"@)
    }
}

/// The arguments for Tesseract.
pub fn tesseract_args(image: &str, q: &VisionRequest) -> (r: Vec<String>)
    ensures
        texts(r@) == tesseract_args_view(image@, q@),
{
    let mut args: Vec<String> = Vec::new();
    args.push(image.to_owned());
    args.push("stdout".to_owned());
    args.push("-l".to_owned());
    args.push(q.lang.clone());
    match q.mode {
        VisionMode::OcrOnly => {},
        _ => {
            args.push("tsv".to_owned());
        },
    }
    assert(texts(args@) =~= tesseract_args_view(image@, q@));
    args
}

/// How a run of Tesseract ended.
pub enum OcrRun {
    /// There is no such program.
    Missing,
    /// It could not be started; the error.
    NotStarted(String),
    /// It failed; what it wrote to standard error.
    Failed(Vec<u8>),
    /// It succeeded; what it wrote to standard output.
    Done(Vec<u8>),
}

/// The text that a run of Tesseract gave, or the message of its error.
pub open spec fn recognised_view(mode: VisionMode, run: OcrRun) -> Result<Seq<char>, Seq<char>> {
    match run {
        OcrRun::Missing => if mode == VisionMode::OcrOnly {
            Err("tesseract não encontrado no PATH."@)
        } else {
            Err(
                "tesseract não encontrado no PATH. Instale Tesseract OCR e reinicie o terminal."@,
            )
        },
        OcrRun::NotStarted(e) => Err("falha ao executar tesseract: "@ + e@),
        OcrRun::Failed(stderr) => if mode == VisionMode::OcrOnly {
            Err("tesseract (txt) falhou: "@ + lossy_text(stderr@))
        } else {
            Err("tesseract (tsv) falhou: "@ + lossy_text(stderr@))
        },
        OcrRun::Done(stdout) => if vstd::utf8::valid_utf8(stdout@) {
            Ok(vstd::utf8::decode_utf8(stdout@))
        } else {
            Err("stdout inválido UTF-8: "@ + utf8_error(stdout@))
        },
    }
}

fn recognised(mode: VisionMode, run: OcrRun) -> (r: Result<String, String>)
    ensures
        match r {
            Ok(t) => recognised_view(mode, run) == Ok::<Seq<char>, Seq<char>>(t@),
            Err(e) => recognised_view(mode, run) == Err::<Seq<char>, Seq<char>>(e@),
        },
{
    match run {
        OcrRun::Missing => match mode {
            VisionMode::OcrOnly => Err("tesseract não encontrado no PATH.".to_owned()),
            _ => Err(
                "tesseract não encontrado no PATH. Instale Tesseract OCR e reinicie o terminal.".to_owned(),
            ),
        },
        OcrRun::NotStarted(e) => Err(cat("falha ao executar tesseract: ", e.as_str())),
        OcrRun::Failed(stderr) => {
            let e = from_utf8_lossy(&stderr);
            match mode {
                VisionMode::OcrOnly => Err(cat("tesseract (txt) falhou: ", e.as_str())),
                _ => Err(cat("tesseract (tsv) falhou: ", e.as_str())),
            }
        },
        OcrRun::Done(stdout) => match from_utf8(stdout) {
            Ok(t) => Ok(t),
            Err(e) => Err(cat("stdout inválido UTF-8: ", e.as_str())),
        },
    }
}

// ---------------------------------------------------------------------------
// What was read
// ---------------------------------------------------------------------------

/// What was read from an image. Plain text has lines only.
pub struct Reading {
    pub lines: Vec<String>,
    pub elements: Vec<Element>,
    pub paragraphs: Vec<String>,
    pub page_size: Option<(i32, i32)>,
}

/// The view of what was read.
pub struct ReadingView {
    pub lines: Seq<Seq<char>>,
    pub elements: Seq<ElementView>,
    pub paragraphs: Seq<Seq<char>>,
    pub page_size: Option<(int, int)>,
}

impl View for Reading {
    type V = ReadingView;

    open spec fn view(&self) -> ReadingView {
        ReadingView {
            lines: texts(self.lines@),
            elements: elements_view(self.elements@),
            paragraphs: texts(self.paragraphs@),
            page_size: size_view(self.page_size),
        }
    }
}

/// The lines that are not blank, without white space at their ends.
pub open spec fn filled_lines(list: Seq<Seq<char>>) -> Seq<Seq<char>>
    decreases list.len(),
{
    if list.len() == 0 {
        seq![]
    } else if trimmed(list.last()).len() == 0 {
        filled_lines(list.drop_last())
    } else {
        filled_lines(list.drop_last()).push(trimmed(list.last()))
    }
}

/// The labels of some elements.
pub open spec fn labels(es: Seq<ElementView>) -> Seq<Seq<char>> {
    es.map_values(|e: ElementView| e.label)
}

/// What a text of Tesseract says of the image. The lines are those of the table, or, where it has
/// none, the labels of the elements; paragraphs belong to a full analysis.
pub open spec fn reading_view(mode: VisionMode, t: Seq<char>) -> ReadingView {
    if mode == VisionMode::OcrOnly {
        ReadingView {
            lines: filled_lines(lines(t)),
            elements: seq![],
            paragraphs: seq![],
            page_size: None,
        }
    } else {
        let tsv = table(lines(t));
        let elements = elements_of(tsv.words);
        ReadingView {
            lines: if tsv.ocr_lines.len() > 0 {
                tsv.ocr_lines
            } else {
                labels(elements)
            },
            elements,
            paragraphs: if mode == VisionMode::Full {
                tsv.paragraphs
            } else {
                seq![]
            },
            page_size: tsv.page_size,
        }
    }
}

fn keep_filled(list: &[String]) -> (r: Vec<String>)
    ensures
        texts(r@) == filled_lines(texts(list@)),
{
    let ghost all = texts(list@);
    let mut out: Vec<String> = Vec::new();
    assert(texts(out@) =~= seq![]);
    assert(all.take(0) =~= seq![]);
    for i in 0..list.len()
        invariant
            all == texts(list@),
            texts(out@) == filled_lines(all.take(i as int)),
    {
        assert(all.take(i + 1).drop_last() =~= all.take(i as int));
        let line = trim(list[i].as_str());
        if !line.as_str().is_empty() {
            let ghost before = texts(out@);
            let ghost l = line@;
            out.push(line);
            assert(texts(out@) =~= before.push(l));
        }
    }
    assert(all.take(list@.len() as int) =~= all);
    out
}

fn read_labels(elements: &[Element]) -> (r: Vec<String>)
    ensures
        texts(r@) == labels(elements_view(elements@)),
{
    let mut out: Vec<String> = Vec::new();
    for i in 0..elements.len()
        invariant
            out@.len() == i,
            forall|k: int| 0 <= k < i ==> (#[trigger] out@[k])@ == elements@[k].label@,
    {
        out.push(elements[i].label.clone());
    }
    assert(texts(out@) =~= labels(elements_view(elements@)));
    out
}

fn read_text(mode: VisionMode, t: &str) -> (r: Reading)
    ensures
        r@ == reading_view(mode, t@),
{
    match mode {
        VisionMode::OcrOnly => {
            let r = Reading {
                lines: keep_filled(&text_lines(t)),
                elements: Vec::new(),
                paragraphs: Vec::new(),
                page_size: None,
            };
            assert(r@.elements =~= seq![]);
            assert(r@.paragraphs =~= seq![]);
            r
        },
        _ => {
            let tsv = parse_tsv_words(t);
            let ghost view = tsv@;
            let elements = merge_words_to_elements(&tsv.words);
            assert(view.ocr_lines.len() == tsv.ocr_lines@.len());
            let found = if tsv.ocr_lines.len() > 0 {
                tsv.ocr_lines
            } else {
                read_labels(&elements)
            };
            let paragraphs: Vec<String> = match mode {
                VisionMode::Full => tsv.paragraphs,
                _ => Vec::new(),
            };
            assert(mode != VisionMode::Full ==> texts(paragraphs@) =~= seq![]);
            Reading { lines: found, elements, paragraphs, page_size: tsv.page_size }
        },
    }
}

/// Reads what a run of Tesseract gave, or refuses it.
pub fn read_image(q: &VisionRequest, run: OcrRun) -> (r: Result<Reading, Json>)
    ensures
        match (r, recognised_view(q.mode, run)) {
            (Ok(reading), Ok(t)) => reading@ == reading_view(q.mode, t),
            (Err(e), Err(m)) => e@ == error_view(m),
            _ => false,
        },
{
    match recognised(q.mode, run) {
        Ok(t) => Ok(read_text(q.mode, t.as_str())),
        Err(m) => Err(error(m.as_str())),
    }
}

// ---------------------------------------------------------------------------
// The reply
// ---------------------------------------------------------------------------

/// The views of some values that may be missing.
pub open spec fn averages_view(averages: Seq<Option<Json>>) -> Seq<Option<JsonView>> {
    averages.map_values(
        |a: Option<Json>|
            match a {
                Some(j) => Some(j@),
                None => None,
            },
    )
}

/// An element as a JSON value, with the average of its confidences where there is one.
pub open spec fn element_json(e: ElementView, average: Option<JsonView>) -> JsonView {
    let base = empty_object().with("type"@, JsonView::Text(kind_name(e.kind))).with(
        "label"@,
        JsonView::Text(e.label),
    ).with("x"@, JsonView::Int(e.x)).with("y"@, JsonView::Int(e.y)).with(
        "w"@,
        JsonView::Int(e.w),
    ).with("h"@, JsonView::Int(e.h));
    match average {
        Some(a) => base.with("conf_avg"@, a),
        None => base,
    }
}

/// The elements as a JSON value. `averages[i]` belongs to element `i`.
pub open spec fn elements_json(es: Seq<ElementView>, averages: Seq<Option<JsonView>>) -> JsonView {
    JsonView::List(
        Seq::new(
            es.len(),
            |i: int|
                element_json(
                    es[i],
                    if i < averages.len() {
                        averages[i]
                    } else {
                        None
                    },
                ),
        ),
    )
}

/// The size of a page as a JSON value.
pub open spec fn page_json(size: Option<(int, int)>) -> JsonView {
    match size {
        Some((w, h)) => empty_object().with("width"@, JsonView::Int(w)).with(
            "height"@,
            JsonView::Int(h),
        ),
        None => JsonView::Null,
    }
}

/// What is said of the coordinates.
pub open spec fn mode_note(mode: VisionMode) -> Seq<char> {
    if mode == VisionMode::OcrOnly {
        "ocr_only: sem caixas; use fast/full para layout aproximado via TSV."@
    } else {
        "Coordenadas vêm do OCR (TSV); alinhar com gui_screen_snapshot/gui_mouse_* no mesmo referencial da imagem analisada."@
    }
}

/// The description of an image.
pub open spec fn vision_reply(
    q: VisionRequestView,
    r: ReadingView,
    averages: Seq<Option<JsonView>>,
) -> JsonView {
    let full = q.mode == VisionMode::Full;
    let blob = summary_blob(r.lines);
    let summary = summary_text(blob, r.lines.len(), r.elements.len(), full);
    ok_view().with("mode"@, JsonView::Text(mode_name(q.mode))).with(
        "image_path"@,
        JsonView::Text(q.image_path),
    ).with("lang"@, JsonView::Text(q.lang)).with("summary"@, JsonView::Text(summary)).with(
        "semantic_tags"@,
        text_list(summary_tags(blob)),
    ).with("text"@, text_list(r.lines)).with(
        "elements"@,
        elements_json(r.elements, averages),
    ).with("paragraphs"@, text_list(r.paragraphs)).with("page"@, page_json(r.page_size)).with(
        "llm_block"@,
        JsonView::Text(llm_block(summary, r.lines, r.elements, r.paragraphs, full)),
    ).with("note"@, JsonView::Text(mode_note(q.mode)))
}

fn describe_element(e: &Element, average: Option<&Json>) -> (j: Json)
    ensures
        j@ == element_json(
            e@,
            match average {
                Some(a) => Some(a@),
                None => None,
            },
        ),
{
    let base = object().with("type", text(e.kind.name())).with(
        "label",
        text(e.label.as_str()),
    ).with("x", Json::Sint(e.x as i64)).with("y", Json::Sint(e.y as i64)).with(
        "w",
        Json::Sint(e.w as i64),
    ).with("h", Json::Sint(e.h as i64));
    match average {
        Some(a) => base.with("conf_avg", a.copy()),
        None => base,
    }
}

fn describe_elements(es: &[Element], averages: &[Option<Json>]) -> (j: Json)
    ensures
        j@ == elements_json(elements_view(es@), averages_view(averages@)),
{
    broadcast use lemma_list_view;

    let ghost expected = elements_json(elements_view(es@), averages_view(averages@))->List_0;
    let mut out: Vec<Json> = Vec::new();
    for i in 0..es.len()
        invariant
            expected == elements_json(elements_view(es@), averages_view(averages@))->List_0,
            out@.len() == i,
            forall|k: int| 0 <= k < i ==> json_view_at(out@, k) == #[trigger] expected[k],
    {
        let average: Option<&Json> = if i < averages.len() {
            averages[i].as_ref()
        } else {
            None
        };
        out.push(describe_element(&es[i], average));
        assert(json_view_at(out@, i as int) == expected[i as int]);
    }
    assert forall|k: int| 0 <= k < expected.len() implies views(out@)[k] == #[trigger] expected[k] by {
        assert(json_view_at(out@, k) == expected[k]);
    }
    assert(views(out@) =~= expected);
    Json::List(out)
}

spec fn json_view_at(items: Seq<Json>, k: int) -> JsonView {
    items[k]@
}

fn describe_page(size: Option<(i32, i32)>) -> (j: Json)
    ensures
        j@ == page_json(size_view(size)),
{
    match size {
        Some((w, h)) => object().with("width", Json::Sint(w as i64)).with(
            "height",
            Json::Sint(h as i64),
        ),
        None => Json::Null,
    }
}

/// Describes what was read from an image. `averages[i]` is the average of the confidences of
/// element `i`, where there is one.
pub fn vision_to_context(q: &VisionRequest, r: &Reading, averages: &[Option<Json>]) -> (j: Json)
    ensures
        j@ == vision_reply(q@, r@, averages_view(averages@)),
{
    let (full, note): (bool, &str) = match q.mode {
        VisionMode::Full => (
            true,
            "Coordenadas vêm do OCR (TSV); alinhar com gui_screen_snapshot/gui_mouse_* no mesmo referencial da imagem analisada.",
        ),
        VisionMode::Fast => (
            false,
            "Coordenadas vêm do OCR (TSV); alinhar com gui_screen_snapshot/gui_mouse_* no mesmo referencial da imagem analisada.",
        ),
        VisionMode::OcrOnly => (
            false,
            "ocr_only: sem caixas; use fast/full para layout aproximado via TSV.",
        ),
    };
    let (summary, tags) = classify_summary(&r.lines, r.elements.len(), full);
    let block = build_llm_block(summary.as_str(), &r.lines, &r.elements, &r.paragraphs, full);
    ok().with("mode", text(q.mode.name())).with("image_path", text(q.image_path.as_str())).with(
        "lang",
        text(q.lang.as_str()),
    ).with("summary", text(summary.as_str())).with("semantic_tags", text_items(&tags)).with(
        "text",
        text_items(&r.lines),
    ).with("elements", describe_elements(&r.elements, averages)).with(
        "paragraphs",
        text_items(&r.paragraphs),
    ).with("page", describe_page(r.page_size)).with("llm_block", text(block.as_str())).with(
        "note",
        text(note),
    )
}

// ---------------------------------------------------------------------------
// Laws
// ---------------------------------------------------------------------------

/// Each mode is found under its own name, and no other name finds one.
pub proof fn law_mode_names(mode: VisionMode, name: Seq<char>)
    ensures
        mode_named(mode_name(mode)) == Some(mode),
        mode_named(name) matches Some(m) ==> mode_name(m) == name,
        mode_named("full"@) == Some(VisionMode::Full),
        mode_named("fast"@) == Some(VisionMode::Fast),
        mode_named("ocr_only"@) == Some(VisionMode::OcrOnly),
{
    reveal_strlit("full");
    assert("full"@.len() == 4);
    reveal_strlit("fast");
    assert("fast"@.len() == 4);
    reveal_strlit("ocr_only");
    assert("ocr_only"@.len() == 8);
    assert("full"@[1] != "fast"@[1]);
}

/// A request names the path, the mode and the languages that the call names; without them the mode is
/// `fast` and the languages are the default.
pub proof fn law_vision_request_fields(input: JsonView, path_ok: bool, name_ok: bool)
    ensures
        vision_request_view(input, path_ok, name_ok) matches Ok(q) ==> {
            &&& path_ok && name_ok
            &&& input.get("image_path"@) == Some(JsonView::Text(q.image_path))
            &&& input.get("mode"@) matches Some(JsonView::Text(m)) ==> mode_name(q.mode) == m
            &&& input.get("mode"@) is None ==> q.mode == VisionMode::Fast
            &&& input.get("lang"@) matches Some(JsonView::Text(l)) ==> q.lang == lang_of(Some(l))
            &&& input.get("lang"@) is None ==> q.lang == "por+eng"@
        },
        path_ok && name_ok && input.at("image_path"@) is Text && input.get("mode"@) is None
            ==> vision_request_view(input, path_ok, name_ok) is Ok,
{
    law_mode_names(VisionMode::Fast, input.text_or("mode"@, "fast"@));
    law_lang_is_kept(DEFAULT_LANG@);
}

/// Languages that Tesseract takes are handed on as they are.
pub proof fn law_lang_is_kept(raw: Seq<char>)
    ensures
        0 < raw.len() <= 48 && (forall|i: int|
            0 <= i < raw.len() ==> lang_char(#[trigger] raw[i])) ==> lang_of(Some(raw)) == raw,
        lang_of(None) == "por+eng"@,
{
    reveal_strlit("por+eng");
    lemma_lang_kept(DEFAULT_LANG@);
    if 0 < raw.len() <= 48 && (forall|i: int| 0 <= i < raw.len() ==> lang_char(#[trigger] raw[i])) {
        lemma_lang_kept(raw);
    }
}

proof fn lemma_lang_kept(s: Seq<char>)
    requires
        s.len() <= 48,
        forall|i: int| 0 <= i < s.len() ==> lang_char(#[trigger] s[i]),
    ensures
        lang_chars(s) == s,
    decreases s.len(),
{
    if s.len() > 0 {
        lemma_lang_kept(s.drop_last());
        assert(lang_char(s[s.len() - 1]));
        assert(s.drop_last().push(s.last()) =~= s);
    } else {
        assert(lang_chars(s) =~= s);
    }
}

/// What Tesseract does not take is left out of the languages, and nothing else is.
pub proof fn law_lang_leaves_out(a: Seq<char>, c: char, b: Seq<char>)
    requires
        !lang_char(c),
    ensures
        lang_chars(a.push(c) + b) == lang_chars(a + b),
    decreases b.len(),
{
    if b.len() == 0 {
        assert(a.push(c) + b =~= a.push(c));
        assert(a + b =~= a);
        assert(a.push(c).drop_last() =~= a);
    } else {
        law_lang_leaves_out(a, c, b.drop_last());
        assert((a.push(c) + b).drop_last() =~= a.push(c) + b.drop_last());
        assert((a + b).drop_last() =~= a + b.drop_last());
    }
}

/// Tesseract gets the image first, writes to standard output, gets the languages behind `-l`, and is
/// asked for a table unless only text is wanted.
pub proof fn law_tesseract_args(image: Seq<char>, q: VisionRequestView)
    ensures
        ({
            let args = tesseract_args_view(image, q);
            &&& args[0] == image
            &&& args[1] == "stdout"@
            &&& args[2] == "-l"@
            &&& args[3] == q.lang
            &&& q.mode == VisionMode::OcrOnly ==> args.len() == 4
            &&& q.mode != VisionMode::OcrOnly ==> args.len() == 5 && args[4] == "tsv"@
        }),
{
}

/// An image is read just where it is a file of at most 25 MiB.
pub proof fn law_images_that_are_read(found: ImageFound)
    ensures
        image_refusal_view(found) is None <==> (found matches ImageFound::Facts { is_file, size }
            && is_file && size <= 25 * 1024 * 1024),
{
}

/// What is read from the text of Tesseract: plain text has its lines that are not blank; a table has
/// the lines in it, or the labels of its elements where it has none, its elements and its page, and
/// the paragraphs in a full analysis only.
pub proof fn law_reading(t: Seq<char>, mode: VisionMode)
    ensures
        ({
            let r = reading_view(mode, t);
            let tsv = table(lines(t));
            &&& mode == VisionMode::OcrOnly ==> r.elements.len() == 0 && r.paragraphs.len() == 0
                && r.page_size is None
            &&& mode != VisionMode::OcrOnly ==> {
                &&& r.elements == elements_of(tsv.words)
                &&& r.page_size == tsv.page_size
                &&& tsv.ocr_lines.len() > 0 ==> r.lines == tsv.ocr_lines
                &&& tsv.ocr_lines.len() == 0 ==> r.lines.len() == r.elements.len() && forall|i: int|
                    0 <= i < r.lines.len() ==> #[trigger] r.lines[i] == r.elements[i].label
            }
            &&& mode == VisionMode::Full ==> r.paragraphs == tsv.paragraphs
            &&& mode == VisionMode::Fast ==> r.paragraphs.len() == 0
        }),
{
}

/// The lines of plain text are those that are not blank, in their order, without white space at their
/// ends.
pub proof fn law_filled_lines(a: Seq<Seq<char>>, line: Seq<char>, b: Seq<Seq<char>>)
    ensures
        filled_lines(a + b) == filled_lines(a) + filled_lines(b),
        trimmed(line).len() == 0 ==> filled_lines(seq![line]) == Seq::<Seq<char>>::empty(),
        trimmed(line).len() > 0 ==> filled_lines(seq![line]) == seq![trimmed(line)],
    decreases b.len(),
{
    let none = Seq::<Seq<char>>::empty();
    assert(seq![line].drop_last() =~= none);
    assert(filled_lines(none) =~= none);
    assert(none.push(trimmed(line)) =~= seq![trimmed(line)]);
    if b.len() == 0 {
        assert(a + b =~= a);
        assert(filled_lines(a) + filled_lines(b) =~= filled_lines(a));
    } else {
        law_filled_lines(a, line, b.drop_last());
        assert((a + b).drop_last() =~= a + b.drop_last());
        assert(filled_lines(a + b) =~= filled_lines(a) + filled_lines(b));
    }
}

/// Each element stands in the description with its kind, its label, its place, its size and the
/// average of its confidences.
pub proof fn law_element_fields(e: ElementView, average: Option<JsonView>)
    ensures
        ({
            let j = element_json(e, average);
            &&& j.get("type"@) == Some(JsonView::Text(kind_name(e.kind)))
            &&& j.get("label"@) == Some(JsonView::Text(e.label))
            &&& j.get("x"@) == Some(JsonView::Int(e.x))
            &&& j.get("y"@) == Some(JsonView::Int(e.y))
            &&& j.get("w"@) == Some(JsonView::Int(e.w))
            &&& j.get("h"@) == Some(JsonView::Int(e.h))
            &&& j.get("conf_avg"@) == average
        }),
{
    reveal_strlit("type");
    assert("type"@.len() == 4);
    reveal_strlit("label");
    assert("label"@.len() == 5);
    reveal_strlit("x");
    assert("x"@.len() == 1);
    reveal_strlit("y");
    assert("y"@.len() == 1);
    reveal_strlit("w");
    assert("w"@.len() == 1);
    reveal_strlit("h");
    assert("h"@.len() == 1);
    reveal_strlit("conf_avg");
    assert("conf_avg"@.len() == 8);
    assert("x"@[0] != "y"@[0]);
    assert("x"@[0] != "w"@[0]);
    assert("x"@[0] != "h"@[0]);
    assert("y"@[0] != "w"@[0]);
    assert("y"@[0] != "h"@[0]);
    assert("w"@[0] != "h"@[0]);
}

/// The description of an image holds what was asked for and what was read, each under its own name.
pub proof fn law_vision_fields(
    q: VisionRequestView,
    r: ReadingView,
    averages: Seq<Option<JsonView>>,
    i: int,
)
    ensures
        ({
            let j = vision_reply(q, r, averages);
            let full = q.mode == VisionMode::Full;
            let blob = lowercase(join(r.lines, " "@));
            let summary = summary_text(blob, r.lines.len(), r.elements.len(), full);
            &&& j.get("status"@) == Some(JsonView::Text("ok"@))
            &&& j.get("mode"@) == Some(JsonView::Text(mode_name(q.mode)))
            &&& j.get("image_path"@) == Some(JsonView::Text(q.image_path))
            &&& j.get("lang"@) == Some(JsonView::Text(q.lang))
            &&& j.get("summary"@) == Some(JsonView::Text(summary))
            &&& j.get("semantic_tags"@) == Some(text_list(summary_tags(blob)))
            &&& j.get("text"@) == Some(text_list(r.lines))
            &&& j.get("paragraphs"@) == Some(text_list(r.paragraphs))
            &&& j.get("llm_block"@) == Some(
                JsonView::Text(llm_block(summary, r.lines, r.elements, r.paragraphs, full)),
            )
            &&& r.page_size matches Some((w, h)) ==> j.at("page"@).get("width"@) == Some(
                JsonView::Int(w),
            ) && j.at("page"@).get("height"@) == Some(JsonView::Int(h))
            &&& r.page_size is None ==> j.get("page"@) == Some(JsonView::Null)
            &&& j.at("elements"@) matches JsonView::List(list) && list.len() == r.elements.len()
                && (0 <= i < list.len() ==> list[i] == element_json(
                r.elements[i],
                if i < averages.len() {
                    averages[i]
                } else {
                    None
                },
            ))
        }),
{
    reveal_strlit("status");
    assert("status"@.len() == 6);
    reveal_strlit("mode");
    assert("mode"@.len() == 4);
    reveal_strlit("image_path");
    assert("image_path"@.len() == 10);
    reveal_strlit("lang");
    assert("lang"@.len() == 4);
    reveal_strlit("summary");
    assert("summary"@.len() == 7);
    reveal_strlit("semantic_tags");
    assert("semantic_tags"@.len() == 13);
    reveal_strlit("text");
    assert("text"@.len() == 4);
    reveal_strlit("elements");
    assert("elements"@.len() == 8);
    reveal_strlit("paragraphs");
    assert("paragraphs"@.len() == 10);
    reveal_strlit("page");
    assert("page"@.len() == 4);
    reveal_strlit("llm_block");
    assert("llm_block"@.len() == 9);
    reveal_strlit("note");
    assert("note"@.len() == 4);
    reveal_strlit("width");
    assert("width"@.len() == 5);
    reveal_strlit("height");
    assert("height"@.len() == 6);
    assert("status"@[0] != "height"@[0]);
    assert("mode"@[0] != "lang"@[0]);
    assert("mode"@[0] != "text"@[0]);
    assert("mode"@[0] != "page"@[0]);
    assert("mode"@[0] != "note"@[0]);
    assert("image_path"@[0] != "paragraphs"@[0]);
    assert("lang"@[0] != "text"@[0]);
    assert("lang"@[0] != "page"@[0]);
    assert("lang"@[0] != "note"@[0]);
    assert("text"@[0] != "page"@[0]);
    assert("text"@[0] != "note"@[0]);
    assert("page"@[0] != "note"@[0]);
}

/// The images that are read have one of these extensions, whatever its case.
pub proof fn law_image_extensions(ext: Seq<char>)
    ensures
        image_extension(Some(ext)) <==> seq![
            "png"@,
            "jpg"@,
            "jpeg"@,
            "tif"@,
            "tiff"@,
            "bmp"@,
            "webp"@,
        ].contains(lowered(ext)),
        !image_extension(None),
{
    let all = seq!["png"@, "jpg"@, "jpeg"@, "tif"@, "tiff"@, "bmp"@, "webp"@];
    assert(all[0] == "png"@ && all[1] == "jpg"@ && all[2] == "jpeg"@ && all[3] == "tif"@ && all[4]
        == "tiff"@ && all[5] == "bmp"@ && all[6] == "webp"@);
}

/// Why a run of Tesseract gave nothing is told with its own words, and what it gave is read as text.
pub proof fn law_recognised(mode: VisionMode, e: String, bytes: Vec<u8>)
    ensures
        recognised_view(mode, OcrRun::NotStarted(e)) == Err::<Seq<char>, Seq<char>>(
            "falha ao executar tesseract: "@ + e@,
        ),
        vstd::utf8::valid_utf8(bytes@) ==> recognised_view(mode, OcrRun::Done(bytes)) == Ok::<
            Seq<char>,
            Seq<char>,
        >(vstd::utf8::decode_utf8(bytes@)),
        !vstd::utf8::valid_utf8(bytes@) ==> recognised_view(mode, OcrRun::Done(bytes)) is Err,
        recognised_view(mode, OcrRun::Failed(bytes)) == Err::<Seq<char>, Seq<char>>(
            (if mode == VisionMode::OcrOnly {
                "tesseract (txt) falhou: "@
            } else {
                "tesseract (tsv) falhou: "@
            }) + lossy_text(bytes@),
        ),
        recognised_view(mode, OcrRun::Missing) is Err,
{
}

/// A request that is granted is the expected one, and a refusal holds its message. A call with a known
/// mode and an accepted path is granted.
pub proof fn law_vision_requested(
    r: Result<VisionRequest, Json>,
    input: JsonView,
    path_ok: bool,
    name_ok: bool,
    mode: VisionMode,
)
    requires
        vision_requested(r, vision_request_view(input, path_ok, name_ok)),
    ensures
        r matches Ok(q) ==> {
            &&& input.get("image_path"@) == Some(JsonView::Text(q@.image_path))
            &&& path_ok && name_ok
        },
        r matches Err(e) ==> e@.get("status"@) == Some(JsonView::Text("error"@)) && e@.at(
            "error"@,
        ) is Text,
        path_ok && name_ok && input.at("image_path"@) is Text && input.get("mode"@) == Some(
            JsonView::Text(mode_name(mode)),
        ) ==> (r matches Ok(q) && q@.mode == mode),
        !(input.at("image_path"@) is Text) ==> r is Err,
{
    law_vision_request_fields(input, path_ok, name_ok);
    law_mode_names(mode, mode_name(mode));
    if let Err(m) = vision_request_view(input, path_ok, name_ok) {
        law_error_fields(m);
    }
}

/// The languages are cut behind 48 characters, and made of letters, digits, `+` and `_`; where nothing
/// is left of them they are the default.
pub proof fn law_lang_is_cut(a: Seq<char>, b: Seq<char>, c: char)
    ensures
        lang_chars(a).len() == 48 ==> lang_chars(a + b) == lang_chars(a),
        lang_char(c) <==> is_alnum(c) || c == '+' || c == '_',
        lang_chars(a).len() == 0 ==> lang_of(Some(a)) == "por+eng"@,
        lang_chars(a).len() < 48 && lang_char(c) ==> lang_chars(a.push(c)) == lang_chars(a).push(c),
    decreases b.len(),
{
    assert(a.push(c).drop_last() =~= a);
    if b.len() > 0 {
        law_lang_is_cut(a, b.drop_last(), c);
        assert((a + b).drop_last() =~= a + b.drop_last());
    } else {
        assert(a + b =~= a);
    }
}

/// Why an image is not read is told with the words of the system, and what is wrong with a call in its
/// order: the path before its extension, and that before the mode.
pub proof fn law_refused_images(e: String, size: u64, input: JsonView)
    ensures
        image_refusal_view(ImageFound::NoDirectory(e)) == Some(e@),
        image_refusal_view(ImageFound::NoFacts(e)) == Some(e@),
        image_refusal_view(ImageFound::NoFile(e)) == Some(
            "ficheiro inexistente ou inacessível: "@ + e@,
        ),
        image_refusal_view(ImageFound::Facts { is_file: false, size }) == Some(
            "caminho não é ficheiro"@,
        ),
        size > 25 * 1024 * 1024 ==> image_refusal_view(ImageFound::Facts { is_file: true, size })
            == Some("imagem demasiado grande (máx. 25 MiB)"@),
        input.at("image_path"@) is Text ==> {
            &&& vision_request_view(input, false, true) == Err::<VisionRequestView, Seq<char>>(
                "image_path inválido (sem .., não absoluto)"@,
            )
            &&& vision_request_view(input, false, false) == Err::<VisionRequestView, Seq<char>>(
                "image_path inválido (sem .., não absoluto)"@,
            )
            &&& vision_request_view(input, true, false) == Err::<VisionRequestView, Seq<char>>(
                "extensão não suportada (use png, jpg, webp, tiff, bmp)"@,
            )
        },
        !(input.at("image_path"@) is Text) ==> vision_request_view(input, true, true) == Err::<
            VisionRequestView,
            Seq<char>,
        >("image_path obrigatório (caminho relativo a um ficheiro de imagem)"@),
{
}

/// Plain text is read line by line, and the note tells the modes with places from the one without.
pub proof fn law_plain_reading(t: Seq<char>, q: VisionRequestView, r: ReadingView)
    ensures
        reading_view(VisionMode::OcrOnly, t).lines == filled_lines(lines(t)),
        vision_reply(q, r, seq![]).get("note"@) == Some(
            JsonView::Text(
                if q.mode == VisionMode::OcrOnly {
                    "ocr_only: sem caixas; use fast/full para layout aproximado via TSV."@
                } else {
                    "Coordenadas vêm do OCR (TSV); alinhar com gui_screen_snapshot/gui_mouse_* no mesmo referencial da imagem analisada."@
                },
            ),
        ),
{
    reveal_strlit("note");
    assert("note"@.len() == 4);
}

} // verus!
