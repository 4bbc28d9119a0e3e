//! Words that stand on one line make an element; the elements stand in reading order.
use crate::split::{join, join_texts};
use crate::text::{byte_len, bytes_in, contains, holds, lowered, same, texts, trim, trimmed};
use crate::vision::tsv::{words_view, WordBox, WordView};
use vstd::prelude::*;

verus! {

/// What an element seems to be.
#[derive(Clone, Copy, PartialEq, Eq, Structural)]
pub enum ElementKind {
    Button,
    Input,
    TextBlock,
    Text,
}

/// The name of a kind of element.
pub open spec fn kind_name(kind: ElementKind) -> Seq<char> {
    match kind {
        ElementKind::Button => "button"@,
        ElementKind::Input => "input"@,
        ElementKind::TextBlock => "text_block"@,
        ElementKind::Text => "text"@,
    }
}

impl ElementKind {
    /// The name of a kind of element.
    pub fn name(&self) -> (r: &'static str)
        ensures
            r@ == kind_name(*self),
    {
        match self {
            ElementKind::Button => "button",
            ElementKind::Input => "input",
            ElementKind::TextBlock => "text_block",
            ElementKind::Text => "text",
        }
    }
}

/// The words of one line: their text, the box around them, and the confidence field of each, from
/// left to right.
pub struct Element {
    pub kind: ElementKind,
    pub label: String,
    pub x: i32,
    pub y: i32,
    pub w: i32,
    pub h: i32,
    pub confs: Vec<String>,
}

/// The view of an element.
pub struct ElementView {
    pub kind: ElementKind,
    pub label: Seq<char>,
    pub x: int,
    pub y: int,
    pub w: int,
    pub h: int,
    pub confs: Seq<Seq<char>>,
}

impl View for Element {
    type V = ElementView;

    open spec fn view(&self) -> ElementView {
        ElementView {
            kind: self.kind,
            label: self.label@,
            x: self.x as int,
            y: self.y as int,
            w: self.w as int,
            h: self.h as int,
            confs: texts(self.confs@),
        }
    }
}

/// The views of a list of elements.
pub open spec fn elements_view(elements: Seq<Element>) -> Seq<ElementView> {
    elements.map_values(|e: Element| e@)
}

// ---------------------------------------------------------------------------
// Grouping by line
// ---------------------------------------------------------------------------

/// Two words stand on one line.
pub open spec fn same_line(a: WordView, b: WordView) -> bool {
    a.page == b.page && a.block == b.block && a.par == b.par && a.line == b.line
}

/// The line of `a` comes before that of `b`: page by page, block by block, paragraph by paragraph.
pub open spec fn line_before(a: WordView, b: WordView) -> bool {
    if a.page != b.page {
        a.page < b.page
    } else if a.block != b.block {
        a.block < b.block
    } else if a.par != b.par {
        a.par < b.par
    } else {
        a.line < b.line
    }
}

/// Puts a word into the group of its line, and begins that group in its place where it is missing.
pub open spec fn add_to_groups(groups: Seq<Seq<WordView>>, w: WordView) -> Seq<Seq<WordView>>
    decreases groups.len(),
{
    if groups.len() == 0 {
        seq![seq![w]]
    } else if line_before(groups[0][0], w) {
        seq![groups[0]] + add_to_groups(groups.skip(1), w)
    } else if same_line(groups[0][0], w) {
        groups.update(0, groups[0].push(w))
    } else {
        seq![seq![w]] + groups
    }
}

/// The words, line by line in the order of the lines. Within a line the order of the words stays.
pub open spec fn line_groups(words: Seq<WordView>) -> Seq<Seq<WordView>>
    decreases words.len(),
{
    if words.len() == 0 {
        seq![]
    } else {
        add_to_groups(line_groups(words.drop_last()), words.last())
    }
}

/// The views of a list of groups.
pub open spec fn groups_view(groups: Seq<Vec<WordBox>>) -> Seq<Seq<WordView>> {
    groups.map_values(|g: Vec<WordBox>| words_view(g@))
}

// ---------------------------------------------------------------------------
// One line
// ---------------------------------------------------------------------------

/// Puts a word behind the last one that does not begin further right.
pub open spec fn insert_by_left(ws: Seq<WordView>, w: WordView) -> Seq<WordView>
    decreases ws.len(),
{
    if ws.len() == 0 || ws.last().left <= w.left {
        ws.push(w)
    } else {
        insert_by_left(ws.drop_last(), w).push(ws.last())
    }
}

/// The words from left to right; of words that begin at one place the order stays.
pub open spec fn by_left(ws: Seq<WordView>) -> Seq<WordView>
    decreases ws.len(),
{
    if ws.len() == 0 {
        seq![]
    } else {
        insert_by_left(by_left(ws.drop_last()), ws.last())
    }
}

/// A number cut down to the range of 32 bits with a sign.
pub open spec fn within_32_bits(n: int) -> int {
    if n < i32::MIN {
        i32::MIN as int
    } else if n > i32::MAX {
        i32::MAX as int
    } else {
        n
    }
}

pub open spec fn right_of(w: WordView) -> int {
    within_32_bits(w.left + w.width)
}

pub open spec fn bottom_of(w: WordView) -> int {
    within_32_bits(w.top + w.height)
}

/// The box around some words: left, top, right and bottom.
pub struct Bounds {
    pub left: int,
    pub top: int,
    pub right: int,
    pub bottom: int,
}

pub open spec fn least(a: int, b: int) -> int {
    if a <= b {
        a
    } else {
        b
    }
}

pub open spec fn greatest(a: int, b: int) -> int {
    if a >= b {
        a
    } else {
        b
    }
}

/// The smallest box around some words.
pub open spec fn bounds(ws: Seq<WordView>) -> Bounds
    decreases ws.len(),
{
    let w = ws.last();
    if ws.len() == 0 {
        Bounds { left: 0, top: 0, right: 0, bottom: 0 }
    } else if ws.len() == 1 {
        Bounds { left: w.left, top: w.top, right: right_of(w), bottom: bottom_of(w) }
    } else {
        let b = bounds(ws.drop_last());
        Bounds {
            left: least(b.left, w.left),
            top: least(b.top, w.top),
            right: greatest(b.right, right_of(w)),
            bottom: greatest(b.bottom, bottom_of(w)),
        }
    }
}

/// The texts of some words.
pub open spec fn word_texts(ws: Seq<WordView>) -> Seq<Seq<char>> {
    ws.map_values(|w: WordView| w.text)
}

/// The confidence fields of some words.
pub open spec fn word_confs(ws: Seq<WordView>) -> Seq<Seq<char>> {
    ws.map_values(|w: WordView| w.conf)
}

/// The text in lower case that `str::to_lowercase` gives.
pub uninterp spec fn lowercase(s: Seq<char>) -> Seq<char>;

/// `str::to_lowercase` puts a text in lower case, by the rules of Unicode. On ASCII they change the
/// letters from `A` to `Z` and nothing else; elsewhere the result is only named.
#[verifier::external_body]
pub(crate) fn to_lowercase(s: &str) -> (r: String)
    ensures
        r@ == lowercase(s@),
        (forall|i: int| 0 <= i < s@.len() ==> (#[trigger] s@[i]) as u32 <= 0x7f) ==> r@ == lowered(s@),
{
    s.to_lowercase()
}

/// What a label seems to be, by the words in its lower-case form and by its length in bytes.
pub open spec fn label_kind(low: Seq<char>, bytes: nat) -> ElementKind {
    if holds(low, "entrar"@) || holds(low, "login"@) || holds(low, "submit"@) || holds(low, "regist"@)
        || low == "ok"@ || holds(low, "continuar"@) {
        ElementKind::Button
    } else if holds(low, "email"@) || holds(low, "senha"@) || holds(low, "password"@) || holds(
        low,
        "utilizador"@,
    ) || holds(low, "username"@) || holds(low, "@"@) {
        ElementKind::Input
    } else if bytes > 80 {
        ElementKind::TextBlock
    } else {
        ElementKind::Text
    }
}

/// Tells what a label seems to be.
pub fn classify_label(low: &str, bytes: usize) -> (r: ElementKind)
    ensures
        r == label_kind(low@, bytes as nat),
{
    if contains(low, "entrar") || contains(low, "login") || contains(low, "submit") || contains(
        low,
        "regist",
    ) || same(low, "ok") || contains(low, "continuar") {
        ElementKind::Button
    } else if contains(low, "email") || contains(low, "senha") || contains(low, "password")
        || contains(low, "utilizador") || contains(low, "username") || contains(low, "@") {
        ElementKind::Input
    } else if bytes > 80 {
        ElementKind::TextBlock
    } else {
        ElementKind::Text
    }
}

/// The label of a line: the texts of its words from left to right, with blanks between them.
pub open spec fn line_label(group: Seq<WordView>) -> Seq<char> {
    trimmed(join(word_texts(by_left(group)), " "@))
}

/// The element that the words of a line make; none where their text is blank.
pub open spec fn line_element(group: Seq<WordView>) -> Option<ElementView> {
    let ws = by_left(group);
    let b = bounds(ws);
    let label = line_label(group);
    if label.len() == 0 {
        None
    } else {
        Some(
            ElementView {
                kind: label_kind(lowercase(label), byte_len(label)),
                label,
                x: b.left,
                y: b.top,
                w: within_32_bits(b.right - b.left),
                h: within_32_bits(b.bottom - b.top),
                confs: word_confs(ws),
            },
        )
    }
}

// ---------------------------------------------------------------------------
// Reading order
// ---------------------------------------------------------------------------

/// `a` stands above `b`, or at the same height and further left.
pub open spec fn reads_before(a: ElementView, b: ElementView) -> bool {
    a.y < b.y || (a.y == b.y && a.x < b.x)
}

/// Puts an element behind the last one that does not come after it.
pub open spec fn insert_by_place(es: Seq<ElementView>, e: ElementView) -> Seq<ElementView>
    decreases es.len(),
{
    if es.len() == 0 || !reads_before(e, es.last()) {
        es.push(e)
    } else {
        insert_by_place(es.drop_last(), e).push(es.last())
    }
}

/// The elements of some lines, in reading order; of elements at one place the order of the lines
/// stays.
pub open spec fn lines_elements(groups: Seq<Seq<WordView>>) -> Seq<ElementView>
    decreases groups.len(),
{
    if groups.len() == 0 {
        seq![]
    } else {
        let before = lines_elements(groups.drop_last());
        match line_element(groups.last()) {
            Some(e) => insert_by_place(before, e),
            None => before,
        }
    }
}

/// The elements that the words of an image make, in reading order.
pub open spec fn elements_of(words: Seq<WordView>) -> Seq<ElementView> {
    lines_elements(line_groups(words))
}

// ---------------------------------------------------------------------------
// The same, executable
// ---------------------------------------------------------------------------

fn copy_word(w: &WordBox) -> (r: WordBox)
    ensures
        r@ == w@,
{
    WordBox {
        page: w.page,
        block: w.block,
        par: w.par,
        line: w.line,
        left: w.left,
        top: w.top,
        width: w.width,
        height: w.height,
        conf: w.conf.clone(),
        text: w.text.clone(),
    }
}

fn comes_before(a: &WordBox, b: &WordBox) -> (r: bool)
    ensures
        r == line_before(a@, b@),
{
    if a.page != b.page {
        a.page < b.page
    } else if a.block != b.block {
        a.block < b.block
    } else if a.par != b.par {
        a.par < b.par
    } else {
        a.line < b.line
    }
}

fn on_one_line(a: &WordBox, b: &WordBox) -> (r: bool)
    ensures
        r == same_line(a@, b@),
{
    a.page == b.page && a.block == b.block && a.par == b.par && a.line == b.line
}

proof fn lemma_add_to_groups(groups: Seq<Seq<WordView>>, w: WordView, i: int)
    requires
        0 <= i <= groups.len(),
        forall|k: int| 0 <= k < i ==> line_before(#[trigger] groups[k][0], w),
    ensures
        add_to_groups(groups, w) == groups.take(i) + add_to_groups(groups.skip(i), w),
    decreases i,
{
    if i == 0 {
        assert(groups.skip(0) =~= groups);
        assert(add_to_groups(groups, w) =~= groups.take(0) + add_to_groups(groups.skip(0), w));
    } else {
        assert(line_before(groups[0][0], w));
        let rest = groups.skip(1);
        assert forall|k: int| 0 <= k < i - 1 implies line_before(#[trigger] rest[k][0], w) by {
            assert(rest[k] == groups[k + 1]);
        }
        lemma_add_to_groups(rest, w, i - 1);
        assert(rest.skip(i - 1) =~= groups.skip(i));
        assert(seq![groups[0]] + rest.take(i - 1) =~= groups.take(i));
        assert(add_to_groups(groups, w) =~= groups.take(i) + add_to_groups(groups.skip(i), w));
    }
}

fn group_word(groups: Vec<Vec<WordBox>>, w: &WordBox) -> (r: Vec<Vec<WordBox>>)
    requires
        forall|k: int| 0 <= k < groups@.len() ==> (#[trigger] groups@[k])@.len() > 0,
    ensures
        groups_view(r@) == add_to_groups(groups_view(groups@), w@),
        forall|k: int| 0 <= k < r@.len() ==> (#[trigger] r@[k])@.len() > 0,
{
    let ghost gs = groups_view(groups@);
    let mut i: usize = 0;
    while i < groups.len() && comes_before(&groups[i][0], w)
        invariant
            i <= groups@.len(),
            gs == groups_view(groups@),
            forall|k: int| 0 <= k < groups@.len() ==> (#[trigger] groups@[k])@.len() > 0,
            forall|k: int| 0 <= k < i ==> line_before(#[trigger] gs[k][0], w@),
        decreases groups@.len() - i,
    {
        assert(gs[i as int][0] == groups@[i as int]@[0]@);
        i = i + 1;
    }
    proof {
        lemma_add_to_groups(gs, w@, i as int);
    }
    let ghost rest = gs.skip(i as int);
    let mut out: Vec<Vec<WordBox>> = groups;
    if i < out.len() && on_one_line(&out[i][0], w) {
        let ghost old_group = out@[i as int]@;
        let mut group = out.remove(i);
        group.push(copy_word(w));
        let ghost new_group = group@;
        assert(words_view(new_group) =~= words_view(old_group).push(w@));
        assert(gs[i as int] == words_view(old_group));
        assert(rest[0] == gs[i as int]);
        out.insert(i, group);
        assert(groups_view(out@) =~= gs.take(i as int) + rest.update(
            0,
            words_view(old_group).push(w@),
        ));
    } else {
        let mut group: Vec<WordBox> = Vec::new();
        group.push(copy_word(w));
        let ghost new_group = group@;
        assert(words_view(new_group) =~= seq![w@]);
        if i < out.len() {
            assert(rest[0] == gs[i as int]);
            assert(gs[i as int][0] == out@[i as int]@[0]@);
        }
        out.insert(i, group);
        assert(groups_view(out@) =~= gs.take(i as int) + (seq![seq![w@]] + rest));
        assert(rest.len() == 0 ==> seq![seq![w@]] + rest =~= seq![seq![w@]]);
    }
    out
}

fn group_words(words: &[WordBox]) -> (r: Vec<Vec<WordBox>>)
    ensures
        groups_view(r@) == line_groups(words_view(words@)),
{
    let mut groups: Vec<Vec<WordBox>> = Vec::new();
    let ghost all = words_view(words@);
    assert(groups_view(groups@) =~= seq![]);
    assert(all.take(0) =~= seq![]);
    for i in 0..words.len()
        invariant
            all == words_view(words@),
            groups_view(groups@) == line_groups(all.take(i as int)),
            forall|k: int| 0 <= k < groups@.len() ==> (#[trigger] groups@[k])@.len() > 0,
    {
        assert(all.take(i + 1).drop_last() =~= all.take(i as int));
        assert(all.take(i + 1).last() == words@[i as int]@);
        groups = group_word(groups, &words[i]);
    }
    assert(all.take(words@.len() as int) =~= all);
    groups
}

proof fn lemma_insert_by_left(ws: Seq<WordView>, w: WordView, i: int)
    requires
        0 <= i <= ws.len(),
        forall|k: int| i <= k < ws.len() ==> (#[trigger] ws[k]).left > w.left,
        i > 0 ==> ws[i - 1].left <= w.left,
    ensures
        insert_by_left(ws, w) == ws.insert(i, w),
    decreases ws.len(),
{
    if i == ws.len() {
        assert(ws.push(w) =~= ws.insert(i, w));
    } else {
        assert(ws[ws.len() - 1].left > w.left);
        lemma_insert_by_left(ws.drop_last(), w, i);
        assert(ws.drop_last().insert(i, w).push(ws.last()) =~= ws.insert(i, w));
    }
}

fn sort_by_left(group: &Vec<WordBox>) -> (r: Vec<WordBox>)
    ensures
        words_view(r@) == by_left(words_view(group@)),
{
    let mut out: Vec<WordBox> = Vec::new();
    let ghost all = words_view(group@);
    assert(words_view(out@) =~= seq![]);
    assert(all.take(0) =~= seq![]);
    for n in 0..group.len()
        invariant
            all == words_view(group@),
            words_view(out@) == by_left(all.take(n as int)),
    {
        assert(all.take(n + 1).drop_last() =~= all.take(n as int));
        let word = copy_word(&group[n]);
        assert(all.take(n + 1).last() == word@);
        let mut i: usize = out.len();
        while i > 0 && out[i - 1].left > word.left
            invariant
                i <= out@.len(),
                forall|k: int| i <= k < out@.len() ==> (#[trigger] out@[k]).left > word.left,
            decreases i,
        {
            i = i - 1;
        }
        let ghost ws = words_view(out@);
        proof {
            assert forall|k: int| i <= k < ws.len() implies (#[trigger] ws[k]).left > word@.left by {
                assert(out@[k].left > word.left);
            }
            lemma_insert_by_left(ws, word@, i as int);
        }
        let ghost w = word@;
        out.insert(i, word);
        assert(words_view(out@) =~= ws.insert(i as int, w));
    }
    assert(all.take(group@.len() as int) =~= all);
    out
}

fn cut(n: i64) -> (r: i32)
    ensures
        r == within_32_bits(n as int),
{
    if n < -0x8000_0000 {
        -0x8000_0000
    } else if n > 0x7fff_ffff {
        0x7fff_ffff
    } else {
        n as i32
    }
}

fn find_bounds(ws: &Vec<WordBox>) -> (r: (i32, i32, i32, i32))
    ensures
        bounds(words_view(ws@)) == (Bounds {
            left: r.0 as int,
            top: r.1 as int,
            right: r.2 as int,
            bottom: r.3 as int,
        }),
{
    let ghost all = words_view(ws@);
    let mut left: i32 = 0;
    let mut top: i32 = 0;
    let mut right: i32 = 0;
    let mut bottom: i32 = 0;
    for i in 0..ws.len()
        invariant
            all == words_view(ws@),
            bounds(all.take(i as int)) == (Bounds {
                left: left as int,
                top: top as int,
                right: right as int,
                bottom: bottom as int,
            }),
    {
        let w = &ws[i];
        let r: i32 = cut(w.left as i64 + w.width as i64);
        let b: i32 = cut(w.top as i64 + w.height as i64);
        assert(all.take(i + 1).drop_last() =~= all.take(i as int));
        assert(all.take(i + 1).last() == w@);
        if i == 0 || w.left < left {
            left = w.left;
        }
        if i == 0 || w.top < top {
            top = w.top;
        }
        if i == 0 || r > right {
            right = r;
        }
        if i == 0 || b > bottom {
            bottom = b;
        }
    }
    assert(all.take(ws@.len() as int) =~= all);
    (left, top, right, bottom)
}

fn make_element(group: &Vec<WordBox>) -> (r: Option<Element>)
    ensures
        match r {
            Some(e) => line_element(words_view(group@)) == Some(e@),
            None => line_element(words_view(group@)) is None,
        },
{
    let ws = sort_by_left(group);
    let mut words: Vec<String> = Vec::new();
    let mut confs: Vec<String> = Vec::new();
    for i in 0..ws.len()
        invariant
            words@.len() == i,
            confs@.len() == i,
            forall|k: int| 0 <= k < i ==> (#[trigger] words@[k])@ == ws@[k].text@,
            forall|k: int| 0 <= k < i ==> (#[trigger] confs@[k])@ == ws@[k].conf@,
    {
        words.push(ws[i].text.clone());
        confs.push(ws[i].conf.clone());
    }
    assert(texts(words@) =~= word_texts(words_view(ws@)));
    assert(texts(confs@) =~= word_confs(words_view(ws@)));
    let label = trim(join_texts(&words, " ").as_str());
    if label.as_str().is_empty() {
        return None;
    }
    let (left, top, right, bottom) = find_bounds(&ws);
    let low = to_lowercase(label.as_str());
    let bytes: usize = bytes_in(label.as_str());
    Some(
        Element {
            kind: classify_label(low.as_str(), bytes),
            label,
            x: left,
            y: top,
            w: cut(right as i64 - left as i64),
            h: cut(bottom as i64 - top as i64),
            confs,
        },
    )
}

proof fn lemma_insert_by_place(es: Seq<ElementView>, e: ElementView, i: int)
    requires
        0 <= i <= es.len(),
        forall|k: int| i <= k < es.len() ==> reads_before(e, #[trigger] es[k]),
        i > 0 ==> !reads_before(e, es[i - 1]),
    ensures
        insert_by_place(es, e) == es.insert(i, e),
    decreases es.len(),
{
    if i == es.len() {
        assert(es.push(e) =~= es.insert(i, e));
    } else {
        assert(reads_before(e, es[es.len() - 1]));
        lemma_insert_by_place(es.drop_last(), e, i);
        assert(es.drop_last().insert(i, e).push(es.last()) =~= es.insert(i, e));
    }
}

/// Merges the words of each line to an element.
pub fn merge_words_to_elements(words: &[WordBox]) -> (r: Vec<Element>)
    ensures
        elements_view(r@) == elements_of(words_view(words@)),
{
    let groups = group_words(words);
    let ghost all = groups_view(groups@);
    let mut out: Vec<Element> = Vec::new();
    assert(elements_view(out@) =~= seq![]);
    assert(all.take(0) =~= seq![]);
    for n in 0..groups.len()
        invariant
            all == groups_view(groups@),
            elements_view(out@) == lines_elements(all.take(n as int)),
    {
        assert(all.take(n + 1).drop_last() =~= all.take(n as int));
        assert(all.take(n + 1).last() == words_view(groups@[n as int]@));
        if let Some(e) = make_element(&groups[n]) {
            let mut i: usize = out.len();
            while i > 0 && (e.y < out[i - 1].y || (e.y == out[i - 1].y && e.x < out[i - 1].x))
                invariant
                    i <= out@.len(),
                    forall|k: int| i <= k < out@.len() ==> reads_before(e@, (#[trigger] out@[k])@),
                decreases i,
            {
                i = i - 1;
            }
            let ghost es = elements_view(out@);
            let ghost ev = e@;
            proof {
                assert forall|k: int| i <= k < es.len() implies reads_before(
                    ev,
                    #[trigger] es[k],
                ) by {
                    assert(reads_before(ev, out@[k]@));
                }
                lemma_insert_by_place(es, ev, i as int);
            }
            out.insert(i, e);
            assert(elements_view(out@) =~= es.insert(i as int, ev));
        }
    }
    assert(all.take(groups@.len() as int) =~= all);
    out
}

// ---------------------------------------------------------------------------
// Laws
// ---------------------------------------------------------------------------

/// The groups of a page: none is empty, the words of each stand on one line, and the lines follow
/// one another.
pub open spec fn grouped(groups: Seq<Seq<WordView>>) -> bool {
    &&& forall|g: int| 0 <= g < groups.len() ==> (#[trigger] groups[g]).len() > 0
    &&& forall|g: int, k: int|
        0 <= g < groups.len() && 0 <= k < groups[g].len() ==> same_line(
            groups[g][0],
            #[trigger] groups[g][k],
        )
    &&& forall|g: int, h: int|
        0 <= g < h < groups.len() ==> line_before(#[trigger] groups[g][0], #[trigger] groups[h][0])
}

/// A word stands in one of the groups.
pub open spec fn placed(groups: Seq<Seq<WordView>>, w: WordView) -> bool {
    exists|g: int, k: int|
        0 <= g < groups.len() && 0 <= k < groups[g].len() && #[trigger] groups[g][k] == w
}

proof fn lemma_add_grouped(groups: Seq<Seq<WordView>>, w: WordView)
    requires
        grouped(groups),
    ensures
        grouped(add_to_groups(groups, w)),
        placed(add_to_groups(groups, w), w),
        forall|v: WordView| placed(groups, v) ==> placed(add_to_groups(groups, w), v),
        add_to_groups(groups, w).len() > 0,
        groups.len() > 0 && line_before(groups[0][0], w) ==> add_to_groups(groups, w)[0]
            == groups[0],
        groups.len() > 0 && !line_before(groups[0][0], w) ==> same_line(
            add_to_groups(groups, w)[0][0],
            w,
        ),
        groups.len() == 0 ==> add_to_groups(groups, w)[0][0] == w,
    decreases groups.len(),
{
    let out = add_to_groups(groups, w);
    if groups.len() == 0 {
        assert(out[0][0] == w);
    } else if line_before(groups[0][0], w) {
        let rest = groups.skip(1);
        assert forall|g: int| 0 <= g < rest.len() implies rest[g] == #[trigger] groups[g + 1] by {}
        assert(grouped(rest)) by {
            assert forall|g: int, k: int|
                0 <= g < rest.len() && 0 <= k < rest[g].len() implies same_line(
                rest[g][0],
                #[trigger] rest[g][k],
            ) by {
                assert(rest[g][k] == groups[g + 1][k]);
            }
            assert forall|g: int, h: int| 0 <= g < h < rest.len() implies line_before(
                #[trigger] rest[g][0],
                #[trigger] rest[h][0],
            ) by {
                assert(line_before(groups[g + 1][0], groups[h + 1][0]));
            }
        }
        lemma_add_grouped(rest, w);
        let tail = add_to_groups(rest, w);
        assert(out =~= seq![groups[0]] + tail);
        assert forall|g: int| 1 <= g < out.len() implies #[trigger] out[g] == tail[g - 1] by {}
        assert(grouped(out)) by {
            assert forall|g: int, k: int|
                0 <= g < out.len() && 0 <= k < out[g].len() implies same_line(
                out[g][0],
                #[trigger] out[g][k],
            ) by {
                if g == 0 {
                    assert(same_line(groups[0][0], groups[0][k]));
                } else {
                    assert(same_line(tail[g - 1][0], tail[g - 1][k]));
                }
            }
            assert(line_before(groups[0][0], tail[0][0])) by {
                if rest.len() > 0 {
                    assert(line_before(groups[0][0], groups[1][0]));
                    assert(rest[0] == groups[1]);
                }
            }
            assert forall|g: int, h: int| 0 <= g < h < out.len() implies line_before(
                #[trigger] out[g][0],
                #[trigger] out[h][0],
            ) by {
                if g > 0 {
                    assert(line_before(tail[g - 1][0], tail[h - 1][0]));
                } else if h > 1 {
                    assert(line_before(tail[0][0], tail[h - 1][0]));
                }
            }
        }
        assert forall|v: WordView| placed(tail, v) implies placed(out, v) by {
            let (g, k) = choose|g: int, k: int|
                0 <= g < tail.len() && 0 <= k < tail[g].len() && #[trigger] tail[g][k] == v;
            assert(out[g + 1][k] == v);
        }
        assert forall|v: WordView| placed(groups, v) implies placed(out, v) by {
            let (g, k) = choose|g: int, k: int|
                0 <= g < groups.len() && 0 <= k < groups[g].len() && #[trigger] groups[g][k] == v;
            if g == 0 {
                assert(out[0][k] == v);
            } else {
                assert(rest[g - 1][k] == v);
                assert(placed(rest, v));
            }
        }
    } else if same_line(groups[0][0], w) {
        let n = groups[0].len() as int;
        assert(out[0][n] == w);
        assert(grouped(out)) by {
            assert forall|g: int, k: int|
                0 <= g < out.len() && 0 <= k < out[g].len() implies same_line(
                out[g][0],
                #[trigger] out[g][k],
            ) by {
                if g > 0 || k < n {
                    assert(same_line(groups[g][0], groups[g][k]));
                }
            }
            assert forall|g: int, h: int| 0 <= g < h < out.len() implies line_before(
                #[trigger] out[g][0],
                #[trigger] out[h][0],
            ) by {
                assert(line_before(groups[g][0], groups[h][0]));
            }
        }
        assert forall|v: WordView| placed(groups, v) implies placed(out, v) by {
            let (g, k) = choose|g: int, k: int|
                0 <= g < groups.len() && 0 <= k < groups[g].len() && #[trigger] groups[g][k] == v;
            assert(out[g][k] == v);
        }
    } else {
        assert(out[0][0] == w);
        assert forall|g: int| 1 <= g < out.len() implies #[trigger] out[g] == groups[g - 1] by {}
        assert(grouped(out)) by {
            assert forall|g: int, k: int|
                0 <= g < out.len() && 0 <= k < out[g].len() implies same_line(
                out[g][0],
                #[trigger] out[g][k],
            ) by {
                if g > 0 {
                    assert(same_line(groups[g - 1][0], groups[g - 1][k]));
                }
            }
            assert forall|g: int, h: int| 0 <= g < h < out.len() implies line_before(
                #[trigger] out[g][0],
                #[trigger] out[h][0],
            ) by {
                if g > 0 {
                    assert(line_before(groups[g - 1][0], groups[h - 1][0]));
                } else if h > 1 {
                    assert(line_before(groups[0][0], groups[h - 1][0]));
                }
            }
        }
        assert forall|v: WordView| placed(groups, v) implies placed(out, v) by {
            let (g, k) = choose|g: int, k: int|
                0 <= g < groups.len() && 0 <= k < groups[g].len() && #[trigger] groups[g][k] == v;
            assert(out[g + 1][k] == v);
        }
    }
}

/// The words that stand on the line of `w`, in their order.
pub open spec fn words_on_line(words: Seq<WordView>, w: WordView) -> Seq<WordView>
    decreases words.len(),
{
    if words.len() == 0 {
        seq![]
    } else if same_line(words.last(), w) {
        words_on_line(words.drop_last(), w).push(words.last())
    } else {
        words_on_line(words.drop_last(), w)
    }
}

/// Each group holds just the words of its line, in the order of the words.
pub open spec fn groups_keep_order(groups: Seq<Seq<WordView>>, words: Seq<WordView>) -> bool {
    forall|g: int|
        0 <= g < groups.len() ==> #[trigger] groups[g] == words_on_line(words, groups[g][0])
}

proof fn lemma_words_on_line(words: Seq<WordView>, v: WordView, w: WordView)
    requires
        same_line(v, w),
    ensures
        words_on_line(words, v) == words_on_line(words, w),
    decreases words.len(),
{
    if words.len() > 0 {
        lemma_words_on_line(words.drop_last(), v, w);
    }
}

/// A line none of whose words came yet has no words.
proof fn lemma_no_words_on_line(words: Seq<WordView>, w: WordView)
    requires
        forall|i: int| 0 <= i < words.len() ==> !same_line(#[trigger] words[i], w),
    ensures
        words_on_line(words, w) =~= seq![],
    decreases words.len(),
{
    if words.len() > 0 {
        let init = words.drop_last();
        assert forall|i: int| 0 <= i < init.len() implies !same_line(#[trigger] init[i], w) by {
            assert(init[i] == words[i]);
        }
        assert(!same_line(words[words.len() - 1], w));
        lemma_no_words_on_line(init, w);
    }
}

/// What adding a word does to each group: the group of its line gets it at its end, or begins with
/// it, and the others stay.
proof fn lemma_add_group(groups: Seq<Seq<WordView>>, w: WordView, h: int)
    requires
        grouped(groups),
        0 <= h < add_to_groups(groups, w).len(),
    ensures
        ({
            let out = add_to_groups(groups, w)[h];
            if same_line(out[0], w) {
                ||| out == seq![w] && forall|g: int|
                    0 <= g < groups.len() ==> !same_line(#[trigger] groups[g][0], w)
                ||| exists|g: int|
                    0 <= g < groups.len() && same_line(groups[g][0], w) && out
                        == #[trigger] groups[g].push(w)
            } else {
                exists|g: int| 0 <= g < groups.len() && out == #[trigger] groups[g]
            }
        }),
    decreases groups.len(),
{
    let all = add_to_groups(groups, w);
    let out = all[h];
    if groups.len() == 0 {
        assert(out == seq![w]);
    } else if line_before(groups[0][0], w) {
        let rest = groups.skip(1);
        if h == 0 {
            assert(out == groups[0]);
        } else {
            lemma_rest_grouped(groups);
            lemma_add_group(rest, w, h - 1);
            assert(out == add_to_groups(rest, w)[h - 1]);
            if same_line(out[0], w) {
                if exists|g: int|
                    0 <= g < rest.len() && same_line(rest[g][0], w) && out == #[trigger] rest[
                        g
                    ].push(w) {
                    let g = choose|g: int|
                        0 <= g < rest.len() && same_line(rest[g][0], w) && out == #[trigger] rest[
                            g
                        ].push(w);
                    assert(groups[g + 1] == rest[g]);
                    assert(out == groups[g + 1].push(w));
                } else {
                    assert forall|g: int| 0 <= g < groups.len() implies !same_line(
                        #[trigger] groups[g][0],
                        w,
                    ) by {
                        if g > 0 {
                            assert(rest[g - 1] == groups[g]);
                            assert(!same_line(rest[g - 1][0], w));
                        }
                    }
                }
            } else {
                let g = choose|g: int| 0 <= g < rest.len() && out == #[trigger] rest[g];
                assert(groups[g + 1] == out);
            }
        }
    } else if same_line(groups[0][0], w) {
        if h == 0 {
            assert(out == groups[0].push(w));
        } else {
            assert(out == groups[h]);
            assert(line_before(groups[0][0], groups[h][0]));
        }
    } else {
        if h == 0 {
            assert(out == seq![w]);
            assert forall|g: int| 0 <= g < groups.len() implies !same_line(
                #[trigger] groups[g][0],
                w,
            ) by {
                if g > 0 {
                    assert(line_before(groups[0][0], groups[g][0]));
                }
            }
        } else {
            assert(out == groups[h - 1]);
            if h > 1 {
                assert(line_before(groups[0][0], groups[h - 1][0]));
            }
        }
    }
}

/// Within a line the order in which the words came stays: each group is just the words of its line,
/// in that order.
pub proof fn law_order_within_a_line(words: Seq<WordView>)
    ensures
        groups_keep_order(line_groups(words), words),
    decreases words.len(),
{
    if words.len() > 0 {
        let before = words.drop_last();
        let w = words.last();
        let groups = line_groups(before);
        law_order_within_a_line(before);
        law_words_by_line(before);
        let out = line_groups(words);
        assert forall|h: int| 0 <= h < out.len() implies #[trigger] out[h] == words_on_line(
            words,
            out[h][0],
        ) by {
            lemma_add_group(groups, w, h);
            if same_line(out[h][0], w) {
                if out[h] == seq![w] && forall|g: int|
                    0 <= g < groups.len() ==> !same_line(#[trigger] groups[g][0], w) {
                    assert forall|i: int| 0 <= i < before.len() implies !same_line(
                        #[trigger] before[i],
                        w,
                    ) by {
                        assert(placed(groups, before[i]));
                        let (g, k) = choose|g: int, k: int|
                            0 <= g < groups.len() && 0 <= k < groups[g].len()
                                && #[trigger] groups[g][k] == before[i];
                        assert(same_line(groups[g][0], groups[g][k]));
                        assert(!same_line(groups[g][0], w));
                    }
                    lemma_no_words_on_line(before, w);
                    assert(words_on_line(words, w) =~= seq![w]);
                } else {
                    let g = choose|g: int|
                        0 <= g < groups.len() && same_line(groups[g][0], w) && out[h]
                            == #[trigger] groups[g].push(w);
                    assert(groups[g] == words_on_line(before, groups[g][0]));
                    assert(groups[g].len() > 0);
                    assert(out[h][0] == groups[g][0]);
                }
            } else {
                let g = choose|g: int| 0 <= g < groups.len() && out[h] == #[trigger] groups[g];
                assert(groups[g] == words_on_line(before, groups[g][0]));
            }
        }
    }
}

/// Grouping loses no word, puts together only words of one line, makes one group of each line, and
/// puts the groups in the order of the lines.
pub proof fn law_words_by_line(words: Seq<WordView>)
    ensures
        grouped(line_groups(words)),
        forall|i: int| 0 <= i < words.len() ==> placed(line_groups(words), #[trigger] words[i]),
    decreases words.len(),
{
    if words.len() > 0 {
        let before = words.drop_last();
        law_words_by_line(before);
        lemma_add_grouped(line_groups(before), words.last());
        assert forall|i: int| 0 <= i < words.len() implies placed(
            line_groups(words),
            #[trigger] words[i],
        ) by {
            if i < before.len() {
                assert(before[i] == words[i]);
                assert(placed(line_groups(before), before[i]));
            }
        }
    }
}

proof fn lemma_insert_by_left_keeps(ws: Seq<WordView>, w: WordView)
    ensures
        insert_by_left(ws, w).to_multiset() == ws.to_multiset().insert(w),
        insert_by_left(ws, w).len() == ws.len() + 1,
    decreases ws.len(),
{
    broadcast use vstd::seq_lib::group_to_multiset_ensures;

    if ws.len() > 0 && ws.last().left > w.left {
        lemma_insert_by_left_keeps(ws.drop_last(), w);
        assert(ws.drop_last().push(ws.last()) =~= ws);
        assert(insert_by_left(ws, w).to_multiset() =~= ws.to_multiset().insert(w));
    }
}

/// The words of a line stand from left to right.
pub open spec fn left_to_right(ws: Seq<WordView>) -> bool {
    forall|i: int, j: int|
        0 <= i <= j < ws.len() ==> (#[trigger] ws[i]).left <= (#[trigger] ws[j]).left
}

proof fn lemma_insert_by_left_sorted(ws: Seq<WordView>, w: WordView)
    requires
        left_to_right(ws),
    ensures
        left_to_right(insert_by_left(ws, w)),
        forall|k: int|
            0 <= k < insert_by_left(ws, w).len() ==> (#[trigger] insert_by_left(ws, w)[k]).left
                <= w.left || (ws.len() > 0 && insert_by_left(ws, w)[k].left <= ws.last().left),
    decreases ws.len(),
{
    if ws.len() > 0 && ws.last().left > w.left {
        let init = ws.drop_last();
        lemma_insert_by_left_sorted(init, w);
        let out = insert_by_left(init, w);
        if init.len() > 0 {
            assert(init.last() == ws[ws.len() - 2]);
            assert(ws[ws.len() - 2].left <= ws[ws.len() - 1].left);
        }
        assert forall|k: int| 0 <= k < out.len() implies (#[trigger] out[k]).left
            <= ws.last().left by {}
    }
}

/// Sorting a line keeps its words and puts them from left to right.
pub proof fn law_line_sorted(ws: Seq<WordView>)
    ensures
        by_left(ws).to_multiset() == ws.to_multiset(),
        left_to_right(by_left(ws)),
    decreases ws.len(),
{
    broadcast use vstd::seq_lib::group_to_multiset_ensures;

    if ws.len() > 0 {
        law_line_sorted(ws.drop_last());
        lemma_insert_by_left_keeps(by_left(ws.drop_last()), ws.last());
        lemma_insert_by_left_sorted(by_left(ws.drop_last()), ws.last());
        assert(ws.drop_last().push(ws.last()) =~= ws);
    }
}

/// The box around some words holds each of them.
pub proof fn law_box_holds_words(ws: Seq<WordView>, k: int)
    requires
        0 <= k < ws.len(),
    ensures
        bounds(ws).left <= ws[k].left,
        bounds(ws).top <= ws[k].top,
        right_of(ws[k]) <= bounds(ws).right,
        bottom_of(ws[k]) <= bounds(ws).bottom,
    decreases ws.len(),
{
    if ws.len() > 1 && k < ws.len() - 1 {
        law_box_holds_words(ws.drop_last(), k);
    }
}

/// The box around some words is the smallest: each of its sides lies at a word, and it lies within
/// every box that holds the words.
pub proof fn law_box_is_smallest(ws: Seq<WordView>, other: Bounds)
    requires
        ws.len() > 0,
        forall|k: int|
            0 <= k < ws.len() ==> {
                &&& other.left <= (#[trigger] ws[k]).left
                &&& other.top <= ws[k].top
                &&& right_of(ws[k]) <= other.right
                &&& bottom_of(ws[k]) <= other.bottom
            },
    ensures
        exists|k: int| 0 <= k < ws.len() && (#[trigger] ws[k]).left == bounds(ws).left,
        exists|k: int| 0 <= k < ws.len() && (#[trigger] ws[k]).top == bounds(ws).top,
        exists|k: int| 0 <= k < ws.len() && right_of(#[trigger] ws[k]) == bounds(ws).right,
        exists|k: int| 0 <= k < ws.len() && bottom_of(#[trigger] ws[k]) == bounds(ws).bottom,
        other.left <= bounds(ws).left,
        other.top <= bounds(ws).top,
        bounds(ws).right <= other.right,
        bounds(ws).bottom <= other.bottom,
    decreases ws.len(),
{
    let n = ws.len() - 1;
    assert(ws[n] == ws.last());
    if n > 0 {
        let init = ws.drop_last();
        assert forall|k: int| 0 <= k < init.len() implies {
            &&& other.left <= (#[trigger] init[k]).left
            &&& other.top <= init[k].top
            &&& right_of(init[k]) <= other.right
            &&& bottom_of(init[k]) <= other.bottom
        } by {
            assert(init[k] == ws[k]);
        }
        law_box_is_smallest(init, other);
        let a = choose|k: int| 0 <= k < init.len() && (#[trigger] init[k]).left == bounds(init).left;
        let b = choose|k: int| 0 <= k < init.len() && (#[trigger] init[k]).top == bounds(init).top;
        let c = choose|k: int|
            0 <= k < init.len() && right_of(#[trigger] init[k]) == bounds(init).right;
        let d = choose|k: int|
            0 <= k < init.len() && bottom_of(#[trigger] init[k]) == bounds(init).bottom;
        assert(ws[a] == init[a] && ws[b] == init[b] && ws[c] == init[c] && ws[d] == init[d]);
    }
}

/// The elements stand in reading order.
pub open spec fn in_reading_order(es: Seq<ElementView>) -> bool {
    forall|i: int, j: int|
        0 <= i < j < es.len() ==> !reads_before(#[trigger] es[j], #[trigger] es[i])
}

proof fn lemma_insert_by_place_sorted(es: Seq<ElementView>, e: ElementView)
    requires
        in_reading_order(es),
    ensures
        in_reading_order(insert_by_place(es, e)),
        forall|k: int|
            0 <= k < insert_by_place(es, e).len() ==> (#[trigger] insert_by_place(es, e)[k]) == e
                || es.contains(insert_by_place(es, e)[k]),
    decreases es.len(),
{
    let out = insert_by_place(es, e);
    if es.len() == 0 || !reads_before(e, es.last()) {
        assert forall|i: int, j: int| 0 <= i < j < out.len() implies !reads_before(
            #[trigger] out[j],
            #[trigger] out[i],
        ) by {
            if j == es.len() && i < es.len() - 1 {
                assert(!reads_before(es[es.len() - 1], es[i]));
            }
        }
        assert forall|k: int| 0 <= k < out.len() implies #[trigger] out[k] == e || es.contains(
            out[k],
        ) by {
            if k < es.len() {
                assert(es[k] == out[k]);
            }
        }
    } else {
        let init = es.drop_last();
        lemma_insert_by_place_sorted(init, e);
        let tail = insert_by_place(init, e);
        assert forall|k: int| 0 <= k < tail.len() implies !reads_before(
            es.last(),
            #[trigger] tail[k],
        ) && (tail[k] == e || es.contains(tail[k])) by {
            if tail[k] != e {
                let m = choose|m: int| 0 <= m < init.len() && init[m] == tail[k];
                assert(es[m] == tail[k]);
                assert(!reads_before(es[es.len() - 1], es[m]));
            }
        }
        assert(es[es.len() - 1] == es.last());
    }
}

/// Elements come from the top to the bottom, and at one height from left to right.
pub proof fn law_reading_order(words: Seq<WordView>)
    ensures
        in_reading_order(elements_of(words)),
{
    lemma_lines_elements_sorted(line_groups(words));
}

proof fn lemma_lines_elements_sorted(groups: Seq<Seq<WordView>>)
    ensures
        in_reading_order(lines_elements(groups)),
    decreases groups.len(),
{
    if groups.len() > 0 {
        lemma_lines_elements_sorted(groups.drop_last());
        if let Some(e) = line_element(groups.last()) {
            lemma_insert_by_place_sorted(lines_elements(groups.drop_last()), e);
        }
    }
}

/// How often a word stands in some groups.
spec fn count_in(groups: Seq<Seq<WordView>>, v: WordView) -> nat
    decreases groups.len(),
{
    if groups.len() == 0 {
        0
    } else {
        groups[0].to_multiset().count(v) + count_in(groups.skip(1), v)
    }
}

proof fn lemma_add_counts(groups: Seq<Seq<WordView>>, w: WordView, v: WordView)
    ensures
        count_in(add_to_groups(groups, w), v) == count_in(groups, v) + (if v == w {
            1nat
        } else {
            0
        }),
    decreases groups.len(),
{
    broadcast use vstd::seq_lib::group_to_multiset_ensures;

    let out = add_to_groups(groups, w);
    let more: nat = if v == w {
        1
    } else {
        0
    };
    let none = Seq::<WordView>::empty();
    assert(none.push(w) =~= seq![w]);
    assert(none.to_multiset().count(v) == 0);
    assert(seq![w].to_multiset().count(v) == more);
    assert(count_in(out, v) == out[0].to_multiset().count(v) + count_in(out.skip(1), v));
    if groups.len() == 0 {
        assert(out.skip(1) =~= seq![]);
        assert(count_in(seq![], v) == 0);
    } else if line_before(groups[0][0], w) {
        lemma_add_counts(groups.skip(1), w, v);
        assert(out.skip(1) =~= add_to_groups(groups.skip(1), w));
    } else if same_line(groups[0][0], w) {
        assert(out.skip(1) =~= groups.skip(1));
        assert(out[0] == groups[0].push(w));
        assert(out[0].to_multiset() == groups[0].to_multiset().insert(w));
    } else {
        assert(out.skip(1) =~= groups);
    }
}

proof fn lemma_group_counts(words: Seq<WordView>, v: WordView)
    ensures
        count_in(line_groups(words), v) == words.to_multiset().count(v),
    decreases words.len(),
{
    broadcast use vstd::seq_lib::group_to_multiset_ensures;

    if words.len() > 0 {
        lemma_group_counts(words.drop_last(), v);
        lemma_add_counts(line_groups(words.drop_last()), words.last(), v);
        assert(words.drop_last().push(words.last()) =~= words);
    }
}

proof fn lemma_other_lines(groups: Seq<Seq<WordView>>, v: WordView)
    requires
        grouped(groups),
        forall|g: int| 0 <= g < groups.len() ==> !same_line(#[trigger] groups[g][0], v),
    ensures
        count_in(groups, v) == 0,
    decreases groups.len(),
{
    broadcast use vstd::seq_lib::group_to_multiset_ensures;

    if groups.len() > 0 {
        lemma_rest_grouped(groups);
        let rest = groups.skip(1);
        assert forall|g: int| 0 <= g < rest.len() implies !same_line(#[trigger] rest[g][0], v) by {
            assert(rest[g] == groups[g + 1]);
        }
        lemma_other_lines(rest, v);
        if groups[0].to_multiset().count(v) > 0 {
            assert(groups[0].contains(v));
            let k = choose|k: int| 0 <= k < groups[0].len() && groups[0][k] == v;
            assert(same_line(groups[0][0], groups[0][k]));
        }
    }
}

proof fn lemma_rest_grouped(groups: Seq<Seq<WordView>>)
    requires
        grouped(groups),
        groups.len() > 0,
    ensures
        grouped(groups.skip(1)),
{
    let rest = groups.skip(1);
    assert forall|g: int| 0 <= g < rest.len() implies (#[trigger] rest[g]).len() > 0 by {
        assert(rest[g] == groups[g + 1]);
    }
    assert forall|g: int, k: int| 0 <= g < rest.len() && 0 <= k < rest[g].len() implies same_line(
        rest[g][0],
        #[trigger] rest[g][k],
    ) by {
        assert(rest[g][k] == groups[g + 1][k]);
    }
    assert forall|g: int, h: int| 0 <= g < h < rest.len() implies line_before(
        #[trigger] rest[g][0],
        #[trigger] rest[h][0],
    ) by {
        assert(line_before(groups[g + 1][0], groups[h + 1][0]));
    }
}

proof fn lemma_line_count(groups: Seq<Seq<WordView>>, g: int, v: WordView)
    requires
        grouped(groups),
        0 <= g < groups.len(),
        same_line(groups[g][0], v),
    ensures
        count_in(groups, v) == groups[g].to_multiset().count(v),
    decreases groups.len(),
{
    broadcast use vstd::seq_lib::group_to_multiset_ensures;

    let rest = groups.skip(1);
    lemma_rest_grouped(groups);
    if g == 0 {
        assert forall|h: int| 0 <= h < rest.len() implies !same_line(#[trigger] rest[h][0], v) by {
            assert(rest[h] == groups[h + 1]);
            assert(line_before(groups[0][0], groups[h + 1][0]));
        }
        lemma_other_lines(rest, v);
    } else {
        assert(rest[g - 1] == groups[g]);
        lemma_line_count(rest, g - 1, v);
        assert(line_before(groups[0][0], groups[g][0]));
        if groups[0].to_multiset().count(v) > 0 {
            assert(groups[0].contains(v));
            let k = choose|k: int| 0 <= k < groups[0].len() && groups[0][k] == v;
            assert(same_line(groups[0][0], groups[0][k]));
        }
    }
}

/// One of the groups is that of the line of a word.
spec fn has_line(groups: Seq<Seq<WordView>>, w: WordView) -> bool {
    exists|h: int| 0 <= h < groups.len() && same_line(w, #[trigger] groups[h][0])
}

/// Each line of the first groups is one of the second.
spec fn lines_within(a: Seq<Seq<WordView>>, b: Seq<Seq<WordView>>) -> bool {
    forall|g: int| 0 <= g < a.len() ==> #[trigger] has_line(b, a[g][0])
}

proof fn lemma_lines_within(a: Seq<WordView>, b: Seq<WordView>)
    requires
        a.to_multiset() == b.to_multiset(),
    ensures
        lines_within(line_groups(a), line_groups(b)),
{
    broadcast use vstd::seq_lib::group_to_multiset_ensures;

    let x = line_groups(a);
    let y = line_groups(b);
    law_words_by_line(a);
    law_words_by_line(b);
    assert forall|g: int| 0 <= g < x.len() implies #[trigger] has_line(y, x[g][0]) by {
        let v = x[g][0];
        lemma_line_count(x, g, v);
        lemma_group_counts(a, v);
        assert(x[g].len() > 0);
        assert(x[g].contains(v));
        assert(b.to_multiset().count(v) > 0);
        assert(b.contains(v));
        let i = choose|i: int| 0 <= i < b.len() && b[i] == v;
        assert(placed(y, b[i]));
        let (h, k) = choose|h: int, k: int|
            0 <= h < y.len() && 0 <= k < y[h].len() && #[trigger] y[h][k] == v;
        assert(same_line(y[h][0], y[h][k]));
        assert(same_line(x[g][0], y[h][0]));
    }
}

proof fn lemma_same_lines(x: Seq<Seq<WordView>>, y: Seq<Seq<WordView>>, g: int)
    requires
        grouped(x),
        grouped(y),
        lines_within(x, y),
        lines_within(y, x),
        0 <= g < x.len(),
    ensures
        g < y.len(),
        same_line(x[g][0], y[g][0]),
    decreases g,
{
    assert(has_line(y, x[g][0]));
    let j = choose|j: int| 0 <= j < y.len() && same_line(x[g][0], #[trigger] y[j][0]);
    if j < g {
        lemma_same_lines(x, y, j);
        assert(line_before(x[j][0], x[g][0]));
    } else if j > g {
        assert(has_line(x, y[g][0]));
        let i = choose|i: int| 0 <= i < x.len() && same_line(y[g][0], #[trigger] x[i][0]);
        assert(line_before(y[g][0], y[j][0]));
        if i < g {
            lemma_same_lines(x, y, i);
            assert(line_before(y[i][0], y[g][0]));
        } else if i > g {
            assert(line_before(x[g][0], x[i][0]));
        }
    }
}

/// Words that begin at one place are the same word.
spec fn one_word_at_a_place(ws: Seq<WordView>) -> bool {
    forall|i: int, j: int|
        0 <= i < ws.len() && 0 <= j < ws.len() && (#[trigger] ws[i]).left == (#[trigger] ws[j]).left
            ==> ws[i] == ws[j]
}

proof fn lemma_one_order(x: Seq<WordView>, y: Seq<WordView>)
    requires
        left_to_right(x),
        left_to_right(y),
        x.to_multiset() == y.to_multiset(),
        one_word_at_a_place(x),
    ensures
        x == y,
    decreases x.len(),
{
    broadcast use vstd::seq_lib::group_to_multiset_ensures;

    assert(x.to_multiset().len() == x.len());
    assert(y.to_multiset().len() == y.len());
    if x.len() == 0 {
        assert(x =~= y);
    } else {
        let a = x.last();
        let b = y.last();
        assert(x.contains(a));
        assert(y.contains(b));
        assert(x.to_multiset().count(a) > 0);
        assert(y.to_multiset().count(b) > 0);
        assert(y.contains(a));
        assert(x.contains(b));
        let j = choose|j: int| 0 <= j < y.len() && y[j] == a;
        let i = choose|i: int| 0 <= i < x.len() && x[i] == b;
        assert(y[j].left <= y[y.len() - 1].left);
        assert(x[i].left <= x[x.len() - 1].left);
        assert(x[i] == x[x.len() - 1]);
        let u = x.drop_last();
        let v = y.drop_last();
        assert(u.push(a) =~= x);
        assert(v.push(b) =~= y);
        assert(u.to_multiset() =~= x.to_multiset().remove(a));
        assert(v.to_multiset() =~= y.to_multiset().remove(b));
        lemma_one_order(u, v);
    }
}

proof fn lemma_same_elements(x: Seq<Seq<WordView>>, y: Seq<Seq<WordView>>)
    requires
        x.len() == y.len(),
        forall|g: int| 0 <= g < x.len() ==> line_element(#[trigger] x[g]) == line_element(y[g]),
    ensures
        lines_elements(x) == lines_elements(y),
    decreases x.len(),
{
    if x.len() > 0 {
        assert forall|g: int| 0 <= g < x.len() - 1 implies line_element(#[trigger] x.drop_last()[g])
            == line_element(y.drop_last()[g]) by {
            assert(line_element(x[g]) == line_element(y[g]));
        }
        lemma_same_elements(x.drop_last(), y.drop_last());
        assert(line_element(x[x.len() - 1]) == line_element(y[x.len() - 1]));
    }
}

/// No two different words of one line begin at the same place.
pub open spec fn places_differ(words: Seq<WordView>) -> bool {
    forall|v: WordView, w: WordView|
        words.contains(v) && words.contains(w) && #[trigger] same_line(v, w) && v.left == w.left
            ==> v == w
}

proof fn lemma_same_line_words(a: Seq<WordView>, b: Seq<WordView>, g: int)
    requires
        a.to_multiset() == b.to_multiset(),
        0 <= g < line_groups(a).len(),
        g < line_groups(b).len(),
        same_line(line_groups(a)[g][0], line_groups(b)[g][0]),
    ensures
        line_groups(a)[g].to_multiset() == line_groups(b)[g].to_multiset(),
{
    let x = line_groups(a);
    let y = line_groups(b);
    law_words_by_line(a);
    law_words_by_line(b);
    assert forall|v: WordView| #[trigger] x[g].to_multiset().count(v) == y[g].to_multiset().count(
        v,
    ) by {
        if same_line(x[g][0], v) {
            lemma_line_count(x, g, v);
            lemma_line_count(y, g, v);
            lemma_group_counts(a, v);
            lemma_group_counts(b, v);
        } else {
            lemma_not_of_line(x, g, v);
            lemma_not_of_line(y, g, v);
        }
    }
    assert(x[g].to_multiset() =~= y[g].to_multiset());
}

proof fn lemma_same_line_element(a: Seq<WordView>, b: Seq<WordView>, g: int)
    requires
        a.to_multiset() == b.to_multiset(),
        places_differ(a),
        0 <= g < line_groups(a).len(),
        g < line_groups(b).len(),
        same_line(line_groups(a)[g][0], line_groups(b)[g][0]),
    ensures
        line_element(line_groups(a)[g]) == line_element(line_groups(b)[g]),
{
    lemma_same_line_words(a, b, g);
    law_line_sorted(line_groups(a)[g]);
    law_line_sorted(line_groups(b)[g]);
    let p = by_left(line_groups(a)[g]);
    let q = by_left(line_groups(b)[g]);
    assert forall|i: int, j: int|
        0 <= i < p.len() && 0 <= j < p.len() && (#[trigger] p[i]).left == (
        #[trigger] p[j]).left implies p[i] == p[j] by {
        assert(p.contains(p[i]));
        assert(p.contains(p[j]));
        lemma_word_of_line(a, g, p[i]);
        lemma_word_of_line(a, g, p[j]);
        assert(same_line(p[i], p[j]));
    }
    lemma_one_order(p, q);
}

/// The elements do not depend on the order in which the words come, where no two different words of
/// one line begin at the same place.
pub proof fn law_order_of_words_is_free(a: Seq<WordView>, b: Seq<WordView>)
    requires
        a.to_multiset() == b.to_multiset(),
        places_differ(a),
    ensures
        elements_of(a) == elements_of(b),
{
    let x = line_groups(a);
    let y = line_groups(b);
    law_words_by_line(a);
    law_words_by_line(b);
    lemma_lines_within(a, b);
    lemma_lines_within(b, a);
    if x.len() > 0 {
        lemma_same_lines(x, y, x.len() - 1);
    }
    if y.len() > 0 {
        lemma_same_lines(y, x, y.len() - 1);
    }
    assert forall|g: int| 0 <= g < x.len() implies line_element(#[trigger] x[g]) == line_element(
        y[g],
    ) by {
        lemma_same_lines(x, y, g);
        lemma_same_line_element(a, b, g);
    }
    lemma_same_elements(x, y);
}

proof fn lemma_not_of_line(groups: Seq<Seq<WordView>>, g: int, v: WordView)
    requires
        grouped(groups),
        0 <= g < groups.len(),
        !same_line(groups[g][0], v),
    ensures
        groups[g].to_multiset().count(v) == 0,
{
    broadcast use vstd::seq_lib::group_to_multiset_ensures;

    if groups[g].to_multiset().count(v) > 0 {
        assert(groups[g].contains(v));
        let k = choose|k: int| 0 <= k < groups[g].len() && groups[g][k] == v;
        assert(same_line(groups[g][0], groups[g][k]));
    }
}

proof fn lemma_word_of_line(words: Seq<WordView>, g: int, v: WordView)
    requires
        0 <= g < line_groups(words).len(),
        by_left(line_groups(words)[g]).contains(v),
    ensures
        words.contains(v),
        same_line(line_groups(words)[g][0], v),
{
    broadcast use vstd::seq_lib::group_to_multiset_ensures;

    let x = line_groups(words);
    law_words_by_line(words);
    law_line_sorted(x[g]);
    assert(x[g].to_multiset().count(v) > 0);
    if !same_line(x[g][0], v) {
        lemma_not_of_line(x, g, v);
    }
    lemma_line_count(x, g, v);
    lemma_group_counts(words, v);
    assert(words.to_multiset().count(v) > 0);
}

/// Two words stand on one line just where page, block, paragraph and line are the same.
pub proof fn law_line_of_a_word(a: WordView, b: WordView)
    ensures
        same_line(a, b) <==> (a.page, a.block, a.par, a.line) == (b.page, b.block, b.par, b.line),
        !(line_before(a, b) && line_before(b, a)),
        line_before(a, b) || line_before(b, a) || same_line(a, b),
        a.page < b.page ==> line_before(a, b),
        a.page == b.page && a.block < b.block ==> line_before(a, b),
{
}

/// Words of different pages, blocks, paragraphs or lines never share a group.
pub proof fn law_groups_share_a_line(words: Seq<WordView>, g: int, i: int, j: int)
    requires
        0 <= g < line_groups(words).len(),
        0 <= i < line_groups(words)[g].len(),
        0 <= j < line_groups(words)[g].len(),
    ensures
        ({
            let a = line_groups(words)[g][i];
            let b = line_groups(words)[g][j];
            a.page == b.page && a.block == b.block && a.par == b.par && a.line == b.line
        }),
{
    law_words_by_line(words);
    let groups = line_groups(words);
    assert(same_line(groups[g][0], groups[g][i]));
    assert(same_line(groups[g][0], groups[g][j]));
}

/// Where a word ends: its beginning and its extent, as far as 32 bits reach.
pub proof fn law_ends_of_a_word(w: WordView)
    ensures
        i32::MIN <= w.left + w.width <= i32::MAX ==> right_of(w) == w.left + w.width,
        i32::MIN <= w.top + w.height <= i32::MAX ==> bottom_of(w) == w.top + w.height,
        i32::MIN <= right_of(w) <= i32::MAX,
        i32::MIN <= bottom_of(w) <= i32::MAX,
        w.left + w.width > i32::MAX ==> right_of(w) == i32::MAX,
        w.top + w.height > i32::MAX ==> bottom_of(w) == i32::MAX,
{
}

/// The element of a line has the texts of its words from left to right with blanks between them as
/// its label, the box around the words, and the confidence of each word. A line without text makes
/// none.
pub proof fn law_element_of_a_line(group: Seq<WordView>)
    requires
        group.len() > 0,
    ensures
        ({
            let ws = by_left(group);
            let texts = Seq::new(ws.len(), |i: int| ws[i].text);
            let label = trimmed(join(texts, " "@));
            &&& label.len() == 0 <==> line_element(group) is None
            &&& line_element(group) matches Some(e) ==> {
                &&& e.label == label
                &&& e.x == bounds(ws).left
                &&& e.y == bounds(ws).top
                &&& bounds(ws).right - bounds(ws).left <= i32::MAX && bounds(ws).right - bounds(
                    ws,
                ).left >= i32::MIN ==> e.x + e.w == bounds(ws).right
                &&& bounds(ws).bottom - bounds(ws).top <= i32::MAX && bounds(ws).bottom - bounds(
                    ws,
                ).top >= i32::MIN ==> e.y + e.h == bounds(ws).bottom
                &&& e.confs.len() == ws.len()
                &&& forall|i: int| 0 <= i < ws.len() ==> #[trigger] e.confs[i] == ws[i].conf
            }
        }),
{
    let ws = by_left(group);
    assert(Seq::new(ws.len(), |i: int| ws[i].text) =~= word_texts(ws));
}

/// A line of one word makes an element with the text and the place of that word.
pub proof fn law_element_of_a_word(w: WordView)
    requires
        trimmed(w.text) == w.text,
        w.text.len() > 0,
        i32::MIN <= w.left <= i32::MAX,
        i32::MIN <= w.top <= i32::MAX,
        0 <= w.width <= i32::MAX,
        0 <= w.height <= i32::MAX,
        w.left + w.width <= i32::MAX,
        w.top + w.height <= i32::MAX,
    ensures
        line_element(seq![w]) matches Some(e) && e.label == w.text && e.x == w.left && e.y == w.top
            && e.w == w.width && e.h == w.height && e.confs == seq![w.conf],
{
    let none = Seq::<WordView>::empty();
    assert(seq![w].drop_last() =~= none);
    assert(by_left(none) =~= none);
    assert(by_left(seq![w]) =~= seq![w]);
    assert(word_texts(seq![w]) =~= seq![w.text]);
    assert(word_confs(seq![w]) =~= seq![w.conf]);
    assert(join(seq![w.text], " "@) == w.text);
}

/// What a label seems to be: a button where it speaks of entering, sending, registering or going on,
/// or is just `ok`; else a field where it speaks of credentials; else a block where it is long.
pub proof fn law_kinds(low: Seq<char>, bytes: nat)
    ensures
        label_kind(low, bytes) == ElementKind::Button <==> (low == "ok"@ || exists|p: Seq<char>|
            seq!["entrar"@, "login"@, "submit"@, "regist"@, "continuar"@].contains(p)
                && #[trigger] holds(low, p)),
        label_kind(low, bytes) == ElementKind::Input ==> exists|p: Seq<char>|
            seq![
                "email"@,
                "senha"@,
                "password"@,
                "utilizador"@,
                "username"@,
                "@"@,
            ].contains(p) && #[trigger] holds(low, p),
        label_kind(low, bytes) == ElementKind::TextBlock ==> bytes > 80,
        label_kind(low, bytes) == ElementKind::Text ==> bytes <= 80,
        label_kind(low, bytes) == ElementKind::Text || label_kind(low, bytes)
            == ElementKind::TextBlock ==> forall|p: Seq<char>|
            seq![
                "email"@,
                "senha"@,
                "password"@,
                "utilizador"@,
                "username"@,
                "@"@,
            ].contains(p) ==> !#[trigger] holds(low, p),
{
    let b = seq!["entrar"@, "login"@, "submit"@, "regist"@, "continuar"@];
    assert(b[0] == "entrar"@ && b[1] == "login"@ && b[2] == "submit"@ && b[3] == "regist"@ && b[4]
        == "continuar"@);
    let f = seq!["email"@, "senha"@, "password"@, "utilizador"@, "username"@, "@"@];
    assert(f[0] == "email"@ && f[1] == "senha"@ && f[2] == "password"@ && f[3] == "utilizador"@
        && f[4] == "username"@ && f[5] == "@"@);
    assert(b.contains(b[0]) && b.contains(b[1]) && b.contains(b[2]) && b.contains(b[3])
        && b.contains(b[4]));
    assert(f.contains(f[0]) && f.contains(f[1]) && f.contains(f[2]) && f.contains(f[3])
        && f.contains(f[4]) && f.contains(f[5]));
}

/// The kind of an element is that of its label.
pub proof fn law_kind_of_element(group: Seq<WordView>)
    ensures
        line_element(group) matches Some(e) ==> e.kind == label_kind(
            lowercase(e.label),
            vstd::utf8::encode_utf8(e.label).len(),
        ),
{
}

/// Each line with text makes one element, and each element comes from a line: the elements are those
/// of the lines, put in reading order.
pub proof fn law_elements_of_lines(words: Seq<WordView>, g: int, e: ElementView)
    ensures
        0 <= g < line_groups(words).len() && line_element(line_groups(words)[g]) == Some(e)
            ==> elements_of(words).contains(e),
        elements_of(words).contains(e) ==> exists|h: int|
            0 <= h < line_groups(words).len() && line_element(#[trigger] line_groups(words)[h])
                == Some(e),
        elements_of(words).len() == lines_with_text(line_groups(words)),
{
    lemma_elements_of_lines(line_groups(words), e);
}

/// The number of lines with text.
pub open spec fn lines_with_text(groups: Seq<Seq<WordView>>) -> nat
    decreases groups.len(),
{
    if groups.len() == 0 {
        0
    } else if line_element(groups.last()) is Some {
        lines_with_text(groups.drop_last()) + 1
    } else {
        lines_with_text(groups.drop_last())
    }
}

proof fn lemma_insert_by_place_keeps(es: Seq<ElementView>, e: ElementView, x: ElementView)
    ensures
        insert_by_place(es, e).contains(x) <==> (es.contains(x) || x == e),
        insert_by_place(es, e).len() == es.len() + 1,
    decreases es.len(),
{
    let out = insert_by_place(es, e);
    if es.len() == 0 || !reads_before(e, es.last()) {
        assert(out[es.len() as int] == e);
        if es.contains(x) {
            let k = choose|k: int| 0 <= k < es.len() && es[k] == x;
            assert(out[k] == x);
        }
        if out.contains(x) && x != e {
            let k = choose|k: int| 0 <= k < out.len() && out[k] == x;
            assert(es[k] == x);
        }
    } else {
        let init = es.drop_last();
        lemma_insert_by_place_keeps(init, e, x);
        let tail = insert_by_place(init, e);
        assert(out == tail.push(es.last()));
        assert(out[tail.len() as int] == es.last());
        if es.contains(x) || x == e {
            if x == es.last() {
                assert(out.contains(x));
            } else {
                if es.contains(x) {
                    let k = choose|k: int| 0 <= k < es.len() && es[k] == x;
                    assert(init[k] == x);
                }
                let k = choose|k: int| 0 <= k < tail.len() && tail[k] == x;
                assert(out[k] == x);
            }
        }
        if out.contains(x) {
            let k = choose|k: int| 0 <= k < out.len() && out[k] == x;
            if k < tail.len() {
                assert(tail[k] == x);
                if init.contains(x) {
                    let m = choose|m: int| 0 <= m < init.len() && init[m] == x;
                    assert(es[m] == x);
                }
            } else {
                assert(es[es.len() - 1] == x);
            }
        }
    }
}

proof fn lemma_elements_of_lines(groups: Seq<Seq<WordView>>, e: ElementView)
    ensures
        forall|g: int|
            0 <= g < groups.len() && line_element(#[trigger] groups[g]) == Some(e)
                ==> lines_elements(groups).contains(e),
        lines_elements(groups).contains(e) ==> exists|h: int|
            0 <= h < groups.len() && line_element(#[trigger] groups[h]) == Some(e),
        lines_elements(groups).len() == lines_with_text(groups),
    decreases groups.len(),
{
    if groups.len() > 0 {
        let init = groups.drop_last();
        lemma_elements_of_lines(init, e);
        let before = lines_elements(init);
        if let Some(x) = line_element(groups.last()) {
            lemma_insert_by_place_keeps(before, x, e);
        }
        assert forall|g: int| 0 <= g < groups.len() && line_element(#[trigger] groups[g]) == Some(
            e,
        ) implies lines_elements(groups).contains(e) by {
            if g < init.len() {
                assert(line_element(init[g]) == Some(e));
            }
        }
        if lines_elements(groups).contains(e) {
            if before.contains(e) {
                let h = choose|h: int|
                    0 <= h < init.len() && line_element(#[trigger] init[h]) == Some(e);
                assert(line_element(groups[h]) == Some(e));
            } else {
                assert(line_element(groups[groups.len() - 1]) == Some(e));
            }
        }
    }
}

/// Each kind has its own name.
pub proof fn law_kind_names()
    ensures
        kind_name(ElementKind::Button) == "button"@,
        kind_name(ElementKind::Input) == "input"@,
        kind_name(ElementKind::TextBlock) == "text_block"@,
        kind_name(ElementKind::Text) == "text"@,
{
}

/// The words that begin at `left`, in their order.
pub open spec fn words_at(ws: Seq<WordView>, left: int) -> Seq<WordView>
    decreases ws.len(),
{
    if ws.len() == 0 {
        seq![]
    } else if ws.last().left == left {
        words_at(ws.drop_last(), left).push(ws.last())
    } else {
        words_at(ws.drop_last(), left)
    }
}

proof fn lemma_insert_stable(ws: Seq<WordView>, w: WordView, left: int)
    requires
        left_to_right(ws),
    ensures
        words_at(insert_by_left(ws, w), left) == words_at(ws.push(w), left),
    decreases ws.len(),
{
    assert(ws.push(w).drop_last() =~= ws);
    if ws.len() > 0 && ws.last().left > w.left {
        let init = ws.drop_last();
        lemma_insert_stable(init, w, left);
        assert(init.push(w).drop_last() =~= init);
        let placed = insert_by_left(init, w);
        assert(insert_by_left(ws, w) == placed.push(ws.last()));
        assert(placed.push(ws.last()).drop_last() =~= placed);
        assert(words_at(init.push(w), left) == if w.left == left {
            words_at(init, left).push(w)
        } else {
            words_at(init, left)
        });
        assert(words_at(ws, left) == if ws.last().left == left {
            words_at(init, left).push(ws.last())
        } else {
            words_at(init, left)
        });
    }
}

/// Of words that begin at one place the order stays when a line is sorted.
pub proof fn law_line_is_stable(ws: Seq<WordView>, left: int)
    ensures
        words_at(by_left(ws), left) == words_at(ws, left),
    decreases ws.len(),
{
    if ws.len() > 0 {
        let init = ws.drop_last();
        law_line_is_stable(init, left);
        law_line_sorted(init);
        lemma_insert_stable(by_left(init), ws.last(), left);
        assert(by_left(init).push(ws.last()).drop_last() =~= by_left(init));
    }
}

/// The elements at a place, in their order.
pub open spec fn elements_at(es: Seq<ElementView>, x: int, y: int) -> Seq<ElementView>
    decreases es.len(),
{
    if es.len() == 0 {
        seq![]
    } else if es.last().x == x && es.last().y == y {
        elements_at(es.drop_last(), x, y).push(es.last())
    } else {
        elements_at(es.drop_last(), x, y)
    }
}

/// The elements of some lines at a place, in the order of the lines.
pub open spec fn line_elements_at(groups: Seq<Seq<WordView>>, x: int, y: int) -> Seq<ElementView>
    decreases groups.len(),
{
    if groups.len() == 0 {
        seq![]
    } else {
        let before = line_elements_at(groups.drop_last(), x, y);
        match line_element(groups.last()) {
            Some(e) => if e.x == x && e.y == y {
                before.push(e)
            } else {
                before
            },
            None => before,
        }
    }
}

proof fn lemma_place_stable(es: Seq<ElementView>, e: ElementView, x: int, y: int)
    ensures
        elements_at(insert_by_place(es, e), x, y) == elements_at(es.push(e), x, y),
    decreases es.len(),
{
    assert(es.push(e).drop_last() =~= es);
    if es.len() > 0 && reads_before(e, es.last()) {
        let init = es.drop_last();
        lemma_place_stable(init, e, x, y);
        assert(init.push(e).drop_last() =~= init);
        let placed = insert_by_place(init, e);
        assert(insert_by_place(es, e) == placed.push(es.last()));
        assert(placed.push(es.last()).drop_last() =~= placed);
        assert(elements_at(init.push(e), x, y) == if e.x == x && e.y == y {
            elements_at(init, x, y).push(e)
        } else {
            elements_at(init, x, y)
        });
        assert(elements_at(es, x, y) == if es.last().x == x && es.last().y == y {
            elements_at(init, x, y).push(es.last())
        } else {
            elements_at(init, x, y)
        });
    }
}

/// Of elements at one place the order of their lines stays.
pub proof fn law_places_are_stable(words: Seq<WordView>, x: int, y: int)
    ensures
        elements_at(elements_of(words), x, y) == line_elements_at(line_groups(words), x, y),
{
    lemma_places_stable(line_groups(words), x, y);
}

proof fn lemma_places_stable(groups: Seq<Seq<WordView>>, x: int, y: int)
    ensures
        elements_at(lines_elements(groups), x, y) == line_elements_at(groups, x, y),
    decreases groups.len(),
{
    if groups.len() > 0 {
        let init = groups.drop_last();
        lemma_places_stable(init, x, y);
        if let Some(e) = line_element(groups.last()) {
            lemma_place_stable(lines_elements(init), e, x, y);
            assert(lines_elements(init).push(e).drop_last() =~= lines_elements(init));
        }
    }
}

/// Within a block the paragraph decides which line comes first, and within a paragraph the line.
pub proof fn law_lines_in_order(a: WordView, b: WordView)
    requires
        a.page == b.page,
        a.block == b.block,
    ensures
        a.par < b.par ==> line_before(a, b) && !line_before(b, a),
        a.par == b.par ==> (line_before(a, b) <==> a.line < b.line),
{
}

} // verus!
