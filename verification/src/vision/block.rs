//! The text on an image that is handed to the language model.
use crate::numbers::{decimal, signed_decimal, write_decimal, write_signed};
use crate::text::{blank, chars, has_prefix, holds, occurs_at, texts, trimmed};
use crate::vision::layout::{elements_view, kind_name, Element, ElementView};
use vstd::prelude::*;

verus! {

/// A text with its double quotes replaced by single ones.
pub open spec fn single_quoted(s: Seq<char>) -> Seq<char> {
    s.map_values(|c: char| if c == '"' { '\'' } else { c })
}

/// Replaces double quotes by single ones.
pub fn single_quotes(s: &str) -> (r: String)
    ensures
        r@ == single_quoted(s@),
{
    let cs = chars(s);
    let mut r = String::new();
    for i in 0..cs.len()
        invariant
            cs@ == s@,
            r@ =~= single_quoted(s@).take(i as int),
    {
        if cs[i] == '"' {
            r.push('\'');
        } else {
            r.push(cs[i]);
        }
    }
    assert(single_quoted(s@).take(s@.len() as int) =~= single_quoted(s@));
    r
}

/// One entry of a list.
pub open spec fn bullet(s: Seq<char>) -> Seq<char> {
    "- "@ + s + "\n"@
}

/// An entry for each text that is not blank.
pub open spec fn filled_bullets(list: Seq<Seq<char>>) -> Seq<char>
    decreases list.len(),
{
    if list.len() == 0 {
        seq![]
    } else if trimmed(list.last()).len() == 0 {
        filled_bullets(list.drop_last())
    } else {
        filled_bullets(list.drop_last()) + bullet(list.last())
    }
}

/// An entry for each text.
pub open spec fn bullets(list: Seq<Seq<char>>) -> Seq<char>
    decreases list.len(),
{
    if list.len() == 0 {
        seq![]
    } else {
        bullets(list.drop_last()) + bullet(list.last())
    }
}

/// The line on the element with number `n`.
pub open spec fn element_line(n: nat, e: ElementView) -> Seq<char> {
    "["@ + decimal(n) + "] "@ + kind_name(e.kind) + ": \""@ + single_quoted(e.label) + "\" (x="@
        + signed_decimal(e.x) + ", y="@ + signed_decimal(e.y) + ", w="@ + signed_decimal(e.w)
        + ", h="@ + signed_decimal(e.h) + ")\n"@
}

/// The lines on the elements, numbered from one.
pub open spec fn element_lines(es: Seq<ElementView>) -> Seq<char>
    decreases es.len(),
{
    if es.len() == 0 {
        seq![]
    } else {
        element_lines(es.drop_last()) + element_line(es.len(), es.last())
    }
}

/// The part on the paragraphs, which only a full analysis has.
pub open spec fn paragraph_part(paragraphs: Seq<Seq<char>>, full: bool) -> Seq<char> {
    if full && paragraphs.len() > 0 {
        "\nParágrafos (OCR):\n"@ + bullets(paragraphs)
    } else {
        seq![]
    }
}

/// The text on an image.
pub open spec fn llm_block(
    summary: Seq<char>,
    text_lines: Seq<Seq<char>>,
    elements: Seq<ElementView>,
    paragraphs: Seq<Seq<char>>,
    full: bool,
) -> Seq<char> {
    "Resumo:\n"@ + summary + "\n\nTexto detectado (linhas):\n"@ + filled_bullets(text_lines)
        + paragraph_part(paragraphs, full)
        + "\nElementos (coordenadas do canto sup. esquerdo, pixels no bitmap OCR):\n"@
        + element_lines(elements) + "\nAções possíveis (exemplos):\n"@
        + "- gui_mouse_move + gui_mouse_click num botão listado\n"@
        + "- gui_type_text após focar o campo certo\n"@
}

fn write_bullet(s: &str) -> (r: String)
    ensures
        r@ == bullet(s@),
{
    let mut r = "- ".to_owned();
    r.append(s);
    r.append("\n");
    r
}

fn write_filled_bullets(list: &[String]) -> (r: String)
    ensures
        r@ == filled_bullets(texts(list@)),
{
    let ghost all = texts(list@);
    let mut r = String::new();
    assert(r@ =~= seq![]);
    assert(all.take(0) =~= seq![]);
    for i in 0..list.len()
        invariant
            all == texts(list@),
            r@ == filled_bullets(all.take(i as int)),
    {
        assert(all.take(i + 1).drop_last() =~= all.take(i as int));
        if !blank(list[i].as_str()) {
            r.append(write_bullet(list[i].as_str()).as_str());
        }
    }
    assert(all.take(list@.len() as int) =~= all);
    r
}

fn write_bullets(list: &[String]) -> (r: String)
    ensures
        r@ == bullets(texts(list@)),
{
    let ghost all = texts(list@);
    let mut r = String::new();
    assert(r@ =~= seq![]);
    assert(all.take(0) =~= seq![]);
    for i in 0..list.len()
        invariant
            all == texts(list@),
            r@ == bullets(all.take(i as int)),
    {
        assert(all.take(i + 1).drop_last() =~= all.take(i as int));
        r.append(write_bullet(list[i].as_str()).as_str());
    }
    assert(all.take(list@.len() as int) =~= all);
    r
}

fn write_element(n: u128, e: &Element) -> (r: String)
    ensures
        r@ == element_line(n as nat, e@),
{
    let mut s = "[".to_owned();
    s.append(write_decimal(n).as_str());
    s.append("] ");
    s.append(e.kind.name());
    s.append(": \"");
    s.append(single_quotes(e.label.as_str()).as_str());
    s.append("\" (x=");
    s.append(write_signed(e.x as i64).as_str());
    s.append(", y=");
    s.append(write_signed(e.y as i64).as_str());
    s.append(", w=");
    s.append(write_signed(e.w as i64).as_str());
    s.append(", h=");
    s.append(write_signed(e.h as i64).as_str());
    s.append(")\n");
    s
}

fn write_elements(elements: &[Element]) -> (r: String)
    ensures
        r@ == element_lines(elements_view(elements@)),
{
    let ghost all = elements_view(elements@);
    let mut r = String::new();
    assert(r@ =~= seq![]);
    assert(all.take(0) =~= seq![]);
    for i in 0..elements.len()
        invariant
            all == elements_view(elements@),
            r@ == element_lines(all.take(i as int)),
    {
        assert(all.take(i + 1).drop_last() =~= all.take(i as int));
        assert(all.take(i + 1).last() == elements@[i as int]@);
        r.append(write_element(i as u128 + 1, &elements[i]).as_str());
    }
    assert(all.take(elements@.len() as int) =~= all);
    r
}

/// Writes the text on an image.
pub fn build_llm_block(
    summary: &str,
    text_lines: &[String],
    elements: &[Element],
    paragraphs: &[String],
    full: bool,
) -> (r: String)
    ensures
        r@ == llm_block(
            summary@,
            texts(text_lines@),
            elements_view(elements@),
            texts(paragraphs@),
            full,
        ),
{
    let mut part = String::new();
    assert(part@ =~= seq![]);
    if full && paragraphs.len() > 0 {
        part = "\nParágrafos (OCR):\n".to_owned();
        part.append(write_bullets(paragraphs).as_str());
    }
    let mut s = "Resumo:\n".to_owned();
    s.append(summary);
    s.append("\n\nTexto detectado (linhas):\n");
    s.append(write_filled_bullets(text_lines).as_str());
    s.append(part.as_str());
    s.append("\nElementos (coordenadas do canto sup. esquerdo, pixels no bitmap OCR):\n");
    s.append(write_elements(elements).as_str());
    s.append("\nAções possíveis (exemplos):\n");
    s.append("- gui_mouse_move + gui_mouse_click num botão listado\n");
    s.append("- gui_type_text após focar o campo certo\n");
    s
}

proof fn lemma_holds_between(a: Seq<char>, p: Seq<char>, b: Seq<char>)
    ensures
        holds(a + p + b, p),
{
    assert((a + p + b).subrange(a.len() as int, a.len() as int + p.len()) =~= p);
    assert(occurs_at(a + p + b, p, a.len() as int));
}

proof fn lemma_holds_wider(a: Seq<char>, s: Seq<char>, b: Seq<char>, p: Seq<char>)
    requires
        holds(s, p),
    ensures
        holds(a + s + b, p),
{
    let i = choose|i: int| occurs_at(s, p, i);
    let j = a.len() + i;
    assert((a + s + b).subrange(j, j + p.len()) =~= s.subrange(i, i + p.len()));
    assert(occurs_at(a + s + b, p, j));
}

proof fn lemma_filled_bullets(list: Seq<Seq<char>>, i: int)
    requires
        0 <= i < list.len(),
        trimmed(list[i]).len() > 0,
    ensures
        holds(filled_bullets(list), bullet(list[i])),
    decreases list.len(),
{
    let none = Seq::<char>::empty();
    let before = filled_bullets(list.drop_last());
    let tail = bullet(list.last());
    if i == list.len() - 1 {
        lemma_holds_between(before, tail, none);
        assert(before + tail + none =~= before + tail);
    } else {
        lemma_filled_bullets(list.drop_last(), i);
        assert(list.drop_last()[i] == list[i]);
        lemma_holds_wider(none, before, tail, bullet(list[i]));
        assert(none + before + tail =~= before + tail);
    }
}

proof fn lemma_bullets(list: Seq<Seq<char>>, i: int)
    requires
        0 <= i < list.len(),
    ensures
        holds(bullets(list), bullet(list[i])),
    decreases list.len(),
{
    let none = Seq::<char>::empty();
    let before = bullets(list.drop_last());
    let tail = bullet(list.last());
    if i == list.len() - 1 {
        lemma_holds_between(before, tail, none);
        assert(before + tail + none =~= before + tail);
    } else {
        lemma_bullets(list.drop_last(), i);
        assert(list.drop_last()[i] == list[i]);
        lemma_holds_wider(none, before, tail, bullet(list[i]));
        assert(none + before + tail =~= before + tail);
    }
}

proof fn lemma_element_lines(es: Seq<ElementView>, i: int)
    requires
        0 <= i < es.len(),
    ensures
        holds(element_lines(es), element_line((i + 1) as nat, es[i])),
    decreases es.len(),
{
    let none = Seq::<char>::empty();
    let before = element_lines(es.drop_last());
    let tail = element_line(es.len(), es.last());
    if i == es.len() - 1 {
        lemma_holds_between(before, tail, none);
        assert(before + tail + none =~= before + tail);
    } else {
        lemma_element_lines(es.drop_last(), i);
        assert(es.drop_last()[i] == es[i]);
        lemma_holds_wider(none, before, tail, element_line((i + 1) as nat, es[i]));
        assert(none + before + tail =~= before + tail);
    }
}

/// The text for the model holds the summary and each line that is not blank.
pub proof fn law_block_holds_lines(
    summary: Seq<char>,
    text_lines: Seq<Seq<char>>,
    elements: Seq<ElementView>,
    paragraphs: Seq<Seq<char>>,
    full: bool,
    i: int,
)
    requires
        0 <= i < text_lines.len(),
        trimmed(text_lines[i]).len() > 0,
    ensures
        ({
            let s = llm_block(summary, text_lines, elements, paragraphs, full);
            &&& holds(s, "Resumo:\n"@ + summary + "\n"@)
            &&& holds(s, "- "@ + text_lines[i] + "\n"@)
        }),
{
    let s = llm_block(summary, text_lines, elements, paragraphs, full);
    let none = Seq::<char>::empty();
    let end = "\nAções possíveis (exemplos):\n"@
        + "- gui_mouse_move + gui_mouse_click num botão listado\n"@
        + "- gui_type_text após focar o campo certo\n"@;
    let mid = paragraph_part(paragraphs, full)
        + "\nElementos (coordenadas do canto sup. esquerdo, pixels no bitmap OCR):\n"@
        + element_lines(elements) + end;
    let head = "Resumo:\n"@ + summary + "\n\nTexto detectado (linhas):\n"@;
    lemma_filled_bullets(text_lines, i);
    lemma_holds_wider(head, filled_bullets(text_lines), mid, bullet(text_lines[i]));
    assert(s =~= head + filled_bullets(text_lines) + mid);
    reveal_strlit("\n\nTexto detectado (linhas):\n");
    reveal_strlit("\n");
    let t = "\n\nTexto detectado (linhas):\n"@;
    let p = "Resumo:\n"@ + summary + "\n"@;
    assert("\n"@ =~= t.take(1));
    assert(s =~= none + p + (t.skip(1) + filled_bullets(text_lines) + mid));
    lemma_holds_between(none, p, t.skip(1) + filled_bullets(text_lines) + mid);
}

/// The text for the model holds a line for each element, with its number, its kind, its label without
/// double quotes, its place and its size.
pub proof fn law_block_holds_elements(
    summary: Seq<char>,
    text_lines: Seq<Seq<char>>,
    elements: Seq<ElementView>,
    paragraphs: Seq<Seq<char>>,
    full: bool,
    i: int,
)
    requires
        0 <= i < elements.len(),
    ensures
        ({
            let e = elements[i];
            holds(
                llm_block(summary, text_lines, elements, paragraphs, full),
                "["@ + decimal((i + 1) as nat) + "] "@ + kind_name(e.kind) + ": \""@
                    + single_quoted(e.label) + "\" (x="@ + signed_decimal(e.x) + ", y="@
                    + signed_decimal(e.y) + ", w="@ + signed_decimal(e.w) + ", h="@
                    + signed_decimal(e.h) + ")\n"@,
            )
        }),
{
    let s = llm_block(summary, text_lines, elements, paragraphs, full);
    let head = "Resumo:\n"@ + summary + "\n\nTexto detectado (linhas):\n"@ + filled_bullets(
        text_lines,
    ) + paragraph_part(paragraphs, full)
        + "\nElementos (coordenadas do canto sup. esquerdo, pixels no bitmap OCR):\n"@;
    let end = "\nAções possíveis (exemplos):\n"@
        + "- gui_mouse_move + gui_mouse_click num botão listado\n"@
        + "- gui_type_text após focar o campo certo\n"@;
    lemma_element_lines(elements, i);
    lemma_holds_wider(
        head,
        element_lines(elements),
        end,
        element_line((i + 1) as nat, elements[i]),
    );
    assert(s =~= head + element_lines(elements) + end);
}

/// A full analysis holds each paragraph.
pub proof fn law_block_holds_paragraphs(
    summary: Seq<char>,
    text_lines: Seq<Seq<char>>,
    elements: Seq<ElementView>,
    paragraphs: Seq<Seq<char>>,
    i: int,
)
    requires
        0 <= i < paragraphs.len(),
    ensures
        holds(
            llm_block(summary, text_lines, elements, paragraphs, true),
            "- "@ + paragraphs[i] + "\n"@,
        ),
{
    let s = llm_block(summary, text_lines, elements, paragraphs, true);
    let head = "Resumo:\n"@ + summary + "\n\nTexto detectado (linhas):\n"@ + filled_bullets(
        text_lines,
    ) + "\nParágrafos (OCR):\n"@;
    let end = "\nElementos (coordenadas do canto sup. esquerdo, pixels no bitmap OCR):\n"@
        + element_lines(elements) + "\nAções possíveis (exemplos):\n"@
        + "- gui_mouse_move + gui_mouse_click num botão listado\n"@
        + "- gui_type_text após focar o campo certo\n"@;
    lemma_bullets(paragraphs, i);
    lemma_holds_wider(head, bullets(paragraphs), end, bullet(paragraphs[i]));
    assert(s =~= head + bullets(paragraphs) + end);
}

/// Quoting changes double quotes and nothing else.
pub proof fn law_single_quotes(s: Seq<char>, i: int)
    requires
        0 <= i < s.len(),
    ensures
        single_quoted(s).len() == s.len(),
        s[i] == '"' ==> single_quoted(s)[i] == '\'',
        s[i] != '"' ==> single_quoted(s)[i] == s[i],
        !single_quoted(s).contains('"'),
{
}

/// The entries of a list stand in the order of their texts, and those of blank lines are left out.
pub proof fn law_entries_in_order(list: Seq<Seq<char>>, s: Seq<char>)
    ensures
        bullets(list.push(s)) == bullets(list) + ("- "@ + s + "\n"@),
        trimmed(s).len() > 0 ==> filled_bullets(list.push(s)) == filled_bullets(list) + ("- "@ + s
            + "\n"@),
        trimmed(s).len() == 0 ==> filled_bullets(list.push(s)) == filled_bullets(list),
        bullets(seq![]).len() == 0,
        filled_bullets(seq![]).len() == 0,
{
    assert(list.push(s).drop_last() =~= list);
}

/// The lines on the elements stand in the order of the elements.
pub proof fn law_element_lines_in_order(es: Seq<ElementView>, e: ElementView)
    ensures
        element_lines(es.push(e)) == element_lines(es) + element_line(es.len() + 1, e),
        element_lines(seq![]).len() == 0,
{
    assert(es.push(e).drop_last() =~= es);
}

/// The text for the model begins with the summary, and a quick analysis says nothing of paragraphs.
pub proof fn law_block_parts(
    summary: Seq<char>,
    text_lines: Seq<Seq<char>>,
    elements: Seq<ElementView>,
    paragraphs: Seq<Seq<char>>,
    full: bool,
)
    ensures
        ({
            let s = llm_block(summary, text_lines, elements, paragraphs, full);
            let head = "Resumo:\n"@ + summary + "\n\nTexto detectado (linhas):\n"@ + filled_bullets(
                text_lines,
            );
            &&& has_prefix(s, head)
            &&& !full || paragraphs.len() == 0 ==> has_prefix(
                s,
                head
                    + "\nElementos (coordenadas do canto sup. esquerdo, pixels no bitmap OCR):\n"@
                    + element_lines(elements),
            )
            &&& full && paragraphs.len() > 0 ==> has_prefix(
                s,
                head + "\nParágrafos (OCR):\n"@ + bullets(paragraphs)
                    + "\nElementos (coordenadas do canto sup. esquerdo, pixels no bitmap OCR):\n"@
                    + element_lines(elements),
            )
        }),
{
    let s = llm_block(summary, text_lines, elements, paragraphs, full);
    let head = "Resumo:\n"@ + summary + "\n\nTexto detectado (linhas):\n"@ + filled_bullets(
        text_lines,
    );
    let title = "\nElementos (coordenadas do canto sup. esquerdo, pixels no bitmap OCR):\n"@;
    assert(s.subrange(0, head.len() as int) =~= head);
    let quick = head + title + element_lines(elements);
    let whole = head + "\nParágrafos (OCR):\n"@ + bullets(paragraphs) + title + element_lines(
        elements,
    );
    if !full || paragraphs.len() == 0 {
        assert(s.subrange(0, quick.len() as int) =~= quick);
    } else {
        assert(s.subrange(0, whole.len() as int) =~= whole);
    }
}

} // verus!
