//! What an image seems to show, judged by its text.
use crate::numbers::{decimal, write_decimal};
use crate::split::{join, join_texts};
use crate::text::{contains, holds, texts};
use crate::vision::layout::{lowercase, to_lowercase};
use vstd::prelude::*;

verus! {

/// The text speaks of a web address.
pub open spec fn shows_web(blob: Seq<char>) -> bool {
    holds(blob, "http"@) || holds(blob, "www."@)
}

/// The text speaks of credentials.
pub open spec fn shows_auth(blob: Seq<char>) -> bool {
    holds(blob, "senha"@) || holds(blob, "password"@) || holds(blob, "email"@) || holds(blob, "entrar"@)
        || holds(blob, "login"@)
}

/// The sentence on an image, by its text in lower case and the counts of its lines and elements.
pub open spec fn summary_text(blob: Seq<char>, line_count: nat, element_count: nat, full: bool) -> Seq<
    char,
> {
    if shows_auth(blob) {
        "Provável ecrã de autenticação ou formulário (campos de credenciais / ação)."@
    } else if shows_web(blob) {
        "Conteúdo com hiperligações ou navegação web (OCR)."@
    } else if full {
        "Imagem com "@ + decimal(line_count) + " linhas de texto e "@ + decimal(element_count)
            + " elementos agrupados (OCR + heurística)."@
    } else {
        "Imagem analisada: "@ + decimal(line_count) + " linhas, "@ + decimal(element_count)
            + " elementos (modo rápido)."@
    }
}

/// A tag, where it applies.
pub open spec fn tag_if(applies: bool, tag: Seq<char>) -> Seq<Seq<char>> {
    if applies {
        seq![tag]
    } else {
        seq![]
    }
}

/// The tags of an image, by its text in lower case.
pub open spec fn summary_tags(blob: Seq<char>) -> Seq<Seq<char>> {
    tag_if(shows_web(blob), "browser"@) + tag_if(shows_auth(blob), "auth_form"@) + tag_if(
        holds(blob, "youtube"@),
        "youtube"@,
    )
}

/// The text of all lines, in lower case.
pub open spec fn summary_blob(text_lines: Seq<Seq<char>>) -> Seq<char> {
    lowercase(join(text_lines, " "@))
}

/// Judges a text in lower case.
pub fn classify_blob(blob: &str, line_count: usize, element_count: usize, full: bool) -> (r: (
    String,
    Vec<String>,
))
    ensures
        r.0@ == summary_text(blob@, line_count as nat, element_count as nat, full),
        texts(r.1@) == summary_tags(blob@),
{
    let web = contains(blob, "http") || contains(blob, "www.");
    let auth = contains(blob, "senha") || contains(blob, "password") || contains(blob, "email")
        || contains(blob, "entrar") || contains(blob, "login");
    let mut tags: Vec<String> = Vec::new();
    if web {
        tags.push("browser".to_owned());
    }
    assert(texts(tags@) =~= tag_if(shows_web(blob@), "browser"@));
    let ghost before = texts(tags@);
    if auth {
        tags.push("auth_form".to_owned());
    }
    assert(texts(tags@) =~= before + tag_if(shows_auth(blob@), "auth_form"@));
    let ghost before = texts(tags@);
    let video = contains(blob, "youtube");
    if video {
        tags.push("youtube".to_owned());
    }
    assert(texts(tags@) =~= before + tag_if(video, "youtube"@));
    let summary = if auth {
        "Provável ecrã de autenticação ou formulário (campos de credenciais / ação).".to_owned()
    } else if web {
        "Conteúdo com hiperligações ou navegação web (OCR).".to_owned()
    } else if full {
        let mut s = "Imagem com ".to_owned();
        s.append(write_decimal(line_count as u128).as_str());
        s.append(" linhas de texto e ");
        s.append(write_decimal(element_count as u128).as_str());
        s.append(" elementos agrupados (OCR + heurística).");
        s
    } else {
        let mut s = "Imagem analisada: ".to_owned();
        s.append(write_decimal(line_count as u128).as_str());
        s.append(" linhas, ");
        s.append(write_decimal(element_count as u128).as_str());
        s.append(" elementos (modo rápido).");
        s
    };
    (summary, tags)
}

/// Judges the lines of an image.
pub fn classify_summary(text_lines: &[String], element_count: usize, full: bool) -> (r: (
    String,
    Vec<String>,
))
    ensures
        r.0@ == summary_text(
            summary_blob(texts(text_lines@)),
            text_lines@.len(),
            element_count as nat,
            full,
        ),
        texts(r.1@) == summary_tags(summary_blob(texts(text_lines@))),
{
    let blob = to_lowercase(join_texts(text_lines, " ").as_str());
    classify_blob(blob.as_str(), text_lines.len(), element_count, full)
}

/// An image has the tag of a browser just where its text has an address in it, that of a form just
/// where it speaks of credentials, and that of the video site just where it names it, in this order.
pub proof fn law_tags(blob: Seq<char>)
    ensures
        ({
            let tags = summary_tags(blob);
            let web = holds(blob, "http"@) || holds(blob, "www."@);
            let auth = holds(blob, "senha"@) || holds(blob, "password"@) || holds(blob, "email"@)
                || holds(blob, "entrar"@) || holds(blob, "login"@);
            let video = holds(blob, "youtube"@);
            &&& tags.contains("browser"@) <==> web
            &&& tags.contains("auth_form"@) <==> auth
            &&& tags.contains("youtube"@) <==> video
            &&& web ==> tags[0] == "browser"@
            &&& video ==> tags.last() == "youtube"@
            &&& tags.len() <= 3
        }),
{
    reveal_strlit("browser");
    assert("browser"@.len() == 7);
    reveal_strlit("auth_form");
    assert("auth_form"@.len() == 9);
    reveal_strlit("youtube");
    assert("youtube"@.len() == 7);
    assert("browser"@[0] != "youtube"@[0]);
    let tags = summary_tags(blob);
    let web = shows_web(blob);
    let auth = shows_auth(blob);
    if web {
        assert(tags[0] == "browser"@);
    }
    if auth {
        assert(tags[if web {
            1int
        } else {
            0int
        }] == "auth_form"@);
    }
    if holds(blob, "youtube"@) {
        assert(tags[tags.len() - 1] == "youtube"@);
    }
}

/// The sentence on an image: a form where its text speaks of credentials, else the web where it has an
/// address, else the number of lines and that of elements.
pub proof fn law_summary(blob: Seq<char>, lines: nat, elements: nat, full: bool)
    ensures
        ({
            let web = holds(blob, "http"@) || holds(blob, "www."@);
            let auth = holds(blob, "senha"@) || holds(blob, "password"@) || holds(blob, "email"@)
                || holds(blob, "entrar"@) || holds(blob, "login"@);
            let s = summary_text(blob, lines, elements, full);
            &&& auth ==> s
                == "Provável ecrã de autenticação ou formulário (campos de credenciais / ação)."@
            &&& web && !auth ==> s == "Conteúdo com hiperligações ou navegação web (OCR)."@
            &&& !web && !auth && full ==> s == "Imagem com "@ + decimal(lines)
                + " linhas de texto e "@ + decimal(elements)
                + " elementos agrupados (OCR + heurística)."@
            &&& !web && !auth && !full ==> s == "Imagem analisada: "@ + decimal(lines)
                + " linhas, "@ + decimal(elements) + " elementos (modo rápido)."@
        }),
{
}

/// An image has no tag but these, and each at most once.
pub proof fn law_number_of_tags(blob: Seq<char>)
    ensures
        ({
            let web = holds(blob, "http"@) || holds(blob, "www."@);
            let auth = holds(blob, "senha"@) || holds(blob, "password"@) || holds(blob, "email"@)
                || holds(blob, "entrar"@) || holds(blob, "login"@);
            let count = (if web { 1int } else { 0int }) + (if auth { 1int } else { 0int }) + (if holds(
                blob,
                "youtube"@,
            ) { 1int } else { 0int });
            &&& summary_tags(blob).len() == count
            &&& web && auth ==> summary_tags(blob)[1] == "auth_form"@
            &&& !web && auth ==> summary_tags(blob)[0] == "auth_form"@
        }),
{
}

} // verus!
