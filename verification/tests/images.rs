use serde_json::Value;
use toolmind::codec::{parse, to_value};
use toolmind::command::Platform;
use toolmind::json::Json;
use toolmind::vision::block::build_llm_block;
use toolmind::vision::layout::{classify_label, merge_words_to_elements, ElementKind};
use toolmind::vision::request::{
    allowed_image_ext, image_refusal, known_image_extension, read_image, sanitize_lang,
    tesseract_args, vision_request, vision_request_with, vision_to_context, ImageFound, OcrRun,
    VisionRequest,
};
use toolmind::vision::summary::{classify_blob, classify_summary};
use toolmind::vision::tsv::{parse_tsv_words, WordBox};

const TABLE: &str = "level\tpage_num\tblock_num\tpar_num\tline_num\tword_num\tleft\ttop\twidth\theight\tconf\ttext
1\t1\t0\t0\t0\t0\t0\t0\t640\t480\t-1\t
5\t1\t1\t1\t2\t1\t10\t50\t40\t12\t90.5\tEntrar
5\t1\t1\t1\t1\t2\t60\t11\t30\t10\t80\tmundo
5\t1\t1\t1\t1\t1\t10\t10\t40\t12\t90\tOlá
";

fn json(s: &str) -> Json {
    parse(s).unwrap()
}

fn value(s: &str) -> Value {
    serde_json::from_str(s).unwrap()
}

fn error_of<T>(r: Result<T, Json>) -> String {
    match r {
        Ok(_) => panic!("accepted"),
        Err(e) => to_value(&e)["error"].as_str().unwrap().to_string(),
    }
}

fn request(s: &str) -> VisionRequest {
    vision_request(&json(s), Platform::OtherUnix).ok().unwrap()
}

fn word(line: i32, left: i32, top: i32, width: i32, text: &str) -> WordBox {
    WordBox {
        page: 1,
        block: 1,
        par: 1,
        line,
        left,
        top,
        width,
        height: 10,
        conf: "50".to_string(),
        text: text.to_string(),
    }
}

#[test]
fn images_are_known_by_their_extension() {
    for good in ["a.png", "a.JPG", "x.y.jpeg", "a.tif", "a.TIFF", "a.bmp", "a.webp", "dir/a.png", ".toolmind/gui_snapshots/snap_1.png"] {
        assert!(allowed_image_ext(good, Platform::OtherUnix), "{good}");
    }
    for bad in ["a", ".png", "a.gif", "a.png.txt", "png", "a.", "a.png/b"] {
        assert!(!allowed_image_ext(bad, Platform::OtherUnix), "{bad}");
    }
    let w = Platform::Windows;
    assert!(allowed_image_ext("C:\\fotos\\a.PNG", w));
    assert!(allowed_image_ext(".toolmind\\gui_snapshots\\snap_1.png", w));
    assert!(!allowed_image_ext("a.png\\b", w));
    assert!(allowed_image_ext("a\\b.png", Platform::OtherUnix));
    assert!(allowed_image_ext("dir/a.jpg", Platform::Unsupported));
    assert!(known_image_extension(&Some("WebP".to_string())));
    assert!(!known_image_extension(&None));
}

#[test]
fn languages_are_cleaned() {
    assert_eq!(sanitize_lang(None), "por+eng");
    assert_eq!(sanitize_lang(Some("")), "por+eng");
    assert_eq!(sanitize_lang(Some(" -;$ç")), "por+eng");
    assert_eq!(sanitize_lang(Some("eng; rm -rf /")), "engrmrf");
    assert_eq!(sanitize_lang(Some("chi_sim+eng")), "chi_sim+eng");
    assert_eq!(sanitize_lang(Some(&"a".repeat(100))), "a".repeat(48));
}

#[test]
fn a_request_is_checked() {
    let q = request(r#"{"image_path":"img/a.png","lang":"por"}"#);
    assert_eq!((q.image_path.as_str(), q.mode.name(), q.lang.as_str()), ("img/a.png", "fast", "por"));
    assert_eq!(request(r#"{"image_path":"a.png","mode":"full"}"#).mode.name(), "full");
    let cases: [(&str, &str); 4] = [
        ("{}", "image_path obrigatório (caminho relativo a um ficheiro de imagem)"),
        (r#"{"image_path":"../a.png"}"#, "image_path inválido (sem .., não absoluto)"),
        (r#"{"image_path":"a.txt"}"#, "extensão não suportada (use png, jpg, webp, tiff, bmp)"),
        (r#"{"image_path":"a.png","mode":"x"}"#, "mode deve ser full, fast ou ocr_only"),
    ];
    for (input, message) in cases {
        assert_eq!(error_of(vision_request(&json(input), Platform::OtherUnix)), message);
    }
    let good = json(r#"{"image_path":"a.png"}"#);
    assert!(vision_request_with(&good, true, true).is_ok());
    assert_eq!(
        error_of(vision_request_with(&good, false, true)),
        "image_path inválido (sem .., não absoluto)"
    );
    assert_eq!(
        error_of(vision_request_with(&good, true, false)),
        "extensão não suportada (use png, jpg, webp, tiff, bmp)"
    );
}

#[test]
fn an_image_must_be_there_and_small() {
    let refused = |f: ImageFound| to_value(&image_refusal(&f).unwrap())["error"].clone();
    assert!(image_refusal(&ImageFound::Facts { is_file: true, size: 25 * 1024 * 1024 }).is_none());
    assert_eq!(
        refused(ImageFound::Facts { is_file: true, size: 25 * 1024 * 1024 + 1 }),
        "imagem demasiado grande (máx. 25 MiB)"
    );
    assert_eq!(refused(ImageFound::Facts { is_file: false, size: 0 }), "caminho não é ficheiro");
    assert_eq!(refused(ImageFound::NoDirectory("d".to_string())), "d");
    assert_eq!(refused(ImageFound::NoFile("n".to_string())), "ficheiro inexistente ou inacessível: n");
    assert_eq!(refused(ImageFound::NoFacts("f".to_string())), "f");
}

#[test]
fn tesseract_gets_its_arguments() {
    let q = request(r#"{"image_path":"a.png"}"#);
    assert_eq!(tesseract_args("/w/a.png", &q), ["/w/a.png", "stdout", "-l", "por+eng", "tsv"]);
    let q = request(r#"{"image_path":"a.png","mode":"ocr_only"}"#);
    assert_eq!(tesseract_args("/w/a.png", &q), ["/w/a.png", "stdout", "-l", "por+eng"]);
}

#[test]
fn a_failed_run_is_reported() {
    let fast = request(r#"{"image_path":"a.png"}"#);
    let plain = request(r#"{"image_path":"a.png","mode":"ocr_only"}"#);
    let e = |s: &str| s.to_string();
    assert_eq!(
        error_of(read_image(&fast, OcrRun::Missing)),
        "tesseract não encontrado no PATH. Instale Tesseract OCR e reinicie o terminal."
    );
    assert_eq!(error_of(read_image(&plain, OcrRun::Missing)), "tesseract não encontrado no PATH.");
    assert_eq!(error_of(read_image(&fast, OcrRun::NotStarted(e("x")))), "falha ao executar tesseract: x");
    let broken = vec![b'x', 0xff];
    assert_eq!(
        error_of(read_image(&fast, OcrRun::Failed(broken.clone()))),
        "tesseract (tsv) falhou: x\u{fffd}"
    );
    assert_eq!(
        error_of(read_image(&plain, OcrRun::Failed(b"x".to_vec()))),
        "tesseract (txt) falhou: x"
    );
    assert_eq!(
        error_of(read_image(&fast, OcrRun::Done(broken.clone()))),
        format!("stdout inválido UTF-8: {}", String::from_utf8(broken).unwrap_err())
    );
}

#[test]
fn the_table_is_read() {
    let t = parse_tsv_words(TABLE);
    assert_eq!(t.page_size, Some((640, 480)));
    assert_eq!(t.words.len(), 3);
    assert_eq!(t.words[0].text, "Entrar");
    assert_eq!(t.words[0].conf, "90.5");
    assert_eq!((t.words[0].left, t.words[0].top, t.words[0].width, t.words[0].height), (10, 50, 40, 12));
    assert!(t.words.iter().all(|w| !w.text.is_empty()));
    assert_eq!(parse_tsv_words("").words.len(), 0);
}

#[test]
fn words_of_a_line_make_an_element() {
    let e = merge_words_to_elements(&parse_tsv_words(TABLE).words);
    assert_eq!(e.len(), 2);
    assert_eq!(e[0].label, "Olá mundo");
    assert_eq!((e[0].x, e[0].y, e[0].w, e[0].h), (10, 10, 80, 12));
    assert_eq!(e[0].confs, ["90", "80"]);
    assert_eq!(e[0].kind.name(), "text");
    assert_eq!(e[1].label, "Entrar");
    assert_eq!(e[1].kind.name(), "button");
}

#[test]
fn elements_stand_in_reading_order() {
    let words = [
        word(3, 50, 100, 5, "c"),
        word(1, 70, 200, 5, "d"),
        word(2, 10, 100, 5, "b"),
        word(4, 0, 5, 5, "a"),
    ];
    let e = merge_words_to_elements(&words);
    let labels: Vec<&str> = e.iter().map(|e| e.label.as_str()).collect();
    assert_eq!(labels, ["a", "b", "c", "d"]);
    for i in 1..e.len() {
        assert!((e[i - 1].y, e[i - 1].x) <= (e[i].y, e[i].x));
    }
}

#[test]
fn boxes_hold_their_words_and_do_not_overflow() {
    let words = [word(1, i32::MAX - 1, 0, 100, "x"), word(1, i32::MIN, 7, 1, "y")];
    let e = merge_words_to_elements(&words);
    assert_eq!(e.len(), 1);
    assert_eq!(e[0].label, "y x");
    assert_eq!((e[0].x, e[0].y), (i32::MIN, 0));
    assert_eq!(e[0].w, i32::MAX);
    assert_eq!(e[0].h, 17);
    assert_eq!(merge_words_to_elements(&[word(1, 0, 0, 1, "  ")]).len(), 0);
    assert_eq!(merge_words_to_elements(&[]).len(), 0);
}

#[test]
fn labels_are_classified() {
    for (label, kind) in [
        ("ENTRAR agora", "button"),
        ("Login", "button"),
        ("submit", "button"),
        ("Registar", "button"),
        ("OK", "button"),
        ("ok!", "text"),
        ("Continuar", "button"),
        ("E-mail: email", "input"),
        ("SENHA", "input"),
        ("Password", "input"),
        ("utilizador", "input"),
        ("Username", "input"),
        ("a@b", "input"),
        ("texto", "text"),
    ] {
        assert_eq!(merge_words_to_elements(&[word(1, 0, 0, 1, label)])[0].kind.name(), kind, "{label}");
    }
    let long = "ç".repeat(41);
    assert_eq!(merge_words_to_elements(&[word(1, 0, 0, 1, &long)])[0].kind.name(), "text_block");
    assert_eq!(merge_words_to_elements(&[word(1, 0, 0, 1, &"ç".repeat(40))])[0].kind.name(), "text");
    assert!(classify_label("ok", 2) == ElementKind::Button);
}

#[test]
fn an_image_is_summarised() {
    let lines = |l: &[&str]| l.iter().map(|s| s.to_string()).collect::<Vec<_>>();
    let (s, tags) = classify_summary(&lines(&["Faça LOGIN", "https://x"]), 1, false);
    assert_eq!(s, "Provável ecrã de autenticação ou formulário (campos de credenciais / ação).");
    assert_eq!(tags, ["browser", "auth_form"]);
    let (s, tags) = classify_summary(&lines(&["WWW.YouTube.com"]), 1, true);
    assert_eq!(s, "Conteúdo com hiperligações ou navegação web (OCR).");
    assert_eq!(tags, ["browser", "youtube"]);
    let (s, tags) = classify_summary(&lines(&["a", "b"]), 3, true);
    assert_eq!(s, "Imagem com 2 linhas de texto e 3 elementos agrupados (OCR + heurística).");
    assert_eq!(tags.len(), 0);
    let (s, _) = classify_summary(&lines(&["a"]), 0, false);
    assert_eq!(s, "Imagem analisada: 1 linhas, 0 elementos (modo rápido).");
    assert_eq!(classify_blob("senha", 1, 1, false).1, ["auth_form"]);
}

#[test]
fn the_block_for_the_model_is_written() {
    let e = merge_words_to_elements(&[word(1, -5, 2, 7, "diz \"olá\"")]);
    let lines = ["um".to_string(), " ".to_string()];
    let s = build_llm_block("R", &lines, &e, &["p".to_string()], true);
    assert_eq!(
        s,
        "Resumo:\nR\n\nTexto detectado (linhas):\n- um\n\nParágrafos (OCR):\n- p\n\nElementos (coordenadas do canto sup. esquerdo, pixels no bitmap OCR):\n[1] text: \"diz 'olá'\" (x=-5, y=2, w=7, h=10)\n\nAções possíveis (exemplos):\n- gui_mouse_move + gui_mouse_click num botão listado\n- gui_type_text após focar o campo certo\n"
    );
    assert!(!build_llm_block("R", &lines, &e, &["p".to_string()], false).contains("Parágrafos"));
    assert!(!build_llm_block("R", &lines, &e, &[], true).contains("Parágrafos"));
}

#[test]
fn an_image_is_described() {
    let q = request(r#"{"image_path":"a.png"}"#);
    let r = read_image(&q, OcrRun::Done(TABLE.as_bytes().to_vec())).ok().unwrap();
    let averages = [Some(json("85.0")), None];
    let v = to_value(&vision_to_context(&q, &r, &averages));
    assert_eq!(v["status"], "ok");
    assert_eq!(v["mode"], "fast");
    assert_eq!(v["image_path"], "a.png");
    assert_eq!(v["lang"], "por+eng");
    assert_eq!(v["page"], value(r#"{"width":640,"height":480}"#));
    assert_eq!(
        v["elements"],
        value(
            r#"[{"type":"text","label":"Olá mundo","x":10,"y":10,"w":80,"h":12,"conf_avg":85.0},
                {"type":"button","label":"Entrar","x":10,"y":50,"w":40,"h":12}]"#
        )
    );
    assert_eq!(v["semantic_tags"], value(r#"["auth_form"]"#));
    assert_eq!(v["paragraphs"], value("[]"));
    assert!(v["note"].as_str().unwrap().starts_with("Coordenadas vêm do OCR"));
    assert!(v["llm_block"].as_str().unwrap().contains("[2] button: \"Entrar\""));
    assert_eq!(v["text"], value(r#"["Olá mundo","Entrar"]"#));
}

#[test]
fn plain_text_has_lines_only() {
    let q = request(r#"{"image_path":"a.png","mode":"ocr_only"}"#);
    let r = read_image(&q, OcrRun::Done("  um \n\n dois\r\n \u{c}".as_bytes().to_vec())).ok().unwrap();
    let v = to_value(&vision_to_context(&q, &r, &[]));
    assert_eq!(v["text"], value(r#"["um","dois"]"#));
    assert_eq!(v["elements"], value("[]"));
    assert_eq!(v["page"], Value::Null);
    assert_eq!(v["mode"], "ocr_only");
    assert_eq!(v["summary"], "Imagem analisada: 2 linhas, 0 elementos (modo rápido).");
    assert_eq!(v["note"], "ocr_only: sem caixas; use fast/full para layout aproximado via TSV.");
}

#[test]
fn the_order_of_the_words_does_not_matter() {
    let make = || {
        vec![
            word(1, 30, 5, 5, "c"),
            word(2, 10, 50, 5, "x"),
            word(1, 10, 7, 5, "a"),
            word(2, 40, 52, 5, "y"),
            word(1, 20, 6, 5, "b"),
        ]
    };
    let describe = |words: &[WordBox]| {
        merge_words_to_elements(words)
            .into_iter()
            .map(|e| (e.label, e.x, e.y, e.w, e.h))
            .collect::<Vec<_>>()
    };
    let expected = describe(&make());
    assert_eq!(expected[0].0, "a b c");
    assert_eq!(expected[1].0, "x y");
    for turn in 1..5 {
        let mut words = make();
        words.rotate_left(turn);
        assert_eq!(describe(&words), expected);
        words.reverse();
        assert_eq!(describe(&words), expected);
    }
}

#[test]
fn joined_tables_are_read_independently() {
    let row = |level: u32, w: i32, text: &str| format!("{level}\t1\t1\t1\t1\t1\t2\t3\t{w}\t9\t50\t{text}");
    let describe = |t: &str| {
        let t = parse_tsv_words(t);
        let words: Vec<String> = t.words.iter().map(|w| w.text.clone()).collect();
        (t.page_size, words, t.paragraphs, t.ocr_lines)
    };
    let tables = [
        String::new(),
        "\r".to_string(),
        row(5, 1, "a"),
        row(5, 1, "b\r"),
        format!("{}\n", row(1, 640, "")),
        format!("{}\n{}\n{}", row(1, 10, ""), row(4, 1, "linha"), row(3, 1, "par")),
        format!("{}\n\n{}\r\n", row(1, 0, ""), row(5, 1, "c\td")),
    ];
    for a in &tables {
        for b in &tables {
            let (p1, mut w, mut g, mut l) = describe(a);
            let (p2, w2, g2, l2) = describe(b);
            w.extend(w2);
            g.extend(g2);
            l.extend(l2);
            assert_eq!(describe(&format!("{a}\n{b}")), (p2.or(p1), w, g, l), "{a:?} {b:?}");
        }
    }
}
