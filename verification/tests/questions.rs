use serde_json::Value;
use toolmind::ask::{
    animate_ask_prelude, ask_user_choice, ask_user_choice_dialoguer, ask_user_choice_simple,
    finalize_choice_json, find_other_option_index, options_already_include_other_slot, Choice,
    Picked, Question,
};
use toolmind::codec::{parse, to_value};
use toolmind::json::Json;

const OTHER: &str = "✎ Outro — resposta livre (texto customizado)";

fn json(s: &str) -> Json {
    parse(s).unwrap()
}

fn value(s: &str) -> Value {
    serde_json::from_str(s).unwrap()
}

fn question(s: &str) -> Question {
    ask_user_choice(&json(s)).ok().unwrap()
}

fn error_of<T>(r: Result<T, Json>) -> String {
    match r {
        Ok(_) => panic!("accepted"),
        Err(e) => to_value(&e)["error"].as_str().unwrap_or("?").to_string(),
    }
}

fn list(items: &[&str]) -> Vec<String> {
    items.iter().map(|s| s.to_string()).collect()
}

#[test]
fn a_question_gets_a_free_option() {
    let q = question(r#"{"question":"Qual?","options":["a","b"],"subtitle":"sub","default_index":9}"#);
    assert_eq!(q.question, "Qual?");
    assert_eq!(q.options, ["a", "b", OTHER]);
    assert_eq!(q.default_index, 2);
    assert_eq!(q.prompt(), "Qual?\nsub");
    assert!(!q.simple && !q.animate);
    let q = question(r#"{"options":["a"]}"#);
    assert_eq!(q.question, "Escolha:");
    assert_eq!(q.options, ["a", OTHER]);
    assert_eq!(q.prompt(), "Escolha:");
    assert_eq!(q.default_index, 0);
    let q = question(r#"{"options":["a"," OUTRO "],"ui_mode":"simple","animate_intro":true,"subtitle":"","default_index":1}"#);
    assert_eq!(q.options, ["a", " OUTRO ", OTHER]);
    assert!(q.simple && q.animate);
    assert_eq!(q.default_index, 1);
    assert!(q.subtitle.is_none());
    let q = question(r#"{"options":["a","b"],"include_other":false}"#);
    assert_eq!(q.options, ["a", "b"]);
}

#[test]
fn a_question_needs_options() {
    assert_eq!(error_of(ask_user_choice(&json("{}"))), "options não pode ser vazio");
    assert_eq!(error_of(ask_user_choice(&json(r#"{"options":[1,2]}"#))), "options não pode ser vazio");
    assert_eq!(
        error_of(ask_user_choice(&json(r#"{"options":["a"],"include_other":false}"#))),
        "inclua pelo menos 2 opções ou defina include_other: true para adicionar 'Outro'."
    );
    assert_eq!(
        error_of(ask_user_choice(&json(r#"{"options":["✎ Outro"]}"#))),
        "é necessário ao menos 2 opções no total."
    );
}

#[test]
fn free_options_are_known() {
    assert!(options_already_include_other_slot(&list(&["a", "✎ Outro x"])));
    assert!(!options_already_include_other_slot(&list(&["Outro"])));
    assert!(!options_already_include_other_slot(&list(&["outros", "x ✎ Outro"])));
    assert_eq!(find_other_option_index(&list(&["a", OTHER, OTHER])), Some(1));
    assert_eq!(find_other_option_index(&list(&["outro"])), None);
}

#[test]
fn options_go_round_before_the_menu() {
    let frames = animate_ask_prelude(&list(&["a", "b"]), true);
    assert_eq!(frames, ["[1] a", "[2] b", "[1] a", "[2] b", "[1] a", "[2] b"]);
    let many = list(&["x"; 30]);
    assert_eq!(animate_ask_prelude(&many, true).len(), 22);
    assert_eq!(animate_ask_prelude(&many, false).len(), 0);
    assert_eq!(animate_ask_prelude(&[], true).len(), 0);
    let long = vec!["ç".repeat(100)];
    assert_eq!(animate_ask_prelude(&long, true)[0], format!("[1] {}", "ç".repeat(70)));
}

#[test]
fn a_typed_line_is_a_choice() {
    let options = list(&["a", "b", OTHER]);
    let ok = |line: &str| ask_user_choice_simple(&options, line).ok().unwrap();
    assert!(ok(" 1 \n") == Choice::Preset(0));
    assert!(ok("2") == Choice::Preset(1));
    assert!(ok("3") == Choice::Free(2));
    assert!(ok("o\n") == Choice::Free(2));
    assert!(ok("OUTRO") == Choice::Free(2));
    for (line, message) in [
        ("0", "número fora do intervalo"),
        ("4", "número fora do intervalo"),
        ("x", "número inválido"),
        ("", "número inválido"),
        ("-1", "número inválido"),
    ] {
        assert_eq!(error_of(ask_user_choice_simple(&options, line)), message);
    }
    assert_eq!(
        error_of(ask_user_choice_simple(&list(&["a", "b"]), "o")),
        "esta pergunta não tem opção Outro"
    );
}

#[test]
fn a_menu_gives_a_choice() {
    let options = list(&["a", OTHER]);
    let pick = |p: Picked| ask_user_choice_dialoguer(&options, &p);
    assert!(pick(Picked::Option(0)).ok().unwrap() == Choice::Preset(0));
    assert!(pick(Picked::Option(1)).ok().unwrap() == Choice::Free(1));
    let cancelled = value(
        r#"{"status":"cancelled","message":"Seleção cancelada (Esc). Chame ask_user_choice novamente ou siga em modo texto se o usuário preferir."}"#,
    );
    assert_eq!(to_value(&pick(Picked::Nothing).err().unwrap()), cancelled);
    assert_eq!(to_value(&pick(Picked::Failed("cancelled".to_string())).err().unwrap()), cancelled);
    assert_eq!(
        error_of(pick(Picked::Failed("sem tty".to_string()))),
        "sem tty. Tente ui_mode: \"simple\"."
    );
}

#[test]
fn a_choice_is_reported() {
    let q = question(r#"{"question":"Q","options":["a","b"],"footer_hint":"f"}"#);
    assert_eq!(
        to_value(&finalize_choice_json(&q, 1, None)),
        value(r#"{"status":"ok","kind":"preset","index":1,"selected_index":1,"choice":"b","question":"Q","subtitle":"","footer_hint":"f"}"#)
    );
    assert_eq!(
        to_value(&finalize_choice_json(&q, 2, Some("  livre \n"))),
        value(r#"{"status":"ok","kind":"other","index":2,"selected_index":2,"choice":"livre","question":"Q","subtitle":"","footer_hint":"f","free_text":"livre"}"#)
    );
    let empty = to_value(&finalize_choice_json(&q, 2, Some(" ")));
    assert_eq!(empty["choice"], "[Outro · sem texto]");
    assert_eq!(empty["free_text"], "");
    assert_eq!(to_value(&finalize_choice_json(&q, 2, None))["free_text"], "");
    assert_eq!(to_value(&finalize_choice_json(&q, 0, Some("x"))).get("free_text"), None);
}

#[test]
fn a_free_answer_is_always_offered() {
    let q = question(r#"{"options":["Sim","outro"],"ui_mode":"simple"}"#);
    assert_eq!(q.options, ["Sim", "outro", OTHER]);
    assert!(ask_user_choice_simple(&q.options, "o\n").ok().unwrap() == Choice::Free(2));
    assert!(ask_user_choice_simple(&q.options, "2").ok().unwrap() == Choice::Preset(1));
    let reply = to_value(&finalize_choice_json(&q, 2, Some("talvez\n")));
    assert_eq!(reply["status"], "ok");
    assert_eq!(reply["kind"], "other");
    assert_eq!(reply["free_text"], "talvez");
}
