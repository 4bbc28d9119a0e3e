use serde_json::Value;
use toolmind::codec::{parse, to_value};
use toolmind::extract::{choose_call, extract_tool_call, slice_last_balanced_tool_json};
use toolmind::journal::{
    action_log, automation_log, create_tool, line_appended, reflect_session, tool_requested,
};
use toolmind::json::Json;
use toolmind::reply::after_writing;
use toolmind::thinking::{spinner_frame, spinner_phase, thinking_json_prefix};

fn json(s: &str) -> Json {
    parse(s).unwrap()
}

fn value(s: &str) -> Value {
    serde_json::from_str(s).unwrap()
}

fn error_of<T>(r: Result<T, Json>) -> String {
    match r {
        Ok(_) => panic!("accepted"),
        Err(e) => to_value(&e)["error"].as_str().unwrap().to_string(),
    }
}

fn call(s: &str) -> Option<(String, Value)> {
    extract_tool_call(s).map(|c| (c.name, to_value(&c.input)))
}

#[test]
fn steps_of_automation_are_logged() {
    let line = automation_log(&json(r#"{"step":"abrir","detail":"d\n2"}"#), 42).ok().unwrap();
    assert!(line.ends_with("}\n"));
    assert_eq!(line.lines().count(), 1);
    assert_eq!(value(&line), value(r#"{"ts_ms":42,"level":"info","step":"abrir","detail":"d\n2"}"#));
    let line = automation_log(&json("{}"), 1).ok().unwrap();
    assert_eq!(value(&line), value(r#"{"ts_ms":1,"level":"info","step":"step","detail":""}"#));
    for input in [
        format!(r#"{{"step":"{}"}}"#, "a".repeat(513)),
        format!(r#"{{"detail":"{}"}}"#, "a".repeat(8193)),
        format!(r#"{{"level":"{}"}}"#, "ç".repeat(17)),
    ] {
        assert_eq!(error_of(automation_log(&json(&input), 1)), "step/detail/level demasiado longos");
    }
    let fits = format!(r#"{{"step":"{}","level":"{}"}}"#, "a".repeat(512), "ç".repeat(16));
    assert!(automation_log(&json(&fits), 1).is_ok());
}

#[test]
fn every_tool_that_was_run_is_logged() {
    let line = action_log("write_file", &json(r#"{"status":"ok"}"#), 7);
    assert_eq!(value(&line), value(r#"{"ts_ms":7,"level":"action","step":"write_file","detail":"ok"}"#));
    assert!(line.ends_with('\n'));
}

#[test]
fn reflections_need_a_critique() {
    let line = reflect_session(&json(r#"{"critique":"c","next_experiments":[1]}"#), 3).ok().unwrap();
    assert_eq!(
        value(&line),
        value(r#"{"critique":"c","improvement_hypothesis":"","severity":"medium","next_experiments":[1],"ts_ms":3}"#)
    );
    let line = reflect_session(&json(r#"{"critique":"c"}"#), 3).ok().unwrap();
    assert_eq!(value(&line)["next_experiments"], value("[]"));
    assert_eq!(error_of(reflect_session(&json(r#"{"critique":" "}"#), 3)), "preencha critique (texto obrigatório)");
}

#[test]
fn wanted_tools_are_noted() {
    let line = create_tool(&json(r#"{"name":"n","description":"d"}"#), 9);
    assert_eq!(
        value(&line),
        value(r#"{"name":"n","description":"d","suggested_impl":"","requested_at_ms":9}"#)
    );
    assert_eq!(value(&create_tool(&json("{}"), 9))["name"], "unknown");
    assert_eq!(
        to_value(&tool_requested(true, "p", &Ok(()))),
        value(r#"{"status":"ok","note":"Pedido anexado a .toolmind/pending_tools.jsonl para você integrar em Rust.","path":"p"}"#)
    );
    assert_eq!(to_value(&tool_requested(true, "p", &Err("x".to_string())))["error"], "x");
    assert_eq!(to_value(&tool_requested(false, "p", &Ok(())))["error"], "não foi possível criar .toolmind");
}

#[test]
fn appending_is_reported() {
    assert_eq!(to_value(&line_appended(true, "p", &Ok(()))), value(r#"{"status":"ok","path":"p"}"#));
    assert_eq!(to_value(&line_appended(true, "p", &Err("x".to_string())))["error"], "x");
    assert_eq!(to_value(&line_appended(false, "p", &Ok(())))["error"], "não foi possível criar .toolmind");
    assert_eq!(to_value(&after_writing(json("{\"a\":1}"), Ok(()))), value("{\"a\":1}"));
    assert_eq!(to_value(&after_writing(json("{}"), Err("e".to_string())))["error"], "e");
}

#[test]
fn a_plain_call_is_found() {
    assert_eq!(
        call("  {\"tool\":\"read_file\",\"input\":{\"filename\":\"a\"}}\n"),
        Some(("read_file".to_string(), value(r#"{"filename":"a"}"#)))
    );
    assert_eq!(call(r#"{"tool":"x"}"#), Some(("x".to_string(), Value::Null)));
    assert_eq!(call(r#"{"tool":7}"#), None);
    assert_eq!(call("só texto"), None);
    assert_eq!(call(""), None);
}

#[test]
fn a_call_in_a_block_is_found() {
    let s = "Vou usar:\n```json\n{\"tool\":\"a\",\"input\":1}\n```\ne depois\n```json\n {\"tool\":\"b\",\"input\":2} \n```\nfim";
    assert_eq!(call(s), Some(("b".to_string(), value("2"))));
    let open = "```json\n{\"tool\":\"a\",\"input\":1}\n``` e ```json sem fim";
    assert_eq!(call(open), Some(("a".to_string(), value("1"))));
}

#[test]
fn a_call_in_prose_is_found() {
    let s = "Texto {\"tool\":\"a\",\"input\":{\"x\":{\"y\":1}}} mais } lixo";
    assert_eq!(call(s), Some(("a".to_string(), value(r#"{"x":{"y":1}}"#))));
    let two = "{\"tool\":\"a\"} e {\"tool\":\"b\",\"input\":[]}";
    assert_eq!(call(two), Some(("b".to_string(), value("[]"))));
    assert_eq!(call("{\"tool\":\"a\""), None);
}

#[test]
fn the_last_balanced_object_is_cut_out() {
    let cut = slice_last_balanced_tool_json("x {\"tool\":\"ç\",\"input\":{}} y").unwrap();
    assert_eq!(cut, "{\"tool\":\"ç\",\"input\":{}}");
    assert!(cut.starts_with("{\"tool\"") && cut.ends_with('}'));
    assert_eq!(cut.matches('{').count(), cut.matches('}').count());
    assert_eq!(slice_last_balanced_tool_json("{\"tool\":{"), None);
    assert_eq!(slice_last_balanced_tool_json("{ \"tool\": 1}"), None);
}

#[test]
fn the_first_value_with_a_call_counts() {
    let a = Some(json(r#"{"tool":"a"}"#));
    let b = Some(json(r#"{"tool":"b"}"#));
    let c = Some(json(r#"{"tool":"c"}"#));
    let none = Some(json("{}"));
    let name = |x: &Option<Json>, y: &Option<Json>, z: &Option<Json>| choose_call(x, y, z).map(|c| c.name);
    assert_eq!(name(&a, &b, &c), Some("a".to_string()));
    assert_eq!(name(&none, &b, &c), Some("b".to_string()));
    assert_eq!(name(&None, &none, &c), Some("c".to_string()));
    assert_eq!(name(&None, &None, &None), None);
}

#[test]
fn thoughts_that_are_json_are_marked() {
    assert_eq!(thinking_json_prefix("  {\"tool\": 1"), Some("⎿ "));
    assert_eq!(thinking_json_prefix("{ \"input\""), Some("⎿ "));
    assert_eq!(thinking_json_prefix("\"tool\": x"), Some("⎿ … "));
    assert_eq!(thinking_json_prefix(" \"input\""), Some("⎿ … "));
    assert_eq!(thinking_json_prefix("tool\":"), Some("⎿ … "));
    assert_eq!(thinking_json_prefix("{ x }"), None);
    assert_eq!(thinking_json_prefix("texto"), None);
}

#[test]
fn the_spinner_goes_round() {
    let frames = ["⠋", "⠙", "⠹", "⠸", "⠼", "⠴", "⠦", "⠧", "⠇", "⠏"];
    let phases = [
        "conectando à API",
        "carregando mensagens",
        "aguardando o primeiro token",
        "modelo gerando texto",
        "avaliando ferramentas",
    ];
    for tick in 0..200u64 {
        assert_eq!(spinner_frame(tick), frames[(tick % 10) as usize]);
        assert_eq!(spinner_phase(tick), phases[((tick / 14) as usize).min(4)]);
    }
    assert_eq!(spinner_phase(u64::MAX), "avaliando ferramentas");
}

#[test]
fn braces_inside_strings_do_not_count() {
    let cut = |s: &str| slice_last_balanced_tool_json(s);
    let object = r#"{"tool":"w","input":{"c":"}"}}"#;
    assert_eq!(cut(&format!("ok {object} fim")).as_deref(), Some(object));
    let escaped = r#"{"tool":"w","input":"a\"}{\\"}"#;
    assert_eq!(cut(&format!("{escaped} }}")).as_deref(), Some(escaped));
    assert_eq!(
        call(&format!("ok {object} fim")),
        Some(("w".to_string(), value(r#"{"c":"}"}"#)))
    );
    assert_eq!(cut(r#"{"tool":"sem fim }"#), None);
}
