use serde_json::Value;
use toolmind::codec::{parse, to_value};
use toolmind::json::Json;
use toolmind::panel::{render_plan_execution_panel, step_line_preview, PanelStyle};
use toolmind::plan::{
    load_plan, plan_execution_active_for_spinner, plan_progress_apply_optional_mark, plan_saved,
    save_plan, update_plan_step,
};

fn json(s: &str) -> Json {
    parse(s).unwrap()
}

fn value(s: &str) -> Value {
    serde_json::from_str(s).unwrap()
}

const PROGRESS: &str = r#"{"title":"T","plan_sync_key":5,"step_statuses":["pending","in_progress","pending","pending"],"halt_requested":false,"halt_reason":"","extra":1}"#;

#[test]
fn a_saved_plan_is_loaded_again() {
    let input = json(r#"{"title":"Meu plano","steps":["um",{"x":1},"três"],"risks":["r"],"notes":"n"}"#);
    let files = save_plan(&input, 1234);
    assert_eq!(
        value(&files.plan),
        value(
            r#"{"title":"Meu plano","steps":["um",{"x":1},"três"],"saved_at_ms":1234,"risks":["r"],"open_questions":[],"definition_of_done":[],"assumptions":[],"notes":"n","alternatives_rejected":[]}"#
        )
    );
    assert_eq!(
        value(&files.progress),
        value(
            r#"{"title":"Meu plano","plan_sync_key":1234,"step_statuses":["pending","pending","pending"],"halt_requested":false,"halt_reason":""}"#
        )
    );
    let loaded = to_value(&load_plan(Ok(files.plan.clone()), Ok(files.progress.clone())));
    assert_eq!(loaded["status"], "ok");
    assert_eq!(loaded["plan"], value(&files.plan));
    assert_eq!(loaded["progress"], value(&files.progress));
}

#[test]
fn a_plan_may_lack_everything() {
    let files = save_plan(&json("{}"), 0);
    let plan = value(&files.plan);
    assert_eq!(plan["title"], "plano");
    assert_eq!(plan["steps"], Value::Null);
    assert_eq!(plan["notes"], "");
    assert_eq!(value(&files.progress)["step_statuses"], value("[]"));
}

#[test]
fn loading_says_what_is_missing() {
    let no = || Err("não há".to_string());
    assert_eq!(to_value(&load_plan(no(), no())), value(r#"{"status":"error","error":"não há"}"#));
    let broken = to_value(&load_plan(Ok("{".to_string()), no()));
    assert_eq!(broken["error"], serde_json::from_str::<Value>("{").unwrap_err().to_string());
    assert_eq!(
        to_value(&load_plan(Ok("{}".to_string()), no())),
        value(r#"{"status":"ok","plan":{}}"#)
    );
    assert_eq!(
        to_value(&load_plan(Ok("{}".to_string()), Ok("x".to_string()))),
        value(r#"{"status":"ok","plan":{}}"#)
    );
}

#[test]
fn saving_is_reported() {
    let e = || Err("x".to_string());
    let r = to_value(&plan_saved(true, "p/current_plan.json", &Ok(()), &Ok(())));
    assert_eq!(r["path"], "p/current_plan.json");
    assert_eq!(r["plan_progress_path"], ".toolmind/plan_progress.json");
    assert!(r["hint"].as_str().unwrap().starts_with("Progresso: update_plan_step"));
    let r = to_value(&plan_saved(true, "p", &Ok(()), &e()));
    assert_eq!(r["plan_progress_path"], "(progresso não inicializado: x)");
    assert_eq!(to_value(&plan_saved(true, "p", &e(), &Ok(())))["error"], "x");
    assert_eq!(
        to_value(&plan_saved(false, "p", &Ok(()), &Ok(())))["error"],
        "não foi possível criar .toolmind"
    );
}

#[test]
fn a_step_that_is_done_takes_earlier_ones_along() {
    let u = update_plan_step(&json(r#"{"step_index":2}"#), Some(PROGRESS)).ok().unwrap();
    let p = value(&u.text);
    assert_eq!(p["step_statuses"], value(r#"["done","done","done","pending"]"#));
    assert_eq!(p["halt_requested"], false);
    assert_eq!(p["extra"], 1);
    assert_eq!(
        to_value(&u.reply),
        value(r#"{"status":"ok","step_index":2,"status_applied":"done","halt_requested":false}"#)
    );
    let u = update_plan_step(&json(r#"{"index":2,"status":"in_progress"}"#), Some(PROGRESS)).ok().unwrap();
    assert_eq!(
        value(&u.text)["step_statuses"],
        value(r#"["pending","in_progress","in_progress","pending"]"#)
    );
}

#[test]
fn a_halt_is_asked_for_and_stays() {
    let u = update_plan_step(
        &json(r#"{"step_index":0,"status":"pending","halt_execution":true}"#),
        Some(PROGRESS),
    )
    .ok()
    .unwrap();
    let p = value(&u.text);
    assert_eq!(p["halt_requested"], true);
    assert_eq!(p["halt_reason"], "parada solicitada pelo agente");
    let again = update_plan_step(&json(r#"{"step_index":3,"halt_execution":false}"#), Some(&u.text)).ok().unwrap();
    assert_eq!(value(&again.text)["halt_requested"], true);
    assert!(!plan_execution_active_for_spinner(Some(&again.text)));
    let u = update_plan_step(
        &json(r#"{"step_index":0,"halt_execution":true,"halt_reason":"fim"}"#),
        Some(PROGRESS),
    )
    .ok()
    .unwrap();
    assert_eq!(value(&u.text)["halt_reason"], "fim");
}

#[test]
fn an_update_may_be_refused() {
    let message = |input: &str, raw: Option<&str>| match update_plan_step(&json(input), raw) {
        Ok(_) => panic!("accepted"),
        Err(e) => to_value(&e)["error"].as_str().unwrap().to_string(),
    };
    assert_eq!(message("{}", Some(PROGRESS)), "step_index (ou index) é obrigatório");
    assert_eq!(
        message(r#"{"step_index":0,"status":"x"}"#, Some(PROGRESS)),
        "status deve ser: done | in_progress | pending"
    );
    assert_eq!(
        message(r#"{"step_index":0}"#, None),
        "plan_progress.json não encontrado; execute save_plan antes."
    );
    assert_eq!(
        message(r#"{"step_index":0}"#, Some("{")),
        serde_json::from_str::<Value>("{").unwrap_err().to_string()
    );
    assert_eq!(message(r#"{"step_index":0}"#, Some("{}")), "step_statuses ausente ou inválido");
    assert_eq!(
        message(r#"{"step_index":4}"#, Some(PROGRESS)),
        "step_index 4 fora do intervalo (0..4)"
    );
}

#[test]
fn a_tool_that_succeeded_marks_steps() {
    let ok = json(r#"{"status":"ok"}"#);
    let mark = |input: &str, result: &Json, raw: Option<&str>| {
        plan_progress_apply_optional_mark(&json(input), result, raw)
    };
    let u = mark(r#"{"plan_mark_done_through_step":1}"#, &ok, Some(PROGRESS)).unwrap();
    assert_eq!(value(&u.text)["step_statuses"], value(r#"["done","done","pending","pending"]"#));
    assert_eq!(
        to_value(&u.reply),
        value(r#"{"marked_done_through_step_index":1,"requested_through":1,"note":"plan_progress.json atualizado via plan_mark_done_through_step no input da tool."}"#)
    );
    let u = mark(r#"{"plan_mark_done_through_step":99}"#, &ok, Some(PROGRESS)).unwrap();
    assert_eq!(value(&u.text)["step_statuses"], value(r#"["done","done","done","done"]"#));
    assert_eq!(to_value(&u.reply)["marked_done_through_step_index"], 3);
    assert_eq!(to_value(&u.reply)["requested_through"], 99);
    let failed = json(r#"{"status":"error"}"#);
    assert!(mark(r#"{"plan_mark_done_through_step":1}"#, &failed, Some(PROGRESS)).is_none());
    assert!(mark(r#"{"plan_mark_done_through_step":null}"#, &ok, Some(PROGRESS)).is_none());
    assert!(mark(r#"{"plan_mark_done_through_step":-1}"#, &ok, Some(PROGRESS)).is_none());
    assert!(mark("{}", &ok, Some(PROGRESS)).is_none());
    assert!(mark(r#"{"plan_mark_done_through_step":1}"#, &ok, None).is_none());
    assert!(mark(r#"{"plan_mark_done_through_step":1}"#, &ok, Some("x")).is_none());
    assert!(mark(r#"{"plan_mark_done_through_step":1}"#, &ok, Some(r#"{"step_statuses":[]}"#)).is_none());
}

#[test]
fn a_plan_is_active_while_no_halt_is_asked_for() {
    assert!(plan_execution_active_for_spinner(Some(PROGRESS)));
    assert!(plan_execution_active_for_spinner(Some("{}")));
    assert!(!plan_execution_active_for_spinner(None));
    assert!(!plan_execution_active_for_spinner(Some("x")));
    assert!(!plan_execution_active_for_spinner(Some(r#"{"halt_requested":true}"#)));
}

#[test]
fn a_panel_is_drawn() {
    let plan = r#"{"title":"Plano A","steps":["primeiro",{"k":1},"terceiro"]}"#;
    let progress = r#"{"title":"","step_statuses":["done","in_progress","pending"],"halt_requested":false}"#;
    let lines = render_plan_execution_panel(Some(plan), Some(progress));
    assert_eq!(lines.len(), 9);
    for l in &lines {
        assert_eq!(l.text.chars().count(), 76);
    }
    assert_eq!(lines[0].text, format!("╔{}╗", "═".repeat(74)));
    assert_eq!(lines[1].text, format!("║{:<74}║", " PLANO · Plano A "));
    assert_eq!(lines[2].text, format!("╠{}╣", "═".repeat(74)));
    assert_eq!(lines[3].text, format!("║{:<74}║", "  1. ✓ primeiro"));
    assert_eq!(lines[4].text, format!("║{:<74}║", "  2. ⋯ {\"k\":1}"));
    assert_eq!(lines[5].text, format!("║{:<74}║", "  3. · terceiro"));
    assert!(lines[3].style == PanelStyle::Step && lines[0].style == PanelStyle::Frame);
    assert!(lines[7].style == PanelStyle::Running);
    assert_eq!(
        lines[7].text,
        format!("║{}║", " Em cadeia: conclua cada passo; pare só com update_plan_step (halt_execution:true). ".chars().take(74).collect::<String>())
    );
    assert_eq!(lines[8].text, format!("╚{}╝", "═".repeat(74)));
}

#[test]
fn the_foot_of_a_panel_tells_the_state() {
    let plan = r#"{"steps":["a","b"]}"#;
    let done = r#"{"title":"Outro título","step_statuses":["done","done"]}"#;
    let lines = render_plan_execution_panel(Some(plan), Some(done));
    assert!(lines[6].style == PanelStyle::Finished);
    assert_eq!(lines[6].text, format!("║{:<74}║", " Todas as etapas concluídas. "));
    assert_eq!(lines[1].text, format!("║{:<74}║", " PLANO · Outro título "));
    let halted = r#"{"step_statuses":["done"],"halt_requested":true,"halt_reason":"porque sim"}"#;
    let lines = render_plan_execution_panel(Some(plan), Some(halted));
    assert!(lines[6].style == PanelStyle::Halted);
    assert_eq!(lines[6].text, format!("║{:<74}║", " PARADO: porque sim"));
    assert_eq!(lines[4].text, format!("║{:<74}║", "  2. · b"));
    let lines = render_plan_execution_panel(Some(plan), None);
    assert!(lines[6].style == PanelStyle::Running);
    assert_eq!(lines[1].text, format!("║{:<74}║", " PLANO · Plano "));
    for raw in [None, Some("x"), Some("{}"), Some(r#"{"steps":[]}"#)] {
        assert_eq!(render_plan_execution_panel(raw, Some(done)).len(), 0);
    }
}

#[test]
fn long_steps_are_cut() {
    assert_eq!(step_line_preview(&json(r#""a\nb\u0007c""#), 10), "abc");
    assert_eq!(step_line_preview(&json(r#""abcdef""#), 3), "abc…");
    assert_eq!(step_line_preview(&json(r#""abc""#), 3), "abc");
    assert_eq!(step_line_preview(&json(r#"[1, 2]"#), 10), "[1,2]");
    let steps: Vec<String> = (0..12).map(|_| format!("\"{}\"", "ç".repeat(200))).collect();
    let plan = format!(r#"{{"steps":[{}]}}"#, steps.join(","));
    let lines = render_plan_execution_panel(Some(&plan), None);
    assert_eq!(lines.len(), 18);
    assert_eq!(lines[14].text, format!("║ 12. · {}…║", "ç".repeat(66)));
    for l in &lines {
        assert_eq!(l.text.chars().count(), 76);
    }
}
