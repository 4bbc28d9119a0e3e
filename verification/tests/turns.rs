use serde_json::Value;
use toolmind::agent::{
    read_user_line, recover, refuse_duplicate, refuse_unknown, tool_feedback, with_progress,
    Conversation, Decision, Failure, Recovery, Turn, UserLine,
};
use toolmind::chain::{chain_halts, next_step, tell_result, Step};
use toolmind::codec::{parse, to_value};
use toolmind::config::Settings;
use toolmind::extract::ToolCall;
use toolmind::json::Json;
use toolmind::plan::update_plan_step;
use toolmind::prompt::system_prompt;
use toolmind::registry::{Tool, ToolKind, ToolRegistry};
use toolmind::retry::{
    calc_backoff_sleep_secs, double_backoff, http_status_retryable, parse_retry_after_seconds,
    reqwest_error_retryable, NetworkError,
};
use toolmind::tools::agent_registry;

fn json(s: &str) -> Json {
    parse(s).unwrap()
}

fn value(s: &str) -> Value {
    serde_json::from_str(s).unwrap()
}

fn call(name: &str, input: &str) -> ToolCall {
    ToolCall { name: name.to_string(), input: json(input) }
}

fn none() -> NetworkError {
    NetworkError { timeout: false, connect: false, status: None }
}

#[test]
fn the_user_types_commands_and_messages() {
    assert!(matches!(read_user_line(" exit \n"), UserLine::Exit));
    assert!(matches!(read_user_line("PaRaR\n"), UserLine::Disarm));
    match read_user_line("  faça isto\n") {
        UserLine::Message(m) => assert_eq!(m, "faça isto"),
        _ => panic!(),
    }
    assert!(matches!(read_user_line("Exit"), UserLine::Message(_)));
    assert!(matches!(read_user_line(""), UserLine::Message(_)));
}

#[test]
fn a_request_holds_the_whole_conversation() {
    let mut c = Conversation::new("prompt");
    c.say("user", "olá");
    c.say("assistant", "oi");
    assert_eq!(
        to_value(&c.request("m")),
        value(r#"{"model":"m","messages":[{"role":"system","content":"prompt"},{"role":"user","content":"olá"},{"role":"assistant","content":"oi"}],"stream":true}"#)
    );
    c.retract();
    assert_eq!(to_value(&c.request("m"))["messages"].as_array().unwrap().len(), 2);
}

#[test]
fn some_statuses_are_worth_another_try() {
    for code in 0..1000u16 {
        let expected = code == 408 || code == 429 || (500..=599).contains(&code);
        assert_eq!(http_status_retryable(code), expected);
        assert_eq!(reqwest_error_retryable(NetworkError { status: Some(code), ..none() }), expected);
    }
    assert!(reqwest_error_retryable(NetworkError { timeout: true, ..none() }));
    assert!(reqwest_error_retryable(NetworkError { connect: true, ..none() }));
    assert!(!reqwest_error_retryable(none()));
}

#[test]
fn the_server_may_ask_for_a_wait() {
    assert_eq!(parse_retry_after_seconds(Some(" 12 ")), Some(12));
    assert_eq!(parse_retry_after_seconds(Some("Wed, 21 Oct 2015 07:28:00 GMT")), None);
    assert_eq!(parse_retry_after_seconds(Some("-1")), None);
    assert_eq!(parse_retry_after_seconds(None), None);
}

#[test]
fn waits_are_bounded() {
    assert_eq!(calc_backoff_sleep_secs(2, 1, None), 2);
    assert_eq!(calc_backoff_sleep_secs(0, 1, None), 1);
    assert_eq!(calc_backoff_sleep_secs(1000, 1, None), 300);
    assert_eq!(calc_backoff_sleep_secs(2, 5, None), 47);
    assert_eq!(calc_backoff_sleep_secs(2, 4, Some(10)), 10);
    assert_eq!(calc_backoff_sleep_secs(2, 5, Some(290)), 300);
    assert_eq!(calc_backoff_sleep_secs(2, 0, Some(600)), 600);
    assert_eq!(calc_backoff_sleep_secs(99, 7, Some(600)), 600);
    assert_eq!(calc_backoff_sleep_secs(2, 0, Some(0)), 1);
    assert_eq!(calc_backoff_sleep_secs(2, 0, Some(u64::MAX)), u64::MAX);
    let mut b = 2;
    let mut seen = Vec::new();
    for _ in 0..8 {
        seen.push(b);
        b = double_backoff(b);
    }
    assert_eq!(seen, [2, 4, 8, 16, 32, 64, 120, 120]);
}

#[test]
fn a_failed_request_is_repeated_with_growing_pauses() {
    let mut c = Conversation::new("p");
    c.say("user", "u");
    let mut t = Turn::new();
    assert_eq!(t.header(true), "Analisando seu pedido");
    let f = Failure::Network { error: NetworkError { connect: true, ..none() }, message: "sem rede".to_string() };
    let mut pauses = Vec::new();
    for i in 1..=7u32 {
        match recover(&mut c, &mut t, &f, 77) {
            Recovery::Retry { sleep_secs, fails, frozen } => {
                assert_eq!(fails, i);
                pauses.push(sleep_secs);
                assert_eq!(
                    value(&frozen),
                    value(r#"{"saved_at_ms":77,"reason":"network","http_status":null,"detail_preview":"sem rede","tool_chain_count":0,"last_tool_sig":null,"messages":[{"role":"system","content":"p"},{"role":"user","content":"u"}]}"#)
                );
            }
            _ => panic!(),
        }
    }
    assert_eq!(pauses, [2, 4, 8, 16, 77, 109, 165]);
    t.succeeded();
    assert_eq!(t.fails(), 0);
    assert!(!t.is_first());
    assert_eq!(t.header(true), "Plano ativo · próxima ferramenta");
    assert_eq!(t.header(false), "Continuando após ferramenta");
    match recover(&mut c, &mut t, &f, 0) {
        Recovery::Retry { sleep_secs, .. } => assert_eq!(sleep_secs, 2),
        _ => panic!(),
    }
}

#[test]
fn a_failed_reply_is_kept_with_the_turn() {
    let mut c = Conversation::new("p");
    let mut t = Turn::new();
    assert!(t.decide(&call("read_file", r#"{"filename":"a"}"#)) == Decision::Run);
    t.ran(&call("read_file", r#"{"filename":"a"}"#));
    let f = Failure::Http { code: 429, retry_after: Some("30".to_string()), body: "x".repeat(900) };
    match recover(&mut c, &mut t, &f, 1) {
        Recovery::Retry { sleep_secs, fails, frozen } => {
            assert_eq!((sleep_secs, fails), (30, 1));
            let v = value(&frozen);
            assert_eq!(v["reason"], "http");
            assert_eq!(v["http_status"], 429);
            assert_eq!(v["detail_preview"].as_str().unwrap().len(), 800);
            assert_eq!(v["tool_chain_count"], 1);
            assert_eq!(v["last_tool_sig"], value(r#"{"tool":"read_file","input_sig":"{\"filename\":\"a\"}"}"#));
        }
        _ => panic!(),
    }
}

#[test]
fn a_hopeless_failure_takes_the_message_back() {
    let mut c = Conversation::new("p");
    c.say("user", "u");
    let mut t = Turn::new();
    let f = Failure::Http { code: 401, retry_after: None, body: "ç".repeat(600) };
    match recover(&mut c, &mut t, &f, 1) {
        Recovery::GiveUp { shown } => assert_eq!(shown, "ç".repeat(500)),
        _ => panic!(),
    }
    assert_eq!(to_value(&c.request("m"))["messages"].as_array().unwrap().len(), 1);
    c.say("user", "u");
    t.succeeded();
    let f = Failure::Network { error: none(), message: "x".to_string() };
    assert!(matches!(recover(&mut c, &mut t, &f, 1), Recovery::Quit));
    assert_eq!(to_value(&c.request("m"))["messages"].as_array().unwrap().len(), 2);
}

#[test]
fn at_most_48_tools_are_run_in_a_turn() {
    let mut t = Turn::new();
    let mut run = 0;
    for i in 0..100 {
        let c = call("read_file", &format!("{{\"n\":{i}}}"));
        match t.decide(&c) {
            Decision::Run => {
                run += 1;
                t.ran(&c);
            }
            Decision::Limit => break,
            Decision::Duplicate => panic!(),
        }
    }
    assert_eq!(run, 48);
    let mut c = Conversation::new("p");
    c.stop_chain("resposta");
    let v = to_value(&c.request("m"));
    assert_eq!(v["messages"][1], value(r#"{"role":"assistant","content":"resposta"}"#));
    assert_eq!(v["messages"][2]["role"], "user");
    assert_eq!(
        v["messages"][2]["content"],
        "Sistema: limite de 48 ferramentas por mensagem atingido. Responda ao usuário em texto: o que já foi feito e o que falta."
    );
}

#[test]
fn the_same_call_is_not_run_twice() {
    let mut t = Turn::new();
    let c = call("write_file", r#"{"b":1,"a":2}"#);
    assert!(t.decide(&c) == Decision::Run);
    t.ran(&c);
    assert!(t.decide(&call("write_file", r#"{"a":2,"b":1}"#)) == Decision::Duplicate);
    assert!(t.decide(&call("write_file", r#"{"a":3,"b":1}"#)) == Decision::Run);
    assert!(t.decide(&call("append_file", r#"{"a":2,"b":1}"#)) == Decision::Run);
    assert_eq!(to_value(&refuse_duplicate("write_file"))["status"], "skipped_duplicate");
    assert_eq!(to_value(&refuse_duplicate("write_file"))["tool"], "write_file");
    assert_eq!(to_value(&refuse_unknown("xyz"))["error"], "tool 'xyz' não registrada");
}

#[test]
fn the_model_is_told_of_results() {
    let r = json(r#"{"status":"ok"}"#);
    assert_eq!(tool_feedback("t", &r), "Resultado da tool `t`:\n{\n  \"status\": \"ok\"\n}");
    let r = with_progress(r, Some(json("{\"n\":1}")));
    assert_eq!(to_value(&r), value(r#"{"status":"ok","plan_progress":{"n":1}}"#));
    assert!(tool_feedback("t", &r).ends_with("envie só o JSON da próxima chamada, sem prosa na mesma mensagem."));
    assert_eq!(to_value(&with_progress(json("{}"), None)), value("{}"));
}

#[test]
fn the_agent_has_fifty_tools() {
    let r = agent_registry();
    let names = r.names();
    assert_eq!(names.len(), 50);
    for n in &names {
        let kind = r.execute(n).unwrap();
        assert_eq!(format!("{kind:?}").to_lowercase(), n.replace('_', ""));
    }
    assert_eq!(r.execute("rm_rf"), None);
    let block = r.system_tools_block();
    assert_eq!(block.lines().count(), 50);
    assert!(block.starts_with("- write_file — Escreve/sobrescreve arquivo"));
    assert!(block.lines().last().unwrap().starts_with("- create_tool — "));
}

#[test]
fn the_last_tool_with_a_name_counts() {
    let mut r = ToolRegistry::new();
    let tool = |d: &str, kind| Tool { name: "a".to_string(), description: d.to_string(), kind };
    r.register(tool("um", ToolKind::GitLog));
    r.register(Tool { name: "b".to_string(), description: "dois".to_string(), kind: ToolKind::ReadFile });
    r.register(tool("três", ToolKind::GitShow));
    assert_eq!(r.execute("a"), Some(ToolKind::GitShow));
    assert_eq!(r.execute("b"), Some(ToolKind::ReadFile));
    assert_eq!(r.system_tools_block(), "- a — três\n- b — dois\n- a — três");
    assert_eq!(ToolRegistry::new().system_tools_block(), "");
}

#[test]
fn the_prompt_lists_the_tools() {
    let p = system_prompt("- x — y", None);
    assert!(p.starts_with("Você é um agente com ferramentas REAIS"));
    assert!(p.contains("{\"tool\": \"nome_da_tool\", \"input\": { ... }}"));
    assert!(p.ends_with("Tools disponíveis:\n- x — y\n"));
    assert_eq!(system_prompt("- x — y", Some("# Personalidade")), format!("{p}\n# Personalidade"));
}

#[test]
fn settings_have_two_names() {
    let s = |a: Option<&str>, b: Option<&str>, u: Option<&str>, m: Option<&str>, n: Option<&str>| Settings {
        api_key: a.map(String::from),
        nvidia_api_key: b.map(String::from),
        api_url: u.map(String::from),
        model: m.map(String::from),
        nvidia_model: n.map(String::from),
    };
    let all = s(Some("k"), Some("n"), Some("https://x.y//"), Some("m"), Some("o"));
    assert_eq!(all.key(), Ok("k".to_string()));
    assert_eq!(all.model_name(), "m");
    assert_eq!(all.endpoint(), "https://x.y/v1/chat/completions");
    let old = s(None, Some("n"), None, None, Some("o"));
    assert_eq!(old.key(), Ok("n".to_string()));
    assert_eq!(old.model_name(), "o");
    assert_eq!(old.endpoint(), "https://integrate.api.nvidia.com/v1/chat/completions");
    let nothing = s(None, None, None, None, None);
    assert!(nothing.key().unwrap_err().starts_with("API_KEY não encontrada."));
    assert_eq!(nothing.model_name(), "z-ai/glm-5.1");
}

#[test]
fn an_answer_leads_to_the_next_step() {
    let registry = agent_registry();
    let mut c = Conversation::new("p");
    let mut t = Turn::new();
    let mut next = |c: &mut Conversation, answer: &str| next_step(c, &mut t, &registry, answer);
    match next(&mut c, r#"{"tool":"read_file","input":{"filename":"a"}}"#) {
        Step::Run { call, kind } => {
            assert_eq!(kind, ToolKind::ReadFile);
            let told = tell_result(&mut c, &call, json(r#"{"status":"ok"}"#), Some(json("{}")));
            assert!(!told.halted);
            assert_eq!(to_value(&told.result), value(r#"{"status":"ok","plan_progress":{}}"#));
        }
        _ => panic!(),
    }
    match next(&mut c, r#"{"tool":"read_file","input":{"filename":"a"}}"#) {
        Step::Duplicate { reply, .. } => assert_eq!(to_value(&reply)["status"], "skipped_duplicate"),
        _ => panic!(),
    }
    match next(&mut c, r#"{"tool":"nada","input":{}}"#) {
        Step::Unknown { reply, .. } => assert_eq!(to_value(&reply)["error"], "tool 'nada' não registrada"),
        _ => panic!(),
    }
    let said = |c: &Conversation| to_value(&c.request("m"))["messages"].as_array().unwrap().len();
    assert_eq!(said(&c), 2);
    assert!(matches!(next(&mut c, "pronto"), Step::Finished));
    assert_eq!(said(&c), 3);
    let mut run = 1;
    for i in 0..100 {
        match next(&mut c, &format!(r#"{{"tool":"read_file","input":{i}}}"#)) {
            Step::Run { .. } => run += 1,
            Step::Stopped => break,
            _ => panic!(),
        }
    }
    assert_eq!(run, 46);
    assert_eq!(said(&c), 5);
}

#[test]
fn a_halt_ends_the_chain() {
    let progress = r#"{"step_statuses":["pending"],"halt_requested":false}"#;
    for (input, halted) in [
        (r#"{"step_index":0,"halt_execution":true}"#, true),
        (r#"{"step_index":0,"halt_execution":false}"#, false),
        (r#"{"step_index":0}"#, false),
    ] {
        let u = update_plan_step(&json(input), Some(progress)).ok().unwrap();
        assert_eq!(chain_halts(&u.reply), halted);
        let mut c = Conversation::new("p");
        let told = tell_result(&mut c, &call("update_plan_step", input), u.reply, Some(json("{}")));
        assert_eq!(told.halted, halted);
    }
    assert!(!chain_halts(&json(r#"{"status":"error","error":"x"}"#)));
}
