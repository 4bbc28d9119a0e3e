use serde_json::Value;
use toolmind::codec::{parse, to_value};
use toolmind::command::{run_command_allowlist_hint, Platform};
use toolmind::host::{
    computer_survey, open_url, probe_on_path, runtime_host, survey_names, terminal_directory,
    terminal_open, terminal_opened, url_opened, HostFacts,
};
use toolmind::json::Json;

fn json(s: &str) -> Json {
    parse(s).unwrap()
}

fn value(s: &str) -> Value {
    serde_json::from_str(s).unwrap()
}

fn refusal<T>(r: Result<T, Json>) -> Value {
    match r {
        Ok(_) => panic!("accepted"),
        Err(e) => to_value(&e),
    }
}

#[test]
fn the_host_is_described() {
    let facts = HostFacts {
        os: "linux".to_string(),
        arch: "x86_64".to_string(),
        family: "unix".to_string(),
        cwd: Some("/w".to_string()),
        executable: None,
        comspec: None,
        shell: Some("/bin/sh".to_string()),
        path_present: true,
        wt_session: None,
        ssh_connection: None,
    };
    let r = to_value(&runtime_host(&facts));
    assert_eq!(r["status"], "ok");
    assert_eq!((r["os"].as_str(), r["arch"].as_str(), r["family"].as_str()), (Some("linux"), Some("x86_64"), Some("unix")));
    assert_eq!(r["cwd"], "/w");
    assert_eq!(r["executable"], Value::Null);
    assert_eq!(
        r["env"],
        value(r#"{"COMSPEC":null,"SHELL":"/bin/sh","PATH_present":true,"WT_SESSION":null,"SSH_CONNECTION":null}"#)
    );
    assert_eq!(r["allowlist_hint"], run_command_allowlist_hint());
    assert_eq!(r["command_playbook"]["macos"]["list_processes"], value(r#"["ps","aux"]"#));
}

#[test]
fn a_program_is_looked_for_in_each_directory() {
    let list: Vec<(String, String)> = probe_on_path("/bin::/usr/bin", ':', "git", "")
        .into_iter()
        .map(|c| (c.dir, c.name))
        .collect();
    assert_eq!(list, [("/bin".to_string(), "git".to_string()), ("/usr/bin".to_string(), "git".to_string())]);
    let list: Vec<(String, String)> = probe_on_path("C:\\a;D:\\b", ';', "git", ".exe")
        .into_iter()
        .map(|c| (c.dir, c.name))
        .collect();
    assert_eq!(list.len(), 4);
    assert_eq!(list[1], ("C:\\a".to_string(), "git.exe".to_string()));
    assert_eq!(probe_on_path("C:\\a", ';', "git.exe", ".exe").len(), 1);
    assert_eq!(probe_on_path("", ':', "git", "").len(), 0);
}

#[test]
fn a_survey_names_each_program() {
    let names = survey_names().list;
    assert_eq!(names.len(), 15);
    let mut found = vec![false; 15];
    found[7] = true;
    let r = to_value(&computer_survey(&found));
    let entries = r["executables_on_path"].as_array().unwrap();
    assert_eq!(entries.len(), 15);
    assert_eq!(entries[7], value(r#"{"name":"git","found":true}"#));
    assert_eq!(entries[14], value(r#"{"name":"tesseract","found":false}"#));
    assert_eq!(r["recommendations"].as_array().unwrap().len(), 5);
    assert_eq!(to_value(&computer_survey(&[]))["executables_on_path"][0]["found"], false);
}

#[test]
fn an_address_is_opened_by_the_system() {
    let input = json(r#"{"url":"  https://example.com/a?b=c "}"#);
    let o = open_url(&input, Platform::Windows, false).ok().unwrap();
    assert_eq!(o.argv, ["cmd", "/c", "start", "", "https://example.com/a?b=c"]);
    let o = open_url(&input, Platform::MacOs, false).ok().unwrap();
    assert_eq!(o.argv, ["open", "https://example.com/a?b=c"]);
    let o = open_url(&input, Platform::OtherUnix, true).ok().unwrap();
    assert_eq!(o.argv, ["xdg-open", "https://example.com/a?b=c"]);
    assert_eq!(
        to_value(&url_opened(&o, &Ok(5))),
        value(r#"{"status":"ok","pid":5,"url":"https://example.com/a?b=c","note":"xdg-open — browser por defeito (requer sessão gráfica típica)."}"#)
    );
    assert_eq!(to_value(&url_opened(&o, &Err("x".to_string())))["error"], "falha ao spawn: x");
}

#[test]
fn only_web_addresses_are_opened() {
    let p = Platform::OtherUnix;
    let cases: [(&str, &str); 4] = [
        ("{}", "campo url obrigatório (http:// ou https://)"),
        (r#"{"url":7}"#, "campo url obrigatório (http:// ou https://)"),
        (r#"{"url":"file:///etc/passwd"}"#, "só URLs http:// ou https://"),
        (r#"{"url":"javascript:alert(1)"}"#, "só URLs http:// ou https://"),
    ];
    for (input, message) in cases {
        assert_eq!(refusal(open_url(&json(input), p, true))["error"], message);
    }
    let long = format!(r#"{{"url":"http://{}"}}"#, "a".repeat(4090));
    assert_eq!(refusal(open_url(&json(&long), p, true))["error"], "url demasiado longa");
    let fits = format!(r#"{{"url":"http://{}"}}"#, "a".repeat(4089));
    assert!(open_url(&json(&fits), p, true).is_ok());
    let good = json(r#"{"url":"http://a"}"#);
    assert_eq!(refusal(open_url(&good, p, false))["error"], "xdg-open não encontrado no PATH");
    assert_eq!(
        refusal(open_url(&good, Platform::Unsupported, true))["error"],
        "open_url não suportado neste alvo de compilação"
    );
}

#[test]
fn a_terminal_opens_in_a_directory() {
    assert_eq!(terminal_directory(&json("{}"), Platform::OtherUnix).ok().unwrap(), ".");
    assert_eq!(
        refusal(terminal_directory(&json(r#"{"working_dir":"../.."}"#), Platform::OtherUnix))["error"],
        "working_dir deve ser relativo e sem .."
    );
    assert_eq!(
        refusal(terminal_directory(&json(r#"{"working_dir":"/tmp"}"#), Platform::OtherUnix))["error"],
        "working_dir deve ser relativo e sem .."
    );
    let lines: [(&str, Vec<&str>); 5] = [
        ("wt_here", vec!["wt", "-w", "0", "nt", "-d", "D"]),
        ("powershell_here", vec!["wt", "-w", "0", "nt", "-d", "D", "powershell", "-NoExit", "-NoLogo"]),
        ("cmd_here", vec!["wt", "-w", "0", "nt", "-d", "D", "cmd"]),
        (
            "powershell_start_fallback",
            vec!["cmd", "/c", "start", "", "powershell", "-NoExit", "-NoLogo", "-WorkingDirectory", "D"],
        ),
        ("cmd_start_fallback", vec!["cmd", "/c", "start", "", "cmd", "/K", "cd", "/d", "D"]),
    ];
    for (variant, line) in lines {
        let input = json(&format!(r#"{{"variant":"{variant}"}}"#));
        let o = terminal_open(&input, "D", Platform::Windows).ok().unwrap();
        assert_eq!(o.argv, line);
        assert!(o.new_console);
        assert_eq!(to_value(&terminal_opened(&o, &Ok(3)))["variant"], variant);
    }
    assert_eq!(
        refusal(terminal_open(&json(r#"{"variant":"x"}"#), "D", Platform::Windows))["error"],
        "variant desconhecido: x. Use: wt_here | powershell_here | cmd_here | powershell_start_fallback | cmd_start_fallback"
    );
}

#[test]
fn a_terminal_opens_on_other_systems() {
    let o = terminal_open(&json("{}"), "/w", Platform::MacOs).ok().unwrap();
    assert_eq!(o.argv, ["open", "-a", "Terminal", "/w"]);
    assert_eq!(
        to_value(&terminal_opened(&o, &Ok(3))),
        value(r#"{"status":"ok","pid":3,"variant":"macos_open_terminal","working_directory":"/w"}"#)
    );
    let o = terminal_open(&json("{}"), "/w", Platform::OtherUnix).ok().unwrap();
    assert_eq!(o.argv, ["gnome-terminal", "--working-directory=/w"]);
    assert!(!o.new_console);
    assert_eq!(to_value(&terminal_opened(&o, &Ok(3)))["variant"], "gnome_terminal_here");
    assert_eq!(to_value(&terminal_opened(&o, &Err("x".to_string())))["error"], "falha ao spawn: x");
    assert_eq!(
        refusal(terminal_open(&json("{}"), "/w", Platform::Unsupported))["error"],
        "terminal_open: alvo nao suportado neste build"
    );
}
