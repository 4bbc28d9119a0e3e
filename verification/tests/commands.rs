use serde_json::Value;
use toolmind::codec::{parse, to_value};
use toolmind::command::{
    args, command, command_creation_flags, detached, execute_argv_piped, run_command,
    run_command_allowlist_hint, run_command_program_allowed, run_detached, stem_allowed, Args,
    Command, PipeBuffer, Platform, ProcessEnd,
};
use toolmind::json::Json;
use toolmind::paths::{path_extension, path_stem};
use toolmind::playbook::command_playbook;

fn json(s: &str) -> Json {
    parse(s).unwrap()
}

fn value(s: &str) -> Value {
    serde_json::from_str(s).unwrap()
}

fn refusal<T>(r: Result<T, Json>) -> Value {
    match r {
        Ok(_) => panic!("accepted"),
        Err(e) => to_value(&e),
    }
}

#[test]
fn listed_programs_may_be_run_everywhere() {
    let all = [Platform::Windows, Platform::MacOs, Platform::OtherUnix, Platform::Unsupported];
    for p in all {
        for name in [
            "cargo", "rustc", "rustfmt", "rustup", "git", "gh", "rg", "npm", "node", "python",
            "pip", "where", "which", "find", "cat", "curl", "ssh", "openssl", "tesseract",
        ] {
            assert!(run_command_program_allowed(name, p));
        }
        for name in ["rm", "sudo", "", "cargo-x", "xcargo", "perl"] {
            assert!(!run_command_program_allowed(name, p), "{name:?}");
        }
    }
}

#[test]
fn some_programs_may_be_run_on_one_system_only() {
    let extras: [(&str, [bool; 4]); 12] = [
        ("cmd", [true, false, false, false]),
        ("powershell", [true, false, false, false]),
        ("pwsh", [true, false, false, false]),
        ("wt", [true, false, false, false]),
        ("tasklist", [true, false, false, false]),
        ("taskkill", [true, false, false, false]),
        ("open", [false, true, false, false]),
        ("ps", [false, true, true, false]),
        ("kill", [false, true, true, false]),
        ("bash", [false, true, true, false]),
        ("xdg-open", [false, false, true, false]),
        ("konsole", [false, false, true, false]),
    ];
    let all = [Platform::Windows, Platform::MacOs, Platform::OtherUnix, Platform::Unsupported];
    for (name, expected) in extras {
        for i in 0..4 {
            assert_eq!(run_command_program_allowed(name, all[i]), expected[i], "{name}");
        }
    }
}

#[test]
fn programs_are_known_by_their_stem_whatever_its_case() {
    let p = Platform::OtherUnix;
    assert!(run_command_program_allowed("CARGO.exe", p));
    assert!(run_command_program_allowed("Git.cmd", p));
    assert!(run_command_program_allowed("./git", p));
    assert!(run_command_program_allowed("b/GIT", p));
    assert!(run_command_program_allowed("/usr/bin/cargo", p));
    assert!(!run_command_program_allowed("git/evil", p));
    assert!(!run_command_program_allowed("cargo/bin/rm.exe", p));
    assert!(!run_command_program_allowed("git.tar.gz", p));
    assert!(!run_command_program_allowed(".git", p));
    assert!(stem_allowed("GIT", p));
}

#[test]
fn run_command_keeps_the_command_line() {
    let c = run_command(&json(r#"{"argv":["cargo","build","--release"]}"#), Platform::OtherUnix).ok().unwrap();
    assert_eq!(c.argv, ["cargo", "build", "--release"]);
    assert_eq!((c.timeout_secs, c.max_out), (60, 262_144));
    let c = run_command(
        &json(r#"{"argv":["git"],"timeout_secs":100000,"max_output_bytes":1}"#),
        Platform::OtherUnix,
    )
    .ok()
    .unwrap();
    assert_eq!((c.timeout_secs, c.max_out), (300, 1024));
    let c = run_command(
        &json(r#"{"argv":["git"],"timeout_secs":0,"max_output_bytes":99999999}"#),
        Platform::OtherUnix,
    )
    .ok()
    .unwrap();
    assert_eq!((c.timeout_secs, c.max_out), (1, 1_048_576));
}

#[test]
fn run_command_refuses_what_is_not_listed() {
    let p = Platform::OtherUnix;
    assert_eq!(
        refusal(run_command(&json("{}"), p))["error"],
        "argv deve ser array não vazio: [\"cargo\", \"build\", ...]"
    );
    let e = refusal(run_command(&json(r#"{"argv":["rm","-rf","x"]}"#), p));
    assert_eq!(e["status"], "error");
    assert_eq!(
        e["error"],
        format!("programa não permitido pela lista branca: rm. {}", run_command_allowlist_hint())
    );
    assert!(run_command(&json(r#"{"argv":["git/evil"]}"#), p).is_err());
    assert!(run_detached(&json(r#"{"argv":["git/evil"]}"#), p).is_err());
    assert_eq!(
        refusal(run_detached(&json(r#"{"argv":[]}"#), p))["error"],
        "argv deve ser array não vazio"
    );
    assert_eq!(
        refusal(run_detached(&json(r#"{"argv":["rm"]}"#), p))["error"],
        format!("programa não permitido: rm. {}", run_command_allowlist_hint())
    );
}

#[test]
fn limits_are_kept_within_their_range() {
    let c = command(args("a").arg("b"), 0, 0);
    assert_eq!((c.timeout_secs, c.max_out), (1, 1024));
    let c = command(args("a"), u64::MAX, u64::MAX);
    assert_eq!((c.timeout_secs, c.max_out), (600, 2_097_152));
    assert_eq!(args("a").arg("b").all(&["c".to_string(), "d".to_string()]).list, ["a", "b", "c", "d"]);
}

#[test]
fn a_run_is_reported() {
    let c = command(args("git").arg("status"), 90, 2048);
    let end = ProcessEnd::Ended {
        exit_code: Some(-1),
        stdout: "saída".to_string(),
        stderr: String::new(),
    };
    assert_eq!(
        to_value(&execute_argv_piped(&c, &end)),
        value(r#"{"status":"ok","argv":["git","status"],"exit_code":-1,"timed_out":false,"timeout_secs":90,"stdout":"saída","stderr":"","note":null}"#)
    );
    let end = ProcessEnd::TimedOut {
        stdout: "x".repeat(2048),
        stderr: String::new(),
    };
    let reply = to_value(&execute_argv_piped(&c, &end));
    assert_eq!(reply["status"], "timeout");
    assert_eq!(reply["exit_code"], Value::Null);
    assert_eq!(reply["timed_out"], true);
    assert_eq!(reply["note"], "saída pode estar truncada (max_output_bytes)");
    assert_eq!(
        to_value(&execute_argv_piped(&c, &ProcessEnd::NotStarted("não há".to_string())))["error"],
        "falha ao iniciar processo: não há"
    );
    assert_eq!(
        to_value(&execute_argv_piped(&c, &ProcessEnd::WaitFailed("e".to_string())))["error"],
        "wait_timeout: e"
    );
    let empty = Command { argv: Vec::new(), timeout_secs: 1, max_out: 1024 };
    assert_eq!(to_value(&execute_argv_piped(&empty, &end))["error"], "argv vazio");
}

#[test]
fn a_pipe_keeps_the_first_bytes() {
    let b = PipeBuffer::new(5);
    assert!(b.wants_more());
    let b = b.take(b"abc");
    assert!(b.wants_more());
    let b = b.take(b"defg");
    assert!(!b.wants_more());
    assert_eq!(b.text(), "abcde");
    let b = b.take(b"h");
    assert_eq!(b.text(), "abcde");
    let one = PipeBuffer::new(5).take(b"abcdefg");
    assert_eq!(one.text(), b.text());
    assert!(!PipeBuffer::new(0).wants_more());
}

#[test]
fn a_pipe_reads_broken_text_as_std_does() {
    let bytes: &[u8] = &[b'o', b'l', 0xc3, 0xa1, 0xff, b'!', 0xe2, 0x82];
    let b = PipeBuffer::new(100).take(bytes);
    assert_eq!(b.text(), String::from_utf8_lossy(bytes));
    assert_eq!(b.text(), "olá\u{fffd}!\u{fffd}");
}

#[test]
fn a_program_is_started_and_left_alone() {
    let d = run_detached(&json(r#"{"argv":["node","a.js"],"new_console":true}"#), Platform::Windows).ok().unwrap();
    assert!(d.new_console);
    let reply = to_value(&detached(&d, &Ok(77)));
    assert_eq!(
        reply,
        value(r#"{"status":"ok","pid":77,"argv":["node","a.js"],"new_console":true,"note":"Um thread interno faz wait() para evitar zumbi; stdout/stderr foram descartados."}"#)
    );
    assert_eq!(to_value(&detached(&d, &Err("e".to_string())))["error"], "falha ao spawn: e");
    assert_eq!(command_creation_flags(true), 0x10);
    assert_eq!(command_creation_flags(false), 0);
}

#[test]
fn the_playbook_has_lines_for_each_system() {
    let p = to_value(&command_playbook());
    assert_eq!(p.as_object().unwrap().len(), 20);
    assert_eq!(p["windows"]["kill_by_pid"], value(r#"["taskkill","/PID","<pid>","/F"]"#));
    assert_eq!(p["windows"]["list_processes"], value(r#"["tasklist"]"#));
    assert_eq!(p["windows"].as_object().unwrap().len(), 5);
    assert_eq!(p["macos"]["open_terminal_here"], value(r#"["open","-a","Terminal","<path>"]"#));
    assert_eq!(p["macos"].as_object().unwrap().len(), 3);
    assert_eq!(
        p["linux_common"]["xterm_here"],
        value(r#"["xterm","-e","bash","-lc","cd <abs> && exec bash"]"#)
    );
    assert_eq!(p["run_command"], "argv sem shell; só binários permitidos pela lista branca.");
    assert_eq!(
        p["ssh"],
        "via run_command ou run_detached: [\"ssh\", \"-o\", \"BatchMode=yes\", \"user@host\", \"cmd\"]; chaves/agent já no ambiente do utilizador."
    );
    let line = Args { list: vec!["a".to_string()] };
    assert_eq!(to_value(&line.json()), value(r#"["a"]"#));
}

#[test]
fn stems_follow_the_rule_of_the_system() {
    use_std_rule(Platform::OtherUnix);
    use_std_rule(Platform::MacOs);
    let w = Platform::Windows;
    for allowed in ["C:\\bin\\git.exe", "C:git", "bin\\cargo", "a/b\\CMD.EXE", "\\git", "git\\."] {
        assert!(run_command_program_allowed(allowed, w), "{allowed}");
    }
    for refused in ["git\\evil.exe", "C:\\git\\x", "C:", "rm:legit", "git\\..", "C:\\cargo\\rm"] {
        assert!(!run_command_program_allowed(refused, w), "{refused}");
    }
    for raw in ["\\\\server\\share\\git", "//git", "\\\\?\\C:\\git.exe"] {
        let stem = std::path::Path::new(raw).file_stem().and_then(|s| s.to_str()).unwrap_or(raw);
        assert_eq!(run_command_program_allowed(raw, w), stem_allowed(stem, w), "{raw}");
    }
    for raw in ["git", "bin/git", "rm:legit"] {
        let stem = std::path::Path::new(raw).file_stem().and_then(|s| s.to_str()).unwrap_or(raw);
        let p = Platform::Unsupported;
        assert_eq!(run_command_program_allowed(raw, p), stem_allowed(stem, p), "{raw}");
    }
}

fn use_std_rule(p: Platform) {
    for raw in [
        "git", "rm:legit", "a\\git", "git\\x", "git/", "git/.", "git/..", "./git", ".", "..", "/", "//git", "//a/git",
        "/usr//bin/./cargo.exe", ".git", "git.", "git..x", "...", "a/.b.c", "x/y.z/", "", "/.", "./.", "ç/é.ü",
    ] {
        let path = std::path::Path::new(raw);
        let stem = path.file_stem().and_then(|s| s.to_str());
        let ext = path.extension().and_then(|s| s.to_str());
        assert_eq!(path_stem(raw, p).as_deref(), stem, "{raw}");
        assert_eq!(path_extension(raw, p).as_deref(), ext, "{raw}");
        assert_eq!(
            run_command_program_allowed(raw, p),
            stem_allowed(stem.unwrap_or(raw), p),
            "{raw}"
        );
    }
}
