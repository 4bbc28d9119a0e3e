use serde_json::Value;
use toolmind::codec::{parse, to_value};
use toolmind::command::Platform;
use toolmind::files;
use toolmind::json::Json;
use toolmind::paths::{
    path_absolute, path_accepted, relative_path, safe_relative_path, state_path, toolmind_dir,
};

const U: Platform = Platform::OtherUnix;
const W: Platform = Platform::Windows;

fn json(s: &str) -> Json {
    parse(s).unwrap()
}

fn value(s: &str) -> Value {
    serde_json::from_str(s).unwrap()
}

fn refusal<T>(r: Result<T, Json>) -> Value {
    match r {
        Ok(_) => panic!("accepted"),
        Err(e) => to_value(&e),
    }
}

#[test]
fn only_relative_paths_without_steps_upwards_are_accepted() {
    for good in ["a", "a/b.txt", ".", "src/main.rs", "a.b", "...".trim_matches('.'), "x y"] {
        if good.is_empty() {
            assert!(safe_relative_path(good, U).is_none());
        } else {
            assert_eq!(safe_relative_path(good, U).as_deref(), Some(good));
            assert!(path_accepted(good, U));
        }
    }
    for bad in ["", "..", "../x", "a/../b", "a..b"] {
        assert!(safe_relative_path(bad, U).is_none(), "{bad:?}");
    }
    for p in [U, Platform::MacOs] {
        assert!(!path_accepted("/etc/passwd", p));
        assert!(path_accepted("a:b", p));
        assert!(path_accepted("\\a", p));
    }
    for raw in ["C:\\x", "c:/x", "Z:\\", "\\\\srv\\share\\x", "\\\\?\\C:\\x"] {
        assert!(!path_accepted(raw, W), "{raw}");
        assert!(path_absolute(raw, W));
    }
    for raw in ["C:x", "C:", "\\x", "/x", "1:\\x", "ab:\\x", "x\\y", "a:b:\\c"] {
        assert!(path_accepted(raw, W), "{raw}");
    }
    for raw in ["\\\\srv", "//srv/share", "//", "\\\\srv\\"] {
        assert_eq!(path_absolute(raw, W), std::path::Path::new(raw).is_absolute(), "{raw}");
    }
    for raw in ["/x", "x", "C:\\x"] {
        let host = std::path::Path::new(raw).is_absolute();
        assert_eq!(path_absolute(raw, Platform::Unsupported), host);
    }
    assert!(path_accepted("src/main.rs", W));
    assert!(!path_accepted("a/../b", W));
    assert_eq!(relative_path("a", true), None);
    assert_eq!(relative_path("a", false), Some("a".to_string()));
}

#[test]
fn an_accepted_path_has_no_part_that_leads_upwards() {
    for p in ["a/b/c", "a\\b", "x..y/z", "../..", "a/.../b"] {
        if path_accepted(p, U) {
            assert!(p.split('/').all(|part| part != ".."));
            assert!(p.split('\\').all(|part| part != ".."));
        }
    }
}

#[test]
fn state_files_lie_in_the_state_directory() {
    assert_eq!(toolmind_dir(), ".toolmind");
    let expected = std::path::Path::new(".toolmind").join("x.json");
    assert_eq!(state_path("x.json"), expected.to_string_lossy());
    assert_eq!(toolmind::plan::plan_current_path(), state_path("current_plan.json"));
    assert_eq!(toolmind::plan::plan_progress_path(), state_path("plan_progress.json"));
    assert_eq!(toolmind::agent::frozen_api_turn_path(), state_path("frozen_api_turn.json"));
    assert_eq!(toolmind::gui::session_path(), state_path("gui_session.json"));
}

#[test]
fn write_file_takes_a_relative_path() {
    let f = files::write_file(&json(r#"{"filename":"src/a.txt","content":"olá"}"#), U).ok().unwrap();
    assert_eq!(f.path, "src/a.txt");
    assert_eq!(f.content, "olá");
    let reply = to_value(&files::file_written(&f, true, &Ok(())));
    assert_eq!(reply["status"], "ok");
    assert_eq!(reply["file"], "src/a.txt");
    assert_eq!(reply["existed_before"], true);
    assert_eq!(reply["bytes_written"], 4);
    assert!(reply["hint"].as_str().unwrap().contains("NÃO chame write_file"));
    let failed = files::file_written(&f, false, &Err("disco cheio".to_string()));
    assert_eq!(to_value(&failed), value(r#"{"status":"error","error":"disco cheio"}"#));
}

#[test]
fn write_file_has_defaults_and_refuses_bad_paths() {
    let f = files::write_file(&json("{}"), U).ok().unwrap();
    assert_eq!((f.path.as_str(), f.content.as_str()), ("file.txt", ""));
    assert_eq!(
        refusal(files::write_file(&json(r#"{"filename":"../x"}"#), U)),
        value(r#"{"status":"error","error":"caminho inválido (use relativo, sem ..)"}"#)
    );
    assert_eq!(
        refusal(files::append_file(&json(r#"{"filename":""}"#), U)),
        value(r#"{"status":"error","error":"caminho inválido"}"#)
    );
}

#[test]
fn append_file_replies_with_the_file() {
    let f = files::append_file(&json(r#"{"filename":"log.txt","content":"x"}"#), U).ok().unwrap();
    assert_eq!(
        to_value(&files::file_appended(&f, &Ok(()))),
        value(r#"{"status":"ok","file":"log.txt"}"#)
    );
    assert_eq!(
        to_value(&files::file_appended(&f, &Err("e".to_string()))),
        value(r#"{"status":"error","error":"e"}"#)
    );
}

#[test]
fn read_file_refuses_large_files() {
    assert_eq!(files::read_file(&json(r#"{"filename":"a.txt"}"#), U).ok().unwrap(), "a.txt");
    assert_eq!(
        refusal(files::read_file(&json("{}"), U)),
        value(r#"{"status":"error","error":"caminho inválido"}"#)
    );
    assert!(files::read_refusal(&Ok(524_288)).is_none());
    assert_eq!(
        to_value(&files::read_refusal(&Ok(524_289)).unwrap()),
        value(r#"{"status":"error","error":"arquivo muito grande (>512KiB)"}"#)
    );
    assert_eq!(
        to_value(&files::read_refusal(&Err("não há".to_string())).unwrap()),
        value(r#"{"status":"error","error":"não há"}"#)
    );
    assert_eq!(
        to_value(&files::file_read("a.txt", &Ok("conteúdo".to_string()))),
        value(r#"{"status":"ok","file":"a.txt","content":"conteúdo"}"#)
    );
    assert_eq!(
        to_value(&files::file_read("a.txt", &Err("x".to_string()))),
        value(r#"{"status":"error","error":"x"}"#)
    );
}

#[test]
fn list_dir_sorts_the_names() {
    assert_eq!(files::list_dir(&json("{}"), U).ok().unwrap(), ".");
    let names = vec!["src".to_string(), "Cargo.toml".to_string(), "a".to_string()];
    assert_eq!(
        to_value(&files::dir_listed(".", Ok(names))),
        value(r#"{"status":"ok","dirname":".","entries":["Cargo.toml","a","src"]}"#)
    );
    assert_eq!(
        to_value(&files::dir_listed(".", Err("x".to_string()))),
        value(r#"{"status":"error","error":"x"}"#)
    );
    assert_eq!(
        refusal(files::list_dir(&json(r#"{"dirname":".."}"#), U)),
        value(r#"{"status":"error","error":"caminho inválido"}"#)
    );
}

#[test]
fn workspace_context_shows_the_first_hundred_names() {
    let names: Vec<String> = (0..150).rev().map(|i| format!("f{i:03}")).collect();
    let reply = to_value(&files::workspace_context("/w", names));
    assert_eq!(reply["cwd"], "/w");
    let shown = reply["entries_sample"].as_array().unwrap();
    assert_eq!(shown.len(), 100);
    assert_eq!(shown[0], "f000");
    assert_eq!(shown[99], "f099");
    let few = to_value(&files::workspace_context("/w", vec!["b".to_string(), "a".to_string()]));
    assert_eq!(few["entries_sample"], value(r#"["a","b"]"#));
    assert_eq!(few["status"], "ok");
}

#[test]
fn path_info_describes_what_is_there() {
    assert_eq!(files::path_info(&json(r#"{"path":"a"}"#), U).ok().unwrap(), "a");
    assert_eq!(
        refusal(files::path_info(&json("{}"), U)),
        value(r#"{"status":"error","error":"caminho inválido (vazio, .. ou absoluto)"}"#)
    );
    let facts = files::PathFound::Facts { is_file: true, is_dir: false, size: 12, modified_ms: Some(99) };
    assert_eq!(
        to_value(&files::path_described("a", &facts)),
        value(r#"{"status":"ok","path":"a","exists":true,"is_file":true,"is_dir":false,"size_bytes":12,"modified_ms":99}"#)
    );
    let facts = files::PathFound::Facts { is_file: false, is_dir: true, size: 0, modified_ms: None };
    assert_eq!(to_value(&files::path_described("d", &facts))["modified_ms"], Value::Null);
    assert_eq!(
        to_value(&files::path_described("a", &files::PathFound::Nothing)),
        value(r#"{"status":"ok","path":"a","exists":false}"#)
    );
    assert_eq!(
        to_value(&files::path_described("a", &files::PathFound::Failed("negado".to_string()))),
        value(r#"{"status":"error","error":"negado"}"#)
    );
}

#[test]
fn what_was_written_is_read_back() {
    for (name, len) in [("a.txt", 5usize), ("d/b", 524_288), ("c", 524_289)] {
        let content = "x".repeat(len);
        let input = format!(r#"{{"filename":"{name}","content":"{content}"}}"#);
        let f = files::write_file(&json(&input), U).ok().unwrap();
        let path = files::read_file(&json(&format!(r#"{{"filename":"{name}"}}"#)), U).ok().unwrap();
        assert_eq!(path, f.path);
        match files::read_refusal(&Ok(f.content.len() as u64)) {
            Some(e) => {
                assert!(len > 524_288);
                assert_eq!(to_value(&e)["error"], "arquivo muito grande (>512KiB)");
                assert_eq!(to_value(&e).get("content"), None);
            }
            None => {
                assert!(len <= 524_288);
                let reply = to_value(&files::file_read(&path, &Ok(f.content.clone())));
                assert_eq!(reply["status"], "ok");
                assert_eq!(reply["file"], name);
                assert_eq!(reply["content"], content);
            }
        }
    }
}

#[test]
fn one_verdict_serves_writing_and_reading() {
    for name in ["a", "/a", "C:\\a", "\\\\srv\\a", "../a", ""] {
        let input = serde_json::to_string(&Value::from(name)).unwrap();
        let input = json(&format!(r#"{{"filename":{input},"content":"c"}}"#));
        for absolute in [false, true] {
            let written = files::write_file_with(&input, absolute);
            let read = files::read_file_with(&input, absolute);
            match (written, read) {
                (Ok(f), Ok(p)) => {
                    assert_eq!(f.path, p);
                    assert_eq!(f.content, "c");
                    assert!(!absolute && name != "../a" && !name.is_empty());
                }
                (Err(w), Err(r)) => {
                    assert_eq!(to_value(&w)["error"], "caminho inválido (use relativo, sem ..)");
                    assert_eq!(to_value(&r)["error"], "caminho inválido");
                    assert!(absolute || name == "../a" || name.is_empty());
                }
                _ => panic!("{name}"),
            }
        }
    }
}
