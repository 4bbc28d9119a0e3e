use serde_json::Value;
use toolmind::codec::{parse, to_value};
use toolmind::command::{Command, Platform};
use toolmind::gh;
use toolmind::git;
use toolmind::json::Json;

const U: Platform = Platform::OtherUnix;

fn json(s: &str) -> Json {
    parse(s).unwrap()
}

fn line(r: Result<Command, Json>) -> (String, u64, u64) {
    match r {
        Ok(c) => (c.argv.join(" "), c.timeout_secs, c.max_out),
        Err(e) => panic!("{}", to_value(&e)),
    }
}

fn message(r: Result<Command, Json>) -> String {
    match r {
        Ok(c) => panic!("{:?}", c.argv),
        Err(e) => {
            let v: Value = to_value(&e);
            assert_eq!(v["status"], "error");
            v["error"].as_str().unwrap().to_string()
        }
    }
}

fn shown(c: Command) -> (String, u64, u64) {
    (c.argv.join(" "), c.timeout_secs, c.max_out)
}

#[test]
fn names_of_revisions_are_checked() {
    for good in ["main", "HEAD~3", "origin/feat_1", "v1.2.3", "stash@{0}", "a^b", "x:y", "+x", "*", "a-b"] {
        assert!(git::safe_git_refish(good), "{good}");
    }
    for bad in ["", "-f", "--all", "a..b", "a b", "a;b", "ç", "a\nb", "$(x)"] {
        assert!(!git::safe_git_refish(bad), "{bad:?}");
    }
    assert!(git::safe_git_refish(&"a".repeat(120)));
    assert!(!git::safe_git_refish(&"a".repeat(121)));
}

#[test]
fn git_shows_the_state() {
    assert_eq!(shown(git::git_status()), ("git status -sb --porcelain=v1".to_string(), 90, 524_288));
    assert_eq!(shown(git::git_remote()), ("git remote -v".to_string(), 90, 131_072));
    assert_eq!(
        shown(git::git_log(&json("{}"))),
        ("git log --oneline --decorate -n 20".to_string(), 90, 524_288)
    );
    assert_eq!(shown(git::git_log(&json(r#"{"max_count":0}"#))).0, "git log --oneline --decorate -n 1");
    assert_eq!(shown(git::git_log(&json(r#"{"max_count":999}"#))).0, "git log --oneline --decorate -n 200");
    assert_eq!(shown(git::git_branch(&json("{}"))), ("git branch -vv".to_string(), 90, 262_144));
    assert_eq!(shown(git::git_branch(&json(r#"{"mode":"list_all"}"#))).0, "git branch -vv -a");
}

#[test]
fn git_shows_changes() {
    assert_eq!(line(git::git_diff(&json("{}"), U)), ("git diff".to_string(), 90, 524_288));
    assert_eq!(
        line(git::git_diff(&json(r#"{"staged":true,"path":"src/a.rs"}"#), U)).0,
        "git diff --staged -- src/a.rs"
    );
    assert_eq!(line(git::git_diff(&json(r#"{"path":""}"#), U)).0, "git diff");
    assert_eq!(message(git::git_diff(&json(r#"{"path":"../a"}"#), U)), "path inválido");
    assert_eq!(message(git::git_diff_with(&json(r#"{"path":"a"}"#), false)), "path inválido");
    assert_eq!(line(git::git_show(&json("{}"))).0, "git show HEAD --stat");
    assert_eq!(line(git::git_show(&json(r#"{"rev":"v1","stat_only":false}"#))).0, "git show v1");
    assert_eq!(message(git::git_show(&json(r#"{"rev":"-x"}"#))), "rev inválido");
    assert_eq!(line(git::git_rev_parse(&json(r#"{"rev":"main"}"#))), ("git rev-parse main".to_string(), 90, 65_536));
    assert_eq!(message(git::git_rev_parse(&json(r#"{"rev":"a..b"}"#))), "rev inválido");
}

#[test]
fn git_takes_paths_behind_dashes() {
    assert_eq!(
        line(git::git_add(&json(r#"{"paths":["a","-x","src/b"]}"#), U)),
        ("git add -- a -x src/b".to_string(), 90, 262_144)
    );
    assert_eq!(
        message(git::git_add(&json(r#"{"paths":["a","../b","/c"]}"#), U)),
        "caminho inválido em paths: ../b"
    );
    assert_eq!(
        message(git::git_add(&json(r#"{"paths":["a","/c"]}"#), U)),
        "caminho inválido em paths: /c"
    );
    assert_eq!(
        message(git::git_add(&json(r#"{"paths":[]}"#), U)),
        "paths deve ser array não vazio de caminhos relativos"
    );
    assert_eq!(line(git::git_restore(&json(r#"{"paths":["a"]}"#), U)).0, "git restore -- a");
    assert_eq!(
        line(git::git_restore(&json(r#"{"staged":true,"paths":["a"]}"#), U)).0,
        "git restore --staged -- a"
    );
    assert_eq!(
        message(git::git_restore(&json("{}"), U)),
        "paths deve ser array não vazio de caminhos relativos"
    );
    assert_eq!(git::git_paths_from_input(&json(r#"{"paths":["x"]}"#), U), Ok(vec!["x".to_string()]));
}

#[test]
fn git_commits_with_a_message() {
    let c = git::git_commit(&json(r#"{"message":"corrige a coisa"}"#)).ok().unwrap();
    assert_eq!(c.argv, ["git", "commit", "-m", "corrige a coisa"]);
    assert_eq!((c.timeout_secs, c.max_out), (90, 262_144));
    assert_eq!(
        line(git::git_commit(&json(r#"{"message":"m","allow_empty":true}"#))).0,
        "git commit -m m --allow-empty"
    );
    assert_eq!(message(git::git_commit(&json(r#"{"message":"  "}"#))), "message é obrigatório");
    assert_eq!(message(git::git_commit(&json(r#"{"message":"a --x"}"#))), "message não pode conter '--'");
}

#[test]
fn git_reaches_remotes() {
    assert_eq!(line(git::git_push(&json("{}"))), ("git push origin".to_string(), 180, 524_288));
    assert_eq!(
        line(git::git_push(&json(r#"{"remote":"up","branch":"main","set_upstream":true}"#))).0,
        "git push -u up main"
    );
    assert_eq!(message(git::git_push(&json(r#"{"remote":"--x"}"#))), "remote inválido");
    assert_eq!(message(git::git_push(&json(r#"{"branch":"a b"}"#))), "branch inválida");
    assert_eq!(line(git::git_pull(&json(r#"{"branch":"dev"}"#))), ("git pull origin dev".to_string(), 180, 524_288));
    assert_eq!(message(git::git_pull(&json(r#"{"remote":""}"#))), "remote inválido");
    assert_eq!(message(git::git_pull(&json(r#"{"branch":"-d"}"#))), "branch inválida");
    assert_eq!(line(git::git_fetch(&json("{}"))), ("git fetch".to_string(), 180, 524_288));
    assert_eq!(line(git::git_fetch(&json(r#"{"remote":"up","prune":true}"#))).0, "git fetch up --prune");
    assert_eq!(message(git::git_fetch(&json(r#"{"remote":"-x"}"#))), "remote inválido");
}

#[test]
fn git_checks_branches_out() {
    assert_eq!(line(git::git_checkout(&json(r#"{"branch":"dev"}"#))), ("git checkout dev".to_string(), 90, 262_144));
    assert_eq!(
        line(git::git_checkout(&json(r#"{"branch":"dev","create_branch":true,"start_point":"main"}"#))).0,
        "git checkout -b dev main"
    );
    assert_eq!(message(git::git_checkout(&json("{}"))), "branch é obrigatório");
    assert_eq!(message(git::git_checkout(&json(r#"{"branch":"-"}"#))), "nome de branch inválido");
    assert_eq!(
        message(git::git_checkout(&json(r#"{"branch":"a","start_point":"x y"}"#))),
        "start_point inválido"
    );
}

#[test]
fn git_works_on_the_stash() {
    assert_eq!(line(git::git_stash(&json("{}"))), ("git stash list".to_string(), 90, 262_144));
    assert_eq!(line(git::git_stash(&json(r#"{"action":"push"}"#))).0, "git stash push");
    assert_eq!(line(git::git_stash(&json(r#"{"action":"push","message":"m"}"#))).0, "git stash push -m m");
    assert_eq!(message(git::git_stash(&json(r#"{"action":"push","message":"--m"}"#))), "message inválida");
    assert_eq!(line(git::git_stash(&json(r#"{"action":"pop"}"#))).0, "git stash pop");
    assert_eq!(line(git::git_stash(&json(r#"{"action":"apply"}"#))).0, "git stash apply");
    assert_eq!(
        message(git::git_stash(&json(r#"{"action":"drop"}"#))),
        "action deve ser list | push | pop | apply"
    );
}

#[test]
fn pull_requests_are_listed_and_shown() {
    assert_eq!(
        line(gh::gh_pr_list(&json("{}"))),
        (
            "gh pr list --state open --limit 30 --json number,title,state,isDraft,headRefName,baseRefName,url,author".to_string(),
            180,
            1_048_576
        )
    );
    assert_eq!(message(gh::gh_pr_list(&json(r#"{"state":"x"}"#))), "state: open|closed|merged|all");
    assert!(line(gh::gh_pr_list(&json(r#"{"state":"all","limit":500}"#))).0.contains("--state all --limit 100"));
    assert_eq!(
        line(gh::gh_pr_view(&json(r#"{"number":7}"#))).0,
        "gh pr view 7 --json number,title,state,body,isDraft,headRefName,baseRefName,url,author,commits,files"
    );
    assert_eq!(line(gh::gh_pr_diff(&json(r#"{"pr":8}"#))), ("gh pr diff 8".to_string(), 180, 1_048_576));
    assert_eq!(line(gh::gh_pr_close(&json(r#"{"pr":8,"number":9}"#))), ("gh pr close 9".to_string(), 180, 262_144));
    for r in [gh::gh_pr_view(&json("{}")), gh::gh_pr_diff(&json(r#"{"pr":"8"}"#)), gh::gh_pr_close(&json(r#"{"pr":-1}"#)),
        gh::gh_pr_merge(&json("{}")), gh::gh_pr_comment(&json("{}"))] {
        assert_eq!(message(r), "number (ou pr) é obrigatório");
    }
}

#[test]
fn pull_requests_are_opened() {
    let c = gh::gh_pr_create(&json(r#"{"title":"T t","body":"B b","draft":true,"head":"dev"}"#)).ok().unwrap();
    assert_eq!(
        c.argv,
        ["gh", "pr", "create", "--title", "T t", "--body", "B b", "--base", "main", "--draft", "--head", "dev"]
    );
    assert_eq!((c.timeout_secs, c.max_out), (180, 524_288));
    let cases: [(&str, &str); 5] = [
        (r#"{"title":" "}"#, "title é obrigatório"),
        (r#"{"title":"-x"}"#, "title inválido"),
        (r#"{"title":"t","body":"--"}"#, "body não pode conter '--'"),
        (r#"{"title":"t","base":"a b"}"#, "base inválida"),
        (r#"{"title":"t","head":"a b"}"#, "head inválido"),
    ];
    for (input, expected) in cases {
        assert_eq!(message(gh::gh_pr_create(&json(input))), expected);
    }
}

#[test]
fn pull_requests_are_merged_and_commented() {
    for (method, option) in [("merge", "--merge"), ("squash", "--squash"), ("rebase", "--rebase")] {
        let input = json(&format!(r#"{{"number":3,"method":"{method}"}}"#));
        assert_eq!(line(gh::gh_pr_merge(&input)), (format!("gh pr merge 3 {option}"), 180, 524_288));
    }
    assert_eq!(line(gh::gh_pr_merge(&json(r#"{"number":3}"#))).0, "gh pr merge 3 --squash");
    assert_eq!(message(gh::gh_pr_merge(&json(r#"{"number":3,"method":"x"}"#))), "method: merge|squash|rebase");
    assert_eq!(
        line(gh::gh_pr_comment(&json(r#"{"number":3,"body":"bom"}"#))),
        ("gh pr comment 3 --body bom".to_string(), 180, 262_144)
    );
    assert_eq!(message(gh::gh_pr_comment(&json(r#"{"number":3}"#))), "body é obrigatório");
    assert_eq!(message(gh::gh_pr_comment(&json(r#"{"number":3,"body":"a--b"}"#))), "body não pode conter '--'");
}
