//! The tools around pull requests: each call becomes a command line of `gh`.
use crate::command::{args, command, limited, Args, Command, CommandView};
use crate::git::{
    arg_if, arg_when, commanded, flag_set, named_arg, push_if, safe_git_refish, safe_ref, text_in,
};
use crate::json::{Json, JsonView};
use crate::numbers::{decimal, write_decimal};
use crate::reply::error;
use crate::text::{blank, contains, has_prefix, holds, same, starts_with, trimmed};
use vstd::prelude::*;

verus! {

/// How long a command may take, in seconds.
pub fn gh_timeout() -> (r: u64)
    ensures
        r == 180,
{
    180
}

/// The number of a pull request in a call.
pub open spec fn pr_number(input: JsonView) -> Option<u64> {
    match input.uint_at("number"@) {
        Some(n) => Some(n),
        None => input.uint_at("pr"@),
    }
}

fn number_of(input: &Json) -> (r: Option<u64>)
    ensures
        r == pr_number(input@),
{
    match input.uint_at("number") {
        Some(n) => Some(n),
        None => input.uint_at("pr"),
    }
}

/// The beginning of a command line on pull requests.
pub open spec fn pr_line(action: Seq<char>) -> Seq<Seq<char>> {
    seq!["gh"@].push("pr"@).push(action)
}

fn pr_args(action: &str) -> (r: Args)
    ensures
        r@ == pr_line(action@),
{
    args("gh").arg("pr").arg(action)
}

/// The beginning of a command line on the pull request with number `n`.
pub open spec fn numbered_line(action: Seq<char>, n: u64) -> Seq<Seq<char>> {
    pr_line(action).push(decimal(n as nat))
}

fn numbered_args(action: &str, n: u64) -> (r: Args)
    ensures
        r@ == numbered_line(action@, n),
{
    pr_args(action).arg(write_decimal(n as u128).as_str())
}

/// The command line that lists pull requests, or why there is none.
pub open spec fn pr_list_view(input: JsonView) -> Result<CommandView, Seq<char>> {
    let state = input.text_or("state"@, "open"@);
    if !(state == "open"@ || state == "closed"@ || state == "merged"@ || state == "all"@) {
        Err("state: open|closed|merged|all"@)
    } else {
        Ok(
            limited(
                pr_line("list"@).push("--state"@).push(state).push("--limit"@).push(
                    decimal(input.uint_clamped("limit"@, 30, 1, 100) as nat),
                ).push("--json"@).push(
                    "number,title,state,isDraft,headRefName,baseRefName,url,author"@,
                ),
                180,
                1_048_576,
            ),
        )
    }
}

/// Lists pull requests.
pub fn gh_pr_list(input: &Json) -> (r: Result<Command, Json>)
    ensures
        commanded(r, pr_list_view(input@)),
{
    let state = input.text_or("state", "open");
    if !(same(state, "open") || same(state, "closed") || same(state, "merged") || same(
        state,
        "all",
    )) {
        return Err(error("state: open|closed|merged|all"));
    }
    let limit: u64 = input.uint_clamped("limit", 30, 1, 100);
    let line = pr_args("list").arg("--state").arg(state).arg("--limit").arg(
        write_decimal(limit as u128).as_str(),
    ).arg("--json").arg("number,title,state,isDraft,headRefName,baseRefName,url,author");
    Ok(command(line, gh_timeout(), 1_048_576))
}

/// The command line that shows a pull request, or why there is none.
pub open spec fn pr_view_view(input: JsonView) -> Result<CommandView, Seq<char>> {
    match pr_number(input) {
        None => Err("number (ou pr) é obrigatório"@),
        Some(n) => Ok(
            limited(
                numbered_line("view"@, n).push("--json"@).push(
                    "number,title,state,body,isDraft,headRefName,baseRefName,url,author,commits,files"@,
                ),
                180,
                1_048_576,
            ),
        ),
    }
}

/// Shows a pull request.
pub fn gh_pr_view(input: &Json) -> (r: Result<Command, Json>)
    ensures
        commanded(r, pr_view_view(input@)),
{
    match number_of(input) {
        None => Err(error("number (ou pr) é obrigatório")),
        Some(n) => {
            let line = numbered_args("view", n).arg("--json").arg(
                "number,title,state,body,isDraft,headRefName,baseRefName,url,author,commits,files",
            );
            Ok(command(line, gh_timeout(), 1_048_576))
        },
    }
}

/// The command line that shows the changes of a pull request, or why there is none.
pub open spec fn pr_diff_view(input: JsonView) -> Result<CommandView, Seq<char>> {
    match pr_number(input) {
        None => Err("number (ou pr) é obrigatório"@),
        Some(n) => Ok(limited(numbered_line("diff"@, n), 180, 1_048_576)),
    }
}

/// Shows the changes of a pull request.
pub fn gh_pr_diff(input: &Json) -> (r: Result<Command, Json>)
    ensures
        commanded(r, pr_diff_view(input@)),
{
    match number_of(input) {
        None => Err(error("number (ou pr) é obrigatório")),
        Some(n) => Ok(command(numbered_args("diff", n), gh_timeout(), 1_048_576)),
    }
}

/// The command line that opens a pull request, or why there is none.
pub open spec fn pr_create_view(input: JsonView) -> Result<CommandView, Seq<char>> {
    let title = input.text_or("title"@, ""@);
    let body = input.text_or("body"@, ""@);
    let base = input.text_or("base"@, "main"@);
    let line = push_if(
        pr_line("create"@).push("--title"@).push(title).push("--body"@).push(body).push(
            "--base"@,
        ).push(base),
        input.bool_or("draft"@, false),
        "--draft"@,
    );
    if trimmed(title).len() == 0 {
        Err("title é obrigatório"@)
    } else if has_prefix(title, "-"@) {
        Err("title inválido"@)
    } else if holds(body, "--"@) {
        Err("body não pode conter '--'"@)
    } else if !safe_ref(base) {
        Err("base inválida"@)
    } else {
        match input.filled_at("head"@) {
            Some(h) => if !safe_ref(h) {
                Err("head inválido"@)
            } else {
                Ok(limited(line.push("--head"@).push(h), 180, 524_288))
            },
            None => Ok(limited(line, 180, 524_288)),
        }
    }
}

/// Opens a pull request.
pub fn gh_pr_create(input: &Json) -> (r: Result<Command, Json>)
    ensures
        commanded(r, pr_create_view(input@)),
{
    let title = input.text_or("title", "");
    if blank(title) {
        return Err(error("title é obrigatório"));
    }
    if starts_with(title, "-") {
        return Err(error("title inválido"));
    }
    let body = input.text_or("body", "");
    if contains(body, "--") {
        return Err(error("body não pode conter '--'"));
    }
    let base = input.text_or("base", "main");
    if !safe_git_refish(base) {
        return Err(error("base inválida"));
    }
    let line = arg_if(
        pr_args("create").arg("--title").arg(title).arg("--body").arg(body).arg("--base").arg(base),
        input.bool_or("draft", false),
        "--draft",
    );
    match input.filled_at("head") {
        Some(h) => {
            if !safe_git_refish(h) {
                return Err(error("head inválido"));
            }
            Ok(command(line.arg("--head").arg(h), gh_timeout(), 524_288))
        },
        None => Ok(command(line, gh_timeout(), 524_288)),
    }
}

/// The command line that closes a pull request, or why there is none.
pub open spec fn pr_close_view(input: JsonView) -> Result<CommandView, Seq<char>> {
    match pr_number(input) {
        None => Err("number (ou pr) é obrigatório"@),
        Some(n) => Ok(limited(numbered_line("close"@, n), 180, 262_144)),
    }
}

/// Closes a pull request.
pub fn gh_pr_close(input: &Json) -> (r: Result<Command, Json>)
    ensures
        commanded(r, pr_close_view(input@)),
{
    match number_of(input) {
        None => Err(error("number (ou pr) é obrigatório")),
        Some(n) => Ok(command(numbered_args("close", n), gh_timeout(), 262_144)),
    }
}

/// The option for a way to merge.
pub open spec fn merge_option(method: Seq<char>) -> Option<Seq<char>> {
    if method == "merge"@ {
        Some("--merge"@)
    } else if method == "squash"@ {
        Some("--squash"@)
    } else if method == "rebase"@ {
        Some("--rebase"@)
    } else {
        None
    }
}

/// The command line that merges a pull request, or why there is none.
pub open spec fn pr_merge_view(input: JsonView) -> Result<CommandView, Seq<char>> {
    match pr_number(input) {
        None => Err("number (ou pr) é obrigatório"@),
        Some(n) => match merge_option(input.text_or("method"@, "squash"@)) {
            Some(option) => Ok(limited(numbered_line("merge"@, n).push(option), 180, 524_288)),
            None => Err("method: merge|squash|rebase"@),
        },
    }
}

/// Merges a pull request.
pub fn gh_pr_merge(input: &Json) -> (r: Result<Command, Json>)
    ensures
        commanded(r, pr_merge_view(input@)),
{
    match number_of(input) {
        None => Err(error("number (ou pr) é obrigatório")),
        Some(n) => {
            let method = input.text_or("method", "squash");
            let option: &str = if same(method, "merge") {
                "--merge"
            } else if same(method, "squash") {
                "--squash"
            } else if same(method, "rebase") {
                "--rebase"
            } else {
                return Err(error("method: merge|squash|rebase"));
            };
            Ok(command(numbered_args("merge", n).arg(option), gh_timeout(), 524_288))
        },
    }
}

/// The command line that comments on a pull request, or why there is none.
pub open spec fn pr_comment_view(input: JsonView) -> Result<CommandView, Seq<char>> {
    let body = input.text_or("body"@, ""@);
    match pr_number(input) {
        None => Err("number (ou pr) é obrigatório"@),
        Some(n) => if trimmed(body).len() == 0 {
            Err("body é obrigatório"@)
        } else if holds(body, "--"@) {
            Err("body não pode conter '--'"@)
        } else {
            Ok(limited(numbered_line("comment"@, n).push("--body"@).push(body), 180, 262_144))
        },
    }
}

/// Comments on a pull request.
pub fn gh_pr_comment(input: &Json) -> (r: Result<Command, Json>)
    ensures
        commanded(r, pr_comment_view(input@)),
{
    match number_of(input) {
        None => Err(error("number (ou pr) é obrigatório")),
        Some(n) => {
            let body = input.text_or("body", "");
            if blank(body) {
                return Err(error("body é obrigatório"));
            }
            if contains(body, "--") {
                return Err(error("body não pode conter '--'"));
            }
            Ok(command(numbered_args("comment", n).arg("--body").arg(body), gh_timeout(), 262_144))
        },
    }
}

// ---------------------------------------------------------------------------
// Laws on command lines
// ---------------------------------------------------------------------------

/// A pull request is shown by its number.
pub proof fn law_pr_view_line(input: JsonView)
    requires
        input.get("number"@) matches Some(v) ==> v matches JsonView::Int(n) && 0 <= n <= u64::MAX,
    ensures
        pr_view_view(input) matches Ok(c) ==> {
            &&& c.argv == seq!["gh"@, "pr"@, "view"@, decimal(
                    (match input.get("number"@) {
                        Some(JsonView::Int(n)) => n,
                        _ => input.at("pr"@)->Int_0,
                    }) as nat,
                ), "--json"@, "number,title,state,body,isDraft,headRefName,baseRefName,url,author,commits,files"@]
            &&& c.timeout_secs == 180
            &&& c.max_out == 1048576
        },
        pr_view_view(input) is Ok <==> (input.uint_at("number"@) is Some || input.uint_at("pr"@) is Some),
{
    if let Ok(c) = pr_view_view(input) {
        assert(c.argv =~= seq!["gh"@, "pr"@, "view"@, decimal(
                    (match input.get("number"@) {
                        Some(JsonView::Int(n)) => n,
                        _ => input.at("pr"@)->Int_0,
                    }) as nat,
                ), "--json"@, "number,title,state,body,isDraft,headRefName,baseRefName,url,author,commits,files"@]);
    }
}

/// The changes of a pull request are shown by its number.
pub proof fn law_pr_diff_line(input: JsonView)
    requires
        input.get("number"@) matches Some(v) ==> v matches JsonView::Int(n) && 0 <= n <= u64::MAX,
    ensures
        pr_diff_view(input) matches Ok(c) ==> {
            &&& c.argv == seq!["gh"@, "pr"@, "diff"@, decimal(
                    (match input.get("number"@) {
                        Some(JsonView::Int(n)) => n,
                        _ => input.at("pr"@)->Int_0,
                    }) as nat,
                )]
            &&& c.timeout_secs == 180
            &&& c.max_out == 1048576
        },
        pr_diff_view(input) is Ok <==> (input.uint_at("number"@) is Some || input.uint_at("pr"@) is Some),
{
    if let Ok(c) = pr_diff_view(input) {
        assert(c.argv =~= seq!["gh"@, "pr"@, "diff"@, decimal(
                    (match input.get("number"@) {
                        Some(JsonView::Int(n)) => n,
                        _ => input.at("pr"@)->Int_0,
                    }) as nat,
                )]);
    }
}

/// A pull request is closed by its number.
pub proof fn law_pr_close_line(input: JsonView)
    requires
        input.get("number"@) matches Some(v) ==> v matches JsonView::Int(n) && 0 <= n <= u64::MAX,
    ensures
        pr_close_view(input) matches Ok(c) ==> {
            &&& c.argv == seq!["gh"@, "pr"@, "close"@, decimal(
                    (match input.get("number"@) {
                        Some(JsonView::Int(n)) => n,
                        _ => input.at("pr"@)->Int_0,
                    }) as nat,
                )]
            &&& c.timeout_secs == 180
            &&& c.max_out == 262144
        },
        pr_close_view(input) is Ok <==> (input.uint_at("number"@) is Some || input.uint_at("pr"@) is Some),
{
    if let Ok(c) = pr_close_view(input) {
        assert(c.argv =~= seq!["gh"@, "pr"@, "close"@, decimal(
                    (match input.get("number"@) {
                        Some(JsonView::Int(n)) => n,
                        _ => input.at("pr"@)->Int_0,
                    }) as nat,
                )]);
    }
}

/// A comment is that of the call, on the pull request of the call.
pub proof fn law_pr_comment_line(input: JsonView)
    requires
        input.get("number"@) matches Some(v) ==> v matches JsonView::Int(n) && 0 <= n <= u64::MAX,
    ensures
        pr_comment_view(input) matches Ok(c) ==> {
            &&& c.argv == seq!["gh"@, "pr"@, "comment"@, decimal(
                    (match input.get("number"@) {
                        Some(JsonView::Int(n)) => n,
                        _ => input.at("pr"@)->Int_0,
                    }) as nat,
                ), "--body"@, text_in(input, "body"@, ""@)]
            &&& c.timeout_secs == 180
            &&& c.max_out == 262144
        },
        pr_comment_view(input) is Ok <==> ((input.uint_at("number"@) is Some || input.uint_at("pr"@) is Some) && trimmed(
            text_in(input, "body"@, ""@),
        ).len() > 0 && !holds(text_in(input, "body"@, ""@), "--"@)),
{
    if let Ok(c) = pr_comment_view(input) {
        assert(c.argv =~= seq!["gh"@, "pr"@, "comment"@, decimal(
                    (match input.get("number"@) {
                        Some(JsonView::Int(n)) => n,
                        _ => input.at("pr"@)->Int_0,
                    }) as nat,
                ), "--body"@, text_in(input, "body"@, ""@)]);
    }
}

/// A pull request is merged by its number, in the way of the call.
pub proof fn law_pr_merge_line(input: JsonView)
    requires
        input.get("number"@) matches Some(v) ==> v matches JsonView::Int(n) && 0 <= n <= u64::MAX,
    ensures
        pr_merge_view(input) matches Ok(c) ==> {
            &&& c.argv == seq!["gh"@, "pr"@, "merge"@, decimal(
                    (match input.get("number"@) {
                        Some(JsonView::Int(n)) => n,
                        _ => input.at("pr"@)->Int_0,
                    }) as nat,
                ), "--"@ + text_in(input, "method"@, "squash"@)]
            &&& c.timeout_secs == 180
            &&& c.max_out == 524288
        },
        pr_merge_view(input) is Ok <==> ((input.uint_at("number"@) is Some || input.uint_at("pr"@) is Some) && seq!["merge"@, "squash"@, "rebase"@].contains(
            text_in(input, "method"@, "squash"@),
        )),
{
    let ways = seq!["merge"@, "squash"@, "rebase"@];
    assert(ways[0] == "merge"@ && ways[1] == "squash"@ && ways[2] == "rebase"@);
    reveal_strlit("--");
    reveal_strlit("merge");
    reveal_strlit("squash");
    reveal_strlit("rebase");
    reveal_strlit("--merge");
    reveal_strlit("--squash");
    reveal_strlit("--rebase");
    assert("--merge"@ =~= "--"@ + "merge"@);
    assert("--squash"@ =~= "--"@ + "squash"@);
    assert("--rebase"@ =~= "--"@ + "rebase"@);
    if let Ok(c) = pr_merge_view(input) {
        assert(c.argv =~= seq!["gh"@, "pr"@, "merge"@, decimal(
                    (match input.get("number"@) {
                        Some(JsonView::Int(n)) => n,
                        _ => input.at("pr"@)->Int_0,
                    }) as nat,
                ), "--"@ + text_in(input, "method"@, "squash"@)]);
    }
}

/// A pull request is opened with the title, the text and the base of the call, as a draft where the
/// call says so, and from its head where it names one.
pub proof fn law_pr_create_line(input: JsonView)
    ensures
        pr_create_view(input) matches Ok(c) ==> {
            &&& c.argv == seq![
                "gh"@,
                "pr"@,
                "create"@,
                "--title"@,
                text_in(input, "title"@, ""@),
                "--body"@,
                text_in(input, "body"@, ""@),
                "--base"@,
                text_in(input, "base"@, "main"@),
            ] + arg_when(flag_set(input, "draft"@), "--draft"@) + (if named_arg(
                input,
                "head"@,
            ).len() > 0 {
                seq!["--head"@] + named_arg(input, "head"@)
            } else {
                seq![]
            })
            &&& c.timeout_secs == 180
            &&& c.max_out == 512 * 1024
        },
        pr_create_view(input) is Ok <==> {
            &&& trimmed(text_in(input, "title"@, ""@)).len() > 0
            &&& !has_prefix(text_in(input, "title"@, ""@), "-"@)
            &&& !holds(text_in(input, "body"@, ""@), "--"@)
            &&& safe_ref(text_in(input, "base"@, "main"@))
            &&& named_arg(input, "head"@).len() > 0 ==> safe_ref(named_arg(input, "head"@)[0])
        },
{
    if let Ok(c) = pr_create_view(input) {
        assert(c.argv =~= seq![
            "gh"@,
            "pr"@,
            "create"@,
            "--title"@,
            text_in(input, "title"@, ""@),
            "--body"@,
            text_in(input, "body"@, ""@),
            "--base"@,
            text_in(input, "base"@, "main"@),
        ] + arg_when(flag_set(input, "draft"@), "--draft"@) + (if named_arg(input, "head"@).len()
            > 0 {
            seq!["--head"@] + named_arg(input, "head"@)
        } else {
            seq![]
        }));
    }
}

/// Pull requests are listed in the state and up to the number that the call names.
pub proof fn law_pr_list_line(input: JsonView)
    ensures
        pr_list_view(input) matches Ok(c) ==> {
            &&& c.argv.len() == 9
            &&& c.argv[0] == "gh"@ && c.argv[1] == "pr"@ && c.argv[2] == "list"@
            &&& c.argv[3] == "--state"@ && c.argv[4] == text_in(input, "state"@, "open"@)
            &&& c.argv[5] == "--limit"@
            &&& input.get("limit"@) matches Some(JsonView::Int(n)) ==> (1 <= n <= 100 ==> c.argv[6]
                == decimal(n as nat))
            &&& input.get("limit"@) is None ==> c.argv[6] == decimal(30)
            &&& c.argv[7] == "--json"@
        },
        pr_list_view(input) is Ok <==> seq!["open"@, "closed"@, "merged"@, "all"@].contains(
            text_in(input, "state"@, "open"@),
        ),
{
    let states = seq!["open"@, "closed"@, "merged"@, "all"@];
    assert(states[0] == "open"@ && states[1] == "closed"@ && states[2] == "merged"@ && states[3]
        == "all"@);
}

/// A pull request is named by `number`, and by `pr` where there is no such number.
pub proof fn law_pr_number(input: JsonView)
    ensures
        input.get("number"@) matches Some(JsonView::Int(n)) ==> (0 <= n <= u64::MAX ==> pr_number(
            input,
        ) == Some(n as u64)),
        !(input.at("number"@) is Int) ==> match input.get("pr"@) {
            Some(JsonView::Int(n)) => if 0 <= n <= u64::MAX {
                pr_number(input) == Some(n as u64)
            } else {
                pr_number(input) is None
            },
            _ => pr_number(input) is None,
        },
{
}

/// What is wrong with a call on a pull request is told.
pub proof fn law_refused_requests(input: JsonView)
    ensures
        ({
            let missing = Err::<CommandView, Seq<char>>("number (ou pr) é obrigatório"@);
            let title = text_in(input, "title"@, ""@);
            let body = text_in(input, "body"@, ""@);
            &&& pr_number(input) is None ==> pr_view_view(input) == missing && pr_diff_view(input)
                == missing && pr_close_view(input) == missing && pr_merge_view(input) == missing
                && pr_comment_view(input) == missing
            &&& pr_number(input) is Some && trimmed(body).len() == 0 ==> pr_comment_view(input)
                == Err::<CommandView, Seq<char>>("body é obrigatório"@)
            &&& pr_number(input) is Some && trimmed(body).len() > 0 && holds(body, "--"@)
                ==> pr_comment_view(input) == Err::<CommandView, Seq<char>>(
                "body não pode conter '--'"@,
            )
            &&& trimmed(title).len() == 0 ==> pr_create_view(input) == Err::<CommandView, Seq<char>>(
                "title é obrigatório"@,
            )
            &&& trimmed(title).len() > 0 && has_prefix(title, "-"@) ==> pr_create_view(input)
                == Err::<CommandView, Seq<char>>("title inválido"@)
            &&& trimmed(title).len() > 0 && !has_prefix(title, "-"@) && holds(body, "--"@)
                ==> pr_create_view(input) == Err::<CommandView, Seq<char>>(
                "body não pode conter '--'"@,
            )
        }),
{
}

/// The length of the list is moved to the nearest bearable one, and the list holds what the model
/// needs of each pull request.
pub proof fn law_pr_list_is_limited(input: JsonView)
    ensures
        pr_list_view(input) matches Ok(c) ==> {
            &&& input.get("limit"@) matches Some(JsonView::Int(n)) ==> {
                &&& 100 < n <= u64::MAX ==> c.argv[6] == decimal(100)
                &&& n == 0 ==> c.argv[6] == decimal(1)
            }
            &&& c.argv[8] == "number,title,state,isDraft,headRefName,baseRefName,url,author"@
            &&& c.timeout_secs == 180 && c.max_out == 1024 * 1024
        },
{
}

} // verus!
