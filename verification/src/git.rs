//! The tools around git: each call becomes a command line.
use crate::command::{args, command, limited, Args, Command, CommandView, Platform};
use crate::json::{Json, JsonView};
use crate::numbers::{decimal, write_decimal};
use crate::paths::{path_accepted, path_blocked, path_plain, path_verdict};
use crate::reply::{error, error_view, law_error_fields};
use crate::text::{
    alnum, blank, bytes_in, byte_len, cat, chars, contains, holds, has_prefix, is_alnum, same,
    starts_with, texts, trimmed,
};
use vstd::prelude::*;

verus! {

/// How long a command that reaches the network may take, in seconds.
pub fn git_timeout_network() -> (r: u64)
    ensures
        r == 180,
{
    180
}

/// How long a command that stays on the host may take, in seconds.
pub fn git_timeout_local() -> (r: u64)
    ensures
        r == 90,
{
    90
}

/// A command, or the reply that refuses a call, is the expected one.
pub open spec fn commanded(
    r: Result<Command, Json>,
    expected: Result<CommandView, Seq<char>>,
) -> bool {
    match (r, expected) {
        (Ok(c), Ok(v)) => c@ == v,
        (Err(e), Err(m)) => e@ == error_view(m),
        _ => false,
    }
}

// ---------------------------------------------------------------------------
// Names of revisions
// ---------------------------------------------------------------------------

/// A character that may stand in the name of a revision.
pub open spec fn ref_char(c: char) -> bool {
    is_alnum(c) || c == '.' || c == '/' || c == '_' || c == '-' || c == '@' || c == '{' || c == '}'
        || c == '^' || c == '~' || c == ':' || c == '+' || c == '*'
}

/// The name of a revision, a branch or a remote that is handed to git: short, made of plain
/// characters, and nothing that could be an option or a range.
pub open spec fn safe_ref(s: Seq<char>) -> bool {
    &&& s.len() > 0
    &&& byte_len(s) <= 120
    &&& !has_prefix(s, "-"@)
    &&& !holds(s, ".."@)
    &&& forall|i: int| 0 <= i < s.len() ==> ref_char(#[trigger] s[i])
}

/// Tells whether a name may be handed to git.
pub fn safe_git_refish(s: &str) -> (r: bool)
    ensures
        r == safe_ref(s@),
{
    if s.is_empty() || bytes_in(s) > 120 {
        return false;
    }
    if starts_with(s, "-") || contains(s, "..") {
        return false;
    }
    let cs = chars(s);
    for i in 0..cs.len()
        invariant
            cs@ == s@,
            forall|k: int| 0 <= k < i ==> ref_char(#[trigger] cs@[k]),
    {
        let c: char = cs[i];
        if !(alnum(c) || c == '.' || c == '/' || c == '_' || c == '-' || c == '@' || c == '{' || c
            == '}' || c == '^' || c == '~' || c == ':' || c == '+' || c == '*') {
            assert(!ref_char(s@[i as int]));
            return false;
        }
    }
    true
}

/// A name that is handed to git is never taken for an option: it does not begin with `-`.
pub proof fn law_ref_is_no_option(s: Seq<char>)
    requires
        safe_ref(s),
    ensures
        s[0] != '-',
{
    reveal_strlit("-");
    if s[0] == '-' {
        assert(s.subrange(0, 1) =~= "-"@);
        assert(s.take(1) =~= "-"@);
    }
}

// ---------------------------------------------------------------------------
// Lists of paths
// ---------------------------------------------------------------------------

/// The paths of a call are accepted: there is one, and each is.
pub open spec fn paths_accepted(paths: Seq<Seq<char>>, platform: Platform) -> bool {
    paths.len() > 0 && forall|i: int|
        0 <= i < paths.len() ==> path_verdict(#[trigger] paths[i], platform, true)
}

/// The paths of a call are refused because of path `i`, the first that is.
pub open spec fn path_refused_at(paths: Seq<Seq<char>>, platform: Platform, i: int) -> bool {
    &&& 0 <= i < paths.len()
    &&& path_verdict(paths[i], platform, false)
    &&& forall|k: int| 0 <= k < i ==> path_verdict(#[trigger] paths[k], platform, true)
}

/// The paths of a call are refused with a message.
pub open spec fn paths_refused(
    paths: Seq<Seq<char>>,
    platform: Platform,
    message: Seq<char>,
) -> bool {
    if paths.len() == 0 {
        message == "paths deve ser array não vazio de caminhos relativos"@
    } else {
        exists|i: int| #[trigger]
            path_refused_at(paths, platform, i) && message == "caminho inválido em paths: "@ + paths[i]
    }
}

/// Reads the paths of a call.
pub fn git_paths_from_input(input: &Json, platform: Platform) -> (r: Result<Vec<String>, String>)
    ensures
        match r {
            Ok(v) => texts(v@) == input@.texts_at("paths"@) && paths_accepted(
                input@.texts_at("paths"@),
                platform,
            ),
            Err(m) => paths_refused(input@.texts_at("paths"@), platform, m@),
        },
{
    let paths = input.texts_at("paths");
    let ghost all = texts(paths@);
    if paths.len() == 0 {
        assert(all.len() == 0);
        return Err("paths deve ser array não vazio de caminhos relativos".to_owned());
    }
    for i in 0..paths.len()
        invariant
            all == texts(paths@),
            all == input@.texts_at("paths"@),
            forall|k: int| 0 <= k < i ==> path_verdict(#[trigger] all[k], platform, true),
    {
        let p = paths[i].as_str();
        assert(p@ == all[i as int]);
        if !path_accepted(p, platform) {
            assert(path_refused_at(all, platform, i as int));
            return Err(cat("caminho inválido em paths: ", p));
        }
    }
    assert(all.len() == paths@.len());
    Ok(paths)
}

/// The answer to a call with a list of paths, whose command line begins with `head`.
pub open spec fn paths_answer(
    r: Result<Command, Json>,
    input: JsonView,
    platform: Platform,
    head: Seq<Seq<char>>,
) -> bool {
    let paths = input.texts_at("paths"@);
    match r {
        Ok(c) => paths_accepted(paths, platform) && c@ == limited(head + paths, 90, 262_144),
        Err(e) => exists|m: Seq<char>| #[trigger]
            paths_refused(paths, platform, m) && e@ == error_view(m),
    }
}

fn with_paths(input: &Json, platform: Platform, head: Args) -> (r: Result<Command, Json>)
    ensures
        paths_answer(r, input@, platform, head@),
{
    match git_paths_from_input(input, platform) {
        Ok(paths) => Ok(command(head.all(&paths), git_timeout_local(), 262_144)),
        Err(m) => Err(error(m.as_str())),
    }
}

/// Adds files to the index.
pub fn git_add(input: &Json, platform: Platform) -> (r: Result<Command, Json>)
    ensures
        paths_answer(r, input@, platform, seq!["git"@].push("add"@).push("--"@)),
{
    with_paths(input, platform, args("git").arg("add").arg("--"))
}

/// The beginning of the command line that restores files.
pub open spec fn restore_head(staged: bool) -> Seq<Seq<char>> {
    if staged {
        seq!["git"@].push("restore"@).push("--staged"@).push("--"@)
    } else {
        seq!["git"@].push("restore"@).push("--"@)
    }
}

/// Restores files in the tree or, where `staged` says so, in the index.
pub fn git_restore(input: &Json, platform: Platform) -> (r: Result<Command, Json>)
    ensures
        paths_answer(r, input@, platform, restore_head(input@.bool_or("staged"@, false))),
{
    let head = if input.bool_or("staged", false) {
        args("git").arg("restore").arg("--staged").arg("--")
    } else {
        args("git").arg("restore").arg("--")
    };
    with_paths(input, platform, head)
}

// ---------------------------------------------------------------------------
// Looking
// ---------------------------------------------------------------------------

/// Shows the state of the tree.
pub fn git_status() -> (r: Command)
    ensures
        r@ == limited(
            seq!["git"@].push("status"@).push("-sb"@).push("--porcelain=v1"@),
            90,
            524_288,
        ),
{
    command(
        args("git").arg("status").arg("-sb").arg("--porcelain=v1"),
        git_timeout_local(),
        524_288,
    )
}

/// An argument, where it applies.
pub open spec fn push_if(line: Seq<Seq<char>>, applies: bool, arg: Seq<char>) -> Seq<Seq<char>> {
    if applies {
        line.push(arg)
    } else {
        line
    }
}

pub(crate) fn arg_if(line: Args, applies: bool, arg: &str) -> (r: Args)
    ensures
        r@ == push_if(line@, applies, arg@),
{
    if applies {
        line.arg(arg)
    } else {
        line
    }
}

/// The command line that shows changes, or why there is none. `path_ok` is the verdict on the path.
pub open spec fn git_diff_view(input: JsonView, path_ok: bool) -> Result<CommandView, Seq<char>> {
    let line = push_if(
        seq!["git"@].push("diff"@),
        input.bool_or("staged"@, false),
        "--staged"@,
    );
    match input.filled_at("path"@) {
        Some(p) => if !path_ok {
            Err("path inválido"@)
        } else {
            Ok(limited(line.push("--"@).push(p), 90, 524_288))
        },
        None => Ok(limited(line, 90, 524_288)),
    }
}

/// Shows changes, given the verdict on the path.
pub fn git_diff_with(input: &Json, path_ok: bool) -> (r: Result<Command, Json>)
    ensures
        commanded(r, git_diff_view(input@, path_ok)),
{
    let line = arg_if(args("git").arg("diff"), input.bool_or("staged", false), "--staged");
    match input.filled_at("path") {
        Some(p) => if !path_ok {
            Err(error("path inválido"))
        } else {
            Ok(command(line.arg("--").arg(p), git_timeout_local(), 524_288))
        },
        None => Ok(command(line, git_timeout_local(), 524_288)),
    }
}

/// Shows changes.
pub fn git_diff(input: &Json, platform: Platform) -> (r: Result<Command, Json>)
    ensures
        exists|path_ok: bool|
            path_verdict(input@.text_or("path"@, ""@), platform, path_ok) && #[trigger] commanded(
                r,
                git_diff_view(input@, path_ok),
            ),
{
    let path_ok = path_accepted(input.text_or("path", ""), platform);
    git_diff_with(input, path_ok)
}

/// The command line that shows the history.
pub open spec fn git_log_view(input: JsonView) -> CommandView {
    limited(
        seq!["git"@].push("log"@).push("--oneline"@).push("--decorate"@).push("-n"@).push(
            decimal(input.uint_clamped("max_count"@, 20, 1, 200) as nat),
        ),
        90,
        524_288,
    )
}

/// Shows the history.
pub fn git_log(input: &Json) -> (r: Command)
    ensures
        r@ == git_log_view(input@),
        r@ == limited(
            seq!["git"@].push("log"@).push("--oneline"@).push("--decorate"@).push("-n"@).push(
                decimal(input@.uint_clamped("max_count"@, 20, 1, 200) as nat),
            ),
            90,
            524_288,
        ),
{
    let n: u64 = input.uint_clamped("max_count", 20, 1, 200);
    command(
        args("git").arg("log").arg("--oneline").arg("--decorate").arg("-n").arg(
            write_decimal(n as u128).as_str(),
        ),
        git_timeout_local(),
        524_288,
    )
}

/// The command line that lists the branches.
pub open spec fn git_branch_view(input: JsonView) -> CommandView {
    limited(
        push_if(
            seq!["git"@].push("branch"@).push("-vv"@),
            input.text_or("mode"@, "list"@) == "list_all"@,
            "-a"@,
        ),
        90,
        262_144,
    )
}

/// Lists the branches, with the remote ones where `mode` is `list_all`.
pub fn git_branch(input: &Json) -> (r: Command)
    ensures
        r@ == git_branch_view(input@),
        r@ == limited(
            push_if(
                seq!["git"@].push("branch"@).push("-vv"@),
                input@.text_or("mode"@, "list"@) == "list_all"@,
                "-a"@,
            ),
            90,
            262_144,
        ),
{
    let all = same(input.text_or("mode", "list"), "list_all");
    command(
        arg_if(args("git").arg("branch").arg("-vv"), all, "-a"),
        git_timeout_local(),
        262_144,
    )
}

/// Lists the remotes.
pub fn git_remote() -> (r: Command)
    ensures
        r@ == limited(seq!["git"@].push("remote"@).push("-v"@), 90, 131_072),
{
    command(args("git").arg("remote").arg("-v"), git_timeout_local(), 131_072)
}

/// The command line that shows a revision, or why there is none.
pub open spec fn git_show_view(input: JsonView) -> Result<CommandView, Seq<char>> {
    let rev = input.text_or("rev"@, "HEAD"@);
    if !safe_ref(rev) {
        Err("rev inválido"@)
    } else {
        Ok(
            limited(
                push_if(
                    seq!["git"@].push("show"@).push(rev),
                    input.bool_or("stat_only"@, true),
                    "--stat"@,
                ),
                90,
                524_288,
            ),
        )
    }
}

/// Shows a revision.
pub fn git_show(input: &Json) -> (r: Result<Command, Json>)
    ensures
        commanded(r, git_show_view(input@)),
{
    let rev = input.text_or("rev", "HEAD");
    if !safe_git_refish(rev) {
        return Err(error("rev inválido"));
    }
    let line = arg_if(
        args("git").arg("show").arg(rev),
        input.bool_or("stat_only", true),
        "--stat",
    );
    Ok(command(line, git_timeout_local(), 524_288))
}

/// The command line that names a revision, or why there is none.
pub open spec fn git_rev_parse_view(input: JsonView) -> Result<CommandView, Seq<char>> {
    let rev = input.text_or("rev"@, "HEAD"@);
    if !safe_ref(rev) {
        Err("rev inválido"@)
    } else {
        Ok(limited(seq!["git"@].push("rev-parse"@).push(rev), 90, 65_536))
    }
}

/// Names a revision.
pub fn git_rev_parse(input: &Json) -> (r: Result<Command, Json>)
    ensures
        commanded(r, git_rev_parse_view(input@)),
{
    let rev = input.text_or("rev", "HEAD");
    if !safe_git_refish(rev) {
        return Err(error("rev inválido"));
    }
    Ok(command(args("git").arg("rev-parse").arg(rev), git_timeout_local(), 65_536))
}

// ---------------------------------------------------------------------------
// Changing
// ---------------------------------------------------------------------------

/// The command line that commits, or why there is none.
pub open spec fn git_commit_view(input: JsonView) -> Result<CommandView, Seq<char>> {
    let message = input.text_or("message"@, ""@);
    if trimmed(message).len() == 0 {
        Err("message é obrigatório"@)
    } else if holds(message, "--"@) {
        Err("message não pode conter '--'"@)
    } else {
        Ok(
            limited(
                push_if(
                    seq!["git"@].push("commit"@).push("-m"@).push(message),
                    input.bool_or("allow_empty"@, false),
                    "--allow-empty"@,
                ),
                90,
                262_144,
            ),
        )
    }
}

/// Commits.
pub fn git_commit(input: &Json) -> (r: Result<Command, Json>)
    ensures
        commanded(r, git_commit_view(input@)),
{
    let message = input.text_or("message", "");
    if blank(message) {
        return Err(error("message é obrigatório"));
    }
    if contains(message, "--") {
        return Err(error("message não pode conter '--'"));
    }
    let line = arg_if(
        args("git").arg("commit").arg("-m").arg(message),
        input.bool_or("allow_empty", false),
        "--allow-empty",
    );
    Ok(command(line, git_timeout_local(), 262_144))
}

/// A command line with one more name, where the call has one, or the message that refuses it.
pub open spec fn with_ref(
    line: Seq<Seq<char>>,
    name: Option<Seq<char>>,
    message: Seq<char>,
) -> Result<Seq<Seq<char>>, Seq<char>> {
    match name {
        Some(s) => if safe_ref(s) {
            Ok(line.push(s))
        } else {
            Err(message)
        },
        None => Ok(line),
    }
}

fn ref_arg(line: Args, name: Option<&str>, message: &str) -> (r: Result<Args, Json>)
    ensures
        match (
            r,
            with_ref(
                line@,
                match name {
                    Some(s) => Some(s@),
                    None => None,
                },
                message@,
            ),
        ) {
            (Ok(a), Ok(v)) => a@ == v,
            (Err(e), Err(m)) => e@ == error_view(m),
            _ => false,
        },
{
    match name {
        Some(s) => if safe_git_refish(s) {
            Ok(line.arg(s))
        } else {
            Err(error(message))
        },
        None => Ok(line),
    }
}

/// A command line with its limits, or the message that refuses it.
pub open spec fn limited_line(
    line: Result<Seq<Seq<char>>, Seq<char>>,
    timeout_secs: int,
    max_out: int,
) -> Result<CommandView, Seq<char>> {
    match line {
        Ok(l) => Ok(limited(l, timeout_secs, max_out)),
        Err(m) => Err(m),
    }
}

/// The command line that pushes, or why there is none.
pub open spec fn git_push_view(input: JsonView) -> Result<CommandView, Seq<char>> {
    let remote = input.text_or("remote"@, "origin"@);
    if !safe_ref(remote) {
        Err("remote inválido"@)
    } else {
        limited_line(
            with_ref(
                push_if(
                    seq!["git"@].push("push"@),
                    input.bool_or("set_upstream"@, false),
                    "-u"@,
                ).push(remote),
                input.filled_at("branch"@),
                "branch inválida"@,
            ),
            180,
            524_288,
        )
    }
}

/// Pushes.
pub fn git_push(input: &Json) -> (r: Result<Command, Json>)
    ensures
        commanded(r, git_push_view(input@)),
{
    let remote = input.text_or("remote", "origin");
    if !safe_git_refish(remote) {
        return Err(error("remote inválido"));
    }
    let line = arg_if(args("git").arg("push"), input.bool_or("set_upstream", false), "-u").arg(
        remote,
    );
    match ref_arg(line, input.filled_at("branch"), "branch inválida") {
        Ok(line) => Ok(command(line, git_timeout_network(), 524_288)),
        Err(e) => Err(e),
    }
}

/// The command line that pulls, or why there is none.
pub open spec fn git_pull_view(input: JsonView) -> Result<CommandView, Seq<char>> {
    let remote = input.text_or("remote"@, "origin"@);
    if !safe_ref(remote) {
        Err("remote inválido"@)
    } else {
        limited_line(
            with_ref(
                seq!["git"@].push("pull"@).push(remote),
                input.filled_at("branch"@),
                "branch inválida"@,
            ),
            180,
            524_288,
        )
    }
}

/// Pulls.
pub fn git_pull(input: &Json) -> (r: Result<Command, Json>)
    ensures
        commanded(r, git_pull_view(input@)),
{
    let remote = input.text_or("remote", "origin");
    if !safe_git_refish(remote) {
        return Err(error("remote inválido"));
    }
    let line = args("git").arg("pull").arg(remote);
    match ref_arg(line, input.filled_at("branch"), "branch inválida") {
        Ok(line) => Ok(command(line, git_timeout_network(), 524_288)),
        Err(e) => Err(e),
    }
}

/// The command line that fetches, or why there is none.
pub open spec fn git_fetch_view(input: JsonView) -> Result<CommandView, Seq<char>> {
    match with_ref(seq!["git"@].push("fetch"@), input.filled_at("remote"@), "remote inválido"@) {
        Ok(line) => Ok(
            limited(push_if(line, input.bool_or("prune"@, false), "--prune"@), 180, 524_288),
        ),
        Err(m) => Err(m),
    }
}

/// Fetches.
pub fn git_fetch(input: &Json) -> (r: Result<Command, Json>)
    ensures
        commanded(r, git_fetch_view(input@)),
{
    match ref_arg(args("git").arg("fetch"), input.filled_at("remote"), "remote inválido") {
        Ok(line) => Ok(
            command(
                arg_if(line, input.bool_or("prune", false), "--prune"),
                git_timeout_network(),
                524_288,
            ),
        ),
        Err(e) => Err(e),
    }
}

/// The command line that checks a branch out, or why there is none.
pub open spec fn git_checkout_view(input: JsonView) -> Result<CommandView, Seq<char>> {
    match input.filled_at("branch"@) {
        None => Err("branch é obrigatório"@),
        Some(branch) => if !safe_ref(branch) {
            Err("nome de branch inválido"@)
        } else {
            limited_line(
                with_ref(
                    push_if(
                        seq!["git"@].push("checkout"@),
                        input.bool_or("create_branch"@, false),
                        "-b"@,
                    ).push(branch),
                    input.filled_at("start_point"@),
                    "start_point inválido"@,
                ),
                90,
                262_144,
            )
        },
    }
}

/// Checks a branch out.
pub fn git_checkout(input: &Json) -> (r: Result<Command, Json>)
    ensures
        commanded(r, git_checkout_view(input@)),
{
    match input.filled_at("branch") {
        None => Err(error("branch é obrigatório")),
        Some(branch) => {
            if !safe_git_refish(branch) {
                return Err(error("nome de branch inválido"));
            }
            let line = arg_if(
                args("git").arg("checkout"),
                input.bool_or("create_branch", false),
                "-b",
            ).arg(branch);
            match ref_arg(line, input.filled_at("start_point"), "start_point inválido") {
                Ok(line) => Ok(command(line, git_timeout_local(), 262_144)),
                Err(e) => Err(e),
            }
        },
    }
}

/// The command line that works on the stash, or why there is none.
pub open spec fn git_stash_view(input: JsonView) -> Result<CommandView, Seq<char>> {
    let action = input.text_or("action"@, "list"@);
    let line = seq!["git"@].push("stash"@);
    if action == "list"@ {
        Ok(limited(line.push("list"@), 90, 262_144))
    } else if action == "push"@ {
        match input.filled_at("message"@) {
            Some(m) => if holds(m, "--"@) {
                Err("message inválida"@)
            } else {
                Ok(limited(line.push("push"@).push("-m"@).push(m), 90, 262_144))
            },
            None => Ok(limited(line.push("push"@), 90, 262_144)),
        }
    } else if action == "pop"@ {
        Ok(limited(line.push("pop"@), 90, 262_144))
    } else if action == "apply"@ {
        Ok(limited(line.push("apply"@), 90, 262_144))
    } else {
        Err("action deve ser list | push | pop | apply"@)
    }
}

/// Works on the stash.
pub fn git_stash(input: &Json) -> (r: Result<Command, Json>)
    ensures
        commanded(r, git_stash_view(input@)),
{
    let action = input.text_or("action", "list");
    let line = args("git").arg("stash");
    let line = if same(action, "list") {
        line.arg("list")
    } else if same(action, "push") {
        match input.filled_at("message") {
            Some(m) => {
                if contains(m, "--") {
                    return Err(error("message inválida"));
                }
                line.arg("push").arg("-m").arg(m)
            },
            None => line.arg("push"),
        }
    } else if same(action, "pop") {
        line.arg("pop")
    } else if same(action, "apply") {
        line.arg("apply")
    } else {
        return Err(error("action deve ser list | push | pop | apply"));
    };
    Ok(command(line, git_timeout_local(), 262_144))
}

// ---------------------------------------------------------------------------
// Laws
// ---------------------------------------------------------------------------

/// Every argument behind the name of the subcommand is a name that is safe to hand to git, or one of
/// the options that the tool itself sets.
pub open spec fn safe_line(argv: Seq<Seq<char>>, options: Seq<Seq<char>>) -> bool {
    argv.len() >= 2 && argv[0] == "git"@ && forall|i: int|
        2 <= i < argv.len() ==> safe_ref(#[trigger] argv[i]) || options.contains(argv[i])
}

/// Whatever a call says, the command lines of these tools hold safe names and fixed options only.
pub proof fn law_lines_are_safe(input: JsonView)
    ensures
        git_push_view(input) matches Ok(c) ==> safe_line(c.argv, seq!["-u"@]),
        git_pull_view(input) matches Ok(c) ==> safe_line(c.argv, seq![]),
        git_fetch_view(input) matches Ok(c) ==> safe_line(c.argv, seq!["--prune"@]),
        git_checkout_view(input) matches Ok(c) ==> safe_line(c.argv, seq!["-b"@]),
        git_show_view(input) matches Ok(c) ==> safe_line(c.argv, seq!["--stat"@]),
        git_rev_parse_view(input) matches Ok(c) ==> safe_line(c.argv, seq![]),
{
    assert(seq!["-u"@][0] == "-u"@);
    assert(seq!["--prune"@][0] == "--prune"@);
    assert(seq!["-b"@][0] == "-b"@);
    assert(seq!["--stat"@][0] == "--stat"@);
    assert(seq!["-u"@].contains("-u"@));
    assert(seq!["--prune"@].contains("--prune"@));
    assert(seq!["-b"@].contains("-b"@));
    assert(seq!["--stat"@].contains("--stat"@));
}

/// The paths of a call stand behind `--`, where git takes none of them for an option, and each of
/// them was accepted.
pub proof fn law_paths_behind_dashes(
    c: Command,
    input: JsonView,
    platform: Platform,
    head: Seq<Seq<char>>,
)
    requires
        paths_answer(Ok(c), input, platform, head),
        head.len() > 0,
        head.last() == "--"@,
    ensures
        c@.argv.take(head.len() as int) == head,
        c@.argv.skip(head.len() as int) == input.texts_at("paths"@),
        paths_accepted(c@.argv.skip(head.len() as int), platform),
{
    assert(c@.argv.take(head.len() as int) =~= head);
    assert(c@.argv.skip(head.len() as int) =~= input.texts_at("paths"@));
}

// ---------------------------------------------------------------------------
// Laws on command lines
// ---------------------------------------------------------------------------

/// A field of a call that is set.
pub open spec fn flag_set(input: JsonView, key: Seq<char>) -> bool {
    input.get(key) == Some(JsonView::Bool(true))
}

/// A text of a call, and `default` where it has none.
pub open spec fn text_in(input: JsonView, key: Seq<char>, default: Seq<char>) -> Seq<char> {
    match input.get(key) {
        Some(JsonView::Text(t)) => t,
        _ => default,
    }
}

/// A text of a call as an argument, where it has one that is not empty.
pub open spec fn named_arg(input: JsonView, key: Seq<char>) -> Seq<Seq<char>> {
    match input.get(key) {
        Some(JsonView::Text(t)) => if t.len() > 0 {
            seq![t]
        } else {
            seq![]
        },
        _ => seq![],
    }
}

/// An argument where it applies.
pub open spec fn arg_when(applies: bool, arg: Seq<char>) -> Seq<Seq<char>> {
    if applies {
        seq![arg]
    } else {
        seq![]
    }
}

/// A diff is that of the index where it is asked for, and of one path where one is named.
pub proof fn law_diff_line(input: JsonView, path_ok: bool)
    ensures
        git_diff_view(input, path_ok) matches Ok(c) ==> {
            &&& c.argv == seq!["git"@, "diff"@] + arg_when(flag_set(input, "staged"@), "--staged"@) + (if named_arg(input, "path"@).len() > 0 {
                seq!["--"@] + named_arg(input, "path"@)
            } else {
                seq![]
            })
            &&& c.timeout_secs == 90
            &&& c.max_out == 524288
        },
        git_diff_view(input, path_ok) is Ok <==> (path_ok || named_arg(input, "path"@).len() == 0),
{
    if let Ok(c) = git_diff_view(input, path_ok) {
        assert(c.argv =~= seq!["git"@, "diff"@] + arg_when(flag_set(input, "staged"@), "--staged"@) + (if named_arg(input, "path"@).len() > 0 {
                seq!["--"@] + named_arg(input, "path"@)
            } else {
                seq![]
            }));
    }
}

/// A revision is shown with a summary unless the call says otherwise.
pub proof fn law_show_line(input: JsonView)
    ensures
        git_show_view(input) matches Ok(c) ==> {
            &&& c.argv == seq!["git"@, "show"@, text_in(input, "rev"@, "HEAD"@)] + arg_when(
                input.get("stat_only"@) != Some(JsonView::Bool(false)),
                "--stat"@,
            )
            &&& c.timeout_secs == 90
            &&& c.max_out == 524288
        },
        git_show_view(input) is Ok <==> safe_ref(text_in(input, "rev"@, "HEAD"@)),
{
    if let Ok(c) = git_show_view(input) {
        assert(c.argv =~= seq!["git"@, "show"@, text_in(input, "rev"@, "HEAD"@)] + arg_when(
                input.get("stat_only"@) != Some(JsonView::Bool(false)),
                "--stat"@,
            ));
    }
}

/// A revision is named.
pub proof fn law_rev_parse_line(input: JsonView)
    ensures
        git_rev_parse_view(input) matches Ok(c) ==> {
            &&& c.argv == seq!["git"@, "rev-parse"@, text_in(input, "rev"@, "HEAD"@)]
            &&& c.timeout_secs == 90
            &&& c.max_out == 65536
        },
        git_rev_parse_view(input) is Ok <==> safe_ref(text_in(input, "rev"@, "HEAD"@)),
{
    if let Ok(c) = git_rev_parse_view(input) {
        assert(c.argv =~= seq!["git"@, "rev-parse"@, text_in(input, "rev"@, "HEAD"@)]);
    }
}

/// A commit has the message of the call, and is empty where the call says so.
pub proof fn law_commit_line(input: JsonView)
    ensures
        git_commit_view(input) matches Ok(c) ==> {
            &&& c.argv == seq!["git"@, "commit"@, "-m"@, text_in(input, "message"@, ""@)] + arg_when(
                flag_set(input, "allow_empty"@),
                "--allow-empty"@,
            )
            &&& c.timeout_secs == 90
            &&& c.max_out == 262144
        },
        git_commit_view(input) is Ok <==> (trimmed(text_in(input, "message"@, ""@)).len() > 0 && !holds(
            text_in(input, "message"@, ""@),
            "--"@,
        )),
{
    if let Ok(c) = git_commit_view(input) {
        assert(c.argv =~= seq!["git"@, "commit"@, "-m"@, text_in(input, "message"@, ""@)] + arg_when(
                flag_set(input, "allow_empty"@),
                "--allow-empty"@,
            ));
    }
}

/// A push goes to the remote of the call, with its branch where it names one.
pub proof fn law_push_line(input: JsonView)
    ensures
        git_push_view(input) matches Ok(c) ==> {
            &&& c.argv == seq!["git"@, "push"@] + arg_when(flag_set(input, "set_upstream"@), "-u"@) + seq![
                text_in(input, "remote"@, "origin"@),
            ] + named_arg(input, "branch"@)
            &&& c.timeout_secs == 180
            &&& c.max_out == 524288
        },
        git_push_view(input) is Ok <==> (safe_ref(text_in(input, "remote"@, "origin"@)) && (named_arg(
            input,
            "branch"@,
        ).len() > 0 ==> safe_ref(named_arg(input, "branch"@)[0]))),
{
    if let Ok(c) = git_push_view(input) {
        assert(c.argv =~= seq!["git"@, "push"@] + arg_when(flag_set(input, "set_upstream"@), "-u"@) + seq![
                text_in(input, "remote"@, "origin"@),
            ] + named_arg(input, "branch"@));
    }
}

/// A pull comes from the remote of the call, with its branch where it names one.
pub proof fn law_pull_line(input: JsonView)
    ensures
        git_pull_view(input) matches Ok(c) ==> {
            &&& c.argv == seq!["git"@, "pull"@, text_in(input, "remote"@, "origin"@)] + named_arg(input, "branch"@)
            &&& c.timeout_secs == 180
            &&& c.max_out == 524288
        },
        git_pull_view(input) is Ok <==> (safe_ref(text_in(input, "remote"@, "origin"@)) && (named_arg(
            input,
            "branch"@,
        ).len() > 0 ==> safe_ref(named_arg(input, "branch"@)[0]))),
{
    if let Ok(c) = git_pull_view(input) {
        assert(c.argv =~= seq!["git"@, "pull"@, text_in(input, "remote"@, "origin"@)] + named_arg(input, "branch"@));
    }
}

/// A fetch comes from the remote of the call, where it names one.
pub proof fn law_fetch_line(input: JsonView)
    ensures
        git_fetch_view(input) matches Ok(c) ==> {
            &&& c.argv == seq!["git"@, "fetch"@] + named_arg(input, "remote"@) + arg_when(
                flag_set(input, "prune"@),
                "--prune"@,
            )
            &&& c.timeout_secs == 180
            &&& c.max_out == 524288
        },
        git_fetch_view(input) is Ok <==> (named_arg(input, "remote"@).len() > 0 ==> safe_ref(
            named_arg(input, "remote"@)[0],
        )),
{
    if let Ok(c) = git_fetch_view(input) {
        assert(c.argv =~= seq!["git"@, "fetch"@] + named_arg(input, "remote"@) + arg_when(
                flag_set(input, "prune"@),
                "--prune"@,
            ));
    }
}

/// A checkout is of the branch of the call, which is made where the call says so, from its starting point where it names one.
pub proof fn law_checkout_line(input: JsonView)
    ensures
        git_checkout_view(input) matches Ok(c) ==> {
            &&& c.argv == seq!["git"@, "checkout"@] + arg_when(flag_set(input, "create_branch"@), "-b"@) + named_arg(
                input,
                "branch"@,
            ) + named_arg(input, "start_point"@)
            &&& c.timeout_secs == 90
            &&& c.max_out == 262144
        },
        git_checkout_view(input) is Ok <==> (named_arg(input, "branch"@).len() > 0 && safe_ref(
            named_arg(input, "branch"@)[0],
        ) && (named_arg(input, "start_point"@).len() > 0 ==> safe_ref(
            named_arg(input, "start_point"@)[0],
        ))),
{
    if let Ok(c) = git_checkout_view(input) {
        assert(c.argv =~= seq!["git"@, "checkout"@] + arg_when(flag_set(input, "create_branch"@), "-b"@) + named_arg(
                input,
                "branch"@,
            ) + named_arg(input, "start_point"@));
    }
}

/// The stash is listed, filled with a message where the call has one, or emptied, as the call says.
pub proof fn law_stash_line(input: JsonView)
    ensures
        git_stash_view(input) matches Ok(c) ==> {
            let action = text_in(input, "action"@, "list"@);
            &&& c.argv[0] == "git"@ && c.argv[1] == "stash"@ && c.argv[2] == action
            &&& action == "push"@ && named_arg(input, "message"@).len() > 0 ==> c.argv.len() == 5
                && c.argv[3] == "-m"@ && c.argv[4] == named_arg(input, "message"@)[0]
            &&& action != "push"@ || named_arg(input, "message"@).len() == 0 ==> c.argv.len() == 3
            &&& seq!["list"@, "push"@, "pop"@, "apply"@].contains(action)
            &&& c.timeout_secs == 90
        },
{
    let list = seq!["list"@, "push"@, "pop"@, "apply"@];
    assert(list[0] == "list"@ && list[1] == "push"@ && list[2] == "pop"@ && list[3] == "apply"@);
    reveal_strlit("list");
    reveal_strlit("push");
    assert("list"@[0] != "push"@[0]);
}

/// Files are restored in the index where the call says so, and their paths stand behind `--`.
pub proof fn law_restore_line(restore_staged: bool)
    ensures
        restore_head(restore_staged) == seq!["git"@, "restore"@] + arg_when(
            restore_staged,
            "--staged"@,
        ) + seq!["--"@],
{
    assert(restore_head(restore_staged) =~= seq!["git"@, "restore"@] + arg_when(
        restore_staged,
        "--staged"@,
    ) + seq!["--"@]);
}

/// A name that is handed to git is made of letters, digits and these signs, is no longer than 120
/// characters, and has no two dots behind one another.
pub proof fn law_safe_names(s: Seq<char>, i: int)
    ensures
        safe_ref(s) && 0 <= i < s.len() ==> is_alnum(s[i]) || seq![
            '.',
            '/',
            '_',
            '-',
            '@',
            '{',
            '}',
            '^',
            '~',
            ':',
            '+',
            '*',
        ].contains(s[i]),
        safe_ref(s) ==> !holds(s, ".."@) && vstd::utf8::encode_utf8(s).len() <= 120 && s.len() > 0,
{
    let signs = seq!['.', '/', '_', '-', '@', '{', '}', '^', '~', ':', '+', '*'];
    assert(signs[0] == '.' && signs[1] == '/' && signs[2] == '_' && signs[3] == '-' && signs[4]
        == '@' && signs[5] == '{' && signs[6] == '}' && signs[7] == '^' && signs[8] == '~'
        && signs[9] == ':' && signs[10] == '+' && signs[11] == '*');
}

/// The history is as long as the call asks for, between one entry and 200, and 20 entries without a
/// number; the branches are all of them where the call says so.
pub proof fn law_looking_lines(input: JsonView)
    ensures
        git_log_view(input).argv.take(5) == seq![
            "git"@,
            "log"@,
            "--oneline"@,
            "--decorate"@,
            "-n"@,
        ],
        git_log_view(input).argv.len() == 6,
        input.get("max_count"@) matches Some(JsonView::Int(n)) ==> (1 <= n <= 200 ==> git_log_view(
            input,
        ).argv[5] == decimal(n as nat)),
        input.get("max_count"@) is None ==> git_log_view(input).argv[5] == decimal(20),
        git_branch_view(input).argv == seq!["git"@, "branch"@, "-vv"@] + arg_when(
            input.get("mode"@) == Some(JsonView::Text("list_all"@)),
            "-a"@,
        ),
{
    assert(git_log_view(input).argv.take(5) =~= seq![
        "git"@,
        "log"@,
        "--oneline"@,
        "--decorate"@,
        "-n"@,
    ]);
    reveal_strlit("list");
    reveal_strlit("list_all");
    assert("list"@.len() != "list_all"@.len());
    assert(git_branch_view(input).argv =~= seq!["git"@, "branch"@, "-vv"@] + arg_when(
        input.get("mode"@) == Some(JsonView::Text("list_all"@)),
        "-a"@,
    ));
}

/// A command or a refusal that is the expected one is that command, or holds that message.
pub proof fn law_commanded(r: Result<Command, Json>, expected: Result<CommandView, Seq<char>>)
    requires
        commanded(r, expected),
    ensures
        r is Ok <==> expected is Ok,
        r matches Ok(c) ==> c@ == expected->Ok_0,
        r matches Err(e) ==> e@.get("error"@) == Some(JsonView::Text(expected->Err_0)) && e@.get(
            "status"@,
        ) == Some(JsonView::Text("error"@)),
{
    if expected is Err {
        law_error_fields(expected->Err_0);
    }
}

/// A call with paths is answered with a command on all of them, in their order, behind its head, just
/// where there is one and each is accepted; a refusal names the first that is not.
pub proof fn law_paths_of_a_call(
    r: Result<Command, Json>,
    input: JsonView,
    platform: Platform,
    head: Seq<Seq<char>>,
)
    requires
        paths_answer(r, input, platform, head),
    ensures
        ({
            let paths = input.texts_at("paths"@);
            &&& r matches Ok(c) ==> c@.argv == head + paths && paths.len() > 0 && c@.timeout_secs
                == 90
            &&& paths.len() == 0 ==> r is Err
            &&& (exists|i: int| 0 <= i < paths.len() && path_blocked(#[trigger] paths[i])) ==> r
                is Err
            &&& paths.len() > 0 && (forall|i: int|
                0 <= i < paths.len() ==> path_plain(#[trigger] paths[i])) ==> r is Ok
        }),
{
    let paths = input.texts_at("paths"@);
    if let Err(e) = r {
        let m = choose|m: Seq<char>| #[trigger]
            paths_refused(paths, platform, m) && e@ == error_view(m);
        if paths.len() > 0 {
            let i = choose|i: int| #[trigger]
                path_refused_at(paths, platform, i) && m == "caminho inválido em paths: "@
                    + paths[i];
            assert(!path_plain(paths[i]));
        }
    }
}

/// Every name of letters, digits and these signs that is not too long, does not begin with `-` and has
/// no two dots behind one another is handed to git.
pub proof fn law_names_are_accepted(s: Seq<char>)
    requires
        s.len() > 0,
        vstd::utf8::encode_utf8(s).len() <= 120,
        s[0] != '-',
        !holds(s, ".."@),
        forall|i: int|
            0 <= i < s.len() ==> is_alnum(#[trigger] s[i]) || seq![
                '.',
                '/',
                '_',
                '-',
                '@',
                '{',
                '}',
                '^',
                '~',
                ':',
                '+',
                '*',
            ].contains(s[i]),
    ensures
        safe_ref(s),
{
    reveal_strlit("-");
    if has_prefix(s, "-"@) {
        assert(s.subrange(0, 1)[0] == s[0]);
    }
    assert forall|i: int| 0 <= i < s.len() implies ref_char(#[trigger] s[i]) by {
        assert(is_alnum(s[i]) || seq!['.', '/', '_', '-', '@', '{', '}', '^', '~', ':', '+', '*'].contains(
            s[i],
        ));
    }
}

/// What is wrong with a call is told: the remote before the branch, and the branch before the place
/// that it starts from.
pub proof fn law_refused_names(input: JsonView)
    ensures
        ({
            let remote = text_in(input, "remote"@, "origin"@);
            let branch = named_arg(input, "branch"@);
            let start = named_arg(input, "start_point"@);
            let named = named_arg(input, "remote"@);
            &&& !safe_ref(remote) ==> git_push_view(input) == Err::<CommandView, Seq<char>>(
                "remote inválido"@,
            ) && git_pull_view(input) == Err::<CommandView, Seq<char>>("remote inválido"@)
            &&& safe_ref(remote) && branch.len() > 0 && !safe_ref(branch[0]) ==> git_push_view(input)
                == Err::<CommandView, Seq<char>>("branch inválida"@) && git_pull_view(input)
                == Err::<CommandView, Seq<char>>("branch inválida"@)
            &&& named.len() > 0 && !safe_ref(named[0]) ==> git_fetch_view(input) == Err::<
                CommandView,
                Seq<char>,
            >("remote inválido"@)
            &&& branch.len() == 0 ==> git_checkout_view(input) == Err::<CommandView, Seq<char>>(
                "branch é obrigatório"@,
            )
            &&& branch.len() > 0 && !safe_ref(branch[0]) ==> git_checkout_view(input) == Err::<
                CommandView,
                Seq<char>,
            >("nome de branch inválido"@)
            &&& branch.len() > 0 && safe_ref(branch[0]) && start.len() > 0 && !safe_ref(start[0])
                ==> git_checkout_view(input) == Err::<CommandView, Seq<char>>(
                "start_point inválido"@,
            )
            &&& !safe_ref(text_in(input, "rev"@, "HEAD"@)) ==> git_show_view(input) == Err::<
                CommandView,
                Seq<char>,
            >("rev inválido"@) && git_rev_parse_view(input) == Err::<CommandView, Seq<char>>(
                "rev inválido"@,
            )
            &&& trimmed(text_in(input, "message"@, ""@)).len() == 0 ==> git_commit_view(input)
                == Err::<CommandView, Seq<char>>("message é obrigatório"@)
            &&& trimmed(text_in(input, "message"@, ""@)).len() > 0 && holds(
                text_in(input, "message"@, ""@),
                "--"@,
            ) ==> git_commit_view(input) == Err::<CommandView, Seq<char>>(
                "message não pode conter '--'"@,
            )
            &&& named_arg(input, "path"@).len() > 0 ==> git_diff_view(input, false) == Err::<
                CommandView,
                Seq<char>,
            >("path inválido"@)
        }),
{
}

/// The stash does what the call says wherever it is one of four things and a message has no `--` in
/// it.
pub proof fn law_stash_is_owed(input: JsonView)
    ensures
        ({
            let action = text_in(input, "action"@, "list"@);
            let message = named_arg(input, "message"@);
            &&& git_stash_view(input) is Ok <==> (action == "list"@ || action == "pop"@ || action
                == "apply"@ || (action == "push"@ && (message.len() > 0 ==> !holds(
                message[0],
                "--"@,
            ))))
            &&& action == "push"@ && message.len() > 0 && holds(message[0], "--"@)
                ==> git_stash_view(input) == Err::<CommandView, Seq<char>>("message inválida"@)
        }),
{
    reveal_strlit("list");
    assert("list"@.len() == 4);
    reveal_strlit("push");
    assert("push"@.len() == 4);
    reveal_strlit("pop");
    assert("pop"@.len() == 3);
    reveal_strlit("apply");
    assert("apply"@.len() == 5);
    assert("list"@[0] != "push"@[0]);
}

/// A length of the history that is not bearable is moved to the nearest that is.
pub proof fn law_history_is_limited(input: JsonView)
    ensures
        input.get("max_count"@) matches Some(JsonView::Int(n)) ==> {
            &&& 200 < n <= u64::MAX ==> git_log_view(input).argv[5] == decimal(200)
            &&& n == 0 ==> git_log_view(input).argv[5] == decimal(1)
        },
        git_log_view(input).timeout_secs == 90 && git_log_view(input).max_out == 512 * 1024,
        git_branch_view(input).timeout_secs == 90 && git_branch_view(input).max_out == 256 * 1024,
{
}

} // verus!
