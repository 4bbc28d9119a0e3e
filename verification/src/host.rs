//! The tools that look at the host and open things on it.
use crate::command::{
    args, spawn_process_detached, started_view, Args, Platform, ALLOWLIST_HINT,
};
use crate::files::path_answer;
use crate::json::{empty_object, lemma_list_view, object, text, text_list, views, Json, JsonView};
use crate::paths::path_accepted;
use crate::playbook::{command_playbook, command_playbook_view};
use crate::reply::{error, error_view, ok, ok_view, optional, optional_text, text_or_null};
use crate::split::{split, split_at_char};
use crate::text::{
    byte_len, bytes_in, cat, ends_with, has_prefix, has_suffix, same, starts_with, texts, trim,
    trimmed,
};
use vstd::prelude::*;

verus! {

// ---------------------------------------------------------------------------
// Facts about the host
// ---------------------------------------------------------------------------

/// What the host says of itself.
pub struct HostFacts {
    pub os: String,
    pub arch: String,
    pub family: String,
    pub cwd: Option<String>,
    pub executable: Option<String>,
    pub comspec: Option<String>,
    pub shell: Option<String>,
    pub path_present: bool,
    pub wt_session: Option<String>,
    pub ssh_connection: Option<String>,
}

/// The reply on the host.
pub open spec fn runtime_view(h: HostFacts) -> JsonView {
    ok_view().with("os"@, JsonView::Text(h.os@)).with("arch"@, JsonView::Text(h.arch@)).with(
        "family"@,
        JsonView::Text(h.family@),
    ).with("cwd"@, optional_text(optional(h.cwd))).with(
        "executable"@,
        optional_text(optional(h.executable)),
    ).with(
        "env"@,
        empty_object().with("COMSPEC"@, optional_text(optional(h.comspec))).with(
            "SHELL"@,
            optional_text(optional(h.shell)),
        ).with("PATH_present"@, JsonView::Bool(h.path_present)).with(
            "WT_SESSION"@,
            optional_text(optional(h.wt_session)),
        ).with("SSH_CONNECTION"@, optional_text(optional(h.ssh_connection))),
    ).with("command_playbook"@, command_playbook_view()).with(
        "allowlist_hint"@,
        JsonView::Text(ALLOWLIST_HINT@),
    )
}

/// Tells what the host is and what can be done on it.
pub fn runtime_host(h: &HostFacts) -> (j: Json)
    ensures
        j@ == runtime_view(*h),
{
    ok().with("os", text(h.os.as_str())).with("arch", text(h.arch.as_str())).with(
        "family",
        text(h.family.as_str()),
    ).with("cwd", text_or_null(&h.cwd)).with("executable", text_or_null(&h.executable)).with(
        "env",
        object().with("COMSPEC", text_or_null(&h.comspec)).with(
            "SHELL",
            text_or_null(&h.shell),
        ).with("PATH_present", Json::Bool(h.path_present)).with(
            "WT_SESSION",
            text_or_null(&h.wt_session),
        ).with("SSH_CONNECTION", text_or_null(&h.ssh_connection)),
    ).with("command_playbook", command_playbook()).with("allowlist_hint", text(ALLOWLIST_HINT))
}

// ---------------------------------------------------------------------------
// Programs on the search path
// ---------------------------------------------------------------------------

/// A file name in a directory.
pub struct Candidate {
    pub dir: String,
    pub name: String,
}

/// The views of some candidates: directory and name.
pub open spec fn candidates_view(list: Seq<Candidate>) -> Seq<(Seq<char>, Seq<char>)> {
    list.map_values(|c: Candidate| (c.dir@, c.name@))
}

/// The files in one directory that would be a program: under its name, and under its name with the
/// suffix of programs, where there is one that the name lacks.
pub open spec fn candidates_in(dir: Seq<char>, program: Seq<char>, suffix: Seq<char>) -> Seq<
    (Seq<char>, Seq<char>),
> {
    if dir.len() == 0 {
        seq![]
    } else if suffix.len() > 0 && !has_suffix(program, suffix) {
        seq![(dir, program), (dir, program + suffix)]
    } else {
        seq![(dir, program)]
    }
}

/// The files in some directories that would be a program.
pub open spec fn candidates_among(
    dirs: Seq<Seq<char>>,
    program: Seq<char>,
    suffix: Seq<char>,
) -> Seq<(Seq<char>, Seq<char>)>
    decreases dirs.len(),
{
    if dirs.len() == 0 {
        seq![]
    } else {
        candidates_among(dirs.drop_last(), program, suffix) + candidates_in(
            dirs.last(),
            program,
            suffix,
        )
    }
}

/// Lists the files that would be a program. It is on the search path `paths`, whose directories
/// stand between separators, where one of them is there.
pub fn probe_on_path(paths: &str, separator: char, program: &str, suffix: &str) -> (r: Vec<
    Candidate,
>)
    ensures
        candidates_view(r@) == candidates_among(split(paths@, separator), program@, suffix@),
{
    let dirs = split_at_char(paths, separator);
    let ghost all = split(paths@, separator);
    let mut out: Vec<Candidate> = Vec::new();
    assert(candidates_view(out@) =~= seq![]);
    for i in 0..dirs.len()
        invariant
            all == texts(dirs@),
            candidates_view(out@) =~= candidates_among(all.take(i as int), program@, suffix@),
    {
        assert(all.take(i + 1).drop_last() =~= all.take(i as int));
        let ghost before = candidates_view(out@);
        let dir = &dirs[i];
        if !dir.as_str().is_empty() {
            out.push(Candidate { dir: dir.clone(), name: program.to_owned() });
            assert(candidates_view(out@) =~= before.push((dir@, program@)));
            if !suffix.is_empty() && !ends_with(program, suffix) {
                let ghost mid = candidates_view(out@);
                out.push(Candidate { dir: dir.clone(), name: cat(program, suffix) });
                assert(candidates_view(out@) =~= mid.push((dir@, program@ + suffix@)));
            }
        }
        assert(candidates_view(out@) =~= before + candidates_in(dir@, program@, suffix@));
    }
    assert(all.take(dirs@.len() as int) =~= all);
    out
}

/// The programs that a survey looks for.
pub open spec fn survey_names_view() -> Seq<Seq<char>> {
    seq!["powershell"@].push("pwsh"@).push("cmd"@).push("curl"@).push("python"@).push("node"@).push(
        "npm"@,
    ).push("git"@).push("ssh"@).push("wt"@).push("explorer"@).push("msedge"@).push("chrome"@).push(
        "firefox"@,
    ).push("tesseract"@)
}

/// The programs that a survey looks for.
pub fn survey_names() -> (r: Args)
    ensures
        r@ == survey_names_view(),
{
    args("powershell").arg("pwsh").arg("cmd").arg("curl").arg("python").arg("node").arg("npm").arg(
        "git",
    ).arg("ssh").arg("wt").arg("explorer").arg("msedge").arg("chrome").arg("firefox").arg(
        "tesseract",
    )
}

/// What a survey says of each program; one that was not looked for is not found.
pub open spec fn survey_entries(names: Seq<Seq<char>>, found: Seq<bool>) -> Seq<JsonView> {
    Seq::new(
        names.len(),
        |i: int|
            empty_object().with("name"@, JsonView::Text(names[i])).with(
                "found"@,
                JsonView::Bool(i < found.len() && found[i]),
            ),
    )
}

/// What a survey recommends.
pub open spec fn recommendations_view() -> Seq<Seq<char>> {
    seq!["Antes de fluxos GUI frágeis, prefira open_url para links (YouTube, docs)."@].push(
        "Registe passos com automation_log; em ações destrutivas ou invasivas use ask_user_choice."@,
    ).push(
        "Instalação de software: proponha comandos explícitos ao utilizador ou use run_command com binários já permitidos."@,
    ).push(
        "Paralelização: vários run_detached ou várias instâncias toolmind em terminais separados — não há orquestrador multi-agente embutido."@,
    ).push("Para vision_to_context: instale Tesseract OCR e pacotes de idioma (ex. por+eng)."@)
}

/// The reply to a survey.
pub open spec fn survey_view(found: Seq<bool>) -> JsonView {
    ok_view().with(
        "note"@,
        JsonView::Text(
            "Procura nomes no PATH (stem + EXE_SUFFIX no Windows). Não instala nem altera o sistema."@,
        ),
    ).with(
        "executables_on_path"@,
        JsonView::List(survey_entries(survey_names_view(), found)),
    ).with("recommendations"@, text_list(recommendations_view()))
}

/// Tells which programs are on the search path. `found[i]` belongs to the name with number `i`.
pub fn computer_survey(found: &[bool]) -> (j: Json)
    ensures
        j@ == survey_view(found@),
{
    broadcast use lemma_list_view;

    let names = survey_names();
    let ghost expected = survey_entries(names@, found@);
    let mut entries: Vec<Json> = Vec::new();
    for i in 0..names.list.len()
        invariant
            expected == survey_entries(names@, found@),
            entries@.len() == i,
            views(entries@) =~= expected.take(i as int),
    {
        let ghost before = views(entries@);
        let here = i < found.len() && found[i];
        let entry = object().with("name", text(names.list[i].as_str())).with(
            "found",
            Json::Bool(here),
        );
        let ghost ev = entry@;
        assert(ev == expected[i as int]);
        entries.push(entry);
        assert(views(entries@) =~= before.push(ev));
    }
    assert(views(entries@) =~= expected);
    let advice = args("Antes de fluxos GUI frágeis, prefira open_url para links (YouTube, docs).").arg(
        "Registe passos com automation_log; em ações destrutivas ou invasivas use ask_user_choice.",
    ).arg(
        "Instalação de software: proponha comandos explícitos ao utilizador ou use run_command com binários já permitidos.",
    ).arg(
        "Paralelização: vários run_detached ou várias instâncias toolmind em terminais separados — não há orquestrador multi-agente embutido.",
    ).arg("Para vision_to_context: instale Tesseract OCR e pacotes de idioma (ex. por+eng).");
    ok().with(
        "note",
        text(
            "Procura nomes no PATH (stem + EXE_SUFFIX no Windows). Não instala nem altera o sistema.",
        ),
    ).with("executables_on_path", Json::List(entries)).with("recommendations", advice.json())
}

// ---------------------------------------------------------------------------
// Opening an address
// ---------------------------------------------------------------------------

/// How an address is opened.
pub struct UrlOpening {
    pub url: String,
    pub argv: Vec<String>,
    pub note: String,
}

/// The view of how an address is opened.
pub struct UrlOpeningView {
    pub url: Seq<char>,
    pub argv: Seq<Seq<char>>,
    pub note: Seq<char>,
}

impl View for UrlOpening {
    type V = UrlOpeningView;

    open spec fn view(&self) -> UrlOpeningView {
        UrlOpeningView { url: self.url@, argv: texts(self.argv@), note: self.note@ }
    }
}

/// How an address is opened on a system, or why it is not. `has_xdg_open` says whether `xdg-open` is
/// on the search path.
pub open spec fn open_url_view(input: JsonView, platform: Platform, has_xdg_open: bool) -> Result<
    UrlOpeningView,
    Seq<char>,
> {
    match input.text_at("url"@) {
        None => Err("campo url obrigatório (http:// ou https://)"@),
        Some(raw) => {
            let url = trimmed(raw);
            if !(has_prefix(url, "https://"@) || has_prefix(url, "http://"@)) {
                Err("só URLs http:// ou https://"@)
            } else if byte_len(url) > 4096 {
                Err("url demasiado longa"@)
            } else {
                match platform {
                    Platform::Windows => Ok(
                        UrlOpeningView {
                            url,
                            argv: seq!["cmd"@].push("/c"@).push("start"@).push(""@).push(url),
                            note: "cmd /c start \"\" <url> — browser ou handler por defeito."@,
                        },
                    ),
                    Platform::MacOs => Ok(
                        UrlOpeningView {
                            url,
                            argv: seq!["open"@].push(url),
                            note: "open <url> — app por defeito."@,
                        },
                    ),
                    Platform::OtherUnix => if !has_xdg_open {
                        Err("xdg-open não encontrado no PATH"@)
                    } else {
                        Ok(
                            UrlOpeningView {
                                url,
                                argv: seq!["xdg-open"@].push(url),
                                note: "xdg-open — browser por defeito (requer sessão gráfica típica)."@,
                            },
                        )
                    },
                    Platform::Unsupported => Err(
                        "open_url não suportado neste alvo de compilação"@,
                    ),
                }
            }
        },
    }
}

fn opening(url: String, argv: Args, note: &str) -> (r: UrlOpening)
    ensures
        r@ == (UrlOpeningView { url: url@, argv: argv@, note: note@ }),
{
    UrlOpening { url, argv: argv.list, note: note.to_owned() }
}

/// Decides how an address is opened.
pub fn open_url(input: &Json, platform: Platform, has_xdg_open: bool) -> (r: Result<
    UrlOpening,
    Json,
>)
    ensures
        match (r, open_url_view(input@, platform, has_xdg_open)) {
            (Ok(o), Ok(v)) => o@ == v,
            (Err(e), Err(m)) => e@ == error_view(m),
            _ => false,
        },
{
    let url = match input.text_at("url") {
        None => return Err(error("campo url obrigatório (http:// ou https://)")),
        Some(raw) => trim(raw),
    };
    if !(starts_with(url.as_str(), "https://") || starts_with(url.as_str(), "http://")) {
        return Err(error("só URLs http:// ou https://"));
    }
    if bytes_in(url.as_str()) > 4096 {
        return Err(error("url demasiado longa"));
    }
    match platform {
        Platform::Windows => {
            let argv = args("cmd").arg("/c").arg("start").arg("").arg(url.as_str());
            Ok(opening(url, argv, "cmd /c start \"\" <url> — browser ou handler por defeito."))
        },
        Platform::MacOs => {
            let argv = args("open").arg(url.as_str());
            Ok(opening(url, argv, "open <url> — app por defeito."))
        },
        Platform::OtherUnix => {
            if !has_xdg_open {
                return Err(error("xdg-open não encontrado no PATH"));
            }
            let argv = args("xdg-open").arg(url.as_str());
            Ok(
                opening(
                    url,
                    argv,
                    "xdg-open — browser por defeito (requer sessão gráfica típica).",
                ),
            )
        },
        Platform::Unsupported => Err(error("open_url não suportado neste alvo de compilação")),
    }
}

/// The reply to opening an address.
pub open spec fn url_opened_view(o: UrlOpeningView, started: Result<u32, Seq<char>>) -> JsonView {
    match started {
        Ok(pid) => ok_view().with("pid"@, JsonView::Int(pid as int)).with(
            "url"@,
            JsonView::Text(o.url),
        ).with("note"@, JsonView::Text(o.note)),
        Err(e) => error_view(e),
    }
}

/// Tells how opening an address went.
pub fn url_opened(o: &UrlOpening, started: &Result<u32, String>) -> (j: Json)
    ensures
        j@ == url_opened_view(o@, started_view(*started)),
{
    match spawn_process_detached(started) {
        Ok(pid) => ok().with("pid", Json::Uint(pid as u64)).with("url", text(o.url.as_str())).with(
            "note",
            text(o.note.as_str()),
        ),
        Err(e) => error(e.as_str()),
    }
}

/// Only web addresses are opened, and an address reaches the program as its last argument, as it
/// was given.
pub proof fn law_only_web_addresses(input: JsonView, platform: Platform, has_xdg_open: bool)
    requires
        open_url_view(input, platform, has_xdg_open) is Ok,
    ensures
        ({
            let o = open_url_view(input, platform, has_xdg_open)->Ok_0;
            &&& has_prefix(o.url, "https://"@) || has_prefix(o.url, "http://"@)
            &&& o.url == trimmed(input.text_at("url"@)->0)
            &&& byte_len(o.url) <= 4096
            &&& o.argv.last() == o.url
        }),
{
}

// ---------------------------------------------------------------------------
// Opening a terminal
// ---------------------------------------------------------------------------

/// How a terminal is opened.
pub struct TerminalOpening {
    pub argv: Vec<String>,
    pub new_console: bool,
    pub variant: String,
    pub directory: String,
    pub note: Option<String>,
}

/// The view of how a terminal is opened.
pub struct TerminalOpeningView {
    pub argv: Seq<Seq<char>>,
    pub new_console: bool,
    pub variant: Seq<char>,
    pub directory: Seq<char>,
    pub note: Option<Seq<char>>,
}

impl View for TerminalOpening {
    type V = TerminalOpeningView;

    open spec fn view(&self) -> TerminalOpeningView {
        TerminalOpeningView {
            argv: texts(self.argv@),
            new_console: self.new_console,
            variant: self.variant@,
            directory: self.directory@,
            note: optional(self.note),
        }
    }
}

/// Decides in what directory a terminal is opened.
pub fn terminal_directory(input: &Json, platform: Platform) -> (r: Result<String, Json>)
    ensures
        path_answer(
            r,
            input@.text_or("working_dir"@, "."@),
            platform,
            "working_dir deve ser relativo e sem .."@,
        ),
{
    let raw = input.text_or("working_dir", ".");
    if path_accepted(raw, platform) {
        Ok(raw.to_owned())
    } else {
        Err(error("working_dir deve ser relativo e sem .."))
    }
}

/// The beginning of a command line that opens a tab of the Windows terminal in a directory.
pub open spec fn wt_line(directory: Seq<char>) -> Seq<Seq<char>> {
    seq!["wt"@].push("-w"@).push("0"@).push("nt"@).push("-d"@).push(directory)
}

/// The command lines for a terminal on Windows.
pub open spec fn windows_terminal_line(variant: Seq<char>, directory: Seq<char>) -> Option<
    Seq<Seq<char>>,
> {
    if variant == "wt_here"@ {
        Some(wt_line(directory))
    } else if variant == "powershell_here"@ {
        Some(wt_line(directory).push("powershell"@).push("-NoExit"@).push("-NoLogo"@))
    } else if variant == "cmd_here"@ {
        Some(wt_line(directory).push("cmd"@))
    } else if variant == "powershell_start_fallback"@ {
        Some(
            seq!["cmd"@].push("/c"@).push("start"@).push(""@).push("powershell"@).push(
                "-NoExit"@,
            ).push("-NoLogo"@).push("-WorkingDirectory"@).push(directory),
        )
    } else if variant == "cmd_start_fallback"@ {
        Some(
            seq!["cmd"@].push("/c"@).push("start"@).push(""@).push("cmd"@).push("/K"@).push(
                "cd"@,
            ).push("/d"@).push(directory),
        )
    } else {
        None
    }
}

/// How a terminal is opened in `directory` on a system, or why it is not.
pub open spec fn terminal_open_view(
    input: JsonView,
    directory: Seq<char>,
    platform: Platform,
) -> Result<TerminalOpeningView, Seq<char>> {
    let variant = input.text_or("variant"@, "wt_here"@);
    match platform {
        Platform::Windows => match windows_terminal_line(variant, directory) {
            Some(argv) => Ok(
                TerminalOpeningView {
                    argv,
                    new_console: true,
                    variant,
                    directory,
                    note: Some(
                        "Se wt nao existir, tente powershell_start_fallback ou cmd_start_fallback."@,
                    ),
                },
            ),
            None => Err(
                "variant desconhecido: "@ + variant
                    + ". Use: wt_here | powershell_here | cmd_here | powershell_start_fallback | cmd_start_fallback"@,
            ),
        },
        Platform::MacOs => Ok(
            TerminalOpeningView {
                argv: seq!["open"@].push("-a"@).push("Terminal"@).push(directory),
                new_console: false,
                variant: "macos_open_terminal"@,
                directory,
                note: None,
            },
        ),
        Platform::OtherUnix => Ok(
            TerminalOpeningView {
                argv: seq!["gnome-terminal"@].push("--working-directory="@ + directory),
                new_console: false,
                variant: "gnome_terminal_here"@,
                directory,
                note: Some(
                    "Se gnome-terminal nao existir, use run_detached com xterm ou konsole (ver runtime_host command_playbook)."@,
                ),
            },
        ),
        Platform::Unsupported => Err("terminal_open: alvo nao suportado neste build"@),
    }
}

fn wt_args(directory: &str) -> (r: Args)
    ensures
        r@ == wt_line(directory@),
{
    args("wt").arg("-w").arg("0").arg("nt").arg("-d").arg(directory)
}

fn windows_terminal_args(variant: &str, directory: &str) -> (r: Option<Args>)
    ensures
        match (r, windows_terminal_line(variant@, directory@)) {
            (Some(a), Some(v)) => a@ == v,
            (None, None) => true,
            _ => false,
        },
{
    if same(variant, "wt_here") {
        Some(wt_args(directory))
    } else if same(variant, "powershell_here") {
        Some(wt_args(directory).arg("powershell").arg("-NoExit").arg("-NoLogo"))
    } else if same(variant, "cmd_here") {
        Some(wt_args(directory).arg("cmd"))
    } else if same(variant, "powershell_start_fallback") {
        Some(
            args("cmd").arg("/c").arg("start").arg("").arg("powershell").arg("-NoExit").arg(
                "-NoLogo",
            ).arg("-WorkingDirectory").arg(directory),
        )
    } else if same(variant, "cmd_start_fallback") {
        Some(
            args("cmd").arg("/c").arg("start").arg("").arg("cmd").arg("/K").arg("cd").arg("/d").arg(
                directory,
            ),
        )
    } else {
        None
    }
}

/// Decides how a terminal is opened in `directory`.
pub fn terminal_open(input: &Json, directory: &str, platform: Platform) -> (r: Result<
    TerminalOpening,
    Json,
>)
    ensures
        match (r, terminal_open_view(input@, directory@, platform)) {
            (Ok(o), Ok(v)) => o@ == v,
            (Err(e), Err(m)) => e@ == error_view(m),
            _ => false,
        },
{
    let variant = input.text_or("variant", "wt_here");
    match platform {
        Platform::Windows => match windows_terminal_args(variant, directory) {
            Some(argv) => Ok(
                TerminalOpening {
                    argv: argv.list,
                    new_console: true,
                    variant: variant.to_owned(),
                    directory: directory.to_owned(),
                    note: Some(
                        "Se wt nao existir, tente powershell_start_fallback ou cmd_start_fallback.".to_owned(),
                    ),
                },
            ),
            None => {
                let m = cat("variant desconhecido: ", variant);
                let m = cat(
                    m.as_str(),
                    ". Use: wt_here | powershell_here | cmd_here | powershell_start_fallback | cmd_start_fallback",
                );
                Err(error(m.as_str()))
            },
        },
        Platform::MacOs => Ok(
            TerminalOpening {
                argv: args("open").arg("-a").arg("Terminal").arg(directory).list,
                new_console: false,
                variant: "macos_open_terminal".to_owned(),
                directory: directory.to_owned(),
                note: None,
            },
        ),
        Platform::OtherUnix => Ok(
            TerminalOpening {
                argv: args("gnome-terminal").arg(
                    cat("--working-directory=", directory).as_str(),
                ).list,
                new_console: false,
                variant: "gnome_terminal_here".to_owned(),
                directory: directory.to_owned(),
                note: Some(
                    "Se gnome-terminal nao existir, use run_detached com xterm ou konsole (ver runtime_host command_playbook).".to_owned(),
                ),
            },
        ),
        Platform::Unsupported => Err(error("terminal_open: alvo nao suportado neste build")),
    }
}

/// The reply to opening a terminal.
pub open spec fn terminal_opened_view(
    o: TerminalOpeningView,
    started: Result<u32, Seq<char>>,
) -> JsonView {
    match started {
        Ok(pid) => {
            let base = ok_view().with("pid"@, JsonView::Int(pid as int)).with(
                "variant"@,
                JsonView::Text(o.variant),
            ).with("working_directory"@, JsonView::Text(o.directory));
            match o.note {
                Some(n) => base.with("note"@, JsonView::Text(n)),
                None => base,
            }
        },
        Err(e) => error_view(e),
    }
}

/// Tells how opening a terminal went.
pub fn terminal_opened(o: &TerminalOpening, started: &Result<u32, String>) -> (j: Json)
    ensures
        j@ == terminal_opened_view(o@, started_view(*started)),
{
    match spawn_process_detached(started) {
        Ok(pid) => {
            let base = ok().with("pid", Json::Uint(pid as u64)).with(
                "variant",
                text(o.variant.as_str()),
            ).with("working_directory", text(o.directory.as_str()));
            match &o.note {
                Some(n) => base.with("note", text(n.as_str())),
                None => base,
            }
        },
        Err(e) => error(e.as_str()),
    }
}

// ---------------------------------------------------------------------------
// Laws on replies
// ---------------------------------------------------------------------------

/// What the host says of itself stands in the reply, each fact under its own name.
pub proof fn law_runtime_fields(h: HostFacts)
    ensures
        ({
            let r = runtime_view(h);
            &&& r.get("status"@) == Some(JsonView::Text("ok"@))
            &&& r.get("os"@) == Some(JsonView::Text(h.os@))
            &&& r.get("arch"@) == Some(JsonView::Text(h.arch@))
            &&& r.get("family"@) == Some(JsonView::Text(h.family@))
            &&& h.cwd matches Some(t) ==> r.get("cwd"@) == Some(JsonView::Text(t@))
            &&& h.cwd is None ==> r.get("cwd"@) == Some(JsonView::Null)
            &&& h.executable matches Some(t) ==> r.get("executable"@) == Some(JsonView::Text(t@))
            &&& h.comspec matches Some(t) ==> r.at("env"@).get("COMSPEC"@) == Some(
                JsonView::Text(t@),
            )
            &&& h.shell matches Some(t) ==> r.at("env"@).get("SHELL"@) == Some(JsonView::Text(t@))
            &&& r.at("env"@).get("PATH_present"@) == Some(JsonView::Bool(h.path_present))
            &&& h.wt_session matches Some(t) ==> r.at("env"@).get("WT_SESSION"@) == Some(
                JsonView::Text(t@),
            )
            &&& h.ssh_connection matches Some(t) ==> r.at("env"@).get("SSH_CONNECTION"@) == Some(
                JsonView::Text(t@),
            )
            &&& r.get("command_playbook"@) == Some(command_playbook_view())
        }),
{
    reveal_strlit("status");
    assert("status"@.len() == 6);
    reveal_strlit("os");
    assert("os"@.len() == 2);
    reveal_strlit("arch");
    assert("arch"@.len() == 4);
    reveal_strlit("family");
    assert("family"@.len() == 6);
    reveal_strlit("cwd");
    assert("cwd"@.len() == 3);
    reveal_strlit("executable");
    assert("executable"@.len() == 10);
    reveal_strlit("env");
    assert("env"@.len() == 3);
    reveal_strlit("command_playbook");
    assert("command_playbook"@.len() == 16);
    reveal_strlit("allowlist_hint");
    assert("allowlist_hint"@.len() == 14);
    reveal_strlit("COMSPEC");
    assert("COMSPEC"@.len() == 7);
    reveal_strlit("SHELL");
    assert("SHELL"@.len() == 5);
    reveal_strlit("PATH_present");
    assert("PATH_present"@.len() == 12);
    reveal_strlit("WT_SESSION");
    assert("WT_SESSION"@.len() == 10);
    reveal_strlit("SSH_CONNECTION");
    assert("SSH_CONNECTION"@.len() == 14);
    assert("status"@[0] != "family"@[0]);
    assert("cwd"@[0] != "env"@[0]);
    assert("executable"@[0] != "WT_SESSION"@[0]);
    assert("allowlist_hint"@[0] != "SSH_CONNECTION"@[0]);
}

/// A survey tells of each program under its own name whether it was found.
pub proof fn law_survey_entries(found: Seq<bool>, i: int)
    requires
        0 <= i < survey_names_view().len(),
        found.len() == survey_names_view().len(),
    ensures
        survey_view(found).at("executables_on_path"@) matches JsonView::List(list) && {
            &&& list.len() == found.len()
            &&& list[i].get("name"@) == Some(JsonView::Text(survey_names_view()[i]))
            &&& list[i].get("found"@) == Some(JsonView::Bool(found[i]))
        },
        survey_view(found).get("status"@) == Some(JsonView::Text("ok"@)),
{
    reveal_strlit("status");
    assert("status"@.len() == 6);
    reveal_strlit("note");
    assert("note"@.len() == 4);
    reveal_strlit("executables_on_path");
    assert("executables_on_path"@.len() == 19);
    reveal_strlit("recommendations");
    assert("recommendations"@.len() == 15);
    reveal_strlit("name");
    assert("name"@.len() == 4);
    reveal_strlit("found");
    assert("found"@.len() == 5);
    assert("note"@[1] != "name"@[1]);
}

/// A program is looked for in each directory of the search path that is named, under its name, and
/// with the suffix of programs where there is one that it lacks; nowhere else.
pub proof fn law_candidates(
    dirs: Seq<Seq<char>>,
    program: Seq<char>,
    suffix: Seq<char>,
    i: int,
    c: (Seq<char>, Seq<char>),
)
    ensures
        0 <= i < dirs.len() && dirs[i].len() > 0 ==> candidates_among(
            dirs,
            program,
            suffix,
        ).contains((dirs[i], program)),
        0 <= i < dirs.len() && dirs[i].len() > 0 && suffix.len() > 0 && !has_suffix(
            program,
            suffix,
        ) ==> candidates_among(dirs, program, suffix).contains((dirs[i], program + suffix)),
        candidates_among(dirs, program, suffix).contains(c) ==> {
            &&& dirs.contains(c.0) && c.0.len() > 0
            &&& c.1 == program || (c.1 == program + suffix && suffix.len() > 0)
        },
    decreases dirs.len(),
{
    let all = candidates_among(dirs, program, suffix);
    if dirs.len() > 0 {
        let init = dirs.drop_last();
        let before = candidates_among(init, program, suffix);
        let here = candidates_in(dirs.last(), program, suffix);
        law_candidates(init, program, suffix, i, c);
        if 0 <= i < dirs.len() && dirs[i].len() > 0 {
            if i < init.len() {
                assert(init[i] == dirs[i]);
                let k = choose|k: int| 0 <= k < before.len() && before[k] == (dirs[i], program);
                assert(all[k] == (dirs[i], program));
                if suffix.len() > 0 && !has_suffix(program, suffix) {
                    let x = (dirs[i], program + suffix);
                    let m = choose|m: int| 0 <= m < before.len() && before[m] == x;
                    assert(all[m] == x);
                }
            } else {
                assert(here[0] == (dirs[i], program));
                assert(all[before.len() as int] == here[0]);
                if suffix.len() > 0 && !has_suffix(program, suffix) {
                    assert(here[1] == (dirs[i], program + suffix));
                    assert(all[before.len() as int + 1] == here[1]);
                }
            }
        }
        if all.contains(c) {
            let k = choose|k: int| 0 <= k < all.len() && all[k] == c;
            if k < before.len() {
                assert(before[k] == c);
                let m = choose|m: int| 0 <= m < init.len() && init[m] == c.0;
                assert(dirs[m] == c.0);
            } else {
                assert(here[k - before.len()] == c);
                assert(dirs[dirs.len() - 1] == c.0);
            }
        }
    }
}

/// The reply to opening an address holds the number of the program and the address.
pub proof fn law_url_reply_fields(o: UrlOpeningView, pid: u32, message: Seq<char>)
    ensures
        url_opened_view(o, Ok(pid)).get("status"@) == Some(JsonView::Text("ok"@)),
        url_opened_view(o, Ok(pid)).get("pid"@) == Some(JsonView::Int(pid as int)),
        url_opened_view(o, Ok(pid)).get("url"@) == Some(JsonView::Text(o.url)),
        url_opened_view(o, Err(message)) == error_view(message),
{
    reveal_strlit("status");
    assert("status"@.len() == 6);
    reveal_strlit("pid");
    assert("pid"@.len() == 3);
    reveal_strlit("url");
    assert("url"@.len() == 3);
    reveal_strlit("note");
    assert("note"@.len() == 4);
    assert("pid"@[0] != "url"@[0]);
}

/// An address that begins as a web address and is not too long is opened wherever there is a way to,
/// by the program of the system.
pub proof fn law_url_is_opened(input: JsonView, url: Seq<char>, platform: Platform, xdg: bool)
    requires
        input.get("url"@) == Some(JsonView::Text(url)),
        trimmed(url) == url,
        has_prefix(url, "https://"@) || has_prefix(url, "http://"@),
        vstd::utf8::encode_utf8(url).len() <= 4096,
    ensures
        platform == Platform::Windows ==> (open_url_view(input, platform, xdg) matches Ok(o)
            && o.argv == seq!["cmd"@, "/c"@, "start"@, ""@, url]),
        platform == Platform::MacOs ==> (open_url_view(input, platform, xdg) matches Ok(o)
            && o.argv == seq!["open"@, url]),
        platform == Platform::OtherUnix && xdg ==> (open_url_view(input, platform, xdg) matches Ok(
            o,
        ) && o.argv == seq!["xdg-open"@, url]),
{
    if let Ok(o) = open_url_view(input, platform, xdg) {
        if platform == Platform::Windows {
            assert(o.argv =~= seq!["cmd"@, "/c"@, "start"@, ""@, url]);
        } else if platform == Platform::MacOs {
            assert(o.argv =~= seq!["open"@, url]);
        } else {
            assert(o.argv =~= seq!["xdg-open"@, url]);
        }
    }
}

/// A terminal is opened in the directory that was asked for: it stands in the command line and in the
/// reply, with the variant and the number of the program.
pub proof fn law_terminal_fields(input: JsonView, directory: Seq<char>, platform: Platform, pid: u32)
    ensures
        terminal_open_view(input, directory, platform) matches Ok(o) ==> {
            let r = terminal_opened_view(o, Ok(pid));
            &&& o.directory == directory
            &&& platform == Platform::OtherUnix ==> o.argv == seq![
                "gnome-terminal"@,
                "--working-directory="@ + directory,
            ]
            &&& platform != Platform::OtherUnix ==> o.argv.contains(directory)
            &&& platform == Platform::Windows ==> o.new_console && o.variant == input.text_or(
                "variant"@,
                "wt_here"@,
            )
            &&& r.get("status"@) == Some(JsonView::Text("ok"@))
            &&& r.get("pid"@) == Some(JsonView::Int(pid as int))
            &&& r.get("variant"@) == Some(JsonView::Text(o.variant))
            &&& r.get("working_directory"@) == Some(JsonView::Text(directory))
        },
{
    reveal_strlit("status");
    assert("status"@.len() == 6);
    reveal_strlit("pid");
    assert("pid"@.len() == 3);
    reveal_strlit("variant");
    assert("variant"@.len() == 7);
    reveal_strlit("working_directory");
    assert("working_directory"@.len() == 17);
    reveal_strlit("note");
    assert("note"@.len() == 4);
    if let Ok(o) = terminal_open_view(input, directory, platform) {
        if platform == Platform::OtherUnix {
            assert(o.argv =~= seq!["gnome-terminal"@, "--working-directory="@ + directory]);
        } else if platform == Platform::MacOs {
            assert(o.argv[3] == directory);
        } else {
            assert(wt_line(directory)[5] == directory);
            if o.argv.len() == 6 || o.argv.len() == 7 {
                assert(o.argv[5] == directory);
            } else {
                assert(o.argv[5] == directory || o.argv[8] == directory);
            }
        }
    }
}

/// The command line that opens a terminal is that of its variant, and ends in the directory or in what
/// runs there.
pub proof fn law_terminal_lines(input: JsonView, directory: Seq<char>, variant: Seq<char>)
    requires
        input.get("variant"@) == Some(JsonView::Text(variant)),
    ensures
        ({
            let there = seq!["wt"@, "-w"@, "0"@, "nt"@, "-d"@, directory];
            let r = terminal_open_view(input, directory, Platform::Windows);
            &&& variant == "wt_here"@ ==> (r matches Ok(o) && o.argv == there)
            &&& variant == "powershell_here"@ ==> (r matches Ok(o) && o.argv == there + seq![
                "powershell"@,
                "-NoExit"@,
                "-NoLogo"@,
            ])
            &&& variant == "cmd_here"@ ==> (r matches Ok(o) && o.argv == there + seq!["cmd"@])
            &&& variant == "powershell_start_fallback"@ ==> (r matches Ok(o) && o.argv == seq![
                "cmd"@,
                "/c"@,
                "start"@,
                ""@,
                "powershell"@,
                "-NoExit"@,
                "-NoLogo"@,
                "-WorkingDirectory"@,
                directory,
            ])
            &&& variant == "cmd_start_fallback"@ ==> (r matches Ok(o) && o.argv == seq![
                "cmd"@,
                "/c"@,
                "start"@,
                ""@,
                "cmd"@,
                "/K"@,
                "cd"@,
                "/d"@,
                directory,
            ])
            &&& !seq![
                "wt_here"@,
                "powershell_here"@,
                "cmd_here"@,
                "powershell_start_fallback"@,
                "cmd_start_fallback"@,
            ].contains(variant) ==> r is Err
            &&& terminal_open_view(input, directory, Platform::MacOs) matches Ok(o) && o.argv == seq![
                "open"@,
                "-a"@,
                "Terminal"@,
                directory,
            ] && !o.new_console
            &&& terminal_open_view(input, directory, Platform::OtherUnix) matches Ok(o)
                && !o.new_console
            &&& terminal_open_view(input, directory, Platform::Unsupported) is Err
        }),
{
    reveal_strlit("wt_here");
    assert("wt_here"@.len() == 7);
    reveal_strlit("powershell_here");
    assert("powershell_here"@.len() == 15);
    reveal_strlit("cmd_here");
    assert("cmd_here"@.len() == 8);
    reveal_strlit("powershell_start_fallback");
    assert("powershell_start_fallback"@.len() == 25);
    reveal_strlit("cmd_start_fallback");
    assert("cmd_start_fallback"@.len() == 18);
    let all = seq![
        "wt_here"@,
        "powershell_here"@,
        "cmd_here"@,
        "powershell_start_fallback"@,
        "cmd_start_fallback"@,
    ];
    assert(all[0] == "wt_here"@ && all[1] == "powershell_here"@ && all[2] == "cmd_here"@ && all[3]
        == "powershell_start_fallback"@ && all[4] == "cmd_start_fallback"@);
}

/// A fact that the host does not know of itself is told as nothing.
pub proof fn law_unknown_facts(h: HostFacts)
    ensures
        ({
            let r = runtime_view(h);
            let env = r.at("env"@);
            &&& h.executable is None ==> r.get("executable"@) == Some(JsonView::Null)
            &&& h.comspec is None ==> env.get("COMSPEC"@) == Some(JsonView::Null)
            &&& h.shell is None ==> env.get("SHELL"@) == Some(JsonView::Null)
            &&& h.wt_session is None ==> env.get("WT_SESSION"@) == Some(JsonView::Null)
            &&& h.ssh_connection is None ==> env.get("SSH_CONNECTION"@) == Some(JsonView::Null)
            &&& r.get("allowlist_hint"@) == Some(JsonView::Text(ALLOWLIST_HINT@))
        }),
{
    reveal_strlit("executable");
    assert("executable"@.len() == 10);
    reveal_strlit("env");
    assert("env"@.len() == 3);
    reveal_strlit("command_playbook");
    assert("command_playbook"@.len() == 16);
    reveal_strlit("allowlist_hint");
    assert("allowlist_hint"@.len() == 14);
    reveal_strlit("COMSPEC");
    assert("COMSPEC"@.len() == 7);
    reveal_strlit("SHELL");
    assert("SHELL"@.len() == 5);
    reveal_strlit("PATH_present");
    assert("PATH_present"@.len() == 12);
    reveal_strlit("WT_SESSION");
    assert("WT_SESSION"@.len() == 10);
    reveal_strlit("SSH_CONNECTION");
    assert("SSH_CONNECTION"@.len() == 14);
}

/// The programs that a survey looks for.
pub proof fn law_surveyed_programs(name: Seq<char>)
    ensures
        survey_names_view().contains(name) <==> seq![
            "powershell"@,
            "pwsh"@,
            "cmd"@,
            "curl"@,
            "python"@,
            "node"@,
            "npm"@,
            "git"@,
            "ssh"@,
            "wt"@,
            "explorer"@,
            "msedge"@,
            "chrome"@,
            "firefox"@,
            "tesseract"@,
        ].contains(name),
{
    let all = seq![
        "powershell"@,
        "pwsh"@,
        "cmd"@,
        "curl"@,
        "python"@,
        "node"@,
        "npm"@,
        "git"@,
        "ssh"@,
        "wt"@,
        "explorer"@,
        "msedge"@,
        "chrome"@,
        "firefox"@,
        "tesseract"@,
    ];
    assert(all =~= survey_names_view());
}

} // verus!
