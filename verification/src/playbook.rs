//! What the agent is told of its host.
use crate::command::args;
use crate::json::{empty_object, object, text, text_list, Json, JsonView};
use vstd::prelude::*;

verus! {

/// Command lines that are useful on Windows.
pub open spec fn windows_lines_view() -> JsonView {
    empty_object().with(
        "list_processes"@,
        text_list(seq!["tasklist"@]),
    ).with(
        "kill_by_pid"@,
        text_list(seq!["taskkill"@].push("/PID"@).push("<pid>"@).push("/F"@)),
    ).with(
        "kill_by_image"@,
        text_list(seq!["taskkill"@].push("/IM"@).push("nome.exe"@).push("/F"@)),
    ).with(
        "new_powershell_window_same_cwd"@,
        text_list(seq!["wt"@].push("-w"@).push("0"@).push("nt"@).push("-d"@).push("<abs_cwd>"@).push("powershell"@).push("-NoExit"@)),
    ).with(
        "curl_headers"@,
        text_list(seq!["curl"@].push("-sS"@).push("-D"@).push("-"@).push("-o"@).push("NUL"@).push("https://example.com"@)),
    )
}

fn windows_lines() -> (j: Json)
    ensures
        j@ == windows_lines_view(),
{
    object().with(
        "list_processes",
        args("tasklist").json(),
    ).with(
        "kill_by_pid",
        args("taskkill").arg("/PID").arg("<pid>").arg("/F").json(),
    ).with(
        "kill_by_image",
        args("taskkill").arg("/IM").arg("nome.exe").arg("/F").json(),
    ).with(
        "new_powershell_window_same_cwd",
        args("wt").arg("-w").arg("0").arg("nt").arg("-d").arg("<abs_cwd>").arg("powershell").arg("-NoExit").json(),
    ).with(
        "curl_headers",
        args("curl").arg("-sS").arg("-D").arg("-").arg("-o").arg("NUL").arg("https://example.com").json(),
    )
}

/// Command lines that are useful on macOS.
pub open spec fn macos_lines_view() -> JsonView {
    empty_object().with(
        "list_processes"@,
        text_list(seq!["ps"@].push("aux"@)),
    ).with(
        "open_terminal_here"@,
        text_list(seq!["open"@].push("-a"@).push("Terminal"@).push("<path>"@)),
    ).with(
        "kill"@,
        text_list(seq!["kill"@].push("-TERM"@).push("<pid>"@)),
    )
}

fn macos_lines() -> (j: Json)
    ensures
        j@ == macos_lines_view(),
{
    object().with(
        "list_processes",
        args("ps").arg("aux").json(),
    ).with(
        "open_terminal_here",
        args("open").arg("-a").arg("Terminal").arg("<path>").json(),
    ).with(
        "kill",
        args("kill").arg("-TERM").arg("<pid>").json(),
    )
}

/// Command lines that are useful on Linux.
pub open spec fn linux_lines_view() -> JsonView {
    empty_object().with(
        "list_processes"@,
        text_list(seq!["ps"@].push("aux"@)),
    ).with(
        "gnome_terminal_here"@,
        text_list(seq!["gnome-terminal"@].push("--working-directory=<abs>"@)),
    ).with(
        "xterm_here"@,
        text_list(seq!["xterm"@].push("-e"@).push("bash"@).push("-lc"@).push("cd <abs> && exec bash"@)),
    )
}

fn linux_lines() -> (j: Json)
    ensures
        j@ == linux_lines_view(),
{
    object().with(
        "list_processes",
        args("ps").arg("aux").json(),
    ).with(
        "gnome_terminal_here",
        args("gnome-terminal").arg("--working-directory=<abs>").json(),
    ).with(
        "xterm_here",
        args("xterm").arg("-e").arg("bash").arg("-lc").arg("cd <abs> && exec bash").json(),
    )
}

/// What each way to act on the host is for, with command lines for each system.
pub open spec fn command_playbook_view() -> JsonView {
    empty_object().with(
        "run_command"@,
        JsonView::Text("argv sem shell; só binários permitidos pela lista branca."@),
    ).with(
        "run_detached"@,
        JsonView::Text("igual run_command porém sem esperar fim; útil para servidores ou UIs; devolve pid."@),
    ).with(
        "computer_survey"@,
        JsonView::Text("sondagem só leitura: executáveis comuns no PATH (sem instalar nada)."@),
    ).with(
        "open_url"@,
        JsonView::Text("abre http(s) no browser/app por defeito (sem simular rato/tecla)."@),
    ).with(
        "automation_log"@,
        JsonView::Text("append JSONL em .toolmind/automation_audit.jsonl (checkpoint/auditoria)."@),
    ).with(
        "gui_automation_arm"@,
        JsonView::Text("Windows: uma confirmação no terminal; depois gui_* até disarm ou `parar` no prompt."@),
    ).with(
        "gui_automation_disarm"@,
        JsonView::Text("revoga sessão GUI (ficheiro .toolmind/gui_session.json)."@),
    ).with(
        "gui_automation_status"@,
        JsonView::Text("armed?, armed_at_ms."@),
    ).with(
        "gui_screen_snapshot"@,
        JsonView::Text("PNG + título/rect da janela em foco + textual_summary (sem OCR)."@),
    ).with(
        "gui_mouse_move"@,
        JsonView::Text("coordenadas absolutas no virtual desktop."@),
    ).with(
        "gui_mouse_click"@,
        JsonView::Text("left|right|middle; double opcional."@),
    ).with(
        "gui_type_text"@,
        JsonView::Text("Unicode para a janela em foco (SendInput)."@),
    ).with(
        "vision_to_context"@,
        JsonView::Text("OCR Tesseract + layout: summary, text, elements, llm_block (imagem relativa)."@),
    ).with(
        "terminal_open"@,
        JsonView::Text("abre terminal gráfico num cwd (caminho relativo seguro); variantes fixas no host."@),
    ).with(
        "websocket_exchange"@,
        JsonView::Text("uma sessão WS curta (handshake + mensagens); não substitui cliente interativo longo."@),
    ).with(
        "scripts"@,
        JsonView::Text("automatize com write_file/append_file (ex: .ps1, .sh, .bat relativo) e execute com run_command ou run_detached."@),
    ).with(
        "ssh"@,
        JsonView::Text("via run_command ou run_detached: [\"ssh\", \"-o\", \"BatchMode=yes\", \"user@host\", \"cmd\"]; chaves/agent já no ambiente do utilizador."@),
    ).with("windows"@, windows_lines_view()).with("macos"@, macos_lines_view()).with("linux_common"@, linux_lines_view())
}

/// What each way to act on the host is for, with command lines for each system.
pub fn command_playbook() -> (j: Json)
    ensures
        j@ == command_playbook_view(),
{
    object().with(
        "run_command",
        text("argv sem shell; só binários permitidos pela lista branca."),
    ).with(
        "run_detached",
        text("igual run_command porém sem esperar fim; útil para servidores ou UIs; devolve pid."),
    ).with(
        "computer_survey",
        text("sondagem só leitura: executáveis comuns no PATH (sem instalar nada)."),
    ).with(
        "open_url",
        text("abre http(s) no browser/app por defeito (sem simular rato/tecla)."),
    ).with(
        "automation_log",
        text("append JSONL em .toolmind/automation_audit.jsonl (checkpoint/auditoria)."),
    ).with(
        "gui_automation_arm",
        text("Windows: uma confirmação no terminal; depois gui_* até disarm ou `parar` no prompt."),
    ).with(
        "gui_automation_disarm",
        text("revoga sessão GUI (ficheiro .toolmind/gui_session.json)."),
    ).with(
        "gui_automation_status",
        text("armed?, armed_at_ms."),
    ).with(
        "gui_screen_snapshot",
        text("PNG + título/rect da janela em foco + textual_summary (sem OCR)."),
    ).with(
        "gui_mouse_move",
        text("coordenadas absolutas no virtual desktop."),
    ).with(
        "gui_mouse_click",
        text("left|right|middle; double opcional."),
    ).with(
        "gui_type_text",
        text("Unicode para a janela em foco (SendInput)."),
    ).with(
        "vision_to_context",
        text("OCR Tesseract + layout: summary, text, elements, llm_block (imagem relativa)."),
    ).with(
        "terminal_open",
        text("abre terminal gráfico num cwd (caminho relativo seguro); variantes fixas no host."),
    ).with(
        "websocket_exchange",
        text("uma sessão WS curta (handshake + mensagens); não substitui cliente interativo longo."),
    ).with(
        "scripts",
        text("automatize com write_file/append_file (ex: .ps1, .sh, .bat relativo) e execute com run_command ou run_detached."),
    ).with(
        "ssh",
        text("via run_command ou run_detached: [\"ssh\", \"-o\", \"BatchMode=yes\", \"user@host\", \"cmd\"]; chaves/agent já no ambiente do utilizador."),
    ).with("windows", windows_lines()).with("macos", macos_lines()).with("linux_common", linux_lines())
}

} // verus!
