//! The tools that the agent has.
use crate::registry::{law_found_as_registered, lookup, ToolKind, ToolRegistry, ToolView};
use vstd::prelude::*;

verus! {

/// A tool.
pub open spec fn tool(name: Seq<char>, description: Seq<char>, kind: ToolKind) -> ToolView {
    ToolView { name, description, kind }
}

/// The tools that read and write files.
pub open spec fn file_tools(tools: Seq<ToolView>) -> Seq<ToolView> {
    tools.push(
        tool(
            "write_file"@,
            "Escreve/sobrescreve arquivo (caminho relativo, sem ..). Parâmetros: filename, content."@,
            ToolKind::WriteFile,
        ),
    ).push(
        tool(
            "append_file"@,
            "Anexa conteúdo ao final de um arquivo. Parâmetros: filename, content."@,
            ToolKind::AppendFile,
        ),
    ).push(
        tool(
            "read_file"@,
            "Lê texto de um arquivo (máx. 512KiB). Parâmetros: filename."@,
            ToolKind::ReadFile,
        ),
    ).push(
        tool(
            "list_dir"@,
            "Lista nomes no diretório relativo. Parâmetros: dirname (ex: \".\" ou \"src\")."@,
            ToolKind::ListDir,
        ),
    ).push(
        tool(
            "workspace_context"@,
            "Mostra diretório atual (cwd) e amostra de arquivos/pastas. Use antes de escrever para saber onde está. Sem parâmetros ou {}."@,
            ToolKind::WorkspaceContext,
        ),
    ).push(
        tool(
            "path_info"@,
            "Metadados de um caminho relativo: existe?, arquivo/pasta, tamanho. Parâmetros: path (string relativa)."@,
            ToolKind::PathInfo,
        ),
    )
}

fn with_file_tools(tools: ToolRegistry) -> (r: ToolRegistry)
    ensures
        r@ == file_tools(tools@),
{
    tools.with(
        "write_file",
        "Escreve/sobrescreve arquivo (caminho relativo, sem ..). Parâmetros: filename, content.",
        ToolKind::WriteFile,
    ).with(
        "append_file",
        "Anexa conteúdo ao final de um arquivo. Parâmetros: filename, content.",
        ToolKind::AppendFile,
    ).with(
        "read_file",
        "Lê texto de um arquivo (máx. 512KiB). Parâmetros: filename.",
        ToolKind::ReadFile,
    ).with(
        "list_dir",
        "Lista nomes no diretório relativo. Parâmetros: dirname (ex: \".\" ou \"src\").",
        ToolKind::ListDir,
    ).with(
        "workspace_context",
        "Mostra diretório atual (cwd) e amostra de arquivos/pastas. Use antes de escrever para saber onde está. Sem parâmetros ou {}.",
        ToolKind::WorkspaceContext,
    ).with(
        "path_info",
        "Metadados de um caminho relativo: existe?, arquivo/pasta, tamanho. Parâmetros: path (string relativa).",
        ToolKind::PathInfo,
    )
}

/// The tools that look at the host and open things on it.
pub open spec fn host_tools(tools: Seq<ToolView>) -> Seq<ToolView> {
    tools.push(
        tool(
            "runtime_host"@,
            "SO, cwd, variáveis úteis (COMSPEC/SHELL/PATH) e command_playbook (mapa declarativo de padrões: terminais, processos, curl, ssh). Sem parâmetros ou {}."@,
            ToolKind::RuntimeHost,
        ),
    ).push(
        tool(
            "computer_survey"@,
            "Sondagem só leitura: executáveis comuns no PATH (powershell, git, browsers, etc.). Não instala nada. Parâmetros: {}."@,
            ToolKind::ComputerSurvey,
        ),
    ).push(
        tool(
            "open_url"@,
            "Abre URL http(s) no browser ou handler por defeito do SO (sem simular rato/tecla). Parâmetros: url."@,
            ToolKind::OpenUrl,
        ),
    ).push(
        tool(
            "automation_log"@,
            "Regista checkpoint/auditoria em .toolmind/automation_audit.jsonl (append JSONL). Parâmetros: step, detail (opcional), level info|warn|error (opcional)."@,
            ToolKind::AutomationLog,
        ),
    )
}

fn with_host_tools(tools: ToolRegistry) -> (r: ToolRegistry)
    ensures
        r@ == host_tools(tools@),
{
    tools.with(
        "runtime_host",
        "SO, cwd, variáveis úteis (COMSPEC/SHELL/PATH) e command_playbook (mapa declarativo de padrões: terminais, processos, curl, ssh). Sem parâmetros ou {}.",
        ToolKind::RuntimeHost,
    ).with(
        "computer_survey",
        "Sondagem só leitura: executáveis comuns no PATH (powershell, git, browsers, etc.). Não instala nada. Parâmetros: {}.",
        ToolKind::ComputerSurvey,
    ).with(
        "open_url",
        "Abre URL http(s) no browser ou handler por defeito do SO (sem simular rato/tecla). Parâmetros: url.",
        ToolKind::OpenUrl,
    ).with(
        "automation_log",
        "Regista checkpoint/auditoria em .toolmind/automation_audit.jsonl (append JSONL). Parâmetros: step, detail (opcional), level info|warn|error (opcional).",
        ToolKind::AutomationLog,
    )
}

/// The tools that work on the screen and read images.
pub open spec fn screen_tools(tools: Seq<ToolView>) -> Seq<ToolView> {
    tools.push(
        tool(
            "gui_automation_arm"@,
            "Windows: pede UMA confirmação no terminal e arma sessão GUI até gui_automation_disarm ou o utilizador escrever `parar` no prompt. Sem isto, gui_* falham. Fora de Windows devolve erro. Parâmetros: {}."@,
            ToolKind::GuiAutomationArm,
        ),
    ).push(
        tool(
            "gui_automation_disarm"@,
            "Revoga sessão GUI (remove .toolmind/gui_session.json). Parâmetros: {}."@,
            ToolKind::GuiAutomationDisarm,
        ),
    ).push(
        tool(
            "gui_automation_status"@,
            "Estado da sessão GUI: armed, armed_at_ms. Parâmetros: {}."@,
            ToolKind::GuiAutomationStatus,
        ),
    ).push(
        tool(
            "gui_screen_snapshot"@,
            "Windows + sessão armada: captura PNG (primeiro monitor), caminho, dimensões, título e rect da janela em foco, textual_summary (sem OCR no host). Parâmetros: {}."@,
            ToolKind::GuiScreenSnapshot,
        ),
    ).push(
        tool(
            "gui_mouse_move"@,
            "Windows + sessão armada: move o cursor (x,y inteiros, coordenadas absolutas no virtual desktop). Parâmetros: x, y."@,
            ToolKind::GuiMouseMove,
        ),
    ).push(
        tool(
            "gui_mouse_click"@,
            "Windows + sessão armada: clique na posição atual. Parâmetros: button left|right|middle (default left); double bool opcional."@,
            ToolKind::GuiMouseClick,
        ),
    ).push(
        tool(
            "gui_type_text"@,
            "Windows + sessão armada: envia texto Unicode (UTF-16) para a janela em foco via SendInput. Parâmetros: text (máx. 8000 bytes). Cuidado com foco errado."@,
            ToolKind::GuiTypeText,
        ),
    ).push(
        tool(
            "vision_to_context"@,
            "Image→contexto estruturado (Tesseract no PATH): OCR + agrupamento por linha + heurística de tipo (button/input/text). Campos: image_path (relativo, png/jpg/…); mode full|fast|ocr_only (default fast); lang opcional (ex. por+eng). Devolve summary, text[], elements[{type,label,x,y,w,h}], paragraphs (full), page, semantic_tags, llm_block (texto pronto para o modelo)."@,
            ToolKind::VisionToContext,
        ),
    )
}

fn with_screen_tools(tools: ToolRegistry) -> (r: ToolRegistry)
    ensures
        r@ == screen_tools(tools@),
{
    tools.with(
        "gui_automation_arm",
        "Windows: pede UMA confirmação no terminal e arma sessão GUI até gui_automation_disarm ou o utilizador escrever `parar` no prompt. Sem isto, gui_* falham. Fora de Windows devolve erro. Parâmetros: {}.",
        ToolKind::GuiAutomationArm,
    ).with(
        "gui_automation_disarm",
        "Revoga sessão GUI (remove .toolmind/gui_session.json). Parâmetros: {}.",
        ToolKind::GuiAutomationDisarm,
    ).with(
        "gui_automation_status",
        "Estado da sessão GUI: armed, armed_at_ms. Parâmetros: {}.",
        ToolKind::GuiAutomationStatus,
    ).with(
        "gui_screen_snapshot",
        "Windows + sessão armada: captura PNG (primeiro monitor), caminho, dimensões, título e rect da janela em foco, textual_summary (sem OCR no host). Parâmetros: {}.",
        ToolKind::GuiScreenSnapshot,
    ).with(
        "gui_mouse_move",
        "Windows + sessão armada: move o cursor (x,y inteiros, coordenadas absolutas no virtual desktop). Parâmetros: x, y.",
        ToolKind::GuiMouseMove,
    ).with(
        "gui_mouse_click",
        "Windows + sessão armada: clique na posição atual. Parâmetros: button left|right|middle (default left); double bool opcional.",
        ToolKind::GuiMouseClick,
    ).with(
        "gui_type_text",
        "Windows + sessão armada: envia texto Unicode (UTF-16) para a janela em foco via SendInput. Parâmetros: text (máx. 8000 bytes). Cuidado com foco errado.",
        ToolKind::GuiTypeText,
    ).with(
        "vision_to_context",
        "Image→contexto estruturado (Tesseract no PATH): OCR + agrupamento por linha + heurística de tipo (button/input/text). Campos: image_path (relativo, png/jpg/…); mode full|fast|ocr_only (default fast); lang opcional (ex. por+eng). Devolve summary, text[], elements[{type,label,x,y,w,h}], paragraphs (full), page, semantic_tags, llm_block (texto pronto para o modelo).",
        ToolKind::VisionToContext,
    )
}

/// The tools that run programs and reach the network.
pub open spec fn process_tools(tools: Seq<ToolView>) -> Seq<ToolView> {
    tools.push(
        tool(
            "run_detached"@,
            "Igual run_command (lista branca, argv) mas não espera o fim: devolve pid; stdout/stderr descartados; new_console (bool, Windows) abre console visível."@,
            ToolKind::RunDetached,
        ),
    ).push(
        tool(
            "terminal_open"@,
            "Abre terminal gráfico no cwd (working_dir relativo). variant: wt_here | powershell_here | cmd_here | powershell_start_fallback | cmd_start_fallback (Windows); macOS usa Terminal; Linux tenta gnome-terminal."@,
            ToolKind::TerminalOpen,
        ),
    ).push(
        tool(
            "websocket_exchange"@,
            "Sessão WebSocket curta: url (ws/wss), send_texts [], receive_max (1–128), timeout_secs (5–120). Handshake + envio + até N mensagens recebidas (texto/binário/ping/pong/close)."@,
            ToolKind::WebsocketExchange,
        ),
    ).push(
        tool(
            "run_command"@,
            "Executa comando SEM shell: argv = [programa, ...args]; lista branca (cargo, git, gh, curl, ssh, tasklist…); timeout_secs 1–300; max_output_bytes. Para fluxos Git/PR use git_* / gh_*."@,
            ToolKind::RunCommand,
        ),
    )
}

fn with_process_tools(tools: ToolRegistry) -> (r: ToolRegistry)
    ensures
        r@ == process_tools(tools@),
{
    tools.with(
        "run_detached",
        "Igual run_command (lista branca, argv) mas não espera o fim: devolve pid; stdout/stderr descartados; new_console (bool, Windows) abre console visível.",
        ToolKind::RunDetached,
    ).with(
        "terminal_open",
        "Abre terminal gráfico no cwd (working_dir relativo). variant: wt_here | powershell_here | cmd_here | powershell_start_fallback | cmd_start_fallback (Windows); macOS usa Terminal; Linux tenta gnome-terminal.",
        ToolKind::TerminalOpen,
    ).with(
        "websocket_exchange",
        "Sessão WebSocket curta: url (ws/wss), send_texts [], receive_max (1–128), timeout_secs (5–120). Handshake + envio + até N mensagens recebidas (texto/binário/ping/pong/close).",
        ToolKind::WebsocketExchange,
    ).with(
        "run_command",
        "Executa comando SEM shell: argv = [programa, ...args]; lista branca (cargo, git, gh, curl, ssh, tasklist…); timeout_secs 1–300; max_output_bytes. Para fluxos Git/PR use git_* / gh_*.",
        ToolKind::RunCommand,
    )
}

/// The tools around git.
pub open spec fn git_tools(tools: Seq<ToolView>) -> Seq<ToolView> {
    tools.push(
        tool(
            "git_status"@,
            "git status resumido (-sb --porcelain). {}"@,
            ToolKind::GitStatus,
        ),
    ).push(
        tool(
            "git_diff"@,
            "git diff. Parâmetros: staged (bool), path (opcional, relativo)."@,
            ToolKind::GitDiff,
        ),
    ).push(
        tool(
            "git_log"@,
            "git log --oneline. Parâmetros: max_count (1–200, default 20)."@,
            ToolKind::GitLog,
        ),
    ).push(
        tool(
            "git_branch"@,
            "git branch -vv. Parâmetros: mode list|list_all."@,
            ToolKind::GitBranch,
        ),
    ).push(
        tool(
            "git_remote"@,
            "git remote -v. {}"@,
            ToolKind::GitRemote,
        ),
    ).push(
        tool(
            "git_add"@,
            "git add -- paths. Parâmetros: paths [relativos, sem ..]."@,
            ToolKind::GitAdd,
        ),
    ).push(
        tool(
            "git_restore"@,
            "git restore [--staged] -- paths. Parâmetros: paths[], staged (bool)."@,
            ToolKind::GitRestore,
        ),
    ).push(
        tool(
            "git_commit"@,
            "git commit -m. Parâmetros: message (obrigatório), allow_empty (bool)."@,
            ToolKind::GitCommit,
        ),
    ).push(
        tool(
            "git_push"@,
            "git push. Parâmetros: remote (default origin), branch (opcional), set_upstream (bool)."@,
            ToolKind::GitPush,
        ),
    ).push(
        tool(
            "git_pull"@,
            "git pull. Parâmetros: remote (default origin), branch (opcional)."@,
            ToolKind::GitPull,
        ),
    ).push(
        tool(
            "git_fetch"@,
            "git fetch. Parâmetros: remote (opcional), prune (bool)."@,
            ToolKind::GitFetch,
        ),
    ).push(
        tool(
            "git_checkout"@,
            "git checkout. Parâmetros: branch (obrigatório), create_branch (bool), start_point (opcional)."@,
            ToolKind::GitCheckout,
        ),
    ).push(
        tool(
            "git_show"@,
            "git show. Parâmetros: rev (default HEAD), stat_only (bool, default true)."@,
            ToolKind::GitShow,
        ),
    ).push(
        tool(
            "git_stash"@,
            "git stash. Parâmetros: action list|push|pop|apply; message (opcional, só push)."@,
            ToolKind::GitStash,
        ),
    ).push(
        tool(
            "git_rev_parse"@,
            "git rev-parse. Parâmetros: rev (default HEAD)."@,
            ToolKind::GitRevParse,
        ),
    )
}

fn with_git_tools(tools: ToolRegistry) -> (r: ToolRegistry)
    ensures
        r@ == git_tools(tools@),
{
    tools.with(
        "git_status",
        "git status resumido (-sb --porcelain). {}",
        ToolKind::GitStatus,
    ).with(
        "git_diff",
        "git diff. Parâmetros: staged (bool), path (opcional, relativo).",
        ToolKind::GitDiff,
    ).with(
        "git_log",
        "git log --oneline. Parâmetros: max_count (1–200, default 20).",
        ToolKind::GitLog,
    ).with(
        "git_branch",
        "git branch -vv. Parâmetros: mode list|list_all.",
        ToolKind::GitBranch,
    ).with(
        "git_remote",
        "git remote -v. {}",
        ToolKind::GitRemote,
    ).with(
        "git_add",
        "git add -- paths. Parâmetros: paths [relativos, sem ..].",
        ToolKind::GitAdd,
    ).with(
        "git_restore",
        "git restore [--staged] -- paths. Parâmetros: paths[], staged (bool).",
        ToolKind::GitRestore,
    ).with(
        "git_commit",
        "git commit -m. Parâmetros: message (obrigatório), allow_empty (bool).",
        ToolKind::GitCommit,
    ).with(
        "git_push",
        "git push. Parâmetros: remote (default origin), branch (opcional), set_upstream (bool).",
        ToolKind::GitPush,
    ).with(
        "git_pull",
        "git pull. Parâmetros: remote (default origin), branch (opcional).",
        ToolKind::GitPull,
    ).with(
        "git_fetch",
        "git fetch. Parâmetros: remote (opcional), prune (bool).",
        ToolKind::GitFetch,
    ).with(
        "git_checkout",
        "git checkout. Parâmetros: branch (obrigatório), create_branch (bool), start_point (opcional).",
        ToolKind::GitCheckout,
    ).with(
        "git_show",
        "git show. Parâmetros: rev (default HEAD), stat_only (bool, default true).",
        ToolKind::GitShow,
    ).with(
        "git_stash",
        "git stash. Parâmetros: action list|push|pop|apply; message (opcional, só push).",
        ToolKind::GitStash,
    ).with(
        "git_rev_parse",
        "git rev-parse. Parâmetros: rev (default HEAD).",
        ToolKind::GitRevParse,
    )
}

/// The tools around pull requests.
pub open spec fn pull_request_tools(tools: Seq<ToolView>) -> Seq<ToolView> {
    tools.push(
        tool(
            "gh_pr_list"@,
            "Lista PRs (JSON). Parâmetros: state open|closed|merged|all, limit (1–100)."@,
            ToolKind::GhPrList,
        ),
    ).push(
        tool(
            "gh_pr_view"@,
            "Detalhe de um PR (JSON). Parâmetros: number ou pr."@,
            ToolKind::GhPrView,
        ),
    ).push(
        tool(
            "gh_pr_diff"@,
            "Diff de um PR. Parâmetros: number ou pr."@,
            ToolKind::GhPrDiff,
        ),
    ).push(
        tool(
            "gh_pr_create"@,
            "Abre PR. Parâmetros: title, body, base (default main), draft (bool), head (opcional)."@,
            ToolKind::GhPrCreate,
        ),
    ).push(
        tool(
            "gh_pr_close"@,
            "Fecha PR. Parâmetros: number ou pr."@,
            ToolKind::GhPrClose,
        ),
    ).push(
        tool(
            "gh_pr_merge"@,
            "Mescla PR. Parâmetros: number ou pr, method merge|squash|rebase (default squash)."@,
            ToolKind::GhPrMerge,
        ),
    ).push(
        tool(
            "gh_pr_comment"@,
            "Comentário em PR. Parâmetros: number ou pr, body."@,
            ToolKind::GhPrComment,
        ),
    )
}

fn with_pull_request_tools(tools: ToolRegistry) -> (r: ToolRegistry)
    ensures
        r@ == pull_request_tools(tools@),
{
    tools.with(
        "gh_pr_list",
        "Lista PRs (JSON). Parâmetros: state open|closed|merged|all, limit (1–100).",
        ToolKind::GhPrList,
    ).with(
        "gh_pr_view",
        "Detalhe de um PR (JSON). Parâmetros: number ou pr.",
        ToolKind::GhPrView,
    ).with(
        "gh_pr_diff",
        "Diff de um PR. Parâmetros: number ou pr.",
        ToolKind::GhPrDiff,
    ).with(
        "gh_pr_create",
        "Abre PR. Parâmetros: title, body, base (default main), draft (bool), head (opcional).",
        ToolKind::GhPrCreate,
    ).with(
        "gh_pr_close",
        "Fecha PR. Parâmetros: number ou pr.",
        ToolKind::GhPrClose,
    ).with(
        "gh_pr_merge",
        "Mescla PR. Parâmetros: number ou pr, method merge|squash|rebase (default squash).",
        ToolKind::GhPrMerge,
    ).with(
        "gh_pr_comment",
        "Comentário em PR. Parâmetros: number ou pr, body.",
        ToolKind::GhPrComment,
    )
}

/// The tools that ask the user and keep the plan.
pub open spec fn plan_tools(tools: Seq<ToolView>) -> Seq<ToolView> {
    tools.push(
        tool(
            "ask_user_choice"@,
            "Pergunta interativa obrigatória para decisões: menu com ↑↓ (dialoguer), animação opcional, opção '✎ Outro' automática (texto livre). Campos: question; options (≥1 fixa, ≥2 no total com Outro); subtitle; footer_hint; default_index; include_other (default true); animate_intro (default false); ui_mode dialoguer|simple. Opcional (todas as tools): plan_mark_done_through_step — ver regras globais de plano no system prompt."@,
            ToolKind::AskUserChoice,
        ),
    ).push(
        tool(
            "save_plan"@,
            "Plano em .toolmind/current_plan.json e inicializa plan_progress.json (etapas pending). Campos: title, steps; opcional: risks, open_questions, definition_of_done, assumptions, alternatives_rejected, notes."@,
            ToolKind::SavePlan,
        ),
    ).push(
        tool(
            "load_plan"@,
            "Lê current_plan.json; inclui progress (plan_progress.json) se existir. Parâmetros: {}."@,
            ToolKind::LoadPlan,
        ),
    ).push(
        tool(
            "update_plan_step"@,
            "Atualiza etapa do plano em plan_progress.json: step_index (ou index), status done|in_progress|pending; opcional halt_execution (bool), halt_reason. Com status done, etapas anteriores ainda pending passam automaticamente a done."@,
            ToolKind::UpdatePlanStep,
        ),
    ).push(
        tool(
            "reflect_session"@,
            "Auto-crítica: append em .toolmind/self_reflections.jsonl. Parâmetros: critique (obrigatório), improvement_hypothesis, severity (low|medium|high), next_experiments []."@,
            ToolKind::ReflectSession,
        ),
    ).push(
        tool(
            "create_tool"@,
            "Registra pedido de nova tool em .toolmind/pending_tools.jsonl (nome, description, suggested_impl opcional)."@,
            ToolKind::CreateTool,
        ),
    )
}

fn with_plan_tools(tools: ToolRegistry) -> (r: ToolRegistry)
    ensures
        r@ == plan_tools(tools@),
{
    tools.with(
        "ask_user_choice",
        "Pergunta interativa obrigatória para decisões: menu com ↑↓ (dialoguer), animação opcional, opção '✎ Outro' automática (texto livre). Campos: question; options (≥1 fixa, ≥2 no total com Outro); subtitle; footer_hint; default_index; include_other (default true); animate_intro (default false); ui_mode dialoguer|simple. Opcional (todas as tools): plan_mark_done_through_step — ver regras globais de plano no system prompt.",
        ToolKind::AskUserChoice,
    ).with(
        "save_plan",
        "Plano em .toolmind/current_plan.json e inicializa plan_progress.json (etapas pending). Campos: title, steps; opcional: risks, open_questions, definition_of_done, assumptions, alternatives_rejected, notes.",
        ToolKind::SavePlan,
    ).with(
        "load_plan",
        "Lê current_plan.json; inclui progress (plan_progress.json) se existir. Parâmetros: {}.",
        ToolKind::LoadPlan,
    ).with(
        "update_plan_step",
        "Atualiza etapa do plano em plan_progress.json: step_index (ou index), status done|in_progress|pending; opcional halt_execution (bool), halt_reason. Com status done, etapas anteriores ainda pending passam automaticamente a done.",
        ToolKind::UpdatePlanStep,
    ).with(
        "reflect_session",
        "Auto-crítica: append em .toolmind/self_reflections.jsonl. Parâmetros: critique (obrigatório), improvement_hypothesis, severity (low|medium|high), next_experiments [].",
        ToolKind::ReflectSession,
    ).with(
        "create_tool",
        "Registra pedido de nova tool em .toolmind/pending_tools.jsonl (nome, description, suggested_impl opcional).",
        ToolKind::CreateTool,
    )
}

/// The tools of the agent, in the order in which the model is told of them.
pub open spec fn agent_tools() -> Seq<ToolView> {
    plan_tools(pull_request_tools(git_tools(process_tools(screen_tools(host_tools(file_tools(Seq::empty())))))))
}

/// Registers the tools of the agent.
pub fn agent_registry() -> (r: ToolRegistry)
    ensures
        r@ == agent_tools(),
{
    with_plan_tools(with_pull_request_tools(with_git_tools(with_process_tools(with_screen_tools(with_host_tools(with_file_tools(ToolRegistry::new())))))))
}

// ---------------------------------------------------------------------------
// Laws on the tools
// ---------------------------------------------------------------------------

/// The name under which the model calls a tool.
pub open spec fn tool_name(kind: ToolKind) -> Seq<char> {
    match kind {
        ToolKind::WriteFile => "write_file"@,
        ToolKind::AppendFile => "append_file"@,
        ToolKind::ReadFile => "read_file"@,
        ToolKind::ListDir => "list_dir"@,
        ToolKind::WorkspaceContext => "workspace_context"@,
        ToolKind::PathInfo => "path_info"@,
        ToolKind::RuntimeHost => "runtime_host"@,
        ToolKind::ComputerSurvey => "computer_survey"@,
        ToolKind::OpenUrl => "open_url"@,
        ToolKind::AutomationLog => "automation_log"@,
        ToolKind::GuiAutomationArm => "gui_automation_arm"@,
        ToolKind::GuiAutomationDisarm => "gui_automation_disarm"@,
        ToolKind::GuiAutomationStatus => "gui_automation_status"@,
        ToolKind::GuiScreenSnapshot => "gui_screen_snapshot"@,
        ToolKind::GuiMouseMove => "gui_mouse_move"@,
        ToolKind::GuiMouseClick => "gui_mouse_click"@,
        ToolKind::GuiTypeText => "gui_type_text"@,
        ToolKind::VisionToContext => "vision_to_context"@,
        ToolKind::RunDetached => "run_detached"@,
        ToolKind::TerminalOpen => "terminal_open"@,
        ToolKind::WebsocketExchange => "websocket_exchange"@,
        ToolKind::RunCommand => "run_command"@,
        ToolKind::GitStatus => "git_status"@,
        ToolKind::GitDiff => "git_diff"@,
        ToolKind::GitLog => "git_log"@,
        ToolKind::GitBranch => "git_branch"@,
        ToolKind::GitRemote => "git_remote"@,
        ToolKind::GitAdd => "git_add"@,
        ToolKind::GitRestore => "git_restore"@,
        ToolKind::GitCommit => "git_commit"@,
        ToolKind::GitPush => "git_push"@,
        ToolKind::GitPull => "git_pull"@,
        ToolKind::GitFetch => "git_fetch"@,
        ToolKind::GitCheckout => "git_checkout"@,
        ToolKind::GitShow => "git_show"@,
        ToolKind::GitStash => "git_stash"@,
        ToolKind::GitRevParse => "git_rev_parse"@,
        ToolKind::GhPrList => "gh_pr_list"@,
        ToolKind::GhPrView => "gh_pr_view"@,
        ToolKind::GhPrDiff => "gh_pr_diff"@,
        ToolKind::GhPrCreate => "gh_pr_create"@,
        ToolKind::GhPrClose => "gh_pr_close"@,
        ToolKind::GhPrMerge => "gh_pr_merge"@,
        ToolKind::GhPrComment => "gh_pr_comment"@,
        ToolKind::AskUserChoice => "ask_user_choice"@,
        ToolKind::SavePlan => "save_plan"@,
        ToolKind::LoadPlan => "load_plan"@,
        ToolKind::UpdatePlanStep => "update_plan_step"@,
        ToolKind::ReflectSession => "reflect_session"@,
        ToolKind::CreateTool => "create_tool"@,
    }
}

/// Each tool stands under the name of its kind.
pub open spec fn well_named(tools: Seq<ToolView>) -> bool {
    forall|i: int| 0 <= i < tools.len() ==> (#[trigger] tools[i]).name == tool_name(tools[i].kind)
}

/// A tool of this kind is among the tools.
pub open spec fn has_kind(tools: Seq<ToolView>, kind: ToolKind) -> bool {
    exists|i: int| 0 <= i < tools.len() && (#[trigger] tools[i]).kind == kind
}

proof fn lemma_file_tools(tools: Seq<ToolView>)
    ensures
        well_named(tools) ==> well_named(file_tools(tools)),
        forall|kind: ToolKind| has_kind(tools, kind) ==> #[trigger] has_kind(file_tools(tools), kind),
        has_kind(file_tools(tools), ToolKind::WriteFile),
        has_kind(file_tools(tools), ToolKind::AppendFile),
        has_kind(file_tools(tools), ToolKind::ReadFile),
        has_kind(file_tools(tools), ToolKind::ListDir),
        has_kind(file_tools(tools), ToolKind::WorkspaceContext),
        has_kind(file_tools(tools), ToolKind::PathInfo),
{
    let all = file_tools(tools);
    let n = tools.len() as int;
    assert(forall|i: int| 0 <= i < n ==> all[i] == #[trigger] tools[i]);
    assert(all[n + 0].kind == ToolKind::WriteFile);
    assert(all[n + 1].kind == ToolKind::AppendFile);
    assert(all[n + 2].kind == ToolKind::ReadFile);
    assert(all[n + 3].kind == ToolKind::ListDir);
    assert(all[n + 4].kind == ToolKind::WorkspaceContext);
    assert(all[n + 5].kind == ToolKind::PathInfo);
    assert forall|kind: ToolKind| has_kind(tools, kind) implies #[trigger] has_kind(all, kind) by {
        let i = choose|i: int| 0 <= i < tools.len() && (#[trigger] tools[i]).kind == kind;
        assert(all[i].kind == kind);
    }
}

proof fn lemma_host_tools(tools: Seq<ToolView>)
    ensures
        well_named(tools) ==> well_named(host_tools(tools)),
        forall|kind: ToolKind| has_kind(tools, kind) ==> #[trigger] has_kind(host_tools(tools), kind),
        has_kind(host_tools(tools), ToolKind::RuntimeHost),
        has_kind(host_tools(tools), ToolKind::ComputerSurvey),
        has_kind(host_tools(tools), ToolKind::OpenUrl),
        has_kind(host_tools(tools), ToolKind::AutomationLog),
{
    let all = host_tools(tools);
    let n = tools.len() as int;
    assert(forall|i: int| 0 <= i < n ==> all[i] == #[trigger] tools[i]);
    assert(all[n + 0].kind == ToolKind::RuntimeHost);
    assert(all[n + 1].kind == ToolKind::ComputerSurvey);
    assert(all[n + 2].kind == ToolKind::OpenUrl);
    assert(all[n + 3].kind == ToolKind::AutomationLog);
    assert forall|kind: ToolKind| has_kind(tools, kind) implies #[trigger] has_kind(all, kind) by {
        let i = choose|i: int| 0 <= i < tools.len() && (#[trigger] tools[i]).kind == kind;
        assert(all[i].kind == kind);
    }
}

proof fn lemma_screen_tools(tools: Seq<ToolView>)
    ensures
        well_named(tools) ==> well_named(screen_tools(tools)),
        forall|kind: ToolKind| has_kind(tools, kind) ==> #[trigger] has_kind(screen_tools(tools), kind),
        has_kind(screen_tools(tools), ToolKind::GuiAutomationArm),
        has_kind(screen_tools(tools), ToolKind::GuiAutomationDisarm),
        has_kind(screen_tools(tools), ToolKind::GuiAutomationStatus),
        has_kind(screen_tools(tools), ToolKind::GuiScreenSnapshot),
        has_kind(screen_tools(tools), ToolKind::GuiMouseMove),
        has_kind(screen_tools(tools), ToolKind::GuiMouseClick),
        has_kind(screen_tools(tools), ToolKind::GuiTypeText),
        has_kind(screen_tools(tools), ToolKind::VisionToContext),
{
    let all = screen_tools(tools);
    let n = tools.len() as int;
    assert(forall|i: int| 0 <= i < n ==> all[i] == #[trigger] tools[i]);
    assert(all[n + 0].kind == ToolKind::GuiAutomationArm);
    assert(all[n + 1].kind == ToolKind::GuiAutomationDisarm);
    assert(all[n + 2].kind == ToolKind::GuiAutomationStatus);
    assert(all[n + 3].kind == ToolKind::GuiScreenSnapshot);
    assert(all[n + 4].kind == ToolKind::GuiMouseMove);
    assert(all[n + 5].kind == ToolKind::GuiMouseClick);
    assert(all[n + 6].kind == ToolKind::GuiTypeText);
    assert(all[n + 7].kind == ToolKind::VisionToContext);
    assert forall|kind: ToolKind| has_kind(tools, kind) implies #[trigger] has_kind(all, kind) by {
        let i = choose|i: int| 0 <= i < tools.len() && (#[trigger] tools[i]).kind == kind;
        assert(all[i].kind == kind);
    }
}

proof fn lemma_process_tools(tools: Seq<ToolView>)
    ensures
        well_named(tools) ==> well_named(process_tools(tools)),
        forall|kind: ToolKind| has_kind(tools, kind) ==> #[trigger] has_kind(process_tools(tools), kind),
        has_kind(process_tools(tools), ToolKind::RunDetached),
        has_kind(process_tools(tools), ToolKind::TerminalOpen),
        has_kind(process_tools(tools), ToolKind::WebsocketExchange),
        has_kind(process_tools(tools), ToolKind::RunCommand),
{
    let all = process_tools(tools);
    let n = tools.len() as int;
    assert(forall|i: int| 0 <= i < n ==> all[i] == #[trigger] tools[i]);
    assert(all[n + 0].kind == ToolKind::RunDetached);
    assert(all[n + 1].kind == ToolKind::TerminalOpen);
    assert(all[n + 2].kind == ToolKind::WebsocketExchange);
    assert(all[n + 3].kind == ToolKind::RunCommand);
    assert forall|kind: ToolKind| has_kind(tools, kind) implies #[trigger] has_kind(all, kind) by {
        let i = choose|i: int| 0 <= i < tools.len() && (#[trigger] tools[i]).kind == kind;
        assert(all[i].kind == kind);
    }
}

proof fn lemma_git_tools(tools: Seq<ToolView>)
    ensures
        well_named(tools) ==> well_named(git_tools(tools)),
        forall|kind: ToolKind| has_kind(tools, kind) ==> #[trigger] has_kind(git_tools(tools), kind),
        has_kind(git_tools(tools), ToolKind::GitStatus),
        has_kind(git_tools(tools), ToolKind::GitDiff),
        has_kind(git_tools(tools), ToolKind::GitLog),
        has_kind(git_tools(tools), ToolKind::GitBranch),
        has_kind(git_tools(tools), ToolKind::GitRemote),
        has_kind(git_tools(tools), ToolKind::GitAdd),
        has_kind(git_tools(tools), ToolKind::GitRestore),
        has_kind(git_tools(tools), ToolKind::GitCommit),
        has_kind(git_tools(tools), ToolKind::GitPush),
        has_kind(git_tools(tools), ToolKind::GitPull),
        has_kind(git_tools(tools), ToolKind::GitFetch),
        has_kind(git_tools(tools), ToolKind::GitCheckout),
        has_kind(git_tools(tools), ToolKind::GitShow),
        has_kind(git_tools(tools), ToolKind::GitStash),
        has_kind(git_tools(tools), ToolKind::GitRevParse),
{
    let all = git_tools(tools);
    let n = tools.len() as int;
    assert(forall|i: int| 0 <= i < n ==> all[i] == #[trigger] tools[i]);
    assert(all[n + 0].kind == ToolKind::GitStatus);
    assert(all[n + 1].kind == ToolKind::GitDiff);
    assert(all[n + 2].kind == ToolKind::GitLog);
    assert(all[n + 3].kind == ToolKind::GitBranch);
    assert(all[n + 4].kind == ToolKind::GitRemote);
    assert(all[n + 5].kind == ToolKind::GitAdd);
    assert(all[n + 6].kind == ToolKind::GitRestore);
    assert(all[n + 7].kind == ToolKind::GitCommit);
    assert(all[n + 8].kind == ToolKind::GitPush);
    assert(all[n + 9].kind == ToolKind::GitPull);
    assert(all[n + 10].kind == ToolKind::GitFetch);
    assert(all[n + 11].kind == ToolKind::GitCheckout);
    assert(all[n + 12].kind == ToolKind::GitShow);
    assert(all[n + 13].kind == ToolKind::GitStash);
    assert(all[n + 14].kind == ToolKind::GitRevParse);
    assert forall|kind: ToolKind| has_kind(tools, kind) implies #[trigger] has_kind(all, kind) by {
        let i = choose|i: int| 0 <= i < tools.len() && (#[trigger] tools[i]).kind == kind;
        assert(all[i].kind == kind);
    }
}

proof fn lemma_pull_request_tools(tools: Seq<ToolView>)
    ensures
        well_named(tools) ==> well_named(pull_request_tools(tools)),
        forall|kind: ToolKind| has_kind(tools, kind) ==> #[trigger] has_kind(pull_request_tools(tools), kind),
        has_kind(pull_request_tools(tools), ToolKind::GhPrList),
        has_kind(pull_request_tools(tools), ToolKind::GhPrView),
        has_kind(pull_request_tools(tools), ToolKind::GhPrDiff),
        has_kind(pull_request_tools(tools), ToolKind::GhPrCreate),
        has_kind(pull_request_tools(tools), ToolKind::GhPrClose),
        has_kind(pull_request_tools(tools), ToolKind::GhPrMerge),
        has_kind(pull_request_tools(tools), ToolKind::GhPrComment),
{
    let all = pull_request_tools(tools);
    let n = tools.len() as int;
    assert(forall|i: int| 0 <= i < n ==> all[i] == #[trigger] tools[i]);
    assert(all[n + 0].kind == ToolKind::GhPrList);
    assert(all[n + 1].kind == ToolKind::GhPrView);
    assert(all[n + 2].kind == ToolKind::GhPrDiff);
    assert(all[n + 3].kind == ToolKind::GhPrCreate);
    assert(all[n + 4].kind == ToolKind::GhPrClose);
    assert(all[n + 5].kind == ToolKind::GhPrMerge);
    assert(all[n + 6].kind == ToolKind::GhPrComment);
    assert forall|kind: ToolKind| has_kind(tools, kind) implies #[trigger] has_kind(all, kind) by {
        let i = choose|i: int| 0 <= i < tools.len() && (#[trigger] tools[i]).kind == kind;
        assert(all[i].kind == kind);
    }
}

proof fn lemma_plan_tools(tools: Seq<ToolView>)
    ensures
        well_named(tools) ==> well_named(plan_tools(tools)),
        forall|kind: ToolKind| has_kind(tools, kind) ==> #[trigger] has_kind(plan_tools(tools), kind),
        has_kind(plan_tools(tools), ToolKind::AskUserChoice),
        has_kind(plan_tools(tools), ToolKind::SavePlan),
        has_kind(plan_tools(tools), ToolKind::LoadPlan),
        has_kind(plan_tools(tools), ToolKind::UpdatePlanStep),
        has_kind(plan_tools(tools), ToolKind::ReflectSession),
        has_kind(plan_tools(tools), ToolKind::CreateTool),
{
    let all = plan_tools(tools);
    let n = tools.len() as int;
    assert(forall|i: int| 0 <= i < n ==> all[i] == #[trigger] tools[i]);
    assert(all[n + 0].kind == ToolKind::AskUserChoice);
    assert(all[n + 1].kind == ToolKind::SavePlan);
    assert(all[n + 2].kind == ToolKind::LoadPlan);
    assert(all[n + 3].kind == ToolKind::UpdatePlanStep);
    assert(all[n + 4].kind == ToolKind::ReflectSession);
    assert(all[n + 5].kind == ToolKind::CreateTool);
    assert forall|kind: ToolKind| has_kind(tools, kind) implies #[trigger] has_kind(all, kind) by {
        let i = choose|i: int| 0 <= i < tools.len() && (#[trigger] tools[i]).kind == kind;
        assert(all[i].kind == kind);
    }
}

/// Every tool is called by the name of its kind, and there is a tool of every kind.
pub proof fn law_tools_by_kind(kind: ToolKind)
    ensures
        well_named(agent_tools()),
        has_kind(agent_tools(), kind),
{
    let with_file_tools = file_tools(Seq::<ToolView>::empty());
    lemma_file_tools(Seq::<ToolView>::empty());
    let with_host_tools = host_tools(with_file_tools);
    lemma_host_tools(with_file_tools);
    let with_screen_tools = screen_tools(with_host_tools);
    lemma_screen_tools(with_host_tools);
    let with_process_tools = process_tools(with_screen_tools);
    lemma_process_tools(with_screen_tools);
    let with_git_tools = git_tools(with_process_tools);
    lemma_git_tools(with_process_tools);
    let with_pull_request_tools = pull_request_tools(with_git_tools);
    lemma_pull_request_tools(with_git_tools);
    let with_plan_tools = plan_tools(with_pull_request_tools);
    lemma_plan_tools(with_pull_request_tools);
}

/// No two kinds have one name.
pub proof fn law_names_differ(a: ToolKind, b: ToolKind)
    ensures
        tool_name(a) == tool_name(b) <==> a == b,
{
    reveal_strlit("write_file");
    assert("write_file"@.len() == 10);
    reveal_strlit("append_file");
    assert("append_file"@.len() == 11);
    reveal_strlit("read_file");
    assert("read_file"@.len() == 9);
    reveal_strlit("list_dir");
    assert("list_dir"@.len() == 8);
    reveal_strlit("workspace_context");
    assert("workspace_context"@.len() == 17);
    reveal_strlit("path_info");
    assert("path_info"@.len() == 9);
    reveal_strlit("runtime_host");
    assert("runtime_host"@.len() == 12);
    reveal_strlit("computer_survey");
    assert("computer_survey"@.len() == 15);
    reveal_strlit("open_url");
    assert("open_url"@.len() == 8);
    reveal_strlit("automation_log");
    assert("automation_log"@.len() == 14);
    reveal_strlit("gui_automation_arm");
    assert("gui_automation_arm"@.len() == 18);
    reveal_strlit("gui_automation_disarm");
    assert("gui_automation_disarm"@.len() == 21);
    reveal_strlit("gui_automation_status");
    assert("gui_automation_status"@.len() == 21);
    reveal_strlit("gui_screen_snapshot");
    assert("gui_screen_snapshot"@.len() == 19);
    reveal_strlit("gui_mouse_move");
    assert("gui_mouse_move"@.len() == 14);
    reveal_strlit("gui_mouse_click");
    assert("gui_mouse_click"@.len() == 15);
    reveal_strlit("gui_type_text");
    assert("gui_type_text"@.len() == 13);
    reveal_strlit("vision_to_context");
    assert("vision_to_context"@.len() == 17);
    reveal_strlit("run_detached");
    assert("run_detached"@.len() == 12);
    reveal_strlit("terminal_open");
    assert("terminal_open"@.len() == 13);
    reveal_strlit("websocket_exchange");
    assert("websocket_exchange"@.len() == 18);
    reveal_strlit("run_command");
    assert("run_command"@.len() == 11);
    reveal_strlit("git_status");
    assert("git_status"@.len() == 10);
    reveal_strlit("git_diff");
    assert("git_diff"@.len() == 8);
    reveal_strlit("git_log");
    assert("git_log"@.len() == 7);
    reveal_strlit("git_branch");
    assert("git_branch"@.len() == 10);
    reveal_strlit("git_remote");
    assert("git_remote"@.len() == 10);
    reveal_strlit("git_add");
    assert("git_add"@.len() == 7);
    reveal_strlit("git_restore");
    assert("git_restore"@.len() == 11);
    reveal_strlit("git_commit");
    assert("git_commit"@.len() == 10);
    reveal_strlit("git_push");
    assert("git_push"@.len() == 8);
    reveal_strlit("git_pull");
    assert("git_pull"@.len() == 8);
    reveal_strlit("git_fetch");
    assert("git_fetch"@.len() == 9);
    reveal_strlit("git_checkout");
    assert("git_checkout"@.len() == 12);
    reveal_strlit("git_show");
    assert("git_show"@.len() == 8);
    reveal_strlit("git_stash");
    assert("git_stash"@.len() == 9);
    reveal_strlit("git_rev_parse");
    assert("git_rev_parse"@.len() == 13);
    reveal_strlit("gh_pr_list");
    assert("gh_pr_list"@.len() == 10);
    reveal_strlit("gh_pr_view");
    assert("gh_pr_view"@.len() == 10);
    reveal_strlit("gh_pr_diff");
    assert("gh_pr_diff"@.len() == 10);
    reveal_strlit("gh_pr_create");
    assert("gh_pr_create"@.len() == 12);
    reveal_strlit("gh_pr_close");
    assert("gh_pr_close"@.len() == 11);
    reveal_strlit("gh_pr_merge");
    assert("gh_pr_merge"@.len() == 11);
    reveal_strlit("gh_pr_comment");
    assert("gh_pr_comment"@.len() == 13);
    reveal_strlit("ask_user_choice");
    assert("ask_user_choice"@.len() == 15);
    reveal_strlit("save_plan");
    assert("save_plan"@.len() == 9);
    reveal_strlit("load_plan");
    assert("load_plan"@.len() == 9);
    reveal_strlit("update_plan_step");
    assert("update_plan_step"@.len() == 16);
    reveal_strlit("reflect_session");
    assert("reflect_session"@.len() == 15);
    reveal_strlit("create_tool");
    assert("create_tool"@.len() == 11);
    assert("write_file"@[0] != "git_status"@[0]);
    assert("write_file"@[0] != "git_branch"@[0]);
    assert("write_file"@[0] != "git_remote"@[0]);
    assert("write_file"@[0] != "git_commit"@[0]);
    assert("write_file"@[0] != "gh_pr_list"@[0]);
    assert("write_file"@[0] != "gh_pr_view"@[0]);
    assert("write_file"@[0] != "gh_pr_diff"@[0]);
    assert("append_file"@[0] != "run_command"@[0]);
    assert("append_file"@[0] != "git_restore"@[0]);
    assert("append_file"@[0] != "gh_pr_close"@[0]);
    assert("append_file"@[0] != "gh_pr_merge"@[0]);
    assert("append_file"@[0] != "create_tool"@[0]);
    assert("read_file"@[0] != "path_info"@[0]);
    assert("read_file"@[0] != "git_fetch"@[0]);
    assert("read_file"@[0] != "git_stash"@[0]);
    assert("read_file"@[0] != "save_plan"@[0]);
    assert("read_file"@[0] != "load_plan"@[0]);
    assert("list_dir"@[0] != "open_url"@[0]);
    assert("list_dir"@[0] != "git_diff"@[0]);
    assert("list_dir"@[0] != "git_push"@[0]);
    assert("list_dir"@[0] != "git_pull"@[0]);
    assert("list_dir"@[0] != "git_show"@[0]);
    assert("workspace_context"@[0] != "vision_to_context"@[0]);
    assert("path_info"@[0] != "git_fetch"@[0]);
    assert("path_info"@[0] != "git_stash"@[0]);
    assert("path_info"@[0] != "save_plan"@[0]);
    assert("path_info"@[0] != "load_plan"@[0]);
    assert("runtime_host"@[3] != "run_detached"@[3]);
    assert("runtime_host"@[0] != "git_checkout"@[0]);
    assert("runtime_host"@[0] != "gh_pr_create"@[0]);
    assert("computer_survey"@[0] != "gui_mouse_click"@[0]);
    assert("computer_survey"@[0] != "ask_user_choice"@[0]);
    assert("computer_survey"@[0] != "reflect_session"@[0]);
    assert("open_url"@[0] != "git_diff"@[0]);
    assert("open_url"@[0] != "git_push"@[0]);
    assert("open_url"@[0] != "git_pull"@[0]);
    assert("open_url"@[0] != "git_show"@[0]);
    assert("automation_log"@[0] != "gui_mouse_move"@[0]);
    assert("gui_automation_arm"@[0] != "websocket_exchange"@[0]);
    assert("gui_automation_disarm"@[15] != "gui_automation_status"@[15]);
    assert("gui_mouse_click"@[0] != "ask_user_choice"@[0]);
    assert("gui_mouse_click"@[0] != "reflect_session"@[0]);
    assert("gui_type_text"@[0] != "terminal_open"@[0]);
    assert("gui_type_text"@[1] != "git_rev_parse"@[1]);
    assert("gui_type_text"@[1] != "gh_pr_comment"@[1]);
    assert("run_detached"@[0] != "git_checkout"@[0]);
    assert("run_detached"@[0] != "gh_pr_create"@[0]);
    assert("terminal_open"@[0] != "git_rev_parse"@[0]);
    assert("terminal_open"@[0] != "gh_pr_comment"@[0]);
    assert("run_command"@[0] != "git_restore"@[0]);
    assert("run_command"@[0] != "gh_pr_close"@[0]);
    assert("run_command"@[0] != "gh_pr_merge"@[0]);
    assert("run_command"@[0] != "create_tool"@[0]);
    assert("git_status"@[4] != "git_branch"@[4]);
    assert("git_status"@[4] != "git_remote"@[4]);
    assert("git_status"@[4] != "git_commit"@[4]);
    assert("git_status"@[1] != "gh_pr_list"@[1]);
    assert("git_status"@[1] != "gh_pr_view"@[1]);
    assert("git_status"@[1] != "gh_pr_diff"@[1]);
    assert("git_diff"@[4] != "git_push"@[4]);
    assert("git_diff"@[4] != "git_pull"@[4]);
    assert("git_diff"@[4] != "git_show"@[4]);
    assert("git_log"@[4] != "git_add"@[4]);
    assert("git_branch"@[4] != "git_remote"@[4]);
    assert("git_branch"@[4] != "git_commit"@[4]);
    assert("git_branch"@[1] != "gh_pr_list"@[1]);
    assert("git_branch"@[1] != "gh_pr_view"@[1]);
    assert("git_branch"@[1] != "gh_pr_diff"@[1]);
    assert("git_remote"@[4] != "git_commit"@[4]);
    assert("git_remote"@[1] != "gh_pr_list"@[1]);
    assert("git_remote"@[1] != "gh_pr_view"@[1]);
    assert("git_remote"@[1] != "gh_pr_diff"@[1]);
    assert("git_restore"@[1] != "gh_pr_close"@[1]);
    assert("git_restore"@[1] != "gh_pr_merge"@[1]);
    assert("git_restore"@[0] != "create_tool"@[0]);
    assert("git_commit"@[1] != "gh_pr_list"@[1]);
    assert("git_commit"@[1] != "gh_pr_view"@[1]);
    assert("git_commit"@[1] != "gh_pr_diff"@[1]);
    assert("git_push"@[6] != "git_pull"@[6]);
    assert("git_push"@[4] != "git_show"@[4]);
    assert("git_pull"@[4] != "git_show"@[4]);
    assert("git_fetch"@[4] != "git_stash"@[4]);
    assert("git_fetch"@[0] != "save_plan"@[0]);
    assert("git_fetch"@[0] != "load_plan"@[0]);
    assert("git_checkout"@[1] != "gh_pr_create"@[1]);
    assert("git_stash"@[0] != "save_plan"@[0]);
    assert("git_stash"@[0] != "load_plan"@[0]);
    assert("git_rev_parse"@[1] != "gh_pr_comment"@[1]);
    assert("gh_pr_list"@[6] != "gh_pr_view"@[6]);
    assert("gh_pr_list"@[6] != "gh_pr_diff"@[6]);
    assert("gh_pr_view"@[6] != "gh_pr_diff"@[6]);
    assert("gh_pr_close"@[6] != "gh_pr_merge"@[6]);
    assert("gh_pr_close"@[0] != "create_tool"@[0]);
    assert("gh_pr_merge"@[0] != "create_tool"@[0]);
    assert("ask_user_choice"@[0] != "reflect_session"@[0]);
    assert("save_plan"@[0] != "load_plan"@[0]);
}

/// A call by the name of a kind finds the tool of that kind.
pub proof fn law_name_finds_its_tool(kind: ToolKind)
    ensures
        lookup(agent_tools(), tool_name(kind)) matches Some(t) && t.kind == kind,
{
    let tools = agent_tools();
    law_tools_by_kind(kind);
    let i = choose|i: int| 0 <= i < tools.len() && (#[trigger] tools[i]).kind == kind;
    assert(tools[i].name == tool_name(kind));
    law_found_as_registered(tools, tool_name(kind));
    let t = lookup(tools, tool_name(kind))->0;
    let k = choose|k: int| 0 <= k < tools.len() && tools[k] == t;
    assert(tools[k].name == tool_name(tools[k].kind));
    law_names_differ(t.kind, kind);
}

} // verus!
