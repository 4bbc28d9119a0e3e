//! Programs that the agent runs: which ones, with what limits, and what is reported of them.
use crate::bytes::{from_utf8_lossy, lossy_text};
use crate::json::{
    empty_object, object, text, text_items, text_list, Json, JsonView,
};
use crate::paths::{
    bare_name, file_name_of, lemma_bare_name, name_fixed, path_stem, stem_by_rule, stem_known,
    stem_of,
};
use crate::reply::{error, error_view, ok, ok_view, optional};
use crate::text::{byte_len, bytes_in, cat, holds, lower_ascii, lowered, occurs_at, same, texts};
use vstd::prelude::*;

verus! {

/// The kind of system that the agent runs on.
#[derive(Clone, Copy, PartialEq, Eq, Structural)]
pub enum Platform {
    Windows,
    MacOs,
    OtherUnix,
    Unsupported,
}

// ---------------------------------------------------------------------------
// Command lines
// ---------------------------------------------------------------------------

/// A program and its arguments.
pub struct Args {
    pub list: Vec<String>,
}

impl View for Args {
    type V = Seq<Seq<char>>;

    open spec fn view(&self) -> Seq<Seq<char>> {
        texts(self.list@)
    }
}

/// Begins a command line.
pub fn args(program: &str) -> (r: Args)
    ensures
        r@ == seq![program@],
{
    let mut list: Vec<String> = Vec::new();
    list.push(program.to_owned());
    assert(texts(list@) =~= seq![program@]);
    Args { list }
}

impl Args {
    /// One more argument.
    pub fn arg(self, s: &str) -> (r: Args)
        ensures
            r@ == self@.push(s@),
    {
        let ghost before = self@;
        let mut list = self.list;
        list.push(s.to_owned());
        assert(texts(list@) =~= before.push(s@));
        Args { list }
    }

    /// Some more arguments.
    pub fn all(self, more: &[String]) -> (r: Args)
        ensures
            r@ == self@ + texts(more@),
    {
        let ghost before = self@;
        let mut list = self.list;
        assert(texts(list@) =~= before + texts(more@).take(0));
        for i in 0..more.len()
            invariant
                texts(list@) =~= before + texts(more@).take(i as int),
        {
            let ghost mid = texts(list@);
            list.push(more[i].clone());
            assert(texts(list@) =~= mid.push(more@[i as int]@));
        }
        assert(texts(more@).take(more@.len() as int) =~= texts(more@));
        Args { list }
    }

    /// The command line as a JSON value.
    pub fn json(&self) -> (j: Json)
        ensures
            j@ == text_list(self@),
    {
        text_items(&self.list)
    }
}

/// A program that is run to its end, with its limits.
pub struct Command {
    pub argv: Vec<String>,
    pub timeout_secs: u64,
    pub max_out: u64,
}

/// The view of a command.
pub struct CommandView {
    pub argv: Seq<Seq<char>>,
    pub timeout_secs: int,
    pub max_out: int,
}

impl View for Command {
    type V = CommandView;

    open spec fn view(&self) -> CommandView {
        CommandView {
            argv: texts(self.argv@),
            timeout_secs: self.timeout_secs as int,
            max_out: self.max_out as int,
        }
    }
}

/// A number moved into a range.
pub open spec fn clamped(n: int, lo: int, hi: int) -> int {
    if n < lo {
        lo
    } else if n > hi {
        hi
    } else {
        n
    }
}

/// A command line with its limits: one second to ten minutes, and 1 KiB to 2 MiB of output.
pub open spec fn limited(argv: Seq<Seq<char>>, timeout_secs: int, max_out: int) -> CommandView {
    CommandView {
        argv,
        timeout_secs: clamped(timeout_secs, 1, 600),
        max_out: clamped(max_out, 1024, 2_097_152),
    }
}

/// Moves a number into a range.
pub fn clamp(n: u64, lo: u64, hi: u64) -> (r: u64)
    requires
        lo <= hi,
    ensures
        r == clamped(n as int, lo as int, hi as int),
{
    if n < lo {
        lo
    } else if n > hi {
        hi
    } else {
        n
    }
}

/// Gives a command line its limits.
pub fn command(argv: Args, timeout_secs: u64, max_out: u64) -> (r: Command)
    ensures
        r@ == limited(argv@, timeout_secs as int, max_out as int),
{
    Command {
        argv: argv.list,
        timeout_secs: clamp(timeout_secs, 1, 600),
        max_out: clamp(max_out, 1024, 2_097_152),
    }
}

// ---------------------------------------------------------------------------
// What a program writes
// ---------------------------------------------------------------------------

/// The first bytes of what was written.
pub open spec fn first_bytes(bytes: Seq<u8>, max: nat) -> Seq<u8> {
    if bytes.len() <= max {
        bytes
    } else {
        bytes.take(max as int)
    }
}

/// The beginning of what a program writes, up to a number of bytes.
pub struct PipeBuffer {
    bytes: Vec<u8>,
    max: usize,
}

impl PipeBuffer {
    /// What is kept so far.
    pub closed spec fn kept(&self) -> Seq<u8> {
        self.bytes@
    }

    /// How many bytes are kept at most.
    pub closed spec fn max(&self) -> nat {
        self.max as nat
    }

    /// No more is kept than there is room for.
    #[verifier::type_invariant]
    spec fn within_room(&self) -> bool {
        self.bytes@.len() <= self.max
    }

    /// An empty buffer.
    pub fn new(max: usize) -> (r: PipeBuffer)
        ensures
            r.kept() == Seq::<u8>::empty(),
            r.max() == max,
    {
        PipeBuffer { bytes: Vec::new(), max }
    }

    /// Tells whether there is room for more.
    pub fn wants_more(&self) -> (r: bool)
        ensures
            r == (self.kept().len() < self.max()),
    {
        self.bytes.len() < self.max
    }

    /// Keeps what there is room for.
    pub fn take(self, chunk: &[u8]) -> (r: PipeBuffer)
        ensures
            r.max() == self.max(),
            r.kept() == first_bytes(self.kept() + chunk@, self.max()),
    {
        proof {
            use_type_invariant(&self);
        }
        let ghost before = self.bytes@;
        let max: usize = self.max;
        let mut bytes = self.bytes;
        let room: usize = max - bytes.len();
        let n: usize = if chunk.len() < room {
            chunk.len()
        } else {
            room
        };
        for i in 0..n
            invariant
                n <= chunk@.len(),
                bytes@ =~= before + chunk@.take(i as int),
        {
            bytes.push(chunk[i]);
        }
        assert(bytes@ =~= first_bytes(before + chunk@, max as nat));
        PipeBuffer { bytes, max }
    }

    /// The text of what was kept.
    pub fn text(&self) -> (r: String)
        ensures
            r@ == lossy_text(self.kept()),
            vstd::utf8::valid_utf8(self.kept()) ==> r@ == vstd::utf8::decode_utf8(self.kept()),
    {
        from_utf8_lossy(&self.bytes)
    }
}

/// Taking two chunks keeps what taking them as one would keep, so that what is kept does not depend
/// on how the output was cut.
pub proof fn law_chunks_join(before: Seq<u8>, a: Seq<u8>, b: Seq<u8>, max: nat)
    ensures
        first_bytes(first_bytes(before + a, max) + b, max) == first_bytes(before + (a + b), max),
{
    assert(first_bytes(first_bytes(before + a, max) + b, max) =~= first_bytes(
        before + (a + b),
        max,
    ));
}

// ---------------------------------------------------------------------------
// The report
// ---------------------------------------------------------------------------

/// How running a program ended.
pub enum ProcessEnd {
    /// It could not be started; the error.
    NotStarted(String),
    /// It could not be waited for; the error.
    WaitFailed(String),
    /// It ended; its exit code, where it has one, and what it wrote.
    Ended { exit_code: Option<i32>, stdout: String, stderr: String },
    /// It was stopped when its time was over; what it wrote until then.
    TimedOut { stdout: String, stderr: String },
}

/// An exit code as a JSON value.
pub open spec fn code_json(code: Option<i32>) -> JsonView {
    match code {
        Some(c) => JsonView::Int(c as int),
        None => JsonView::Null,
    }
}

/// The report on a program that ended or was stopped.
pub open spec fn run_report(
    c: CommandView,
    exit_code: Option<i32>,
    timed_out: bool,
    stdout: Seq<char>,
    stderr: Seq<char>,
) -> JsonView {
    empty_object().with(
        "status"@,
        JsonView::Text(
            if timed_out {
                "timeout"@
            } else {
                "ok"@
            },
        ),
    ).with("argv"@, text_list(c.argv)).with("exit_code"@, code_json(exit_code)).with(
        "timed_out"@,
        JsonView::Bool(timed_out),
    ).with("timeout_secs"@, JsonView::Int(c.timeout_secs)).with(
        "stdout"@,
        JsonView::Text(stdout),
    ).with("stderr"@, JsonView::Text(stderr)).with(
        "note"@,
        if byte_len(stdout) >= c.max_out || byte_len(stderr) >= c.max_out {
            JsonView::Text("saída pode estar truncada (max_output_bytes)"@)
        } else {
            JsonView::Null
        },
    )
}

/// The report on a program that was run. One that was stopped has no exit code.
pub open spec fn piped_report(c: CommandView, end: ProcessEnd) -> JsonView {
    if c.argv.len() == 0 {
        error_view("argv vazio"@)
    } else {
        match end {
            ProcessEnd::NotStarted(e) => error_view("falha ao iniciar processo: "@ + e@),
            ProcessEnd::WaitFailed(e) => error_view("wait_timeout: "@ + e@),
            ProcessEnd::Ended { exit_code, stdout, stderr } => run_report(
                c,
                exit_code,
                false,
                stdout@,
                stderr@,
            ),
            ProcessEnd::TimedOut { stdout, stderr } => run_report(c, None, true, stdout@, stderr@),
        }
    }
}

fn report(c: &Command, exit_code: Option<i32>, timed_out: bool, stdout: &str, stderr: &str) -> (j:
    Json)
    ensures
        j@ == run_report(c@, exit_code, timed_out, stdout@, stderr@),
{
    let status: &str = if timed_out {
        "timeout"
    } else {
        "ok"
    };
    let code = match exit_code {
        Some(c) => Json::Sint(c as i64),
        None => Json::Null,
    };
    let full = bytes_in(stdout) as u64 >= c.max_out || bytes_in(stderr) as u64 >= c.max_out;
    object().with("status", text(status)).with("argv", text_items(&c.argv)).with(
        "exit_code",
        code,
    ).with("timed_out", Json::Bool(timed_out)).with("timeout_secs", Json::Uint(c.timeout_secs)).with(
        "stdout",
        text(stdout),
    ).with("stderr", text(stderr)).with(
        "note",
        if full {
            text("saída pode estar truncada (max_output_bytes)")
        } else {
            Json::Null
        },
    )
}

/// Reports on a program that was run.
pub fn execute_argv_piped(c: &Command, end: &ProcessEnd) -> (j: Json)
    ensures
        j@ == piped_report(c@, *end),
{
    if c.argv.len() == 0 {
        return error("argv vazio");
    }
    match end {
        ProcessEnd::NotStarted(e) => error(
            cat("falha ao iniciar processo: ", e.as_str()).as_str(),
        ),
        ProcessEnd::WaitFailed(e) => error(cat("wait_timeout: ", e.as_str()).as_str()),
        ProcessEnd::Ended { exit_code, stdout, stderr } => report(
            c,
            *exit_code,
            false,
            stdout.as_str(),
            stderr.as_str(),
        ),
        ProcessEnd::TimedOut { stdout, stderr } => report(
            c,
            None,
            true,
            stdout.as_str(),
            stderr.as_str(),
        ),
    }
}

// ---------------------------------------------------------------------------
// The programs that may be run
// ---------------------------------------------------------------------------

/// The programs that may be run on every system, by their names in lower case without extension.
pub open spec fn allowed_everywhere(stem: Seq<char>) -> bool {
    stem == "cargo"@ || stem == "rustc"@ || stem == "rustfmt"@ || stem == "rustup"@ || stem
        == "git"@ || stem == "gh"@ || stem == "rg"@ || stem == "npm"@ || stem == "node"@ || stem
        == "python"@ || stem == "pip"@ || stem == "where"@ || stem == "which"@ || stem == "find"@
        || stem == "cat"@ || stem == "curl"@ || stem == "ssh"@ || stem == "openssl"@ || stem
        == "tesseract"@
}

/// The programs that may be run on one system.
pub open spec fn allowed_on(stem: Seq<char>, platform: Platform) -> bool {
    match platform {
        Platform::Windows => stem == "cmd"@ || stem == "powershell"@ || stem == "pwsh"@ || stem
            == "wt"@ || stem == "tasklist"@ || stem == "taskkill"@,
        Platform::MacOs => stem == "ps"@ || stem == "kill"@ || stem == "bash"@ || stem == "sh"@
            || stem == "open"@,
        Platform::OtherUnix => stem == "ps"@ || stem == "kill"@ || stem == "bash"@ || stem
            == "sh"@ || stem == "xdg-open"@ || stem == "gnome-terminal"@ || stem == "xterm"@
            || stem == "konsole"@,
        Platform::Unsupported => false,
    }
}

/// A program that may be run.
pub open spec fn allowed_stem(stem: Seq<char>, platform: Platform) -> bool {
    allowed_everywhere(stem) || allowed_on(stem, platform)
}

fn on_every_system(stem: &str) -> (r: bool)
    ensures
        r == allowed_everywhere(stem@),
{
    same(stem, "cargo") || same(stem, "rustc") || same(stem, "rustfmt") || same(stem, "rustup")
        || same(stem, "git") || same(stem, "gh") || same(stem, "rg") || same(stem, "npm") || same(
        stem,
        "node",
    ) || same(stem, "python") || same(stem, "pip") || same(stem, "where") || same(stem, "which")
        || same(stem, "find") || same(stem, "cat") || same(stem, "curl") || same(stem, "ssh")
        || same(stem, "openssl") || same(stem, "tesseract")
}

fn on_this_system(stem: &str, platform: Platform) -> (r: bool)
    ensures
        r == allowed_on(stem@, platform),
{
    match platform {
        Platform::Windows => same(stem, "cmd") || same(stem, "powershell") || same(stem, "pwsh")
            || same(stem, "wt") || same(stem, "tasklist") || same(stem, "taskkill"),
        Platform::MacOs => same(stem, "ps") || same(stem, "kill") || same(stem, "bash") || same(
            stem,
            "sh",
        ) || same(stem, "open"),
        Platform::OtherUnix => same(stem, "ps") || same(stem, "kill") || same(stem, "bash")
            || same(stem, "sh") || same(stem, "xdg-open") || same(stem, "gnome-terminal") || same(
            stem,
            "xterm",
        ) || same(stem, "konsole"),
        Platform::Unsupported => false,
    }
}

/// Tells whether a program may be run, by its name without extension.
pub fn stem_allowed(stem: &str, platform: Platform) -> (r: bool)
    ensures
        r == allowed_stem(lowered(stem@), platform),
{
    let low = lower_ascii(stem);
    on_every_system(low.as_str()) || on_this_system(low.as_str(), platform)
}

/// The name by which a program is judged: its stem where it has one.
pub open spec fn judged_name(program: Seq<char>, stem: Option<Seq<char>>) -> Seq<char> {
    match stem {
        Some(s) => s,
        None => program,
    }
}

/// What is known of the verdict on a program wherever it is given: its stem decides, whatever its
/// case.
pub open spec fn program_verdict(program: Seq<char>, platform: Platform, allowed: bool) -> bool {
    exists|stem: Option<Seq<char>>| #[trigger]
        stem_known(program, platform, stem) && allowed == allowed_stem(
            lowered(judged_name(program, stem)),
            platform,
        )
}

/// Tells whether a program may be run.
pub fn run_command_program_allowed(program: &str, platform: Platform) -> (r: bool)
    ensures
        program_verdict(program@, platform, r),
{
    let stem = path_stem(program, platform);
    let r = match &stem {
        Some(s) => stem_allowed(s.as_str(), platform),
        None => stem_allowed(program, platform),
    };
    assert(stem_known(program@, platform, optional(stem)));
    r
}

/// Where the file name follows from the path and the system, which it does for every path on Unix, the
/// verdict is a matter of that name alone, whatever the directories before it; so it is on every
/// system for a file name that is the same on each. A program that may be run has the name of a
/// listed one in it, wherever it lies.
pub proof fn law_verdict_on_programs(program: Seq<char>, platform: Platform, allowed: bool)
    requires
        program_verdict(program, platform, allowed),
    ensures
        name_fixed(program, platform) ==> allowed == allowed_stem(
            lowered(judged_name(program, stem_by_rule(program, platform))),
            platform,
        ),
        file_name_of(program) matches Some(name) ==> allowed == allowed_stem(
            lowered(stem_of(name)),
            platform,
        ),
        bare_name(program) ==> allowed == allowed_stem(lowered(stem_of(program)), platform),
        allowed ==> exists|part: Seq<char>| #[trigger]
            holds(program, part) && allowed_stem(lowered(part), platform),
{
    let stem = choose|stem: Option<Seq<char>>| #[trigger]
        stem_known(program, platform, stem) && allowed == allowed_stem(
            lowered(judged_name(program, stem)),
            platform,
        );
    if bare_name(program) {
        lemma_bare_name(program);
    }
    if allowed {
        let part = judged_name(program, stem);
        if stem is None {
            assert(program.subrange(0, program.len() as int) =~= program);
            assert(occurs_at(program, program, 0));
        }
        assert(holds(program, part) && allowed_stem(lowered(part), platform));
    }
}

/// What is said of the programs that may be run.
pub const ALLOWLIST_HINT: &'static str =
    "cargo, rustc, rustfmt, rustup, git, gh, rg, npm, node, python, pip, where, which, find, cat, curl, ssh, openssl, tesseract + extras por SO (Windows: cmd, powershell, pwsh, wt, tasklist, taskkill; macOS: +open; Linux: +ps, kill, bash, sh, xdg-open, gnome-terminal, xterm, konsole)";

/// What is said of the programs that may be run.
pub fn run_command_allowlist_hint() -> (r: &'static str)
    ensures
        r@ == ALLOWLIST_HINT@,
{
    ALLOWLIST_HINT
}

// ---------------------------------------------------------------------------
// Running a program to its end
// ---------------------------------------------------------------------------

/// The limits that a call asks for: one second to five minutes, and 1 KiB to 1 MiB of output.
pub open spec fn asked_command(input: JsonView) -> CommandView {
    limited(
        input.texts_at("argv"@),
        input.uint_clamped("timeout_secs"@, 60, 1, 300),
        input.uint_clamped("max_output_bytes"@, 262_144, 1024, 1_048_576),
    )
}

/// The answer to a call that runs a program.
pub open spec fn run_answer(r: Result<Command, Json>, input: JsonView, platform: Platform) -> bool {
    let argv = input.texts_at("argv"@);
    match r {
        Ok(c) => argv.len() > 0 && program_verdict(argv[0], platform, true) && c@ == asked_command(
            input,
        ),
        Err(e) => if argv.len() == 0 {
            e@ == error_view("argv deve ser array não vazio: [\"cargo\", \"build\", ...]"@)
        } else {
            program_verdict(argv[0], platform, false) && e@ == error_view(
                "programa não permitido pela lista branca: "@ + argv[0] + ". "@ + ALLOWLIST_HINT@,
            )
        },
    }
}

/// Decides what program is to be run.
pub fn run_command(input: &Json, platform: Platform) -> (r: Result<Command, Json>)
    ensures
        run_answer(r, input@, platform),
{
    let argv = input.texts_at("argv");
    assert(argv@.len() == input@.texts_at("argv"@).len());
    if argv.len() == 0 {
        return Err(error("argv deve ser array não vazio: [\"cargo\", \"build\", ...]"));
    }
    assert(argv@[0]@ == input@.texts_at("argv"@)[0]);
    let program = argv[0].as_str();
    if !run_command_program_allowed(program, platform) {
        let m = cat("programa não permitido pela lista branca: ", program);
        let m = cat(cat(m.as_str(), ". ").as_str(), run_command_allowlist_hint());
        return Err(error(m.as_str()));
    }
    let timeout_secs: u64 = input.uint_clamped("timeout_secs", 60, 1, 300);
    let max_out: u64 = input.uint_clamped("max_output_bytes", 262_144, 1024, 1_048_576);
    Ok(command(Args { list: argv }, timeout_secs, max_out))
}

/// What is run is just what was asked for: the command line is unchanged, its program is on the
/// list, and it has at most five minutes and 1 MiB.
pub proof fn law_run_as_asked(c: Command, input: JsonView, platform: Platform)
    requires
        run_answer(Ok(c), input, platform),
    ensures
        c@.argv == input.texts_at("argv"@),
        name_fixed(c@.argv[0], platform) ==> allowed_stem(
            lowered(judged_name(c@.argv[0], stem_by_rule(c@.argv[0], platform))),
            platform,
        ),
        file_name_of(c@.argv[0]) matches Some(name) ==> allowed_stem(
            lowered(stem_of(name)),
            platform,
        ),
        bare_name(c@.argv[0]) ==> allowed_stem(lowered(stem_of(c@.argv[0])), platform),
        1 <= c@.timeout_secs <= 300,
        1024 <= c@.max_out <= 1_048_576,
{
    law_verdict_on_programs(c@.argv[0], platform, true);
}

// ---------------------------------------------------------------------------
// Starting a program
// ---------------------------------------------------------------------------

/// A program that is started and left to itself.
pub struct Detached {
    pub argv: Vec<String>,
    pub new_console: bool,
}

/// The flags under which Windows starts a program.
pub fn command_creation_flags(new_console: bool) -> (r: u32)
    ensures
        r == if new_console {
            0x10u32
        } else {
            0u32
        },
{
    if new_console {
        0x0000_0010
    } else {
        0
    }
}

/// The answer to a call that starts a program.
pub open spec fn detach_answer(
    r: Result<Detached, Json>,
    input: JsonView,
    platform: Platform,
) -> bool {
    let argv = input.texts_at("argv"@);
    match r {
        Ok(d) => argv.len() > 0 && program_verdict(argv[0], platform, true) && texts(d.argv@)
            == argv && d.new_console == input.bool_or("new_console"@, false),
        Err(e) => if argv.len() == 0 {
            e@ == error_view("argv deve ser array não vazio"@)
        } else {
            program_verdict(argv[0], platform, false) && e@ == error_view(
                "programa não permitido: "@ + argv[0] + ". "@ + ALLOWLIST_HINT@,
            )
        },
    }
}

/// Decides what program is to be started.
pub fn run_detached(input: &Json, platform: Platform) -> (r: Result<Detached, Json>)
    ensures
        detach_answer(r, input@, platform),
{
    let argv = input.texts_at("argv");
    assert(argv@.len() == input@.texts_at("argv"@).len());
    if argv.len() == 0 {
        return Err(error("argv deve ser array não vazio"));
    }
    assert(argv@[0]@ == input@.texts_at("argv"@)[0]);
    let program = argv[0].as_str();
    if !run_command_program_allowed(program, platform) {
        let m = cat("programa não permitido: ", program);
        let m = cat(cat(m.as_str(), ". ").as_str(), run_command_allowlist_hint());
        return Err(error(m.as_str()));
    }
    Ok(Detached { argv, new_console: input.bool_or("new_console", false) })
}

/// What starting a program gave: its number, or the message of the error.
pub open spec fn started_view(started: Result<u32, String>) -> Result<u32, Seq<char>> {
    match started {
        Ok(pid) => Ok(pid),
        Err(e) => Err("falha ao spawn: "@ + e@),
    }
}

/// Says what starting a program gave.
pub fn spawn_process_detached(started: &Result<u32, String>) -> (r: Result<u32, String>)
    ensures
        match r {
            Ok(pid) => started_view(*started) == Ok::<u32, Seq<char>>(pid),
            Err(e) => started_view(*started) == Err::<u32, Seq<char>>(e@),
        },
{
    match started {
        Ok(pid) => Ok(*pid),
        Err(e) => Err(cat("falha ao spawn: ", e.as_str())),
    }
}

/// The reply to starting a program.
pub open spec fn detached_view(
    argv: Seq<Seq<char>>,
    new_console: bool,
    started: Result<u32, Seq<char>>,
) -> JsonView {
    match started {
        Ok(pid) => ok_view().with("pid"@, JsonView::Int(pid as int)).with(
            "argv"@,
            text_list(argv),
        ).with("new_console"@, JsonView::Bool(new_console)).with(
            "note"@,
            JsonView::Text(
                "Um thread interno faz wait() para evitar zumbi; stdout/stderr foram descartados."@,
            ),
        ),
        Err(e) => error_view(e),
    }
}

/// Tells how starting a program went.
pub fn detached(d: &Detached, started: &Result<u32, String>) -> (j: Json)
    ensures
        j@ == detached_view(texts(d.argv@), d.new_console, started_view(*started)),
{
    match spawn_process_detached(started) {
        Ok(pid) => ok().with("pid", Json::Uint(pid as u64)).with(
            "argv",
            text_items(&d.argv),
        ).with("new_console", Json::Bool(d.new_console)).with(
            "note",
            text(
                "Um thread interno faz wait() para evitar zumbi; stdout/stderr foram descartados.",
            ),
        ),
        Err(e) => error(e.as_str()),
    }
}

// ---------------------------------------------------------------------------
// Laws on replies and limits
// ---------------------------------------------------------------------------

/// What a program wrote, how it ended and what was run stand in the reply under their own names.
pub proof fn law_report_fields(c: CommandView, end: ProcessEnd)
    requires
        c.argv.len() > 0,
    ensures
        ({
            let r = piped_report(c, end);
            match end {
                ProcessEnd::Ended { exit_code, stdout, stderr } => {
                    &&& r.get("status"@) == Some(JsonView::Text("ok"@))
                    &&& r.get("timed_out"@) == Some(JsonView::Bool(false))
                    &&& r.get("exit_code"@) == Some(
                        match exit_code {
                            Some(n) => JsonView::Int(n as int),
                            None => JsonView::Null,
                        },
                    )
                    &&& r.get("stdout"@) == Some(JsonView::Text(stdout@))
                    &&& r.get("stderr"@) == Some(JsonView::Text(stderr@))
                    &&& r.get("argv"@) == Some(text_list(c.argv))
                    &&& r.get("timeout_secs"@) == Some(JsonView::Int(c.timeout_secs))
                    &&& r.at("note"@) is Text <==> (vstd::utf8::encode_utf8(stdout@).len()
                        >= c.max_out || vstd::utf8::encode_utf8(stderr@).len() >= c.max_out)
                },
                ProcessEnd::TimedOut { stdout, stderr } => {
                    &&& r.get("status"@) == Some(JsonView::Text("timeout"@))
                    &&& r.get("timed_out"@) == Some(JsonView::Bool(true))
                    &&& r.get("exit_code"@) == Some(JsonView::Null)
                    &&& r.get("stdout"@) == Some(JsonView::Text(stdout@))
                    &&& r.get("stderr"@) == Some(JsonView::Text(stderr@))
                    &&& r.get("argv"@) == Some(text_list(c.argv))
                    &&& r.get("timeout_secs"@) == Some(JsonView::Int(c.timeout_secs))
                    &&& r.at("note"@) is Text <==> (vstd::utf8::encode_utf8(stdout@).len()
                        >= c.max_out || vstd::utf8::encode_utf8(stderr@).len() >= c.max_out)
                },
                ProcessEnd::NotStarted(e) => {
                    &&& r.get("status"@) == Some(JsonView::Text("error"@))
                    &&& r.get("error"@) == Some(
                        JsonView::Text("falha ao iniciar processo: "@ + e@),
                    )
                },
                ProcessEnd::WaitFailed(e) => {
                    &&& r.get("status"@) == Some(JsonView::Text("error"@))
                    &&& r.get("error"@) == Some(JsonView::Text("wait_timeout: "@ + e@))
                },
            }
        }),
{
    reveal_strlit("status");
    assert("status"@.len() == 6);
    reveal_strlit("argv");
    assert("argv"@.len() == 4);
    reveal_strlit("exit_code");
    assert("exit_code"@.len() == 9);
    reveal_strlit("timed_out");
    assert("timed_out"@.len() == 9);
    reveal_strlit("timeout_secs");
    assert("timeout_secs"@.len() == 12);
    reveal_strlit("stdout");
    assert("stdout"@.len() == 6);
    reveal_strlit("stderr");
    assert("stderr"@.len() == 6);
    reveal_strlit("note");
    assert("note"@.len() == 4);
    reveal_strlit("error");
    assert("error"@.len() == 5);
    assert("status"@[2] != "stdout"@[2]);
    assert("status"@[2] != "stderr"@[2]);
    assert("argv"@[0] != "note"@[0]);
    assert("exit_code"@[0] != "timed_out"@[0]);
    assert("stdout"@[3] != "stderr"@[3]);
}

/// The number of a program that was started and its command line stand in the reply.
pub proof fn law_detached_fields(
    argv: Seq<Seq<char>>,
    new_console: bool,
    pid: u32,
    message: Seq<char>,
)
    ensures
        ({
            let r = detached_view(argv, new_console, Ok(pid));
            &&& r.get("status"@) == Some(JsonView::Text("ok"@))
            &&& r.get("pid"@) == Some(JsonView::Int(pid as int))
            &&& r.get("argv"@) == Some(text_list(argv))
            &&& r.get("new_console"@) == Some(JsonView::Bool(new_console))
        }),
        detached_view(argv, new_console, Err(message)) == error_view(message),
{
    reveal_strlit("status");
    assert("status"@.len() == 6);
    reveal_strlit("pid");
    assert("pid"@.len() == 3);
    reveal_strlit("argv");
    assert("argv"@.len() == 4);
    reveal_strlit("new_console");
    assert("new_console"@.len() == 11);
    reveal_strlit("note");
    assert("note"@.len() == 4);
    assert("argv"@[0] != "note"@[0]);
}

/// The limits that a call names are kept as far as they are bearable: one second to five minutes, and
/// 1 KiB to 1 MiB of output; without them a program has a minute and 256 KiB.
pub proof fn law_asked_limits(input: JsonView)
    ensures
        asked_command(input).argv == input.texts_at("argv"@),
        match input.get("timeout_secs"@) {
            Some(JsonView::Int(n)) => if 1 <= n <= 300 {
                asked_command(input).timeout_secs == n
            } else {
                1 <= asked_command(input).timeout_secs <= 300
            },
            _ => asked_command(input).timeout_secs == 60,
        },
        match input.get("max_output_bytes"@) {
            Some(JsonView::Int(n)) => if 1024 <= n <= 1024 * 1024 {
                asked_command(input).max_out == n
            } else {
                1024 <= asked_command(input).max_out <= 1024 * 1024
            },
            _ => asked_command(input).max_out == 256 * 1024,
        },
{
}

/// Limits that are within what any command may have stay as they are.
pub proof fn law_limits_are_kept(argv: Seq<Seq<char>>, timeout_secs: int, max_out: int)
    ensures
        limited(argv, timeout_secs, max_out).argv == argv,
        1 <= timeout_secs <= 600 ==> limited(argv, timeout_secs, max_out).timeout_secs
            == timeout_secs,
        1024 <= max_out <= 2 * 1024 * 1024 ==> limited(argv, timeout_secs, max_out).max_out
            == max_out,
        1 <= limited(argv, timeout_secs, max_out).timeout_secs <= 600,
        1024 <= limited(argv, timeout_secs, max_out).max_out <= 2 * 1024 * 1024,
{
}

/// What is kept of an output is a beginning of it: all of it where there is room, and elsewhere as
/// much as there is room for.
pub proof fn law_kept_is_a_beginning(bytes: Seq<u8>, max: nat)
    ensures
        first_bytes(bytes, max).len() == if bytes.len() < max {
            bytes.len()
        } else {
            max
        },
        forall|i: int|
            0 <= i < first_bytes(bytes, max).len() ==> #[trigger] first_bytes(bytes, max)[i]
                == bytes[i],
{
}

/// The programs that may be run are just these: the first list on every system, and one more list on
/// each of three.
pub proof fn law_listed_programs(stem: Seq<char>)
    ensures
        allowed_stem(stem, Platform::Unsupported) <==> seq![
            "cargo"@,
            "rustc"@,
            "rustfmt"@,
            "rustup"@,
            "git"@,
            "gh"@,
            "rg"@,
            "npm"@,
            "node"@,
            "python"@,
            "pip"@,
            "where"@,
            "which"@,
            "find"@,
            "cat"@,
            "curl"@,
            "ssh"@,
            "openssl"@,
            "tesseract"@,
        ].contains(stem),
        allowed_stem(stem, Platform::Windows) <==> allowed_stem(stem, Platform::Unsupported) || seq![
            "cmd"@,
            "powershell"@,
            "pwsh"@,
            "wt"@,
            "tasklist"@,
            "taskkill"@,
        ].contains(stem),
        allowed_stem(stem, Platform::MacOs) <==> allowed_stem(stem, Platform::Unsupported) || seq![
            "ps"@,
            "kill"@,
            "bash"@,
            "sh"@,
            "open"@,
        ].contains(stem),
        allowed_stem(stem, Platform::OtherUnix) <==> allowed_stem(stem, Platform::Unsupported) || seq![
            "ps"@,
            "kill"@,
            "bash"@,
            "sh"@,
            "xdg-open"@,
            "gnome-terminal"@,
            "xterm"@,
            "konsole"@,
        ].contains(stem),
{
    let all = seq![
        "cargo"@,
        "rustc"@,
        "rustfmt"@,
        "rustup"@,
        "git"@,
        "gh"@,
        "rg"@,
        "npm"@,
        "node"@,
        "python"@,
        "pip"@,
        "where"@,
        "which"@,
        "find"@,
        "cat"@,
        "curl"@,
        "ssh"@,
        "openssl"@,
        "tesseract"@,
    ];
    assert(all[0] == "cargo"@);
    assert(all[1] == "rustc"@);
    assert(all[2] == "rustfmt"@);
    assert(all[3] == "rustup"@);
    assert(all[4] == "git"@);
    assert(all[5] == "gh"@);
    assert(all[6] == "rg"@);
    assert(all[7] == "npm"@);
    assert(all[8] == "node"@);
    assert(all[9] == "python"@);
    assert(all[10] == "pip"@);
    assert(all[11] == "where"@);
    assert(all[12] == "which"@);
    assert(all[13] == "find"@);
    assert(all[14] == "cat"@);
    assert(all[15] == "curl"@);
    assert(all[16] == "ssh"@);
    assert(all[17] == "openssl"@);
    assert(all[18] == "tesseract"@);
    let windows = seq![
        "cmd"@,
        "powershell"@,
        "pwsh"@,
        "wt"@,
        "tasklist"@,
        "taskkill"@,
    ];
    assert(windows[0] == "cmd"@);
    assert(windows[1] == "powershell"@);
    assert(windows[2] == "pwsh"@);
    assert(windows[3] == "wt"@);
    assert(windows[4] == "tasklist"@);
    assert(windows[5] == "taskkill"@);
    let mac = seq![
        "ps"@,
        "kill"@,
        "bash"@,
        "sh"@,
        "open"@,
    ];
    assert(mac[0] == "ps"@);
    assert(mac[1] == "kill"@);
    assert(mac[2] == "bash"@);
    assert(mac[3] == "sh"@);
    assert(mac[4] == "open"@);
    let unix = seq![
        "ps"@,
        "kill"@,
        "bash"@,
        "sh"@,
        "xdg-open"@,
        "gnome-terminal"@,
        "xterm"@,
        "konsole"@,
    ];
    assert(unix[0] == "ps"@);
    assert(unix[1] == "kill"@);
    assert(unix[2] == "bash"@);
    assert(unix[3] == "sh"@);
    assert(unix[4] == "xdg-open"@);
    assert(unix[5] == "gnome-terminal"@);
    assert(unix[6] == "xterm"@);
    assert(unix[7] == "konsole"@);
}

/// A program on the list is run, with the command line of the call, and started where it is to be left
/// to itself; any other is refused, and the refusal names it.
pub proof fn law_run_is_owed(
    r: Result<Command, Json>,
    d: Result<Detached, Json>,
    input: JsonView,
    platform: Platform,
)
    requires
        run_answer(r, input, platform),
        detach_answer(d, input, platform),
    ensures
        ({
            let argv = input.texts_at("argv"@);
            let name = judged_name(argv[0], stem_by_rule(argv[0], platform));
            let listed = allowed_stem(lowered(name), platform);
            &&& argv.len() == 0 ==> r is Err && d is Err
            &&& argv.len() > 0 && name_fixed(argv[0], platform) ==> (r is Ok <==> listed) && (d is Ok
                <==> listed)
            &&& r matches Ok(c) ==> c@.argv == argv
            &&& d matches Ok(x) ==> texts(x.argv@) == argv && x.new_console == (input.get(
                "new_console"@,
            ) == Some(JsonView::Bool(true)))
            &&& argv.len() > 0 ==> (r matches Err(e) ==> e@.get("error"@) == Some(
                JsonView::Text(
                    "programa não permitido pela lista branca: "@ + argv[0] + ". "@ + ALLOWLIST_HINT@,
                ),
            ))
            &&& argv.len() > 0 ==> (d matches Err(e) ==> e@.get("error"@) == Some(
                JsonView::Text("programa não permitido: "@ + argv[0] + ". "@ + ALLOWLIST_HINT@),
            ))
        }),
{
    reveal_strlit("status");
    assert("status"@.len() == 6);
    reveal_strlit("error");
    assert("error"@.len() == 5);
    let argv = input.texts_at("argv"@);
    if argv.len() > 0 {
        law_verdict_on_programs(argv[0], platform, r is Ok);
        law_verdict_on_programs(argv[0], platform, d is Ok);
    }
}

/// A program that was started has its number, and one that was not the message of the error.
pub proof fn law_started(started: Result<u32, String>)
    ensures
        started matches Ok(pid) ==> started_view(started) == Ok::<u32, Seq<char>>(pid),
        started matches Err(e) ==> started_view(started) == Err::<u32, Seq<char>>(
            "falha ao spawn: "@ + e@,
        ),
{
}

/// A limit that is not bearable is moved to the nearest that is.
pub proof fn law_limits_are_moved(
    input: JsonView,
    argv: Seq<Seq<char>>,
    timeout_secs: int,
    max_out: int,
)
    ensures
        input.get("timeout_secs"@) == Some(JsonView::Int(timeout_secs)) ==> {
            &&& 300 < timeout_secs <= u64::MAX ==> asked_command(input).timeout_secs == 300
            &&& timeout_secs == 0 ==> asked_command(input).timeout_secs == 1
            &&& timeout_secs < 0 ==> asked_command(input).timeout_secs == 60
        },
        input.get("max_output_bytes"@) == Some(JsonView::Int(max_out)) ==> {
            &&& 1024 * 1024 < max_out <= u64::MAX ==> asked_command(input).max_out == 1024 * 1024
            &&& 0 <= max_out < 1024 ==> asked_command(input).max_out == 1024
            &&& max_out < 0 ==> asked_command(input).max_out == 256 * 1024
        },
        timeout_secs > 600 ==> limited(argv, timeout_secs, max_out).timeout_secs == 600,
        timeout_secs < 1 ==> limited(argv, timeout_secs, max_out).timeout_secs == 1,
        max_out > 2 * 1024 * 1024 ==> limited(argv, timeout_secs, max_out).max_out == 2 * 1024
            * 1024,
        max_out < 1024 ==> limited(argv, timeout_secs, max_out).max_out == 1024,
{
}

/// A command line without a program is answered with an error, whatever came of it.
pub proof fn law_nothing_to_run(c: CommandView, end: ProcessEnd)
    requires
        c.argv.len() == 0,
    ensures
        piped_report(c, end).get("status"@) == Some(JsonView::Text("error"@)),
{
    reveal_strlit("status");
    assert("status"@.len() == 6);
    reveal_strlit("error");
    assert("error"@.len() == 5);
}

} // verus!
