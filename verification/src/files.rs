//! The tools that read and write files. The host touches the disk; what it is asked to do and what
//! is replied is decided here.
use crate::command::Platform;
use crate::json::{law_texts_come_back, text, text_items, text_list, Json, JsonView};
use crate::order::{law_sorted, sort_texts, sorted, text_leq};
use crate::paths::{
    accepted_unless, path_absolute, path_accepted, path_blocked, path_plain, path_verdict,
    relative_path, verdict_fixed,
};
use crate::reply::{error, error_view, law_error_fields, ok, ok_view, outcome_view, read_view};
use crate::text::{byte_len, bytes_in, holds, texts};
use vstd::prelude::*;

verus! {

/// The largest file that is read, in bytes.
pub const MAX_READ_BYTES: u64 = 524_288;

/// The number of directory entries that are shown of the working directory.
pub const SAMPLE_ENTRIES: usize = 100;

/// The answer to the path `raw` of a tool call: the path itself, or the reply that refuses it.
pub open spec fn path_answer(
    r: Result<String, Json>,
    raw: Seq<char>,
    platform: Platform,
    message: Seq<char>,
) -> bool {
    match r {
        Ok(p) => p@ == raw && path_verdict(raw, platform, true),
        Err(e) => e@ == error_view(message) && path_verdict(raw, platform, false),
    }
}

fn checked_path(raw: &str, platform: Platform, message: &str) -> (r: Result<String, Json>)
    ensures
        path_answer(r, raw@, platform, message@),
{
    if path_accepted(raw, platform) {
        Ok(raw.to_owned())
    } else {
        Err(error(message))
    }
}

// ---------------------------------------------------------------------------
// Writing
// ---------------------------------------------------------------------------

/// A file and what is to be written to it.
pub struct FileText {
    pub path: String,
    pub content: String,
}

/// The answer to a call that writes to a file.
pub open spec fn write_answer(
    r: Result<FileText, Json>,
    input: JsonView,
    platform: Platform,
    message: Seq<char>,
) -> bool {
    let raw = input.text_or("filename"@, "file.txt"@);
    match r {
        Ok(f) => f.path@ == raw && f.content@ == input.text_or("content"@, ""@) && path_verdict(
            raw,
            platform,
            true,
        ),
        Err(e) => e@ == error_view(message) && path_verdict(raw, platform, false),
    }
}

/// The file that a call writes and its content, or why it is refused. `absolute` is the verdict of the
/// host on the path.
pub open spec fn write_request(input: JsonView, absolute: bool) -> Result<
    (Seq<char>, Seq<char>),
    Seq<char>,
> {
    let raw = input.text_or("filename"@, "file.txt"@);
    if accepted_unless(raw, absolute) {
        Ok((raw, input.text_or("content"@, ""@)))
    } else {
        Err("caminho inválido (use relativo, sem ..)"@)
    }
}

/// Decides what file is to be written, given whether its path is absolute.
pub fn write_file_with(input: &Json, absolute: bool) -> (r: Result<FileText, Json>)
    ensures
        match (r, write_request(input@, absolute)) {
            (Ok(f), Ok((path, content))) => f.path@ == path && f.content@ == content,
            (Err(e), Err(m)) => e@ == error_view(m),
            _ => false,
        },
{
    match relative_path(input.text_or("filename", "file.txt"), absolute) {
        Some(path) => Ok(FileText { path, content: input.text_or("content", "").to_owned() }),
        None => Err(error("caminho inválido (use relativo, sem ..)")),
    }
}

/// Decides what file is to be written.
pub fn write_file(input: &Json, platform: Platform) -> (r: Result<FileText, Json>)
    ensures
        write_answer(r, input@, platform, "caminho inválido (use relativo, sem ..)"@),
{
    let absolute = path_absolute(input.text_or("filename", "file.txt"), platform);
    write_file_with(input, absolute)
}

/// The reply to writing a file.
pub open spec fn file_written_view(
    path: Seq<char>,
    content: Seq<char>,
    existed: bool,
    outcome: Result<(), Seq<char>>,
) -> JsonView {
    match outcome {
        Ok(()) => ok_view().with("file"@, JsonView::Text(path)).with(
            "existed_before"@,
            JsonView::Bool(existed),
        ).with("bytes_written"@, JsonView::Int(byte_len(content) as int)).with(
            "hint"@,
            JsonView::Text(
                "Se o objetivo era só criar/atualizar este arquivo uma vez, NÃO chame write_file de novo no mesmo filename neste turno; confirme ao usuário em texto ou use read_file/path_info se precisar validar."@,
            ),
        ),
        Err(e) => error_view(e),
    }
}

/// Tells how writing a file went.
pub fn file_written(f: &FileText, existed: bool, outcome: &Result<(), String>) -> (j: Json)
    ensures
        j@ == file_written_view(f.path@, f.content@, existed, outcome_view(*outcome)),
{
    match outcome {
        Ok(()) => ok().with("file", text(f.path.as_str())).with(
            "existed_before",
            Json::Bool(existed),
        ).with("bytes_written", Json::Uint(bytes_in(f.content.as_str()) as u64)).with(
            "hint",
            text(
                "Se o objetivo era só criar/atualizar este arquivo uma vez, NÃO chame write_file de novo no mesmo filename neste turno; confirme ao usuário em texto ou use read_file/path_info se precisar validar.",
            ),
        ),
        Err(e) => error(e.as_str()),
    }
}

/// Decides what file is to be continued.
pub fn append_file(input: &Json, platform: Platform) -> (r: Result<FileText, Json>)
    ensures
        write_answer(r, input@, platform, "caminho inválido"@),
{
    match checked_path(input.text_or("filename", "file.txt"), platform, "caminho inválido") {
        Ok(path) => Ok(FileText { path, content: input.text_or("content", "").to_owned() }),
        Err(e) => Err(e),
    }
}

/// The reply to continuing a file.
pub open spec fn file_appended_view(path: Seq<char>, outcome: Result<(), Seq<char>>) -> JsonView {
    match outcome {
        Ok(()) => ok_view().with("file"@, JsonView::Text(path)),
        Err(e) => error_view(e),
    }
}

/// Tells how continuing a file went.
pub fn file_appended(f: &FileText, outcome: &Result<(), String>) -> (j: Json)
    ensures
        j@ == file_appended_view(f.path@, outcome_view(*outcome)),
{
    match outcome {
        Ok(()) => ok().with("file", text(f.path.as_str())),
        Err(e) => error(e.as_str()),
    }
}

// ---------------------------------------------------------------------------
// Reading
// ---------------------------------------------------------------------------

/// The file that a call reads, or why it is refused. `absolute` is the verdict of the host on the path.
pub open spec fn read_request(input: JsonView, absolute: bool) -> Result<Seq<char>, Seq<char>> {
    let raw = input.text_or("filename"@, ""@);
    if accepted_unless(raw, absolute) {
        Ok(raw)
    } else {
        Err("caminho inválido"@)
    }
}

/// Decides what file is to be read, given whether its path is absolute.
pub fn read_file_with(input: &Json, absolute: bool) -> (r: Result<String, Json>)
    ensures
        match (r, read_request(input@, absolute)) {
            (Ok(p), Ok(path)) => p@ == path,
            (Err(e), Err(m)) => e@ == error_view(m),
            _ => false,
        },
{
    match relative_path(input.text_or("filename", ""), absolute) {
        Some(path) => Ok(path),
        None => Err(error("caminho inválido")),
    }
}

/// Decides what file is to be read.
pub fn read_file(input: &Json, platform: Platform) -> (r: Result<String, Json>)
    ensures
        path_answer(r, input@.text_or("filename"@, ""@), platform, "caminho inválido"@),
{
    let absolute = path_absolute(input.text_or("filename", ""), platform);
    read_file_with(input, absolute)
}

/// Why a file of this size, or one whose size is not known, is not read.
pub open spec fn read_refusal_view(size: Result<u64, Seq<char>>) -> Option<Seq<char>> {
    match size {
        Ok(n) => if n > MAX_READ_BYTES {
            Some("arquivo muito grande (>512KiB)"@)
        } else {
            None
        },
        Err(e) => Some(e),
    }
}

/// What the host found of the size of a file.
pub open spec fn size_found(size: Result<u64, String>) -> Result<u64, Seq<char>> {
    match size {
        Ok(n) => Ok(n),
        Err(e) => Err(e@),
    }
}

/// Refuses a file that is too large or whose size is not known.
pub fn read_refusal(size: &Result<u64, String>) -> (r: Option<Json>)
    ensures
        match (r, read_refusal_view(size_found(*size))) {
            (Some(e), Some(m)) => e@ == error_view(m),
            (None, None) => true,
            _ => false,
        },
{
    match size {
        Ok(n) => if *n > MAX_READ_BYTES {
            Some(error("arquivo muito grande (>512KiB)"))
        } else {
            None
        },
        Err(e) => Some(error(e.as_str())),
    }
}

/// The reply to reading a file.
pub open spec fn file_read_view(path: Seq<char>, content: Result<Seq<char>, Seq<char>>) -> JsonView {
    match content {
        Ok(s) => ok_view().with("file"@, JsonView::Text(path)).with("content"@, JsonView::Text(s)),
        Err(e) => error_view(e),
    }
}

/// Tells what was read from a file.
pub fn file_read(path: &str, content: &Result<String, String>) -> (j: Json)
    ensures
        j@ == file_read_view(path@, read_view(*content)),
{
    match content {
        Ok(s) => ok().with("file", text(path)).with("content", text(s.as_str())),
        Err(e) => error(e.as_str()),
    }
}

// ---------------------------------------------------------------------------
// Directories
// ---------------------------------------------------------------------------

/// Decides what directory is to be listed.
pub fn list_dir(input: &Json, platform: Platform) -> (r: Result<String, Json>)
    ensures
        path_answer(r, input@.text_or("dirname"@, "."@), platform, "caminho inválido"@),
{
    checked_path(input.text_or("dirname", "."), platform, "caminho inválido")
}

/// What the host found in a directory.
pub open spec fn names_found(names: Result<Vec<String>, String>) -> Result<
    Seq<Seq<char>>,
    Seq<char>,
> {
    match names {
        Ok(v) => Ok(texts(v@)),
        Err(e) => Err(e@),
    }
}

/// The reply to listing a directory: the names in it, in order.
pub open spec fn dir_listed_view(
    dirname: Seq<char>,
    names: Result<Seq<Seq<char>>, Seq<char>>,
) -> JsonView {
    match names {
        Ok(v) => ok_view().with("dirname"@, JsonView::Text(dirname)).with(
            "entries"@,
            text_list(sorted(v)),
        ),
        Err(e) => error_view(e),
    }
}

/// Tells what is in a directory.
pub fn dir_listed(dirname: &str, names: Result<Vec<String>, String>) -> (j: Json)
    ensures
        j@ == dir_listed_view(dirname@, names_found(names)),
{
    match names {
        Ok(v) => ok().with("dirname", text(dirname)).with("entries", text_items(&sort_texts(v))),
        Err(e) => error(e.as_str()),
    }
}

/// The first entries of a list.
pub open spec fn sample(list: Seq<Seq<char>>) -> Seq<Seq<char>> {
    if list.len() <= SAMPLE_ENTRIES {
        list
    } else {
        list.take(SAMPLE_ENTRIES as int)
    }
}

/// The reply on the working directory.
pub open spec fn workspace_view(cwd: Seq<char>, names: Seq<Seq<char>>) -> JsonView {
    ok_view().with("cwd"@, JsonView::Text(cwd)).with(
        "entries_sample"@,
        text_list(sample(sorted(names))),
    ).with(
        "note"@,
        JsonView::Text(
            "Todos os caminhos em read_file/write_file/list_dir/path_info são relativos a este cwd (sem ..)."@,
        ),
    )
}

/// Tells where the agent works and what is there.
pub fn workspace_context(cwd: &str, names: Vec<String>) -> (j: Json)
    ensures
        j@ == workspace_view(cwd@, texts(names@)),
{
    let mut entries = sort_texts(names);
    let ghost all = texts(entries@);
    if entries.len() > SAMPLE_ENTRIES {
        entries.truncate(SAMPLE_ENTRIES);
    }
    assert(texts(entries@) =~= sample(all));
    ok().with("cwd", text(cwd)).with("entries_sample", text_items(&entries)).with(
        "note",
        text(
            "Todos os caminhos em read_file/write_file/list_dir/path_info são relativos a este cwd (sem ..).",
        ),
    )
}

// ---------------------------------------------------------------------------
// Facts about a path
// ---------------------------------------------------------------------------

/// Decides what path is to be looked at.
pub fn path_info(input: &Json, platform: Platform) -> (r: Result<String, Json>)
    ensures
        path_answer(
            r,
            input@.text_or("path"@, ""@),
            platform,
            "caminho inválido (vazio, .. ou absoluto)"@,
        ),
{
    checked_path(input.text_or("path", ""), platform, "caminho inválido (vazio, .. ou absoluto)")
}

/// What the host found at a path.
pub enum PathFound {
    /// It is there.
    Facts { is_file: bool, is_dir: bool, size: u64, modified_ms: Option<u64> },
    /// There is nothing.
    Nothing,
    /// It cannot be looked at; the error.
    Failed(String),
}

/// The reply on a path.
pub open spec fn path_described_view(path: Seq<char>, found: PathFound) -> JsonView {
    match found {
        PathFound::Facts { is_file, is_dir, size, modified_ms } => ok_view().with(
            "path"@,
            JsonView::Text(path),
        ).with("exists"@, JsonView::Bool(true)).with("is_file"@, JsonView::Bool(is_file)).with(
            "is_dir"@,
            JsonView::Bool(is_dir),
        ).with("size_bytes"@, JsonView::Int(size as int)).with(
            "modified_ms"@,
            match modified_ms {
                Some(ms) => JsonView::Int(ms as int),
                None => JsonView::Null,
            },
        ),
        PathFound::Nothing => ok_view().with("path"@, JsonView::Text(path)).with(
            "exists"@,
            JsonView::Bool(false),
        ),
        PathFound::Failed(e) => error_view(e@),
    }
}

/// Tells what is at a path.
pub fn path_described(path: &str, found: &PathFound) -> (j: Json)
    ensures
        j@ == path_described_view(path@, *found),
{
    match found {
        PathFound::Facts { is_file, is_dir, size, modified_ms } => ok().with(
            "path",
            text(path),
        ).with("exists", Json::Bool(true)).with("is_file", Json::Bool(*is_file)).with(
            "is_dir",
            Json::Bool(*is_dir),
        ).with("size_bytes", Json::Uint(*size)).with(
            "modified_ms",
            match modified_ms {
                Some(ms) => Json::Uint(*ms),
                None => Json::Null,
            },
        ),
        PathFound::Nothing => ok().with("path", text(path)).with("exists", Json::Bool(false)),
        PathFound::Failed(e) => error(e.as_str()),
    }
}

// ---------------------------------------------------------------------------
// Laws
// ---------------------------------------------------------------------------

/// The reply to reading a file of this size with this content.
pub open spec fn read_reply(
    path: Seq<char>,
    size: Result<u64, Seq<char>>,
    content: Result<Seq<char>, Seq<char>>,
) -> JsonView {
    match read_refusal_view(size) {
        Some(m) => error_view(m),
        None => file_read_view(path, content),
    }
}

/// What was written is read back: where a call that writes is accepted, a call that reads the same
/// name under the same verdict of the host is, and a file that holds what was written is given back
/// whole, or refused for its size without any of it.
pub proof fn law_written_is_read(written: JsonView, read: JsonView, absolute: bool, size: u64)
    requires
        write_request(written, absolute) is Ok,
        read.text_or("filename"@, ""@) == written.text_or("filename"@, "file.txt"@),
        size == byte_len(written.text_or("content"@, ""@)),
    ensures
        ({
            let (path, content) = write_request(written, absolute)->Ok_0;
            let reply = read_reply(path, Ok(size), Ok(content));
            &&& path == written.text_or("filename"@, "file.txt"@)
            &&& content == written.text_or("content"@, ""@)
            &&& read_request(read, absolute) == Ok::<Seq<char>, Seq<char>>(path)
            &&& size <= MAX_READ_BYTES ==> reply == ok_view().with(
                "file"@,
                JsonView::Text(path),
            ).with("content"@, JsonView::Text(content))
            &&& size > MAX_READ_BYTES ==> reply == error_view("arquivo muito grande (>512KiB)"@)
                && reply.get("content"@) is None
        }),
{
    reveal_strlit("content");
    reveal_strlit("status");
    reveal_strlit("error");
    assert("content"@.len() != "status"@.len());
    assert("content"@.len() != "error"@.len());
}

/// Where the verdict on a path does not depend on the host, a path that was accepted for writing is
/// accepted for reading, whenever it is asked for again.
pub proof fn law_written_is_read_on(
    f: FileText,
    written: JsonView,
    answer: Result<String, Json>,
    platform: Platform,
)
    requires
        write_answer(Ok(f), written, platform, "caminho inválido (use relativo, sem ..)"@),
        path_answer(answer, f.path@, platform, "caminho inválido"@),
        verdict_fixed(f.path@, platform),
    ensures
        answer matches Ok(p) && p@ == f.path@,
        f.path@ == written.text_or("filename"@, "file.txt"@),
        f.content@ == written.text_or("content"@, ""@),
{
}

/// The reply to writing a file names the file, tells whether it was there, and how many bytes its
/// content has; where writing failed it gives the error.
pub proof fn law_write_reply_fields(
    path: Seq<char>,
    content: Seq<char>,
    existed: bool,
    message: Seq<char>,
)
    ensures
        ({
            let r = file_written_view(path, content, existed, Ok(()));
            &&& r.get("status"@) == Some(JsonView::Text("ok"@))
            &&& r.get("file"@) == Some(JsonView::Text(path))
            &&& r.get("existed_before"@) == Some(JsonView::Bool(existed))
            &&& r.get("bytes_written"@) == Some(
                JsonView::Int(vstd::utf8::encode_utf8(content).len() as int),
            )
        }),
        file_written_view(path, content, existed, Err(message)) == error_view(message),
        file_appended_view(path, Ok(())).get("status"@) == Some(JsonView::Text("ok"@)),
        file_appended_view(path, Ok(())).get("file"@) == Some(JsonView::Text(path)),
        file_appended_view(path, Err(message)) == error_view(message),
{
    reveal_strlit("status");
    assert("status"@.len() == 6);
    reveal_strlit("file");
    assert("file"@.len() == 4);
    reveal_strlit("existed_before");
    assert("existed_before"@.len() == 14);
    reveal_strlit("bytes_written");
    assert("bytes_written"@.len() == 13);
    reveal_strlit("hint");
    assert("hint"@.len() == 4);
    assert("file"@[0] != "hint"@[0]);
}

/// The reply to reading a file names the file and holds what was read.
pub proof fn law_read_reply_fields(path: Seq<char>, content: Seq<char>, message: Seq<char>)
    ensures
        file_read_view(path, Ok(content)).get("status"@) == Some(JsonView::Text("ok"@)),
        file_read_view(path, Ok(content)).get("file"@) == Some(JsonView::Text(path)),
        file_read_view(path, Ok(content)).get("content"@) == Some(JsonView::Text(content)),
        file_read_view(path, Err(message)) == error_view(message),
{
    reveal_strlit("status");
    assert("status"@.len() == 6);
    reveal_strlit("file");
    assert("file"@.len() == 4);
    reveal_strlit("content");
    assert("content"@.len() == 7);
}

/// A file is refused just where its size is over the limit or not known.
pub proof fn law_refused_for_size(size: u64, message: Seq<char>)
    ensures
        read_refusal_view(Ok(size)) is Some <==> size > 512 * 1024,
        read_refusal_view(Err(message)) == Some(message),
{
}

/// The reply to listing a directory names it and holds each of its names as often as it was found,
/// each behind those that come before it.
pub proof fn law_list_reply_fields(
    dirname: Seq<char>,
    names: Seq<Seq<char>>,
    message: Seq<char>,
)
    ensures
        ({
            let r = dir_listed_view(dirname, Ok(names));
            let shown = r.texts_at("entries"@);
            &&& r.get("status"@) == Some(JsonView::Text("ok"@))
            &&& r.get("dirname"@) == Some(JsonView::Text(dirname))
            &&& r.at("entries"@) is List
            &&& shown.to_multiset() == names.to_multiset()
            &&& shown.len() == names.len()
            &&& forall|i: int, j: int|
                0 <= i < j < shown.len() ==> text_leq(#[trigger] shown[i], #[trigger] shown[j])
        }),
        dir_listed_view(dirname, Err(message)) == error_view(message),
{
    reveal_strlit("status");
    assert("status"@.len() == 6);
    reveal_strlit("dirname");
    assert("dirname"@.len() == 7);
    reveal_strlit("entries");
    assert("entries"@.len() == 7);
    assert("dirname"@[0] != "entries"@[0]);
    law_sorted(names);
    law_texts_come_back(sorted(names));
    let r = dir_listed_view(dirname, Ok(names));
    assert(r.at("entries"@) == text_list(sorted(names)));
    assert(r.texts_at("entries"@) == sorted(names));
    broadcast use vstd::seq_lib::group_to_multiset_ensures;
    assert(sorted(names).to_multiset().len() == names.to_multiset().len());
}

/// The reply on the working directory names it and holds the first names in it, a hundred at most.
pub proof fn law_workspace_fields(cwd: Seq<char>, names: Seq<Seq<char>>)
    ensures
        ({
            let r = workspace_view(cwd, names);
            let shown = r.texts_at("entries_sample"@);
            &&& r.get("status"@) == Some(JsonView::Text("ok"@))
            &&& r.get("cwd"@) == Some(JsonView::Text(cwd))
            &&& shown.len() == if sorted(names).len() < 100 {
                sorted(names).len()
            } else {
                100
            }
            &&& forall|i: int| 0 <= i < shown.len() ==> #[trigger] shown[i] == sorted(names)[i]
        }),
{
    reveal_strlit("status");
    assert("status"@.len() == 6);
    reveal_strlit("cwd");
    assert("cwd"@.len() == 3);
    reveal_strlit("entries_sample");
    assert("entries_sample"@.len() == 14);
    reveal_strlit("note");
    assert("note"@.len() == 4);
    law_texts_come_back(sample(sorted(names)));
    let r = workspace_view(cwd, names);
    assert(r.at("entries_sample"@) == text_list(sample(sorted(names))));
}

/// The reply on a path says what was found there.
pub proof fn law_path_fields(
    path: Seq<char>,
    is_file: bool,
    is_dir: bool,
    size: u64,
    modified_ms: Option<u64>,
)
    ensures
        ({
            let r = path_described_view(
                path,
                PathFound::Facts { is_file, is_dir, size, modified_ms },
            );
            &&& r.get("status"@) == Some(JsonView::Text("ok"@))
            &&& r.get("path"@) == Some(JsonView::Text(path))
            &&& r.get("exists"@) == Some(JsonView::Bool(true))
            &&& r.get("is_file"@) == Some(JsonView::Bool(is_file))
            &&& r.get("is_dir"@) == Some(JsonView::Bool(is_dir))
            &&& r.get("size_bytes"@) == Some(JsonView::Int(size as int))
            &&& r.get("modified_ms"@) == Some(
                match modified_ms {
                    Some(ms) => JsonView::Int(ms as int),
                    None => JsonView::Null,
                },
            )
        }),
        ({
            let r = path_described_view(path, PathFound::Nothing);
            &&& r.get("status"@) == Some(JsonView::Text("ok"@))
            &&& r.get("path"@) == Some(JsonView::Text(path))
            &&& r.get("exists"@) == Some(JsonView::Bool(false))
        }),
{
    reveal_strlit("status");
    assert("status"@.len() == 6);
    reveal_strlit("path");
    assert("path"@.len() == 4);
    reveal_strlit("exists");
    assert("exists"@.len() == 6);
    reveal_strlit("is_file");
    assert("is_file"@.len() == 7);
    reveal_strlit("is_dir");
    assert("is_dir"@.len() == 6);
    reveal_strlit("size_bytes");
    assert("size_bytes"@.len() == 10);
    reveal_strlit("modified_ms");
    assert("modified_ms"@.len() == 11);
    assert("status"@[0] != "exists"@[0]);
    assert("status"@[0] != "is_dir"@[0]);
    assert("exists"@[0] != "is_dir"@[0]);
}

/// A call that writes names its own file and its own content, where its path is accepted, and has the
/// defaults where it names none.
pub proof fn law_write_request_fields(input: JsonView, absolute: bool)
    ensures
        write_request(input, absolute) matches Ok((path, content)) ==> {
            &&& input.get("filename"@) matches Some(JsonView::Text(f)) ==> path == f
            &&& !(input.at("filename"@) is Text) ==> path == "file.txt"@
            &&& input.get("content"@) matches Some(JsonView::Text(c)) ==> content == c
            &&& !(input.at("content"@) is Text) ==> content == ""@
        },
        read_request(input, absolute) matches Ok(path) ==> input.get("filename"@) == Some(
            JsonView::Text(path),
        ),
{
    reveal_strlit("");
    assert(""@ =~= seq![]);
}

/// The path of a call is handed on as it came where it is accepted, and refused with the message
/// elsewhere.
pub proof fn law_path_answers(
    r: Result<String, Json>,
    raw: Seq<char>,
    platform: Platform,
    message: Seq<char>,
)
    requires
        path_answer(r, raw, platform, message),
    ensures
        r matches Ok(p) ==> p@ == raw && !path_blocked(raw),
        r matches Err(e) ==> e@.get("error"@) == Some(JsonView::Text(message)) && !path_plain(raw),
        path_plain(raw) ==> r is Ok,
        path_blocked(raw) ==> r is Err,
{
    law_error_fields(message);
}

/// A call that writes to a file is answered with its own path and content where the path is accepted.
pub proof fn law_write_answers(
    r: Result<FileText, Json>,
    input: JsonView,
    platform: Platform,
    message: Seq<char>,
)
    requires
        write_answer(r, input, platform, message),
    ensures
        r matches Ok(f) ==> f.path@ == input.text_or("filename"@, "file.txt"@) && f.content@
            == input.text_or("content"@, ""@) && !path_blocked(f.path@),
        r matches Err(e) ==> e@.get("error"@) == Some(JsonView::Text(message)),
        path_plain(input.text_or("filename"@, "file.txt"@)) ==> r is Ok,
        path_blocked(input.text_or("filename"@, "file.txt"@)) ==> r is Err,
{
    law_error_fields(message);
}

/// A call on a file is granted just where its path is not empty, has no `..` in it and is not absolute;
/// a path that could not be looked at is answered with the error.
pub proof fn law_granted_paths(input: JsonView, absolute: bool, path: Seq<char>, e: String)
    ensures
        ({
            let written = input.text_or("filename"@, "file.txt"@);
            let read = input.text_or("filename"@, ""@);
            &&& write_request(input, absolute) is Ok <==> written.len() > 0 && !holds(
                written,
                ".."@,
            ) && !absolute
            &&& read_request(input, absolute) is Ok <==> read.len() > 0 && !holds(read, ".."@)
                && !absolute
            &&& write_request(input, absolute) matches Err(m) ==> m
                == "caminho inválido (use relativo, sem ..)"@
            &&& read_request(input, absolute) matches Err(m) ==> m == "caminho inválido"@
            &&& path_described_view(path, PathFound::Failed(e)) == error_view(e@)
        }),
{
}

/// A file within the limit is answered with what was read of it, and one over it with the refusal
/// alone.
pub proof fn law_read_replies(
    path: Seq<char>,
    size: u64,
    content: Result<Seq<char>, Seq<char>>,
    message: Seq<char>,
)
    ensures
        size <= 512 * 1024 ==> read_reply(path, Ok(size), content) == file_read_view(path, content),
        size > 512 * 1024 ==> read_reply(path, Ok(size), content).get("error"@) == Some(
            JsonView::Text("arquivo muito grande (>512KiB)"@),
        ),
        read_reply(path, Err(message), content).get("error"@) == Some(JsonView::Text(message)),
{
    law_error_fields("arquivo muito grande (>512KiB)"@);
    law_error_fields(message);
}

} // verus!
