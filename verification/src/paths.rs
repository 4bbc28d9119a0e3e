//! Which paths a tool may touch.
use crate::command::Platform;
use crate::reply::optional;
use crate::split::{slice_text, split, split_at_char};
use crate::text::{
    chars, contains, find_last, has_prefix, holds, is_letter, letter, occurs_at, same, texts,
};
use vstd::prelude::*;

verus! {

/// The directory in which the agent keeps its state.
pub const TOOLMIND_DIR: &'static str = ".toolmind";

/// A path that no tool takes, wherever it runs: the empty one, and one with `..` in it.
pub open spec fn path_blocked(raw: Seq<char>) -> bool {
    raw.len() == 0 || holds(raw, ".."@)
}

/// A path that is relative wherever it is used: it does not begin with a separator and has no `:`.
pub open spec fn path_plain(raw: Seq<char>) -> bool {
    !path_blocked(raw) && raw[0] != '/' && raw[0] != '\\' && !raw.contains(':')
}

/// A system on which a path is absolute just where it begins with `/`.
pub open spec fn unix_paths(platform: Platform) -> bool {
    platform == Platform::MacOs || platform == Platform::OtherUnix
}

/// One of the two separators that Windows knows.
pub open spec fn either_separator(c: char) -> bool {
    c == '/' || c == '\\'
}

/// A path that begins with a drive letter and `:`.
pub open spec fn on_drive(raw: Seq<char>) -> bool {
    raw.len() >= 2 && is_letter(raw[0]) && raw[1] == ':'
}

/// A path that begins at the root of a drive, as in `C:\x`.
pub open spec fn drive_rooted(raw: Seq<char>) -> bool {
    on_drive(raw) && raw.len() >= 3 && either_separator(raw[2])
}

/// A path that begins with two separators.
pub open spec fn two_separators(raw: Seq<char>) -> bool {
    raw.len() >= 2 && either_separator(raw[0]) && either_separator(raw[1])
}

/// A path that begins with two backslashes, a name that ends at position `i`, a backslash, and the
/// beginning of another name.
pub open spec fn share_named(raw: Seq<char>, i: int) -> bool {
    &&& 2 < i < raw.len() - 1
    &&& raw[0] == '\\' && raw[1] == '\\' && raw[i] == '\\'
    &&& !either_separator(raw[i + 1])
    &&& forall|j: int| 2 <= j < i ==> !either_separator(#[trigger] raw[j])
}

/// A path that begins at a share, as in `\\server\share`.
pub open spec fn share_rooted(raw: Seq<char>) -> bool {
    exists|i: int| share_named(raw, i)
}

/// A path is accepted where it is neither blocked nor absolute.
pub open spec fn accepted_unless(raw: Seq<char>, absolute: bool) -> bool {
    !path_blocked(raw) && !absolute
}

/// What is known of the verdict on a path. On every system a blocked path is refused, and one that is
/// relative everywhere is accepted. On Unix a path is absolute just where it begins with `/`. On
/// Windows one that does not begin with two separators is absolute just where it begins at the root
/// of a drive, and one that begins at a share is absolute. On the rest the host's rule decides.
pub open spec fn path_verdict(raw: Seq<char>, platform: Platform, accepted: bool) -> bool {
    &&& accepted ==> !path_blocked(raw)
    &&& path_plain(raw) ==> accepted
    &&& unix_paths(platform) ==> accepted == (!path_blocked(raw) && raw[0] != '/')
    &&& platform == Platform::Windows && !two_separators(raw) ==> accepted == (!path_blocked(raw)
        && !drive_rooted(raw))
    &&& platform == Platform::Windows && share_rooted(raw) ==> !accepted
}

/// The verdict on a path does not depend on the host.
pub open spec fn verdict_fixed(raw: Seq<char>, platform: Platform) -> bool {
    path_blocked(raw) || path_plain(raw) || unix_paths(platform) || (platform == Platform::Windows
        && (!two_separators(raw) || share_rooted(raw)))
}

/// `std::path::Path::is_absolute` tells whether a path is absolute, by the rule of the platform
/// that the program was built for. On Unix an absolute path starts with the root. On Windows it
/// has a prefix too, which is a drive letter with a `:` or begins with separators. What each rule
/// says of a path that begins with a separator or has a `:` in it is not stated.
#[verifier::external_body]
fn is_absolute(raw: &str) -> (r: bool)
    ensures
        r ==> raw@.len() > 0 && (raw@[0] == '/' || raw@[0] == '\\' || raw@.contains(':')),
{
    std::path::Path::new(raw).is_absolute()
}

/// Accepts a path that is not blocked and not absolute.
pub fn relative_path(raw: &str, absolute: bool) -> (r: Option<String>)
    ensures
        match r {
            Some(p) => p@ == raw@ && accepted_unless(raw@, absolute),
            None => !accepted_unless(raw@, absolute),
        },
{
    if raw.is_empty() || contains(raw, "..") || absolute {
        None
    } else {
        Some(raw.to_owned())
    }
}

fn separator(c: char) -> (r: bool)
    ensures
        r == either_separator(c),
{
    c == '/' || c == '\\'
}

fn begins_on_drive(cs: &[char]) -> (r: bool)
    ensures
        r == on_drive(cs@),
{
    cs.len() >= 2 && letter(cs[0]) && cs[1] == ':'
}

fn begins_with_two(cs: &[char]) -> (r: bool)
    ensures
        r == two_separators(cs@),
{
    cs.len() >= 2 && separator(cs[0]) && separator(cs[1])
}

fn begins_at_share(cs: &[char]) -> (r: bool)
    ensures
        r == share_rooted(cs@),
{
    if cs.len() < 2 || cs[0] != '\\' || cs[1] != '\\' {
        return false;
    }
    let mut i: usize = 2;
    while i < cs.len() && !separator(cs[i])
        invariant
            2 <= i <= cs@.len(),
            forall|j: int| 2 <= j < i ==> !either_separator(#[trigger] cs@[j]),
        decreases cs@.len() - i,
    {
        i = i + 1;
    }
    let r = i > 2 && i < cs.len() && cs[i] == '\\' && i + 1 < cs.len() && !separator(cs[i + 1]);
    proof {
        if r {
            assert(share_named(cs@, i as int));
        }
        if share_rooted(cs@) {
            let k = choose|k: int| share_named(cs@, k);
            if k < i {
                assert(!either_separator(cs@[k]));
            } else if i < k {
                assert(!either_separator(cs@[i as int]));
            }
        }
    }
    r
}

/// Tells whether a path is absolute: by the rule of the system where it is fixed, else by the host's.
pub fn path_absolute(raw: &str, platform: Platform) -> (r: bool)
    ensures
        path_verdict(raw@, platform, accepted_unless(raw@, r)),
{
    let cs = chars(raw);
    match platform {
        Platform::MacOs | Platform::OtherUnix => cs.len() > 0 && cs[0] == '/',
        Platform::Windows => {
            if !begins_with_two(&cs) {
                let rooted = begins_on_drive(&cs) && cs.len() >= 3 && separator(cs[2]);
                proof {
                    if rooted {
                        assert(raw@.contains(raw@[1]));
                    }
                    if share_rooted(raw@) {
                        let i = choose|i: int| share_named(raw@, i);
                        assert(two_separators(raw@));
                    }
                }
                rooted
            } else if begins_at_share(&cs) {
                true
            } else {
                is_absolute(raw)
            }
        },
        Platform::Unsupported => is_absolute(raw),
    }
}

/// Accepts a relative path without `..`.
pub fn safe_relative_path(raw: &str, platform: Platform) -> (r: Option<String>)
    ensures
        path_verdict(raw@, platform, r is Some),
        r matches Some(p) ==> p@ == raw@,
{
    relative_path(raw, path_absolute(raw, platform))
}

/// Tells whether a path is accepted.
pub fn path_accepted(raw: &str, platform: Platform) -> (r: bool)
    ensures
        path_verdict(raw@, platform, r),
{
    safe_relative_path(raw, platform).is_some()
}

/// Where the verdict does not depend on the host, there is only one.
pub proof fn law_one_verdict(raw: Seq<char>, platform: Platform, a: bool, b: bool)
    requires
        verdict_fixed(raw, platform),
        path_verdict(raw, platform, a),
        path_verdict(raw, platform, b),
    ensures
        a == b,
{
}

/// On Windows no path that begins at the root of a drive or at a share is accepted, and on Unix none
/// that begins with `/`.
pub proof fn law_no_absolute_path(raw: Seq<char>, platform: Platform)
    requires
        path_verdict(raw, platform, true),
    ensures
        unix_paths(platform) ==> raw[0] != '/',
        platform == Platform::Windows ==> !drive_rooted(raw) && !share_rooted(raw),
{
}

/// An accepted path leads nowhere upwards: whatever separator is used, no part of it is `..`.
pub proof fn law_no_step_upwards(raw: Seq<char>, platform: Platform, separator: char, k: int)
    requires
        path_verdict(raw, platform, true),
        0 <= k < split(raw, separator).len(),
    ensures
        split(raw, separator)[k] != ".."@,
{
    if split(raw, separator)[k] == ".."@ {
        lemma_part_occurs(raw, separator, k);
    }
}

/// Each part of a split text stands in that text.
proof fn lemma_part_occurs(s: Seq<char>, c: char, k: int)
    requires
        0 <= k < split(s, c).len(),
    ensures
        holds(s, split(s, c)[k]),
    decreases s.len(),
{
    let i = crate::split::index_of(s, c, 0);
    crate::split::lemma_index_of(s, c, 0);
    if i < s.len() {
        let rest = s.skip(i + 1);
        if k == 0 {
            assert(occurs_at(s, s.take(i), 0)) by {
                assert(s.subrange(0, i) =~= s.take(i));
            }
        } else {
            lemma_part_occurs(rest, c, k - 1);
            let p = split(rest, c)[k - 1];
            let j = choose|j: int| occurs_at(rest, p, j);
            assert(s.subrange(j + i + 1, j + i + 1 + p.len()) =~= rest.subrange(j, j + p.len()));
            assert(occurs_at(s, p, j + i + 1));
        }
    } else {
        assert(s.subrange(0, s.len() as int) =~= s);
        assert(occurs_at(s, s, 0));
    }
}

// ---------------------------------------------------------------------------
// File names
// ---------------------------------------------------------------------------

/// A file name without directories, drive letters and the like.
pub open spec fn bare_name(raw: Seq<char>) -> bool {
    raw.len() > 0 && !raw.contains('/') && !raw.contains('\\') && !raw.contains(':') && raw
        != "."@ && raw != ".."@
}

/// The last position of `.` in a file name, where it is not its first character.
pub open spec fn last_dot(name: Seq<char>) -> Option<int> {
    match crate::text::rfind(name, "."@) {
        Some(i) => if i > 0 {
            Some(i)
        } else {
            None
        },
        None => None,
    }
}

/// The stem of a file name: what stands before its last `.`, or all of it.
pub open spec fn stem_of(name: Seq<char>) -> Seq<char> {
    match last_dot(name) {
        Some(i) => name.take(i),
        None => name,
    }
}

/// The extension of a file name: what stands behind its last `.`.
pub open spec fn extension_of(name: Seq<char>) -> Option<Seq<char>> {
    match last_dot(name) {
        Some(i) => Some(name.skip(i + 1)),
        None => None,
    }
}

/// The file name at the end of a path, where it is the same on each system: the path has no `\\` and
/// no `:`, does not begin with `//`, and its last part is a file name. On each system `/` separates
/// the parts of such a path.
pub open spec fn file_name_of(path: Seq<char>) -> Option<Seq<char>> {
    let name = split(path, '/').last();
    if path.contains('\\') || path.contains(':') || has_prefix(path, "//"@) || !bare_name(name) {
        None
    } else {
        Some(name)
    }
}

/// A bare file name is the file name at its own end.
pub proof fn lemma_bare_name(path: Seq<char>)
    requires
        bare_name(path),
    ensures
        file_name_of(path) == Some(path),
{
    reveal_strlit("//");
    if has_prefix(path, "//"@) {
        assert(path.subrange(0, 2)[0] == path[0]);
        assert(path.contains(path[0]));
    }
    crate::split::lemma_index_of(path, '/', 0);
    let i = crate::split::index_of(path, '/', 0);
    if i < path.len() {
        assert(path.contains(path[i]));
    }
}

/// What is known of the stem of a path wherever it is taken: it is a part of the path, and of a file
/// name that is the same on each system it is what stands before the last `.`.
pub open spec fn stem_found(path: Seq<char>, stem: Option<Seq<char>>) -> bool {
    &&& file_name_of(path) matches Some(name) ==> stem == Some(stem_of(name))
    &&& stem matches Some(s) ==> holds(path, s)
}

/// What is known of the extension of a path wherever it is taken: it is a part of the path, and of a
/// file name that is the same on each system it is what stands behind the last `.`.
pub open spec fn extension_found(path: Seq<char>, ext: Option<Seq<char>>) -> bool {
    &&& file_name_of(path) matches Some(name) ==> ext == extension_of(name)
    &&& ext matches Some(e) ==> holds(path, e)
}

/// `std::path::Path::file_stem` gives the file name without its extension. The file name is the last
/// part of the path, and `/` separates parts on each platform. Of a path with `\\` or `:`, one that
/// begins with `//`, and one that does not end with a file name, the platform that the program was
/// built for decides, and it is only stated that the result is some part of the path.
#[verifier::external_body]
fn file_stem(raw: &str) -> (r: Option<String>)
    ensures
        stem_found(raw@, optional(r)),
{
    std::path::Path::new(raw).file_stem().and_then(|s| s.to_str()).map(|s| s.to_string())
}

/// `std::path::Path::extension` gives the extension of the file name. What is said of `file_stem`
/// holds here too.
#[verifier::external_body]
fn extension(raw: &str) -> (r: Option<String>)
    ensures
        extension_found(raw@, optional(r)),
{
    std::path::Path::new(raw).extension().and_then(|s| s.to_str()).map(|s| s.to_string())
}

// ---------------------------------------------------------------------------
// File names by the rule of a system
// ---------------------------------------------------------------------------

/// A text with `/` in place of each `\\`.
pub open spec fn slashed(s: Seq<char>) -> Seq<char> {
    s.map_values(|c: char| if c == '\\' { '/' } else { c })
}

/// A path without the drive at its beginning.
pub open spec fn without_drive(path: Seq<char>) -> Seq<char> {
    if on_drive(path) {
        path.skip(2)
    } else {
        path
    }
}

/// The parts of a path. On Unix `/` separates them; on Windows `\\` does too, and a drive may stand
/// before the first.
pub open spec fn path_parts(path: Seq<char>, platform: Platform) -> Seq<Seq<char>> {
    if platform == Platform::Windows {
        split(slashed(without_drive(path)), '/')
    } else {
        split(path, '/')
    }
}

/// The last part that names something: an empty part and `.` do not.
pub open spec fn last_named(parts: Seq<Seq<char>>) -> Option<Seq<char>>
    decreases parts.len(),
{
    if parts.len() == 0 {
        None
    } else if parts.last().len() == 0 || parts.last() == "."@ {
        last_named(parts.drop_last())
    } else {
        Some(parts.last())
    }
}

/// The file name at the end of a path on a system; none where the path ends with `..` or names
/// nothing.
pub open spec fn named_file(path: Seq<char>, platform: Platform) -> Option<Seq<char>> {
    match last_named(path_parts(path, platform)) {
        Some(p) => if p == ".."@ {
            None
        } else {
            Some(p)
        },
        None => None,
    }
}

/// The file name of a path follows from the path and the system. What Windows makes of a path that
/// begins with two separators is left to the host.
pub open spec fn name_fixed(path: Seq<char>, platform: Platform) -> bool {
    unix_paths(platform) || (platform == Platform::Windows && !two_separators(path))
}

/// The stem of the file name of a path on a system.
pub open spec fn stem_by_rule(path: Seq<char>, platform: Platform) -> Option<Seq<char>> {
    match named_file(path, platform) {
        Some(name) => Some(stem_of(name)),
        None => None,
    }
}

/// The extension of the file name of a path on a system.
pub open spec fn extension_by_rule(path: Seq<char>, platform: Platform) -> Option<Seq<char>> {
    match named_file(path, platform) {
        Some(name) => extension_of(name),
        None => None,
    }
}

/// What is known of the stem of a path on a system.
pub open spec fn stem_known(
    path: Seq<char>,
    platform: Platform,
    stem: Option<Seq<char>>,
) -> bool {
    stem_found(path, stem) && (name_fixed(path, platform) ==> stem == stem_by_rule(path, platform))
}

/// What is known of the extension of a path on a system.
pub open spec fn extension_known(
    path: Seq<char>,
    platform: Platform,
    ext: Option<Seq<char>>,
) -> bool {
    extension_found(path, ext) && (name_fixed(path, platform) ==> ext == extension_by_rule(
        path,
        platform,
    ))
}

proof fn lemma_part_plain(s: Seq<char>, c: char, k: int)
    requires
        0 <= k < split(s, c).len(),
    ensures
        !split(s, c)[k].contains(c),
    decreases s.len(),
{
    let i = crate::split::index_of(s, c, 0);
    crate::split::lemma_index_of(s, c, 0);
    if i < s.len() {
        if k > 0 {
            lemma_part_plain(s.skip(i + 1), c, k - 1);
        }
    }
}

proof fn lemma_last_named(parts: Seq<Seq<char>>)
    ensures
        last_named(parts) matches Some(p) ==> parts.contains(p),
    decreases parts.len(),
{
    if parts.len() > 0 {
        lemma_last_named(parts.drop_last());
        if let Some(p) = last_named(parts) {
            if parts.last().len() == 0 || parts.last() == "."@ {
                let k = choose|k: int| 0 <= k < parts.drop_last().len() && parts.drop_last()[k] == p;
                assert(parts[k] == p);
            } else {
                assert(parts[parts.len() - 1] == p);
            }
        }
    }
}

/// The file name of a path stands in it.
proof fn lemma_named_file(path: Seq<char>, platform: Platform)
    ensures
        named_file(path, platform) matches Some(p) ==> holds(path, p),
{
    if let Some(p) = named_file(path, platform) {
        let parts = path_parts(path, platform);
        lemma_last_named(parts);
        let k = choose|k: int| 0 <= k < parts.len() && parts[k] == p;
        if platform == Platform::Windows {
            let d = without_drive(path);
            let m = slashed(d);
            lemma_part_occurs(m, '/', k);
            lemma_part_plain(m, '/', k);
            let j = choose|j: int| occurs_at(m, p, j);
            let off: int = if on_drive(path) {
                2
            } else {
                0
            };
            assert forall|i: int| 0 <= i < p.len() implies path[off + j + i] == #[trigger] p[i] by {
                assert(m.subrange(j, j + p.len())[i] == p[i]);
                assert(p.contains(p[i]));
            }
            assert(path.subrange(off + j, off + j + p.len()) =~= p);
            assert(occurs_at(path, p, off + j));
        } else {
            lemma_part_occurs(path, '/', k);
        }
    }
}

proof fn lemma_piece_occurs(path: Seq<char>, name: Seq<char>, a: int, b: int)
    requires
        holds(path, name),
        0 <= a <= b <= name.len(),
    ensures
        holds(path, name.subrange(a, b)),
{
    let j = choose|j: int| occurs_at(path, name, j);
    let piece = name.subrange(a, b);
    assert forall|i: int| 0 <= i < piece.len() implies path[j + a + i] == #[trigger] piece[i] by {
        assert(path.subrange(j, j + name.len())[a + i] == name[a + i]);
    }
    assert(path.subrange(j + a, j + a + piece.len()) =~= piece);
    assert(occurs_at(path, piece, j + a));
}

/// Where the file name is the same on each system, the rule of a system gives that name.
proof fn lemma_same_name(path: Seq<char>, platform: Platform)
    ensures
        file_name_of(path) matches Some(name) ==> named_file(path, platform) == Some(name),
{
    if let Some(name) = file_name_of(path) {
        if on_drive(path) {
            assert(path.contains(path[1]));
        }
        assert forall|i: int| 0 <= i < path.len() implies slashed(path)[i] == #[trigger] path[i] by {
            assert(path.contains(path[i]));
        }
        assert(slashed(path) =~= path);
    }
}

proof fn lemma_rule_found(path: Seq<char>, platform: Platform)
    ensures
        stem_found(path, stem_by_rule(path, platform)),
        extension_found(path, extension_by_rule(path, platform)),
{
    lemma_same_name(path, platform);
    lemma_named_file(path, platform);
    if let Some(name) = named_file(path, platform) {
        crate::text::lemma_rfind(name, "."@);
        reveal_strlit(".");
        match last_dot(name) {
            Some(i) => {
                lemma_piece_occurs(path, name, 0, i);
                assert(name.subrange(0, i) =~= name.take(i));
                lemma_piece_occurs(path, name, i + 1, name.len() as int);
                assert(name.subrange(i + 1, name.len() as int) =~= name.skip(i + 1));
            },
            None => {},
        }
    }
}

fn parts_of(path: &str, platform: Platform) -> (r: Vec<String>)
    requires
        platform == Platform::Windows || unix_paths(platform),
    ensures
        texts(r@) == path_parts(path@, platform),
{
    match platform {
        Platform::Windows => {
            let cs = chars(path);
            let start: usize = if begins_on_drive(&cs) {
                2
            } else {
                0
            };
            let ghost all = slashed(without_drive(path@));
            let mut t = String::new();
            for i in start..cs.len()
                invariant
                    cs@ == path@,
                    start == if on_drive(path@) {
                        2int
                    } else {
                        0int
                    },
                    start <= cs@.len(),
                    all == slashed(without_drive(path@)),
                    t@ =~= all.take(i - start),
            {
                let c: char = cs[i];
                assert(without_drive(path@)[i - start] == c);
                if c == '\\' {
                    t.push('/');
                } else {
                    t.push(c);
                }
            }
            assert(all.take(cs@.len() - start) =~= all);
            split_at_char(t.as_str(), '/')
        },
        _ => split_at_char(path, '/'),
    }
}

fn name_by_rule(path: &str, platform: Platform) -> (r: Option<String>)
    requires
        platform == Platform::Windows || unix_paths(platform),
    ensures
        optional(r) == named_file(path@, platform),
{
    let parts = parts_of(path, platform);
    let ghost all = texts(parts@);
    let mut n: usize = parts.len();
    assert(all.take(n as int) =~= all);
    while n > 0
        invariant
            all == texts(parts@),
            all == path_parts(path@, platform),
            n <= parts@.len(),
            last_named(all) == last_named(all.take(n as int)),
        decreases n,
    {
        assert(all.take(n as int).drop_last() =~= all.take(n - 1));
        assert(all.take(n as int).last() == parts@[n - 1]@);
        let p = parts[n - 1].as_str();
        if !(p.is_empty() || same(p, ".")) {
            return if same(p, "..") {
                None
            } else {
                Some(p.to_owned())
            };
        }
        n = n - 1;
    }
    None
}

fn dot_in(name: &[char]) -> (r: Option<usize>)
    ensures
        match r {
            Some(i) => last_dot(name@) == Some(i as int) && i < name@.len(),
            None => last_dot(name@) is None,
        },
{
    let dot = chars(".");
    proof {
        reveal_strlit(".");
        crate::text::lemma_rfind(name@, "."@);
    }
    match find_last(name, &dot) {
        Some(i) => if i > 0 {
            Some(i)
        } else {
            None
        },
        None => None,
    }
}

/// The stem of the file name of a path: by the rule of the system where it is fixed, else by the
/// host's.
pub fn path_stem(path: &str, platform: Platform) -> (r: Option<String>)
    ensures
        stem_known(path@, platform, optional(r)),
{
    let fixed = rule_applies(path, platform);
    if !fixed {
        return file_stem(path);
    }
    proof {
        lemma_rule_found(path@, platform);
    }
    match name_by_rule(path, platform) {
        None => None,
        Some(name) => {
            let cs = chars(name.as_str());
            match dot_in(&cs) {
                Some(i) => {
                    let stem = slice_text(&cs, 0, i);
                    assert(stem@ =~= name@.take(i as int));
                    Some(stem)
                },
                None => Some(name),
            }
        },
    }
}

/// The extension of the file name of a path: by the rule of the system where it is fixed, else by the
/// host's.
pub fn path_extension(path: &str, platform: Platform) -> (r: Option<String>)
    ensures
        extension_known(path@, platform, optional(r)),
{
    let fixed = rule_applies(path, platform);
    if !fixed {
        return extension(path);
    }
    proof {
        lemma_rule_found(path@, platform);
    }
    match name_by_rule(path, platform) {
        None => None,
        Some(name) => {
            let cs = chars(name.as_str());
            match dot_in(&cs) {
                Some(i) => {
                    let n: usize = cs.len();
                    let ext = slice_text(&cs, i + 1, n);
                    assert(ext@ =~= name@.skip(i + 1));
                    Some(ext)
                },
                None => None,
            }
        },
    }
}

fn rule_applies(path: &str, platform: Platform) -> (r: bool)
    ensures
        r == name_fixed(path@, platform),
{
    match platform {
        Platform::MacOs | Platform::OtherUnix => true,
        Platform::Windows => !begins_with_two(&chars(path)),
        Platform::Unsupported => false,
    }
}

/// A path is that of a file in a directory, with one separator or the other between them.
pub open spec fn file_in(path: Seq<char>, dir: Seq<char>, name: Seq<char>) -> bool {
    path == dir + "/"@ + name || path == dir + "\\"@ + name
}

/// `std::path::Path::join` puts a name behind a directory, with the separator of the platform that
/// the program was built for between them. How a path with separators of its own is joined is not
/// stated.
#[verifier::external_body]
fn join_path(dir: &str, name: &str) -> (r: String)
    ensures
        bare_name(dir@) && bare_name(name@) ==> file_in(r@, dir@, name@),
{
    std::path::Path::new(dir).join(name).to_string_lossy().into_owned()
}

/// The directory in which the agent keeps its state.
pub fn toolmind_dir() -> (r: String)
    ensures
        r@ == TOOLMIND_DIR@,
{
    TOOLMIND_DIR.to_owned()
}

/// The path of a file in the directory in which the agent keeps its state.
pub fn state_path(name: &str) -> (r: String)
    ensures
        bare_name(name@) ==> file_in(r@, TOOLMIND_DIR@, name@),
{
    proof {
        reveal_strlit(".toolmind");
        reveal_strlit(".");
        reveal_strlit("..");
        assert(".toolmind"@.len() != "."@.len());
        assert(".toolmind"@.len() != ".."@.len());
    }
    join_path(TOOLMIND_DIR, name)
}

// ---------------------------------------------------------------------------
// Laws on file names
// ---------------------------------------------------------------------------

/// A file name is its stem, a dot and its extension, and the extension has no dot in it; one without
/// an extension is its own stem.
pub proof fn law_stem_and_extension(name: Seq<char>)
    ensures
        match extension_of(name) {
            Some(e) => name == stem_of(name).push('.') + e && !e.contains('.') && stem_of(name).len()
                > 0,
            None => stem_of(name) == name && forall|i: int|
                1 <= i < name.len() ==> #[trigger] name[i] != '.',
        },
{
    reveal_strlit(".");
    crate::text::lemma_rfind(name, "."@);
    assert forall|i: int| 0 <= i < name.len() && #[trigger] name[i] == '.' implies occurs_at(
        name,
        "."@,
        i,
    ) by {
        assert(name.subrange(i, i + 1) =~= "."@);
    }
    match extension_of(name) {
        Some(e) => {
            let i = last_dot(name)->0;
            assert(name.subrange(i, i + 1)[0] == '.');
            assert(name =~= stem_of(name).push('.') + e);
            if e.contains('.') {
                let k = choose|k: int| 0 <= k < e.len() && e[k] == '.';
                assert(name[i + 1 + k] == '.');
                assert(occurs_at(name, "."@, i + 1 + k));
            }
        },
        None => {},
    }
}

/// The file name of a path is what stands behind its last separator, whatever the directories: on Unix
/// `/` separates, on Windows `\\` does too; a separator at the end does not matter.
pub proof fn law_name_behind_directories(dir: Seq<char>, name: Seq<char>)
    requires
        bare_name(name),
    ensures
        named_file(dir.push('/') + name, Platform::OtherUnix) == Some(name),
        named_file(dir.push('/') + name, Platform::MacOs) == Some(name),
        named_file((dir.push('/') + name).push('/'), Platform::OtherUnix) == Some(name),
        !dir.contains(':') ==> named_file(dir.push('\\') + name, Platform::Windows) == Some(name),
        !dir.contains(':') ==> named_file(dir.push('/') + name, Platform::Windows) == Some(name),
{
    lemma_bare_name(name);
    lemma_last_part(dir, name);
    let path = dir.push('/') + name;
    let none = Seq::<char>::empty();
    crate::split::law_split_joined(path, '/', none);
    assert(path.push('/') + none =~= path.push('/'));
    crate::split::lemma_index_of(none, '/', 0);
    assert(split(none, '/') == seq![none]);
    let parts = split(path.push('/'), '/');
    assert(parts.last() == none);
    assert(parts.drop_last() =~= split(path, '/'));
    if !dir.contains(':') {
        let w = dir.push('\\') + name;
        if on_drive(w) {
            lemma_no_drive(dir, '\\', name);
        }
        if on_drive(path) {
            lemma_no_drive(dir, '/', name);
        }
        lemma_slashed_name(name);
        assert(slashed(w) =~= slashed(dir).push('/') + name);
        assert(slashed(path) =~= slashed(dir).push('/') + name);
        lemma_last_part(slashed(dir), name);
    }
}

proof fn lemma_slashed_name(name: Seq<char>)
    requires
        !name.contains('\\'),
    ensures
        slashed(name) == name,
{
    assert forall|i: int| 0 <= i < name.len() implies slashed(name)[i] == #[trigger] name[i] by {
        assert(name.contains(name[i]));
    }
    assert(slashed(name) =~= name);
}

proof fn lemma_no_drive(dir: Seq<char>, sep: char, name: Seq<char>)
    requires
        !dir.contains(':'),
        bare_name(name),
        sep == '/' || sep == '\\',
    ensures
        !on_drive(dir.push(sep) + name),
{
    let p = dir.push(sep) + name;
    if on_drive(p) {
        if dir.len() >= 2 {
            assert(dir[1] == p[1]);
            assert(dir.contains(dir[1]));
        } else if dir.len() == 1 {
            assert(p[1] == sep);
        } else {
            assert(p[0] == sep);
        }
    }
}

proof fn lemma_last_part(dir: Seq<char>, name: Seq<char>)
    requires
        bare_name(name),
    ensures
        split(dir.push('/') + name, '/').last() == name,
        last_named(split(dir.push('/') + name, '/')) == Some(name),
{
    crate::split::law_split_joined(dir, '/', name);
    crate::split::lemma_index_of(name, '/', 0);
    let i = crate::split::index_of(name, '/', 0);
    if i < name.len() {
        assert(name.contains(name[i]));
    }
    assert(split(name, '/') == seq![name]);
}

/// A path that is not empty, has no `..` in it and does not begin with `/` is accepted on Unix, and one
/// that begins with no separator and has no `:` on every system; an empty path and one with `..` in it
/// are refused on every system.
pub proof fn law_relative_paths_are_accepted(raw: Seq<char>, platform: Platform, accepted: bool)
    requires
        path_verdict(raw, platform, accepted),
    ensures
        raw.len() == 0 || holds(raw, ".."@) ==> !accepted,
        raw.len() > 0 && !holds(raw, ".."@) && raw[0] != '/' && (platform == Platform::MacOs
            || platform == Platform::OtherUnix) ==> accepted,
        raw.len() > 0 && !holds(raw, ".."@) && raw[0] != '/' && raw[0] != '\\' && !raw.contains(':')
            ==> accepted,
        raw.len() > 0 && raw[0] == '/' && (platform == Platform::MacOs || platform
            == Platform::OtherUnix) ==> !accepted,
        platform == Platform::Windows && raw.len() >= 3 && (('a' <= raw[0] && raw[0] <= 'z') || (
        'A' <= raw[0] && raw[0] <= 'Z')) && raw[1] == ':' && (raw[2] == '/' || raw[2] == '\\')
            ==> !accepted,
{
}

/// A path is taken over where it is not empty, has no `..` in it and is not absolute, and only there.
pub proof fn law_accepted_unless(raw: Seq<char>, absolute: bool)
    ensures
        accepted_unless(raw, absolute) <==> raw.len() > 0 && !holds(raw, ".."@) && !absolute,
{
}

/// A file name without directories has its own stem and its own extension on every system: what stands
/// before and behind its last dot, if that is not its first character.
pub proof fn law_parts_of_a_name(
    stem: Seq<char>,
    ext: Seq<char>,
    platform: Platform,
    found_stem: Option<Seq<char>>,
    found_ext: Option<Seq<char>>,
)
    requires
        stem.len() > 0,
        !ext.contains('.'),
        bare_name(stem + seq!['.'] + ext),
        stem_known(stem + seq!['.'] + ext, platform, found_stem),
        extension_known(stem + seq!['.'] + ext, platform, found_ext),
    ensures
        found_stem == Some(stem),
        found_ext == Some(ext),
{
    let name = stem + seq!['.'] + ext;
    let n = stem.len() as int;
    lemma_bare_name(name);
    law_stem_and_extension(name);
    assert(name[n] == '.');
    let e = extension_of(name)->0;
    let m = stem_of(name).len() as int;
    assert(name == stem_of(name).push('.') + e);
    assert(name[m] == '.');
    if m < n {
        assert(e[n - m - 1] == name[n]);
        assert(e.contains('.'));
    }
    if m > n {
        assert(ext[m - n - 1] == name[m]);
        assert(ext.contains('.'));
    }
    assert(stem_of(name) =~= name.take(m));
    assert(stem =~= name.take(n));
    assert(e =~= name.skip(m + 1));
    assert(ext =~= name.skip(n + 1));
}

} // verus!
