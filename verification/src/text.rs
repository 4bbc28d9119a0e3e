//! Text as sequences of characters: searching, trimming, splitting, case and numbers.
use vstd::prelude::*;

verus! {

broadcast use vstd::string::group_string_axioms;

/// `String::push` appends one character.
pub assume_specification[ String::push ](s: &mut String, c: char)
    ensures
        final(s)@ == old(s)@.push(c),
;

/// The texts that a list of strings holds.
pub open spec fn texts(v: Seq<String>) -> Seq<Seq<char>> {
    v.map_values(|s: String| s@)
}

/// Takes a text apart into its characters.
pub fn chars(s: &str) -> (v: Vec<char>)
    ensures
        v@ == s@,
{
    let mut v: Vec<char> = Vec::new();
    for c in it: s.chars()
        invariant
            it.seq() == s@,
            v@ == s@.take(it.index() as int),
    {
        v.push(c);
    }
    v
}

/// Puts characters together to a text.
pub fn text_of(cs: &[char]) -> (s: String)
    ensures
        s@ == cs@,
{
    let mut s = String::new();
    for i in 0..cs.len()
        invariant
            s@ == cs@.take(i as int),
    {
        s.push(cs[i]);
    }
    s
}

/// Tells whether two texts are the same.
pub fn same(a: &str, b: &str) -> (r: bool)
    ensures
        r == (a@ == b@),
{
    a.to_owned() == b.to_owned()
}

/// The number of bytes of a text in UTF-8.
pub open spec fn byte_len(s: Seq<char>) -> nat {
    vstd::utf8::encode_utf8(s).len()
}

/// Counts the bytes of a text in UTF-8.
pub fn bytes_in(s: &str) -> (n: usize)
    ensures
        n == byte_len(s@),
{
    s.as_bytes().len()
}

/// A text without its characters from position `n` on.
pub open spec fn first_chars(s: Seq<char>, n: nat) -> Seq<char> {
    if s.len() <= n {
        s
    } else {
        s.take(n as int)
    }
}

/// Cuts a text after `n` characters.
pub fn take_chars(s: &str, n: usize) -> (r: String)
    ensures
        r@ == first_chars(s@, n as nat),
{
    let cs = chars(s);
    if cs.len() <= n {
        s.to_owned()
    } else {
        let mut r = String::new();
        for i in 0..n
            invariant
                n < cs@.len(),
                r@ == cs@.take(i as int),
        {
            r.push(cs[i]);
        }
        r
    }
}

/// Puts two texts behind one another.
pub fn cat(a: &str, b: &str) -> (r: String)
    ensures
        r@ == a@ + b@,
{
    let mut r = a.to_owned();
    r.append(b);
    r
}

/// `n` times the character `c`.
pub open spec fn repeated(c: char, n: nat) -> Seq<char> {
    Seq::new(n, |i: int| c)
}

/// Repeats a character.
pub fn repeat(c: char, n: usize) -> (r: String)
    ensures
        r@ == repeated(c, n as nat),
{
    let mut r = String::new();
    for i in 0..n
        invariant
            r@ == repeated(c, i as nat),
    {
        r.push(c);
    }
    r
}

/// A text filled up with blanks on the right to `width` characters.
pub open spec fn padded(s: Seq<char>, width: nat) -> Seq<char> {
    if s.len() >= width {
        s
    } else {
        s + repeated(' ', (width - s.len()) as nat)
    }
}

/// Fills a text up with blanks on the right.
pub fn pad_right(s: &str, width: usize) -> (r: String)
    ensures
        r@ == padded(s@, width as nat),
{
    let n: usize = s.unicode_len();
    let mut r = s.to_owned();
    if n < width {
        r.append(repeat(' ', width - n).as_str());
    }
    r
}

// ---------------------------------------------------------------------------
// Searching
// ---------------------------------------------------------------------------

/// `p` stands in `s` at position `i`.
pub open spec fn occurs_at(s: Seq<char>, p: Seq<char>, i: int) -> bool {
    0 <= i && i + p.len() <= s.len() && s.subrange(i, i + p.len()) == p
}

/// `s` begins with `p`.
pub open spec fn has_prefix(s: Seq<char>, p: Seq<char>) -> bool {
    occurs_at(s, p, 0)
}

/// `p` stands somewhere in `s`.
pub open spec fn holds(s: Seq<char>, p: Seq<char>) -> bool {
    exists|i: int| occurs_at(s, p, i)
}

/// The first position from `from` on at which `p` stands in `s`.
pub open spec fn find_from(s: Seq<char>, p: Seq<char>, from: int) -> Option<int>
    decreases s.len() + 1 - from,
{
    if from < 0 || from + p.len() > s.len() {
        None
    } else if occurs_at(s, p, from) {
        Some(from)
    } else {
        find_from(s, p, from + 1)
    }
}

/// The last position before `end` at which `p` stands in `s`.
pub open spec fn rfind_before(s: Seq<char>, p: Seq<char>, end: int) -> Option<int>
    decreases end,
{
    if end <= 0 {
        None
    } else if occurs_at(s, p, end - 1) {
        Some(end - 1)
    } else {
        rfind_before(s, p, end - 1)
    }
}

/// The last position at which `p` stands in `s`.
pub open spec fn rfind(s: Seq<char>, p: Seq<char>) -> Option<int> {
    rfind_before(s, p, s.len() as int + 1)
}

/// `find_from` gives the first position, if there is one.
pub proof fn lemma_find_from(s: Seq<char>, p: Seq<char>, from: int)
    requires
        0 <= from,
    ensures
        match find_from(s, p, from) {
            Some(i) => from <= i && occurs_at(s, p, i) && forall|j: int|
                from <= j < i ==> !occurs_at(s, p, j),
            None => forall|j: int| from <= j ==> !occurs_at(s, p, j),
        },
    decreases s.len() + 1 - from,
{
    if from + p.len() <= s.len() && !occurs_at(s, p, from) {
        lemma_find_from(s, p, from + 1);
    }
}

/// `rfind` gives the last position, if there is one.
pub proof fn lemma_rfind(s: Seq<char>, p: Seq<char>)
    ensures
        match rfind(s, p) {
            Some(i) => occurs_at(s, p, i) && forall|j: int| i < j ==> !occurs_at(s, p, j),
            None => forall|j: int| !occurs_at(s, p, j),
        },
{
    lemma_rfind_before(s, p, s.len() as int + 1);
}

proof fn lemma_rfind_before(s: Seq<char>, p: Seq<char>, end: int)
    ensures
        match rfind_before(s, p, end) {
            Some(i) => occurs_at(s, p, i) && forall|j: int|
                i < j < end ==> !occurs_at(s, p, j),
            None => forall|j: int| j < end ==> !occurs_at(s, p, j),
        },
    decreases end,
{
    if end > 0 && !occurs_at(s, p, end - 1) {
        lemma_rfind_before(s, p, end - 1);
    }
}

/// Tells whether `p` stands in `s` at position `i`.
pub fn stands_at(s: &[char], p: &[char], i: usize) -> (r: bool)
    ensures
        r == occurs_at(s@, p@, i as int),
{
    if i > s.len() || p.len() > s.len() - i {
        return false;
    }
    for k in 0..p.len()
        invariant
            i + p@.len() <= s@.len() <= usize::MAX,
            forall|j: int| 0 <= j < k ==> s@[i + j] == p@[j],
    {
        if s[i + k] != p[k] {
            assert(s@.subrange(i as int, i + p@.len())[k as int] != p@[k as int]);
            return false;
        }
    }
    assert(s@.subrange(i as int, i + p@.len()) =~= p@);
    true
}

/// Finds the first position from `from` on at which `p` stands in `s`.
pub fn find(s: &[char], p: &[char], from: usize) -> (r: Option<usize>)
    ensures
        match r {
            Some(i) => find_from(s@, p@, from as int) == Some(i as int),
            None => find_from(s@, p@, from as int) is None,
        },
{
    let mut i: usize = from;
    while i <= s.len() && p.len() <= s.len() - i
        invariant
            find_from(s@, p@, from as int) == find_from(s@, p@, i as int),
        decreases s@.len() + 1 - i,
    {
        if stands_at(s, p, i) {
            return Some(i);
        }
        if i == s.len() {
            assert(find_from(s@, p@, i + 1) is None);
            return None;
        }
        i = i + 1;
    }
    None
}

/// Finds the last position at which `p` stands in `s`.
pub fn find_last(s: &[char], p: &[char]) -> (r: Option<usize>)
    ensures
        match r {
            Some(i) => rfind(s@, p@) == Some(i as int),
            None => rfind(s@, p@) is None,
        },
{
    let mut i: usize = s.len();
    while i > 0
        invariant
            i <= s@.len(),
            rfind(s@, p@) == rfind_before(s@, p@, i + 1),
        decreases i,
    {
        if stands_at(s, p, i) {
            return Some(i);
        }
        i = i - 1;
    }
    if stands_at(s, p, 0) {
        return Some(0);
    }
    assert(rfind_before(s@, p@, 0) is None);
    None
}

/// Tells whether `s` begins with `p`.
pub fn starts_with(s: &str, p: &str) -> (r: bool)
    ensures
        r == has_prefix(s@, p@),
{
    stands_at(&chars(s), &chars(p), 0)
}

/// `p` stands at the end of `s`.
pub open spec fn has_suffix(s: Seq<char>, p: Seq<char>) -> bool {
    p.len() <= s.len() && s.skip(s.len() - p.len()) == p
}

/// Tells whether a text ends with another one.
pub fn ends_with(s: &str, p: &str) -> (r: bool)
    ensures
        r == has_suffix(s@, p@),
{
    let cs = chars(s);
    let ps = chars(p);
    if ps.len() > cs.len() {
        return false;
    }
    let at: usize = cs.len() - ps.len();
    assert(s@.subrange(at as int, at as int + p@.len()) =~= s@.skip(at as int));
    stands_at(&cs, &ps, at)
}

/// Tells whether `p` stands somewhere in `s`.
pub fn contains(s: &str, p: &str) -> (r: bool)
    ensures
        r == holds(s@, p@),
{
    let r = find(&chars(s), &chars(p), 0);
    proof {
        lemma_find_from(s@, p@, 0);
    }
    r.is_some()
}

// ---------------------------------------------------------------------------
// White space, control characters and case
// ---------------------------------------------------------------------------

/// The characters with the Unicode property `White_Space`.
pub open spec fn is_white(c: char) -> bool {
    let n = c as u32;
    ||| 0x09 <= n <= 0x0d
    ||| n == 0x20
    ||| n == 0x85
    ||| n == 0xa0
    ||| n == 0x1680
    ||| 0x2000 <= n <= 0x200a
    ||| n == 0x2028
    ||| n == 0x2029
    ||| n == 0x202f
    ||| n == 0x205f
    ||| n == 0x3000
}

/// Tells whether a character is white space.
pub fn white(c: char) -> (r: bool)
    ensures
        r == is_white(c),
{
    let n: u32 = c as u32;
    (0x09 <= n && n <= 0x0d) || n == 0x20 || n == 0x85 || n == 0xa0 || n == 0x1680 || (0x2000 <= n
        && n <= 0x200a) || n == 0x2028 || n == 0x2029 || n == 0x202f || n == 0x205f || n == 0x3000
}

/// The control characters: the general category `Cc` of Unicode.
pub open spec fn is_control(c: char) -> bool {
    (c as u32) < 0x20 || 0x7f <= (c as u32) <= 0x9f
}

/// Tells whether a character is a control character.
pub fn control(c: char) -> (r: bool)
    ensures
        r == is_control(c),
{
    let n: u32 = c as u32;
    n < 0x20 || (0x7f <= n && n <= 0x9f)
}

/// The ASCII letters.
pub open spec fn is_letter(c: char) -> bool {
    ('a' <= c && c <= 'z') || ('A' <= c && c <= 'Z')
}

/// Tells whether a character is an ASCII letter.
pub fn letter(c: char) -> (r: bool)
    ensures
        r == is_letter(c),
{
    ('a' <= c && c <= 'z') || ('A' <= c && c <= 'Z')
}

/// The ASCII letters and digits.
pub open spec fn is_alnum(c: char) -> bool {
    ('a' <= c && c <= 'z') || ('A' <= c && c <= 'Z') || ('0' <= c && c <= '9')
}

/// Tells whether a character is an ASCII letter or digit.
pub fn alnum(c: char) -> (r: bool)
    ensures
        r == is_alnum(c),
{
    ('a' <= c && c <= 'z') || ('A' <= c && c <= 'Z') || ('0' <= c && c <= '9')
}

/// A text without the white space at its beginning.
pub open spec fn trimmed_start(s: Seq<char>) -> Seq<char>
    decreases s.len(),
{
    if s.len() > 0 && is_white(s[0]) {
        trimmed_start(s.skip(1))
    } else {
        s
    }
}

/// A text without the white space at its end.
pub open spec fn trimmed_end(s: Seq<char>) -> Seq<char>
    decreases s.len(),
{
    if s.len() > 0 && is_white(s.last()) {
        trimmed_end(s.drop_last())
    } else {
        s
    }
}

/// A text without the white space at its two ends.
pub open spec fn trimmed(s: Seq<char>) -> Seq<char> {
    trimmed_end(trimmed_start(s))
}

/// Removes the white space at the beginning.
pub fn trim_start(s: &str) -> (r: String)
    ensures
        r@ == trimmed_start(s@),
{
    let n: usize = s.unicode_len();
    let cs = chars(s);
    let mut i: usize = 0;
    assert(s@.skip(0) =~= s@);
    while i < n && white(cs[i])
        invariant
            i <= n == cs@.len(),
            cs@ == s@,
            trimmed_start(s@) == trimmed_start(s@.skip(i as int)),
        decreases n - i,
    {
        assert(s@.skip(i as int).skip(1) =~= s@.skip(i + 1));
        i = i + 1;
    }
    let r = s.substring_char(i, n).to_owned();
    assert(r@ =~= s@.skip(i as int));
    r
}

/// Removes the white space at the two ends.
pub fn trim(s: &str) -> (r: String)
    ensures
        r@ == trimmed(s@),
{
    let t = trim_start(s);
    let cs = chars(t.as_str());
    let mut n: usize = cs.len();
    assert(t@.take(t@.len() as int) =~= t@);
    while n > 0 && white(cs[n - 1])
        invariant
            n <= cs@.len(),
            cs@ == t@,
            trimmed_end(t@) == trimmed_end(t@.take(n as int)),
        decreases n,
    {
        assert(t@.take(n as int).drop_last() =~= t@.take(n - 1));
        n = n - 1;
    }
    let r = t.as_str().substring_char(0, n).to_owned();
    assert(r@ =~= t@.take(n as int));
    r
}

/// Tells whether nothing but white space stands in a text.
pub fn blank(s: &str) -> (r: bool)
    ensures
        r == (trimmed(s@).len() == 0),
{
    trim(s).as_str().is_empty()
}

/// The lower-case form of an ASCII letter; any other character as it is.
pub open spec fn lower(c: char) -> char {
    if 'A' <= c && c <= 'Z' {
        ((c as u8) + 32) as char
    } else {
        c
    }
}

/// A text with its ASCII letters in lower case.
pub open spec fn lowered(s: Seq<char>) -> Seq<char> {
    s.map_values(|c: char| lower(c))
}

/// The lower-case form of an ASCII letter.
pub fn to_lower(c: char) -> (r: char)
    ensures
        r == lower(c),
{
    if 'A' <= c && c <= 'Z' {
        ((c as u8) + 32) as char
    } else {
        c
    }
}

/// Puts the ASCII letters of a text in lower case.
pub fn lower_ascii(s: &str) -> (r: String)
    ensures
        r@ == lowered(s@),
{
    let mut r = String::new();
    for c in it: s.chars()
        invariant
            it.seq() == s@,
            r@ == lowered(s@).take(it.index() as int),
    {
        r.push(to_lower(c));
    }
    assert(lowered(s@).take(s@.len() as int) =~= lowered(s@));
    r
}

/// Tells whether two texts differ at most in the case of ASCII letters.
pub fn same_ignoring_case(a: &str, b: &str) -> (r: bool)
    ensures
        r == (lowered(a@) == lowered(b@)),
{
    same(lower_ascii(a).as_str(), lower_ascii(b).as_str())
}

// ---------------------------------------------------------------------------
// Laws
// ---------------------------------------------------------------------------

/// Trimming takes a piece out of a text: what is left out before and behind it is white space, and
/// the piece neither begins nor ends with any.
pub proof fn law_trimmed(s: Seq<char>)
    ensures
        exists|a: int, b: int| #[trigger] trims_to(s, a, b) && trimmed(s) == s.subrange(a, b),
{
    lemma_trimmed_start(s, 0);
    assert(s.skip(0) =~= s);
    let t = trimmed_start(s);
    let a = s.len() - t.len();
    lemma_trimmed_end(t, t.len() as int);
    assert(t.take(t.len() as int) =~= t);
    let b = a + trimmed(s).len();
    assert(trimmed(s) =~= s.subrange(a, b));
    assert forall|i: int| b <= i < s.len() implies is_white(#[trigger] s[i]) by {
        assert(s[i] == t[i - a]);
    }
    if a < b {
        assert(s[a] == t[0]);
        assert(s[b - 1] == t[b - 1 - a]);
    }
    assert(trims_to(s, a, b));
}

/// The piece from `a` to `b` is what trimming leaves.
pub open spec fn trims_to(s: Seq<char>, a: int, b: int) -> bool {
    &&& 0 <= a <= b <= s.len()
    &&& forall|i: int| 0 <= i < a ==> is_white(#[trigger] s[i])
    &&& forall|i: int| b <= i < s.len() ==> is_white(#[trigger] s[i])
    &&& a < b ==> !is_white(s[a]) && !is_white(s[b - 1])
}

proof fn lemma_trimmed_start(s: Seq<char>, n: int)
    requires
        0 <= n <= s.len(),
    ensures
        ({
            let t = trimmed_start(s.skip(n));
            let a = s.len() - t.len();
            &&& n <= a <= s.len()
            &&& t == s.skip(a)
            &&& forall|i: int| n <= i < a ==> is_white(#[trigger] s[i])
            &&& a < s.len() ==> !is_white(s[a])
        }),
    decreases s.len() - n,
{
    if n < s.len() && is_white(s[n]) {
        assert(s.skip(n).skip(1) =~= s.skip(n + 1));
        lemma_trimmed_start(s, n + 1);
    } else {
        assert(s.skip(n) =~= s.skip(s.len() - s.skip(n).len()));
    }
}

proof fn lemma_trimmed_end(s: Seq<char>, n: int)
    requires
        0 <= n <= s.len(),
    ensures
        ({
            let t = trimmed_end(s.take(n));
            let b = t.len() as int;
            &&& 0 <= b <= n
            &&& t == s.take(b)
            &&& forall|i: int| b <= i < n ==> is_white(#[trigger] s[i])
            &&& b > 0 ==> !is_white(s[b - 1])
        }),
    decreases n,
{
    if n > 0 && is_white(s[n - 1]) {
        assert(s.take(n).drop_last() =~= s.take(n - 1));
        lemma_trimmed_end(s, n - 1);
    } else {
        assert(s.take(n) =~= s.take(s.take(n).len() as int));
    }
}

/// A text that neither begins nor ends with white space stays as it is.
pub proof fn law_trimmed_stays(s: Seq<char>)
    requires
        s.len() > 0 ==> !is_white(s[0]) && !is_white(s.last()),
    ensures
        trimmed(s) == s,
{
}

/// A text is filled up on its right, with blanks alone, to just the width where it is shorter.
pub proof fn law_padded(s: Seq<char>, width: nat)
    ensures
        has_prefix(padded(s, width), s),
        padded(s, width).len() == if s.len() >= width {
            s.len()
        } else {
            width
        },
        forall|i: int|
            s.len() <= i < padded(s, width).len() ==> #[trigger] padded(s, width)[i] == ' ',
{
    assert(padded(s, width).subrange(0, s.len() as int) =~= s);
}

/// In lower case each ASCII capital is the small letter, any other character stays, and nothing
/// changes when it is done again.
pub proof fn law_lowered(s: Seq<char>, i: int)
    requires
        0 <= i < s.len(),
    ensures
        lowered(s).len() == s.len(),
        'A' <= s[i] <= 'Z' ==> lowered(s)[i] as int == s[i] as int + ('a' as int - 'A' as int),
        !('A' <= s[i] <= 'Z') ==> lowered(s)[i] == s[i],
        lowered(lowered(s)) == lowered(s),
{
    assert forall|k: int| 0 <= k < s.len() implies lower(#[trigger] lowered(s)[k]) == lowered(
        s,
    )[k] by {
        let c = s[k];
        if 'A' <= c && c <= 'Z' {
            assert(lowered(s)[k] as int == c as int + 32);
        }
    }
    assert(lowered(lowered(s)) =~= lowered(s));
}

/// The last place of a text in another is where it stands for the last time.
pub proof fn law_last_place(a: Seq<char>, p: Seq<char>, b: Seq<char>)
    requires
        forall|j: int| a.len() < j ==> !#[trigger] occurs_at(a + p + b, p, j),
    ensures
        rfind(a + p + b, p) == Some(a.len() as int),
{
    let s = a + p + b;
    lemma_rfind(s, p);
    assert(s.subrange(a.len() as int, a.len() as int + p.len() as int) =~= p);
    assert(occurs_at(s, p, a.len() as int));
}

/// A text that stands in another at a place is what lies between what is before and what is behind
/// that place, and only such a text stands there.
pub proof fn law_places(a: Seq<char>, p: Seq<char>, b: Seq<char>, s: Seq<char>, i: int)
    ensures
        occurs_at(a + p + b, p, a.len() as int),
        holds(a + p + b, p),
        has_prefix(p + b, p),
        has_suffix(a + p, p),
        occurs_at(s, p, i) ==> s == s.take(i) + p + s.skip(i + p.len()),
        has_suffix(s, p) ==> s == s.take(s.len() - p.len()) + p,
{
    let n = a.len() as int;
    let m = p.len() as int;
    assert((a + p + b).subrange(n, n + m) =~= p);
    assert(occurs_at(a + p + b, p, n));
    assert((p + b).subrange(0, m) =~= p);
    assert((a + p).skip(n) =~= p);
    if occurs_at(s, p, i) {
        assert forall|k: int| 0 <= k < m implies s[i + k] == p[k] by {
            assert(s.subrange(i, i + m)[k] == p[k]);
        }
        assert(s =~= s.take(i) + p + s.skip(i + m));
    }
    if has_suffix(s, p) {
        assert(s =~= s.take(s.len() - m) + s.skip(s.len() - m));
    }
}

/// The first characters of a text are its beginning: all of it where it is short.
pub proof fn law_first_chars(s: Seq<char>, n: nat)
    ensures
        has_prefix(s, first_chars(s, n)),
        first_chars(s, n).len() == if s.len() < n {
            s.len()
        } else {
            n
        },
{
    assert(s.subrange(0, first_chars(s, n).len() as int) =~= first_chars(s, n));
}

/// White space before a text is left out, and nothing behind it.
pub proof fn law_trimmed_start(white: Seq<char>, s: Seq<char>)
    requires
        forall|i: int| 0 <= i < white.len() ==> is_white(#[trigger] white[i]),
        s.len() > 0 ==> !is_white(s[0]),
    ensures
        trimmed_start(white + s) == s,
    decreases white.len(),
{
    if white.len() > 0 {
        let rest = white.skip(1);
        assert forall|i: int| 0 <= i < rest.len() implies is_white(#[trigger] rest[i]) by {
            assert(rest[i] == white[i + 1]);
        }
        law_trimmed_start(rest, s);
        assert((white + s)[0] == white[0]);
        assert((white + s).skip(1) =~= rest + s);
    } else {
        assert(white + s =~= s);
    }
}

/// The kinds of characters: letters are those of ASCII in both cases, and digits go with them; control
/// characters lie below the blank and from the delete character on up to the blank that does not
/// break.
pub proof fn law_kinds_of_characters(c: char)
    ensures
        is_letter(c) <==> 'a' <= lower(c) <= 'z',
        is_alnum(c) <==> is_letter(c) || '0' <= c <= '9',
        is_control(c) <==> c < ' ' || '\u{7f}' <= c < '\u{a0}',
        is_white(c) && c < '\u{80}' <==> c == ' ' || '\t' <= c <= '\r',
        is_white('\u{85}') && is_white('\u{a0}') && is_white('\u{1680}') && is_white('\u{2028}')
            && is_white('\u{2029}') && is_white('\u{202f}') && is_white('\u{205f}') && is_white(
            '\u{3000}',
        ),
        '\u{2000}' <= c <= '\u{200a}' ==> is_white(c),
        is_letter(c) || is_alnum(c) ==> !is_white(c) && !is_control(c),
{
}

} // verus!
