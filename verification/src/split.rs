//! Taking a text apart at line ends and separators, and joining texts.
use crate::text::{chars, holds, occurs_at, texts};
use vstd::prelude::*;

verus! {

/// The first position from `from` on at which `c` stands, or the length.
pub open spec fn index_of(s: Seq<char>, c: char, from: int) -> int
    decreases s.len() - from,
{
    if from < 0 || from >= s.len() {
        s.len() as int
    } else if s[from] == c {
        from
    } else {
        index_of(s, c, from + 1)
    }
}

/// What `index_of` means.
pub proof fn lemma_index_of(s: Seq<char>, c: char, from: int)
    requires
        0 <= from <= s.len(),
    ensures
        from <= index_of(s, c, from) <= s.len(),
        index_of(s, c, from) < s.len() ==> s[index_of(s, c, from)] == c,
        forall|j: int| from <= j < index_of(s, c, from) ==> s[j] != c,
    decreases s.len() - from,
{
    if from < s.len() && s[from] != c {
        lemma_index_of(s, c, from + 1);
    }
}

/// The fields of a text between the separators `c`. There is always one.
pub open spec fn split(s: Seq<char>, c: char) -> Seq<Seq<char>>
    decreases s.len(),
    via split_decreases
{
    let i = index_of(s, c, 0);
    if i < s.len() {
        seq![s.take(i)] + split(s.skip(i + 1), c)
    } else {
        seq![s]
    }
}

#[via_fn]
proof fn split_decreases(s: Seq<char>, c: char) {
    lemma_index_of(s, c, 0);
}

/// A line without the carriage return at its end.
pub open spec fn without_cr(s: Seq<char>) -> Seq<char> {
    if s.len() > 0 && s.last() == '\r' {
        s.drop_last()
    } else {
        s
    }
}

/// The lines of a text. A line ends with a line feed, which a carriage return may precede; the
/// last line may lack that end, and then keeps a carriage return.
pub open spec fn lines(s: Seq<char>) -> Seq<Seq<char>>
    decreases s.len(),
    via lines_decreases
{
    let i = index_of(s, '\n', 0);
    if s.len() == 0 {
        seq![]
    } else if i < s.len() {
        seq![without_cr(s.take(i))] + lines(s.skip(i + 1))
    } else {
        seq![s]
    }
}

#[via_fn]
proof fn lines_decreases(s: Seq<char>) {
    lemma_index_of(s, '\n', 0);
}

/// The texts of a list one after the other, with `sep` between each two.
pub open spec fn join(list: Seq<Seq<char>>, sep: Seq<char>) -> Seq<char>
    decreases list.len(),
{
    if list.len() == 0 {
        seq![]
    } else if list.len() == 1 {
        list[0]
    } else {
        join(list.drop_last(), sep) + sep + list.last()
    }
}

/// Finds the first position from `from` on at which `c` stands.
fn position(cs: &[char], c: char, from: usize) -> (i: usize)
    requires
        from <= cs@.len(),
    ensures
        i == index_of(cs@, c, from as int),
        from <= i <= cs@.len(),
{
    let mut i: usize = from;
    while i < cs.len() && cs[i] != c
        invariant
            from <= i <= cs@.len(),
            index_of(cs@, c, from as int) == index_of(cs@, c, i as int),
        decreases cs@.len() - i,
    {
        i = i + 1;
    }
    i
}

/// The text that stands in `cs` from `a` to `b`.
pub fn slice_text(cs: &[char], a: usize, b: usize) -> (r: String)
    requires
        a <= b <= cs@.len(),
    ensures
        r@ == cs@.subrange(a as int, b as int),
{
    let mut r = String::new();
    let mut i: usize = a;
    while i < b
        invariant
            a <= i <= b <= cs@.len(),
            r@ == cs@.subrange(a as int, i as int),
        decreases b - i,
    {
        r.push(cs[i]);
        i = i + 1;
    }
    r
}

proof fn lemma_index_shift(s: Seq<char>, c: char, k: int, from: int)
    requires
        0 <= k <= s.len(),
        0 <= from <= s.len() - k,
    ensures
        index_of(s.skip(k), c, from) + k == index_of(s, c, from + k),
    decreases s.len() - k - from,
{
    if from < s.len() - k && s[from + k] != c {
        lemma_index_shift(s, c, k, from + 1);
    }
}

/// Splits a text at the separators `c`.
pub fn split_at_char(s: &str, c: char) -> (r: Vec<String>)
    ensures
        texts(r@) == split(s@, c),
{
    let cs = chars(s);
    let mut out: Vec<String> = Vec::new();
    let mut start: usize = 0;
    assert(cs@.skip(0) =~= cs@);
    loop
        invariant_except_break
            start <= cs@.len(),
            texts(out@) + split(cs@.skip(start as int), c) =~= split(cs@, c),
        ensures
            texts(out@) == split(cs@, c),
        decreases cs@.len() - start,
    {
        let ghost rest = cs@.skip(start as int);
        let i: usize = position(&cs, c, start);
        proof {
            lemma_index_shift(cs@, c, start as int, 0);
            lemma_index_of(cs@, c, start as int);
        }
        let ghost before = texts(out@);
        out.push(slice_text(&cs, start, i));
        assert(texts(out@) =~= before.push(cs@.subrange(start as int, i as int)));
        assert(cs@.subrange(start as int, i as int) =~= rest.take(i - start));
        if i == cs.len() {
            assert(rest.take(i - start) =~= rest);
            assert(texts(out@) =~= split(cs@, c));
            break ;
        }
        assert(rest.skip(i - start + 1) =~= cs@.skip(i + 1));
        start = i + 1;
    }
    out
}

/// Takes a text apart into its lines.
pub fn text_lines(s: &str) -> (r: Vec<String>)
    ensures
        texts(r@) == lines(s@),
{
    let cs = chars(s);
    let mut out: Vec<String> = Vec::new();
    let mut start: usize = 0;
    assert(cs@.skip(0) =~= cs@);
    while start < cs.len()
        invariant
            start <= cs@.len(),
            texts(out@) + lines(cs@.skip(start as int)) =~= lines(cs@),
        decreases cs@.len() - start,
    {
        let ghost rest = cs@.skip(start as int);
        let i: usize = position(&cs, '\n', start);
        proof {
            lemma_index_shift(cs@, '\n', start as int, 0);
            lemma_index_of(cs@, '\n', start as int);
        }
        let ghost before = texts(out@);
        assert(cs@.subrange(start as int, i as int) =~= rest.take(i - start));
        if i == cs.len() {
            out.push(slice_text(&cs, start, i));
            assert(texts(out@) =~= before.push(cs@.subrange(start as int, i as int)));
            assert(rest.take(i - start) =~= rest);
            assert(cs@.skip(i as int) =~= seq![]);
            start = i;
        } else {
            let end: usize = if i > start && cs[i - 1] == '\r' {
                i - 1
            } else {
                i
            };
            out.push(slice_text(&cs, start, end));
            assert(texts(out@) =~= before.push(cs@.subrange(start as int, end as int)));
            assert(cs@.subrange(start as int, end as int) =~= without_cr(rest.take(i - start)));
            assert(rest.skip(i - start + 1) =~= cs@.skip(i + 1));
            start = i + 1;
        }
    }
    assert(cs@.skip(start as int) =~= seq![]);
    out
}

/// Joins texts with a separator between each two.
pub fn join_texts(list: &[String], sep: &str) -> (r: String)
    ensures
        r@ == join(texts(list@), sep@),
{
    let mut r = String::new();
    for i in 0..list.len()
        invariant
            r@ == join(texts(list@).take(i as int), sep@),
    {
        assert(texts(list@).take(i + 1).drop_last() =~= texts(list@).take(i as int));
        if i > 0 {
            r.append(sep);
        }
        r.append(list[i].as_str());
        assert(r@ =~= join(texts(list@).take(i + 1), sep@));
    }
    assert(texts(list@).take(list@.len() as int) =~= texts(list@));
    r
}

/// What stands between separators, joined with them again, is the whole text, and no part has a
/// separator in it.
pub proof fn law_split_and_join(s: Seq<char>, c: char)
    ensures
        join(split(s, c), seq![c]) == s,
        split(s, c).len() > 0,
        forall|k: int| 0 <= k < split(s, c).len() ==> !(#[trigger] split(s, c)[k]).contains(c),
    decreases s.len(),
{
    let i = index_of(s, c, 0);
    lemma_index_of(s, c, 0);
    if i < s.len() {
        let rest = split(s.skip(i + 1), c);
        law_split_and_join(s.skip(i + 1), c);
        lemma_join_front(s.take(i), rest, seq![c]);
        assert(s =~= s.take(i) + seq![c] + s.skip(i + 1));
        assert forall|k: int| 0 <= k < split(s, c).len() implies !(#[trigger] split(
            s,
            c,
        )[k]).contains(c) by {
            if k > 0 {
                assert(split(s, c)[k] == rest[k - 1]);
            }
        }
    } else {
        assert(split(s, c) == seq![s]);
        assert(split(s, c)[0] == s);
    }
}

proof fn lemma_join_front(a: Seq<char>, rest: Seq<Seq<char>>, sep: Seq<char>)
    requires
        rest.len() > 0,
    ensures
        join(seq![a] + rest, sep) == a + sep + join(rest, sep),
    decreases rest.len(),
{
    let all = seq![a] + rest;
    if rest.len() == 1 {
        assert(all.drop_last() =~= seq![a]);
        assert(all.last() == rest[0]);
        assert(join(seq![a], sep) == a);
    } else {
        lemma_join_front(a, rest.drop_last(), sep);
        assert(all.drop_last() =~= seq![a] + rest.drop_last());
        assert(join(all, sep) =~= a + sep + join(rest, sep));
    }
}

/// A separator between two texts makes the parts of the one and those of the other.
pub proof fn law_split_joined(a: Seq<char>, c: char, b: Seq<char>)
    ensures
        split(a.push(c) + b, c) == split(a, c) + split(b, c),
    decreases a.len(),
{
    let t = a.push(c) + b;
    let i = index_of(a, c, 0);
    let j = index_of(t, c, 0);
    lemma_index_of(a, c, 0);
    lemma_index_of(t, c, 0);
    assert(t[a.len() as int] == c);
    assert(j == i) by {
        if j < i {
            assert(a[j] == t[j]);
        } else if i < j && i < a.len() {
            assert(t[i] == a[i]);
        }
    }
    if i < a.len() {
        law_split_joined(a.skip(i + 1), c, b);
        assert(t.skip(i + 1) =~= a.skip(i + 1).push(c) + b);
        assert(t.take(i) =~= a.take(i));
        assert(split(t, c) =~= split(a, c) + split(b, c));
    } else {
        assert(t.take(i) =~= a);
        assert(t.skip(i + 1) =~= b);
        assert(split(t, c) =~= split(a, c) + split(b, c));
    }
}

/// The texts of a list that have no separator in them come back from the joined text, in front of the
/// parts of what is joined behind them.
pub proof fn law_join_and_split(list: Seq<Seq<char>>, c: char, rest: Seq<char>)
    requires
        list.len() > 0,
        forall|k: int| 0 <= k < list.len() ==> !(#[trigger] list[k]).contains(c),
    ensures
        split(join(list, seq![c]).push(c) + rest, c) == list + split(rest, c),
    decreases list.len(),
{
    let last = list.last();
    assert(last == list[list.len() - 1]);
    let i = index_of(last, c, 0);
    lemma_index_of(last, c, 0);
    if i < last.len() {
        assert(last.contains(last[i]));
    }
    assert(split(last, c) == seq![last]);
    law_split_joined(last, c, rest);
    if list.len() == 1 {
        assert(split(last.push(c) + rest, c) =~= list + split(rest, c));
    } else {
        let init = list.drop_last();
        assert forall|k: int| 0 <= k < init.len() implies !(#[trigger] init[k]).contains(c) by {
            assert(init[k] == list[k]);
        }
        law_join_and_split(init, c, last.push(c) + rest);
        assert(join(list, seq![c]).push(c) + rest =~= join(init, seq![c]).push(c) + (last.push(c)
            + rest));
        assert(split(join(list, seq![c]).push(c) + rest, c) =~= list + split(rest, c));
    }
}

/// A line break ends a line; what stands behind it is read by itself.
pub proof fn law_line_by_line(line: Seq<char>, rest: Seq<char>)
    requires
        !line.contains('\n'),
        line.len() > 0 ==> line.last() != '\r',
    ensures
        lines(line.push('\n') + rest) == seq![line] + lines(rest),
        lines(line.push('\r').push('\n') + rest) == seq![line] + lines(rest),
        line.len() > 0 ==> lines(line) == seq![line],
        lines(seq![]) == Seq::<Seq<char>>::empty(),
{
    let n = line.len() as int;
    let t = line.push('\n') + rest;
    let u = line.push('\r').push('\n') + rest;
    lemma_index_of(t, '\n', 0);
    lemma_index_of(u, '\n', 0);
    lemma_index_of(line, '\n', 0);
    let i = index_of(t, '\n', 0);
    let j = index_of(u, '\n', 0);
    assert(t[n] == '\n');
    assert(u[n] == '\r');
    assert(u[n + 1] == '\n');
    if i < n {
        assert(line[i] == t[i]);
    }
    if j < n {
        assert(line[j] == u[j]);
    }
    assert(i == n && j == n + 1);
    assert(t.take(n) =~= line);
    assert(t.skip(n + 1) =~= rest);
    assert(u.take(n + 1) =~= line.push('\r'));
    assert(u.take(n + 1).drop_last() =~= line);
    assert(u.skip(n + 2) =~= rest);
    if line.len() > 0 && index_of(line, '\n', 0) < n {
        assert(line.contains(line[index_of(line, '\n', 0)]));
    }
}

/// Each text of a list stands in the joined text.
pub proof fn law_join_holds(list: Seq<Seq<char>>, sep: Seq<char>, i: int)
    requires
        0 <= i < list.len(),
    ensures
        holds(join(list, sep), list[i]),
    decreases list.len(),
{
    let s = join(list, sep);
    let p = list[i];
    if list.len() == 1 {
        assert(s.subrange(0, p.len() as int) =~= p);
        assert(occurs_at(s, p, 0));
    } else if i == list.len() - 1 {
        let j = s.len() - p.len();
        assert(s.subrange(j, j + p.len()) =~= p);
        assert(occurs_at(s, p, j));
    } else {
        let before = join(list.drop_last(), sep);
        law_join_holds(list.drop_last(), sep, i);
        assert(list.drop_last()[i] == p);
        let j = choose|j: int| occurs_at(before, p, j);
        assert(s.subrange(j, j + p.len()) =~= before.subrange(j, j + p.len()));
        assert(occurs_at(s, p, j));
    }
}

/// Joining puts one separator between each two texts, and none before the first or behind the last.
pub proof fn law_joined(list: Seq<Seq<char>>, s: Seq<char>, sep: Seq<char>)
    ensures
        join(seq![], sep) == Seq::<char>::empty(),
        join(seq![s], sep) == s,
        list.len() > 0 ==> join(list.push(s), sep) == join(list, sep) + sep + s,
{
    assert(list.push(s).drop_last() =~= list);
}

/// Of the carriage returns at the end of a line only the last goes with the line break, and one in a
/// last line without a break stays.
pub proof fn law_carriage_returns(line: Seq<char>, rest: Seq<char>)
    requires
        !line.contains('\n'),
    ensures
        lines(line.push('\r').push('\n') + rest) == seq![line] + lines(rest),
        line.len() > 0 ==> lines(line) == seq![line],
        line.len() > 0 && line.last() != '\r' ==> lines(line.push('\n')) == seq![line],
{
    let s = line.push('\r').push('\n') + rest;
    let n = line.len() as int + 1;
    lemma_index_of(s, '\n', 0);
    let i = index_of(s, '\n', 0);
    assert(s[n] == '\n');
    assert forall|k: int| 0 <= k < n implies #[trigger] s[k] != '\n' by {
        if k < line.len() {
            assert(s[k] == line[k]);
            assert(line.contains(line[k]));
        }
    }
    assert(i == n);
    assert(s.take(i) =~= line.push('\r'));
    assert(without_cr(s.take(i)) =~= line);
    assert(s.skip(i + 1) =~= rest);
    if line.len() > 0 {
        lemma_index_of(line, '\n', 0);
        let j = index_of(line, '\n', 0);
        if j < line.len() {
            assert(line.contains(line[j]));
        }
        if line.last() != '\r' {
            law_line_by_line(line, seq![]);
            assert(line.push('\n') + Seq::<char>::empty() =~= line.push('\n'));
        }
    }
}

} // verus!
