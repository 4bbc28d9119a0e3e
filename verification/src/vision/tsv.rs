//! The table that Tesseract writes: one row for each page, block, paragraph, line and word.
use crate::numbers::{
    is_digit, law_signed_digits, law_signed_round_trip, parse_signed, read_signed_or, signed_decimal,
    signed_or,
};
use crate::split::{
    index_of, join, join_texts, law_join_and_split, law_split_and_join, lemma_index_of, lines, split, split_at_char, text_lines, without_cr,
};
use crate::text::{has_prefix, is_white, starts_with, texts, trim, trimmed, trimmed_start};
use vstd::prelude::*;

verus! {

/// A word that was recognised, the place where it stands, and the field with its confidence.
pub struct WordBox {
    pub page: i32,
    pub block: i32,
    pub par: i32,
    pub line: i32,
    pub left: i32,
    pub top: i32,
    pub width: i32,
    pub height: i32,
    pub conf: String,
    pub text: String,
}

/// The view of a word.
pub struct WordView {
    pub page: int,
    pub block: int,
    pub par: int,
    pub line: int,
    pub left: int,
    pub top: int,
    pub width: int,
    pub height: int,
    pub conf: Seq<char>,
    pub text: Seq<char>,
}

impl View for WordBox {
    type V = WordView;

    open spec fn view(&self) -> WordView {
        WordView {
            page: self.page as int,
            block: self.block as int,
            par: self.par as int,
            line: self.line as int,
            left: self.left as int,
            top: self.top as int,
            width: self.width as int,
            height: self.height as int,
            conf: self.conf@,
            text: self.text@,
        }
    }
}

/// The views of a list of words.
pub open spec fn words_view(words: Seq<WordBox>) -> Seq<WordView> {
    words.map_values(|w: WordBox| w@)
}

/// What a table holds: the size of the page, the words, the paragraphs and the lines.
pub struct Tsv {
    pub page_size: Option<(i32, i32)>,
    pub words: Vec<WordBox>,
    pub paragraphs: Vec<String>,
    pub ocr_lines: Vec<String>,
}

/// The view of a table.
pub struct TsvView {
    pub page_size: Option<(int, int)>,
    pub words: Seq<WordView>,
    pub paragraphs: Seq<Seq<char>>,
    pub ocr_lines: Seq<Seq<char>>,
}

/// A pair of numbers that may be missing.
pub open spec fn size_view(p: Option<(i32, i32)>) -> Option<(int, int)> {
    match p {
        Some((w, h)) => Some((w as int, h as int)),
        None => None,
    }
}

impl View for Tsv {
    type V = TsvView;

    open spec fn view(&self) -> TsvView {
        TsvView {
            page_size: size_view(self.page_size),
            words: words_view(self.words@),
            paragraphs: texts(self.paragraphs@),
            ocr_lines: texts(self.ocr_lines@),
        }
    }
}

/// What one row of the table says.
pub enum Row {
    Nothing,
    Page(int, int),
    Paragraph(Seq<char>),
    Line(Seq<char>),
    Word(WordView),
}

/// The text of a row: its twelfth field and all behind it.
pub open spec fn row_text(parts: Seq<Seq<char>>) -> Seq<char> {
    trimmed(join(parts.skip(11), "\t"@))
}

/// The word of a row.
pub open spec fn row_word(parts: Seq<Seq<char>>) -> WordView {
    WordView {
        page: signed_or(parts[1], 0),
        block: signed_or(parts[2], 0),
        par: signed_or(parts[3], 0),
        line: signed_or(parts[4], 0),
        left: signed_or(parts[6], 0),
        top: signed_or(parts[7], 0),
        width: signed_or(parts[8], 0),
        height: signed_or(parts[9], 0),
        conf: parts[10],
        text: row_text(parts),
    }
}

/// Reads one row. The first field tells its level: 1 for the page, 3 for a paragraph, 4 for a line
/// and 5 for a word. A row that is short, commented out or without text says nothing.
pub open spec fn row(line: Seq<char>) -> Row {
    let parts = split(line, '\t');
    let level = signed_or(parts[0], -1);
    let width = signed_or(parts[8], 0);
    let height = signed_or(parts[9], 0);
    if line.len() == 0 || has_prefix(line, "#"@) || parts.len() < 12 {
        Row::Nothing
    } else if level == 1 && width > 0 && height > 0 {
        Row::Page(width, height)
    } else if level == 3 && row_text(parts).len() > 0 {
        Row::Paragraph(row_text(parts))
    } else if level == 4 && row_text(parts).len() > 0 {
        Row::Line(row_text(parts))
    } else if level == 5 && row_text(parts).len() > 0 {
        Row::Word(row_word(parts))
    } else {
        Row::Nothing
    }
}

/// What the rows say together; of several page rows the last one counts.
pub open spec fn table(rows: Seq<Seq<char>>) -> TsvView
    decreases rows.len(),
{
    if rows.len() == 0 {
        TsvView { page_size: None, words: seq![], paragraphs: seq![], ocr_lines: seq![] }
    } else {
        let t = table(rows.drop_last());
        match row(rows.last()) {
            Row::Nothing => t,
            Row::Page(w, h) => TsvView { page_size: Some((w, h)), ..t },
            Row::Paragraph(s) => TsvView { paragraphs: t.paragraphs.push(s), ..t },
            Row::Line(s) => TsvView { ocr_lines: t.ocr_lines.push(s), ..t },
            Row::Word(w) => TsvView { words: t.words.push(w), ..t },
        }
    }
}

/// Joins the fields of a row from the twelfth on.
fn text_of_row(parts: &Vec<String>) -> (r: String)
    requires
        parts@.len() >= 12,
    ensures
        r@ == row_text(texts(parts@)),
{
    let mut rest: Vec<String> = Vec::new();
    let mut i: usize = 11;
    while i < parts.len()
        invariant
            11 <= i <= parts@.len(),
            texts(rest@) =~= texts(parts@).subrange(11, i as int),
        decreases parts@.len() - i,
    {
        let ghost before = texts(rest@);
        rest.push(parts[i].clone());
        assert(texts(rest@) =~= before.push(texts(parts@)[i as int]));
        i = i + 1;
    }
    assert(texts(rest@) =~= texts(parts@).skip(11));
    trim(join_texts(&rest, "\t").as_str())
}

/// One row, as it was read.
enum ReadRow {
    Nothing,
    Page(i32, i32),
    Paragraph(String),
    Line(String),
    Word(WordBox),
}

spec fn read_row_view(r: ReadRow) -> Row {
    match r {
        ReadRow::Nothing => Row::Nothing,
        ReadRow::Page(w, h) => Row::Page(w as int, h as int),
        ReadRow::Paragraph(s) => Row::Paragraph(s@),
        ReadRow::Line(s) => Row::Line(s@),
        ReadRow::Word(w) => Row::Word(w@),
    }
}

/// Reads one row.
fn read_row(line: &str) -> (r: ReadRow)
    ensures
        read_row_view(r) == row(line@),
{
    if line.is_empty() || starts_with(line, "#") {
        return ReadRow::Nothing;
    }
    let parts = split_at_char(line, '\t');
    let ghost fields = split(line@, '\t');
    assert(fields.len() == parts@.len());
    if parts.len() < 12 {
        return ReadRow::Nothing;
    }
    assert forall|i: int| 0 <= i < parts@.len() implies fields[i] == #[trigger] parts@[i]@ by {}
    let level: i32 = read_signed_or(parts[0].as_str(), -1);
    if level == 1 {
        let w: i32 = read_signed_or(parts[8].as_str(), 0);
        let h: i32 = read_signed_or(parts[9].as_str(), 0);
        return if w > 0 && h > 0 {
            ReadRow::Page(w, h)
        } else {
            ReadRow::Nothing
        };
    }
    if level != 3 && level != 4 && level != 5 {
        return ReadRow::Nothing;
    }
    let text = text_of_row(&parts);
    if text.as_str().is_empty() {
        ReadRow::Nothing
    } else if level == 3 {
        ReadRow::Paragraph(text)
    } else if level == 4 {
        ReadRow::Line(text)
    } else {
        ReadRow::Word(
            WordBox {
                page: read_signed_or(parts[1].as_str(), 0),
                block: read_signed_or(parts[2].as_str(), 0),
                par: read_signed_or(parts[3].as_str(), 0),
                line: read_signed_or(parts[4].as_str(), 0),
                left: read_signed_or(parts[6].as_str(), 0),
                top: read_signed_or(parts[7].as_str(), 0),
                width: read_signed_or(parts[8].as_str(), 0),
                height: read_signed_or(parts[9].as_str(), 0),
                conf: parts[10].clone(),
                text,
            },
        )
    }
}

/// Reads the table that Tesseract writes.
pub fn parse_tsv_words(tsv: &str) -> (t: Tsv)
    ensures
        t@ == table(lines(tsv@)),
{
    let rows = text_lines(tsv);
    let ghost all = texts(rows@);
    let mut t = Tsv {
        page_size: None,
        words: Vec::new(),
        paragraphs: Vec::new(),
        ocr_lines: Vec::new(),
    };
    proof {
        assert(all.take(0) =~= seq![]);
        assert(t@.words =~= seq![]);
        assert(t@.paragraphs =~= seq![]);
        assert(t@.ocr_lines =~= seq![]);
    }
    for k in 0..rows.len()
        invariant
            all == texts(rows@),
            t@ == table(all.take(k as int)),
    {
        let ghost before = t@;
        assert(all.take(k + 1).drop_last() =~= all.take(k as int));
        assert(all.take(k + 1).last() == rows@[k as int]@);
        match read_row(rows[k].as_str()) {
            ReadRow::Nothing => {},
            ReadRow::Page(w, h) => {
                t.page_size = Some((w, h));
            },
            ReadRow::Paragraph(s) => {
                t.paragraphs.push(s);
                assert(t@.paragraphs =~= before.paragraphs.push(s@));
            },
            ReadRow::Line(s) => {
                t.ocr_lines.push(s);
                assert(t@.ocr_lines =~= before.ocr_lines.push(s@));
            },
            ReadRow::Word(w) => {
                t.words.push(w);
                assert(t@.words =~= before.words.push(w@));
            },
        }
    }
    assert(all.take(rows@.len() as int) =~= all);
    t
}

/// Every word of a table has a text.
pub proof fn law_words_have_text(rows: Seq<Seq<char>>, i: int)
    requires
        0 <= i < table(rows).words.len(),
    ensures
        table(rows).words[i].text.len() > 0,
    decreases rows.len(),
{
    let t = table(rows.drop_last());
    if i < t.words.len() {
        law_words_have_text(rows.drop_last(), i);
    }
}

/// Two tables as one: the rows of the second behind those of the first, and its page where it has one.
pub open spec fn tables_joined(a: TsvView, b: TsvView) -> TsvView {
    TsvView {
        page_size: match b.page_size {
            Some(p) => Some(p),
            None => a.page_size,
        },
        words: a.words + b.words,
        paragraphs: a.paragraphs + b.paragraphs,
        ocr_lines: a.ocr_lines + b.ocr_lines,
    }
}

proof fn lemma_same_table(a: TsvView, b: TsvView)
    requires
        a.page_size == b.page_size,
        a.words =~= b.words,
        a.paragraphs =~= b.paragraphs,
        a.ocr_lines =~= b.ocr_lines,
    ensures
        a == b,
{
}

/// Rows are read independently of one another.
pub proof fn law_rows_are_independent(a: Seq<Seq<char>>, b: Seq<Seq<char>>)
    ensures
        table(a + b) == tables_joined(table(a), table(b)),
    decreases b.len(),
{
    if b.len() == 0 {
        assert(a + b =~= a);
        lemma_same_table(table(a), tables_joined(table(a), table(b)));
    } else {
        law_rows_are_independent(a, b.drop_last());
        assert((a + b).drop_last() =~= a + b.drop_last());
        assert((a + b).last() == b.last());
        lemma_same_table(table(a + b), tables_joined(table(a), table(b)));
    }
}

proof fn lemma_split_push(s: Seq<char>, c: char, x: char)
    requires
        x != c,
    ensures
        split(s.push(x), c).len() == split(s, c).len(),
        split(s, c).len() > 0,
        forall|k: int|
            0 <= k < split(s, c).len() - 1 ==> split(s.push(x), c)[k] == #[trigger] split(s, c)[k],
        split(s.push(x), c).last() == split(s, c).last().push(x),
    decreases s.len(),
{
    let i = index_of(s, c, 0);
    let t = s.push(x);
    let j = index_of(t, c, 0);
    lemma_index_of(s, c, 0);
    lemma_index_of(t, c, 0);
    if i < s.len() {
        assert(j == i) by {
            if j < i {
                assert(s[j] == t[j]);
            } else if i < j {
                assert(t[i] == s[i]);
            }
        }
        lemma_split_push(s.skip(i + 1), c, x);
        assert(t.skip(i + 1) =~= s.skip(i + 1).push(x));
        assert(t.take(i) =~= s.take(i));
    } else {
        assert(j == t.len()) by {
            if j < t.len() && j < s.len() {
                assert(s[j] == t[j]);
            }
        }
    }
}

proof fn lemma_join_push(list: Seq<Seq<char>>, sep: Seq<char>, x: char)
    requires
        list.len() > 0,
    ensures
        join(list.drop_last().push(list.last().push(x)), sep) == join(list, sep).push(x),
{
    let more = list.drop_last().push(list.last().push(x));
    assert(more.drop_last() =~= list.drop_last());
    assert(join(more, sep) =~= join(list, sep).push(x));
}

proof fn lemma_trimmed_push(s: Seq<char>, x: char)
    requires
        is_white(x),
    ensures
        trimmed(s.push(x)) == trimmed(s),
    decreases s.len(),
{
    let t = s.push(x);
    if s.len() > 0 && is_white(s[0]) {
        assert(t.skip(1) =~= s.skip(1).push(x));
        lemma_trimmed_push(s.skip(1), x);
    } else if s.len() > 0 {
        assert(t.drop_last() =~= s);
    } else {
        assert(t.skip(1) =~= s);
        assert(trimmed_start(t) == trimmed_start(t.skip(1)));
        assert(trimmed_start(s) == s);
    }
}

/// A carriage return at the end of a row makes no difference.
proof fn lemma_row_push_cr(s: Seq<char>)
    ensures
        row(s.push('\r')) == row(s),
{
    let t = s.push('\r');
    let p = split(s, '\t');
    let q = split(t, '\t');
    lemma_split_push(s, '\t', '\r');
    reveal_strlit("#");
    if s.len() == 0 {
        assert(index_of(s, '\t', 0) == 0);
        assert(p =~= seq![s]);
        assert(q.len() == 1);
    } else {
        assert(has_prefix(t, "#"@) == has_prefix(s, "#"@)) by {
            assert(t.subrange(0, 1) =~= s.subrange(0, 1));
        }
        if p.len() >= 12 {
            assert forall|k: int| 0 <= k < 11 implies q[k] == #[trigger] p[k] by {}
            assert(q.skip(11) =~= p.skip(11).drop_last().push(p.skip(11).last().push('\r')));
            lemma_join_push(p.skip(11), "\t"@, '\r');
            lemma_trimmed_push(join(p.skip(11), "\t"@), '\r');
        }
    }
}

proof fn lemma_one_row(line: Seq<char>)
    ensures
        row(line) is Nothing ==> table(seq![line]) == table(seq![]),
        forall|other: Seq<char>|
            row(other) == row(line) ==> #[trigger] table(seq![other]) == table(seq![line]),
{
    assert(seq![line].drop_last() =~= seq![]);
    assert forall|other: Seq<char>| row(other) == row(line) implies #[trigger] table(seq![other])
        == table(seq![line]) by {
        assert(seq![other].drop_last() =~= seq![]);
    }
}

/// Two tables that a line break joins are read independently: words, paragraphs and lines of the
/// second stand behind those of the first, and the last page that is valid counts.
pub proof fn law_tables_are_independent(a: Seq<char>, b: Seq<char>)
    ensures
        table(lines(a.push('\n') + b)) == tables_joined(table(lines(a)), table(lines(b))),
    decreases a.len(),
{
    let t = a.push('\n') + b;
    let i = index_of(a, '\n', 0);
    let j = index_of(t, '\n', 0);
    lemma_index_of(a, '\n', 0);
    lemma_index_of(t, '\n', 0);
    assert(t[a.len() as int] == '\n');
    assert(j == i) by {
        if j < i {
            assert(a[j] == t[j]);
        } else if i < j && i < a.len() {
            assert(t[i] == a[i]);
        }
    }
    assert(t.take(i) =~= a.take(i));
    let head = seq![without_cr(a.take(i))];
    law_rows_are_independent(head, lines(t.skip(i + 1)));
    if i < a.len() {
        assert(t.skip(i + 1) =~= a.skip(i + 1).push('\n') + b);
        law_tables_are_independent(a.skip(i + 1), b);
        law_rows_are_independent(head, lines(a.skip(i + 1)));
        lemma_same_table(
            tables_joined(
                table(head),
                tables_joined(table(lines(a.skip(i + 1))), table(lines(b))),
            ),
            tables_joined(
                tables_joined(table(head), table(lines(a.skip(i + 1)))),
                table(lines(b)),
            ),
        );
    } else {
        assert(t.skip(i + 1) =~= b);
        assert(a.take(i) =~= a);
        lemma_one_row(a);
        if a.len() == 0 {
            assert(without_cr(a) == a);
            assert(row(a) is Nothing);
        } else if a.last() == '\r' {
            assert(a.drop_last().push('\r') =~= a);
            lemma_row_push_cr(a.drop_last());
        }
        assert(table(head) == table(lines(a)));
    }
}

/// A row of the table with these numbers in its columns. The texts of the word number and of the
/// confidence stand in their columns as they are, and the text stands behind all.
pub open spec fn row_cells(level: int, w: WordView, word_num: Seq<char>) -> Seq<char> {
    join(
        seq![
            signed_decimal(level),
            signed_decimal(w.page),
            signed_decimal(w.block),
            signed_decimal(w.par),
            signed_decimal(w.line),
            word_num,
            signed_decimal(w.left),
            signed_decimal(w.top),
            signed_decimal(w.width),
            signed_decimal(w.height),
            w.conf,
        ],
        seq!['\t'],
    ).push('\t') + w.text
}

/// The numbers of a word are within 32 bits.
pub open spec fn numbers_fit(w: WordView) -> bool {
    &&& i32::MIN <= w.page <= i32::MAX
    &&& i32::MIN <= w.block <= i32::MAX
    &&& i32::MIN <= w.par <= i32::MAX
    &&& i32::MIN <= w.line <= i32::MAX
    &&& i32::MIN <= w.left <= i32::MAX
    &&& i32::MIN <= w.top <= i32::MAX
    &&& i32::MIN <= w.width <= i32::MAX
    &&& i32::MIN <= w.height <= i32::MAX
}

proof fn lemma_no_tab(n: int)
    ensures
        !signed_decimal(n).contains('\t'),
{
    law_signed_digits(n);
    if signed_decimal(n).contains('\t') {
        let i = choose|i: int| 0 <= i < signed_decimal(n).len() && signed_decimal(n)[i] == '\t';
        if n < 0 && i > 0 {
            assert(signed_decimal(n).skip(1)[i - 1] == '\t');
            assert(is_digit(signed_decimal(n).skip(1)[i - 1]));
        } else if n >= 0 {
            assert(is_digit(signed_decimal(n)[i]));
        }
    }
}

/// Each number of a row is read from its own column, and its text from behind the last of them: a row
/// of level 5 is a word with just these numbers, one of level 4 a line, one of level 3 a paragraph,
/// and one of level 1 with both sizes above zero the page.
pub proof fn law_columns(level: int, w: WordView, word_num: Seq<char>)
    requires
        0 <= level <= i32::MAX,
        numbers_fit(w),
        !word_num.contains('\t'),
        !w.conf.contains('\t'),
    ensures
        ({
            let r = row(row_cells(level, w, word_num));
            let filled = trimmed(w.text).len() > 0;
            &&& level == 5 && filled ==> r == Row::Word(WordView { text: trimmed(w.text), ..w })
            &&& level == 4 && filled ==> r == Row::Line(trimmed(w.text))
            &&& level == 3 && filled ==> r == Row::Paragraph(trimmed(w.text))
            &&& level == 1 && w.width > 0 && w.height > 0 ==> r == Row::Page(w.width, w.height)
            &&& level == 1 && (w.width <= 0 || w.height <= 0) ==> r == Row::Nothing
            &&& (level == 3 || level == 4 || level == 5) && !filled ==> r == Row::Nothing
            &&& level == 0 || level == 2 || level > 5 ==> r == Row::Nothing
        }),
{
    let cells = seq![
        signed_decimal(level),
        signed_decimal(w.page),
        signed_decimal(w.block),
        signed_decimal(w.par),
        signed_decimal(w.line),
        word_num,
        signed_decimal(w.left),
        signed_decimal(w.top),
        signed_decimal(w.width),
        signed_decimal(w.height),
        w.conf,
    ];
    let line = row_cells(level, w, word_num);
    lemma_no_tab(level);
    lemma_no_tab(w.page);
    lemma_no_tab(w.block);
    lemma_no_tab(w.par);
    lemma_no_tab(w.line);
    lemma_no_tab(w.left);
    lemma_no_tab(w.top);
    lemma_no_tab(w.width);
    lemma_no_tab(w.height);
    assert forall|k: int| 0 <= k < cells.len() implies !(#[trigger] cells[k]).contains('\t') by {}
    law_join_and_split(cells, '\t', w.text);
    let parts = split(line, '\t');
    assert(parts == cells + split(w.text, '\t'));
    law_split_and_join(w.text, '\t');
    assert(parts.skip(11) =~= split(w.text, '\t'));
    reveal_strlit("\t");
    assert("\t"@ =~= seq!['\t']);
    assert(row_text(parts) == trimmed(w.text));
    law_signed_round_trip(level, -1);
    law_signed_round_trip(w.page, 0);
    law_signed_round_trip(w.block, 0);
    law_signed_round_trip(w.par, 0);
    law_signed_round_trip(w.line, 0);
    law_signed_round_trip(w.left, 0);
    law_signed_round_trip(w.top, 0);
    law_signed_round_trip(w.width, 0);
    law_signed_round_trip(w.height, 0);
    law_signed_digits(level);
    lemma_first_cell(cells, seq!['\t']);
    assert(line[0] == signed_decimal(level)[0]);
    assert(is_digit(signed_decimal(level)[0]));
    reveal_strlit("#");
    if has_prefix(line, "#"@) {
        assert(line.subrange(0, 1)[0] == '#');
    }
}

proof fn lemma_first_cell(list: Seq<Seq<char>>, sep: Seq<char>)
    requires
        list.len() > 0,
        list[0].len() > 0,
    ensures
        join(list, sep).len() > 0,
        join(list, sep)[0] == list[0][0],
    decreases list.len(),
{
    if list.len() > 1 {
        lemma_first_cell(list.drop_last(), sep);
    }
}

/// A row says the same wherever it stands: a table of one row holds just what the row says, so that
/// a word of level 5 is a word of the table, with the numbers of its columns.
pub proof fn law_word_in_table(w: WordView, word_num: Seq<char>)
    requires
        numbers_fit(w),
        !word_num.contains('\t'),
        !w.conf.contains('\t'),
        trimmed(w.text).len() > 0,
    ensures
        table(seq![row_cells(5, w, word_num)]).words == seq![
            WordView { text: trimmed(w.text), ..w },
        ],
        table(seq![row_cells(4, w, word_num)]).ocr_lines == seq![trimmed(w.text)],
        table(seq![row_cells(3, w, word_num)]).paragraphs == seq![trimmed(w.text)],
        w.width > 0 && w.height > 0 ==> table(seq![row_cells(1, w, word_num)]).page_size == Some(
            (w.width, w.height),
        ),
{
    law_columns(5, w, word_num);
    law_columns(4, w, word_num);
    law_columns(3, w, word_num);
    law_columns(1, w, word_num);
    lemma_table_of_one(row_cells(5, w, word_num));
    lemma_table_of_one(row_cells(4, w, word_num));
    lemma_table_of_one(row_cells(3, w, word_num));
    lemma_table_of_one(row_cells(1, w, word_num));
}

proof fn lemma_table_of_one(line: Seq<char>)
    ensures
        row(line) matches Row::Word(w) ==> table(seq![line]).words =~= seq![w],
        row(line) matches Row::Line(t) ==> table(seq![line]).ocr_lines =~= seq![t],
        row(line) matches Row::Paragraph(t) ==> table(seq![line]).paragraphs =~= seq![t],
        row(line) matches Row::Page(a, b) ==> table(seq![line]).page_size == Some((a, b)),
{
    let none = Seq::<Seq<char>>::empty();
    assert(seq![line].drop_last() =~= none);
    assert(table(none).words.len() == 0);
    assert(table(none).ocr_lines.len() == 0);
    assert(table(none).paragraphs.len() == 0);
}

/// A row that is empty, commented out, too short, or without a number for its level says nothing, and
/// a column that holds no number counts as zero.
pub proof fn law_rows_that_say_nothing(line: Seq<char>, s: Seq<char>)
    ensures
        line.len() == 0 || has_prefix(line, "#"@) || split(line, '\t').len() < 12 ==> row(line)
            == Row::Nothing,
        parse_signed(split(line, '\t')[0]) is None ==> row(line) == Row::Nothing,
        parse_signed(s) is None ==> signed_or(s, 0) == 0,
{
}

/// Each column of a word that holds a number gives that number, and each that holds none gives zero.
pub proof fn law_columns_of_a_word(line: Seq<char>)
    ensures
        ({
            let parts = split(line, '\t');
            row(line) matches Row::Word(w) ==> {
                &&& match parse_signed(parts[1]) {
                    Some(n) => w.page == n,
                    None => w.page == 0,
                }
                &&& match parse_signed(parts[2]) {
                    Some(n) => w.block == n,
                    None => w.block == 0,
                }
                &&& match parse_signed(parts[3]) {
                    Some(n) => w.par == n,
                    None => w.par == 0,
                }
                &&& match parse_signed(parts[4]) {
                    Some(n) => w.line == n,
                    None => w.line == 0,
                }
                &&& match parse_signed(parts[6]) {
                    Some(n) => w.left == n,
                    None => w.left == 0,
                }
                &&& match parse_signed(parts[7]) {
                    Some(n) => w.top == n,
                    None => w.top == 0,
                }
                &&& match parse_signed(parts[8]) {
                    Some(n) => w.width == n,
                    None => w.width == 0,
                }
                &&& match parse_signed(parts[9]) {
                    Some(n) => w.height == n,
                    None => w.height == 0,
                }
                &&& w.conf == parts[10]
            }
        }),
{
}

} // verus!
