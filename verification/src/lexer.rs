//! The lexer: turns source lines into a flat, ordered sequence of located
//! words. Whitespace splits words, `//` starts a line comment, character
//! literals become decimal codepoint words, and double-quoted string literals
//! may span lines (joined by a newline).

use vstd::prelude::*;
use vstd::string::StrSliceExecFns;
use vstd::string::StringExecFns;

use crate::diag::{Diag, DiagKind, DiagV, DiagKindV};
use crate::numfmt::{dec_str, u32_to_string};

verus! {

/// A located lexical unit of source text.
#[derive(Debug)]
pub struct Word {
    pub file: String,
    pub row: u32,
    pub col: u32,
    pub txt: String,
}

/// The mathematical value of a [`Word`]: its location and text.
pub ghost struct WordV {
    pub file: Seq<char>,
    pub row: int,
    pub col: int,
    pub txt: Seq<char>,
}

impl DeepView for Word {
    type V = WordV;

    open spec fn deep_view(&self) -> WordV {
        WordV { file: self.file@, row: self.row as int, col: self.col as int, txt: self.txt@ }
    }
}

impl Clone for Word {
    fn clone(&self) -> (r: Self)
        ensures
            r.deep_view() == self.deep_view(),
    {
        Word { file: self.file.clone(), row: self.row, col: self.col, txt: self.txt.clone() }
    }
}

/// The characters that split words.
pub open spec fn is_space(c: char) -> bool {
    c == ' ' || c == '\t' || c == '\r' || c == '\n' || c == '\u{000B}' || c == '\u{000C}'
}

/// Decides [`is_space`].
pub fn is_space_ch(c: char) -> (r: bool)
    ensures
        r == is_space(c),
{
    c == ' ' || c == '\t' || c == '\r' || c == '\n' || c == '\u{000B}' || c == '\u{000C}'
}

/// The first position at or after `start` holding `c`, or the line's length.
pub open spec fn find_from(line: Seq<char>, start: int, c: char) -> int
    decreases line.len() - start,
{
    if start < 0 {
        find_from(line, 0, c)
    } else if start >= line.len() {
        line.len() as int
    } else if line[start] == c {
        start
    } else {
        find_from(line, start + 1, c)
    }
}

/// The first position at or after `start` holding a whitespace character,
/// or the line's length.
pub open spec fn space_from(line: Seq<char>, start: int) -> int
    decreases line.len() - start,
{
    if start < 0 {
        space_from(line, 0)
    } else if start >= line.len() {
        line.len() as int
    } else if is_space(line[start]) {
        start
    } else {
        space_from(line, start + 1)
    }
}

/// The first position at or after `start` where a `//` comment begins,
/// or the line's length.
pub open spec fn comment_from(line: Seq<char>, start: int) -> int
    decreases line.len() - start,
{
    if start < 0 {
        comment_from(line, 0)
    } else if start >= line.len() {
        line.len() as int
    } else if start + 1 < line.len() && line[start] == '/' && line[start + 1] == '/' {
        start
    } else {
        comment_from(line, start + 1)
    }
}

proof fn lemma_find_from_range(line: Seq<char>, start: int, c: char)
    ensures
        0 <= find_from(line, start, c) <= line.len(),
        start <= find_from(line, start, c) || find_from(line, start, c) == line.len(),
    decreases line.len() - start,
{
    if start < 0 {
        lemma_find_from_range(line, 0, c);
    } else if start >= line.len() {
    } else if line[start] == c {
    } else {
        lemma_find_from_range(line, start + 1, c);
    }
}

proof fn lemma_space_from_range(line: Seq<char>, start: int)
    ensures
        0 <= space_from(line, start) <= line.len(),
        start <= space_from(line, start) || space_from(line, start) == line.len(),
    decreases line.len() - start,
{
    if start < 0 {
        lemma_space_from_range(line, 0);
    } else if start >= line.len() {
    } else if is_space(line[start]) {
    } else {
        lemma_space_from_range(line, start + 1);
    }
}

proof fn lemma_comment_from_range(line: Seq<char>, start: int)
    ensures
        0 <= comment_from(line, start) <= line.len(),
        start <= comment_from(line, start) || comment_from(line, start) == line.len(),
    decreases line.len() - start,
{
    if start < 0 {
        lemma_comment_from_range(line, 0);
    } else if start >= line.len() {
    } else if start + 1 < line.len() && line[start] == '/' && line[start + 1] == '/' {
    } else {
        lemma_comment_from_range(line, start + 1);
    }
}

/// Scans `line` for `target`, starting at `start_pos`.
pub fn find_char(line: &str, start_pos: usize, target: char) -> (r: usize)
    ensures
        r == find_from(line@, start_pos as int, target),
        r <= line@.len(),
{
    let n = line.unicode_len();
    let mut i: usize = if start_pos > n { n } else { start_pos };
    proof {
        if start_pos > n {
            assert(find_from(line@, start_pos as int, target) == n as int);
        }
    }
    while i < n
        invariant
            i <= n,
            n == line@.len(),
            find_from(line@, start_pos as int, target) == find_from(line@, i as int, target),
        decreases n - i,
    {
        if line.get_char(i) == target {
            return i;
        }
        i += 1;
    }
    n
}

/// Scans `line` for whitespace, starting at `start_pos`.
fn find_space(line: &str, start_pos: usize) -> (r: usize)
    ensures
        r == space_from(line@, start_pos as int),
        r <= line@.len(),
{
    let n = line.unicode_len();
    let mut i: usize = if start_pos > n { n } else { start_pos };
    proof {
        if start_pos > n {
            assert(space_from(line@, start_pos as int) == n as int);
        }
    }
    while i < n
        invariant
            i <= n,
            n == line@.len(),
            space_from(line@, start_pos as int) == space_from(line@, i as int),
        decreases n - i,
    {
        if is_space_ch(line.get_char(i)) {
            return i;
        }
        i += 1;
    }
    n
}

/// Scans `line` for a `//` comment start, starting at `start_pos`.
fn find_comment(line: &str, start_pos: usize) -> (r: usize)
    ensures
        r == comment_from(line@, start_pos as int),
        r <= line@.len(),
{
    let n = line.unicode_len();
    let mut i: usize = if start_pos > n { n } else { start_pos };
    proof {
        if start_pos > n {
            assert(comment_from(line@, start_pos as int) == n as int);
        }
    }
    while i < n
        invariant
            i <= n,
            n == line@.len(),
            comment_from(line@, start_pos as int) == comment_from(line@, i as int),
        decreases n - i,
    {
        if i + 1 < n && line.get_char(i) == '/' && line.get_char(i + 1) == '/' {
            return i;
        }
        i += 1;
    }
    n
}

/// The character denoted by the escape `\c` in a character literal.
pub open spec fn unescape(c: char) -> char {
    if c == 'n' {
        '\n'
    } else if c == 't' {
        '\t'
    } else if c == 'r' {
        '\r'
    } else {
        c
    }
}

/// Decides [`unescape`].
fn unescape_ch(c: char) -> (r: char)
    ensures
        r == unescape(c),
{
    if c == 'n' {
        '\n'
    } else if c == 't' {
        '\t'
    } else if c == 'r' {
        '\r'
    } else {
        c
    }
}

/// The words lexed from position (`row`, `pos`) onward, or the first
/// diagnostic. This is the lexer's defining equation.
pub open spec fn lex_from(file: Seq<char>, lines: Seq<Seq<char>>, row: int, pos: int) -> Result<
    Seq<WordV>,
    DiagV,
>
    decreases
            lines.len() - row,
            (if 0 <= row < lines.len() {
                lines[row].len() + 2 - pos
            } else {
                0
            }),
    via lex_from_dec
{
    if row < 0 || row >= lines.len() {
        Ok(Seq::empty())
    } else {
        let line = lines[row];
        if pos < 0 {
            lex_from(file, lines, row, 0)
        } else if pos >= line.len() {
            lex_from(file, lines, row + 1, 0)
        } else if is_space(line[pos]) {
            lex_from(file, lines, row, pos + 1)
        } else if line[pos] == '\'' {
            let e = find_from(line, pos + 2, '\'');
            if e >= line.len() {
                Err(DiagV {
                    word: WordV { file, row, col: pos, txt: line.subrange(pos, line.len() as int) },
                    kind: DiagKindV::InvalidCharacterLiteral,
                })
            } else if line[pos + 1] == '\\' && e == pos + 3 {
                let w = WordV { file, row, col: pos, txt: dec_str(unescape(line[pos + 2]) as u32 as nat) };
                prepend_word(w, lex_from(file, lines, row, e + 1))
            } else if line[pos + 1] != '\\' && e == pos + 2 {
                let w = WordV { file, row, col: pos, txt: dec_str(line[pos + 1] as u32 as nat) };
                prepend_word(w, lex_from(file, lines, row, e + 1))
            } else {
                Err(DiagV {
                    word: WordV { file, row, col: pos, txt: line.subrange(pos, e + 1) },
                    kind: DiagKindV::InvalidCharacterLiteral,
                })
            }
        } else if line[pos] == '"' {
            let e = find_from(line, pos + 1, '"');
            if e < line.len() {
                let w = WordV { file, row, col: pos, txt: line.subrange(pos, e + 1) };
                prepend_word(w, lex_from(file, lines, row, e + 1))
            } else {
                lex_string_cont(file, lines, row, pos, line.subrange(pos, line.len() as int), row + 1)
            }
        } else if pos + 1 < line.len() && line[pos] == '/' && line[pos + 1] == '/' {
            lex_from(file, lines, row + 1, 0)
        } else {
            let k = comment_from(line, pos);
            let e = space_from(line, pos);
            if k < e {
                let w = WordV { file, row, col: pos, txt: line.subrange(pos, k) };
                prepend_word(w, lex_from(file, lines, row + 1, 0))
            } else {
                let w = WordV { file, row, col: pos, txt: line.subrange(pos, e) };
                prepend_word(w, lex_from(file, lines, row, e))
            }
        }
    }
}

/// Continuation of a string literal that did not close on its starting line:
/// scan following lines for the closing quote, joining with newlines.
pub open spec fn lex_string_cont(
    file: Seq<char>,
    lines: Seq<Seq<char>>,
    srow: int,
    scol: int,
    buf: Seq<char>,
    r: int,
) -> Result<Seq<WordV>, DiagV>
    decreases
            lines.len() - r,
            (if 0 <= r < lines.len() {
                lines[r].len() + 3
            } else {
                0
            }),
    via lex_string_cont_dec
{
    if r < 0 || r >= lines.len() {
        Err(DiagV {
            word: WordV { file, row: srow, col: scol, txt: buf },
            kind: DiagKindV::UnterminatedString,
        })
    } else {
        let l = lines[r];
        let e = find_from(l, 0, '"');
        if e >= l.len() {
            lex_string_cont(file, lines, srow, scol, buf + seq!['\n'] + l, r + 1)
        } else {
            let w = WordV { file, row: srow, col: scol, txt: buf + seq!['\n'] + l.subrange(0, e + 1) };
            prepend_word(w, lex_from(file, lines, r, e + 1))
        }
    }
}

#[via_fn]
proof fn lex_from_dec(file: Seq<char>, lines: Seq<Seq<char>>, row: int, pos: int) {
    if 0 <= row < lines.len() {
        let line = lines[row];
        lemma_find_from_range(line, pos + 2, '\'');
        lemma_find_from_range(line, pos + 1, '"');
        if 0 <= pos < line.len() && !is_space(line[pos]) {
            assert(space_from(line, pos) == space_from(line, pos + 1));
            lemma_space_from_range(line, pos + 1);
        }
    }
}

#[via_fn]
proof fn lex_string_cont_dec(
    file: Seq<char>,
    lines: Seq<Seq<char>>,
    srow: int,
    scol: int,
    buf: Seq<char>,
    r: int,
) {
    if 0 <= r < lines.len() {
        lemma_find_from_range(lines[r], 0, '"');
    }
}

/// Puts one word in front of a lexing result.
pub open spec fn prepend_word(w: WordV, r: Result<Seq<WordV>, DiagV>) -> Result<Seq<WordV>, DiagV> {
    match r {
        Ok(ws) => Ok(seq![w] + ws),
        Err(d) => Err(d),
    }
}

/// Puts a sequence of words in front of a lexing result.
pub open spec fn prepend_words(prefix: Seq<WordV>, r: Result<Seq<WordV>, DiagV>) -> Result<
    Seq<WordV>,
    DiagV,
> {
    match r {
        Ok(ws) => Ok(prefix + ws),
        Err(d) => Err(d),
    }
}

/// The words lexed from a whole file.
pub open spec fn lex_spec(file: Seq<char>, lines: Seq<Seq<char>>) -> Result<Seq<WordV>, DiagV> {
    lex_from(file, lines, 0, 0)
}

/// Relates the executable lexer's result to the specification's.
pub open spec fn lex_matches(r: Result<Vec<Word>, Diag>, s: Result<Seq<WordV>, DiagV>) -> bool {
    match r {
        Ok(v) => s == Ok::<Seq<WordV>, DiagV>(v.deep_view()),
        Err(d) => s == Err::<Seq<WordV>, DiagV>(d.deep_view()),
    }
}

proof fn lemma_prepend_words_push(prefix: Seq<WordV>, w: WordV, r: Result<Seq<WordV>, DiagV>)
    ensures
        prepend_words(prefix, prepend_word(w, r)) == prepend_words(prefix.push(w), r),
{
    match r {
        Ok(ws) => {
            assert(prefix + (seq![w] + ws) =~= prefix.push(w) + ws);
        },
        Err(d) => {},
    }
}

/// Lexes the file's lines into located words, or stops at the first
/// lexical diagnostic.
pub fn parse_lines_into_words(file: String, source_lines: Vec<String>) -> (r: Result<
    Vec<Word>,
    Diag,
>)
    requires
        source_lines@.len() <= u32::MAX as int,
        forall|i: int| 0 <= i < source_lines@.len() ==> (#[trigger] source_lines@[i])@.len()
            <= u32::MAX as int,
    ensures
        lex_matches(r, lex_spec(file@, source_lines.deep_view())),
{
    let ghost filev = file@;
    let ghost linesv = source_lines.deep_view();
    let ghost target = lex_spec(filev, linesv);
    let nlines = source_lines.len();
    let mut row: usize = 0;
    let mut pos: usize = 0;
    let mut result: Vec<Word> = Vec::new();
    proof {
        assert(prepend_words(result.deep_view(), lex_from(filev, linesv, 0, 0)) == target) by {
            match lex_from(filev, linesv, 0, 0) {
                Ok(ws) => {
                    assert(result.deep_view() =~= Seq::<WordV>::empty());
                    assert(result.deep_view() + ws =~= ws);
                },
                Err(d) => {},
            }
        }
    }
    while row < nlines
        invariant
            nlines == source_lines@.len(),
            nlines <= u32::MAX as int,
            forall|i: int| 0 <= i < source_lines@.len() ==> (#[trigger] source_lines@[i])@.len()
                <= u32::MAX as int,
            linesv == source_lines.deep_view(),
            filev == file@,
            target == lex_spec(filev, linesv),
            row <= nlines,
            target == prepend_words(result.deep_view(), lex_from(filev, linesv, row as int, pos as int)),
        decreases
                nlines - row,
                (if (row as int) < linesv.len() {
                    linesv[row as int].len() + 2 - pos
                } else {
                    0
                }),
    {
        let ghost rdv = result.deep_view();
        let line: &String = &source_lines[row];
        let ghost linev = linesv[row as int];
        proof {
            assert(linev == line@);
        }
        let n: usize = line.as_str().unicode_len();
        proof {
            assert(source_lines@[row as int]@.len() <= u32::MAX as int);
            assert(n <= u32::MAX as usize);
        }
        if pos >= n {
            row += 1;
            pos = 0;
        } else {
            let c = line.as_str().get_char(pos);
            if is_space_ch(c) {
                pos += 1;
            } else if c == '\'' {
                // keep the scan's start within the line to avoid overflow on
                // 32-bit targets; past-the-end starts find nothing either way
                let qstart = if n - pos >= 2 { pos + 2 } else { n };
                proof {
                    if n - pos < 2 {
                        assert(find_from(linev, pos as int + 2, '\'') == linev.len() as int);
                        assert(find_from(linev, n as int, '\'') == linev.len() as int);
                    }
                }
                let e = find_char(line.as_str(), qstart, '\'');
                proof {
                    assert(e == find_from(linev, pos as int + 2, '\''));
                    lemma_find_from_range(linev, pos as int + 2, '\'');
                }
                if e >= n {
                    let w = Word {
                        file: file.clone(),
                        row: row as u32,
                        col: pos as u32,
                        txt: line.as_str().substring_char(pos, n).to_owned(),
                    };
                    proof {
                        let d = DiagV {
                            word: WordV {
                                file: filev,
                                row: row as int,
                                col: pos as int,
                                txt: linev.subrange(pos as int, linev.len() as int),
                            },
                            kind: DiagKindV::InvalidCharacterLiteral,
                        };
                        assert(lex_from(filev, linesv, row as int, pos as int) == Err::<
                            Seq<WordV>,
                            DiagV,
                        >(d));
                        assert(w.deep_view() == d.word);
                    }
                    return Err(Diag { word: w, kind: DiagKind::InvalidCharacterLiteral });
                }
                let c1 = line.as_str().get_char(pos + 1);
                if c1 == '\\' && e == pos + 3 {
                    let cv = unescape_ch(line.as_str().get_char(pos + 2));
                    let w = Word {
                        file: file.clone(),
                        row: row as u32,
                        col: pos as u32,
                        txt: u32_to_string(cv as u32),
                    };
                    let ghost wv = w.deep_view();
                    proof {
                        assert(lex_from(filev, linesv, row as int, pos as int) == prepend_word(
                            wv,
                            lex_from(filev, linesv, row as int, e + 1),
                        ));
                        lemma_prepend_words_push(rdv, wv, lex_from(filev, linesv, row as int, e + 1));
                    }
                    result.push(w);
                    proof {
                        assert(result.deep_view() =~= rdv.push(wv));
                    }
                    pos = e + 1;
                } else if c1 != '\\' && e == pos + 2 {
                    let w = Word {
                        file: file.clone(),
                        row: row as u32,
                        col: pos as u32,
                        txt: u32_to_string(c1 as u32),
                    };
                    let ghost wv = w.deep_view();
                    proof {
                        assert(lex_from(filev, linesv, row as int, pos as int) == prepend_word(
                            wv,
                            lex_from(filev, linesv, row as int, e + 1),
                        ));
                        lemma_prepend_words_push(rdv, wv, lex_from(filev, linesv, row as int, e + 1));
                    }
                    result.push(w);
                    proof {
                        assert(result.deep_view() =~= rdv.push(wv));
                    }
                    pos = e + 1;
                } else {
                    let w = Word {
                        file: file.clone(),
                        row: row as u32,
                        col: pos as u32,
                        txt: line.as_str().substring_char(pos, e + 1).to_owned(),
                    };
                    proof {
                        let d = DiagV {
                            word: WordV {
                                file: filev,
                                row: row as int,
                                col: pos as int,
                                txt: linev.subrange(pos as int, e as int + 1),
                            },
                            kind: DiagKindV::InvalidCharacterLiteral,
                        };
                        assert(lex_from(filev, linesv, row as int, pos as int) == Err::<
                            Seq<WordV>,
                            DiagV,
                        >(d));
                        assert(w.deep_view() == d.word);
                    }
                    return Err(Diag { word: w, kind: DiagKind::InvalidCharacterLiteral });
                }
            } else if c == '"' {
                let e = find_char(line.as_str(), pos + 1, '"');
                proof {
                    lemma_find_from_range(linev, pos as int + 1, '"');
                }
                if e < n {
                    let w = Word {
                        file: file.clone(),
                        row: row as u32,
                        col: pos as u32,
                        txt: line.as_str().substring_char(pos, e + 1).to_owned(),
                    };
                    let ghost wv = w.deep_view();
                    proof {
                        assert(lex_from(filev, linesv, row as int, pos as int) == prepend_word(
                            wv,
                            lex_from(filev, linesv, row as int, e + 1),
                        ));
                        lemma_prepend_words_push(rdv, wv, lex_from(filev, linesv, row as int, e + 1));
                    }
                    result.push(w);
                    proof {
                        assert(result.deep_view() =~= rdv.push(wv));
                    }
                    pos = e + 1;
                } else {
                    let srow = row;
                    let scol = pos;
                    let mut buf: String = line.as_str().substring_char(pos, n).to_owned();
                    proof {
                        assert(lex_from(filev, linesv, srow as int, scol as int) == lex_string_cont(
                            filev,
                            linesv,
                            srow as int,
                            scol as int,
                            buf@,
                            srow as int + 1,
                        ));
                    }
                    row += 1;
                    let mut closed: bool = false;
                    let mut closepos: usize = 0;
                    while row < nlines && !closed
                        invariant
                            nlines == source_lines@.len(),
                            nlines <= u32::MAX as int,
                            forall|i: int| 0 <= i < source_lines@.len() ==> (
                            #[trigger] source_lines@[i])@.len() <= u32::MAX as int,
                            linesv == source_lines.deep_view(),
                            filev == file@,
                            target == lex_spec(filev, linesv),
                            row <= nlines,
                            srow < row,
                            srow < nlines,
                            scol <= u32::MAX as int,
                            !closed ==> target == prepend_words(
                                result.deep_view(),
                                lex_string_cont(filev, linesv, srow as int, scol as int, buf@, row as int),
                            ),
                            closed ==> target == prepend_words(
                                result.deep_view(),
                                lex_from(filev, linesv, row as int, closepos as int),
                            ),
                            closed ==> row < nlines,
                        decreases nlines - row, (if closed { 0int } else { 1int }),
                    {
                        let ghost rdv2 = result.deep_view();
                        let l: &String = &source_lines[row];
                        let ghost lv = linesv[row as int];
                        proof {
                            assert(lv == l@);
                            reveal_strlit("\n");
                            assert("\n"@ =~= seq!['\n']);
                        }
                        let ln: usize = l.as_str().unicode_len();
                        let e2 = find_char(l.as_str(), 0, '"');
                        buf.append("\n");
                        if e2 >= ln {
                            buf.append(l.as_str());
                            row += 1;
                        } else {
                            buf.append(l.as_str().substring_char(0, e2 + 1));
                            let w = Word {
                                file: file.clone(),
                                row: srow as u32,
                                col: scol as u32,
                                txt: buf.clone(),
                            };
                            let ghost wv = w.deep_view();
                            proof {
                                lemma_prepend_words_push(
                                    rdv2,
                                    wv,
                                    lex_from(filev, linesv, row as int, e2 + 1),
                                );
                            }
                            result.push(w);
                            proof {
                                assert(result.deep_view() =~= rdv2.push(wv));
                            }
                            closepos = e2 + 1;
                            closed = true;
                        }
                    }
                    if !closed {
                        let w = Word {
                            file: file.clone(),
                            row: srow as u32,
                            col: scol as u32,
                            txt: buf,
                        };
                        proof {
                            let d = DiagV {
                                word: WordV {
                                    file: filev,
                                    row: srow as int,
                                    col: scol as int,
                                    txt: w.txt@,
                                },
                                kind: DiagKindV::UnterminatedString,
                            };
                            assert(lex_string_cont(
                                filev,
                                linesv,
                                srow as int,
                                scol as int,
                                w.txt@,
                                row as int,
                            ) == Err::<Seq<WordV>, DiagV>(d));
                            assert(w.deep_view() == d.word);
                        }
                        return Err(Diag { word: w, kind: DiagKind::UnterminatedString });
                    }
                    pos = closepos;
                }
            } else if c == '/' && pos + 1 < n && line.as_str().get_char(pos + 1) == '/' {
                row += 1;
                pos = 0;
            } else {
                let k = find_comment(line.as_str(), pos);
                let e = find_space(line.as_str(), pos);
                proof {
                    assert(space_from(linev, pos as int) == space_from(linev, pos as int + 1));
                    lemma_space_from_range(linev, pos as int + 1);
                    assert(comment_from(linev, pos as int) == comment_from(linev, pos as int + 1));
                    lemma_comment_from_range(linev, pos as int + 1);
                }
                if k < e {
                    let w = Word {
                        file: file.clone(),
                        row: row as u32,
                        col: pos as u32,
                        txt: line.as_str().substring_char(pos, k).to_owned(),
                    };
                    let ghost wv = w.deep_view();
                    proof {
                        assert(comment_from(linev, pos as int) == comment_from(linev, pos as int + 1));
                        lemma_comment_from_range(linev, pos as int + 1);
                        assert(lex_from(filev, linesv, row as int, pos as int) == prepend_word(
                            wv,
                            lex_from(filev, linesv, row as int + 1, 0),
                        ));
                        lemma_prepend_words_push(rdv, wv, lex_from(filev, linesv, row as int + 1, 0));
                    }
                    result.push(w);
                    proof {
                        assert(result.deep_view() =~= rdv.push(wv));
                    }
                    row += 1;
                    pos = 0;
                } else {
                    let w = Word {
                        file: file.clone(),
                        row: row as u32,
                        col: pos as u32,
                        txt: line.as_str().substring_char(pos, e).to_owned(),
                    };
                    let ghost wv = w.deep_view();
                    proof {
                        assert(lex_from(filev, linesv, row as int, pos as int) == prepend_word(
                            wv,
                            lex_from(filev, linesv, row as int, e as int),
                        ));
                        lemma_prepend_words_push(rdv, wv, lex_from(filev, linesv, row as int, e as int));
                    }
                    result.push(w);
                    proof {
                        assert(result.deep_view() =~= rdv.push(wv));
                    }
                    pos = e;
                }
            }
        }
    }
    proof {
        assert(lex_from(filev, linesv, row as int, pos as int) == Ok::<Seq<WordV>, DiagV>(
            Seq::empty(),
        ));
        assert(result.deep_view() + Seq::<WordV>::empty() =~= result.deep_view());
    }
    Ok(result)
}

} // verus!
