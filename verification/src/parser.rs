//! The lexer proper: splitting raw text into lines, scanning each line into
//! tokens, and assembling the resulting program.

use vstd::prelude::*;

use crate::errors::Error;
use crate::file::File;
use crate::program::{Program, VarView};
use crate::text::{chars_eq_str, chars_to_string, str_eq_str, str_to_chars, to_upper, upper_char, upper_seq};
use crate::tokens::{value_of, Token, TokenView};

verus! {

/// One step of splitting on `'\n'`: the segments of `s` from position `i`
/// on, with `cur` the partial segment accumulated so far and `acc` the
/// segments already completed. Every segment is kept, empty ones included.
pub open spec fn split_from(
    s: Seq<char>,
    i: int,
    cur: Seq<char>,
    acc: Seq<Seq<char>>,
) -> Seq<Seq<char>>
    decreases s.len() - i,
{
    if i < 0 || i >= s.len() {
        acc.push(cur)
    } else if s[i] == '\n' {
        split_from(s, i + 1, Seq::empty(), acc.push(cur))
    } else {
        split_from(s, i + 1, cur.push(s[i]), acc)
    }
}

/// All segments of `s` between `'\n'` separators, in order, empty segments
/// included. An empty input has one empty segment.
pub open spec fn split_segments(s: Seq<char>) -> Seq<Seq<char>> {
    split_from(s, 0, Seq::empty(), Seq::empty())
}

/// Whether a physical line is non-empty.
pub open spec fn line_nonempty(l: Seq<char>) -> bool {
    l.len() > 0
}

/// The non-empty physical lines of raw text `s`, in their original order
/// and otherwise unmodified.
pub open spec fn nonempty_lines(s: Seq<char>) -> Seq<Seq<char>> {
    split_segments(s).filter(|l: Seq<char>| line_nonempty(l))
}

/// How many of the given physical lines are non-empty.
pub open spec fn count_nonempty(lines: Seq<Seq<char>>) -> nat
    decreases lines.len(),
{
    if lines.len() == 0 {
        0
    } else {
        count_nonempty(lines.drop_last()) + if line_nonempty(lines.last()) {
            1nat
        } else {
            0nat
        }
    }
}

proof fn lemma_filter_push(s: Seq<Seq<char>>, x: Seq<char>)
    ensures
        s.push(x).filter(|l: Seq<char>| line_nonempty(l)) == if line_nonempty(x) {
            s.filter(|l: Seq<char>| line_nonempty(l)).push(x)
        } else {
            s.filter(|l: Seq<char>| line_nonempty(l))
        },
{
    reveal(Seq::filter);
    assert(s.push(x).drop_last() =~= s);
    assert(s.push(x).last() == x);
}

proof fn lemma_filter_count(lines: Seq<Seq<char>>)
    ensures
        lines.filter(|l: Seq<char>| line_nonempty(l)).len() == count_nonempty(lines),
    decreases lines.len(),
{
    reveal(Seq::filter);
    if lines.len() > 0 {
        lemma_filter_count(lines.drop_last());
    }
}

/// The splitter keeps exactly the non-empty lines: its output length is the
/// number of non-empty physical lines of the input, each kept line is
/// non-empty, and the order is the original one (the output is the filter
/// of the full segment sequence).
pub proof fn lemma_splitter_counts_nonempty_lines(s: Seq<char>)
    ensures
        nonempty_lines(s).len() == count_nonempty(split_segments(s)),
        forall|i: int|
            0 <= i < nonempty_lines(s).len() ==> line_nonempty(#[trigger] nonempty_lines(s)[i]),
{
    lemma_filter_count(split_segments(s));
    assert forall|i: int| 0 <= i < nonempty_lines(s).len() implies line_nonempty(
        #[trigger] nonempty_lines(s)[i],
    ) by {
        split_segments(s).lemma_filter_pred(|l: Seq<char>| line_nonempty(l), i);
    }
}

/// Splits the raw text of a source unit into its non-empty physical lines,
/// in order, each passed through unmodified (leading and trailing
/// whitespace included).
pub fn split_line(file: &File) -> (lines: Vec<String>)
    ensures
        lines.deep_view() == nonempty_lines(file@.content),
{
    let content: &str = file.get_content();
    let chars: Vec<char> = str_to_chars(content);
    let n: usize = chars.len();
    let mut lines: Vec<String> = Vec::new();
    let mut cur: Vec<char> = Vec::new();
    let ghost mut segs: Seq<Seq<char>> = Seq::empty();
    let mut i: usize = 0;
    while i < n
        invariant
            i <= n,
            n == file@.content.len(),
            chars@ == file@.content,
            split_segments(file@.content) == split_from(file@.content, i as int, cur@, segs),
            lines.deep_view() == segs.filter(|l: Seq<char>| line_nonempty(l)),
        decreases n - i,
    {
        let c: char = chars[i];
        if c == '\n' {
            proof {
                lemma_filter_push(segs, cur@);
                assert(split_from(file@.content, i as int, cur@, segs) == split_from(
                    file@.content,
                    i as int + 1,
                    Seq::empty(),
                    segs.push(cur@),
                ));
            }
            if cur.len() > 0 {
                let line: String = chars_to_string(&cur);
                lines.push(line);
            }
            proof {
                segs = segs.push(cur@);
                assert(lines.deep_view() =~= segs.filter(|l: Seq<char>| line_nonempty(l)));
            }
            cur.clear();
        } else {
            proof {
                assert(split_from(file@.content, i as int, cur@, segs) == split_from(
                    file@.content,
                    i as int + 1,
                    cur@.push(file@.content[i as int]),
                    segs,
                ));
            }
            cur.push(c);
        }
        i = i + 1;
    }
    proof {
        assert(split_from(file@.content, n as int, cur@, segs) == segs.push(cur@));
        lemma_filter_push(segs, cur@);
    }
    if cur.len() > 0 {
        let line: String = chars_to_string(&cur);
        lines.push(line);
    }
    proof {
        assert(lines.deep_view() =~= nonempty_lines(file@.content));
    }
    lines
}

/// The context-free classification of one word: the word is compared after
/// ASCII upper-casing against the keyword and operator table; the payload of
/// a payload-carrying token keeps the original casing. An unrecognized word
/// degrades to `Other`.
pub open spec fn classify(word: Seq<char>) -> TokenView {
    let up = upper_seq(word);
    if up == "::"@ || up == "="@ {
        TokenView::Assign(word)
    } else if up == "+"@ || up == "-"@ || up == "*"@ || up == "/"@ {
        TokenView::Operator(word)
    } else if up == "DO"@ || up == "FOR"@ {
        TokenView::Do
    } else if up == "ELSE"@ {
        TokenView::Else
    } else if up == "END"@ {
        TokenView::End
    } else if up == "IF"@ {
        TokenView::If
    } else if up == "PRINT"@ {
        TokenView::Print
    } else if up == "PROGRAM"@ {
        TokenView::Program
    } else if up == "REAL"@ || up == "INTEGER"@ || up == "CHARACTER"@ || up == "LOGICAL"@ {
        TokenView::Type(word)
    } else if up == "RETURN"@ {
        TokenView::Return
    } else if up == "THEN"@ {
        TokenView::Then
    } else if up == "WHILE"@ {
        TokenView::While
    } else {
        TokenView::Other(word)
    }
}

/// The classifier is a pure function of the word alone: equal words are
/// always classified to equal tokens, wherever and however often they are
/// scanned.
pub proof fn lemma_classifier_deterministic(w1: Seq<char>, w2: Seq<char>)
    requires
        w1 == w2,
    ensures
        classify(w1) == classify(w2),
{
}

/// Returns the token corresponding to one word, with no context applied.
pub fn tokenize(word: String) -> (t: Token)
    ensures
        t@ == classify(word@),
{
    let chars: Vec<char> = str_to_chars(word.as_str());
    let mut up: Vec<char> = Vec::new();
    let mut i: usize = 0;
    while i < chars.len()
        invariant
            i <= chars@.len(),
            chars@ == word@,
            up@.len() == i,
            forall|k: int| 0 <= k < i ==> up@[k] == upper_char(word@[k]),
        decreases chars@.len() - i,
    {
        up.push(to_upper(chars[i]));
        i = i + 1;
    }
    proof {
        assert(up@ =~= upper_seq(word@));
    }
    if chars_eq_str(&up, "::") || chars_eq_str(&up, "=") {
        Token::Assign(word)
    } else if chars_eq_str(&up, "+") || chars_eq_str(&up, "-") || chars_eq_str(&up, "*")
        || chars_eq_str(&up, "/") {
        Token::Operator(word)
    } else if chars_eq_str(&up, "DO") || chars_eq_str(&up, "FOR") {
        Token::Do
    } else if chars_eq_str(&up, "ELSE") {
        Token::Else
    } else if chars_eq_str(&up, "END") {
        Token::End
    } else if chars_eq_str(&up, "IF") {
        Token::If
    } else if chars_eq_str(&up, "PRINT") {
        Token::Print
    } else if chars_eq_str(&up, "PROGRAM") {
        Token::Program
    } else if chars_eq_str(&up, "REAL") || chars_eq_str(&up, "INTEGER") || chars_eq_str(
        &up,
        "CHARACTER",
    ) || chars_eq_str(&up, "LOGICAL") {
        Token::Type(word)
    } else if chars_eq_str(&up, "RETURN") {
        Token::Return
    } else if chars_eq_str(&up, "THEN") {
        Token::Then
    } else if chars_eq_str(&up, "WHILE") {
        Token::While
    } else {
        Token::Other(word)
    }
}

/// Contextual reclassification by single-token lookback: an `Other` word
/// right after the `Program` keyword becomes an `Identifier`, right after
/// an `Assign` whose payload is exactly `::` it becomes a `Variable`; every
/// other token is left as classified.
pub open spec fn reclassify(prev: Seq<TokenView>, t: TokenView) -> TokenView {
    match t {
        TokenView::Other(w) => {
            if prev.len() > 0 && prev.last() == TokenView::Program {
                TokenView::Identifier(w)
            } else if prev.len() > 0 && (prev.last() matches TokenView::Assign(p) && p == "::"@) {
                TokenView::Variable(w)
            } else {
                t
            }
        },
        _ => t,
    }
}

/// Classifying one completed word against the tokens already scanned on
/// this line, context applied.
pub open spec fn flush_word(toks: Seq<TokenView>, word: Seq<char>) -> Seq<TokenView> {
    toks.push(reclassify(toks, classify(word)))
}

/// One step of scanning a line: the tokens of `line` from position `i` on,
/// with `buf` the word accumulated so far, `in_quote` the quoting flag and
/// `toks` the tokens already produced.
///
/// A `"` toggles the quoting flag and flushes a non-empty buffer as a
/// string literal; inside quotes every character is accumulated verbatim; a
/// space, a comma or the final position of the line is a word boundary (the
/// final character is first appended unless it is itself a delimiter); a
/// `!` outside quotes turns the rest of the line into one comment token and
/// ends the scan, discarding any partial buffer; any other character is
/// accumulated. A buffer left over at the end of the line (only possible
/// inside an unterminated quote) is dropped.
pub open spec fn scan_from(
    line: Seq<char>,
    i: int,
    buf: Seq<char>,
    in_quote: bool,
    toks: Seq<TokenView>,
) -> Seq<TokenView>
    decreases line.len() - i,
{
    if i < 0 || i >= line.len() {
        toks
    } else {
        let c = line[i];
        if c == '"' {
            let toks2 = if buf.len() > 0 {
                toks.push(TokenView::Str(buf))
            } else {
                toks
            };
            scan_from(line, i + 1, Seq::empty(), !in_quote, toks2)
        } else if in_quote {
            scan_from(line, i + 1, buf.push(c), in_quote, toks)
        } else if c == ' ' || c == ',' || i == line.len() - 1 {
            let buf2 = if i == line.len() - 1 && c != ' ' && c != ',' {
                buf.push(c)
            } else {
                buf
            };
            if buf2.len() == 0 {
                scan_from(line, i + 1, buf2, in_quote, toks)
            } else {
                scan_from(line, i + 1, Seq::empty(), in_quote, flush_word(toks, buf2))
            }
        } else if c == '!' {
            toks.push(TokenView::Comment(line.subrange(i, line.len() as int)))
        } else {
            scan_from(line, i + 1, buf.push(c), in_quote, toks)
        }
    }
}

/// The token sequence of one whole line.
pub open spec fn scan_line(line: Seq<char>) -> Seq<TokenView> {
    scan_from(line, 0, Seq::empty(), false, Seq::empty())
}

fn apply_context(tokens: &Vec<Token>, t: Token) -> (r: Token)
    ensures
        r@ == reclassify(tokens.deep_view(), t@),
{
    match t {
        Token::Other(w) => {
            if tokens.len() > 0 {
                let last: &Token = &tokens[tokens.len() - 1];
                proof {
                    assert(tokens.deep_view().last() == last@);
                }
                if matches!(last, Token::Program) {
                    return Token::Identifier(w);
                }
                let after_declaration: bool = match last {
                    Token::Assign(p) => str_eq_str(p.as_str(), "::"),
                    _ => false,
                };
                if after_declaration {
                    return Token::Variable(w);
                }
                Token::Other(w)
            } else {
                Token::Other(w)
            }
        },
        _ => t,
    }
}

/// Scans one line left to right into its token sequence.
pub fn parse_line(line: String, _pc: usize) -> (tokens: Vec<Token>)
    ensures
        tokens.deep_view() == scan_line(line@),
{
    let chars: Vec<char> = str_to_chars(line.as_str());
    let n: usize = chars.len();
    let mut tokens: Vec<Token> = Vec::new();
    let mut buf: Vec<char> = Vec::new();
    let mut in_quote: bool = false;
    let mut done: bool = false;
    let mut i: usize = 0;
    proof {
        assert(tokens.deep_view() =~= Seq::<TokenView>::empty());
    }
    while i < n && !done
        invariant
            i <= n,
            n == line@.len(),
            chars@ == line@,
            !done ==> scan_line(line@) == scan_from(
                line@,
                i as int,
                buf@,
                in_quote,
                tokens.deep_view(),
            ),
            done ==> tokens.deep_view() == scan_line(line@),
        decreases n - i,
    {
        let c: char = chars[i];
        let ghost pre_buf = buf@;
        let ghost pre_toks = tokens.deep_view();
        let ghost pre_quote = in_quote;
        if c == '"' {
            in_quote = !in_quote;
            if buf.len() > 0 {
                let word: String = chars_to_string(&buf);
                tokens.push(Token::Str(word));
                buf.clear();
            }
            proof {
                if pre_buf.len() > 0 {
                    assert(tokens.deep_view() =~= pre_toks.push(TokenView::Str(pre_buf)));
                }
                assert(buf@ =~= Seq::<char>::empty());
                assert(scan_from(line@, i as int, pre_buf, pre_quote, pre_toks) == scan_from(
                    line@,
                    i as int + 1,
                    Seq::empty(),
                    !pre_quote,
                    if pre_buf.len() > 0 {
                        pre_toks.push(TokenView::Str(pre_buf))
                    } else {
                        pre_toks
                    },
                ));
            }
        } else if in_quote {
            buf.push(c);
            proof {
                assert(scan_from(line@, i as int, pre_buf, pre_quote, pre_toks) == scan_from(
                    line@,
                    i as int + 1,
                    pre_buf.push(c),
                    pre_quote,
                    pre_toks,
                ));
            }
        } else if c == ' ' || c == ',' || i == n - 1 {
            if i == n - 1 && c != ' ' && c != ',' {
                buf.push(c);
            }
            let ghost buf2 = buf@;
            if buf.len() > 0 {
                let word: String = chars_to_string(&buf);
                let classified: Token = tokenize(word);
                let token: Token = apply_context(&tokens, classified);
                tokens.push(token);
                proof {
                    assert(tokens.deep_view() =~= flush_word(pre_toks, buf2));
                }
                buf.clear();
                proof {
                    assert(buf@ =~= Seq::<char>::empty());
                }
            }
            proof {
                assert(scan_from(line@, i as int, pre_buf, pre_quote, pre_toks) == scan_from(
                    line@,
                    i as int + 1,
                    buf@,
                    pre_quote,
                    tokens.deep_view(),
                ));
            }
        } else if c == '!' {
            let mut comment: Vec<char> = Vec::new();
            let mut j: usize = i;
            while j < n
                invariant
                    i <= j <= n,
                    n == line@.len(),
                    chars@ == line@,
                    comment@ == line@.subrange(i as int, j as int),
                decreases n - j,
            {
                comment.push(chars[j]);
                j = j + 1;
                proof {
                    assert(comment@ =~= line@.subrange(i as int, j as int));
                }
            }
            let word: String = chars_to_string(&comment);
            tokens.push(Token::Comment(word));
            done = true;
            proof {
                assert(tokens.deep_view() =~= pre_toks.push(
                    TokenView::Comment(line@.subrange(i as int, n as int)),
                ));
                assert(scan_from(line@, i as int, pre_buf, pre_quote, pre_toks)
                    == pre_toks.push(TokenView::Comment(line@.subrange(i as int, n as int))));
            }
        } else {
            buf.push(c);
            proof {
                assert(scan_from(line@, i as int, pre_buf, pre_quote, pre_toks) == scan_from(
                    line@,
                    i as int + 1,
                    pre_buf.push(c),
                    pre_quote,
                    pre_toks,
                ));
            }
        }
        i = i + 1;
    }
    tokens
}

/// The token sequences of all non-empty lines of raw text, in source order.
pub open spec fn scanned_lines(content: Seq<char>) -> Seq<Seq<TokenView>> {
    nonempty_lines(content).map(|i: int, l: Seq<char>| scan_line(l))
}

/// Whether a source unit can be assembled into a program: its first
/// non-empty line must scan to at least two tokens, the second of which
/// names the program.
pub open spec fn parse_ok(content: Seq<char>) -> bool {
    scanned_lines(content).len() > 0 && scanned_lines(content)[0].len() >= 2
}

/// The declared program name of a well-formed source unit: the canonical
/// string value of the second token of the first tokenized line.
pub open spec fn program_name(content: Seq<char>) -> Seq<char> {
    value_of(scanned_lines(content)[0][1])
}

/// Tokenizes a whole source unit into a program: the unit is split into
/// non-empty lines, each line is scanned in order, and the program is
/// assembled with the declared name, an empty variable table and the
/// unit's path. A unit whose first line does not carry a second token to
/// serve as the name is rejected rather than defaulted.
pub fn parser(file: File) -> (r: Result<Program, Error>)
    ensures
        r is Ok <==> parse_ok(file@.content),
        r matches Ok(p) ==> p.wf() && p@.name == program_name(file@.content) && p@.lines
            == scanned_lines(file@.content) && p@.variables == Map::<Seq<char>, VarView>::empty()
            && p@.path == file@.path && p@.pc == 0 && p@.verbose == false,
        r matches Err(e) ==> e == Error::WrongFormat,
{
    let tmp_lines: Vec<String> = split_line(&file);
    let mut lines: Vec<Vec<Token>> = Vec::new();
    let mut index: usize = 0;
    proof {
        assert(lines.deep_view() =~= scanned_lines(file@.content).subrange(0, 0));
    }
    while index < tmp_lines.len()
        invariant
            index <= tmp_lines@.len(),
            tmp_lines.deep_view() == nonempty_lines(file@.content),
            lines.deep_view() == scanned_lines(file@.content).subrange(0, index as int),
        decreases tmp_lines@.len() - index,
    {
        let line: String = tmp_lines[index].clone();
        proof {
            assert(line@ == nonempty_lines(file@.content)[index as int]);
        }
        let parsed: Vec<Token> = parse_line(line, index + 1);
        proof {
            assert(scanned_lines(file@.content)[index as int] == scan_line(
                nonempty_lines(file@.content)[index as int],
            ));
        }
        let ghost prev = lines.deep_view();
        lines.push(parsed);
        index = index + 1;
        proof {
            assert(lines.deep_view() =~= prev.push(parsed.deep_view()));
            assert(lines.deep_view() =~= scanned_lines(file@.content).subrange(0, index as int));
        }
    }
    proof {
        assert(lines.deep_view() =~= scanned_lines(file@.content));
    }
    if lines.len() == 0 {
        return Err(Error::WrongFormat);
    }
    let first_len: usize = lines[0].len();
    proof {
        assert(lines[0].deep_view() == scanned_lines(file@.content)[0]);
    }
    if first_len < 2 {
        return Err(Error::WrongFormat);
    }
    let name: String = lines[0][1].get_value();
    proof {
        assert(lines[0]@[1]@ == scanned_lines(file@.content)[0][1]);
    }
    let path: String = String::from_str(file.get_path());
    Ok(Program::new(name, lines, path))
}

} // verus!
