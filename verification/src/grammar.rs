//! The lexical grammar as mathematics: for each rule of the lexer, the result
//! and the final cursor as a function of the input and the start position.

use crate::analyzer::{AnalyzerError, AnalyzerResult, ErrorExpect};
use crate::stream::symbol_at;
use crate::text::{bounded_value, is_digit, is_hex, is_letter, is_space, is_word, scalar};
use crate::token::{Keyword, KindView, LiteralView, NumView, Symbol, Token, TokenView};
use vstd::prelude::*;

verus! {

/// What a rule gives: its result, and where it leaves the cursor.
pub type Verdict<O> = (Result<O, AnalyzerError<char>>, int);

/// The failure raised at `at`: it reports the symbol that stands there.
pub open spec fn miss(data: Seq<char>, at: int, expecting: ErrorExpect<char>) -> AnalyzerError<
    char,
> {
    AnalyzerError { pos: at as usize, unexpected: symbol_at(data, at), expecting }
}

/// A result with its value seen as mathematics.
pub open spec fn viewed<O: View>(res: AnalyzerResult<O, char>) -> Result<O::V, AnalyzerError<char>> {
    match res {
        Ok(x) => Ok(x@),
        Err(e) => Err(e),
    }
}

/// A result with its value seen through `see`.
pub open spec fn seen<O, V>(res: AnalyzerResult<O, char>, see: spec_fn(O) -> V) -> Result<
    V,
    AnalyzerError<char>,
> {
    match res {
        Ok(x) => Ok(see(x)),
        Err(e) => Err(e),
    }
}

/// A result with each of its values seen through `see`.
pub open spec fn seen_all<O, V>(res: AnalyzerResult<Vec<O>, char>, see: spec_fn(O) -> V) -> Result<
    Seq<V>,
    AnalyzerError<char>,
> {
    match res {
        Ok(v) => Ok(v@.map_values(see)),
        Err(e) => Err(e),
    }
}

/// The class of the letters.
pub open spec fn letters() -> spec_fn(char) -> bool {
    |c: char| is_letter(c)
}

/// The class of the symbols that may continue an identifier.
pub open spec fn words() -> spec_fn(char) -> bool {
    |c: char| is_word(c)
}

/// The class of the decimal digits.
pub open spec fn digits() -> spec_fn(char) -> bool {
    |c: char| is_digit(c)
}

/// The class of the hexadecimal digits.
pub open spec fn hexes() -> spec_fn(char) -> bool {
    |c: char| is_hex(c)
}

/// The class of all symbols but the end of a line.
pub open spec fn in_line() -> spec_fn(char) -> bool {
    |c: char| c != '\n'
}

/// The symbol of `want` at index `i` stands in `data` at `start + i`.
pub open spec fn agrees(want: Seq<char>, data: Seq<char>, start: int, i: int) -> bool {
    0 <= i < want.len() && symbol_at(data, start + i) == Some(want[i])
}

/// The index of the first symbol of `want`, from `from` on, that does not
/// stand in `data` at its place after `start`; the length of `want` if all do.
pub open spec fn agreeing(want: Seq<char>, data: Seq<char>, start: int, from: int) -> int
    decreases want.len() - from,
{
    if agrees(want, data, start, from) {
        agreeing(want, data, start, from + 1)
    } else {
        from
    }
}

/// Matching the word `want`: it is consumed as far as it agrees with the
/// input, and the match fails at the first symbol that differs.
pub open spec fn word_at(want: Seq<char>, data: Seq<char>, start: int) -> Verdict<Seq<char>> {
    let k = agreeing(want, data, start, 0);
    if k >= want.len() {
        (Ok(want), start + want.len())
    } else {
        (Err(miss(data, start + k, ErrorExpect::Token(want[k]))), start + k)
    }
}

/// One symbol that `class` accepts.
pub open spec fn class_at(class: spec_fn(char) -> bool, data: Seq<char>, start: int) -> Verdict<
    char,
> {
    if 0 <= start < data.len() && class(data[start]) {
        (Ok(data[start]), start + 1)
    } else {
        (Err(miss(data, start, ErrorExpect::Unknown)), start)
    }
}

/// The end of the longest run of symbols that `class` accepts, from `start`.
pub open spec fn run_end(class: spec_fn(char) -> bool, data: Seq<char>, start: int) -> int
    decreases data.len() - start,
{
    if 0 <= start < data.len() && class(data[start]) {
        run_end(class, data, start + 1)
    } else {
        start
    }
}

/// A repetition of symbols that `class` accepts, at least `least` of them
/// and at most `most`. It takes the longest run within its bound, and
/// fails, at the symbol that ends the run, where the run is too short.
pub open spec fn repeat_at(
    class: spec_fn(char) -> bool,
    least: int,
    most: Option<int>,
    data: Seq<char>,
    start: int,
) -> Verdict<Seq<char>> {
    let stop = run_end(class, data, start);
    if most is Some && stop - start >= most->0 {
        (Ok(data.subrange(start, start + most->0)), start + most->0)
    } else if stop - start < least {
        (Err(miss(data, stop, ErrorExpect::Unknown)), stop)
    } else {
        (Ok(data.subrange(start, stop)), stop)
    }
}

/// An identifier: a letter, then the longest run of letters, digits and
/// underscores.
pub open spec fn ident_rule(data: Seq<char>, start: int) -> Verdict<Seq<char>> {
    if 0 <= start < data.len() && is_letter(data[start]) {
        let stop = run_end(words(), data, start + 1);
        (Ok(data.subrange(start, stop)), stop)
    } else {
        (Err(miss(data, start, ErrorExpect::Unknown)), start)
    }
}

/// The character that the hexadecimal digits `s` name, if they name one.
pub open spec fn hex_scalar(s: Seq<char>) -> Option<char> {
    match bounded_value(s, 16, 0x10FFFF) {
        Some(v) => scalar(v),
        None => None,
    }
}

/// A character given by exactly `len` hexadecimal digits. With fewer
/// digits the rule fails at the first symbol that is none; with digits
/// that name no scalar value it fails after them.
pub open spec fn hex_rule(len: int, data: Seq<char>, start: int) -> Verdict<char> {
    match repeat_at(hexes(), len, Some(len), data, start) {
        (Ok(ds), end) => match hex_scalar(ds) {
            Some(c) => (Ok(c), end),
            None => (Err(miss(data, end, ErrorExpect::Unknown)), end),
        },
        (Err(e), end) => (Err(e), end),
    }
}

/// What follows the backslash of an escape, in a literal quoted by `lit`.
/// An unknown escape fails on its symbol, which is consumed.
pub open spec fn escape_rule(lit: char, data: Seq<char>, start: int) -> Verdict<char> {
    match symbol_at(data, start) {
        None => (Err(miss(data, start, ErrorExpect::Any)), start),
        Some(c) => {
            if c == 't' {
                (Ok('\t'), start + 1)
            } else if c == 'n' {
                (Ok('\n'), start + 1)
            } else if c == 'r' {
                (Ok('\r'), start + 1)
            } else if c == '\\' {
                (Ok('\\'), start + 1)
            } else if c == lit {
                (Ok(lit), start + 1)
            } else if c == 'x' {
                hex_rule(2, data, start + 1)
            } else if c == 'u' {
                hex_rule(4, data, start + 1)
            } else if c == 'U' {
                hex_rule(8, data, start + 1)
            } else {
                (Err(miss(data, start, ErrorExpect::Unknown)), start + 1)
            }
        },
    }
}

/// One character of a literal quoted by `lit`: an escape, or any symbol but
/// the quote, at which the rule fails without consuming it.
pub open spec fn literal_char_rule(lit: char, data: Seq<char>, start: int) -> Verdict<char> {
    match symbol_at(data, start) {
        None => (Err(miss(data, start, ErrorExpect::Any)), start),
        Some(c) => {
            if c == lit {
                (Err(miss(data, start, ErrorExpect::Unknown)), start)
            } else if c == '\\' {
                escape_rule(lit, data, start + 1)
            } else {
                (Ok(c), start + 1)
            }
        },
    }
}

/// The rule `literal_char` for the quote `lit`, as a function.
pub open spec fn literal_chars(lit: char) -> spec_fn(Seq<char>, int) -> Verdict<char> {
    |data: Seq<char>, start: int| literal_char_rule(lit, data, start)
}

/// The symbol `c`, consumed if it stands at the cursor.
pub open spec fn token_at(c: char, data: Seq<char>, start: int) -> Verdict<char> {
    if symbol_at(data, start) == Some(c) {
        (Ok(c), start + 1)
    } else {
        (Err(miss(data, start, ErrorExpect::Token(c))), start)
    }
}

/// What lies between two quotes `lit`, read by `body`: the opening quote,
/// the body, the closing quote. The first failure is the failure of the
/// whole, with the cursor where it happened.
pub open spec fn quoted<V>(
    lit: char,
    body: spec_fn(Seq<char>, int) -> Verdict<V>,
    data: Seq<char>,
    start: int,
) -> Verdict<V> {
    match token_at(lit, data, start) {
        (Err(e), end) => (Err(e), end),
        (Ok(_), inner) => match body(data, inner) {
            (Err(e), end) => (Err(e), end),
            (Ok(v), close) => match token_at(lit, data, close) {
                (Err(e), end) => (Err(e), end),
                (Ok(_), end) => (Ok(v), end),
            },
        },
    }
}

/// A character literal: one character between single quotes.
pub open spec fn char_literal_rule(data: Seq<char>, start: int) -> Verdict<char> {
    quoted('\'', literal_chars('\''), data, start)
}

/// The repetition of `item`, from `start` with `done` values in hand: at
/// least `least` values and at most `most`.
///
/// It ends when the bound is reached, or at the first failure. A failure
/// with fewer than `least` values, or one that moved the cursor, is the
/// failure of the whole. Without a bound it also ends, once `least` is
/// reached, after a value that did not advance the cursor.
pub open spec fn many_at<V>(
    item: spec_fn(Seq<char>, int) -> Verdict<V>,
    least: int,
    most: Option<int>,
    data: Seq<char>,
    start: int,
    done: int,
) -> Verdict<Seq<V>>
    decreases
            (if most is Some {
                most->0 - done
            } else if done < least {
                least - done
            } else {
                0
            }),
            data.len() - start,
{
    if most is Some && done >= most->0 {
        (Ok(Seq::empty()), start)
    } else {
        match item(data, start) {
            (Ok(x), next) => {
                if most is None && done + 1 >= least && !(start < next <= data.len()) {
                    (Ok(seq![x]), next)
                } else {
                    match many_at(item, least, most, data, next, done + 1) {
                        (Ok(rest), end) => (Ok(seq![x] + rest), end),
                        (Err(e), end) => (Err(e), end),
                    }
                }
            },
            (Err(e), end) => {
                if done < least || end != start {
                    (Err(e), end)
                } else {
                    (Ok(Seq::empty()), start)
                }
            },
        }
    }
}

/// One symbol of white space: a space, the end of a line, a tabulator.
/// The failure is that of the last one tried, the tabulator.
pub open spec fn space_rule(data: Seq<char>, start: int) -> Verdict<()> {
    if symbol_at(data, start) matches Some(c) && is_space(c) {
        (Ok(()), start + 1)
    } else {
        (Err(miss(data, start, ErrorExpect::Token('\t'))), start)
    }
}

/// The word of the two symbols `a` and `b`. It fails at the symbol that
/// differs; if that is the second, the first is consumed all the same.
pub open spec fn opening(a: char, b: char, data: Seq<char>, start: int) -> Verdict<()> {
    if symbol_at(data, start) != Some(a) {
        (Err(miss(data, start, ErrorExpect::Token(a))), start)
    } else if symbol_at(data, start + 1) != Some(b) {
        (Err(miss(data, start + 1, ErrorExpect::Token(b))), start + 1)
    } else {
        (Ok(()), start + 2)
    }
}

/// A line comment: two slashes, then all up to and including the end of the
/// line, or up to the end of the input.
pub open spec fn line_comment_rule(data: Seq<char>, start: int) -> Verdict<()> {
    match opening('/', '/', data, start) {
        (Err(e), end) => (Err(e), end),
        (Ok(_), body) => {
            let stop = run_end(in_line(), data, body);
            if symbol_at(data, stop) == Some('\n') {
                (Ok(()), stop + 1)
            } else {
                (Ok(()), stop)
            }
        },
    }
}

/// Where the block comment ends that stands open `depth` deep at `pos`:
/// just after the `*/` that closes the outermost one, each `/*` on the way
/// opening one more. `None` where the input ends before that.
pub open spec fn closing(data: Seq<char>, pos: int, depth: int) -> Option<int>
    decreases data.len() - pos,
{
    if !(0 <= pos < data.len()) {
        None
    } else if data[pos] == '/' && symbol_at(data, pos + 1) == Some('*') {
        closing(data, pos + 2, depth + 1)
    } else if data[pos] == '*' && symbol_at(data, pos + 1) == Some('/') {
        if depth <= 1 {
            Some(pos + 2)
        } else {
            closing(data, pos + 2, depth - 1)
        }
    } else {
        closing(data, pos + 1, depth)
    }
}

/// A block comment: `/*`, then all up to the `*/` that closes it, block
/// comments inside it being closed first. Left open, it fails at the end of
/// the input, where `*` was looked for.
pub open spec fn block_comment_rule(data: Seq<char>, start: int) -> Verdict<()> {
    match opening('/', '*', data, start) {
        (Err(e), end) => (Err(e), end),
        (Ok(_), body) => match closing(data, body, 1) {
            Some(end) => (Ok(()), end),
            None => (
                Err(miss(data, data.len() as int, ErrorExpect::Token('*'))),
                data.len() as int,
            ),
        },
    }
}

/// A comment: a line comment or, where none stands, a block comment read
/// from the same place.
pub open spec fn comment_rule(data: Seq<char>, start: int) -> Verdict<()> {
    match line_comment_rule(data, start) {
        (Ok(_), end) => (Ok(()), end),
        (Err(_), _) => block_comment_rule(data, start),
    }
}

/// One thing that is skipped: a symbol of white space, or a comment.
pub open spec fn blank_rule(data: Seq<char>, start: int) -> Verdict<()> {
    match space_rule(data, start) {
        (Ok(_), end) => (Ok(()), end),
        (Err(_), _) => comment_rule(data, start),
    }
}

/// The rule `blank_rule` as a function.
pub open spec fn blanks() -> spec_fn(Seq<char>, int) -> Verdict<()> {
    |data: Seq<char>, start: int| blank_rule(data, start)
}

/// All that is skipped from `start` on: white space and comments, as many
/// as stand there. A slash that opens no comment, and a block comment left
/// open, make it fail.
pub open spec fn skip_rule(data: Seq<char>, start: int) -> Verdict<()> {
    match many_at(blanks(), 0, None, data, start, 0) {
        (Ok(_), end) => (Ok(()), end),
        (Err(e), end) => (Err(e), end),
    }
}

/// A string literal: characters between double quotes.
pub open spec fn string_literal_rule(data: Seq<char>, start: int) -> Verdict<Seq<char>> {
    quoted(
        '"',
        |d: Seq<char>, s: int| many_at(literal_chars('"'), 0, None, d, s, 0),
        data,
        start,
    )
}

/// The suffix of a 32-bit integer literal.
pub open spec fn suffix_int32() -> Seq<char> {
    seq!['i', '3', '2']
}

/// The suffix of a 64-bit integer literal.
pub open spec fn suffix_int64() -> Seq<char> {
    seq!['i', '6', '4']
}

/// The suffix of a 32-bit floating literal.
pub open spec fn suffix_float32() -> Seq<char> {
    seq!['f', '3', '2']
}

/// The suffix of a 64-bit floating literal.
pub open spec fn suffix_float64() -> Seq<char> {
    seq!['f', '6', '4']
}

/// The value of a numeric literal, from its integer digits `whole`, its
/// text `fraction` if it has a fractional part, and its suffix.
///
/// With a fractional part the suffix is absent or names a floating width,
/// 64 bits if absent. Without one the suffix is absent or names an integer
/// width, 32 bits if absent, and the digits must fit that width. Anything
/// else is no literal.
pub open spec fn number_value(
    whole: Seq<char>,
    fraction: Option<Seq<char>>,
    suffix: Option<Seq<char>>,
) -> Option<NumView> {
    match fraction {
        Some(text) => {
            if suffix is None || suffix == Some(suffix_float64()) {
                Some(NumView::F64(text))
            } else if suffix == Some(suffix_float32()) {
                Some(NumView::F32(text))
            } else {
                None
            }
        },
        None => {
            if suffix is None || suffix == Some(suffix_int32()) {
                match bounded_value(whole, 10, i32::MAX as nat) {
                    Some(v) => Some(NumView::I32(v as i32)),
                    None => None,
                }
            } else if suffix == Some(suffix_int64()) {
                match bounded_value(whole, 10, i64::MAX as nat) {
                    Some(v) => Some(NumView::I64(v as i64)),
                    None => None,
                }
            } else {
                None
            }
        },
    }
}

/// A numeric literal: digits; then, if a point and a digit follow, the
/// fractional digits; then, if an identifier follows, the suffix.
///
/// A point that no digit follows is consumed all the same, and the literal
/// goes on as one without a fractional part. Where the parts make no value
/// the rule fails after all of them, at the symbol that follows.
pub open spec fn number_rule(data: Seq<char>, start: int) -> Verdict<NumView> {
    let whole_end = run_end(digits(), data, start);
    if !(0 <= start < whole_end) {
        (Err(miss(data, start, ErrorExpect::Unknown)), start)
    } else {
        let point = symbol_at(data, whole_end) == Some('.');
        let fraction_end = run_end(digits(), data, whole_end + 1);
        let fraction = point && fraction_end > whole_end + 1;
        let body_end = if fraction {
            fraction_end
        } else if point {
            whole_end + 1
        } else {
            whole_end
        };
        let (suffix, end) = match ident_rule(data, body_end) {
            (Ok(name), e) => (Some(name), e),
            (Err(_), _) => (None, body_end),
        };
        let value = number_value(
            data.subrange(start, whole_end),
            if fraction {
                Some(data.subrange(start, fraction_end))
            } else {
                None
            },
            suffix,
        );
        match value {
            Some(v) => (Ok(v), end),
            None => (Err(miss(data, end, ErrorExpect::Unknown)), end),
        }
    }
}

/// A mark of one symbol: `c` at the cursor gives `sym`; anything else is a
/// failure that consumes nothing.
pub open spec fn mark_at(c: char, sym: Symbol, data: Seq<char>, start: int) -> Verdict<Symbol> {
    if symbol_at(data, start) == Some(c) {
        (Ok(sym), start + 1)
    } else {
        (Err(miss(data, start, ErrorExpect::Token(c))), start)
    }
}

/// A mark of two symbols: `a` then `b` at the cursor give `sym`; anything
/// else is a failure, raised at the symbol that differs, and the cursor stays
/// where it was.
pub open spec fn pair_at(a: char, b: char, sym: Symbol, data: Seq<char>, start: int) -> Verdict<
    Symbol,
> {
    if symbol_at(data, start) != Some(a) {
        (Err(miss(data, start, ErrorExpect::Token(a))), start)
    } else if symbol_at(data, start + 1) != Some(b) {
        (Err(miss(data, start + 1, ErrorExpect::Token(b))), start)
    } else {
        (Ok(sym), start + 2)
    }
}

/// The mark made of `c` and, where `d` follows it, of both: the longer mark
/// wins.
pub open spec fn munch(
    c: char,
    d: char,
    long: Symbol,
    short: Symbol,
    data: Seq<char>,
    start: int,
) -> Verdict<Symbol> {
    if symbol_at(data, start + 1) == Some(d) {
        (Ok(long), start + 2)
    } else {
        (Ok(short), start + 1)
    }
}

/// The operator or punctuation mark at the cursor. Of two marks that start
/// alike, the longer is taken. Where no mark stands, the failure is that of
/// the last one tried, `=`, and nothing is consumed.
pub open spec fn symbol_rule(data: Seq<char>, start: int) -> Verdict<Symbol> {
    match symbol_at(data, start) {
        Some('.') => (Ok(Symbol::Dot), start + 1),
        Some(',') => (Ok(Symbol::Comma), start + 1),
        Some(':') => (Ok(Symbol::Colon), start + 1),
        Some(';') => (Ok(Symbol::Semicolon), start + 1),
        Some('(') => (Ok(Symbol::OpenParent), start + 1),
        Some(')') => (Ok(Symbol::CloseParent), start + 1),
        Some('[') => (Ok(Symbol::OpenBracket), start + 1),
        Some(']') => (Ok(Symbol::CloseBracket), start + 1),
        Some('{') => (Ok(Symbol::OpenBrace), start + 1),
        Some('}') => (Ok(Symbol::CloseBrace), start + 1),
        Some('!') => munch('!', '=', Symbol::Ne, Symbol::Not, data, start),
        Some('+') => (Ok(Symbol::Add), start + 1),
        Some('-') => (Ok(Symbol::Sub), start + 1),
        Some('*') => munch('*', '*', Symbol::Pow, Symbol::Mul, data, start),
        Some('/') => (Ok(Symbol::Div), start + 1),
        Some('%') => (Ok(Symbol::Mod), start + 1),
        Some('&') => munch('&', '&', Symbol::And, Symbol::BitAnd, data, start),
        Some('|') => munch('|', '|', Symbol::Or, Symbol::BitOr, data, start),
        Some('^') => (Ok(Symbol::BitXor), start + 1),
        Some('<') => munch('<', '=', Symbol::Lte, Symbol::Lt, data, start),
        Some('>') => munch('>', '=', Symbol::Gte, Symbol::Gt, data, start),
        Some('=') => munch('=', '=', Symbol::Eq, Symbol::Assign, data, start),
        _ => (Err(miss(data, start, ErrorExpect::Token('='))), start),
    }
}

/// The reserved word that `name` spells, if it spells one.
pub open spec fn keyword_of(name: Seq<char>) -> Option<Keyword> {
    if name == "i32"@ {
        Some(Keyword::I32)
    } else if name == "i64"@ {
        Some(Keyword::I64)
    } else if name == "F32"@ {
        Some(Keyword::F32)
    } else if name == "F64"@ {
        Some(Keyword::F64)
    } else if name == "string"@ {
        Some(Keyword::String)
    } else if name == "bool"@ {
        Some(Keyword::Bool)
    } else if name == "char"@ {
        Some(Keyword::Char)
    } else if name == "true"@ {
        Some(Keyword::True)
    } else if name == "false"@ {
        Some(Keyword::False)
    } else if name == "let"@ {
        Some(Keyword::Let)
    } else if name == "if"@ {
        Some(Keyword::If)
    } else if name == "while"@ {
        Some(Keyword::While)
    } else if name == "return"@ {
        Some(Keyword::Return)
    } else if name == "struct"@ {
        Some(Keyword::Struct)
    } else if name == "fun"@ {
        Some(Keyword::Fun)
    } else if name == "extern"@ {
        Some(Keyword::Extern)
    } else if name == "for"@ {
        Some(Keyword::For)
    } else {
        None
    }
}

/// What the word `name` is: a reserved word, or else an identifier.
pub open spec fn word_kind(name: Seq<char>) -> KindView {
    match keyword_of(name) {
        Some(k) => KindView::Keyword(k),
        None => KindView::Ident(name),
    }
}

/// An identifier or a reserved word: the whole identifier is read first,
/// and then looked up.
pub open spec fn ident_or_keyword_rule(data: Seq<char>, start: int) -> Verdict<KindView> {
    match ident_rule(data, start) {
        (Ok(name), end) => (Ok(word_kind(name)), end),
        (Err(e), end) => (Err(e), end),
    }
}

/// A literal: a character literal; or else a string literal; or else a
/// numeric literal. Each is tried from where the one before failed.
pub open spec fn literal_rule(data: Seq<char>, start: int) -> Verdict<LiteralView> {
    match char_literal_rule(data, start) {
        (Ok(c), end) => (Ok(LiteralView::Char(c)), end),
        (Err(_), second) => match string_literal_rule(data, second) {
            (Ok(s), end) => (Ok(LiteralView::String(s)), end),
            (Err(_), third) => match number_rule(data, third) {
                (Ok(n), end) => (Ok(LiteralView::NumLiteral(n)), end),
                (Err(e), end) => (Err(e), end),
            },
        },
    }
}

/// The kind of the lexeme at the cursor: an identifier or reserved word; or
/// else an operator or punctuation mark; or else a literal.
pub open spec fn kind_rule(data: Seq<char>, start: int) -> Verdict<KindView> {
    match ident_or_keyword_rule(data, start) {
        (Ok(k), end) => (Ok(k), end),
        (Err(_), second) => match symbol_rule(data, second) {
            (Ok(s), end) => (Ok(KindView::Symbol(s)), end),
            (Err(_), third) => match literal_rule(data, third) {
                (Ok(l), end) => (Ok(KindView::Literal(l)), end),
                (Err(e), end) => (Err(e), end),
            },
        },
    }
}

/// One token: the lexeme at the cursor, with the offset where it starts
/// and the number of symbols it spans.
pub open spec fn token_rule(data: Seq<char>, start: int) -> Verdict<TokenView> {
    match kind_rule(data, start) {
        (Ok(kind), end) => (Ok(TokenView { kind, pos: start, len: end - start }), end),
        (Err(e), end) => (Err(e), end),
    }
}

/// One token with what is skipped before it.
pub open spec fn lexeme_rule(data: Seq<char>, start: int) -> Verdict<TokenView> {
    match skip_rule(data, start) {
        (Ok(_), at) => token_rule(data, at),
        (Err(e), end) => (Err(e), end),
    }
}

/// The rule `lexeme_rule` as a function.
pub open spec fn lexemes() -> spec_fn(Seq<char>, int) -> Verdict<TokenView> {
    |data: Seq<char>, start: int| lexeme_rule(data, start)
}

/// The view of a token, as a function.
pub open spec fn token_view() -> spec_fn(Token) -> TokenView {
    |t: Token| t@
}

/// The end of the input: it fails wherever a symbol is left.
pub open spec fn end_rule(data: Seq<char>, start: int) -> Verdict<()> {
    if start == data.len() {
        (Ok(()), start)
    } else {
        (Err(miss(data, start, ErrorExpect::Eof)), start)
    }
}

/// The whole input as tokens: one token or more, each after what is
/// skipped before it; then what is skipped after the last; then the end of
/// the input. The first failure is the failure of the whole.
pub open spec fn lexer_rule(data: Seq<char>, start: int) -> Verdict<Seq<TokenView>> {
    match many_at(lexemes(), 1, None, data, start, 0) {
        (Err(e), end) => (Err(e), end),
        (Ok(tokens), rest) => match skip_rule(data, rest) {
            (Err(e), end) => (Err(e), end),
            (Ok(_), last) => match end_rule(data, last) {
                (Err(e), end) => (Err(e), end),
                (Ok(_), end) => (Ok(tokens), end),
            },
        },
    }
}

/// The tokens `tokens`, read from `start` of `data` up to `end`, cover the
/// input between the two without gap or overlap: each token spans at least
/// one symbol and starts just where the white space and comments that
/// follow the token before it, or `start`, come to an end; and `end` is
/// where the last token ends.
pub open spec fn tiled(data: Seq<char>, start: int, tokens: Seq<TokenView>, end: int) -> bool
    decreases tokens.len(),
{
    if tokens.len() == 0 {
        end == start
    } else {
        let first = tokens[0];
        &&& first.len >= 1
        &&& 0 <= start <= first.pos
        &&& first.pos + first.len <= data.len()
        &&& skip_rule(data, start) == (Ok::<(), AnalyzerError<char>>(()), first.pos)
        &&& token_rule(data, first.pos) == (
            Ok::<TokenView, AnalyzerError<char>>(first),
            first.pos + first.len,
        )
        &&& tiled(data, first.pos + first.len, tokens.drop_first(), end)
    }
}

} // verus!
