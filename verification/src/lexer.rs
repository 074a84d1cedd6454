//! The lexer: the rules of the lexical grammar, each built from the
//! combinators and proved against its model.

use crate::analyzer::{
    analyzer_func, any_one, eof, expect, fail, lemma_analyzer_func, lemma_expect, lemma_mapped,
    lemma_then, matched, mismatch, token, tokens, val, Analyzer, AnalyzerError, AnalyzerResult,
    Combine, Either, ErrorExpect, Fail, Val,
};
use crate::grammar::{
    agreeing, agrees, blank_rule, blanks, block_comment_rule, char_literal_rule, class_at,
    closing, comment_rule, digits, hex_rule, hex_scalar, hexes, ident_or_keyword_rule,
    ident_rule, in_line, kind_rule, letters, lexeme_rule, lexemes, lexer_rule, line_comment_rule,
    literal_char_rule, literal_chars, literal_rule, many_at, mark_at, number_rule, number_value,
    opening, pair_at, repeat_at, seen, seen_all, skip_rule, space_rule, string_literal_rule,
    symbol_rule, tiled, token_rule, token_view, viewed, word_at, word_kind, words,
};
use crate::laws::{lemma_closing_nested, lemma_tokens_tile};
use crate::repeat::{lemma_repeat, lemma_repeat_class, lemma_run_bounds};
use crate::stream::{symbol_at, Stream};
use crate::text::{
    chars_of, collect, fraction_text, holds, is_digit, is_hex, is_letter, is_word, parse_number,
    same_text, spells,
};
use crate::token::{Keyword, Kind, KindView, Literal, LiteralView, NumLiteral, Symbol, Token};
use vstd::prelude::*;

verus! {

/// Where `got` was read against `want` and each symbol compared equal, all
/// symbols of `want` up to the length of `got` stand in the input.
proof fn lemma_matched_agrees(data: Seq<char>, start: int, want: Seq<char>, got: Seq<char>, from: int)
    requires
        matched(data, start, want, got),
        0 <= from <= got.len(),
        got.len() == want.len() || !agrees(want, data, start, got.len() as int),
    ensures
        agreeing(want, data, start, from) == got.len(),
        got == want.subrange(0, got.len() as int),
    decreases got.len() - from,
{
    assert forall|i: int| 0 <= i < got.len() implies agrees(want, data, start, i) && got[i]
        == want[i] by {
        assert(cloned(data[start + i], got[i]));
    }
    if from < got.len() {
        lemma_matched_agrees(data, start, want, got, from + 1);
    }
    assert(got =~= want.subrange(0, got.len() as int));
}

/// Matches the word `s`, symbol by symbol. What agrees with the input before
/// the first symbol that differs is consumed.
pub fn string(s: &str) -> (r: impl Analyzer<Input = char, Output = String>)
    ensures
        r.wf(),
        forall|data: Seq<char>, start: int, res: AnalyzerResult<String, char>, end: int| #[trigger]
            r.outcome(data, start, res, end) ==> 0 <= start <= end <= data.len() && (viewed(res), end)
                == word_at(s@, data, start),
{
    let word = tokens(chars_of(s));
    let gather = |x: Vec<char>| -> (t: String)
        ensures
            t@ == x@,
        { collect(x) };
    let r = word.map(gather);
    proof {
        lemma_mapped(r);
    }
    assert forall|
        data: Seq<char>,
        start: int,
        res: AnalyzerResult<String, char>,
        end: int,
    | #[trigger]
        r.outcome(data, start, res, end) implies 0 <= start <= end <= data.len() && (
        viewed(res),
        end,
    ) == word_at(s@, data, start) by {
        match res {
            Ok(t) => {
                let x = choose|x: Vec<char>| #[trigger]
                    word.outcome(data, start, Ok(x), end) && call_ensures(gather, (x,), t);
                lemma_matched_agrees(data, start, s@, x@, 0);
                assert(x@ =~= s@);
            },
            Err(e) => {
                let got = choose|got: Seq<char>|
                    {
                        &&& #[trigger] matched(data, start, s@, got)
                        &&& got.len() < s@.len()
                        &&& end == start + got.len()
                        &&& mismatch(e, data, end, s@[got.len() as int])
                    };
                lemma_matched_agrees(data, start, s@, got, 0);
            },
        }
    }
    r
}

/// One symbol of `class`.
fn one_of<F: Fn(&char) -> bool>(f: F, Ghost(class): Ghost<spec_fn(char) -> bool>) -> (r: impl Analyzer<
    Input = char,
    Output = char,
>)
    requires
        forall|c: char| call_requires(f, (&c,)),
        forall|c: char, b: bool| call_ensures(f, (&c,), b) ==> b == class(c),
    ensures
        r.wf(),
        forall|data: Seq<char>, start: int, res: AnalyzerResult<char, char>, end: int| #[trigger]
            r.outcome(data, start, res, end) ==> 0 <= start <= data.len() && (res, end) == class_at(
                class,
                data,
                start,
            ),
{
    let r = expect(f);
    proof {
        lemma_expect(r);
    }
    r
}

/// One letter.
fn letter() -> (r: impl Analyzer<Input = char, Output = char>)
    ensures
        r.wf(),
        forall|data: Seq<char>, start: int, res: AnalyzerResult<char, char>, end: int| #[trigger]
            r.outcome(data, start, res, end) ==> 0 <= start <= data.len() && (res, end) == class_at(
                letters(),
                data,
                start,
            ),
{
    let f = |c: &char| -> (b: bool)
        ensures
            b == is_letter(*c),
        { is_letter(*c) };
    one_of(f, Ghost(letters()))
}

/// One symbol that may continue an identifier.
fn word() -> (r: impl Analyzer<Input = char, Output = char>)
    ensures
        r.wf(),
        forall|data: Seq<char>, start: int, res: AnalyzerResult<char, char>, end: int| #[trigger]
            r.outcome(data, start, res, end) ==> 0 <= start <= data.len() && (res, end) == class_at(
                words(),
                data,
                start,
            ),
{
    let f = |c: &char| -> (b: bool)
        ensures
            b == is_word(*c),
        { is_word(*c) };
    one_of(f, Ghost(words()))
}

/// One decimal digit.
fn digit() -> (r: impl Analyzer<Input = char, Output = char>)
    ensures
        r.wf(),
        forall|data: Seq<char>, start: int, res: AnalyzerResult<char, char>, end: int| #[trigger]
            r.outcome(data, start, res, end) ==> 0 <= start <= data.len() && (res, end) == class_at(
                digits(),
                data,
                start,
            ),
{
    let f = |c: &char| -> (b: bool)
        ensures
            b == is_digit(*c),
        { is_digit(*c) };
    one_of(f, Ghost(digits()))
}

/// An identifier: a letter, then letters, digits and underscores.
pub fn ident_str() -> (r: impl Analyzer<Input = char, Output = String>)
    ensures
        r.wf(),
        forall|data: Seq<char>, start: int, res: AnalyzerResult<String, char>, end: int| #[trigger]
            r.outcome(data, start, res, end) ==> 0 <= start <= end <= data.len() && (viewed(res), end)
                == ident_rule(data, start) && (res is Ok ==> start < end),
{
    let tail = word().many();
    let both = letter().and(tail);
    let join = |p: (char, Vec<char>)| -> (t: String)
        ensures
            t@ == seq![p.0] + p.1@,
        {
            let (x, mut xs) = p;
            xs.insert(0, x);
            assert(xs@ =~= seq![x] + p.1@);
            collect(xs)
        };
    let r = both.map(join);
    proof {
        lemma_mapped(r);
        assert forall|
            data: Seq<char>,
            start: int,
            res: AnalyzerResult<String, char>,
            end: int,
        | #[trigger]
            r.outcome(data, start, res, end) implies 0 <= start <= end <= data.len() && (
            viewed(res),
            end,
        ) == ident_rule(
            data,
            start,
        ) && (res is Ok ==> start < end) by {
            match res {
                Ok(t) => {
                    let p = choose|p: (char, Vec<char>)| #[trigger]
                        both.outcome(data, start, Ok(p), end) && call_ensures(join, (p,), t);
                    let mid = choose|mid: int| #[trigger]
                        both.0.outcome(data, start, Ok(p.0), mid) && tail.outcome(
                            data,
                            mid,
                            Ok(p.1),
                            end,
                        );
                    lemma_repeat_class(tail, words(), data, mid, Ok(p.1), end);
                    lemma_run_bounds(words(), data, mid);
                    assert(t@ =~= data.subrange(start, end));
                },
                Err(e) => {
                    if !both.0.outcome(data, start, Err(e), end) {
                        let (x, mid) = choose|x: char, mid: int| #[trigger]
                            both.0.outcome(data, start, Ok(x), mid) && tail.outcome(
                                data,
                                mid,
                                Err(e),
                                end,
                            );
                        lemma_repeat_class(tail, words(), data, mid, Err(e), end);
                    }
                },
            }
        }
    }
    r
}

/// The parts of a numeric literal as the rule reads them: the integer
/// digits, the point with the fractional digits, the suffix.
type NumParts = ((Vec<char>, Option<(char, Vec<char>)>), Option<String>);

/// The text of the literal with the parts `x`, if it has a fractional part.
spec fn parts_fraction(x: NumParts) -> Option<Seq<char>> {
    match x.0.1 {
        Some(p) => Some(x.0.0@ + seq!['.'] + p.1@),
        None => None,
    }
}

/// The suffix among the parts `x`.
spec fn parts_suffix(x: NumParts) -> Option<Seq<char>> {
    match x.1 {
        Some(s) => Some(s@),
        None => None,
    }
}

/// The analyzer that ends a numeric literal: it yields the value of the
/// parts, or fails where they make none.
fn number_of(x: NumParts) -> (b: Either<Val<NumLiteral, char>, Fail<char, NumLiteral>>)
    ensures
        match number_value(x.0.0@, parts_fraction(x), parts_suffix(x)) {
            Some(v) => b matches Either::Right(a) && a.0@ == v,
            None => b is Left,
        },
{
    let ((whole, dot_num), suffix) = x;
    match dot_num {
        Some((_, fraction)) => {
            let text = fraction_text(&whole, &fraction);
            match suffix {
                None => Either::Right(val(NumLiteral::F64(text))),
                Some(s) => {
                    if spells(&s, 'f', '6', '4') {
                        Either::Right(val(NumLiteral::F64(text)))
                    } else if spells(&s, 'f', '3', '2') {
                        Either::Right(val(NumLiteral::F32(text)))
                    } else {
                        Either::Left(fail())
                    }
                },
            }
        },
        None => {
            let wide = match &suffix {
                None => Some(false),
                Some(s) => {
                    if spells(s, 'i', '3', '2') {
                        Some(false)
                    } else if spells(s, 'i', '6', '4') {
                        Some(true)
                    } else {
                        None
                    }
                },
            };
            match wide {
                Some(false) => match parse_number(&whole, 10, 0x7fff_ffff) {
                    Some(v) => Either::Right(val(NumLiteral::I32(v as i32))),
                    None => Either::Left(fail()),
                },
                Some(true) => match parse_number(&whole, 10, 0x7fff_ffff_ffff_ffff) {
                    Some(v) => Either::Right(val(NumLiteral::I64(v as i64))),
                    None => Either::Left(fail()),
                },
                None => Either::Left(fail()),
            }
        },
    }
}

/// A numeric literal: digits, a fractional part if a point and a digit
/// follow, and a suffix if an identifier follows.
///
/// With a fractional part the literal is a floating one, of 64 bits unless
/// its suffix says 32, and holds its text. Without one it is an integer, of
/// 32 bits unless its suffix says 64, and holds its value, which must fit.
/// Any other suffix makes the rule fail after it.
pub fn num_literal() -> (r: impl Analyzer<Input = char, Output = NumLiteral>)
    ensures
        r.wf(),
        forall|data: Seq<char>, start: int, res: AnalyzerResult<NumLiteral, char>, end: int| #[trigger]
            r.outcome(data, start, res, end) ==> 0 <= start <= end <= data.len() && (viewed(res), end)
                == number_rule(data, start) && (res is Ok ==> start < end),
{
    let whole = digit().many1();
    let after = digit().many1();
    let point = token('.');
    let fraction = point.and(after).optional();
    let suffix = ident_str().optional();
    let parts = whole.and(fraction).and(suffix);
    let r = parts.and_then(number_of);
    proof {
        lemma_then(r);
        assert forall|
            data: Seq<char>,
            start: int,
            res: AnalyzerResult<NumLiteral, char>,
            end: int,
        | #[trigger]
            r.outcome(data, start, res, end) implies 0 <= start <= end <= data.len() && (
            viewed(res),
            end,
        ) == number_rule(
            data,
            start,
        ) && (res is Ok ==> start < end) by {
            if res is Err && parts.outcome(data, start, Err(res->Err_0), end) {
                let e = res->Err_0;
                assert(whole.outcome(data, start, Err(e), end));
                lemma_repeat_class(whole, digits(), data, start, Err(e), end);
            } else {
                let (x, mid, b) = choose|
                    x: NumParts,
                    mid: int,
                    b: Either<Val<NumLiteral, char>, Fail<char, NumLiteral>>,
                |
                    {
                        &&& #[trigger] parts.outcome(data, start, Ok(x), mid)
                        &&& #[trigger] call_ensures(number_of, (x,), b)
                        &&& b.outcome(data, mid, res, end)
                    };
                let body_end = choose|m: int| #[trigger]
                    parts.0.outcome(data, start, Ok(x.0), m) && suffix.outcome(
                        data,
                        m,
                        Ok(x.1),
                        mid,
                    );
                let whole_end = choose|m: int| #[trigger]
                    whole.outcome(data, start, Ok(x.0.0), m) && fraction.outcome(
                        data,
                        m,
                        Ok(x.0.1),
                        body_end,
                    );
                lemma_repeat_class(whole, digits(), data, start, Ok(x.0.0), whole_end);
                lemma_run_bounds(digits(), data, start);
                match x.0.1 {
                    Some(p) => {
                        let m = choose|m: int| #[trigger]
                            point.outcome(data, whole_end, Ok(p.0), m) && after.outcome(
                                data,
                                m,
                                Ok(p.1),
                                body_end,
                            );
                        lemma_repeat_class(after, digits(), data, m, Ok(p.1), body_end);
                        lemma_run_bounds(digits(), data, m);
                        assert(x.0.0@ + seq!['.'] + p.1@ =~= data.subrange(start, body_end));
                    },
                    None => {
                        let e = choose|e: AnalyzerError<char>|
                            fraction.0.outcome(data, whole_end, Err(e), body_end);
                        if !point.outcome(data, whole_end, Err(e), body_end) {
                            let (c, m) = choose|c: char, m: int| #[trigger]
                                point.outcome(data, whole_end, Ok(c), m) && after.outcome(
                                    data,
                                    m,
                                    Err(e),
                                    body_end,
                                );
                            lemma_repeat_class(after, digits(), data, m, Err(e), body_end);
                        }
                    },
                }
            }
        }
    }
    r
}

/// One hexadecimal digit.
fn hex_digit() -> (r: impl Analyzer<Input = char, Output = char>)
    ensures
        r.wf(),
        forall|data: Seq<char>, start: int, res: AnalyzerResult<char, char>, end: int| #[trigger]
            r.outcome(data, start, res, end) ==> 0 <= start <= data.len() && (res, end) == class_at(
                hexes(),
                data,
                start,
            ),
{
    let f = |c: &char| -> (b: bool)
        ensures
            b == is_hex(*c),
        { is_hex(*c) };
    one_of(f, Ghost(hexes()))
}

/// The character that the hexadecimal digits `ds` name, if they name one.
fn scalar_of(ds: Vec<char>) -> (r: Option<char>)
    ensures
        r == hex_scalar(ds@),
{
    match parse_number(&ds, 16, 0x10FFFF) {
        Some(v) => core::char::from_u32(v as u32),
        None => None,
    }
}

/// The analyzer that yields `x`, or fails where `x` is absent.
fn found(x: Option<char>) -> (b: Either<Val<char, char>, Fail<char, char>>)
    ensures
        match x {
            Some(c) => b matches Either::Right(a) && a.0 == c,
            None => b is Left,
        },
{
    match x {
        Some(c) => Either::Right(val(c)),
        None => Either::Left(fail()),
    }
}

/// The character named by exactly `len` hexadecimal digits, or `None`
/// where they name none.
fn hex_digits(len: usize) -> (r: impl Analyzer<Input = char, Output = Option<char>>)
    requires
        len >= 1,
    ensures
        r.wf(),
        forall|data: Seq<char>, start: int, res: AnalyzerResult<Option<char>, char>, end: int| #[trigger]
            r.outcome(data, start, res, end) ==> 0 <= start <= end <= data.len() && match repeat_at(
                hexes(),
                len as int,
                Some(len as int),
                data,
                start,
            ) {
                (Ok(ds), stop) => res == Ok::<Option<char>, AnalyzerError<char>>(hex_scalar(ds))
                    && end == stop,
                (Err(e), stop) => res == Err::<Option<char>, AnalyzerError<char>>(e) && end == stop,
            },
{
    let ds = hex_digit().many_n(len);
    let r = ds.map(scalar_of);
    proof {
        lemma_mapped(r);
        assert forall|
            data: Seq<char>,
            start: int,
            res: AnalyzerResult<Option<char>, char>,
            end: int,
        | #[trigger]
            r.outcome(data, start, res, end) implies 0 <= start <= end <= data.len() && match repeat_at(
            hexes(),
            len as int,
            Some(len as int),
            data,
            start,
        ) {
            (Ok(ds), stop) => res == Ok::<Option<char>, AnalyzerError<char>>(hex_scalar(ds)) && end
                == stop,
            (Err(e), stop) => res == Err::<Option<char>, AnalyzerError<char>>(e) && end == stop,
        } by {
            match res {
                Ok(x) => {
                    let v = choose|v: Vec<char>| #[trigger]
                        ds.outcome(data, start, Ok(v), end) && call_ensures(scalar_of, (v,), x);
                    lemma_repeat_class(ds, hexes(), data, start, Ok(v), end);
                },
                Err(e) => {
                    lemma_repeat_class(ds, hexes(), data, start, Err(e), end);
                },
            }
        }
    }
    r
}

/// A character given by exactly `len` hexadecimal digits, which must name a
/// Unicode scalar value.
pub fn hex_char(len: usize) -> (r: impl Analyzer<Input = char, Output = char>)
    requires
        len >= 1,
    ensures
        r.wf(),
        forall|data: Seq<char>, start: int, res: AnalyzerResult<char, char>, end: int| #[trigger]
            r.outcome(data, start, res, end) ==> 0 <= start <= end <= data.len() && (res, end)
                == hex_rule(len as int, data, start),
{
    let r = hex_digits(len).and_then(found);
    proof {
        lemma_then(r);
    }
    r
}

/// Reads one character of a literal quoted by `lit`.
fn read_literal_char(st: &mut Stream<char>, lit: char) -> (res: AnalyzerResult<char, char>)
    ensures
        final(st)@.data == old(st)@.data,
        0 <= old(st)@.pos <= final(st)@.pos <= old(st)@.data.len(),
        (res, final(st)@.pos) == literal_char_rule(lit, old(st)@.data, old(st)@.pos),
{
    let c = match st.peak() {
        None => {
            return Err(AnalyzerError::new(st.pos(), None, ErrorExpect::Any));
        },
        Some(c) => c,
    };
    if c == lit {
        return Err(AnalyzerError::new(st.pos(), Some(c), ErrorExpect::Unknown));
    }
    st.next();
    if c != '\\' {
        return Ok(c);
    }
    let pos = st.pos();
    let c = match any_one().analyze(st) {
        Err(e) => {
            return Err(e);
        },
        Ok(c) => c,
    };
    if c == 't' {
        Ok('\t')
    } else if c == 'n' {
        Ok('\n')
    } else if c == 'r' {
        Ok('\r')
    } else if c == '\\' {
        Ok('\\')
    } else if c == lit {
        Ok(c)
    } else if c == 'x' {
        hex_char(2).analyze(st)
    } else if c == 'u' {
        hex_char(4).analyze(st)
    } else if c == 'U' {
        hex_char(8).analyze(st)
    } else {
        Err(AnalyzerError::new(pos, Some(c), ErrorExpect::Unknown))
    }
}

/// One character of a literal quoted by `lit`: any symbol but the quote and
/// the backslash, or an escape: `\t`, `\n`, `\r`, `\\`, the quote after a
/// backslash, or `\x`, `\u`, `\U` with two, four, eight hexadecimal digits.
pub fn literal_char(lit: char) -> (r: impl Analyzer<Input = char, Output = char>)
    ensures
        r.wf(),
        forall|data: Seq<char>, start: int, res: AnalyzerResult<char, char>, end: int| #[trigger]
            r.outcome(data, start, res, end) ==> 0 <= start <= end <= data.len() && (res, end)
                == literal_char_rule(lit, data, start),
{
    let f = move |st: Stream<char>| -> (out: (Stream<char>, AnalyzerResult<char, char>))
        ensures
            out.0@.data == st@.data,
            0 <= st@.pos <= out.0@.pos <= st@.data.len(),
            (out.1, out.0@.pos) == literal_char_rule(lit, st@.data, st@.pos),
        {
            let mut st = st;
            let res = read_literal_char(&mut st, lit);
            (st, res)
        };
    let r = analyzer_func(f);
    proof {
        lemma_analyzer_func(r);
    }
    r
}

/// A character literal: one character between single quotes.
pub fn char_literal() -> (r: impl Analyzer<Input = char, Output = char>)
    ensures
        r.wf(),
        forall|data: Seq<char>, start: int, res: AnalyzerResult<char, char>, end: int| #[trigger]
            r.outcome(data, start, res, end) ==> 0 <= start <= end <= data.len() && (res, end)
                == char_literal_rule(data, start) && (res is Ok ==> start < end),
{
    token('\'').with(literal_char('\'')).skip(token('\''))
}

/// The characters of a string literal, up to the closing quote.
fn string_body() -> (r: impl Analyzer<Input = char, Output = String>)
    ensures
        r.wf(),
        forall|data: Seq<char>, start: int, res: AnalyzerResult<String, char>, end: int| #[trigger]
            r.outcome(data, start, res, end) ==> 0 <= start <= end <= data.len() && (viewed(res), end)
                == many_at(literal_chars('"'), 0, None, data, start, 0),
{
    let chars = literal_char('"').many();
    let gather = |x: Vec<char>| -> (t: String)
        ensures
            t@ == x@,
        { collect(x) };
    let r = chars.map(gather);
    proof {
        lemma_mapped(r);
        assert forall|
            data: Seq<char>,
            start: int,
            res: AnalyzerResult<String, char>,
            end: int,
        | #[trigger]
            r.outcome(data, start, res, end) implies 0 <= start <= end <= data.len() && (
            viewed(res),
            end,
        ) == many_at(literal_chars('"'), 0, None, data, start, 0) by {
            let see = |c: char| c;
            match res {
                Ok(t) => {
                    let x = choose|x: Vec<char>| #[trigger]
                        chars.outcome(data, start, Ok(x), end) && call_ensures(gather, (x,), t);
                    lemma_repeat(chars, see, literal_chars('"'), data, start, Ok(x), end);
                    assert(x@.map_values(see) =~= x@);
                },
                Err(e) => {
                    lemma_repeat(chars, see, literal_chars('"'), data, start, Err(e), end);
                },
            }
        }
    }
    r
}

/// A string literal: characters between double quotes.
pub fn string_literal() -> (r: impl Analyzer<Input = char, Output = String>)
    ensures
        r.wf(),
        forall|data: Seq<char>, start: int, res: AnalyzerResult<String, char>, end: int| #[trigger]
            r.outcome(data, start, res, end) ==> 0 <= start <= end <= data.len() && (viewed(res), end)
                == string_literal_rule(data, start) && (res is Ok ==> start < end),
{
    token('"').with(string_body()).skip(token('"'))
}

/// The word `w` of the two symbols `a` and `b`.
fn word2(w: &str, a: char, b: char) -> (r: impl Analyzer<Input = char, Output = ()>)
    requires
        w@ == seq![a, b],
    ensures
        r.wf(),
        forall|data: Seq<char>, start: int, res: AnalyzerResult<(), char>, end: int| #[trigger]
            r.outcome(data, start, res, end) ==> 0 <= start <= end <= data.len() && (res, end)
                == opening(a, b, data, start),
{
    let r = string(w).with(val(()));
    assert forall|data: Seq<char>, start: int, res: AnalyzerResult<(), char>, end: int| #[trigger]
        r.outcome(data, start, res, end) implies 0 <= start <= end <= data.len() && (res, end)
        == opening(a, b, data, start) by {
        reveal_with_fuel(agreeing, 3);
    }
    r
}

/// One symbol of white space.
pub fn space() -> (r: impl Analyzer<Input = char, Output = ()>)
    ensures
        r.wf(),
        forall|data: Seq<char>, start: int, res: AnalyzerResult<(), char>, end: int| #[trigger]
            r.outcome(data, start, res, end) ==> 0 <= start <= end <= data.len() && (res, end)
                == space_rule(data, start),
{
    token(' ').or(token('\n').or(token('\t'))).with(val(()))
}

/// One symbol that does not end the line.
fn within_line() -> (r: impl Analyzer<Input = char, Output = char>)
    ensures
        r.wf(),
        forall|data: Seq<char>, start: int, res: AnalyzerResult<char, char>, end: int| #[trigger]
            r.outcome(data, start, res, end) ==> 0 <= start <= data.len() && (res, end) == class_at(
                in_line(),
                data,
                start,
            ),
{
    let f = |c: &char| -> (b: bool)
        ensures
            b == (*c != '\n'),
        { *c != '\n' };
    one_of(f, Ghost(in_line()))
}

/// A line comment: `//` and the rest of the line, its end included.
pub fn line_comment() -> (r: impl Analyzer<Input = char, Output = ()>)
    ensures
        r.wf(),
        forall|data: Seq<char>, start: int, res: AnalyzerResult<(), char>, end: int| #[trigger]
            r.outcome(data, start, res, end) ==> 0 <= start <= end <= data.len() && (res, end)
                == line_comment_rule(data, start),
{
    proof {
        reveal_strlit("//");
        assert("//"@ =~= seq!['/', '/']);
    }
    let head = word2("//", '/', '/');
    let rest = within_line().many();
    let r = head.with(rest).with(token('\n').optional()).with(val(()));
    proof {
        assert forall|
            data: Seq<char>,
            start: int,
            res: AnalyzerResult<(), char>,
            end: int,
        | #[trigger]
            r.outcome(data, start, res, end) implies 0 <= start <= end <= data.len() && (res, end)
            == line_comment_rule(data, start) by {
            if opening('/', '/', data, start).0 is Ok {
                let body = start + 2;
                lemma_run_bounds(in_line(), data, body);
                assert forall|v: AnalyzerResult<Vec<char>, char>, e: int| #[trigger]
                    rest.outcome(data, body, v, e) implies (viewed(v), e) == repeat_at(
                    in_line(),
                    0,
                    None,
                    data,
                    body,
                ) by {
                    lemma_repeat_class(rest, in_line(), data, body, v, e);
                }
            }
        }
    }
    r
}

/// Reads a block comment; one that opens inside it is read by a call of
/// this function from within.
fn read_block_comment(st: &mut Stream<char>) -> (res: AnalyzerResult<(), char>)
    ensures
        final(st)@.data == old(st)@.data,
        0 <= old(st)@.pos <= final(st)@.pos <= old(st)@.data.len(),
        (res, final(st)@.pos) == block_comment_rule(old(st)@.data, old(st)@.pos),
    decreases old(st)@.data.len() - old(st)@.pos,
{
    proof {
        reveal_strlit("/*");
        reveal_strlit("*/");
        assert("/*"@ =~= seq!['/', '*']);
        assert("*/"@ =~= seq!['*', '/']);
    }
    let ghost data = st@.data;
    let start = st.pos();
    match word2("/*", '/', '*').analyze(st) {
        Err(e) => {
            return Err(e);
        },
        Ok(_) => {},
    }
    let ghost body = st@.pos;
    loop
        invariant
            data == old(st)@.data,
            st@.data == data,
            start == old(st)@.pos,
            body == start + 2,
            opening('/', '*', data, start as int) == (Ok::<(), AnalyzerError<char>>(()), body),
            0 <= body <= st@.pos <= data.len(),
            closing(data, st@.pos, 1) == closing(data, body, 1),
            "*/"@ == seq!['*', '/'],
        decreases data.len() - st@.pos,
    {
        let a = st.peak();
        let b = st.peak_index(1);
        let ghost pos = st@.pos;
        if holds(&a, '/') && holds(&b, '*') {
            proof {
                lemma_closing_nested(data, pos + 2, 1);
            }
            match read_block_comment(st) {
                Err(e) => {
                    return Err(e);
                },
                Ok(_) => {},
            }
        } else if a.is_none() || (holds(&a, '*') && holds(&b, '/')) {
            return word2("*/", '*', '/').analyze(st);
        } else {
            st.next();
        }
    }
}

/// A block comment: `/*` up to the `*/` that closes it; block comments
/// nest. Left open, it fails at the end of the input.
pub fn block_comment() -> (r: impl Analyzer<Input = char, Output = ()>)
    ensures
        r.wf(),
        forall|data: Seq<char>, start: int, res: AnalyzerResult<(), char>, end: int| #[trigger]
            r.outcome(data, start, res, end) ==> 0 <= start <= end <= data.len() && (res, end)
                == block_comment_rule(data, start),
{
    let f = |st: Stream<char>| -> (out: (Stream<char>, AnalyzerResult<(), char>))
        ensures
            out.0@.data == st@.data,
            0 <= st@.pos <= out.0@.pos <= st@.data.len(),
            (out.1, out.0@.pos) == block_comment_rule(st@.data, st@.pos),
        {
            let mut st = st;
            let res = read_block_comment(&mut st);
            (st, res)
        };
    let r = analyzer_func(f);
    proof {
        lemma_analyzer_func(r);
    }
    r
}

/// A comment: a line comment or, read from the same place where none
/// stands, a block comment.
pub fn comment() -> (r: impl Analyzer<Input = char, Output = ()>)
    ensures
        r.wf(),
        forall|data: Seq<char>, start: int, res: AnalyzerResult<(), char>, end: int| #[trigger]
            r.outcome(data, start, res, end) ==> 0 <= start <= end <= data.len() && (res, end)
                == comment_rule(data, start),
{
    line_comment().attempt().or(block_comment())
}

/// One symbol of white space, or one comment.
fn blank() -> (r: impl Analyzer<Input = char, Output = ()>)
    ensures
        r.wf(),
        forall|data: Seq<char>, start: int, res: AnalyzerResult<(), char>, end: int| #[trigger]
            r.outcome(data, start, res, end) ==> 0 <= start <= end <= data.len() && (res, end)
                == blank_rule(data, start),
{
    space().or(comment())
}

/// All white space and comments that stand at the cursor, as many as there
/// are. It fails on a slash that opens no comment, of which it consumes the
/// slash, and on a block comment left open.
pub fn skip() -> (r: impl Analyzer<Input = char, Output = ()>)
    ensures
        r.wf(),
        forall|data: Seq<char>, start: int, res: AnalyzerResult<(), char>, end: int| #[trigger]
            r.outcome(data, start, res, end) ==> 0 <= start <= end <= data.len() && (res, end)
                == skip_rule(data, start),
{
    let all = blank().many();
    let r = all.with(val(()));
    proof {
        assert forall|
            data: Seq<char>,
            start: int,
            res: AnalyzerResult<(), char>,
            end: int,
        | #[trigger]
            r.outcome(data, start, res, end) implies 0 <= start <= end <= data.len() && (res, end)
            == skip_rule(data, start) by {
            let see = |u: ()| u;
            assert forall|v: AnalyzerResult<Vec<()>, char>, e: int| #[trigger]
                all.outcome(data, start, v, e) implies 0 <= start <= e <= data.len() && (
                seen_all(v, see),
                e,
            ) == many_at(blanks(), 0, None, data, start, 0) by {
                lemma_repeat(all, see, blanks(), data, start, v, e);
            }
        }
    }
    r
}

/// The mark `c`, read as `sym`.
fn mark(c: char, sym: Symbol) -> (r: impl Analyzer<Input = char, Output = Symbol>)
    ensures
        r.wf(),
        forall|data: Seq<char>, start: int, res: AnalyzerResult<Symbol, char>, end: int| #[trigger]
            r.outcome(data, start, res, end) ==> 0 <= start <= end <= data.len() && (res, end)
                == mark_at(c, sym, data, start),
{
    token(c).with(val(sym))
}

/// The two-symbol mark `word`, read as `sym`. A failure puts the cursor back.
fn pair(word: &str, a: char, b: char, sym: Symbol) -> (r: impl Analyzer<
    Input = char,
    Output = Symbol,
>)
    requires
        word@ == seq![a, b],
    ensures
        r.wf(),
        forall|data: Seq<char>, start: int, res: AnalyzerResult<Symbol, char>, end: int| #[trigger]
            r.outcome(data, start, res, end) ==> 0 <= start <= end <= data.len() && (res, end)
                == pair_at(a, b, sym, data, start),
{
    let r = string(word).with(val(sym)).attempt();
    assert forall|
        data: Seq<char>,
        start: int,
        res: AnalyzerResult<Symbol, char>,
        end: int,
    | #[trigger]
        r.outcome(data, start, res, end) implies 0 <= start <= end <= data.len() && (res, end)
        == pair_at(a, b, sym, data, start) by {
        reveal_with_fuel(agreeing, 3);
    }
    r
}

/// The operator or punctuation mark at the cursor; of two that start alike,
/// the longer.
pub fn symbol() -> (r: impl Analyzer<Input = char, Output = Symbol>)
    ensures
        r.wf(),
        forall|data: Seq<char>, start: int, res: AnalyzerResult<Symbol, char>, end: int| #[trigger]
            r.outcome(data, start, res, end) ==> 0 <= start <= end <= data.len() && (res, end)
                == symbol_rule(data, start) && (res is Ok ==> start < end),
{
    mark('.', Symbol::Dot).or(
        mark(',', Symbol::Comma).or(
            mark(':', Symbol::Colon).or(
                mark(';', Symbol::Semicolon).or(
                    mark('(', Symbol::OpenParent).or(
                        mark(')', Symbol::CloseParent).or(
                            mark('[', Symbol::OpenBracket).or(
                                mark(']', Symbol::CloseBracket).or(
                                    mark('{', Symbol::OpenBrace).or(
                                        mark('}', Symbol::CloseBrace).or(operator()),
                                    ),
                                ),
                            ),
                        ),
                    ),
                ),
            ),
        ),
    )
}

/// A symbol that is a punctuation mark by itself.
spec fn punctuation(c: Option<char>) -> bool {
    c == Some('.') || c == Some(',') || c == Some(':') || c == Some(';') || c == Some('(') || c
        == Some(')') || c == Some('[') || c == Some(']') || c == Some('{') || c == Some('}')
}

/// A symbol that starts an arithmetic or logical operator.
spec fn arithmetic(c: Option<char>) -> bool {
    c == Some('!') || c == Some('+') || c == Some('-') || c == Some('*') || c == Some('/') || c
        == Some('%') || c == Some('&') || c == Some('|') || c == Some('^')
}

/// The alternatives of `symbol` after the punctuation marks.
fn operator() -> (r: impl Analyzer<Input = char, Output = Symbol>)
    ensures
        r.wf(),
        forall|data: Seq<char>, start: int, res: AnalyzerResult<Symbol, char>, end: int| #[trigger]
            r.outcome(data, start, res, end) ==> 0 <= start <= end <= data.len() && (!punctuation(
                symbol_at(data, start),
            ) ==> (res, end) == symbol_rule(data, start)),
{
    proof {
        reveal_strlit("!=");
        reveal_strlit("**");
        reveal_strlit("&&");
        reveal_strlit("||");
        assert("!="@ =~= seq!['!', '=']);
        assert("**"@ =~= seq!['*', '*']);
        assert("&&"@ =~= seq!['&', '&']);
        assert("||"@ =~= seq!['|', '|']);
    }
    pair("!=", '!', '=', Symbol::Ne).or(
        mark('!', Symbol::Not).or(
            mark('+', Symbol::Add).or(
                mark('-', Symbol::Sub).or(
                    pair("**", '*', '*', Symbol::Pow).or(
                        mark('*', Symbol::Mul).or(
                            mark('/', Symbol::Div).or(
                                mark('%', Symbol::Mod).or(
                                    pair("&&", '&', '&', Symbol::And).or(
                                        mark('&', Symbol::BitAnd).or(
                                            pair("||", '|', '|', Symbol::Or).or(
                                                mark('|', Symbol::BitOr).or(
                                                    mark('^', Symbol::BitXor).or(comparison()),
                                                ),
                                            ),
                                        ),
                                    ),
                                ),
                            ),
                        ),
                    ),
                ),
            ),
        ),
    )
}

/// The alternatives of `symbol` after the arithmetic and logical operators.
fn comparison() -> (r: impl Analyzer<Input = char, Output = Symbol>)
    ensures
        r.wf(),
        forall|data: Seq<char>, start: int, res: AnalyzerResult<Symbol, char>, end: int| #[trigger]
            r.outcome(data, start, res, end) ==> 0 <= start <= end <= data.len() && (!punctuation(
                symbol_at(data, start),
            ) && !arithmetic(symbol_at(data, start)) ==> (res, end) == symbol_rule(data, start)),
{
    proof {
        reveal_strlit("<=");
        reveal_strlit(">=");
        reveal_strlit("==");
        assert("<="@ =~= seq!['<', '=']);
        assert(">="@ =~= seq!['>', '=']);
        assert("=="@ =~= seq!['=', '=']);
    }
    pair("<=", '<', '=', Symbol::Lte).or(
        mark('<', Symbol::Lt).or(
            pair(">=", '>', '=', Symbol::Gte).or(
                mark('>', Symbol::Gt).or(
                    pair("==", '=', '=', Symbol::Eq).or(mark('=', Symbol::Assign)),
                ),
            ),
        ),
    )
}

/// The kind of the word `name`: a reserved word, or else an identifier.
fn classify(name: String) -> (k: Kind)
    ensures
        k@ == word_kind(name@),
{
    let s = name.as_str();
    if same_text(s, "i32") {
        Kind::Keyword(Keyword::I32)
    } else if same_text(s, "i64") {
        Kind::Keyword(Keyword::I64)
    } else if same_text(s, "F32") {
        Kind::Keyword(Keyword::F32)
    } else if same_text(s, "F64") {
        Kind::Keyword(Keyword::F64)
    } else if same_text(s, "string") {
        Kind::Keyword(Keyword::String)
    } else if same_text(s, "bool") {
        Kind::Keyword(Keyword::Bool)
    } else if same_text(s, "char") {
        Kind::Keyword(Keyword::Char)
    } else if same_text(s, "true") {
        Kind::Keyword(Keyword::True)
    } else if same_text(s, "false") {
        Kind::Keyword(Keyword::False)
    } else if same_text(s, "let") {
        Kind::Keyword(Keyword::Let)
    } else if same_text(s, "if") {
        Kind::Keyword(Keyword::If)
    } else if same_text(s, "while") {
        Kind::Keyword(Keyword::While)
    } else if same_text(s, "return") {
        Kind::Keyword(Keyword::Return)
    } else if same_text(s, "struct") {
        Kind::Keyword(Keyword::Struct)
    } else if same_text(s, "fun") {
        Kind::Keyword(Keyword::Fun)
    } else if same_text(s, "extern") {
        Kind::Keyword(Keyword::Extern)
    } else if same_text(s, "for") {
        Kind::Keyword(Keyword::For)
    } else {
        Kind::Ident(name)
    }
}

/// An identifier or a reserved word. The whole identifier is read before it
/// is looked up, so a reserved word at the head of a longer word is none.
pub fn ident_or_keyword() -> (r: impl Analyzer<Input = char, Output = Kind>)
    ensures
        r.wf(),
        forall|data: Seq<char>, start: int, res: AnalyzerResult<Kind, char>, end: int| #[trigger]
            r.outcome(data, start, res, end) ==> 0 <= start <= end <= data.len() && (viewed(res), end)
                == ident_or_keyword_rule(data, start) && (res is Ok ==> start < end),
{
    let r = ident_str().map(classify);
    proof {
        lemma_mapped(r);
    }
    r
}

/// A character literal, as a literal.
fn char_value() -> (r: impl Analyzer<Input = char, Output = Literal>)
    ensures
        r.wf(),
        forall|data: Seq<char>, start: int, res: AnalyzerResult<Literal, char>, end: int| #[trigger]
            r.outcome(data, start, res, end) ==> 0 <= start <= end <= data.len() && (res is Ok
                ==> start < end) && (viewed(res), end) == match char_literal_rule(data, start) {
                (Ok(c), e) => (Ok(LiteralView::Char(c)), e),
                (Err(x), e) => (Err(x), e),
            },
{
    let f = |c: char| -> (l: Literal)
        ensures
            l == Literal::Char(c),
        { Literal::Char(c) };
    let r = char_literal().map(f);
    proof {
        lemma_mapped(r);
    }
    r
}

/// A string literal, as a literal.
fn string_value() -> (r: impl Analyzer<Input = char, Output = Literal>)
    ensures
        r.wf(),
        forall|data: Seq<char>, start: int, res: AnalyzerResult<Literal, char>, end: int| #[trigger]
            r.outcome(data, start, res, end) ==> 0 <= start <= end <= data.len() && (res is Ok
                ==> start < end) && (viewed(res), end) == match string_literal_rule(data, start) {
                (Ok(t), e) => (Ok(LiteralView::String(t)), e),
                (Err(x), e) => (Err(x), e),
            },
{
    let f = |t: String| -> (l: Literal)
        ensures
            l == Literal::String(t),
        { Literal::String(t) };
    let r = string_literal().map(f);
    proof {
        lemma_mapped(r);
    }
    r
}

/// A numeric literal, as a literal.
fn number_literal() -> (r: impl Analyzer<Input = char, Output = Literal>)
    ensures
        r.wf(),
        forall|data: Seq<char>, start: int, res: AnalyzerResult<Literal, char>, end: int| #[trigger]
            r.outcome(data, start, res, end) ==> 0 <= start <= end <= data.len() && (res is Ok
                ==> start < end) && (viewed(res), end) == match number_rule(data, start) {
                (Ok(n), e) => (Ok(LiteralView::NumLiteral(n)), e),
                (Err(x), e) => (Err(x), e),
            },
{
    let f = |n: NumLiteral| -> (l: Literal)
        ensures
            l == Literal::NumLiteral(n),
        { Literal::NumLiteral(n) };
    let r = num_literal().map(f);
    proof {
        lemma_mapped(r);
    }
    r
}

/// A literal: a character, a string or a number, each tried from where the
/// one before failed.
pub fn literal() -> (r: impl Analyzer<Input = char, Output = Literal>)
    ensures
        r.wf(),
        forall|data: Seq<char>, start: int, res: AnalyzerResult<Literal, char>, end: int| #[trigger]
            r.outcome(data, start, res, end) ==> 0 <= start <= end <= data.len() && (viewed(res), end)
                == literal_rule(data, start) && (res is Ok ==> start < end),
{
    char_value().or(string_value().or(number_literal()))
}

/// An operator or punctuation mark, as a kind.
fn symbol_kind() -> (r: impl Analyzer<Input = char, Output = Kind>)
    ensures
        r.wf(),
        forall|data: Seq<char>, start: int, res: AnalyzerResult<Kind, char>, end: int| #[trigger]
            r.outcome(data, start, res, end) ==> 0 <= start <= end <= data.len() && (res is Ok
                ==> start < end) && (viewed(res), end) == match symbol_rule(data, start) {
                (Ok(s), e) => (Ok(KindView::Symbol(s)), e),
                (Err(x), e) => (Err(x), e),
            },
{
    let f = |s: Symbol| -> (k: Kind)
        ensures
            k == Kind::Symbol(s),
        { Kind::Symbol(s) };
    let r = symbol().map(f);
    proof {
        lemma_mapped(r);
    }
    r
}

/// A literal, as a kind.
fn literal_kind() -> (r: impl Analyzer<Input = char, Output = Kind>)
    ensures
        r.wf(),
        forall|data: Seq<char>, start: int, res: AnalyzerResult<Kind, char>, end: int| #[trigger]
            r.outcome(data, start, res, end) ==> 0 <= start <= end <= data.len() && (res is Ok
                ==> start < end) && (viewed(res), end) == match literal_rule(data, start) {
                (Ok(l), e) => (Ok(KindView::Literal(l)), e),
                (Err(x), e) => (Err(x), e),
            },
{
    let f = |l: Literal| -> (k: Kind)
        ensures
            k == Kind::Literal(l),
        { Kind::Literal(l) };
    let r = literal().map(f);
    proof {
        lemma_mapped(r);
    }
    r
}

/// The kind of the lexeme at the cursor: an identifier or reserved word, an
/// operator or punctuation mark, or a literal.
pub fn kind() -> (r: impl Analyzer<Input = char, Output = Kind>)
    ensures
        r.wf(),
        forall|data: Seq<char>, start: int, res: AnalyzerResult<Kind, char>, end: int| #[trigger]
            r.outcome(data, start, res, end) ==> 0 <= start <= end <= data.len() && (viewed(res), end)
                == kind_rule(data, start) && (res is Ok ==> start < end),
{
    ident_or_keyword().or(symbol_kind().or(literal_kind()))
}

/// One token: the lexeme at the cursor with its offset and its length.
pub fn one_token() -> (r: impl Analyzer<Input = char, Output = Token>)
    ensures
        r.wf(),
        forall|data: Seq<char>, start: int, res: AnalyzerResult<Token, char>, end: int| #[trigger]
            r.outcome(data, start, res, end) ==> 0 <= start <= end <= data.len() && (viewed(res), end)
                == token_rule(data, start) && (res is Ok ==> start < end),
{
    let f = |st: Stream<char>| -> (out: (Stream<char>, AnalyzerResult<Token, char>))
        ensures
            out.0@.data == st@.data,
            0 <= st@.pos <= out.0@.pos <= st@.data.len(),
            (viewed(out.1), out.0@.pos) == token_rule(st@.data, st@.pos),
            out.1 is Ok ==> st@.pos < out.0@.pos,
        {
            let mut st = st;
            let pos = st.pos();
            match kind().analyze(&mut st) {
                Ok(kind) => {
                    let len = st.pos() - pos;
                    (st, Ok(Token { pos, kind, len }))
                },
                Err(e) => (st, Err(e)),
            }
        };
    let r = analyzer_func(f);
    proof {
        lemma_analyzer_func(r);
    }
    r
}

/// One token with what is skipped before it.
fn lexeme() -> (r: impl Analyzer<Input = char, Output = Token>)
    ensures
        r.wf(),
        forall|data: Seq<char>, start: int, res: AnalyzerResult<Token, char>, end: int| #[trigger]
            r.outcome(data, start, res, end) ==> 0 <= start <= end <= data.len() && (
                seen(res, token_view()),
                end,
            ) == lexeme_rule(data, start),
{
    skip().with(one_token())
}

/// The whole input as tokens: one token or more, each after the white space
/// and comments before it, up to the end of the input.
///
/// The tokens cover the input without gap or overlap. White space or a
/// comment after the last token makes the lexer fail, as does anything that
/// is no token: the repetition's last step has then consumed input before it
/// failed.
pub fn lexer() -> (r: impl Analyzer<Input = char, Output = Vec<Token>>)
    ensures
        r.wf(),
        forall|data: Seq<char>, start: int, res: AnalyzerResult<Vec<Token>, char>, end: int| #[trigger]
            r.outcome(data, start, res, end) ==> {
                &&& 0 <= start <= end <= data.len()
                &&& (seen_all(res, token_view()), end) == lexer_rule(data, start)
                &&& res matches Ok(v) ==> end == data.len() && exists|last: int|
                    {
                        &&& #[trigger] tiled(data, start, v@.map_values(token_view()), last)
                        &&& skip_rule(data, last) == (Ok::<(), AnalyzerError<char>>(()), end)
                    }
            },
{
    let all = lexeme().many1();
    let r = all.skip(skip()).skip(eof());
    proof {
        assert forall|
            data: Seq<char>,
            start: int,
            res: AnalyzerResult<Vec<Token>, char>,
            end: int,
        | #[trigger]
            all.outcome(data, start, res, end) implies 0 <= start <= end <= data.len() && (
            seen_all(res, token_view()),
            end,
        ) == many_at(lexemes(), 1, None, data, start, 0) by {
            lemma_repeat(all, token_view(), lexemes(), data, start, res, end);
        }
        assert forall|
            data: Seq<char>,
            start: int,
            res: AnalyzerResult<Vec<Token>, char>,
            end: int,
        | #[trigger]
            r.outcome(data, start, res, end) && res is Ok implies exists|last: int|
            {
                &&& #[trigger] tiled(data, start, res->Ok_0@.map_values(token_view()), last)
                &&& skip_rule(data, last) == (Ok::<(), AnalyzerError<char>>(()), end)
            } by {
            lemma_tokens_tile(data, start);
            let last = many_at(lexemes(), 1, None, data, start, 0).1;
            assert(tiled(data, start, res->Ok_0@.map_values(token_view()), last));
        }
    }
    r
}

} // verus!
