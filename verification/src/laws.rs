//! Laws of the lexical grammar: every rule stays within the input and never
//! goes back, what is skipped and what is a token spans at least one symbol,
//! skipping is idempotent, and the tokens of an input cover it without gap
//! or overlap.

use crate::analyzer::AnalyzerError;
use crate::grammar::{
    blank_rule, blanks, char_literal_rule, closing, digits, hexes, ident_rule, in_line,
    kind_rule, lexeme_rule, lexemes, lexer_rule, literal_char_rule, literal_chars, literal_rule,
    many_at, number_rule, repeat_at, skip_rule, string_literal_rule, symbol_rule, tiled,
    token_rule, words, Verdict,
};
use crate::repeat::lemma_run_bounds;
use crate::stream::symbol_at;
use vstd::prelude::*;

verus! {

/// The verdict `v` of a rule at `start` ends within the input, not before
/// `start`.
pub open spec fn stays<V>(v: Verdict<V>, data: Seq<char>, start: int) -> bool {
    start <= v.1 <= data.len()
}

/// The verdict `v` of a rule at `start` stays within the input, and a success
/// consumed at least one symbol.
pub open spec fn moves<V>(v: Verdict<V>, data: Seq<char>, start: int) -> bool {
    &&& stays(v, data, start)
    &&& v.0 is Ok ==> start < v.1
}

/// Where the block comment that stands `depth + 1` deep ends: where the
/// one that stands `depth` deep ends, once the innermost is closed.
pub proof fn lemma_closing_nested(data: Seq<char>, pos: int, depth: int)
    requires
        depth >= 1,
    ensures
        closing(data, pos, depth + 1) == match closing(data, pos, 1) {
            Some(inner) => closing(data, inner, depth),
            None => None,
        },
        closing(data, pos, 1) matches Some(inner) ==> pos + 2 <= inner <= data.len(),
    decreases data.len() - pos, depth,
{
    if 0 <= pos < data.len() {
        if data[pos] == '/' && symbol_at(data, pos + 1) == Some('*') {
            lemma_closing_nested(data, pos + 2, depth + 1);
            lemma_closing_nested(data, pos + 2, 1);
            match closing(data, pos + 2, 1) {
                Some(inner) => {
                    lemma_closing_nested(data, inner, depth);
                },
                None => {},
            }
        } else if data[pos] == '*' && symbol_at(data, pos + 1) == Some('/') {
        } else {
            lemma_closing_nested(data, pos + 1, depth);
        }
    }
}

/// A repetition of symbols of a class stays within the input.
pub proof fn lemma_repeat_stays(
    class: spec_fn(char) -> bool,
    least: int,
    most: Option<int>,
    data: Seq<char>,
    start: int,
)
    requires
        0 <= start <= data.len(),
        most is Some ==> most->0 >= 0,
    ensures
        stays(repeat_at(class, least, most, data, start), data, start),
{
    lemma_run_bounds(class, data, start);
}

/// An identifier spans at least one symbol, and no identifier consumes
/// nothing.
pub proof fn lemma_ident_moves(data: Seq<char>, start: int)
    ensures
        ident_rule(data, start).0 is Ok ==> 0 <= start < ident_rule(data, start).1 <= data.len(),
        ident_rule(data, start).0 is Err ==> ident_rule(data, start).1 == start,
{
    if 0 <= start < data.len() {
        lemma_run_bounds(words(), data, start + 1);
    }
}

/// An operator or punctuation mark spans at least one symbol, and none
/// consumes nothing.
pub proof fn lemma_symbol_moves(data: Seq<char>, start: int)
    ensures
        symbol_rule(data, start).0 is Ok ==> 0 <= start < symbol_rule(data, start).1 <= data.len(),
        symbol_rule(data, start).0 is Err ==> symbol_rule(data, start).1 == start,
{
}

/// A character of a literal, escaped or not, spans at least one symbol.
pub proof fn lemma_literal_char_moves(lit: char, data: Seq<char>, start: int)
    requires
        0 <= start <= data.len(),
    ensures
        moves(literal_char_rule(lit, data, start), data, start),
{
    if start + 2 <= data.len() {
        lemma_repeat_stays(hexes(), 2, Some(2), data, start + 2);
        lemma_repeat_stays(hexes(), 4, Some(4), data, start + 2);
        lemma_repeat_stays(hexes(), 8, Some(8), data, start + 2);
    }
}

/// A repetition stays within the input where its item does.
pub proof fn lemma_many_stays<V>(
    item: spec_fn(Seq<char>, int) -> Verdict<V>,
    least: int,
    most: Option<int>,
    data: Seq<char>,
    start: int,
    done: int,
)
    requires
        0 <= start <= data.len(),
        forall|at: int| 0 <= at <= data.len() ==> stays(#[trigger] item(data, at), data, at),
    ensures
        stays(many_at(item, least, most, data, start, done), data, start),
    decreases
            (if most is Some {
                most->0 - done
            } else if done < least {
                least - done
            } else {
                0
            }),
            data.len() - start,
{
    if !(most is Some && done >= most->0) {
        let (r, next) = item(data, start);
        if r is Ok && !(most is None && done + 1 >= least && !(start < next <= data.len())) {
            lemma_many_stays(item, least, most, data, next, done + 1);
        }
    }
}

/// A character literal spans at least one symbol.
pub proof fn lemma_char_literal_moves(data: Seq<char>, start: int)
    requires
        0 <= start <= data.len(),
    ensures
        moves(char_literal_rule(data, start), data, start),
{
    if start + 1 <= data.len() {
        lemma_literal_char_moves('\'', data, start + 1);
    }
}

/// A string literal spans at least one symbol.
pub proof fn lemma_string_literal_moves(data: Seq<char>, start: int)
    requires
        0 <= start <= data.len(),
    ensures
        moves(string_literal_rule(data, start), data, start),
{
    if start + 1 <= data.len() {
        assert forall|at: int| 0 <= at <= data.len() implies stays(
            #[trigger] literal_chars('"')(data, at),
            data,
            at,
        ) by {
            lemma_literal_char_moves('"', data, at);
        }
        lemma_many_stays(literal_chars('"'), 0, None, data, start + 1, 0);
    }
}

/// A numeric literal spans at least one symbol, and where no digit stands
/// the rule consumes nothing.
pub proof fn lemma_number_moves(data: Seq<char>, start: int)
    requires
        0 <= start <= data.len(),
    ensures
        moves(number_rule(data, start), data, start),
{
    lemma_run_bounds(digits(), data, start);
    let whole_end = crate::grammar::run_end(digits(), data, start);
    if whole_end + 1 <= data.len() {
        lemma_run_bounds(digits(), data, whole_end + 1);
        lemma_ident_moves(data, crate::grammar::run_end(digits(), data, whole_end + 1));
    }
    lemma_ident_moves(data, whole_end);
    lemma_ident_moves(data, whole_end + 1);
}

/// A literal spans at least one symbol.
pub proof fn lemma_literal_moves(data: Seq<char>, start: int)
    requires
        0 <= start <= data.len(),
    ensures
        moves(literal_rule(data, start), data, start),
{
    lemma_char_literal_moves(data, start);
    let second = char_literal_rule(data, start).1;
    lemma_string_literal_moves(data, second);
    let third = string_literal_rule(data, second).1;
    lemma_number_moves(data, third);
}

/// Every token spans at least one symbol of the input.
pub proof fn lemma_token_moves(data: Seq<char>, start: int)
    requires
        0 <= start <= data.len(),
    ensures
        moves(kind_rule(data, start), data, start),
        moves(token_rule(data, start), data, start),
        token_rule(data, start).0 matches Ok(t) ==> t.pos == start && t.len >= 1 && t.pos + t.len
            == token_rule(data, start).1,
{
    lemma_ident_moves(data, start);
    lemma_symbol_moves(data, start);
    lemma_literal_moves(data, start);
}

/// Whatever is skipped, a symbol of white space or a comment, spans at
/// least one symbol of the input.
pub proof fn lemma_blank_moves(data: Seq<char>, start: int)
    requires
        0 <= start <= data.len(),
    ensures
        moves(blank_rule(data, start), data, start),
{
    lemma_run_bounds(in_line(), data, start);
    if start + 2 <= data.len() {
        lemma_run_bounds(in_line(), data, start + 2);
    }
    lemma_closing_nested(data, start + 2, 1);
}

/// Skipping stays within the input.
pub proof fn lemma_skip_stays(data: Seq<char>, start: int)
    requires
        0 <= start <= data.len(),
    ensures
        stays(skip_rule(data, start), data, start),
{
    assert forall|at: int| 0 <= at <= data.len() implies stays(
        #[trigger] blanks()(data, at),
        data,
        at,
    ) by {
        lemma_blank_moves(data, at);
    }
    lemma_many_stays(blanks(), 0, None, data, start, 0);
}

/// A token with what is skipped before it spans at least one symbol.
pub proof fn lemma_lexeme_moves(data: Seq<char>, start: int)
    requires
        0 <= start <= data.len(),
    ensures
        moves(lexeme_rule(data, start), data, start),
{
    lemma_skip_stays(data, start);
    lemma_token_moves(data, skip_rule(data, start).1);
}

/// Where a run of skipping ends well, nothing is left to skip: what stands
/// there is neither white space nor a comment, nor the start of one.
proof fn lemma_skip_settles(data: Seq<char>, start: int, done: int)
    requires
        done >= 0,
        0 <= start <= data.len(),
    ensures
        ({
            let (res, end) = many_at(blanks(), 0, None, data, start, done);
            res is Ok ==> blank_rule(data, end).0 is Err && blank_rule(data, end).1 == end
        }),
    decreases data.len() - start,
{
    lemma_blank_moves(data, start);
    if blank_rule(data, start).0 is Ok {
        lemma_skip_settles(data, blank_rule(data, start).1, done + 1);
    }
}

/// Skipping is idempotent: where it ends well, skipping again from there
/// ends well too and consumes nothing more.
pub proof fn lemma_skip_idempotent(data: Seq<char>, start: int)
    requires
        0 <= start <= data.len(),
        skip_rule(data, start).0 is Ok,
    ensures
        skip_rule(data, skip_rule(data, start).1) == (
            Ok::<(), AnalyzerError<char>>(()),
            skip_rule(data, start).1,
        ),
{
    lemma_skip_settles(data, start, 0);
}

/// The tokens of a run of the lexer cover the input that the run went over.
proof fn lemma_run_tiled(data: Seq<char>, start: int, done: int)
    requires
        0 <= start <= data.len(),
        done >= 0,
    ensures
        many_at(lexemes(), 1, None, data, start, done) matches (Ok(tokens), end) ==> tiled(
            data,
            start,
            tokens,
            end,
        ),
    decreases data.len() - start,
{
    lemma_lexeme_moves(data, start);
    lemma_skip_stays(data, start);
    lemma_token_moves(data, skip_rule(data, start).1);
    match lexeme_rule(data, start) {
        (Ok(first), next) => {
            lemma_run_tiled(data, next, done + 1);
            match many_at(lexemes(), 1, None, data, next, done + 1) {
                (Ok(rest), end) => {
                    assert((seq![first] + rest).drop_first() =~= rest);
                },
                (Err(_), _) => {},
            }
        },
        (Err(_), _) => {},
    }
}

/// The tokens of an input cover it without gap or overlap: where the lexer
/// succeeds, each token spans at least one symbol and starts just where the
/// white space and comments after the token before it end, and what follows
/// the last token up to the end of the input is white space and comments.
pub proof fn lemma_tokens_tile(data: Seq<char>, start: int)
    requires
        0 <= start <= data.len(),
    ensures
        lexer_rule(data, start) matches (Ok(tokens), end) ==> {
            let last = many_at(lexemes(), 1, None, data, start, 0).1;
            &&& tiled(data, start, tokens, last)
            &&& skip_rule(data, last) == (Ok::<(), AnalyzerError<char>>(()), end)
            &&& end == data.len()
        },
{
    lemma_run_tiled(data, start, 0);
}

} // verus!
