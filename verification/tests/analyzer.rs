use tkr_lang::analyzer::{
    analyzer_func, any_one, eof, expect, fail, token, tokens, val, Analyzer, AnalyzerError,
    AnalyzerFunc, AnalyzerResult, And, AnyOne, Attempt, Combine, Either, Eof, ErrorExpect,
    Expect, Fail, Loop, Mapped, Msg, Optional, Or, Skip, Then, Token, Tokens, Val, With,
};
use tkr_lang::stream::Stream;

fn input(s: &str) -> Stream<char> {
    Stream::new(s.chars().collect())
}

fn is_digit(c: &char) -> bool {
    c.is_ascii_digit()
}

#[test]
fn error_new_keeps_its_parts() {
    let e = AnalyzerError::new(3, Some('x'), ErrorExpect::Token('y'));
    assert_eq!(e.pos, 3);
    assert_eq!(e.unexpected, Some('x'));
    assert_eq!(e.expecting, ErrorExpect::Token('y'));
    assert_eq!(e.clone(), e);
}

#[test]
fn any_one_consumes_one_symbol() {
    let mut st = input("ab");
    assert_eq!(any_one().analyze(&mut st), Ok('a'));
    assert_eq!(st.pos(), 1);
    assert_eq!(AnyOne::new().analyze(&mut st), Ok('b'));
    assert_eq!(
        any_one().analyze(&mut st),
        Err(AnalyzerError::new(2, None, ErrorExpect::Any))
    );
    assert_eq!(st.pos(), 2);
}

#[test]
fn eof_succeeds_only_at_the_end() {
    let mut st = input("a");
    assert_eq!(
        eof().analyze(&mut st),
        Err(AnalyzerError::new(0, Some('a'), ErrorExpect::Eof))
    );
    assert_eq!(st.pos(), 0);
    st.next();
    assert_eq!(Eof::new().analyze(&mut st), Ok(()));
}

#[test]
fn val_yields_its_value_and_consumes_nothing() {
    let mut st = input("a");
    let a: Val<u8, char> = val(7);
    assert_eq!(a.analyze(&mut st), Ok(7));
    assert_eq!(Val::<u8, char>::new(9).analyze(&mut st), Ok(9));
    assert_eq!(st.pos(), 0);
}

#[test]
fn fail_reports_the_symbol_at_the_cursor() {
    let mut st = input("a");
    let f: Fail<char, u8> = fail();
    assert_eq!(
        f.analyze(&mut st),
        Err(AnalyzerError::new(0, Some('a'), ErrorExpect::Unknown))
    );
    st.next();
    assert_eq!(
        Fail::<char, u8>::new().analyze(&mut st),
        Err(AnalyzerError::new(1, None, ErrorExpect::Unknown))
    );
    assert_eq!(st.pos(), 1);
}

#[test]
fn token_matches_one_equal_symbol() {
    let mut st = input("ab");
    assert_eq!(token('a').analyze(&mut st), Ok('a'));
    assert_eq!(st.pos(), 1);
    assert_eq!(
        Token::new('a').analyze(&mut st),
        Err(AnalyzerError::new(1, Some('b'), ErrorExpect::Token('a')))
    );
    assert_eq!(st.pos(), 1);
    st.next();
    assert_eq!(
        token('a').analyze(&mut st),
        Err(AnalyzerError::new(2, None, ErrorExpect::Token('a')))
    );
}

#[test]
fn tokens_consume_what_matched_before_failing() {
    let mut st = input("abx");
    assert_eq!(
        tokens(vec!['a', 'b', 'c']).analyze(&mut st),
        Err(AnalyzerError::new(2, Some('x'), ErrorExpect::Token('c')))
    );
    assert_eq!(st.pos(), 2);
    let mut st = input("abc");
    assert_eq!(
        Tokens::new(vec!['a', 'b', 'c']).analyze(&mut st),
        Ok(vec!['a', 'b', 'c'])
    );
    assert_eq!(st.pos(), 3);
    let mut st = input("ab");
    assert_eq!(
        tokens(vec!['a', 'b', 'c']).analyze(&mut st),
        Err(AnalyzerError::new(2, None, ErrorExpect::Token('c')))
    );
    let mut st = input("ab");
    assert_eq!(tokens(Vec::new()).analyze(&mut st), Ok(Vec::new()));
    assert_eq!(st.pos(), 0);
}

#[test]
fn expect_tests_the_symbol() {
    let mut st = input("1a");
    assert_eq!(expect(is_digit).analyze(&mut st), Ok('1'));
    assert_eq!(
        Expect::new(is_digit).analyze(&mut st),
        Err(AnalyzerError::new(1, Some('a'), ErrorExpect::Unknown))
    );
    assert_eq!(st.pos(), 1);
    st.next();
    assert_eq!(
        expect(is_digit).analyze(&mut st),
        Err(AnalyzerError::new(2, None, ErrorExpect::Unknown))
    );
}

#[test]
fn attempt_rewinds_on_failure_only() {
    let mut st = input("abx");
    let word = tokens(vec!['a', 'b', 'c']).attempt();
    assert_eq!(
        word.analyze(&mut st),
        Err(AnalyzerError::new(2, Some('x'), ErrorExpect::Token('c')))
    );
    assert_eq!(st.pos(), 0);
    let short = Attempt::new(tokens(vec!['a', 'b']));
    assert_eq!(short.analyze(&mut st), Ok(vec!['a', 'b']));
    assert_eq!(st.pos(), 2);
}

#[test]
fn attempt_inside_a_later_position_returns_there() {
    let mut st = input("zabx");
    st.next();
    let word = tokens(vec!['a', 'b', 'c']).attempt();
    assert!(word.analyze(&mut st).is_err());
    assert_eq!(st.pos(), 1);
}

#[test]
fn map_changes_a_success_value() {
    let mut st = input("7x");
    let a = expect(is_digit).map(|c: char| c as u32 - '0' as u32);
    assert_eq!(a.analyze(&mut st), Ok(7));
    let a = Mapped::new(|c: char| c as u32, expect(is_digit));
    assert_eq!(
        a.analyze(&mut st),
        Err(AnalyzerError::new(1, Some('x'), ErrorExpect::Unknown))
    );
}

#[test]
fn or_runs_the_second_from_where_the_first_stopped() {
    let mut st = input("abab");
    let a = tokens(vec!['a', 'b', 'c']).or(tokens(vec!['a', 'b']));
    assert_eq!(a.analyze(&mut st), Ok(vec!['a', 'b']));
    assert_eq!(st.pos(), 4);
    let mut st = input("abab");
    let a = tokens(vec!['a', 'b', 'c']).attempt().or(tokens(vec!['a', 'b']));
    assert_eq!(a.analyze(&mut st), Ok(vec!['a', 'b']));
    assert_eq!(st.pos(), 2);
}

#[test]
fn or_gives_the_second_error_when_both_fail() {
    let mut st = input("x");
    let a = Or::new(token('a'), token('b'));
    assert_eq!(
        a.analyze(&mut st),
        Err(AnalyzerError::new(0, Some('x'), ErrorExpect::Token('b')))
    );
    let mut st = input("b");
    assert_eq!(token('a').or(token('b')).analyze(&mut st), Ok('b'));
}

#[test]
fn and_yields_both_values() {
    let mut st = input("ab");
    assert_eq!(token('a').and(token('b')).analyze(&mut st), Ok(('a', 'b')));
    assert_eq!(st.pos(), 2);
    let mut st = input("ax");
    assert_eq!(
        And::new(token('a'), token('b')).analyze(&mut st),
        Err(AnalyzerError::new(1, Some('x'), ErrorExpect::Token('b')))
    );
    assert_eq!(st.pos(), 1);
    let mut st = input("xb");
    assert_eq!(
        token('a').and(token('b')).analyze(&mut st),
        Err(AnalyzerError::new(0, Some('x'), ErrorExpect::Token('a')))
    );
}

#[test]
fn with_and_skip_keep_one_value() {
    let mut st = input("ab");
    assert_eq!(token('a').with(token('b')).analyze(&mut st), Ok('b'));
    let mut st = input("ab");
    assert_eq!(token('a').skip(token('b')).analyze(&mut st), Ok('a'));
    assert_eq!(st.pos(), 2);
    let mut st = input("ax");
    assert_eq!(
        With::new(token('a'), token('b')).analyze(&mut st),
        Err(AnalyzerError::new(1, Some('x'), ErrorExpect::Token('b')))
    );
    let mut st = input("ax");
    assert_eq!(
        Skip::new(token('a'), token('b')).analyze(&mut st),
        Err(AnalyzerError::new(1, Some('x'), ErrorExpect::Token('b')))
    );
    assert_eq!(st.pos(), 1);
}

#[test]
fn val_method_replaces_the_value() {
    let mut st = input("a");
    assert_eq!(token('a').val(5u8).analyze(&mut st), Ok(5));
    assert_eq!(st.pos(), 1);
}

#[test]
fn optional_does_not_rewind() {
    let mut st = input("abx");
    let a = tokens(vec!['a', 'b', 'c']).optional();
    assert_eq!(a.analyze(&mut st), Ok(None));
    assert_eq!(st.pos(), 2);
    let mut st = input("abc");
    let a = Optional::new(tokens(vec!['a', 'b', 'c']));
    assert_eq!(a.analyze(&mut st), Ok(Some(vec!['a', 'b', 'c'])));
}

#[test]
fn many_collects_until_the_first_failure() {
    let mut st = input("123a");
    assert_eq!(expect(is_digit).many().analyze(&mut st), Ok(vec!['1', '2', '3']));
    assert_eq!(st.pos(), 3);
    assert_eq!(expect(is_digit).many().analyze(&mut st), Ok(Vec::new()));
    assert_eq!(st.pos(), 3);
}

#[test]
fn many1_needs_one_value() {
    let mut st = input("a1");
    assert_eq!(
        expect(is_digit).many1().analyze(&mut st),
        Err(AnalyzerError::new(0, Some('a'), ErrorExpect::Unknown))
    );
    st.next();
    assert_eq!(expect(is_digit).many1().analyze(&mut st), Ok(vec!['1']));
}

#[test]
fn many_n_takes_exactly_n() {
    let mut st = input("12345");
    assert_eq!(expect(is_digit).many_n(3).analyze(&mut st), Ok(vec!['1', '2', '3']));
    assert_eq!(st.pos(), 3);
    assert_eq!(
        expect(is_digit).many_n(3).analyze(&mut st),
        Err(AnalyzerError::new(5, None, ErrorExpect::Unknown))
    );
    assert_eq!(st.pos(), 5);
    let mut st = input("12");
    assert_eq!(expect(is_digit).many_n(0).analyze(&mut st), Ok(Vec::new()));
    assert_eq!(st.pos(), 0);
}

#[test]
fn loop_with_bounds_stops_at_the_upper_bound() {
    let mut st = input("1111");
    let a = Loop::new(token('1'), Some(1), Some(2));
    assert_eq!(a.analyze(&mut st), Ok(vec!['1', '1']));
    assert_eq!(st.pos(), 2);
}

#[test]
fn many_fails_when_the_last_item_consumed_before_failing() {
    let mut st = input("ababax");
    let a = tokens(vec!['a', 'b']).many();
    assert_eq!(
        a.analyze(&mut st),
        Err(AnalyzerError::new(5, Some('x'), ErrorExpect::Token('b')))
    );
    assert_eq!(st.pos(), 5);
    let mut st = input("ababx");
    let a = tokens(vec!['a', 'b']).many();
    assert_eq!(a.analyze(&mut st), Ok(vec![vec!['a', 'b'], vec!['a', 'b']]));
    assert_eq!(st.pos(), 4);
}

#[test]
fn many_ends_on_an_item_that_consumes_nothing() {
    let mut st = input("abc");
    let a: Val<u8, char> = val(1);
    assert_eq!(a.many().analyze(&mut st), Ok(vec![1]));
    assert_eq!(st.pos(), 0);
    let a: Val<u8, char> = val(1);
    assert_eq!(Loop::new(a, Some(3), None).analyze(&mut st), Ok(vec![1, 1, 1]));
    let a: Val<u8, char> = val(1);
    assert_eq!(a.many_n(4).analyze(&mut st), Ok(vec![1, 1, 1, 1]));
    assert_eq!(st.pos(), 0);
}

#[test]
fn msg_replaces_only_what_was_expected() {
    let mut st = input("x");
    let a = expect(is_digit).msg(ErrorExpect::Token('0'));
    assert_eq!(
        a.analyze(&mut st),
        Err(AnalyzerError::new(0, Some('x'), ErrorExpect::Token('0')))
    );
    let mut st = input("5");
    let a = Msg::new(expect(is_digit), ErrorExpect::Any);
    assert_eq!(a.analyze(&mut st), Ok('5'));
}

#[test]
fn and_then_runs_the_analyzer_that_the_function_returns() {
    let next = |c: char| token(c);
    let mut st = input("aab");
    assert_eq!(any_one().and_then(next).analyze(&mut st), Ok('a'));
    assert_eq!(st.pos(), 2);
    let mut st = input("ab");
    assert_eq!(
        Then::new(any_one(), next).analyze(&mut st),
        Err(AnalyzerError::new(1, Some('b'), ErrorExpect::Token('a')))
    );
    let mut st = input("");
    assert_eq!(
        any_one().and_then(next).analyze(&mut st),
        Err(AnalyzerError::new(0, None, ErrorExpect::Any))
    );
}

#[test]
fn either_runs_the_side_it_holds() {
    let mut st = input("a");
    let r: Either<Val<u8, char>, Fail<char, u8>> = Either::Right(val(3));
    assert_eq!(r.analyze(&mut st), Ok(3));
    let l: Either<Val<u8, char>, Fail<char, u8>> = Either::Left(fail());
    assert_eq!(
        l.analyze(&mut st),
        Err(AnalyzerError::new(0, Some('a'), ErrorExpect::Unknown))
    );
}

fn two_symbols(st: Stream<char>) -> (Stream<char>, AnalyzerResult<(char, char), char>) {
    let mut st = st;
    let first = match any_one().analyze(&mut st) {
        Ok(c) => c,
        Err(e) => return (st, Err(e)),
    };
    match any_one().analyze(&mut st) {
        Ok(c) => (st, Ok((first, c))),
        Err(e) => (st, Err(e)),
    }
}

#[test]
fn analyzer_func_runs_its_function_on_the_stream() {
    let mut st = input("abc");
    assert_eq!(analyzer_func(two_symbols).analyze(&mut st), Ok(('a', 'b')));
    assert_eq!(st.pos(), 2);
    assert_eq!(
        AnalyzerFunc::new(two_symbols).analyze(&mut st),
        Err(AnalyzerError::new(3, None, ErrorExpect::Any))
    );
    assert_eq!(st.pos(), 3);
    assert_eq!(st.peak_index(0), None);
    st.set_pos(0);
    assert_eq!(st.peak(), Some('a'));
}

#[test]
fn boxed_and_borrowed_analyzers_run_alike() {
    let mut st = input("aaa");
    let a = token('a');
    assert_eq!((&a).analyze(&mut st), Ok('a'));
    assert_eq!(a.clone().boxed().analyze(&mut st), Ok('a'));
    assert_eq!(a.analyze(&mut st), Ok('a'));
    assert_eq!(st.pos(), 3);
}

#[test]
fn analyzers_work_on_symbols_other_than_characters() {
    let mut st = Stream::new(vec![1u8, 2, 3]);
    assert_eq!(token(1u8).and(token(2u8)).analyze(&mut st), Ok((1, 2)));
    assert_eq!(
        token(9u8).analyze(&mut st),
        Err(AnalyzerError::new(2, Some(3), ErrorExpect::Token(9)))
    );
}

fn nested(st: Stream<char>) -> (Stream<char>, AnalyzerResult<usize, char>) {
    let mut st = st;
    if let Err(e) = token('(').analyze(&mut st) {
        return (st, Err(e));
    }
    let inner = match analyzer_func(nested).attempt().optional().analyze(&mut st) {
        Ok(Some(depth)) => depth,
        Ok(None) => 0,
        Err(e) => return (st, Err(e)),
    };
    match token(')').analyze(&mut st) {
        Ok(_) => (st, Ok(inner + 1)),
        Err(e) => (st, Err(e)),
    }
}

#[test]
fn analyzer_func_lets_a_rule_refer_to_itself() {
    let mut st = input("((()))x");
    assert_eq!(analyzer_func(nested).analyze(&mut st), Ok(3));
    assert_eq!(st.pos(), 6);
    let mut st = input("(()");
    assert_eq!(
        analyzer_func(nested).analyze(&mut st),
        Err(AnalyzerError::new(3, None, ErrorExpect::Token(')')))
    );
}
