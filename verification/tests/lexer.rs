use tkr_lang::analyzer::{Analyzer, AnalyzerError, Combine, ErrorExpect};
use tkr_lang::lexer::{
    block_comment, char_literal, comment, hex_char, ident_or_keyword, ident_str, kind, lexer,
    line_comment, literal, literal_char, num_literal, one_token, skip, space, string,
    string_literal, symbol,
};
use tkr_lang::stream::Stream;
use tkr_lang::token::{Keyword, Kind, Literal, NumLiteral, Symbol, Token};

fn source(s: &str) -> Stream<char> {
    Stream::new(s.chars().collect())
}

fn lex(s: &str) -> Result<Vec<Token>, AnalyzerError<char>> {
    lexer().analyze(&mut source(s))
}

fn tok(kind: Kind, pos: usize, len: usize) -> Token {
    Token { kind, pos, len }
}

fn unknown(pos: usize, found: Option<char>) -> AnalyzerError<char> {
    AnalyzerError::new(pos, found, ErrorExpect::Unknown)
}

#[test]
fn string_matches_a_word() {
    let mut st = source("while x");
    assert_eq!(string("while").analyze(&mut st), Ok("while".to_string()));
    assert_eq!(st.pos(), 5);
    let mut st = source("whale");
    assert_eq!(
        string("while").analyze(&mut st),
        Err(AnalyzerError::new(2, Some('a'), ErrorExpect::Token('i')))
    );
    assert_eq!(st.pos(), 2);
}

#[test]
fn maximal_munch_of_operators() {
    assert_eq!(lex("<="), Ok(vec![tok(Kind::Symbol(Symbol::Lte), 0, 2)]));
    assert_eq!(lex("<"), Ok(vec![tok(Kind::Symbol(Symbol::Lt), 0, 1)]));
    assert_eq!(
        lex("<=="),
        Ok(vec![
            tok(Kind::Symbol(Symbol::Lte), 0, 2),
            tok(Kind::Symbol(Symbol::Assign), 2, 1),
        ])
    );
}

#[test]
fn every_symbol_is_read() {
    let table = [
        (".", Symbol::Dot),
        (",", Symbol::Comma),
        (":", Symbol::Colon),
        (";", Symbol::Semicolon),
        ("(", Symbol::OpenParent),
        (")", Symbol::CloseParent),
        ("[", Symbol::OpenBracket),
        ("]", Symbol::CloseBracket),
        ("{", Symbol::OpenBrace),
        ("}", Symbol::CloseBrace),
        ("!=", Symbol::Ne),
        ("!", Symbol::Not),
        ("+", Symbol::Add),
        ("-", Symbol::Sub),
        ("**", Symbol::Pow),
        ("*", Symbol::Mul),
        ("/", Symbol::Div),
        ("%", Symbol::Mod),
        ("&&", Symbol::And),
        ("&", Symbol::BitAnd),
        ("||", Symbol::Or),
        ("|", Symbol::BitOr),
        ("^", Symbol::BitXor),
        ("<=", Symbol::Lte),
        ("<", Symbol::Lt),
        (">=", Symbol::Gte),
        (">", Symbol::Gt),
        ("==", Symbol::Eq),
        ("=", Symbol::Assign),
    ];
    for (text, sym) in table {
        let mut st = source(text);
        assert_eq!(symbol().analyze(&mut st), Ok(sym));
        assert_eq!(st.pos(), text.chars().count());
        let mut st = source(&format!("{}a", text));
        assert_eq!(symbol().analyze(&mut st), Ok(sym));
        assert_eq!(st.pos(), text.chars().count());
    }
}

#[test]
fn symbol_fails_without_consuming() {
    let mut st = source("a");
    assert_eq!(
        symbol().analyze(&mut st),
        Err(AnalyzerError::new(0, Some('a'), ErrorExpect::Token('=')))
    );
    assert_eq!(st.pos(), 0);
    let mut st = source("");
    assert_eq!(
        symbol().analyze(&mut st),
        Err(AnalyzerError::new(0, None, ErrorExpect::Token('=')))
    );
}

#[test]
fn numeric_dispatch() {
    let mut st = source("3");
    assert_eq!(num_literal().analyze(&mut st), Ok(NumLiteral::I32(3)));
    let mut st = source("3i64");
    assert_eq!(num_literal().analyze(&mut st), Ok(NumLiteral::I64(3)));
    assert_eq!(st.pos(), 4);
    let mut st = source("3i32");
    assert_eq!(num_literal().analyze(&mut st), Ok(NumLiteral::I32(3)));
    let mut st = source("3.0");
    assert_eq!(num_literal().analyze(&mut st), Ok(NumLiteral::F64("3.0".to_string())));
    let mut st = source("3.0f64");
    assert_eq!(num_literal().analyze(&mut st), Ok(NumLiteral::F64("3.0".to_string())));
    let mut st = source("3.0f32");
    assert_eq!(num_literal().analyze(&mut st), Ok(NumLiteral::F32("3.0".to_string())));
    assert_eq!(st.pos(), 6);
    let mut st = source("3f64");
    assert_eq!(num_literal().analyze(&mut st), Err(unknown(4, None)));
    assert_eq!(st.pos(), 4);
    let mut st = source("3f32");
    assert!(num_literal().analyze(&mut st).is_err());
    let mut st = source("3.0i32");
    assert_eq!(num_literal().analyze(&mut st), Err(unknown(6, None)));
    let mut st = source("3.0i64 ");
    assert_eq!(num_literal().analyze(&mut st), Err(unknown(6, Some(' '))));
    let mut st = source("3abc");
    assert!(num_literal().analyze(&mut st).is_err());
}

#[test]
fn fractional_text_converts_to_the_floating_value() {
    let mut st = source("3.0");
    match num_literal().analyze(&mut st) {
        Ok(NumLiteral::F64(text)) => assert_eq!(text.parse::<f64>(), Ok(3.0)),
        other => panic!("{:?}", other),
    }
    let mut st = source("0012.50f32");
    match num_literal().analyze(&mut st) {
        Ok(NumLiteral::F32(text)) => {
            assert_eq!(text, "0012.50");
            assert_eq!(text.parse::<f32>(), Ok(12.5));
        }
        other => panic!("{:?}", other),
    }
}

#[test]
fn integer_literals_must_fit_their_width() {
    let mut st = source("2147483647");
    assert_eq!(num_literal().analyze(&mut st), Ok(NumLiteral::I32(2147483647)));
    let mut st = source("2147483648");
    assert_eq!(num_literal().analyze(&mut st), Err(unknown(10, None)));
    let mut st = source("2147483648i64");
    assert_eq!(num_literal().analyze(&mut st), Ok(NumLiteral::I64(2147483648)));
    let mut st = source("9223372036854775807i64");
    assert_eq!(
        num_literal().analyze(&mut st),
        Ok(NumLiteral::I64(9223372036854775807))
    );
    let mut st = source("9223372036854775808i64");
    assert!(num_literal().analyze(&mut st).is_err());
    let mut st = source("99999999999999999999999999");
    assert!(num_literal().analyze(&mut st).is_err());
    let mut st = source("000000000000000000000000007");
    assert_eq!(num_literal().analyze(&mut st), Ok(NumLiteral::I32(7)));
}

#[test]
fn a_point_without_digits_is_consumed() {
    let mut st = source("3.i64");
    assert_eq!(num_literal().analyze(&mut st), Ok(NumLiteral::I64(3)));
    assert_eq!(st.pos(), 5);
    let mut st = source("3.");
    assert_eq!(num_literal().analyze(&mut st), Ok(NumLiteral::I32(3)));
    assert_eq!(st.pos(), 2);
}

#[test]
fn num_literal_needs_a_digit() {
    let mut st = source("x1");
    assert_eq!(num_literal().analyze(&mut st), Err(unknown(0, Some('x'))));
    assert_eq!(st.pos(), 0);
}

#[test]
fn nested_comments() {
    assert_eq!(
        lex("/* a /* b */ c */ x"),
        Ok(vec![tok(Kind::Ident("x".to_string()), 18, 1)])
    );
    let mut st = source("/* a /* b */ c */ x");
    assert_eq!(skip().analyze(&mut st), Ok(()));
    assert_eq!(st.pos(), 18);
}

#[test]
fn block_comment_ends_at_its_own_close() {
    let mut st = source("/**/x");
    assert_eq!(block_comment().analyze(&mut st), Ok(()));
    assert_eq!(st.pos(), 4);
    let mut st = source("/*/**/*/x");
    assert_eq!(block_comment().analyze(&mut st), Ok(()));
    assert_eq!(st.pos(), 8);
    let mut st = source("/* * / */ */");
    assert_eq!(block_comment().analyze(&mut st), Ok(()));
    assert_eq!(st.pos(), 9);
}

#[test]
fn unterminated_block_comment_fails_at_the_end() {
    let mut st = source("/* a /* b */ c");
    assert_eq!(
        block_comment().analyze(&mut st),
        Err(AnalyzerError::new(14, None, ErrorExpect::Token('*')))
    );
    assert_eq!(st.pos(), 14);
    let mut st = source("/* a *");
    assert_eq!(
        block_comment().analyze(&mut st),
        Err(AnalyzerError::new(6, None, ErrorExpect::Token('*')))
    );
    assert_eq!(
        lex("x /* y"),
        Err(AnalyzerError::new(6, None, ErrorExpect::Token('*')))
    );
}

#[test]
fn block_comment_needs_its_opening() {
    let mut st = source("x");
    assert_eq!(
        block_comment().analyze(&mut st),
        Err(AnalyzerError::new(0, Some('x'), ErrorExpect::Token('/')))
    );
    assert_eq!(st.pos(), 0);
    let mut st = source("/x");
    assert_eq!(
        block_comment().analyze(&mut st),
        Err(AnalyzerError::new(1, Some('x'), ErrorExpect::Token('*')))
    );
    assert_eq!(st.pos(), 1);
}

#[test]
fn line_comment_runs_to_the_end_of_the_line() {
    let mut st = source("// a b\nx");
    assert_eq!(line_comment().analyze(&mut st), Ok(()));
    assert_eq!(st.pos(), 7);
    let mut st = source("// a b");
    assert_eq!(line_comment().analyze(&mut st), Ok(()));
    assert_eq!(st.pos(), 6);
    let mut st = source("/ a");
    assert_eq!(
        line_comment().analyze(&mut st),
        Err(AnalyzerError::new(1, Some(' '), ErrorExpect::Token('/')))
    );
    assert_eq!(st.pos(), 1);
}

#[test]
fn comment_reads_either_form() {
    let mut st = source("//x\n/*y*/z");
    assert_eq!(comment().analyze(&mut st), Ok(()));
    assert_eq!(st.pos(), 4);
    assert_eq!(comment().analyze(&mut st), Ok(()));
    assert_eq!(st.pos(), 9);
    assert_eq!(
        comment().analyze(&mut st),
        Err(AnalyzerError::new(9, Some('z'), ErrorExpect::Token('/')))
    );
    assert_eq!(st.pos(), 9);
}

#[test]
fn space_reads_one_symbol_of_white_space() {
    for text in [" x", "\nx", "\tx"] {
        let mut st = source(text);
        assert_eq!(space().analyze(&mut st), Ok(()));
        assert_eq!(st.pos(), 1);
    }
    let mut st = source("\rx");
    assert_eq!(
        space().analyze(&mut st),
        Err(AnalyzerError::new(0, Some('\r'), ErrorExpect::Token('\t')))
    );
    assert_eq!(st.pos(), 0);
}

#[test]
fn skip_takes_white_space_and_comments_together() {
    let mut st = source("  \n// a\n\t/* b */ \n x");
    assert_eq!(skip().analyze(&mut st), Ok(()));
    assert_eq!(st.pos(), 19);
    assert_eq!(st.peak(), Some('x'));
}

#[test]
fn skip_twice_is_skip_once() {
    for text in ["", "x", "  x", " /* a */ // b\n  y", "// only"] {
        let mut st = source(text);
        assert_eq!(skip().analyze(&mut st), Ok(()));
        let once = st.pos();
        assert_eq!(skip().analyze(&mut st), Ok(()));
        assert_eq!(st.pos(), once);
    }
}

#[test]
fn skip_fails_on_a_slash_that_opens_no_comment() {
    let mut st = source(" / 2");
    assert_eq!(
        skip().analyze(&mut st),
        Err(AnalyzerError::new(2, Some(' '), ErrorExpect::Token('*')))
    );
    assert_eq!(st.pos(), 2);
}

#[test]
fn escapes() {
    let mut st = source("\"a\\tb\"");
    assert_eq!(string_literal().analyze(&mut st), Ok("a\tb".to_string()));
    assert_eq!(st.pos(), 6);
    let mut st = source("\"\\q\"");
    assert_eq!(string_literal().analyze(&mut st), Err(unknown(2, Some('q'))));
    assert_eq!(st.pos(), 3);
    assert!(lex("\"\\q\"").is_err());
}

#[test]
fn every_escape_is_decoded() {
    let mut st = source("\"\\t\\n\\r\\\\\\\"\\x41\\u00e9\\U0001F600'\"");
    assert_eq!(
        string_literal().analyze(&mut st),
        Ok("\t\n\r\\\"A\u{e9}\u{1F600}'".to_string())
    );
    let mut st = source("'\\''");
    assert_eq!(char_literal().analyze(&mut st), Ok('\''));
    let mut st = source("'\"'");
    assert_eq!(char_literal().analyze(&mut st), Ok('"'));
}

#[test]
fn literal_char_stops_at_the_quote() {
    let mut st = source("\"");
    assert_eq!(literal_char('"').analyze(&mut st), Err(unknown(0, Some('"'))));
    assert_eq!(st.pos(), 0);
    assert_eq!(literal_char('\'').analyze(&mut st), Ok('"'));
    assert_eq!(
        literal_char('"').analyze(&mut st),
        Err(AnalyzerError::new(1, None, ErrorExpect::Any))
    );
    let mut st = source("\\");
    assert_eq!(
        literal_char('"').analyze(&mut st),
        Err(AnalyzerError::new(1, None, ErrorExpect::Any))
    );
    assert_eq!(st.pos(), 1);
}

#[test]
fn hex_char_reads_exactly_its_digits() {
    let mut st = source("41z");
    assert_eq!(hex_char(2).analyze(&mut st), Ok('A'));
    assert_eq!(st.pos(), 2);
    let mut st = source("4g");
    assert_eq!(hex_char(2).analyze(&mut st), Err(unknown(1, Some('g'))));
    assert_eq!(st.pos(), 1);
    let mut st = source("00E9");
    assert_eq!(hex_char(4).analyze(&mut st), Ok('\u{e9}'));
    let mut st = source("0010fFfF");
    assert_eq!(hex_char(8).analyze(&mut st), Ok('\u{10FFFF}'));
    let mut st = source("7");
    assert_eq!(hex_char(1).analyze(&mut st), Ok('\u{7}'));
}

#[test]
fn hex_char_refuses_what_is_no_scalar_value() {
    let mut st = source("D800");
    assert_eq!(hex_char(4).analyze(&mut st), Err(unknown(4, None)));
    assert_eq!(st.pos(), 4);
    let mut st = source("dfff ");
    assert_eq!(hex_char(4).analyze(&mut st), Err(unknown(4, Some(' '))));
    let mut st = source("00110000");
    assert_eq!(hex_char(8).analyze(&mut st), Err(unknown(8, None)));
    let mut st = source("FFFFFFFF");
    assert!(hex_char(8).analyze(&mut st).is_err());
    let mut st = source("D7FF");
    assert_eq!(hex_char(4).analyze(&mut st), Ok('\u{D7FF}'));
    let mut st = source("E000");
    assert_eq!(hex_char(4).analyze(&mut st), Ok('\u{E000}'));
    let mut st = source("100000000");
    assert!(hex_char(9).analyze(&mut st).is_err());
    let mut st = source("000000041");
    assert_eq!(hex_char(9).analyze(&mut st), Ok('A'));
}

#[test]
fn char_literal_holds_one_character() {
    let mut st = source("'a'");
    assert_eq!(char_literal().analyze(&mut st), Ok('a'));
    assert_eq!(st.pos(), 3);
    let mut st = source("'ab'");
    assert_eq!(
        char_literal().analyze(&mut st),
        Err(AnalyzerError::new(2, Some('b'), ErrorExpect::Token('\'')))
    );
    assert_eq!(st.pos(), 2);
    let mut st = source("''");
    assert_eq!(char_literal().analyze(&mut st), Err(unknown(1, Some('\''))));
    let mut st = source("a");
    assert_eq!(
        char_literal().analyze(&mut st),
        Err(AnalyzerError::new(0, Some('a'), ErrorExpect::Token('\'')))
    );
}

#[test]
fn string_literal_needs_its_closing_quote() {
    let mut st = source("\"\"");
    assert_eq!(string_literal().analyze(&mut st), Ok(String::new()));
    let mut st = source("\"abc");
    assert_eq!(
        string_literal().analyze(&mut st),
        Err(AnalyzerError::new(4, None, ErrorExpect::Token('"')))
    );
    assert_eq!(st.pos(), 4);
}

#[test]
fn keyword_identifier_boundary() {
    assert_eq!(lex("iffy"), Ok(vec![tok(Kind::Ident("iffy".to_string()), 0, 4)]));
    assert_eq!(lex("if"), Ok(vec![tok(Kind::Keyword(Keyword::If), 0, 2)]));
    assert_eq!(
        lex("if fy"),
        Ok(vec![
            tok(Kind::Keyword(Keyword::If), 0, 2),
            tok(Kind::Ident("fy".to_string()), 3, 2),
        ])
    );
}

#[test]
fn every_keyword_is_recognised() {
    let table = [
        ("i32", Keyword::I32),
        ("i64", Keyword::I64),
        ("F32", Keyword::F32),
        ("F64", Keyword::F64),
        ("string", Keyword::String),
        ("bool", Keyword::Bool),
        ("char", Keyword::Char),
        ("true", Keyword::True),
        ("false", Keyword::False),
        ("let", Keyword::Let),
        ("if", Keyword::If),
        ("while", Keyword::While),
        ("return", Keyword::Return),
        ("struct", Keyword::Struct),
        ("fun", Keyword::Fun),
        ("extern", Keyword::Extern),
        ("for", Keyword::For),
    ];
    for (text, word) in table {
        let mut st = source(text);
        assert_eq!(ident_or_keyword().analyze(&mut st), Ok(Kind::Keyword(word)));
        let longer = format!("{}_", text);
        let mut st = source(&longer);
        assert_eq!(ident_or_keyword().analyze(&mut st), Ok(Kind::Ident(longer.clone())));
    }
    let mut st = source("f32");
    assert_eq!(
        ident_or_keyword().analyze(&mut st),
        Ok(Kind::Ident("f32".to_string()))
    );
}

#[test]
fn ident_str_takes_letters_digits_and_underscores() {
    let mut st = source("a_1b-c");
    assert_eq!(ident_str().analyze(&mut st), Ok("a_1b".to_string()));
    assert_eq!(st.pos(), 4);
    let mut st = source("_a");
    assert_eq!(ident_str().analyze(&mut st), Err(unknown(0, Some('_'))));
    let mut st = source("1a");
    assert_eq!(ident_str().analyze(&mut st), Err(unknown(0, Some('1'))));
    let mut st = source("é");
    assert_eq!(ident_str().analyze(&mut st), Err(unknown(0, Some('é'))));
    assert_eq!(st.pos(), 0);
}

#[test]
fn literal_tries_character_then_string_then_number() {
    let mut st = source("'a'");
    assert_eq!(literal().analyze(&mut st), Ok(Literal::Char('a')));
    let mut st = source("\"a\"");
    assert_eq!(literal().analyze(&mut st), Ok(Literal::String("a".to_string())));
    let mut st = source("12");
    assert_eq!(literal().analyze(&mut st), Ok(Literal::NumLiteral(NumLiteral::I32(12))));
    let mut st = source("x");
    assert_eq!(literal().analyze(&mut st), Err(unknown(0, Some('x'))));
}

#[test]
fn literal_does_not_rewind_between_its_forms() {
    let mut st = source("'a\"b\"");
    assert_eq!(literal().analyze(&mut st), Ok(Literal::String("b".to_string())));
    assert_eq!(st.pos(), 5);
}

#[test]
fn kind_tries_word_then_symbol_then_literal() {
    let mut st = source("let");
    assert_eq!(kind().analyze(&mut st), Ok(Kind::Keyword(Keyword::Let)));
    let mut st = source("**");
    assert_eq!(kind().analyze(&mut st), Ok(Kind::Symbol(Symbol::Pow)));
    let mut st = source("1.5");
    assert_eq!(
        kind().analyze(&mut st),
        Ok(Kind::Literal(Literal::NumLiteral(NumLiteral::F64("1.5".to_string()))))
    );
    let mut st = source("#");
    assert_eq!(kind().analyze(&mut st), Err(unknown(0, Some('#'))));
}

#[test]
fn one_token_records_offset_and_length() {
    let mut st = source("ab cd");
    st.set_pos(3);
    assert_eq!(
        one_token().analyze(&mut st),
        Ok(tok(Kind::Ident("cd".to_string()), 3, 2))
    );
    assert_eq!(st.pos(), 5);
    assert_eq!(one_token().analyze(&mut st), Err(unknown(5, None)));
}

#[test]
fn tokens_cover_the_source_between_what_is_skipped() {
    let text = "let x1 = /* one */ 42;// done\nreturn \"s\"+'c'";
    let chars: Vec<char> = text.chars().collect();
    let tokens = lex(text).unwrap();
    let kinds: Vec<Kind> = tokens.iter().map(|t| t.kind.clone()).collect();
    assert_eq!(
        kinds,
        vec![
            Kind::Keyword(Keyword::Let),
            Kind::Ident("x1".to_string()),
            Kind::Symbol(Symbol::Assign),
            Kind::Literal(Literal::NumLiteral(NumLiteral::I32(42))),
            Kind::Symbol(Symbol::Semicolon),
            Kind::Keyword(Keyword::Return),
            Kind::Literal(Literal::String("s".to_string())),
            Kind::Symbol(Symbol::Add),
            Kind::Literal(Literal::Char('c')),
        ]
    );
    let mut at = 0;
    let mut covered = String::new();
    for t in &tokens {
        assert!(t.len >= 1);
        assert!(at <= t.pos);
        let mut gap = Stream::new(chars.clone());
        gap.set_pos(at);
        assert_eq!(skip().analyze(&mut gap), Ok(()));
        assert_eq!(gap.pos(), t.pos);
        covered.extend(&chars[t.pos..t.pos + t.len]);
        at = t.pos + t.len;
    }
    assert_eq!(at, chars.len());
    assert_eq!(covered, "letx1=42;return\"s\"+'c'");
}

#[test]
fn lexer_needs_one_token() {
    assert_eq!(lex(""), Err(unknown(0, None)));
    assert_eq!(lex("  "), Err(unknown(2, None)));
}

#[test]
fn lexer_fails_on_what_is_no_token() {
    assert_eq!(lex("a # b"), Err(unknown(2, Some('#'))));
    assert_eq!(lex("a 1x"), Err(unknown(4, None)));
}

#[test]
fn lexer_wants_the_end_of_the_input_after_the_last_token() {
    assert_eq!(
        lex("a#"),
        Err(AnalyzerError::new(1, Some('#'), ErrorExpect::Eof))
    );
    assert_eq!(
        lex("a 'b'_"),
        Err(AnalyzerError::new(5, Some('_'), ErrorExpect::Eof))
    );
}

#[test]
fn lexer_fails_on_white_space_after_the_last_token() {
    assert_eq!(lex("a\n"), Err(unknown(2, None)));
    assert_eq!(lex("a // b"), Err(unknown(6, None)));
}

#[test]
fn lexer_fails_on_a_division_sign() {
    assert_eq!(
        lex("a / b"),
        Err(AnalyzerError::new(3, Some(' '), ErrorExpect::Token('*')))
    );
    assert_eq!(
        lex("a/b"),
        Err(AnalyzerError::new(2, Some('b'), ErrorExpect::Token('*')))
    );
}

#[test]
fn lexer_reads_a_small_program() {
    let tokens = lex("fun f(a:i32){return a**2;}").unwrap();
    let kinds: Vec<Kind> = tokens.into_iter().map(|t| t.kind).collect();
    assert_eq!(
        kinds,
        vec![
            Kind::Keyword(Keyword::Fun),
            Kind::Ident("f".to_string()),
            Kind::Symbol(Symbol::OpenParent),
            Kind::Ident("a".to_string()),
            Kind::Symbol(Symbol::Colon),
            Kind::Keyword(Keyword::I32),
            Kind::Symbol(Symbol::CloseParent),
            Kind::Symbol(Symbol::OpenBrace),
            Kind::Keyword(Keyword::Return),
            Kind::Ident("a".to_string()),
            Kind::Symbol(Symbol::Pow),
            Kind::Literal(Literal::NumLiteral(NumLiteral::I32(2))),
            Kind::Symbol(Symbol::Semicolon),
            Kind::Symbol(Symbol::CloseBrace),
        ]
    );
}

#[test]
fn rules_compose_with_the_combinators() {
    let mut st = source("ab,cd");
    let list = ident_str().skip(symbol()).and(ident_str());
    assert_eq!(list.analyze(&mut st), Ok(("ab".to_string(), "cd".to_string())));
}

#[test]
fn token_values_clone_and_compare() {
    let t = tok(Kind::Literal(Literal::String("s".to_string())), 1, 3);
    assert_eq!(t.clone(), t);
    assert_ne!(t, tok(Kind::Literal(Literal::Char('s')), 1, 3));
    assert_eq!(NumLiteral::F32("1.0".to_string()).clone(), NumLiteral::F32("1.0".to_string()));
    assert_eq!(Keyword::If.clone(), Keyword::If);
    assert_eq!(Symbol::Lt, Symbol::Lt);
}
