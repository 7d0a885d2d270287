use alto_syntax::scanner::{new, scan_all, scan_arrow, scan_id, skip, Cursor, ScanError};
use alto_syntax::token::{
    Id, Inst, InstKind, Keyword, KeywordKind, Punct, PunctKind, Symbol, SymbolKind, Token,
};
use alto_syntax::Span;

fn cursor(s: &str) -> Cursor {
    Cursor::new(s.chars().collect())
}

fn scan(s: &str) -> Vec<Result<Token, ScanError>> {
    let mut input = cursor(s);
    scan_all(&mut input)
}

fn span(start: usize, end: usize) -> Span {
    Span { start, end }
}

#[test]
fn keyword_fn() {
    let out = scan("fn");
    assert_eq!(
        out,
        vec![Ok(Token::Keyword(Keyword { span: span(0, 2), kind: KeywordKind::Fn }))]
    );
}

#[test]
fn comment_and_whitespace_elided() {
    let out = scan("  // hi\nret");
    assert_eq!(
        out,
        vec![Ok(Token::Inst(Inst { span: span(8, 11), kind: InstKind::Ret }))]
    );
}

#[test]
fn symbol_main() {
    let out = scan("@main");
    assert_eq!(
        out,
        vec![Ok(Token::Symbol(Symbol {
            span: span(0, 5),
            kind: SymbolKind::Id,
            value: vec!['@', 'm', 'a', 'i', 'n'],
        }))]
    );
}

#[test]
fn symbol_name_expected_at_end() {
    let out = scan("@");
    assert_eq!(out, vec![Err(ScanError::SymbolNameExpected { pos: 0 })]);
}

#[test]
fn invalid_symbol_name_digit() {
    let out = scan("@1");
    assert_eq!(out, vec![Err(ScanError::InvalidSymbolName { pos: 1 })]);
}

#[test]
fn unrecognized_character_then_resync() {
    let group = new();
    let mut input = cursor("$");
    let first = group.next_token(&mut input);
    assert_eq!(
        first,
        Some(Err(ScanError::UnrecognizedCharacter { pos: span(0, 1) }))
    );
    assert_eq!(input.pos(), 1);
    assert_eq!(group.next_token(&mut input), None);
}

#[test]
fn resync_after_errors() {
    let out = scan("$$a");
    assert_eq!(
        out,
        vec![
            Err(ScanError::UnrecognizedCharacter { pos: span(0, 1) }),
            Err(ScanError::UnrecognizedCharacter { pos: span(1, 2) }),
            Ok(Token::Id(Id { span: span(2, 3), value: vec!['a'] })),
        ]
    );
}

#[test]
fn mnemonic_is_case_insensitive() {
    for (src, end) in [("RET", 3), ("ret", 3), ("Ret", 3), ("reT", 3)] {
        let out = scan(src);
        assert_eq!(
            out,
            vec![Ok(Token::Inst(Inst { span: span(0, end), kind: InstKind::Ret }))],
            "input {src:?}"
        );
    }
}

#[test]
fn keyword_is_case_sensitive() {
    let out = scan("FN");
    assert_eq!(
        out,
        vec![Ok(Token::Id(Id { span: span(0, 2), value: vec!['F', 'N'] }))]
    );
    let out = scan("Fn");
    assert_eq!(
        out,
        vec![Ok(Token::Id(Id { span: span(0, 2), value: vec!['F', 'n'] }))]
    );
}

#[test]
fn arrow_token() {
    let out = scan("->");
    assert_eq!(
        out,
        vec![Ok(Token::Punct(Punct { span: span(0, 2), kind: PunctKind::Arrow }))]
    );
}

#[test]
fn dash_alone_is_not_arrow() {
    let out = scan("-x");
    assert_eq!(
        out,
        vec![
            Err(ScanError::UnrecognizedCharacter { pos: span(0, 1) }),
            Ok(Token::Id(Id { span: span(1, 2), value: vec!['x'] })),
        ]
    );
}

#[test]
fn stray_closing_angle_is_not_arrow() {
    let out = scan("x>");
    assert_eq!(
        out,
        vec![
            Ok(Token::Id(Id { span: span(0, 1), value: vec!['x'] })),
            Err(ScanError::UnrecognizedCharacter { pos: span(1, 2) }),
        ]
    );
}

#[test]
fn arrow_rule_leaves_cursor_on_no_match() {
    let mut input = cursor("-x");
    let r = scan_arrow(&mut input);
    assert_eq!(r, Err(ScanError::NoMatch));
    assert_eq!(input.pos(), 0);
}

#[test]
fn single_punctuation() {
    let out = scan("():");
    assert_eq!(
        out,
        vec![
            Ok(Token::Punct(Punct { span: span(0, 1), kind: PunctKind::OpenParen })),
            Ok(Token::Punct(Punct { span: span(1, 2), kind: PunctKind::CloseParen })),
            Ok(Token::Punct(Punct { span: span(2, 3), kind: PunctKind::Colon })),
        ]
    );
}

#[test]
fn underscore_identifier() {
    let out = scan("_foo");
    assert_eq!(
        out,
        vec![Ok(Token::Id(Id { span: span(0, 4), value: vec!['_', 'f', 'o', 'o'] }))]
    );
}

#[test]
fn symbol_with_underscore_start() {
    let out = scan("@_x");
    assert_eq!(
        out,
        vec![Ok(Token::Symbol(Symbol {
            span: span(0, 3),
            kind: SymbolKind::Id,
            value: vec!['@', '_', 'x'],
        }))]
    );
}

#[test]
fn symbol_name_expected_after_identifier() {
    let out = scan("a@");
    assert_eq!(
        out,
        vec![
            Ok(Token::Id(Id { span: span(0, 1), value: vec!['a'] })),
            Err(ScanError::SymbolNameExpected { pos: 1 }),
        ]
    );
}

#[test]
fn empty_input_yields_empty_stream() {
    assert_eq!(scan(""), vec![]);
}

#[test]
fn only_ignorable_text_yields_empty_stream() {
    assert_eq!(scan("   \t\n"), vec![]);
    assert_eq!(scan("// just a comment"), vec![]);
    assert_eq!(scan("  // a\n// b\n  "), vec![]);
}

#[test]
fn whitespace_prefix_span() {
    let out = scan("\t\n ret");
    assert_eq!(
        out,
        vec![Ok(Token::Inst(Inst { span: span(3, 6), kind: InstKind::Ret }))]
    );
}

#[test]
fn skip_advances_but_never_matches() {
    let mut input = cursor("  // c\n  fn");
    let r = skip(&mut input);
    assert_eq!(r, Err(ScanError::NoMatch));
    assert_eq!(input.pos(), 9);
}

#[test]
fn scan_id_stops_at_whitespace() {
    let mut input = cursor("abc def");
    let r = scan_id(&mut input).unwrap();
    assert_eq!(r, Id { span: span(0, 3), value: vec!['a', 'b', 'c'] });
    assert_eq!(input.pos(), 3);
}

#[test]
fn cursor_lookahead_and_stepping() {
    let mut input = cursor("ab");
    assert_eq!(input.peek(), Some('a'));
    assert_eq!(input.peek_nth(1), Some('b'));
    assert_eq!(input.peek_nth(2), None);
    assert_eq!(input.next(), Some('a'));
    assert_eq!(input.pos(), 1);
    assert_eq!(input.next(), Some('b'));
    assert_eq!(input.next(), None);
    assert_eq!(input.pos(), 2);
    assert!(input.at_end());
}

#[test]
fn cursor_nth_consumes_in_one_step() {
    let mut input = cursor("abcd");
    assert_eq!(input.nth(1), Some('b'));
    assert_eq!(input.pos(), 2);
    assert_eq!(input.nth(5), None);
    assert_eq!(input.pos(), 4);
}

#[test]
fn cursor_slice_copies_subrange() {
    let input = cursor("hello");
    assert_eq!(input.slice(1, 4), vec!['e', 'l', 'l']);
}

fn token_span(t: &Token) -> Span {
    match t {
        Token::Id(x) => x.span,
        Token::Symbol(x) => x.span,
        Token::Keyword(x) => x.span,
        Token::Punct(x) => x.span,
        Token::Inst(x) => x.span,
    }
}

#[test]
fn round_trip_spans_and_gaps_rebuild_text() {
    let src = "fn main() -> ret // trailing\n@end :";
    let chars: Vec<char> = src.chars().collect();
    let out = scan(src);
    let mut rebuilt = String::new();
    let mut from = 0usize;
    for item in &out {
        if let Ok(tok) = item {
            let sp = token_span(tok);
            assert!(from <= sp.start && sp.start <= sp.end && sp.end <= chars.len());
            rebuilt.extend(&chars[from..sp.start]);
            rebuilt.extend(&chars[sp.start..sp.end]);
            from = sp.end;
        }
    }
    rebuilt.extend(&chars[from..]);
    assert_eq!(rebuilt, src);
}

#[test]
fn spans_strictly_ordered_in_stream() {
    let src = "fn f(x: y) -> @z ret $ RET";
    let out = scan(src);
    let spans: Vec<Span> = out
        .iter()
        .filter_map(|item| item.as_ref().ok().map(token_span))
        .collect();
    assert!(spans.len() >= 8);
    for w in spans.windows(2) {
        assert!(w[0].end <= w[1].start);
    }
}

#[test]
fn stream_ends_with_cursor_at_end() {
    let src = "fn @a $ ret";
    let mut input = cursor(src);
    let out = scan_all(&mut input);
    assert_eq!(input.pos(), src.chars().count());
    assert!(out.iter().all(|item| !matches!(item, Err(ScanError::NoMatch))));
}

#[test]
fn is_no_match_distinguishes_errors() {
    assert!(ScanError::NoMatch.is_no_match());
    assert!(!ScanError::SymbolNameExpected { pos: 0 }.is_no_match());
    assert!(!ScanError::InvalidSymbolName { pos: 1 }.is_no_match());
    assert!(!ScanError::UnrecognizedCharacter { pos: Span { start: 0, end: 1 } }.is_no_match());
}

#[test]
fn unicode_identifier_offsets_are_character_counts() {
    let out = scan("déjà ret");
    assert_eq!(
        out,
        vec![
            Ok(Token::Id(Id { span: span(0, 4), value: vec!['d', 'é', 'j', 'à'] })),
            Ok(Token::Inst(Inst { span: span(5, 8), kind: InstKind::Ret })),
        ]
    );
}

#[test]
fn empty_group_never_matches() {
    let group = alto_syntax::scanner::Group::empty();
    let mut input = cursor("a");
    assert_eq!(group.next_token(&mut input), None);
    assert_eq!(input.pos(), 0);
}

#[test]
fn custom_group_runs_rules_in_registration_order() {
    let group = alto_syntax::scanner::Group::empty()
        .add(alto_syntax::scanner::Rule::Catchall)
        .add(alto_syntax::scanner::Rule::IdOrKeyword);
    let mut input = cursor("a");
    let r = group.next_token(&mut input);
    assert_eq!(r, Some(Err(ScanError::UnrecognizedCharacter { pos: span(0, 1) })));
    assert_eq!(input.pos(), 1);
}
