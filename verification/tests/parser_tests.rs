use yharnam::compiler::compile_string;
use yharnam::parser::lexer::{Lexer, LexerError};
use yharnam::parser::token::Token;
use yharnam::parser::{parse_string, tokenize, ParseError};

#[test]
fn test_compile() {
    let src = r#"
title: test
---
//blah
===
"#;
    let (program, string_table) = compile_string(src).unwrap();
    assert!(program.nodes.contains_key(" test"));
    assert_eq!(program.nodes.len(), 1);
    let node = program.nodes.get(" test").unwrap();
    assert_eq!(node.name, " test");
    assert_eq!(node.name.trim(), "test");
    assert!(node.instructions.is_empty());
    assert!(node.tags.is_empty());
    assert!(node.labels.is_empty());
    assert!(string_table.is_empty());
}

#[test]
fn test_parse() {
    let src = r#"
title: test
---
//blah
===
"#;
    let dialogue = parse_string(src).unwrap();
    assert_eq!(dialogue.nodes.len(), 1);
    assert_eq!(dialogue.nodes[0].headers.len(), 1);
    assert_eq!(dialogue.nodes[0].headers[0].key, "title");
    assert_eq!(dialogue.nodes[0].headers[0].value, " test");
    assert!(dialogue.nodes[0].body.statements.is_empty());
}

#[test]
fn test_lexer() {
    let src = r#"
title: test
---
===
"#;
    let mut lex = Lexer::new(src);
    let mut seen = Vec::new();
    while let Some(res) = lex.next() {
        seen.push(format!("{:?}", res));
    }
    assert_eq!(
        seen,
        vec![
            "Ok((1, Identifier(\"title\"), 6))",
            "Ok((6, HeaderDelimiter, 7))",
            "Ok((7, HeaderValue(\" test\"), 12))",
            "Ok((12, NewLine, 13))",
            "Ok((13, BodyStart, 16))",
            "Ok((16, NewLine, 17))",
            "Ok((17, BodyEnd, 20))",
            "Ok((20, NewLine, 21))",
        ]
    );
}

#[test]
fn lexer_passes_over_comments_and_empty_lines() {
    let tokens = tokenize("\n\n  // nothing here\n\nname:x\n").unwrap();
    assert_eq!(tokens.len(), 4);
    assert!(matches!(&tokens[0], Token::Identifier(name) if name == "name"));
    assert!(matches!(&tokens[1], Token::HeaderDelimiter));
    assert!(matches!(&tokens[2], Token::HeaderValue(value) if value == "x"));
    assert!(matches!(&tokens[3], Token::NewLine));
}

#[test]
fn lexer_rejects_what_it_cannot_read() {
    let mut lex = Lexer::new("?");
    assert!(matches!(lex.next(), Some(Err(LexerError::UnexpectedCharacter('?')))));
    let mut lex = Lexer::new("a:b\n--");
    lex.next();
    lex.next();
    lex.next();
    lex.next();
    assert!(matches!(lex.next(), Some(Err(LexerError::UnexpectedEnd))));
    let mut lex = Lexer::new("-x-");
    assert!(matches!(lex.next(), Some(Err(LexerError::UnexpectedCharacter('x')))));
    assert_eq!(lex.position, 2);
}

#[test]
fn lexer_methods_move_through_the_source() {
    let mut lex = Lexer::new("ab_1 c\nrest");
    assert_eq!(lex.bump(), Some((0, 'a')));
    assert!(lex.test_lookahead(|c| c == 'b'));
    assert!(!lex.test_lookahead(|c| c == 'a'));
    let (end, name) = lex.identifier(0);
    assert_eq!((end, name.as_str()), (4, "ab_1"));
    let (end, rest) = lex.rest_of_line(4, true);
    assert_eq!((end, rest.as_str()), (6, " c"));
    assert_eq!(lex.slice(7, 11), "rest");
    lex.bump();
    lex.line_comment();
    assert_eq!(lex.position, 11);
    assert_eq!(lex.eof_location, Some(11));
    assert_eq!(lex.bump(), None);
    assert!(!lex.test_lookahead(|_| true));
}

#[test]
fn parser_reads_headers_and_nodes() {
    let dialogue = parse_string("title: a\ntags: x y\n---\n===\n").unwrap();
    assert_eq!(dialogue.nodes.len(), 1);
    let headers = &dialogue.nodes[0].headers;
    assert_eq!(headers.len(), 2);
    assert_eq!((headers[1].key.as_str(), headers[1].value.as_str()), ("tags", " x y"));
    assert_eq!(parse_string("").unwrap().nodes.len(), 0);
}

#[test]
fn parser_rejects_what_is_out_of_order() {
    assert_eq!(parse_string("title\n---\n===\n").err(), Some(ParseError::Syntax));
    assert_eq!(parse_string("title: a\n---\n").err(), Some(ParseError::Syntax));
    assert_eq!(parse_string("title: a\n").err(), Some(ParseError::Syntax));
    assert_eq!(
        parse_string("title: a\n---\nbody\n===\n").err(),
        Some(ParseError::Lexer(LexerError::UnexpectedCharacter('b')))
    );
    assert_eq!(
        parse_string("%").err(),
        Some(ParseError::Lexer(LexerError::UnexpectedCharacter('%')))
    );
}

#[test]
fn compiler_names_nodes_by_their_last_title() {
    let (program, _) = compile_string("title:a\ntitle:b\n---\n===\n").unwrap();
    assert!(program.nodes.contains_key("b"));
    assert!(!program.nodes.contains_key("a"));
    let (program, _) = compile_string("tags:a\n---\n===\n").unwrap();
    assert!(program.nodes.contains_key(""));
    assert_eq!(program.nodes.get("").unwrap().instructions.len(), 0);
}

#[test]
fn places_count_bytes() {
    let src = "a:\u{e9}\u{4e2d}\u{1f600}\n// \u{e9}\nb:c\n";
    let mut lex = Lexer::new(src);
    let mut spans = Vec::new();
    while let Some(Ok((start, token, end))) = lex.next() {
        assert_eq!(
            match &token {
                Token::Identifier(text) | Token::HeaderValue(text) => text.as_str(),
                Token::HeaderDelimiter => ":",
                Token::NewLine => "\n",
                Token::BodyStart => "---",
                Token::BodyEnd => "===",
            },
            &src[start..end]
        );
        spans.push((start, end));
    }
    assert_eq!(
        spans,
        vec![(0, 1), (1, 2), (2, 11), (11, 12), (18, 19), (19, 20), (20, 21), (21, 22)]
    );
    assert_eq!(lex.eof_location, Some(src.len()));
    assert_eq!(lex.slice(2, 4), "\u{e9}");
    assert_eq!(lex.slice(4, 11), "\u{4e2d}\u{1f600}");
    assert_eq!(lex.slice(src.len(), src.len()), "");
}
