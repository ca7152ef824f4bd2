use yul_lexer::{parse, Base, LiteralKind, Token, TokenKind};

fn int_literal(base: Base, value: &str) -> Token {
    Token::new(
        TokenKind::Literal {
            kind: LiteralKind::Int { base },
            value: value.to_string(),
        },
        value.chars().count(),
    )
}

fn total(tokens: &[Token]) -> usize {
    tokens.iter().map(|t| t.len).sum()
}

#[test]
fn parse_comment() {
    assert_eq!(
        parse("// comment"),
        vec![Token {
            kind: TokenKind::LineComment,
            len: 10,
        }]
    );

    // A block comment counts its body and one more: the closing `*/` and
    // one character of the opening `/*` are left out.
    assert_eq!(
        parse("/* comment */"),
        vec![Token {
            kind: TokenKind::BlockComment,
            len: 10,
        }]
    );
}

#[test]
fn parse_whitespace() {
    // The line feed is a token of its own.
    assert_eq!(
        parse(" \t\r\n"),
        vec![
            Token {
                kind: TokenKind::Whitespace,
                len: 3,
            },
            Token {
                kind: TokenKind::Newline,
                len: 1,
            }
        ]
    );
}

#[test]
fn parse_identifier() {
    assert_eq!(
        parse("0xffff"),
        vec![Token::new(
            TokenKind::Literal {
                kind: LiteralKind::Int {
                    base: Base::Hexadecimal
                },
                value: "0xffff".to_string(),
            },
            6
        )]
    );
}

#[test]
fn parse_semicolon() {
    assert_eq!(
        parse(";"),
        vec![Token {
            kind: TokenKind::Semi,
            len: 1,
        }]
    );
}

#[test]
fn parse_comma() {
    assert_eq!(
        parse(","),
        vec![Token {
            kind: TokenKind::Comma,
            len: 1,
        }]
    );
}

#[test]
fn parse_dot() {
    assert_eq!(
        parse("."),
        vec![Token {
            kind: TokenKind::Dot,
            len: 1,
        }]
    );
}

#[test]
fn parse_open_parenthesis() {
    assert_eq!(
        parse("("),
        vec![Token {
            kind: TokenKind::OpenParenthesis,
            len: 1,
        }]
    );
}

#[test]
fn parse_close_parenthesis() {
    assert_eq!(
        parse(")"),
        vec![Token {
            kind: TokenKind::CloseParenthesis,
            len: 1,
        }]
    );
}

#[test]
fn parse_open_brace() {
    assert_eq!(
        parse("{"),
        vec![Token {
            kind: TokenKind::OpenBrace,
            len: 1,
        }]
    );
}

#[test]
fn parse_close_brace() {
    assert_eq!(
        parse("}"),
        vec![Token {
            kind: TokenKind::CloseBrace,
            len: 1,
        }]
    );
}

#[test]
fn parse_open_bracket() {
    assert_eq!(
        parse("["),
        vec![Token {
            kind: TokenKind::OpenBracket,
            len: 1,
        }]
    );
}

#[test]
fn parse_close_bracket() {
    assert_eq!(
        parse("]"),
        vec![Token {
            kind: TokenKind::CloseBracket,
            len: 1,
        }]
    );
}

#[test]
fn parse_string() {
    // A string literal counts its text only, not its quotes.
    assert_eq!(
        parse("\"hello\""),
        vec![Token::new(
            TokenKind::Literal {
                kind: LiteralKind::String,
                value: "hello".to_string(),
            },
            5
        )]
    );
}

#[test]
fn parse_int() {
    assert_eq!(
        parse("0xffff"),
        vec![Token::new(
            TokenKind::Literal {
                kind: LiteralKind::Int {
                    base: Base::Hexadecimal
                },
                value: "0xffff".to_string(),
            },
            6
        )]
    );
}

#[test]
fn parse_int_base_10() {
    assert_eq!(
        parse("255"),
        vec![Token::new(
            TokenKind::Literal {
                kind: LiteralKind::Int {
                    base: Base::Decimal
                },
                value: "255".to_string(),
            },
            3
        )]
    );
}

#[test]
fn parse_full() {
    let input = r#"
object "Contract" {
    code {
        datacopy(0, dataoffset("runtime"), datasize("runtime"))
        return(0, datasize("runtime"))
    }
    object "runtime" {
        code {
            switch shr(0xf8, calldataload(0))
            // calldata shifted by 248 bits to the right
            // is equivalent of the byte slice calldata[0:1]
            case 0x00 {
                mstore(0, "Hello, World")
                return(0, 0x20)
            }
            default { 
                revert(0, 0)
            }
        }
    }
}
"#;
    println!("{:?}", parse(input));
}

#[test]
fn empty_source_has_no_tokens() {
    assert_eq!(parse(""), vec![]);
}

#[test]
fn tokenizing_twice_agrees() {
    let input = "code { mstore(0, 0x20) } // done";
    assert_eq!(parse(input), parse(input));
}

#[test]
fn token_count_never_exceeds_characters() {
    for input in ["", "a", "ab cd", "(((", "\"\"", "/**/", "0x1x2"] {
        assert!(parse(input).len() <= input.chars().count());
        assert!(total(&parse(input)) <= input.chars().count());
    }
}

#[test]
fn unrecognised_characters_alone() {
    for input in ["/", "#", "@", "-", "é", "_", "*"] {
        assert_eq!(
            parse(input),
            vec![Token::new(TokenKind::InvalidIdentifier, 1)],
            "input {:?}",
            input
        );
    }
}

#[test]
fn lengths_cover_source_without_strings_or_block_comments() {
    let input = "object x {\n\tcode { mstore(0, 0x20) }\r\n} // end\n[a.b];";
    let tokens = parse(input);
    assert_eq!(total(&tokens), input.chars().count());
}

#[test]
fn strings_and_block_comments_leave_out_delimiters() {
    assert_eq!(total(&parse("\"ab\" /* c */")), 12 - 2 - 3);
}

#[test]
fn slash_followed_by_other_character() {
    assert_eq!(
        parse("/a"),
        vec![
            Token::new(TokenKind::InvalidIdentifier, 1),
            Token::new(TokenKind::Identifier, 1)
        ]
    );
}

#[test]
fn line_comment_stops_before_line_feed() {
    assert_eq!(
        parse("// a\nb"),
        vec![
            Token::new(TokenKind::LineComment, 4),
            Token::new(TokenKind::Newline, 1),
            Token::new(TokenKind::Identifier, 1)
        ]
    );
}

#[test]
fn unterminated_block_comment_runs_to_end() {
    assert_eq!(
        parse("/* abc"),
        vec![Token::new(TokenKind::BlockComment, 5)]
    );
    assert_eq!(parse("/**/"), vec![Token::new(TokenKind::BlockComment, 1)]);
    assert_eq!(
        parse("/* a*b */;"),
        vec![
            Token::new(TokenKind::BlockComment, 6),
            Token::new(TokenKind::Semi, 1)
        ]
    );
}

#[test]
fn unterminated_string_runs_to_end() {
    assert_eq!(
        parse("\"ab"),
        vec![Token::new(
            TokenKind::Literal {
                kind: LiteralKind::String,
                value: "ab".to_string(),
            },
            2
        )]
    );
    assert_eq!(
        parse("\"\""),
        vec![Token::new(
            TokenKind::Literal {
                kind: LiteralKind::String,
                value: String::new(),
            },
            0
        )]
    );
}

#[test]
fn number_takes_one_x_and_hex_letters() {
    assert_eq!(
        parse("0x1x2"),
        vec![int_literal(Base::Hexadecimal, "0x1"), Token::new(TokenKind::Identifier, 1), int_literal(Base::Decimal, "2")]
    );
    // Hex letters without an `x` stay in a decimal literal.
    assert_eq!(parse("12ab"), vec![int_literal(Base::Decimal, "12ab")]);
    assert_eq!(
        parse("7;"),
        vec![int_literal(Base::Decimal, "7"), Token::new(TokenKind::Semi, 1)]
    );
}

#[test]
fn identifier_is_a_run_of_letters() {
    assert_eq!(
        parse("abc;XyZ1"),
        vec![
            Token::new(TokenKind::Identifier, 3),
            Token::new(TokenKind::Semi, 1),
            Token::new(TokenKind::Identifier, 3),
            int_literal(Base::Decimal, "1")
        ]
    );
}

#[test]
fn whitespace_run_then_token() {
    assert_eq!(
        parse("  \t x"),
        vec![
            Token::new(TokenKind::Whitespace, 4),
            Token::new(TokenKind::Identifier, 1)
        ]
    );
    assert_eq!(
        parse("\n\n"),
        vec![Token::new(TokenKind::Newline, 1), Token::new(TokenKind::Newline, 1)]
    );
}

#[test]
fn reserved_bases_are_representable() {
    let kinds = [Base::Binary, Base::Octal, Base::Decimal, Base::Hexadecimal];
    assert!(kinds[0] < kinds[1] && kinds[1] < kinds[2] && kinds[2] < kinds[3]);
}
