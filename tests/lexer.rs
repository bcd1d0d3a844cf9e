use themer::lexer::Lexer;
use themer::token::Token;

fn eval(buf: &str, tokens: &[Token]) {
    let mut lexer = Lexer::new(buf);
    for token in tokens.iter() {
        assert_eq!(lexer.next_token().as_ref(), Some(token));
    }
    assert_eq!(lexer.next_token(), None);
}

#[test]
fn simple() {
    eval(
        "colors { cursor black }",
        &[
            Token::Ident("colors".into()),
            Token::LBrace,
            Token::Ident("cursor".into()),
            Token::Ident("black".into()),
            Token::RBrace,
        ],
    );
}

#[test]
fn complex() {
    eval(
        "colors {
                cursor black
                foreground #ffff00
            }
            desktop {
                method \"feh\"
                file /path/to/background
                path \"/another/path\"
            }
            ",
        &[
            Token::Ident("colors".into()),
            Token::LBrace,
            Token::Ident("cursor".into()),
            Token::Ident("black".into()),
            Token::Ident("foreground".into()),
            Token::Hex("ffff00".into()),
            Token::RBrace,
            Token::Ident("desktop".into()),
            Token::LBrace,
            Token::Ident("method".into()),
            Token::Str("feh".into()),
            Token::Ident("file".into()),
            Token::Path("/path/to/background".into()),
            Token::Ident("path".into()),
            Token::Path("/another/path".into()),
            Token::RBrace,
        ],
    );
}

#[test]
fn path_with_escaped_space() {
    eval(
        "~/my\\ dir/file next",
        &[Token::Path("~/my dir/file".into()), Token::Ident("next".into())],
    );
}

#[test]
fn quoted_string_with_escaped_quote() {
    eval("\"say \\\"hi\\\"\"", &[Token::Str("say \"hi\"".into())]);
}

#[test]
fn unterminated_string_runs_to_end() {
    eval("\"open text", &[Token::Str("open text".into())]);
}

#[test]
fn numbers_punctuation_and_underscores() {
    eval(
        "rgb(10, 200)\tbright_red",
        &[
            Token::Ident("rgb".into()),
            Token::LParen,
            Token::Number("10".into()),
            Token::Comma,
            Token::Number("200".into()),
            Token::RParen,
            Token::Ident("bright_red".into()),
        ],
    );
}

#[test]
fn unicode_letters_and_whitespace() {
    eval(
        "été\u{3000}x",
        &[Token::Ident("ét".into()), Token::Ident("é".into()), Token::Ident("x".into())],
    );
}

#[test]
fn unknown_character_ends_the_stream() {
    eval("a ; b", &[Token::Ident("a".into())]);
}

#[test]
fn hex_token_stops_at_non_hex() {
    eval("#12fG", &[Token::Hex("12f".into()), Token::Ident("G".into())]);
}

#[test]
fn hex_token_takes_ascii_digits_only() {
    eval("#1\u{663}", &[Token::Hex("1".into()), Token::Number("\u{663}".into())]);
}
