use dayum::lexer::scan::{scannable, Scanner};
use dayum::lexer::{Token, TokenType};

fn scan(src: &str) -> Vec<Token<'_>> {
    let mut scanner = Scanner::new(src);
    let mut tokens = Vec::new();
    while let Some(t) = scanner.next() {
        if t.token_type == TokenType::EndOfFile {
            break;
        }
        tokens.push(t);
    }
    tokens
}

#[test]
fn it_works() {
    let mut scanner = Scanner::new("1 2.32 3 - == != \n>= // string \"string\" struct");

    let t = scanner.next().unwrap();
    assert_eq!(t.token_type, TokenType::IntegerLiteral);
    assert_eq!(t.lexeme, "1");

    let t = scanner.next().unwrap();
    assert_eq!(t.token_type, TokenType::FloatLiteral);
    assert_eq!(t.lexeme, "2.32");

    let t = scanner.next().unwrap();
    assert_eq!(t.token_type, TokenType::IntegerLiteral);
    assert_eq!(t.lexeme, "3");

    let t = scanner.next().unwrap();
    assert_eq!(t.token_type, TokenType::OpMinus);
    assert_eq!(t.lexeme, "-");

    let t = scanner.next().unwrap();
    assert_eq!(t.token_type, TokenType::OpEqualEqual);
    assert_eq!(t.lexeme, "==");

    let t = scanner.next().unwrap();
    assert_eq!(t.token_type, TokenType::OpNotEqual);
    assert_eq!(t.lexeme, "!=");
    assert_eq!(t.line, 0);

    let t = scanner.next().unwrap();
    assert_eq!(t.token_type, TokenType::OpGreaterEqual);
    assert_eq!(t.lexeme, ">=");
    assert_eq!(t.line, 1);

    let t = scanner.next().unwrap();
    assert_eq!(t.token_type, TokenType::SlashSlash);
    assert_eq!(t.lexeme, "//");

    let t = scanner.next().unwrap();
    assert_eq!(t.token_type, TokenType::Identifier);
    assert_eq!(t.lexeme, "string");

    let t = scanner.next().unwrap();
    assert_eq!(t.token_type, TokenType::StringLiteral);
    assert_eq!(t.lexeme, "\"string\"");

    let t = scanner.next().unwrap();
    assert_eq!(t.token_type, TokenType::KwStruct);
    assert_eq!(t.lexeme, "struct");

    let t = scanner.next().unwrap();
    assert_eq!(t.token_type, TokenType::EndOfFile);

    let end = scanner.next();
    assert_eq!(end.is_none(), true);
}

#[test]
fn lexer_positions_restart_on_new_line() {
    let tokens = scan("int x;\n  y");
    assert_eq!(tokens.len(), 4);
    assert_eq!((tokens[0].line, tokens[0].pos), (0, 1));
    assert_eq!((tokens[1].line, tokens[1].pos), (0, 5));
    assert_eq!((tokens[2].line, tokens[2].pos), (0, 6));
    assert_eq!(tokens[3].token_type, TokenType::Identifier);
    assert_eq!((tokens[3].line, tokens[3].pos), (1, 3));
}

#[test]
fn lexer_keywords_and_punctuation() {
    let tokens = scan("void main() { return true; }");
    let types: Vec<TokenType> = tokens.iter().map(|t| t.token_type).collect();
    assert_eq!(
        types,
        vec![
            TokenType::KwVoid,
            TokenType::Identifier,
            TokenType::Lparen,
            TokenType::Rparen,
            TokenType::Lbrace,
            TokenType::KwReturn,
            TokenType::KwTrue,
            TokenType::Semicolon,
            TokenType::Rbrace,
        ]
    );
}

#[test]
fn lexer_two_character_operators() {
    let tokens = scan("<= >= && || < >");
    let types: Vec<TokenType> = tokens.iter().map(|t| t.token_type).collect();
    assert_eq!(
        types,
        vec![
            TokenType::OpLessEqual,
            TokenType::OpGreaterEqual,
            TokenType::OpLogAnd,
            TokenType::OpLogOr,
            TokenType::OpLess,
            TokenType::OpGreater,
        ]
    );
}

#[test]
fn lexer_empty_and_blank_input_give_only_end_of_file() {
    assert!(scan("").is_empty());
    assert!(scan("  \n\t ").is_empty());
    let mut scanner = Scanner::new("  \n\t ");
    let t = scanner.next().unwrap();
    assert_eq!(t.token_type, TokenType::EndOfFile);
    assert_eq!(t.lexeme, "");
    assert_eq!((t.line, t.pos), (1, 3));
    assert!(scanner.next().is_none());
    assert!(scanner.next().is_none());
}

#[test]
fn lexer_errors_give_none_and_scanning_goes_on() {
    let mut scanner = Scanner::new("1.2.3 x");
    assert!(scanner.next().is_none());
    let mut scanner = Scanner::new("# x");
    assert!(scanner.next().is_none());
    let t = scanner.next().unwrap();
    assert_eq!(t.token_type, TokenType::Identifier);
    assert_eq!(t.lexeme, "x");
    let mut scanner = Scanner::new("\"open");
    assert!(scanner.next().is_none());
    assert_eq!(scanner.next().unwrap().token_type, TokenType::EndOfFile);
}

#[test]
fn scannable_checks_ascii_and_lines() {
    assert!(scannable("int x;"));
    assert!(!scannable("int é;"));
    let many = "\n".repeat(65535);
    assert!(scannable(&many));
    let too_many = "\n".repeat(65536);
    assert!(!scannable(&too_many));
}

#[test]
fn tokens_with_the_same_text_are_equal() {
    let a = scan("x + x");
    assert_eq!(a[0], a[2]);
    assert_ne!(a[0], a[1]);
    assert_ne!(a[0].pos, a[2].pos);
}

#[test]
fn tokens_and_blanks_cover_the_source_in_order() {
    let src = "int main() {\n\treturn a1 >= 2.5 || \"s t\";\r\n}  \n";
    let tokens = scan(src);
    let base = src.as_ptr() as usize;
    let mut at = 0;
    for t in &tokens {
        let start = t.lexeme.as_ptr() as usize - base;
        assert!(!t.lexeme.is_empty());
        assert!(start >= at);
        assert!(src[at..start].chars().all(|c| c == ' ' || c == '\t' || c == '\r' || c == '\n'));
        at = start + t.lexeme.len();
    }
    assert!(src[at..].chars().all(|c| c == ' ' || c == '\t' || c == '\r' || c == '\n'));
    let joined: String = tokens.iter().map(|t| t.lexeme).collect::<Vec<_>>().join("");
    let squeezed: String = src.chars().filter(|c| !matches!(c, ' ' | '\t' | '\r' | '\n')).collect();
    assert_eq!(joined, squeezed.replace("st", "s t"));
}

#[test]
fn token_lines_and_columns_are_their_places() {
    let tokens = scan("a\n  bb c\n\n   d");
    let places: Vec<(u16, usize)> = tokens.iter().map(|t| (t.line, t.pos)).collect();
    assert_eq!(places, vec![(0, 1), (1, 3), (1, 6), (3, 4)]);
}
