use emolang::lexer::{is_identifier_char, Lexer};
use emolang::token::{Token, TokenType};

fn tokens_of(source: &str) -> Vec<Token> {
    let mut lexer = Lexer::new(source);
    lexer.tokenize().to_vec()
}

#[test]
fn lexer_test() {
    let source = String::from(
        "
        ㊙️🔢 ⬅️ 3️⃣⚪9️⃣ ✖️ 2️⃣ ↙️
        ㊙️🔡 ⬅️ 🗨️🈶🅰️🈚🅱️🈲🆎💬 ↙️
        📛 🈯 🌜🅰️🦶 🅱️🌛 🫸
          ⭕ 🅰️ ▶️🟰 0️⃣ 🔁 🅱️ ◀️🟰 5️⃣ 🫸
            🅰️ ⬅️ 🅰️ ➕ 🅱️ ↙️
            🅱️ ⬅️ 🅱️ ➖ 🅰️ ↙️
          🫷
          🔙 ❓ 🅰️ ▶️ 🅱️ 🫸🅰️🫷 ❗ 🫸🅱️🫷 ↙️
        🫷
        🅰️🅱️
        ",
    );
    let target = vec![
        Token::start(),
        Token::from_str(TokenType::Identifier, "㊙️🔢"),
        Token::from_str(TokenType::Assign, "⬅️"),
        Token::from_str(TokenType::Float, "3.9"),
        Token::from_str(TokenType::Multiply, "✖️"),
        Token::from_str(TokenType::Integer, "2"),
        Token::from_str(TokenType::Semicolon, "↙️"),
        Token::from_str(TokenType::Identifier, "㊙️🔡"),
        Token::from_str(TokenType::Assign, "⬅️"),
        Token::from_str(TokenType::String, "🈶🅰️🈚🅱️🈲🆎"),
        Token::from_str(TokenType::Semicolon, "↙️"),
        Token::from_str(TokenType::Function, "📛"),
        Token::from_str(TokenType::Identifier, "🈯"),
        Token::from_str(TokenType::LParenthesis, "🌜"),
        Token::from_str(TokenType::Identifier, "🅰️"),
        Token::from_str(TokenType::Comma, "🦶"),
        Token::from_str(TokenType::Identifier, "🅱️"),
        Token::from_str(TokenType::RParenthesis, "🌛"),
        Token::from_str(TokenType::LBrace, "🫸"),
        Token::from_str(TokenType::While, "⭕"),
        Token::from_str(TokenType::Identifier, "🅰️"),
        Token::from_str(TokenType::GreaterThanOrEqual, "▶️🟰"),
        Token::from_str(TokenType::Integer, "0"),
        Token::from_str(TokenType::And, "🔁"),
        Token::from_str(TokenType::Identifier, "🅱️"),
        Token::from_str(TokenType::LessThanOrEqual, "◀️🟰"),
        Token::from_str(TokenType::Integer, "5"),
        Token::from_str(TokenType::LBrace, "🫸"),
        Token::from_str(TokenType::Identifier, "🅰️"),
        Token::from_str(TokenType::Assign, "⬅️"),
        Token::from_str(TokenType::Identifier, "🅰️"),
        Token::from_str(TokenType::Plus, "➕"),
        Token::from_str(TokenType::Identifier, "🅱️"),
        Token::from_str(TokenType::Semicolon, "↙️"),
        Token::from_str(TokenType::Identifier, "🅱️"),
        Token::from_str(TokenType::Assign, "⬅️"),
        Token::from_str(TokenType::Identifier, "🅱️"),
        Token::from_str(TokenType::Minus, "➖"),
        Token::from_str(TokenType::Identifier, "🅰️"),
        Token::from_str(TokenType::Semicolon, "↙️"),
        Token::from_str(TokenType::RBrace, "🫷"),
        Token::from_str(TokenType::Return, "🔙"),
        Token::from_str(TokenType::If, "❓"),
        Token::from_str(TokenType::Identifier, "🅰️"),
        Token::from_str(TokenType::GreaterThan, "▶️"),
        Token::from_str(TokenType::Identifier, "🅱️"),
        Token::from_str(TokenType::LBrace, "🫸"),
        Token::from_str(TokenType::Identifier, "🅰️"),
        Token::from_str(TokenType::RBrace, "🫷"),
        Token::from_str(TokenType::Else, "❗"),
        Token::from_str(TokenType::LBrace, "🫸"),
        Token::from_str(TokenType::Identifier, "🅱️"),
        Token::from_str(TokenType::RBrace, "🫷"),
        Token::from_str(TokenType::Semicolon, "↙️"),
        Token::from_str(TokenType::RBrace, "🫷"),
        Token::from_str(TokenType::Identifier, "🅰️🅱️"),
    ];
    let mut lexer = Lexer::new(&source);
    assert_eq!(lexer.tokenize().to_vec(), target);
}

#[test]
fn empty_source_gives_only_the_start_token() {
    assert_eq!(tokens_of(""), vec![Token::start()]);
    assert_eq!(tokens_of(" \t\r\n"), vec![Token::start()]);
}

#[test]
fn unterminated_string_is_an_illegal_token() {
    assert_eq!(
        tokens_of("🗨️🈶🅰️"),
        vec![Token::start(), Token::from_str(TokenType::Illegal, "🗨️🈶🅰️")]
    );
}

#[test]
fn empty_string_literal() {
    assert_eq!(
        tokens_of("🗨️💬"),
        vec![Token::start(), Token::from_str(TokenType::String, "")]
    );
}

#[test]
fn two_glyph_operators_and_their_first_glyphs() {
    assert_eq!(
        tokens_of("❗🟰 ❗ ◀️ ▶️"),
        vec![
            Token::start(),
            Token::from_str(TokenType::NotEqual, "❗🟰"),
            Token::from_str(TokenType::Else, "❗"),
            Token::from_str(TokenType::LessThan, "◀️"),
            Token::from_str(TokenType::GreaterThan, "▶️"),
        ]
    );
}

#[test]
fn every_dot_glyph_marks_the_decimal_point_once() {
    assert_eq!(
        tokens_of("1️⃣🔴5️⃣"),
        vec![Token::start(), Token::from_str(TokenType::Float, "1.5")]
    );
    assert_eq!(
        tokens_of("1️⃣⚪2️⃣⚪3️⃣"),
        vec![
            Token::start(),
            Token::from_str(TokenType::Float, "1.2"),
            Token::from_str(TokenType::Illegal, "⚪"),
            Token::from_str(TokenType::Integer, "3"),
        ]
    );
}

#[test]
fn reserved_glyphs_without_a_kind_are_illegal() {
    assert_eq!(
        tokens_of("#️⃣ 💬"),
        vec![
            Token::start(),
            Token::from_str(TokenType::Illegal, "#️⃣"),
            Token::from_str(TokenType::Illegal, "💬"),
        ]
    );
}

#[test]
fn crlf_is_one_space_glyph() {
    assert_eq!(
        tokens_of("🅰️\r\n🅱️"),
        vec![
            Token::start(),
            Token::from_str(TokenType::Identifier, "🅰️"),
            Token::from_str(TokenType::Identifier, "🅱️"),
        ]
    );
}

#[test]
fn identifier_glyphs() {
    assert!(is_identifier_char("🅰️"));
    assert!(is_identifier_char("x"));
    assert!(!is_identifier_char("➕"));
    assert!(!is_identifier_char("7️⃣"));
    assert!(!is_identifier_char("⚫"));
    assert!(!is_identifier_char(" "));
}

#[test]
fn glyphs_split_beforehand_scan_alike() {
    let glyphs = vec!["🅰️", " ", "◀️", "🟰", "1️⃣", "⚫", "5️⃣"];
    let mut lexer = Lexer::from_graphemes(glyphs);
    assert_eq!(
        lexer.tokenize().to_vec(),
        vec![
            Token::start(),
            Token::from_str(TokenType::Identifier, "🅰️"),
            Token::from_str(TokenType::LessThanOrEqual, "◀️🟰"),
            Token::from_str(TokenType::Float, "1.5"),
        ]
    );
}

#[test]
fn keycap_sequences_are_single_glyphs() {
    // the digit, the selector and the keycap mark make one glyph, not three
    assert_eq!(
        tokens_of("1️⃣2️⃣"),
        vec![Token::start(), Token::from_str(TokenType::Integer, "12")]
    );
}
