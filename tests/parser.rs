use emolang::ast::{Expression, Node, Statement};
use emolang::lexer::Lexer;
use emolang::parser::{get_operator_precedence, parse_decimal, Parser, Precedence};
use emolang::token::{Token, TokenType};

fn parse(source: &str) -> (Vec<String>, Vec<String>) {
    let mut lexer = Lexer::new(source);
    let mut parser = Parser::new(&mut lexer);
    let program = parser.parse_program();
    let statements = program.statements.iter().map(|s| s.string()).collect();
    (statements, parser.errors().clone())
}

#[test]
fn parser_test() {
    let source = String::from(
        "
        ㊙️🔢 ⬅️ 1️⃣ ➕  3️⃣⚪9️⃣ ✖️ 7️⃣2️⃣ ↙️
        ㊙️🔡 ⬅️ 🗨️🈶🅰️🈚🅱️🈲🆎💬 ↙️
        📛 🈯 🌜🅰️🦶 🅱️🌛 🫸
          🔙 ❓ 🅰️ ▶️ 🅱️ 🫸🅰️🫷 ❗ 🫸🅱️🫷 ↙️
        🫷
        ⬅️⏸️🌜❌🟰0️⃣◀️1️⃣🌛
            ",
    );
    let target_statements = vec![
        "㊙️🔢 ⬅️ 🌜1️⃣ ➕ 🌜3️⃣⚪9️⃣ ✖️ 7️⃣2️⃣🌛🌛 ↙️",
        "㊙️🔡 ⬅️ 🗨️🈶🅰️🈚🅱️🈲🆎💬 ↙️",
        "📛 🈯 🌜🅰️🦶 🅱️🌛 🫸 🔙 ❓ 🌜🅰️ ▶️ 🅱️🌛 🫸 🅰️ ↙️ 🫷 ❗ 🫸 🅱️ ↙️ 🫷 ↙️ 🫷 ↙️",
        "🌜⏸️🌜❌ 🟰 🌜0️⃣ ◀️ 1️⃣🌛🌛🌛 ↙️",
    ];
    let target_errors = vec!["Expected a expression, but got a ⬅️"];

    let mut lexer = Lexer::new(&source);
    let mut parser = Parser::new(&mut lexer);
    let program = parser.parse_program();

    assert_eq!(program.statements.len(), target_statements.len());
    assert_eq!(program.string(), target_statements.join(""));
    assert_eq!(parser.errors().len(), target_errors.len());
    assert_eq!(parser.errors(), &target_errors);
}

#[test]
fn integer_literal_value_is_its_decimal_reading() {
    let mut lexer = Lexer::new("4️⃣0️⃣2️⃣");
    let mut parser = Parser::new(&mut lexer);
    let program = parser.parse_program();
    match &program.statements[0] {
        Statement::Expression(s) => match &s.expression {
            Expression::Integer(l) => assert_eq!(l.value, 402),
            other => panic!("not an integer literal: {:?}", other),
        },
        other => panic!("not an expression statement: {:?}", other),
    }
}

#[test]
fn float_literal_value_is_the_nearest_double() {
    let mut lexer = Lexer::new("3️⃣⚪9️⃣");
    let mut parser = Parser::new(&mut lexer);
    let program = parser.parse_program();
    match &program.statements[0] {
        Statement::Expression(s) => match &s.expression {
            Expression::Float(l) => assert_eq!(l.value, 3.9f64.to_bits()),
            other => panic!("not a float literal: {:?}", other),
        },
        other => panic!("not an expression statement: {:?}", other),
    }
}

#[test]
fn integer_literal_too_large_is_a_parse_error() {
    let (statements, errors) = parse("9️⃣9️⃣9️⃣9️⃣9️⃣9️⃣9️⃣9️⃣9️⃣9️⃣9️⃣9️⃣9️⃣9️⃣9️⃣9️⃣9️⃣9️⃣9️⃣9️⃣");
    assert!(statements.is_empty());
    assert_eq!(errors, vec!["number too large to fit in target type"]);
}

#[test]
fn decimal_reading() {
    assert_eq!(parse_decimal("0"), Ok(0));
    assert_eq!(parse_decimal("9223372036854775807"), Ok(i64::MAX));
    assert!(parse_decimal("9223372036854775808").is_err());
    assert!(parse_decimal("").is_err());
    assert!(parse_decimal("1.5").is_err());
}

#[test]
fn products_bind_tighter_than_sums_and_prefixes_tightest() {
    let (statements, errors) = parse("➖8️⃣ ▶️🟰 ➖3️⃣⚪9️⃣ ✖️ 2️⃣");
    assert!(errors.is_empty());
    assert_eq!(statements, vec!["🌜🌜➖8️⃣🌛 ▶️🟰 🌜🌜➖3️⃣⚪9️⃣🌛 ✖️ 2️⃣🌛🌛 ↙️"]);
}

#[test]
fn operators_of_equal_precedence_group_to_the_left() {
    let (statements, _) = parse("1️⃣ ➖ 2️⃣ ➖ 3️⃣");
    assert_eq!(statements, vec!["🌜🌜1️⃣ ➖ 2️⃣🌛 ➖ 3️⃣🌛 ↙️"]);
}

#[test]
fn calls_while_loops_and_groups() {
    let (statements, errors) = parse("🈯🌜1️⃣🦶 🌜2️⃣ ➕ 3️⃣🌛🌛 ⭕ 🅰️ 🫸 🅰️ ⬅️ ❌ 🫷");
    assert!(errors.is_empty());
    assert_eq!(
        statements,
        vec!["🈯🌜1️⃣🦶 🌜2️⃣ ➕ 3️⃣🌛🌛 ↙️", "⭕ 🅰️ 🫸 🅰️ ⬅️ ❌ ↙️ 🫷 ↙️"]
    );
}

#[test]
fn unclosed_block_is_an_error() {
    let (_, errors) = parse("🫸 1️⃣");
    assert_eq!(errors, vec!["Expected a right brace"]);
}

#[test]
fn missing_right_parenthesis_is_an_error() {
    let (_, errors) = parse("🌜1️⃣ ➕ 2️⃣");
    assert_eq!(errors, vec!["Expected a right parenthesis"]);
}

#[test]
fn unterminated_string_is_a_parse_error() {
    let (statements, errors) = parse("🅰️ ⬅️ 🗨️🈶");
    assert!(statements.is_empty());
    assert_eq!(errors.len(), 1);
    assert!(errors[0].starts_with("Expected a expression, but got a "));
}

#[test]
fn function_parameters_need_commas() {
    let (_, errors) = parse("📛 🌜🅰️ 🅱️🌛 🫸 🅰️ 🫷");
    assert_eq!(errors[0], "Expected a comma, but got a 🅱️");
}

#[test]
fn operator_precedences() {
    let p = |t: TokenType| get_operator_precedence(&Token::from_str(t, ""));
    assert_eq!(p(TokenType::Or), Precedence::Or);
    assert_eq!(p(TokenType::And), Precedence::And);
    assert_eq!(p(TokenType::NotEqual), Precedence::Equals);
    assert_eq!(p(TokenType::LessThanOrEqual), Precedence::LessGreater);
    assert_eq!(p(TokenType::Minus), Precedence::Sum);
    assert_eq!(p(TokenType::Modulo), Precedence::Product);
    assert_eq!(p(TokenType::LParenthesis), Precedence::Call);
    assert_eq!(p(TokenType::Semicolon), Precedence::Lowest);
}

#[test]
fn printed_program_parses_back_to_the_same_text() {
    let source = "🅰️ ⬅️ 1️⃣ ➕ 2️⃣ ✖️ 3️⃣ ↙️ 📛 🈯 🌜🅰️🌛 🫸 🔙 🅰️ 🫷 ↙️ ❓ ✔️ 🫸 🗨️🈶💬 🫷 ❗ 🫸 0️⃣⚪5️⃣ 🫷";
    let (first, errors) = parse(source);
    assert!(errors.is_empty());
    let printed = first.join("");
    let (second, errors) = parse(&printed);
    assert!(errors.is_empty());
    assert_eq!(first, second);
}

#[test]
fn default_cursor_vector_is_empty() {
    let v: emolang::util::StatefulVector<u8> = Default::default();
    assert!(v.is_empty());
    assert!(v.current().is_none());
}

#[test]
fn cursor_vector_walks_both_ways() {
    let mut v = emolang::util::StatefulVector::from_vec(vec![1, 2, 3]);
    assert_eq!(v.current(), Some(&1));
    assert!(v.is_next_eq(&2));
    assert_eq!(v.to_next(), Some(&2));
    assert_eq!(v.to_next(), Some(&3));
    assert_eq!(v.to_next(), None);
    assert_eq!(v.to_previous(), Some(&2));
    assert_eq!(v.pop(), Some(3));
    assert_eq!(v.first(), Some(&1));
    assert_eq!(v.last(), Some(&2));
    assert_eq!(v.iter().copied().collect::<Vec<_>>(), vec![1, 2]);
}

#[test]
fn if_expression_error_messages() {
    let (_, errors) = parse("❓ ✔️ 1️⃣");
    assert_eq!(errors[0], "Expected a block statement after if-condition");
    let (_, errors) = parse("❓ ✔️ 🫸 1️⃣ 🫷 ❗ 2️⃣");
    assert_eq!(errors[0], "Expected a block statement after else");
    let (_, errors) = parse("❓ ✔️ 🫸 1️⃣ 🫷 ❗");
    assert_eq!(errors[0], "Expected a block statement after else");
}

#[test]
fn function_literal_error_messages() {
    let (_, errors) = parse("📛 🅰️ 🫸 🫷");
    assert_eq!(errors[0], "Expected a left parenthesis");
    let (_, errors) = parse("📛 🌜🅰️🌛 1️⃣");
    assert_eq!(errors[0], "Expected a left brace");
    let (_, errors) = parse("📛 🌜1️⃣🌛 🫸 🫷");
    assert_eq!(errors[0], "Expected a identifier, but got a 1");
    let (_, errors) = parse("📛 🌜🅰️");
    assert_eq!(errors[0], "Expected a right parenthesis");
}

#[test]
fn operator_at_the_end_is_an_error() {
    let (_, errors) = parse("1️⃣ ➕");
    assert_eq!(errors, vec!["Expected a expression after operator ➕"]);
    let (_, errors) = parse("🅰️ ⬅️");
    assert_eq!(errors, vec!["Expected a expression after ⬅️"]);
}
