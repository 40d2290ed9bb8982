use emolang::evaluator::{eval, eval_infix_expression};
use emolang::lexer::Lexer;
use emolang::object::{Environment, Object};
use emolang::parser::Parser;
use emolang::token::TokenType;

/// Runs `source` in a fresh environment and hands the outcome to `check`.
fn run_with(source: &str, check: impl FnOnce(Result<Object<'_>, String>)) {
    let mut lexer = Lexer::new(source);
    let mut parser = Parser::new(&mut lexer);
    let program = parser.parse_program();
    assert!(parser.errors().is_empty(), "parse errors: {:?}", parser.errors());
    let mut env = Environment::new();
    check(eval(&program, &mut env));
}

#[test]
fn evaluator_test() {
    let source = String::from(
        "
        1️⃣⚪3️⃣ ➕ 9️⃣ ↙️
        #️⃣ ⏸️❌↙️
        🅰️ ⬅️ ❓ 1️⃣ ▶️🟰 3️⃣ 🫸 9️⃣ 🫷 ❗ 🫸 1️⃣ 🫷 
        🅰️ ↙️
        ",
    );

    let mut lexer = Lexer::new(&source);
    let mut parser = Parser::new(&mut lexer);
    let program = parser.parse_program();
    let mut env = Environment::new();
    let evaluated = eval(&program, &mut env);

    assert!(evaluated.is_ok());
    assert_eq!(evaluated.unwrap(), Object::Integer(1));
}

#[test]
fn float_plus_integer_is_a_float() {
    run_with("1️⃣⚪3️⃣ ➕ 9️⃣", |r| assert_eq!(r, Ok(Object::Float(10.3f64.to_bits()))));
}

#[test]
fn negative_comparison_with_a_product() {
    // -8 >= -3.9 * 2 reads -8 >= -7.8, which does not hold
    run_with("➖8️⃣ ▶️🟰 ➖3️⃣⚪9️⃣ ✖️ 2️⃣", |r| assert_eq!(r, Ok(Object::Boolean(false))));
    run_with("➖3️⃣⚪9️⃣ ✖️ 2️⃣", |r| assert_eq!(r, Ok(Object::Float((-7.8f64).to_bits()))));
    run_with("➖7️⃣ ▶️🟰 ➖3️⃣⚪9️⃣ ✖️ 2️⃣", |r| assert_eq!(r, Ok(Object::Boolean(true))));
}

#[test]
fn assigned_name_has_the_value_of_its_expression() {
    run_with("🅰️ ⬅️ 2️⃣ ✖️ 2️⃣1️⃣ ↙️ 🅰️", |r| assert_eq!(r, Ok(Object::Integer(42))));
    run_with("2️⃣ ✖️ 2️⃣1️⃣", |r| assert_eq!(r, Ok(Object::Integer(42))));
}

#[test]
fn unassigned_name_is_not_found() {
    run_with("🅱️", |r| assert_eq!(r, Err(String::from("identifier not found: 🅱️"))));
}

#[test]
fn return_leaves_nested_blocks_of_a_call() {
    let source = "📛 🈯🌜🅰️🌛 🫸 ❓ 🅰️ ▶️ 0️⃣ 🫸 🔙 🅰️ 🫷 ↙️ 9️⃣9️⃣ 🫷 ↙️ 🈯🌜7️⃣🌛";
    run_with(source, |r| assert_eq!(r, Ok(Object::Integer(7))));
    let source = "📛 🈯🌜🅰️🌛 🫸 ❓ 🅰️ ▶️ 0️⃣ 🫸 🔙 🅰️ 🫷 ↙️ 9️⃣9️⃣ 🫷 ↙️ 🈯🌜➖7️⃣🌛";
    run_with(source, |r| assert_eq!(r, Ok(Object::Integer(99))));
}

#[test]
fn integer_division_by_zero_is_an_error() {
    run_with("1️⃣ ➗ 0️⃣", |r| assert_eq!(r, Err(String::from("division by zero"))));
    run_with("1️⃣ 〰️ 0️⃣", |r| assert_eq!(r, Err(String::from("division by zero"))));
}

#[test]
fn float_division_by_zero_follows_ieee() {
    run_with("1️⃣ ➗ 0️⃣⚪0️⃣", |r| assert_eq!(r, Ok(Object::Float(f64::INFINITY.to_bits()))));
    run_with("➖1️⃣⚪0️⃣ ➗ 0️⃣", |r| {
        assert_eq!(r, Ok(Object::Float(f64::NEG_INFINITY.to_bits())))
    });
    run_with("0️⃣⚪0️⃣ ➗ 0️⃣", |r| match r {
        Ok(Object::Float(bits)) => assert!(f64::from_bits(bits).is_nan()),
        other => panic!("not a float: {:?}", other),
    });
}

#[test]
fn integer_arithmetic() {
    run_with("7️⃣ 〰️ ➖3️⃣", |r| assert_eq!(r, Ok(Object::Integer(1))));
    run_with("➖7️⃣ ➗ 2️⃣", |r| assert_eq!(r, Ok(Object::Integer(-3))));
    run_with("9️⃣2️⃣2️⃣3️⃣3️⃣7️⃣2️⃣0️⃣3️⃣6️⃣8️⃣5️⃣4️⃣7️⃣7️⃣5️⃣8️⃣0️⃣7️⃣ ➕ 1️⃣", |r| {
        assert_eq!(r, Err(String::from("integer overflow")))
    });
}

#[test]
fn float_arithmetic_and_comparison() {
    run_with("7️⃣⚪5️⃣ 〰️ 2️⃣", |r| assert_eq!(r, Ok(Object::Float(1.5f64.to_bits()))));
    run_with("0️⃣⚪1️⃣ ➕ 0️⃣⚪2️⃣", |r| {
        assert_eq!(r, Ok(Object::Float((0.1f64 + 0.2f64).to_bits())))
    });
    run_with("2️⃣ 🟰 2️⃣⚪0️⃣", |r| assert_eq!(r, Ok(Object::Boolean(true))));
    run_with("2️⃣ ◀️🟰 1️⃣⚪5️⃣", |r| assert_eq!(r, Ok(Object::Boolean(false))));
}

#[test]
fn prefix_operators() {
    run_with("⏸️0️⃣", |r| assert_eq!(r, Ok(Object::Boolean(true))));
    run_with("⏸️🗨️🈶💬", |r| assert_eq!(r, Ok(Object::Boolean(false))));
    run_with("⏸️0️⃣⚪5️⃣", |r| assert_eq!(r, Ok(Object::Boolean(false))));
    run_with("➖✔️", |r| assert!(r.is_err()));
}

#[test]
fn mixed_kinds_only_compare_for_equality() {
    run_with("🗨️🈶💬 🟰 🗨️🈶💬", |r| assert_eq!(r, Ok(Object::Boolean(true))));
    run_with("✔️ ❗🟰 1️⃣", |r| assert_eq!(r, Ok(Object::Boolean(true))));
    run_with("✔️ ➕ 1️⃣", |r| assert_eq!(r, Err(String::from("Invalid infix expression"))));
}

#[test]
fn infix_on_objects() {
    let r = eval_infix_expression(TokenType::Multiply, Object::Integer(6), Object::Integer(7));
    assert_eq!(r, Ok(Object::Integer(42)));
    let r = eval_infix_expression(TokenType::Plus, Object::Float(1.5f64.to_bits()), Object::Integer(2));
    assert_eq!(r, Ok(Object::Float(3.5f64.to_bits())));
}

#[test]
fn if_without_else_is_null() {
    run_with("❓ ❌ 🫸 1️⃣ 🫷", |r| assert_eq!(r, Ok(Object::Null)));
}

#[test]
fn while_loop_counts_down() {
    let source = "🅰️ ⬅️ 5️⃣ ↙️ 🅱️ ⬅️ 0️⃣ ↙️ ⭕ 🅰️ ▶️ 0️⃣ 🫸 🅱️ ⬅️ 🅱️ ➕ 🅰️ ↙️ 🅰️ ⬅️ 🅰️ ➖ 1️⃣ 🫷 ↙️ 🅱️";
    run_with(source, |r| assert_eq!(r, Ok(Object::Integer(15))));
}

#[test]
fn closures_read_the_scope_they_were_made_in() {
    let source = "📛 🈯🌜🌛 🫸 🅰️ ⬅️ 0️⃣ ↙️ 📛🌜🌛 🫸 🅰️ ⬅️ 🅰️ ➕ 1️⃣ 🫷 🫷 ↙️ \
                  🅱️ ⬅️ 🈯🌜🌛 ↙️ 🅱️🌜🌛 ↙️ 🅱️🌜🌛";
    run_with(source, |r| assert_eq!(r, Ok(Object::Integer(1))));
}

#[test]
fn recursion_through_a_named_function() {
    let source = "📛 🈯🌜🅰️🌛 🫸 ❓ 🅰️ ◀️🟰 1️⃣ 🫸 1️⃣ 🫷 ❗ 🫸 🅰️ ✖️ 🈯🌜🅰️ ➖ 1️⃣🌛 🫷 🫷 ↙️ 🈯🌜5️⃣🌛";
    run_with(source, |r| assert_eq!(r, Ok(Object::Integer(120))));
}

#[test]
fn wrong_number_of_arguments_is_an_error() {
    run_with("📛 🈯🌜🅰️🌛 🫸 🅰️ 🫷 ↙️ 🈯🌜1️⃣🦶 2️⃣🌛", |r| {
        assert_eq!(r, Err(String::from("Wrong number of arguments")))
    });
}

#[test]
fn empty_program_is_an_error() {
    run_with("", |r| assert_eq!(r, Err(String::from("Empty statements to evaluate values"))));
}

#[test]
fn top_level_return_is_unwrapped() {
    run_with("🔙 3️⃣ ↙️ 4️⃣", |r| assert_eq!(r, Ok(Object::Integer(3))));
}

#[test]
fn environment_set_and_get() {
    let mut env = Environment::new();
    env.set(String::from("🅰️"), Object::Integer(1));
    env.set(String::from("🅰️"), Object::Integer(2));
    assert_eq!(env.get(&String::from("🅰️")), Some(&Object::Integer(2)));
    assert_eq!(env.get(&String::from("🅱️")), None);
    let inner = env.new_enclosed(0);
    env.enter(inner);
    assert_eq!(env.get(&String::from("🅰️")), Some(&Object::Integer(2)));
    env.set(String::from("🅰️"), Object::Integer(3));
    assert_eq!(env.get(&String::from("🅰️")), Some(&Object::Integer(3)));
    env.enter(0);
    assert_eq!(env.get(&String::from("🅰️")), Some(&Object::Integer(2)));
}

#[test]
fn float_subtraction() {
    run_with("5️⃣⚪5️⃣ ➖ 2️⃣", |r| assert_eq!(r, Ok(Object::Float(3.5f64.to_bits()))));
}

#[test]
fn calling_a_value_that_is_not_a_function_is_an_error() {
    run_with("1️⃣🌜🌛", |r| {
        assert_eq!(r, Err(String::from("Invalid call of a value that is not a function")))
    });
}

#[test]
fn not_refuses_a_pending_return_value() {
    run_with("⏸️🌜❓ ✔️ 🫸 🔙 1️⃣ 🫷🌛", |r| assert!(r.is_err()));
}
