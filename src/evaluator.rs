//! The tree-walking evaluator.
use vstd::prelude::*;
use vstd::string::{StrSliceExecFns, StringExecFns};
use std::cmp::Ordering;
use crate::ast::{
    AssignStatement, CallExpression, Expression, FunctionLiteral, Identifier, IfExpression, Program,
    Statement, WhileExpression,
};
use crate::double::{
    double_add, double_cmp, double_difference, double_div, double_from_int, double_mul,
    double_neg, double_of_int, double_order, double_product, double_quotient, double_rem,
    double_remainder, double_sub, double_sum, POSITIVE_ZERO, SIGN_BIT,
};
use crate::object::{
    bind_in, lemma_bind_then_resolve, lookup_in, values_equal, EnvState, Environment, Object, Value,
};
use crate::token::TokenType;

verus! {

/// How many loop rounds, and how many nested calls, one evaluation may take.
pub const STEP_BUDGET: u64 = 0xffff_ffff_ffff_ffff;

/// The result of an integer operation, or the message of why it has none.
pub open spec fn integer_infix(op: TokenType, l: i64, r: i64) -> Result<Value, Seq<char>> {
    let (a, b) = (l as int, r as int);
    match op {
        TokenType::Plus => if i64::MIN <= a + b <= i64::MAX {
            Ok(Value::Integer((a + b) as i64))
        } else {
            Err("integer overflow"@)
        },
        TokenType::Minus => if i64::MIN <= a - b <= i64::MAX {
            Ok(Value::Integer((a - b) as i64))
        } else {
            Err("integer overflow"@)
        },
        TokenType::Multiply => if i64::MIN <= a * b <= i64::MAX {
            Ok(Value::Integer((a * b) as i64))
        } else {
            Err("integer overflow"@)
        },
        TokenType::Divide => if r == 0 {
            Err("division by zero"@)
        } else {
            match l.checked_div(r) {
                Some(q) => Ok(Value::Integer(q)),
                None => Err("integer overflow"@),
            }
        },
        TokenType::Modulo => if r == 0 {
            Err("division by zero"@)
        } else {
            match l.checked_rem(r) {
                Some(m) => Ok(Value::Integer(m)),
                None => Err("integer overflow"@),
            }
        },
        TokenType::Equal => Ok(Value::Boolean(a == b)),
        TokenType::NotEqual => Ok(Value::Boolean(a != b)),
        TokenType::GreaterThan => Ok(Value::Boolean(a > b)),
        TokenType::GreaterThanOrEqual => Ok(Value::Boolean(a >= b)),
        TokenType::LessThan => Ok(Value::Boolean(a < b)),
        TokenType::LessThanOrEqual => Ok(Value::Boolean(a <= b)),
        _ => Err("Invalid infix expression operator"@),
    }
}

/// The result of an operation on two doubles, as IEEE 754 defines it.
pub open spec fn float_infix(op: TokenType, a: u64, b: u64) -> Result<Value, Seq<char>> {
    let order = double_order(a, b);
    match op {
        TokenType::Plus => Ok(Value::Float(double_sum(a, b))),
        TokenType::Minus => Ok(Value::Float(double_difference(a, b))),
        TokenType::Multiply => Ok(Value::Float(double_product(a, b))),
        TokenType::Divide => Ok(Value::Float(double_quotient(a, b))),
        TokenType::Modulo => Ok(Value::Float(double_remainder(a, b))),
        TokenType::Equal => Ok(Value::Boolean(order == Some(Ordering::Equal))),
        TokenType::NotEqual => Ok(Value::Boolean(order != Some(Ordering::Equal))),
        TokenType::GreaterThan => Ok(Value::Boolean(order == Some(Ordering::Greater))),
        TokenType::GreaterThanOrEqual => Ok(
            Value::Boolean(order == Some(Ordering::Greater) || order == Some(Ordering::Equal)),
        ),
        TokenType::LessThan => Ok(Value::Boolean(order == Some(Ordering::Less))),
        TokenType::LessThanOrEqual => Ok(
            Value::Boolean(order == Some(Ordering::Less) || order == Some(Ordering::Equal)),
        ),
        _ => Err("Invalid infix expression operator"@),
    }
}

/// A binary operation: integers stay integers, a double on either side
/// makes both doubles, and any other pair only compares for (in)equality.
pub open spec fn infix(op: TokenType, l: Value, r: Value) -> Result<Value, Seq<char>> {
    match (l, r) {
        (Value::Integer(a), Value::Integer(b)) => integer_infix(op, a, b),
        (Value::Integer(a), Value::Float(b)) => float_infix(op, double_from_int(a as int), b),
        (Value::Float(a), Value::Float(b)) => float_infix(op, a, b),
        (Value::Float(a), Value::Integer(b)) => float_infix(op, a, double_from_int(b as int)),
        _ => if op == TokenType::Equal {
            Ok(Value::Boolean(values_equal(l, r)))
        } else if op == TokenType::NotEqual {
            Ok(Value::Boolean(!values_equal(l, r)))
        } else {
            Err("Invalid infix expression"@)
        },
    }
}

/// Truthiness for `⏸️`: a positive number, `true`, a non-empty string.
pub open spec fn truthy(v: Value) -> bool {
    match v {
        Value::Integer(i) => i > 0,
        Value::Float(f) => double_order(f, POSITIVE_ZERO) == Some(Ordering::Greater),
        Value::Boolean(b) => b,
        Value::Str(s) => s.len() > 0,
        _ => false,
    }
}

/// A condition of `❓` or `⭕` holds unless it is `null` or `false`.
pub open spec fn holds(v: Value) -> bool {
    match v {
        Value::Null => false,
        Value::Boolean(b) => b,
        _ => true,
    }
}

/// A prefix operation; `⏸️` refuses a pending return value.
pub open spec fn prefix(op: TokenType, v: Value) -> Result<Value, Seq<char>> {
    match op {
        TokenType::Not => if v is Return {
            Err("Invalid prefix not expression to evaluate return expression"@)
        } else {
            Ok(Value::Boolean(!truthy(v)))
        },
        TokenType::Minus => match v {
            Value::Integer(i) => if i == i64::MIN {
                Err("integer overflow"@)
            } else {
                Ok(Value::Integer((-i) as i64))
            },
            Value::Float(f) => Ok(Value::Float(f ^ SIGN_BIT)),
            _ => Err("Invalid prefix minus expression to evaluate non-numeric value"@),
        },
        _ => Err("Invalid prefix expressions to evaluate values"@),
    }
}

pub fn to_bool_object<'a>(value: bool) -> (r: Object<'a>)
    ensures
        r@ == Value::Boolean(value),
{
    Object::Boolean(value)
}

fn error(message: &str) -> (r: String)
    ensures
        r@ == message@,
{
    String::from_str(message)
}

pub fn eval_integer_infix_expression<'a>(operator: TokenType, left: i64, right: i64) -> (r: Result<
    Object<'a>,
    String,
>)
    ensures
        outcome(r) == integer_infix(operator, left, right),
{
    match operator {
        TokenType::Plus => match left.checked_add(right) {
            Some(v) => Ok(Object::Integer(v)),
            None => Err(error("integer overflow")),
        },
        TokenType::Minus => match left.checked_sub(right) {
            Some(v) => Ok(Object::Integer(v)),
            None => Err(error("integer overflow")),
        },
        TokenType::Multiply => match left.checked_mul(right) {
            Some(v) => Ok(Object::Integer(v)),
            None => Err(error("integer overflow")),
        },
        TokenType::Divide => if right == 0 {
            Err(error("division by zero"))
        } else {
            match left.checked_div(right) {
                Some(v) => Ok(Object::Integer(v)),
                None => Err(error("integer overflow")),
            }
        },
        TokenType::Modulo => if right == 0 {
            Err(error("division by zero"))
        } else {
            match left.checked_rem(right) {
                Some(v) => Ok(Object::Integer(v)),
                None => Err(error("integer overflow")),
            }
        },
        TokenType::Equal => Ok(to_bool_object(left == right)),
        TokenType::NotEqual => Ok(to_bool_object(left != right)),
        TokenType::GreaterThan => Ok(to_bool_object(left > right)),
        TokenType::GreaterThanOrEqual => Ok(to_bool_object(left >= right)),
        TokenType::LessThan => Ok(to_bool_object(left < right)),
        TokenType::LessThanOrEqual => Ok(to_bool_object(left <= right)),
        _ => Err(error("Invalid infix expression operator")),
    }
}

pub fn eval_float_infix_expression<'a>(operator: TokenType, left: u64, right: u64) -> (r: Result<
    Object<'a>,
    String,
>)
    ensures
        outcome(r) == float_infix(operator, left, right),
{
    match operator {
        TokenType::Plus => Ok(Object::Float(double_add(left, right))),
        TokenType::Minus => Ok(Object::Float(double_sub(left, right))),
        TokenType::Multiply => Ok(Object::Float(double_mul(left, right))),
        TokenType::Divide => Ok(Object::Float(double_div(left, right))),
        TokenType::Modulo => Ok(Object::Float(double_rem(left, right))),
        _ => {
            let order = double_cmp(left, right);
            let is_less = match order {
                Some(Ordering::Less) => true,
                _ => false,
            };
            let is_equal = match order {
                Some(Ordering::Equal) => true,
                _ => false,
            };
            let is_greater = match order {
                Some(Ordering::Greater) => true,
                _ => false,
            };
            match operator {
                TokenType::Equal => Ok(to_bool_object(is_equal)),
                TokenType::NotEqual => Ok(to_bool_object(!is_equal)),
                TokenType::GreaterThan => Ok(to_bool_object(is_greater)),
                TokenType::GreaterThanOrEqual => Ok(to_bool_object(is_greater || is_equal)),
                TokenType::LessThan => Ok(to_bool_object(is_less)),
                TokenType::LessThanOrEqual => Ok(to_bool_object(is_less || is_equal)),
                _ => Err(error("Invalid infix expression operator")),
            }
        },
    }
}

pub fn eval_infix_expression<'a>(operator: TokenType, left: Object<'a>, right: Object<'a>) -> (r:
    Result<Object<'a>, String>)
    ensures
        outcome(r) == infix(operator, left@, right@),
{
    match (&left, &right) {
        (Object::Integer(a), Object::Integer(b)) => eval_integer_infix_expression(
            operator,
            *a,
            *b,
        ),
        (Object::Integer(a), Object::Float(b)) => eval_float_infix_expression(
            operator,
            double_of_int(*a),
            *b,
        ),
        (Object::Float(a), Object::Float(b)) => eval_float_infix_expression(operator, *a, *b),
        (Object::Float(a), Object::Integer(b)) => eval_float_infix_expression(
            operator,
            *a,
            double_of_int(*b),
        ),
        _ => {
            if operator == TokenType::Equal {
                Ok(to_bool_object(left.equals(&right)))
            } else if operator == TokenType::NotEqual {
                Ok(to_bool_object(!left.equals(&right)))
            } else {
                Err(error("Invalid infix expression"))
            }
        },
    }
}

pub fn eval_prefix_not_expression<'a>(obj: &Object<'a>) -> (r: Result<Object<'a>, String>)
    ensures
        outcome(r) == prefix(TokenType::Not, obj@),
{
    let value = match obj {
        Object::ReturnValue(_) => {
            return Err(error("Invalid prefix not expression to evaluate return expression"));
        },
        Object::Integer(value) => *value > 0,
        Object::Float(value) => match double_cmp(*value, POSITIVE_ZERO) {
            Some(Ordering::Greater) => true,
            _ => false,
        },
        Object::Boolean(value) => *value,
        Object::String(value) => value.as_str().unicode_len() > 0,
        Object::Null => false,
        Object::Function { .. } => false,
    };
    Ok(to_bool_object(!value))
}

pub fn eval_prefix_minus_expression<'a>(obj: &Object<'a>) -> (r: Result<Object<'a>, String>)
    ensures
        outcome(r) == prefix(TokenType::Minus, obj@),
{
    match obj {
        Object::Integer(value) => if *value == i64::MIN {
            Err(error("integer overflow"))
        } else {
            Ok(Object::Integer(-*value))
        },
        Object::Float(value) => Ok(Object::Float(double_neg(*value))),
        _ => Err(error("Invalid prefix minus expression to evaluate non-numeric value")),
    }
}

pub fn eval_prefix_expression<'a>(operator: TokenType, right: Object<'a>) -> (r: Result<
    Object<'a>,
    String,
>)
    ensures
        outcome(r) == prefix(operator, right@),
{
    match operator {
        TokenType::Not => eval_prefix_not_expression(&right),
        TokenType::Minus => eval_prefix_minus_expression(&right),
        _ => Err(error("Invalid prefix expressions to evaluate values")),
    }
}

/// The value of a name seen from the current scope, or an error naming it.
pub fn eval_identifier<'a>(value: &String, env: &Environment<'a>) -> (r: Result<Object<'a>, String>)
    requires
        env.wf(),
    ensures
        outcome(r) == lookup_outcome(env.state(), value@),
{
    match env.get(value) {
        Some(obj) => Ok(obj.duplicate()),
        None => {
            let mut message = String::from_str("identifier not found: ");
            message.append(value.as_str());
            Err(message)
        },
    }
}

/// The value inside any number of return wrappers.
pub open spec fn unwrap(v: Value) -> Value
    decreases v,
{
    match v {
        Value::Return(inner) => unwrap(*inner),
        _ => v,
    }
}

/// The outcome of an evaluation: its value, or the text of its error.
pub open spec fn outcome<'a>(r: Result<Object<'a>, String>) -> Result<Value, Seq<char>> {
    match r {
        Ok(o) => Ok(o@),
        Err(e) => Err(e@),
    }
}

/// The outcome of looking a name up.
pub open spec fn lookup_outcome(st: EnvState, name: Seq<char>) -> Result<Value, Seq<char>> {
    match lookup_in(st, name) {
        Some(v) => Ok(v),
        None => Err("identifier not found: "@ + name),
    }
}

/// The error of an empty program or block.
pub open spec fn empty_statements() -> Seq<char> {
    "Empty statements to evaluate values"@
}

/// The error of a loop or call past the step budget.
pub open spec fn budget_exhausted() -> Seq<char> {
    "step budget exhausted"@
}

/// `st` with `scope` as its current scope.
pub open spec fn enter_scope(st: EnvState, scope: nat) -> EnvState {
    EnvState { current: scope, ..st }
}

/// Binds the first `n` parameters to the first `n` arguments, in order.
pub open spec fn bind_parameters(st: EnvState, ps: Seq<Identifier>, args: Seq<Value>, n: int) -> EnvState
    decreases n,
{
    if n <= 0 {
        st
    } else {
        let before = bind_parameters(st, ps, args, n - 1);
        bind_in(before, ps[n - 1].value@, args[n - 1])
    }
}

/// The outcome of an expression in state `st`, and the state after it. A
/// call may nest `fuel` calls deep, and a loop run `fuel` rounds.
pub open spec fn eval_expr(e: Expression, st: EnvState, fuel: nat) -> (
    Result<Value, Seq<char>>,
    EnvState,
)
    decreases fuel, e, 0int,
{
    match e {
        Expression::Identifier(i) => (lookup_outcome(st, i.value@), st),
        Expression::Integer(l) => (Ok(Value::Integer(l.value)), st),
        Expression::Float(l) => (Ok(Value::Float(l.value)), st),
        Expression::Boolean(l) => (Ok(Value::Boolean(l.value)), st),
        Expression::Str(l) => (Ok(Value::Str(l.value@)), st),
        Expression::Prefix(p) => {
            let (r, st1) = eval_expr(*p.right, st, fuel);
            match r {
                Ok(v) => (prefix(p.token.token_type, v), st1),
                Err(m) => (Err(m), st1),
            }
        },
        Expression::Infix(x) => {
            let (l, st1) = eval_expr(*x.left, st, fuel);
            match l {
                Err(m) => (Err(m), st1),
                Ok(lv) => {
                    let (r, st2) = eval_expr(*x.right, st1, fuel);
                    match r {
                        Err(m) => (Err(m), st2),
                        Ok(rv) => (infix(x.token.token_type, lv, rv), st2),
                    }
                },
            }
        },
        Expression::If(x) => {
            let (c, st1) = eval_expr(*x.condition, st, fuel);
            match c {
                Err(m) => (Err(m), st1),
                Ok(cv) => if holds(cv) {
                    eval_block(x.consequence.statements@, st1, fuel)
                } else {
                    match x.alternative {
                        Some(b) => eval_block(b.statements@, st1, fuel),
                        None => (Ok(Value::Null), st1),
                    }
                },
            }
        },
        Expression::While(w) => eval_while(w, st, fuel, fuel),
        Expression::Function(f) => {
            let v = Value::Function(f, st.current);
            match f.name {
                Some(n) => (Ok(v), bind_in(st, n.value@, v)),
                None => (Ok(v), st),
            }
        },
        Expression::Call(c) => {
            let (f, st1) = eval_expr(*c.function, st, fuel);
            match f {
                Err(m) => (Err(m), st1),
                Ok(fv) => {
                    let (a, st2) = eval_args(c.arguments@, 0, st1, fuel, Seq::empty());
                    match a {
                        Err(m) => (Err(m), st2),
                        Ok(args) => match fv {
                            Value::Function(lit, captured) => if fuel == 0 {
                                (Err(budget_exhausted()), st2)
                            } else {
                                apply(lit, captured, args, st2, (fuel - 1) as nat)
                            },
                            _ => (Err("Invalid call of a value that is not a function"@), st2),
                        },
                    }
                },
            }
        },
    }
}

/// The values of the arguments from `k` on, after the values `acc`.
pub open spec fn eval_args(
    es: Seq<Expression>,
    k: int,
    st: EnvState,
    fuel: nat,
    acc: Seq<Value>,
) -> (Result<Seq<Value>, Seq<char>>, EnvState)
    decreases fuel, es, es.len() - k,
{
    if k < 0 || k >= es.len() {
        (Ok(acc), st)
    } else {
        let (r, st1) = eval_expr(es[k], st, fuel);
        match r {
            Err(m) => (Err(m), st1),
            Ok(v) => eval_args(es, k + 1, st1, fuel, acc.push(v)),
        }
    }
}

/// A loop that may still run `steps` rounds.
pub open spec fn eval_while(w: WhileExpression, st: EnvState, fuel: nat, steps: nat) -> (
    Result<Value, Seq<char>>,
    EnvState,
)
    decreases fuel, w, steps,
{
    let (c, st1) = eval_expr(*w.condition, st, fuel);
    match c {
        Err(m) => (Err(m), st1),
        Ok(cv) => if !holds(cv) {
            (Ok(Value::Null), st1)
        } else if steps == 0 {
            (Err(budget_exhausted()), st1)
        } else {
            let (b, st2) = eval_block(w.body.statements@, st1, fuel);
            match b {
                Err(m) => (Err(m), st2),
                Ok(bv) => if bv is Return {
                    (Ok(bv), st2)
                } else {
                    eval_while(w, st2, fuel, (steps - 1) as nat)
                },
            }
        },
    }
}

/// A call: a new scope under `captured` binds the parameters, the body runs
/// there, the caller's scope is current again, and a return value is unwrapped.
pub open spec fn apply(lit: FunctionLiteral, captured: nat, args: Seq<Value>, st: EnvState, fuel: nat) -> (
    Result<Value, Seq<char>>,
    EnvState,
)
    decreases fuel, lit.body.statements@, lit.body.statements@.len() + 2,
{
    if args.len() != lit.parameters@.len() {
        (Err("Wrong number of arguments"@), st)
    } else if captured >= st.parents.len() || st.parents.len() >= usize::MAX {
        (Err("Invalid scope of a function value"@), st)
    } else {
        let opened = EnvState {
            parents: st.parents.push(Some(captured)),
            current: st.parents.len(),
            ..st
        };
        let bound = bind_parameters(opened, lit.parameters@, args, args.len() as int);
        let (r, after) = eval_block(lit.body.statements@, bound, fuel);
        let back = enter_scope(after, st.current);
        match r {
            Ok(v) => (Ok(unwrap(v)), back),
            Err(m) => (Err(m), back),
        }
    }
}

pub open spec fn eval_stmt(s: Statement, st: EnvState, fuel: nat) -> (Result<Value, Seq<char>>, EnvState)
    decreases fuel, s, 0int,
{
    match s {
        Statement::Expression(x) => eval_expr(x.expression, st, fuel),
        Statement::Block(b) => eval_block(b.statements@, st, fuel),
        Statement::Return(x) => {
            let (r, st1) = eval_expr(x.value, st, fuel);
            match r {
                Ok(v) => (Ok(Value::Return(Box::new(v))), st1),
                Err(m) => (Err(m), st1),
            }
        },
        Statement::Assign(x) => {
            let (r, st1) = eval_expr(x.value, st, fuel);
            match r {
                Ok(v) => (Ok(v), bind_in(st1, x.name.value@, v)),
                Err(m) => (Err(m), st1),
            }
        },
    }
}

/// The statements from `k` on, after a last value `last`: an error or a
/// return value stops them.
pub open spec fn eval_stmts(ss: Seq<Statement>, k: int, st: EnvState, fuel: nat, last: Value) -> (
    Result<Value, Seq<char>>,
    EnvState,
)
    decreases fuel, ss, ss.len() - k,
{
    if k < 0 || k >= ss.len() {
        (Ok(last), st)
    } else {
        let (r, st1) = eval_stmt(ss[k], st, fuel);
        match r {
            Err(m) => (Err(m), st1),
            Ok(v) => if v is Return {
                (Ok(v), st1)
            } else {
                eval_stmts(ss, k + 1, st1, fuel, v)
            },
        }
    }
}

/// A block: an empty one is an error; a return value comes out wrapped.
pub open spec fn eval_block(ss: Seq<Statement>, st: EnvState, fuel: nat) -> (
    Result<Value, Seq<char>>,
    EnvState,
)
    decreases fuel, ss, ss.len() + 1,
{
    if ss.len() == 0 {
        (Err(empty_statements()), st)
    } else {
        eval_stmts(ss, 0, st, fuel, Value::Null)
    }
}

/// A program: a block whose return value comes out unwrapped.
pub open spec fn eval_prog(ss: Seq<Statement>, st: EnvState, fuel: nat) -> (
    Result<Value, Seq<char>>,
    EnvState,
) {
    let (r, st1) = eval_block(ss, st, fuel);
    match r {
        Ok(v) => (Ok(unwrap(v)), st1),
        Err(m) => (Err(m), st1),
    }
}

/// Runs a program in `env`: the value of its last statement, or of the
/// first `🔙` met, unwrapped.
pub fn eval<'a>(program: &'a Program, env: &mut Environment<'a>) -> (r: Result<Object<'a>, String>)
    requires
        old(env).wf(),
    ensures
        final(env).wf(),
        (outcome(r), final(env).state()) == eval_prog(
            program.statements@,
            old(env).state(),
            STEP_BUDGET as nat,
        ),
{
    eval_program(&program.statements, env, STEP_BUDGET)
}

fn eval_program<'a>(statements: &'a Vec<Statement>, env: &mut Environment<'a>, fuel: u64) -> (r:
    Result<Object<'a>, String>)
    requires
        old(env).wf(),
    ensures
        final(env).wf(),
        (outcome(r), final(env).state()) == eval_prog(statements@, old(env).state(), fuel as nat),
{
    match eval_block_statements(statements, env, fuel) {
        Ok(value) => Ok(unwrap_return(value)),
        Err(e) => Err(e),
    }
}

/// The value inside any number of return wrappers.
fn unwrap_return<'a>(obj: Object<'a>) -> (r: Object<'a>)
    ensures
        r@ == unwrap(obj@),
    decreases obj,
{
    match obj {
        Object::ReturnValue(inner) => unwrap_return(*inner),
        other => other,
    }
}

/// Runs the statements of a block in order. A return value stops the block
/// and comes out still wrapped, for the function or program around it.
fn eval_block_statements<'a>(
    statements: &'a Vec<Statement>,
    env: &mut Environment<'a>,
    fuel: u64,
) -> (r: Result<Object<'a>, String>)
    requires
        old(env).wf(),
    ensures
        final(env).wf(),
        old(env).parent_views().len() <= final(env).parent_views().len(),
        (outcome(r), final(env).state()) == eval_block(statements@, old(env).state(), fuel as nat),
    decreases fuel, statements@, statements@.len() + 1,
{
    if statements.len() == 0 {
        return Err(error("Empty statements to evaluate values"));
    }
    let ghost st0 = env.state();
    let mut result = Object::Null;
    let mut k: usize = 0;
    while k < statements.len()
        invariant
            env.wf(),
            old(env).parent_views().len() <= env.parent_views().len(),
            k <= statements@.len(),
            statements@.len() > 0,
            st0 == old(env).state(),
            eval_block(statements@, st0, fuel as nat) == eval_stmts(
                statements@,
                k as int,
                env.state(),
                fuel as nat,
                result@,
            ),
        decreases statements@.len() - k,
    {
        let value = eval_statement(&statements[k], env, fuel)?;
        if let Object::ReturnValue(_) = &value {
            return Ok(value);
        }
        result = value;
        k = k + 1;
    }
    Ok(result)
}

fn eval_statement<'a>(statement: &'a Statement, env: &mut Environment<'a>, fuel: u64) -> (r:
    Result<Object<'a>, String>)
    requires
        old(env).wf(),
    ensures
        final(env).wf(),
        old(env).parent_views().len() <= final(env).parent_views().len(),
        (outcome(r), final(env).state()) == eval_stmt(*statement, old(env).state(), fuel as nat),
    decreases fuel, statement, 0int,
{
    match statement {
        Statement::Expression(s) => eval_expression(&s.expression, env, fuel),
        Statement::Block(b) => eval_block_statements(&b.statements, env, fuel),
        Statement::Return(s) => {
            let value = eval_expression(&s.value, env, fuel)?;
            Ok(Object::ReturnValue(Box::new(value)))
        },
        Statement::Assign(s) => {
            let value = eval_expression(&s.value, env, fuel)?;
            let copy = value.duplicate();
            env.set(s.name.value.clone(), copy);
            Ok(value)
        },
    }
}

fn eval_expression<'a>(expression: &'a Expression, env: &mut Environment<'a>, fuel: u64) -> (r:
    Result<Object<'a>, String>)
    requires
        old(env).wf(),
    ensures
        final(env).wf(),
        old(env).parent_views().len() <= final(env).parent_views().len(),
        (outcome(r), final(env).state()) == eval_expr(*expression, old(env).state(), fuel as nat),
    decreases fuel, expression, 0int,
{
    match expression {
        Expression::Identifier(i) => eval_identifier(&i.value, env),
        Expression::Integer(l) => Ok(Object::Integer(l.value)),
        Expression::Float(l) => Ok(Object::Float(l.value)),
        Expression::Boolean(l) => Ok(Object::Boolean(l.value)),
        Expression::Str(l) => Ok(Object::String(l.value.clone())),
        Expression::Prefix(p) => {
            let right = eval_expression(&p.right, env, fuel)?;
            eval_prefix_expression(p.token.token_type, right)
        },
        Expression::Infix(x) => {
            let left = eval_expression(&x.left, env, fuel)?;
            let right = eval_expression(&x.right, env, fuel)?;
            eval_infix_expression(x.token.token_type, left, right)
        },
        Expression::If(x) => eval_if_expression(x, env, fuel),
        Expression::While(w) => eval_while_expression(w, env, fuel),
        Expression::Function(f) => eval_function_literal(f, env),
        Expression::Call(c) => eval_call_expression(c, env, fuel),
    }
}

/// Runs the body while the condition holds; the value is `null`, unless a
/// return value stops the loop.
fn eval_while_expression<'a>(w: &'a WhileExpression, env: &mut Environment<'a>, fuel: u64) -> (r:
    Result<Object<'a>, String>)
    requires
        old(env).wf(),
    ensures
        final(env).wf(),
        old(env).parent_views().len() <= final(env).parent_views().len(),
        (outcome(r), final(env).state()) == eval_while(*w, old(env).state(), fuel as nat, fuel as nat),
    decreases fuel, w, 0int,
{
    let mut steps: u64 = fuel;
    loop
        invariant_except_break
            eval_while(*w, old(env).state(), fuel as nat, fuel as nat) == eval_while(
                *w,
                env.state(),
                fuel as nat,
                steps as nat,
            ),
        invariant
            env.wf(),
            old(env).parent_views().len() <= env.parent_views().len(),
        ensures
            eval_while(*w, old(env).state(), fuel as nat, fuel as nat) == (
                Ok::<Value, Seq<char>>(Value::Null),
                env.state(),
            ),
        decreases steps,
    {
        let condition = eval_expression(&w.condition, env, fuel)?;
        if !is_truthy_condition(&condition) {
            break;
        }
        if steps == 0 {
            return Err(error("step budget exhausted"));
        }
        steps = steps - 1;
        let value = eval_block_statements(&w.body.statements, env, fuel)?;
        if let Object::ReturnValue(_) = &value {
            return Ok(value);
        }
    }
    Ok(Object::Null)
}

/// Evaluates the callee, then the arguments from left to right, then calls.
fn eval_call_expression<'a>(c: &'a CallExpression, env: &mut Environment<'a>, fuel: u64) -> (r:
    Result<Object<'a>, String>)
    requires
        old(env).wf(),
    ensures
        final(env).wf(),
        old(env).parent_views().len() <= final(env).parent_views().len(),
        (outcome(r), final(env).state()) == eval_expr(
            Expression::Call(*c),
            old(env).state(),
            fuel as nat,
        ),
    decreases fuel, c, 0int,
{
    let callee = eval_expression(&c.function, env, fuel)?;
    let ghost st1 = env.state();
    let mut arguments: Vec<Object<'a>> = Vec::new();
    let mut k: usize = 0;
    assert(arguments@.map_values(|o: Object<'a>| o@) =~= Seq::<Value>::empty());
    while k < c.arguments.len()
        invariant
            env.wf(),
            old(env).parent_views().len() <= env.parent_views().len(),
            k <= c.arguments@.len(),
            eval_expr(*c.function, old(env).state(), fuel as nat) == (Ok::<Value, Seq<char>>(callee@), st1),
            eval_args(c.arguments@, 0, st1, fuel as nat, Seq::empty()) == eval_args(
                c.arguments@,
                k as int,
                env.state(),
                fuel as nat,
                arguments@.map_values(|o: Object<'a>| o@),
            ),
        decreases c.arguments@.len() - k,
    {
        let ghost before = arguments@.map_values(|o: Object<'a>| o@);
        let ghost st_k = env.state();
        let argument = match eval_expression(&c.arguments[k], env, fuel) {
            Ok(a) => a,
            Err(e) => {
                assert(eval_args(c.arguments@, k as int, st_k, fuel as nat, before) == (
                    Err::<Seq<Value>, Seq<char>>(e@),
                    env.state(),
                ));
                return Err(e);
            },
        };
        let ghost v = argument@;
        arguments.push(argument);
        assert(arguments@.map_values(|o: Object<'a>| o@) =~= before.push(v));
        k = k + 1;
    }
    match callee {
        Object::Function { literal, env: captured } => {
            if fuel == 0 {
                return Err(error("step budget exhausted"));
            }
            apply_function(literal, captured, arguments, env, fuel - 1)
        },
        _ => Err(error("Invalid call of a value that is not a function")),
    }
}

/// A function value closing over the current scope; a named function is
/// also bound to its name there.
fn eval_function_literal<'a>(literal: &'a FunctionLiteral, env: &mut Environment<'a>) -> (r: Result<
    Object<'a>,
    String,
>)
    requires
        old(env).wf(),
    ensures
        final(env).wf(),
        old(env).parent_views().len() <= final(env).parent_views().len(),
        (outcome(r), final(env).state()) == eval_expr(
            Expression::Function(*literal),
            old(env).state(),
            0,
        ),
{
    let function = Object::Function { literal, env: env.current() };
    match &literal.name {
        Some(name) => env.set(name.value.clone(), function.duplicate()),
        None => {},
    }
    Ok(function)
}

/// Calls a function: a new scope under the captured one binds the
/// parameters, the body runs there, and a return value is unwrapped.
fn apply_function<'a>(
    literal: &'a FunctionLiteral,
    captured: usize,
    arguments: Vec<Object<'a>>,
    env: &mut Environment<'a>,
    fuel: u64,
) -> (r: Result<Object<'a>, String>)
    requires
        old(env).wf(),
    ensures
        final(env).wf(),
        old(env).parent_views().len() <= final(env).parent_views().len(),
        (outcome(r), final(env).state()) == apply(
            *literal,
            captured as nat,
            arguments@.map_values(|o: Object<'a>| o@),
            old(env).state(),
            fuel as nat,
        ),
    decreases fuel, literal.body.statements@, literal.body.statements@.len() + 2,
{
    let ghost args = arguments@.map_values(|o: Object<'a>| o@);
    if arguments.len() != literal.parameters.len() {
        return Err(error("Wrong number of arguments"));
    }
    if captured >= env.scope_count() || env.scope_count() == usize::MAX {
        return Err(error("Invalid scope of a function value"));
    }
    let ghost st = env.state();
    let caller = env.current();
    let scope = env.new_enclosed(captured);
    env.enter(scope);
    let ghost opened = env.state();
    assert(opened == EnvState {
        parents: st.parents.push(Some(captured as nat)),
        current: st.parents.len(),
        ..st
    });
    let mut arguments = arguments;
    let mut k: usize = 0;
    assert(bind_parameters(opened, literal.parameters@, args, 0) == opened);
    while k < literal.parameters.len()
        invariant
            env.wf(),
            old(env).parent_views().len() <= env.parent_views().len(),
            caller == st.current,
            caller < env.parent_views().len(),
            k <= literal.parameters@.len(),
            args.len() == literal.parameters@.len(),
            arguments@.map_values(|o: Object<'a>| o@) == args.subrange(k as int, args.len() as int),
            env.state() == bind_parameters(opened, literal.parameters@, args, k as int),
        decreases literal.parameters@.len() - k,
    {
        let ghost objects = arguments@;
        let ghost rest = arguments@.map_values(|o: Object<'a>| o@);
        assert(rest.len() == objects.len());
        assert(rest.len() == args.len() - k);
        let argument = arguments.remove(0);
        assert(rest[0] == objects[0]@);
        assert(argument@ == rest[0]);
        assert(rest[0] == args[k as int]);
        assert(arguments@.map_values(|o: Object<'a>| o@) =~= rest.subrange(1, rest.len() as int));
        env.set(literal.parameters[k].value.clone(), argument);
        k = k + 1;
        assert(arguments@.map_values(|o: Object<'a>| o@) =~= args.subrange(
            k as int,
            args.len() as int,
        ));
    }
    let result = eval_block_statements(&literal.body.statements, env, fuel);
    env.enter(caller);
    match result {
        Ok(value) => Ok(unwrap_return(value)),
        Err(e) => Err(e),
    }
}

fn eval_if_expression<'a>(x: &'a IfExpression, env: &mut Environment<'a>, fuel: u64) -> (r: Result<
    Object<'a>,
    String,
>)
    requires
        old(env).wf(),
    ensures
        final(env).wf(),
        old(env).parent_views().len() <= final(env).parent_views().len(),
        (outcome(r), final(env).state()) == eval_expr(
            Expression::If(*x),
            old(env).state(),
            fuel as nat,
        ),
    decreases fuel, x, 0int,
{
    let condition = eval_expression(&x.condition, env, fuel)?;
    if is_truthy_condition(&condition) {
        eval_block_statements(&x.consequence.statements, env, fuel)
    } else {
        match &x.alternative {
            Some(b) => eval_block_statements(&b.statements, env, fuel),
            None => Ok(Object::Null),
        }
    }
}

fn is_truthy_condition(obj: &Object) -> (r: bool)
    ensures
        r == holds(obj@),
{
    match obj {
        Object::Null => false,
        Object::Boolean(b) => *b,
        _ => true,
    }
}

/// An assignment has the value of its expression evaluated alone in the same
/// state, and afterwards the name, referenced in any later statement that
/// runs in the same scope, has that value.
pub proof fn lemma_assigned_name_has_its_value(
    a: AssignStatement,
    reference: Identifier,
    st: EnvState,
    fuel: nat,
    later_fuel: nat,
)
    requires
        reference.value@ == a.name.value@,
    ensures
        ({
            let (r, after) = eval_stmt(Statement::Assign(a), st, fuel);
            &&& r == eval_expr(a.value, st, fuel).0
            &&& r is Ok ==> eval_expr(Expression::Identifier(reference), after, later_fuel) == (
                r,
                after,
            )
        }),
{
    let (r, st1) = eval_expr(a.value, st, fuel);
    if let Ok(v) = r {
        lemma_bind_then_resolve(st1.bindings, st1.parents, st1.current, a.name.value@, v);
    }
}

/// A name bound nowhere on the way out from the current scope is the error
/// "identifier not found: " followed by the name.
pub proof fn lemma_unbound_name_is_an_error(reference: Identifier, st: EnvState, fuel: nat)
    requires
        lookup_in(st, reference.value@) is None,
    ensures
        eval_expr(Expression::Identifier(reference), st, fuel).0 == Err::<Value, Seq<char>>(
            "identifier not found: "@ + reference.value@,
        ),
{
}

/// A statement of a block that yields a return value ends the block there:
/// the block yields that return value as it is, whatever statements follow.
pub proof fn lemma_return_ends_the_block(
    ss: Seq<Statement>,
    k: int,
    st: EnvState,
    fuel: nat,
    last: Value,
    inner: Value,
)
    requires
        0 <= k < ss.len(),
        eval_stmt(ss[k], st, fuel).0 == Ok::<Value, Seq<char>>(Value::Return(Box::new(inner))),
    ensures
        eval_stmts(ss, k, st, fuel, last) == (
            Ok::<Value, Seq<char>>(Value::Return(Box::new(inner))),
            eval_stmt(ss[k], st, fuel).1,
        ),
{
}

/// An if-expression whose chosen block yields a return value yields that
/// return value too, so it passes on to the block around the if-expression.
pub proof fn lemma_return_passes_through_if(x: IfExpression, st: EnvState, fuel: nat, inner: Value)
    requires
        ({
            let (c, st1) = eval_expr(*x.condition, st, fuel);
            &&& c is Ok && holds(c->Ok_0)
            &&& eval_block(x.consequence.statements@, st1, fuel).0 == Ok::<Value, Seq<char>>(
                Value::Return(Box::new(inner)),
            )
        }),
    ensures
        eval_expr(Expression::If(x), st, fuel).0 == Ok::<Value, Seq<char>>(
            Value::Return(Box::new(inner)),
        ),
{
}

/// A call whose body yields a return value gives back the value inside it.
pub proof fn lemma_call_unwraps_the_return(
    lit: FunctionLiteral,
    captured: nat,
    args: Seq<Value>,
    st: EnvState,
    fuel: nat,
    inner: Value,
)
    requires
        args.len() == lit.parameters@.len(),
        captured < st.parents.len() < usize::MAX,
        eval_block(
            lit.body.statements@,
            bind_parameters(
                EnvState {
                    parents: st.parents.push(Some(captured)),
                    current: st.parents.len(),
                    ..st
                },
                lit.parameters@,
                args,
                args.len() as int,
            ),
            fuel,
        ).0 == Ok::<Value, Seq<char>>(Value::Return(Box::new(inner))),
    ensures
        apply(lit, captured, args, st, fuel).0 == Ok::<Value, Seq<char>>(unwrap(inner)),
{
}

/// Integer division and remainder by zero are the error "division by zero",
/// never a value.
pub proof fn lemma_integer_division_by_zero(op: TokenType, a: i64)
    requires
        op == TokenType::Divide || op == TokenType::Modulo,
    ensures
        infix(op, Value::Integer(a), Value::Integer(0)) == Err::<Value, Seq<char>>(
            "division by zero"@,
        ),
{
}

/// Dividing a double by zero gives the IEEE 754 quotient (an infinity or a
/// NaN), with an integer zero made a double first.
pub proof fn lemma_float_division_by_zero(a: u64, zero: Value)
    requires
        zero == Value::Integer(0) || zero == Value::Float(0),
    ensures
        infix(TokenType::Divide, Value::Float(a), zero) == Ok::<Value, Seq<char>>(
            Value::Float(
                double_quotient(
                    a,
                    if zero == Value::Integer(0) {
                        double_from_int(0)
                    } else {
                        0
                    },
                ),
            ),
        ),
{
}

} // verus!
