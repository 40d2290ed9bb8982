//! Precedence-climbing parser from tokens to the syntax tree.
use vstd::prelude::*;
use vstd::string::{StrSliceExecFns, StringExecFns};
use crate::ast::{
    block_view, expr_view, exprs_view, ident_view, idents_view, lemma_exprs_view_push,
    lemma_idents_view_push, lemma_stmts_view_push, stmt_view, stmts_view, BlockV, ExprV, IdentV, StmtV, TokenView, AssignStatement, BlockStatement, BooleanLiteral, CallExpression, Expression,
    ExpressionStatement, FloatLiteral, FunctionLiteral, Identifier, IfExpression, InfixExpression,
    IntegerLiteral, PrefixExpression, Program, ReturnStatement, Statement, StringLiteral,
    WhileExpression,
};
use crate::double::{double_from_text, parse_double};
use crate::glyph::{digit_glyph, dot_glyph, string_close, string_open};
use crate::lexer::{join, number_len, number_text, scan_from, scan_one, string_len, token_views, Lexer};
use crate::token::{start_view, Token, TokenType};
use crate::util::StatefulVector;

verus! {

/// How tightly an operator binds, from loosest to tightest.
#[derive(Debug, PartialEq, Eq, Structural, PartialOrd, Ord, Clone, Copy)]
pub enum Precedence {
    Lowest,
    Or,
    And,
    Equals,
    LessGreater,
    Sum,
    Product,
    Prefix,
    Call,
}

/// The position of a precedence in the order from loosest to tightest.
pub open spec fn rank(p: Precedence) -> nat {
    match p {
        Precedence::Lowest => 0,
        Precedence::Or => 1,
        Precedence::And => 2,
        Precedence::Equals => 3,
        Precedence::LessGreater => 4,
        Precedence::Sum => 5,
        Precedence::Product => 6,
        Precedence::Prefix => 7,
        Precedence::Call => 8,
    }
}

impl Precedence {
    pub fn rank(&self) -> (r: u8)
        ensures
            r as nat == rank(*self),
    {
        match self {
            Precedence::Lowest => 0,
            Precedence::Or => 1,
            Precedence::And => 2,
            Precedence::Equals => 3,
            Precedence::LessGreater => 4,
            Precedence::Sum => 5,
            Precedence::Product => 6,
            Precedence::Prefix => 7,
            Precedence::Call => 8,
        }
    }
}

/// The precedence of a token in operator position; `Lowest` for a token
/// that is no operator.
pub open spec fn precedence_of(t: TokenType) -> Precedence {
    match t {
        TokenType::Or => Precedence::Or,
        TokenType::And => Precedence::And,
        TokenType::Equal | TokenType::NotEqual => Precedence::Equals,
        TokenType::LessThan
        | TokenType::LessThanOrEqual
        | TokenType::GreaterThan
        | TokenType::GreaterThanOrEqual => Precedence::LessGreater,
        TokenType::Plus | TokenType::Minus => Precedence::Sum,
        TokenType::Multiply | TokenType::Divide | TokenType::Modulo => Precedence::Product,
        TokenType::LParenthesis => Precedence::Call,
        _ => Precedence::Lowest,
    }
}

pub fn get_operator_precedence(token: &Token) -> (r: Precedence)
    ensures
        r == precedence_of(token.token_type),
{
    match token.token_type {
        TokenType::Or => Precedence::Or,
        TokenType::And => Precedence::And,
        TokenType::Equal | TokenType::NotEqual => Precedence::Equals,
        TokenType::LessThan
        | TokenType::LessThanOrEqual
        | TokenType::GreaterThan
        | TokenType::GreaterThanOrEqual => Precedence::LessGreater,
        TokenType::Plus | TokenType::Minus => Precedence::Sum,
        TokenType::Multiply | TokenType::Divide | TokenType::Modulo => Precedence::Product,
        TokenType::LParenthesis => Precedence::Call,
        _ => Precedence::Lowest,
    }
}

/// The parsers that can start an expression, one per kind of first token.
#[derive(Debug, PartialEq, Eq, Structural, Clone, Copy)]
pub enum PrefixParse {
    Identifier,
    Integer,
    Float,
    Boolean,
    Str,
    Operator,
    Group,
    If,
    While,
    Function,
}

/// The parsers that continue an expression after an operator token.
#[derive(Debug, PartialEq, Eq, Structural, Clone, Copy)]
pub enum InfixParse {
    Operator,
    Call,
}

/// The prefix parser registered for a kind of token.
pub open spec fn prefix_parse_of(t: TokenType) -> Option<PrefixParse> {
    match t {
        TokenType::Identifier => Some(PrefixParse::Identifier),
        TokenType::Integer => Some(PrefixParse::Integer),
        TokenType::Float => Some(PrefixParse::Float),
        TokenType::True | TokenType::False => Some(PrefixParse::Boolean),
        TokenType::String => Some(PrefixParse::Str),
        TokenType::Not | TokenType::Minus => Some(PrefixParse::Operator),
        TokenType::LParenthesis => Some(PrefixParse::Group),
        TokenType::If => Some(PrefixParse::If),
        TokenType::While => Some(PrefixParse::While),
        TokenType::Function => Some(PrefixParse::Function),
        _ => None,
    }
}

/// The infix parser registered for a kind of token: exactly the operators
/// that bind tighter than `Lowest`.
pub open spec fn infix_parse_of(t: TokenType) -> Option<InfixParse> {
    if t == TokenType::LParenthesis {
        Some(InfixParse::Call)
    } else if rank(precedence_of(t)) > 0 {
        Some(InfixParse::Operator)
    } else {
        None
    }
}

pub fn prefix_parse_fn(t: TokenType) -> (r: Option<PrefixParse>)
    ensures
        r == prefix_parse_of(t),
{
    match t {
        TokenType::Identifier => Some(PrefixParse::Identifier),
        TokenType::Integer => Some(PrefixParse::Integer),
        TokenType::Float => Some(PrefixParse::Float),
        TokenType::True | TokenType::False => Some(PrefixParse::Boolean),
        TokenType::String => Some(PrefixParse::Str),
        TokenType::Not | TokenType::Minus => Some(PrefixParse::Operator),
        TokenType::LParenthesis => Some(PrefixParse::Group),
        TokenType::If => Some(PrefixParse::If),
        TokenType::While => Some(PrefixParse::While),
        TokenType::Function => Some(PrefixParse::Function),
        _ => None,
    }
}

pub fn infix_parse_fn(t: TokenType) -> (r: Option<InfixParse>)
    ensures
        r == infix_parse_of(t),
{
    if t == TokenType::LParenthesis {
        Some(InfixParse::Call)
    } else if get_operator_precedence(&Token { token_type: t, literal: String::new() }).rank() > 0 {
        Some(InfixParse::Operator)
    } else {
        None
    }
}

/// The value of a text of ASCII digits.
pub open spec fn digits_value(s: Seq<char>) -> int
    decreases s.len(),
{
    if s.len() == 0 {
        0
    } else {
        digits_value(s.drop_last()) * 10 + (s.last() as int - '0' as int)
    }
}

pub open spec fn all_digits(s: Seq<char>) -> bool {
    forall|k: int| 0 <= k < s.len() ==> '0' <= #[trigger] s[k] <= '9'
}

/// The text is a decimal integer that fits in an `i64`.
pub open spec fn is_i64_text(s: Seq<char>) -> bool {
    s.len() > 0 && all_digits(s) && digits_value(s) <= i64::MAX
}

proof fn lemma_digits_value_monotone(s: Seq<char>, k: int)
    requires
        all_digits(s),
        0 <= k <= s.len(),
    ensures
        digits_value(s.subrange(0, k)) <= digits_value(s),
        0 <= digits_value(s.subrange(0, k)),
    decreases s.len() - k,
{
    if k < s.len() {
        lemma_digits_value_monotone(s, k + 1);
        assert(s.subrange(0, k + 1).drop_last() =~= s.subrange(0, k));
        assert(s.subrange(0, k + 1).last() == s[k]);
    } else {
        assert(s.subrange(0, k) =~= s);
        lemma_digits_value_nonnegative(s);
    }
}

proof fn lemma_digits_value_nonnegative(s: Seq<char>)
    requires
        all_digits(s),
    ensures
        0 <= digits_value(s),
    decreases s.len(),
{
    if s.len() > 0 {
        assert(all_digits(s.drop_last()));
        lemma_digits_value_nonnegative(s.drop_last());
    }
}

/// Reads a decimal integer, as `str::parse::<i64>` does for a text of
/// ASCII digits, with its error messages.
pub fn parse_decimal(s: &str) -> (r: Result<i64, String>)
    ensures
        r is Ok <==> is_i64_text(s@),
        r is Ok ==> r->Ok_0 as int == digits_value(s@),
        match r {
            Ok(v) => decimal_reading(s@) == Ok::<i64, Seq<char>>(v),
            Err(m) => decimal_reading(s@) == Err::<i64, Seq<char>>(m@),
        },
{
    let n = s.unicode_len();
    if n == 0 {
        return Err(String::from_str("cannot parse integer from empty string"));
    }
    let mut k: usize = 0;
    while k < n
        invariant
            n == s@.len(),
            k <= n,
            forall|j: int| 0 <= j < k ==> '0' <= #[trigger] s@[j] <= '9',
        decreases n - k,
    {
        let c = s.get_char(k);
        if c < '0' || c > '9' {
            return Err(String::from_str("invalid digit found in string"));
        }
        k = k + 1;
    }
    assert(all_digits(s@));
    let mut value: i64 = 0;
    let mut k: usize = 0;
    assert(s@.subrange(0, 0) =~= Seq::<char>::empty());
    while k < n
        invariant
            n == s@.len(),
            k <= n,
            all_digits(s@),
            all_digits(s@.subrange(0, k as int)),
            value as int == digits_value(s@.subrange(0, k as int)),
            0 <= value,
        decreases n - k,
    {
        let c = s.get_char(k);
        proof {
            let t = s@.subrange(0, k + 1);
            assert(t.drop_last() =~= s@.subrange(0, k as int));
            assert(t.last() == c);
            assert(all_digits(t));
        }
        let d = (c as u32 - '0' as u32) as i64;
        if value > (i64::MAX - d) / 10 {
            proof {
                lemma_digits_value_monotone(s@, k + 1);
            }
            return Err(String::from_str("number too large to fit in target type"));
        }
        value = value * 10 + d;
        k = k + 1;
    }
    assert(s@.subrange(0, n as int) =~= s@);
    Ok(value)
}

/// The kind of the token at `p`, if there is one.
pub open spec fn kind_at(ts: Seq<TokenView>, p: int) -> Option<TokenType> {
    if 0 <= p < ts.len() {
        Some(ts[p].0)
    } else {
        None
    }
}

/// The token after `p` exists and has kind `k`.
pub open spec fn next_kind_is(ts: Seq<TokenView>, p: int, k: TokenType) -> bool {
    kind_at(ts, p + 1) == Some(k)
}

/// The position after the semicolons that follow `p`.
pub open spec fn skip_semicolons(ts: Seq<TokenView>, p: int) -> int
    decreases ts.len() - p,
{
    if 0 <= p && next_kind_is(ts, p, TokenType::Semicolon) {
        skip_semicolons(ts, p + 1)
    } else {
        p
    }
}

pub open spec fn ident_at(ts: Seq<TokenView>, p: int) -> IdentV {
    IdentV { token: ts[p], value: ts[p].1 }
}

/// The message of a parse that runs off the token sequence; the parser
/// always stands on a token, so it never gives this one.
pub open spec fn off_the_tokens() -> Seq<char> {
    "Expected a token"@
}

/// What a decimal integer text reads as, with the messages of
/// `str::parse::<i64>` for text that is not one.
pub open spec fn decimal_reading(s: Seq<char>) -> Result<i64, Seq<char>> {
    if s.len() == 0 {
        Err("cannot parse integer from empty string"@)
    } else if !all_digits(s) {
        Err("invalid digit found in string"@)
    } else if digits_value(s) > i64::MAX {
        Err("number too large to fit in target type"@)
    } else {
        Ok(digits_value(s) as i64)
    }
}

/// The grammar, as a parse of the token views from a position. Each parse
/// gives its tree or the message of its error, and the position where the
/// cursor stops, on the last token read.
pub open spec fn p_statement(ts: Seq<TokenView>, pos: int) -> (Result<StmtV, Seq<char>>, int)
    decreases ts.len() - pos, 12int,
{
    if !(0 <= pos < ts.len()) {
        (Err(off_the_tokens()), pos)
    } else if ts[pos].0 == TokenType::Identifier {
        p_assign(ts, pos)
    } else if ts[pos].0 == TokenType::Return {
        p_return(ts, pos)
    } else if ts[pos].0 == TokenType::LBrace {
        let (b, p) = p_block(ts, pos);
        match b {
            Ok(block) => (Ok(StmtV::Block(block)), p),
            Err(m) => (Err(m), p),
        }
    } else {
        p_expression_statement(ts, pos)
    }
}

pub open spec fn p_assign(ts: Seq<TokenView>, pos: int) -> (Result<StmtV, Seq<char>>, int)
    decreases ts.len() - pos, 10int,
{
    if !(0 <= pos < ts.len()) {
        (Err(off_the_tokens()), pos)
    } else if !next_kind_is(ts, pos, TokenType::Assign) {
        p_expression_statement(ts, pos)
    } else if pos + 2 >= ts.len() {
        (Err("Expected a expression after "@ + ts[pos + 1].1), pos + 1)
    } else {
        let (v, p) = p_expression(ts, pos + 2, Precedence::Lowest);
        match v {
            Ok(e) => (
                Ok(StmtV::Assign(ts[pos + 1], ident_at(ts, pos), e)),
                skip_semicolons(ts, p),
            ),
            Err(m) => (Err(m), p),
        }
    }
}

pub open spec fn p_return(ts: Seq<TokenView>, pos: int) -> (Result<StmtV, Seq<char>>, int)
    decreases ts.len() - pos, 10int,
{
    if !(0 <= pos < ts.len()) {
        (Err(off_the_tokens()), pos)
    } else if pos + 1 >= ts.len() {
        (Err("Expected a expression after "@ + ts[pos].1), pos)
    } else {
        let (v, p) = p_expression(ts, pos + 1, Precedence::Lowest);
        match v {
            Ok(e) => (Ok(StmtV::Return(ts[pos], e)), skip_semicolons(ts, p)),
            Err(m) => (Err(m), p),
        }
    }
}

pub open spec fn p_expression_statement(ts: Seq<TokenView>, pos: int) -> (
    Result<StmtV, Seq<char>>,
    int,
)
    decreases ts.len() - pos, 8int,
{
    if !(0 <= pos < ts.len()) {
        (Err(off_the_tokens()), pos)
    } else {
        let (v, p) = p_expression(ts, pos, Precedence::Lowest);
        match v {
            Ok(e) => (Ok(StmtV::Expression(ts[pos], e)), skip_semicolons(ts, p)),
            Err(m) => (Err(m), p),
        }
    }
}

/// A block from its `🫸` at `pos`.
pub open spec fn p_block(ts: Seq<TokenView>, pos: int) -> (Result<BlockV, Seq<char>>, int)
    decreases ts.len() - pos, 10int,
{
    if !(0 <= pos < ts.len()) {
        (Err(off_the_tokens()), pos)
    } else if pos + 1 >= ts.len() {
        (Err("Expected a right brace"@), pos)
    } else {
        p_block_from(ts, pos + 1, ts[pos], Seq::empty())
    }
}

/// The rest of a block from `p`, after the statements `done`.
pub open spec fn p_block_from(ts: Seq<TokenView>, p: int, token: TokenView, done: Seq<StmtV>) -> (
    Result<BlockV, Seq<char>>,
    int,
)
    decreases ts.len() - p, 13int,
{
    if !(0 <= p < ts.len()) {
        (Err(off_the_tokens()), p)
    } else if ts[p].0 == TokenType::RBrace {
        (Ok(BlockV { token, statements: done }), p)
    } else {
        let (s, after) = p_statement(ts, p);
        match s {
            Err(m) => (Err(m), after),
            Ok(statement) => if after < p {
                (Err(off_the_tokens()), after)
            } else if after + 1 >= ts.len() {
                (Err("Expected a right brace"@), after)
            } else {
                p_block_from(ts, after + 1, token, done.push(statement))
            },
        }
    }
}

/// The longest expression from `pos` whose operators bind tighter than `precedence`.
pub open spec fn p_expression(ts: Seq<TokenView>, pos: int, precedence: Precedence) -> (
    Result<ExprV, Seq<char>>,
    int,
)
    decreases ts.len() - pos, 6int,
{
    let (l, after) = p_prefix(ts, pos);
    match l {
        Err(m) => (Err(m), after),
        Ok(left) => if pos <= after < ts.len() {
            p_infix_loop(ts, after, precedence, left)
        } else {
            (Err(off_the_tokens()), after)
        },
    }
}

/// Folds the operators after `p` into `left`, while they bind tighter than
/// `precedence`.
pub open spec fn p_infix_loop(ts: Seq<TokenView>, p: int, precedence: Precedence, left: ExprV) -> (
    Result<ExprV, Seq<char>>,
    int,
)
    decreases ts.len() - p, 5int,
{
    if 0 <= p && p + 1 < ts.len() && ts[p + 1].0 != TokenType::Semicolon && rank(precedence) < rank(
        precedence_of(ts[p + 1].0),
    ) && infix_parse_of(ts[p + 1].0) is Some {
        let (r, after) = if infix_parse_of(ts[p + 1].0) == Some(InfixParse::Call) {
            p_call(ts, p + 1, left)
        } else {
            p_infix(ts, p + 1, left)
        };
        match r {
            Err(m) => (Err(m), after),
            Ok(e) => if p < after < ts.len() {
                p_infix_loop(ts, after, precedence, e)
            } else {
                (Err(off_the_tokens()), after)
            },
        }
    } else {
        (Ok(left), p)
    }
}

pub open spec fn p_prefix(ts: Seq<TokenView>, pos: int) -> (Result<ExprV, Seq<char>>, int)
    decreases ts.len() - pos, 4int,
{
    if !(0 <= pos < ts.len()) {
        (Err(off_the_tokens()), pos)
    } else {
        let t = ts[pos];
        match prefix_parse_of(t.0) {
            None => (Err("Expected a expression, but got a "@ + t.1), pos),
            Some(PrefixParse::Identifier) => (Ok(ExprV::Identifier(ident_at(ts, pos))), pos),
            Some(PrefixParse::Integer) => (
                match decimal_reading(t.1) {
                    Ok(v) => Ok(ExprV::Integer(t, v)),
                    Err(m) => Err(m),
                },
                pos,
            ),
            Some(PrefixParse::Float) => (
                match double_from_text(t.1) {
                    Some(bits) => Ok(ExprV::Float(t, bits)),
                    None => Err("invalid float literal"@),
                },
                pos,
            ),
            Some(PrefixParse::Boolean) => (Ok(ExprV::Boolean(t, t.0 == TokenType::True)), pos),
            Some(PrefixParse::Str) => (Ok(ExprV::Str(t, t.1)), pos),
            Some(PrefixParse::Operator) => p_prefix_operator(ts, pos),
            Some(PrefixParse::Group) => p_group(ts, pos),
            Some(PrefixParse::If) => p_if(ts, pos),
            Some(PrefixParse::While) => p_while(ts, pos),
            Some(PrefixParse::Function) => p_function(ts, pos),
        }
    }
}

pub open spec fn p_prefix_operator(ts: Seq<TokenView>, pos: int) -> (Result<ExprV, Seq<char>>, int)
    decreases ts.len() - pos, 2int,
{
    if !(0 <= pos < ts.len()) {
        (Err(off_the_tokens()), pos)
    } else if pos + 1 >= ts.len() {
        (Err("Expected a expression after operator "@ + ts[pos].1), pos)
    } else {
        let (r, p) = p_expression(ts, pos + 1, Precedence::Prefix);
        match r {
            Ok(e) => (Ok(ExprV::Prefix(ts[pos], ts[pos].1, Box::new(e))), p),
            Err(m) => (Err(m), p),
        }
    }
}

/// The right side of a binary operator at `pos`, folded with `left`.
pub open spec fn p_infix(ts: Seq<TokenView>, pos: int, left: ExprV) -> (Result<ExprV, Seq<char>>, int)
    decreases ts.len() - pos, 2int,
{
    if !(0 <= pos < ts.len()) {
        (Err(off_the_tokens()), pos)
    } else if pos + 1 >= ts.len() {
        (Err("Expected a expression after operator "@ + ts[pos].1), pos)
    } else {
        let (r, p) = p_expression(ts, pos + 1, precedence_of(ts[pos].0));
        match r {
            Ok(e) => (Ok(ExprV::Infix(ts[pos], Box::new(left), ts[pos].1, Box::new(e))), p),
            Err(m) => (Err(m), p),
        }
    }
}

/// The arguments of a call whose `🌜` is at `pos`.
pub open spec fn p_call(ts: Seq<TokenView>, pos: int, function: ExprV) -> (
    Result<ExprV, Seq<char>>,
    int,
)
    decreases ts.len() - pos, 4int,
{
    if !(0 <= pos < ts.len()) {
        (Err(off_the_tokens()), pos)
    } else if next_kind_is(ts, pos, TokenType::RParenthesis) {
        (Ok(ExprV::Call(ts[pos], Box::new(function), Seq::empty())), pos + 1)
    } else {
        p_arguments(ts, pos, ts[pos], function, Seq::empty())
    }
}

/// The arguments after the `🌜` or `🦶` at `p`, after the arguments `done`.
pub open spec fn p_arguments(
    ts: Seq<TokenView>,
    p: int,
    token: TokenView,
    function: ExprV,
    done: Seq<ExprV>,
) -> (Result<ExprV, Seq<char>>, int)
    decreases ts.len() - p, 3int,
{
    if !(0 <= p < ts.len()) {
        (Err(off_the_tokens()), p)
    } else if p + 1 >= ts.len() {
        (Err("Expected a right parenthesis"@), p)
    } else {
        let (r, after) = p_expression(ts, p + 1, Precedence::Lowest);
        match r {
            Err(m) => (Err(m), after),
            Ok(a) => if next_kind_is(ts, after, TokenType::Comma) {
                if after + 1 > p {
                    p_arguments(ts, after + 1, token, function, done.push(a))
                } else {
                    (Err(off_the_tokens()), after)
                }
            } else if next_kind_is(ts, after, TokenType::RParenthesis) {
                (Ok(ExprV::Call(token, Box::new(function), done.push(a))), after + 1)
            } else {
                (Err("Expected a comma or a right parenthesis"@), after)
            },
        }
    }
}

pub open spec fn p_group(ts: Seq<TokenView>, pos: int) -> (Result<ExprV, Seq<char>>, int)
    decreases ts.len() - pos, 2int,
{
    if !(0 <= pos < ts.len()) {
        (Err(off_the_tokens()), pos)
    } else if pos + 1 >= ts.len() {
        (Err("Expected a expression after a left parenthesis"@), pos)
    } else {
        let (r, p) = p_expression(ts, pos + 1, Precedence::Lowest);
        match r {
            Err(m) => (Err(m), p),
            Ok(e) => if next_kind_is(ts, p, TokenType::RParenthesis) {
                (Ok(e), p + 1)
            } else {
                (Err("Expected a right parenthesis"@), p)
            },
        }
    }
}

pub open spec fn p_if(ts: Seq<TokenView>, pos: int) -> (Result<ExprV, Seq<char>>, int)
    decreases ts.len() - pos, 2int,
{
    if !(0 <= pos < ts.len()) {
        (Err(off_the_tokens()), pos)
    } else if pos + 1 >= ts.len() {
        (Err("Expected a condition after if"@), pos)
    } else {
        let (c, after_condition) = p_expression(ts, pos + 1, Precedence::Lowest);
        match c {
            Err(m) => (Err(m), after_condition),
            Ok(condition) => if after_condition < pos {
                (Err(off_the_tokens()), after_condition)
            } else if !next_kind_is(ts, after_condition, TokenType::LBrace) {
                (Err("Expected a block statement after if-condition"@), after_condition)
            } else {
                let (b, after_block) = p_block(ts, after_condition + 1);
                match b {
                    Err(m) => (Err(m), after_block),
                    Ok(consequence) => if !next_kind_is(ts, after_block, TokenType::Else) {
                        (Ok(ExprV::If(ts[pos], Box::new(condition), consequence, None)), after_block)
                    } else if after_block < pos {
                        (Err(off_the_tokens()), after_block)
                    } else if !next_kind_is(ts, after_block + 1, TokenType::LBrace) {
                        (Err("Expected a block statement after else"@), after_block + 1)
                    } else {
                        let (a, after_else) = p_block(ts, after_block + 2);
                        match a {
                            Err(m) => (Err(m), after_else),
                            Ok(alternative) => (
                                Ok(
                                    ExprV::If(
                                        ts[pos],
                                        Box::new(condition),
                                        consequence,
                                        Some(alternative),
                                    ),
                                ),
                                after_else,
                            ),
                        }
                    },
                }
            },
        }
    }
}

pub open spec fn p_while(ts: Seq<TokenView>, pos: int) -> (Result<ExprV, Seq<char>>, int)
    decreases ts.len() - pos, 2int,
{
    if !(0 <= pos < ts.len()) {
        (Err(off_the_tokens()), pos)
    } else if pos + 1 >= ts.len() {
        (Err("Expected a condition after while"@), pos)
    } else {
        let (c, after_condition) = p_expression(ts, pos + 1, Precedence::Lowest);
        match c {
            Err(m) => (Err(m), after_condition),
            Ok(condition) => if after_condition < pos {
                (Err(off_the_tokens()), after_condition)
            } else if !next_kind_is(ts, after_condition, TokenType::LBrace) {
                (Err("Expected a block statement after while-condition"@), after_condition)
            } else {
                let (b, after_block) = p_block(ts, after_condition + 1);
                match b {
                    Err(m) => (Err(m), after_block),
                    Ok(body) => (Ok(ExprV::While(ts[pos], Box::new(condition), body)), after_block),
                }
            },
        }
    }
}

/// The parameters after the `🌜` or `🦶` at `p`, after the parameters `done`.
pub open spec fn p_parameters(ts: Seq<TokenView>, p: int, done: Seq<IdentV>) -> (
    Result<Seq<IdentV>, Seq<char>>,
    int,
)
    decreases ts.len() - p,
{
    if p < 0 {
        (Err(off_the_tokens()), p)
    } else if p + 1 >= ts.len() {
        (Err("Expected a right parenthesis"@), p)
    } else if ts[p + 1].0 == TokenType::RParenthesis {
        (Ok(done), p + 1)
    } else if ts[p + 1].0 != TokenType::Identifier {
        (Err("Expected a identifier, but got a "@ + ts[p + 1].1), p + 1)
    } else if next_kind_is(ts, p + 1, TokenType::RParenthesis) {
        p_parameters(ts, p + 1, done.push(ident_at(ts, p + 1)))
    } else if p + 2 >= ts.len() {
        (Err("Expected a right parenthesis"@), p + 1)
    } else if ts[p + 2].0 != TokenType::Comma {
        (Err("Expected a comma, but got a "@ + ts[p + 2].1), p + 2)
    } else {
        p_parameters(ts, p + 2, done.push(ident_at(ts, p + 1)))
    }
}

pub open spec fn p_function(ts: Seq<TokenView>, pos: int) -> (Result<ExprV, Seq<char>>, int)
    decreases ts.len() - pos, 2int,
{
    if !(0 <= pos < ts.len()) {
        (Err(off_the_tokens()), pos)
    } else {
        let named = next_kind_is(ts, pos, TokenType::Identifier);
        let name = if named {
            Some(ident_at(ts, pos + 1))
        } else {
            None
        };
        let at_open = if named {
            pos + 1
        } else {
            pos
        };
        if !next_kind_is(ts, at_open, TokenType::LParenthesis) {
            (Err("Expected a left parenthesis"@), at_open)
        } else {
            let (ps, after_parameters) = p_parameters(ts, at_open + 1, Seq::empty());
            match ps {
                Err(m) => (Err(m), after_parameters),
                Ok(parameters) => if after_parameters < pos {
                    (Err(off_the_tokens()), after_parameters)
                } else if !next_kind_is(ts, after_parameters, TokenType::LBrace) {
                    (Err("Expected a left brace"@), after_parameters)
                } else {
                    let (b, after_body) = p_block(ts, after_parameters + 1);
                    match b {
                        Err(m) => (Err(m), after_body),
                        Ok(body) => (Ok(ExprV::Function(ts[pos], name, parameters, body)), after_body),
                    }
                },
            }
        }
    }
}

/// The statements from the token after `p` to the end, after the
/// statements `done` and the error messages `errors`; and all the messages,
/// in the order met.
pub open spec fn p_program(
    ts: Seq<TokenView>,
    p: int,
    done: Seq<StmtV>,
    errors: Seq<Seq<char>>,
) -> (Seq<StmtV>, Seq<Seq<char>>)
    decreases ts.len() - p,
{
    if !(0 <= p) || p + 1 >= ts.len() {
        (done, errors)
    } else {
        let (s, after) = p_statement(ts, p + 1);
        if after <= p || after >= ts.len() {
            (done, errors)
        } else {
            match s {
                Ok(statement) => p_program(ts, after, done.push(statement), errors),
                Err(m) => p_program(ts, after, done, errors.push(m)),
            }
        }
    }
}

/// Whether the kind of `t` is `kind`.
pub open spec fn is_kind(t: Option<&Token>, kind: TokenType) -> bool {
    t is Some && t->0.token_type == kind
}

/// Parses the tokens of one source into a program, collecting the errors
/// of the statements that do not parse.
pub struct Parser {
    tokens: StatefulVector<Token>,
    errors: Vec<String>,
}

/// A parse result agrees with the grammar's: the same tree, or an error
/// where the grammar has none, and the cursor where the grammar stops.
pub open spec fn parsed_statement(
    r: Result<Statement, String>,
    g: (Result<StmtV, Seq<char>>, int),
    cursor: int,
) -> bool {
    &&& cursor == g.1
    &&& match r {
        Ok(s) => g.0 == Ok::<StmtV, Seq<char>>(stmt_view(s)),
        Err(m) => g.0 == Err::<StmtV, Seq<char>>(m@),
    }
}

pub open spec fn parsed_expression(
    r: Result<Expression, String>,
    g: (Result<ExprV, Seq<char>>, int),
    cursor: int,
) -> bool {
    &&& cursor == g.1
    &&& match r {
        Ok(e) => g.0 == Ok::<ExprV, Seq<char>>(expr_view(e)),
        Err(m) => g.0 == Err::<ExprV, Seq<char>>(m@),
    }
}

pub open spec fn parsed_block(
    r: Result<BlockStatement, String>,
    g: (Result<BlockV, Seq<char>>, int),
    cursor: int,
) -> bool {
    &&& cursor == g.1
    &&& match r {
        Ok(b) => g.0 == Ok::<BlockV, Seq<char>>(block_view(b)),
        Err(m) => g.0 == Err::<BlockV, Seq<char>>(m@),
    }
}

impl Parser {
    /// The views of the tokens.
    pub open spec fn tv(&self) -> Seq<TokenView> {
        token_views(self.token_seq())
    }

    pub closed spec fn token_seq(&self) -> Seq<Token> {
        self.tokens@
    }

    pub closed spec fn cursor(&self) -> int {
        self.tokens.pos()
    }

    pub closed spec fn error_list(&self) -> Seq<String> {
        self.errors@
    }

    /// The texts of the errors collected so far.
    pub open spec fn error_texts(&self) -> Seq<Seq<char>> {
        self.error_list().map_values(|e: String| e@)
    }

    /// The cursor stands on a token.
    pub open spec fn wf(&self) -> bool {
        0 <= self.cursor() < self.token_seq().len()
    }

    pub open spec fn remaining(&self) -> int {
        self.token_seq().len() - self.cursor()
    }

    pub open spec fn current_token(&self) -> Token {
        self.token_seq()[self.cursor()]
    }

    /// The token after the cursor, if any.
    pub open spec fn next_token(&self) -> Option<Token> {
        if self.cursor() + 1 < self.token_seq().len() {
            Some(self.token_seq()[self.cursor() + 1])
        } else {
            None
        }
    }

    pub open spec fn next_is(&self, kind: TokenType) -> bool {
        self.next_token() is Some && self.next_token()->0.token_type == kind
    }

    /// `new` is `old` with the cursor moved forward, still on a token, and
    /// no error added.
    pub open spec fn moved_on(old: &Parser, new: &Parser) -> bool {
        &&& new.token_seq() == old.token_seq()
        &&& new.wf()
        &&& old.cursor() <= new.cursor()
        &&& new.error_list() == old.error_list()
    }

    /// A parser over the tokens of the lexer's source, standing on the start token.
    pub fn new(lexer: &mut Lexer<'_>) -> (r: Parser)
        ensures
            token_views(r.token_seq()) == seq![start_view()] + scan_from(
                old(lexer).glyphs(),
                old(lexer).cursor(),
            ),
            r.cursor() == 0,
            r.error_list().len() == 0,
            r.wf(),
    {
        let tokens = lexer.tokenize();
        assert(token_views(tokens@)[0] == start_view());
        // a fresh cursor, on the start token
        let tokens = StatefulVector::from_vec(tokens.to_vec());
        Parser { tokens, errors: Vec::new() }
    }

    /// The errors collected so far, in the order met.
    pub fn errors(&self) -> (r: &Vec<String>)
        ensures
            r@ == self.error_list(),
    {
        &self.errors
    }

    fn current(&self) -> (r: &Token)
        requires
            self.wf(),
        ensures
            *r == self.current_token(),
            r@ == self.tv()[self.cursor()],
    {
        self.tokens.current().unwrap()
    }

    fn peek(&self) -> (r: Option<&Token>)
        ensures
            r == match self.next_token() {
                Some(t) => Some(&t),
                None => None,
            },
            r is Some ==> r->0@ == self.tv()[self.cursor() + 1] && self.cursor() + 1 < self.tv().len(),
            r is None ==> self.cursor() + 1 >= self.tv().len(),
    {
        proof {
            self.tokens.lemma_pos_nonnegative();
        }
        self.tokens.peek_next()
    }

    fn next_is_kind(&self, kind: TokenType) -> (r: bool)
        ensures
            r == self.next_is(kind),
            r == next_kind_is(self.tv(), self.cursor(), kind),
    {
        proof {
            self.tokens.lemma_pos_nonnegative();
        }
        match self.tokens.peek_next() {
            Some(t) => t.token_type == kind,
            None => false,
        }
    }

    /// Moves onto the next token if there is one.
    fn advance(&mut self) -> (r: bool)
        requires
            old(self).wf(),
        ensures
            Self::moved_on(old(self), final(self)),
            r == (old(self).next_token() is Some),
            r ==> final(self).cursor() == old(self).cursor() + 1,
            !r ==> final(self).cursor() == old(self).cursor(),
    {
        self.tokens.to_next().is_some()
    }

    /// Passes over the semicolons that follow the cursor.
    fn skip_semicolons(&mut self)
        requires
            old(self).wf(),
        ensures
            Self::moved_on(old(self), final(self)),
            !final(self).next_is(TokenType::Semicolon),
            final(self).cursor() == skip_semicolons(old(self).tv(), old(self).cursor()),
    {
        while self.next_is_kind(TokenType::Semicolon)
            invariant
                Self::moved_on(old(self), self),
                skip_semicolons(old(self).tv(), old(self).cursor()) == skip_semicolons(
                    self.tv(),
                    self.cursor(),
                ),
            decreases self.remaining(),
        {
            self.advance();
        }
    }

    /// Parses every statement, from the token after the cursor to the end.
    /// A statement that does not parse adds its error and parsing goes on
    /// after the token where it stopped.
    pub fn parse_program(&mut self) -> (r: Program)
        requires
            old(self).wf(),
        ensures
            final(self).token_seq() == old(self).token_seq(),
            final(self).wf(),
            final(self).next_token() is None,
            stmts_view(r.statements@, r.statements@.len() as int) == p_program(
                old(self).tv(),
                old(self).cursor(),
                Seq::empty(),
                Seq::empty(),
            ).0,
            final(self).error_texts() == old(self).error_texts() + p_program(
                old(self).tv(),
                old(self).cursor(),
                Seq::empty(),
                Seq::empty(),
            ).1,
    {
        let ghost ts = self.tv();
        let mut statements: Vec<Statement> = Vec::new();
        assert(stmts_view(statements@, 0) =~= Seq::<StmtV>::empty());
        assert(self.error_texts().subrange(
            self.error_texts().len() as int,
            self.error_texts().len() as int,
        ) =~= Seq::<Seq<char>>::empty());
        assert(self.error_texts() =~= old(self).error_texts() + Seq::<Seq<char>>::empty());
        while self.advance()
            invariant
                self.token_seq() == old(self).token_seq(),
                ts == self.tv(),
                ts == old(self).tv(),
                self.wf(),
                old(self).error_texts().len() <= self.error_texts().len(),
                self.error_texts() == old(self).error_texts() + self.error_texts().subrange(
                    old(self).error_texts().len() as int,
                    self.error_texts().len() as int,
                ),
                p_program(ts, old(self).cursor(), Seq::empty(), Seq::empty()) == p_program(
                    ts,
                    self.cursor(),
                    stmts_view(statements@, statements@.len() as int),
                    self.error_texts().subrange(
                        old(self).error_texts().len() as int,
                        self.error_texts().len() as int,
                    ),
                ),
            decreases self.remaining(),
        {
            match self.parse_statement() {
                Ok(statement) => {
                    proof {
                        lemma_stmts_view_push(statements@, statement);
                    }
                    statements.push(statement);
                },
                Err(message) => {
                    let ghost before = self.error_texts();
                    let ghost text = message@;
                    self.errors.push(message);
                    assert(self.error_texts() =~= before.push(text));
                    assert(self.error_texts().subrange(
                        old(self).error_texts().len() as int,
                        self.error_texts().len() as int,
                    ) =~= before.subrange(
                        old(self).error_texts().len() as int,
                        before.len() as int,
                    ).push(text));
                    assert(self.error_texts() =~= old(self).error_texts() + self.error_texts().subrange(
                        old(self).error_texts().len() as int,
                        self.error_texts().len() as int,
                    ));
                },
            }
        }
        Program { statements }
    }

    fn parse_statement(&mut self) -> (r: Result<Statement, String>)
        requires
            old(self).wf(),
        ensures
            Self::moved_on(old(self), final(self)),
            parsed_statement(r, p_statement(old(self).tv(), old(self).cursor()), final(self).cursor()),
            r is Ok && old(self).current_token().token_type == TokenType::Return ==> r->Ok_0 is Return,
            r is Ok && old(self).current_token().token_type == TokenType::LBrace ==> r->Ok_0 is Block,
            r is Ok && old(self).current_token().token_type == TokenType::Identifier && old(
                self,
            ).next_is(TokenType::Assign) ==> r->Ok_0 is Assign,
        decreases old(self).remaining(), 6nat,
    {
        match self.current().token_type {
            TokenType::Identifier => self.parse_assign_statement(),
            TokenType::Return => self.parse_return_statement(),
            TokenType::LBrace => match self.parse_block_statement() {
                Ok(block) => Ok(Statement::Block(block)),
                Err(e) => Err(e),
            },
            _ => self.parse_expression_statement(),
        }
    }

    fn parse_assign_statement(&mut self) -> (r: Result<Statement, String>)
        requires
            old(self).wf(),
            old(self).current_token().token_type == TokenType::Identifier,
        ensures
            Self::moved_on(old(self), final(self)),
            parsed_statement(r, p_assign(old(self).tv(), old(self).cursor()), final(self).cursor()),
            r is Ok && old(self).next_is(TokenType::Assign) ==> r->Ok_0 is Assign && r->Ok_0->Assign_0.name.value@
                == old(self).current_token().literal@,
            r is Ok ==> !final(self).next_is(TokenType::Semicolon),
        decreases old(self).remaining(), 5nat,
    {
        if !self.next_is_kind(TokenType::Assign) {
            return self.parse_expression_statement();
        }
        let identifier = self.parse_identifier();
        self.advance();
        let assign_token = self.current().duplicate();
        if !self.advance() {
            return Err(expected_after("Expected a expression after ", &assign_token.literal));
        }
        let value = self.parse_expression(Precedence::Lowest)?;
        self.skip_semicolons();
        Ok(Statement::Assign(AssignStatement { token: assign_token, name: identifier, value }))
    }

    fn parse_return_statement(&mut self) -> (r: Result<Statement, String>)
        requires
            old(self).wf(),
        ensures
            Self::moved_on(old(self), final(self)),
            parsed_statement(r, p_return(old(self).tv(), old(self).cursor()), final(self).cursor()),
            r is Ok ==> r->Ok_0 is Return && r->Ok_0->Return_0.token@ == old(self).current_token()@,
            r is Ok ==> !final(self).next_is(TokenType::Semicolon),
        decreases old(self).remaining(), 5nat,
    {
        let return_token = self.current().duplicate();
        if !self.advance() {
            return Err(expected_after("Expected a expression after ", &return_token.literal));
        }
        let value = self.parse_expression(Precedence::Lowest)?;
        self.skip_semicolons();
        Ok(Statement::Return(ReturnStatement { token: return_token, value }))
    }

    fn parse_expression_statement(&mut self) -> (r: Result<Statement, String>)
        requires
            old(self).wf(),
        ensures
            Self::moved_on(old(self), final(self)),
            parsed_statement(
                r,
                p_expression_statement(old(self).tv(), old(self).cursor()),
                final(self).cursor(),
            ),
            r is Ok ==> r->Ok_0 is Expression && r->Ok_0->Expression_0.token@ == old(
                self,
            ).current_token()@,
            r is Ok ==> !final(self).next_is(TokenType::Semicolon),
        decreases old(self).remaining(), 4nat,
    {
        let token = self.current().duplicate();
        let expression = self.parse_expression(Precedence::Lowest)?;
        self.skip_semicolons();
        Ok(Statement::Expression(ExpressionStatement { token, expression }))
    }

    /// Parses a block from its `🫸` to the matching `🫷`, and leaves the
    /// cursor on the `🫷`.
    fn parse_block_statement(&mut self) -> (r: Result<BlockStatement, String>)
        requires
            old(self).wf(),
        ensures
            Self::moved_on(old(self), final(self)),
            parsed_block(r, p_block(old(self).tv(), old(self).cursor()), final(self).cursor()),
            r is Ok ==> r->Ok_0.token@ == old(self).current_token()@,
            r is Ok ==> final(self).current_token().token_type == TokenType::RBrace,
            r is Ok ==> final(self).cursor() > old(self).cursor(),
        decreases old(self).remaining(), 5nat,
    {
        let ghost ts = self.tv();
        let token = self.current().duplicate();
        let mut statements: Vec<Statement> = Vec::new();
        if !self.advance() {
            return Err(String::from_str("Expected a right brace"));
        }
        assert(stmts_view(statements@, 0) =~= Seq::<StmtV>::empty());
        loop
            invariant_except_break
                p_block(ts, old(self).cursor()) == p_block_from(
                    ts,
                    self.cursor(),
                    token@,
                    stmts_view(statements@, statements@.len() as int),
                ),
            invariant
                Self::moved_on(old(self), self),
                self.cursor() > old(self).cursor(),
                ts == self.tv(),
                ts == old(self).tv(),
            ensures
                self.current_token().token_type == TokenType::RBrace,
                p_block(ts, old(self).cursor()) == (
                    Ok::<BlockV, Seq<char>>(
                        BlockV {
                            token: token@,
                            statements: stmts_view(statements@, statements@.len() as int),
                        },
                    ),
                    self.cursor(),
                ),
            decreases self.remaining(),
        {
            if self.current().token_type == TokenType::RBrace {
                break;
            }
            let statement = self.parse_statement()?;
            proof {
                lemma_stmts_view_push(statements@, statement);
            }
            statements.push(statement);
            if !self.advance() {
                return Err(String::from_str("Expected a right brace"));
            }
        }
        Ok(BlockStatement { token, statements })
    }

    /// Parses the longest expression from the cursor whose operators bind
    /// tighter than `precedence`, and leaves the cursor on its last token.
    fn parse_expression(&mut self, precedence: Precedence) -> (r: Result<Expression, String>)
        requires
            old(self).wf(),
        ensures
            Self::moved_on(old(self), final(self)),
            parsed_expression(
                r,
                p_expression(old(self).tv(), old(self).cursor(), precedence),
                final(self).cursor(),
            ),
            r is Ok ==> match final(self).next_token() {
                Some(t) => t.token_type == TokenType::Semicolon || rank(precedence_of(t.token_type))
                    <= rank(precedence),
                None => true,
            },
            prefix_parse_of(old(self).current_token().token_type) is None ==> r is Err,
        decreases old(self).remaining(), 3nat,
    {
        let ghost ts = self.tv();
        let mut left = self.parse_prefix()?;
        loop
            invariant_except_break
                p_expression(ts, old(self).cursor(), precedence) == p_infix_loop(
                    ts,
                    self.cursor(),
                    precedence,
                    expr_view(left),
                ),
            invariant
                Self::moved_on(old(self), self),
                ts == self.tv(),
            ensures
                p_expression(ts, old(self).cursor(), precedence) == (
                    Ok::<ExprV, Seq<char>>(expr_view(left)),
                    self.cursor(),
                ),
                match self.next_token() {
                    Some(t) => t.token_type == TokenType::Semicolon || rank(
                        precedence_of(t.token_type),
                    ) <= rank(precedence),
                    None => true,
                },
            decreases self.remaining(),
        {
            let infix = match self.peek() {
                Some(next) => {
                    if next.token_type != TokenType::Semicolon && precedence.rank()
                        < get_operator_precedence(next).rank() {
                        infix_parse_fn(next.token_type)
                    } else {
                        None
                    }
                },
                None => None,
            };
            match infix {
                None => break,
                Some(parse) => {
                    self.advance();
                    left = match parse {
                        InfixParse::Operator => self.parse_infix_expression(left)?,
                        InfixParse::Call => self.parse_call_expression(left)?,
                    };
                },
            }
        }
        Ok(left)
    }

    /// Runs the prefix parser registered for the token at the cursor.
    fn parse_prefix(&mut self) -> (r: Result<Expression, String>)
        requires
            old(self).wf(),
        ensures
            Self::moved_on(old(self), final(self)),
            parsed_expression(r, p_prefix(old(self).tv(), old(self).cursor()), final(self).cursor()),
            prefix_parse_of(old(self).current_token().token_type) is None ==> r is Err,
        decreases old(self).remaining(), 2nat,
    {
        match prefix_parse_fn(self.current().token_type) {
            None => Err(expected_after("Expected a expression, but got a ", &self.current().literal)),
            Some(PrefixParse::Identifier) => Ok(Expression::Identifier(self.parse_identifier())),
            Some(PrefixParse::Integer) => self.parse_integer_literal(),
            Some(PrefixParse::Float) => self.parse_float_literal(),
            Some(PrefixParse::Boolean) => self.parse_bool_literal(),
            Some(PrefixParse::Str) => self.parse_string_literal(),
            Some(PrefixParse::Operator) => self.parse_prefix_expression(),
            Some(PrefixParse::Group) => self.parse_group_expression(),
            Some(PrefixParse::If) => self.parse_if_expression(),
            Some(PrefixParse::While) => self.parse_while_expression(),
            Some(PrefixParse::Function) => self.parse_function_literal(),
        }
    }

    fn parse_identifier(&self) -> (r: Identifier)
        requires
            self.wf(),
        ensures
            r.token@ == self.current_token()@,
            r.value@ == self.current_token().literal@,
            ident_view(r) == ident_at(self.tv(), self.cursor()),
    {
        let token = self.current().duplicate();
        let value = token.literal.clone();
        Identifier { token, value }
    }

    fn parse_integer_literal(&self) -> (r: Result<Expression, String>)
        requires
            self.wf(),
            self.current_token().token_type == TokenType::Integer,
        ensures
            r is Ok <==> is_i64_text(self.current_token().literal@),
            r is Ok ==> r->Ok_0 is Integer && r->Ok_0->Integer_0.value as int == digits_value(
                self.current_token().literal@,
            ) && r->Ok_0->Integer_0.token@ == self.current_token()@,
            parsed_expression(r, p_prefix(self.tv(), self.cursor()), self.cursor()),
    {
        let token = self.current().duplicate();
        let value = parse_decimal(token.literal.as_str())?;
        Ok(Expression::Integer(IntegerLiteral { token, value }))
    }

    fn parse_float_literal(&self) -> (r: Result<Expression, String>)
        requires
            self.wf(),
            self.current_token().token_type == TokenType::Float,
        ensures
            r is Ok <==> double_from_text(self.current_token().literal@) is Some,
            r is Ok ==> r->Ok_0 is Float && Some(r->Ok_0->Float_0.value) == double_from_text(
                self.current_token().literal@,
            ) && r->Ok_0->Float_0.token@ == self.current_token()@,
            parsed_expression(r, p_prefix(self.tv(), self.cursor()), self.cursor()),
    {
        let token = self.current().duplicate();
        match parse_double(token.literal.as_str()) {
            Some(value) => Ok(Expression::Float(FloatLiteral { token, value })),
            None => Err(String::from_str("invalid float literal")),
        }
    }

    fn parse_bool_literal(&self) -> (r: Result<Expression, String>)
        requires
            self.wf(),
            self.current_token().token_type == TokenType::True || self.current_token().token_type
                == TokenType::False,
        ensures
            r is Ok && r->Ok_0 is Boolean,
            r->Ok_0->Boolean_0.value == (self.current_token().token_type == TokenType::True),
            r->Ok_0->Boolean_0.token@ == self.current_token()@,
            parsed_expression(r, p_prefix(self.tv(), self.cursor()), self.cursor()),
    {
        let token = self.current().duplicate();
        let value = token.token_type == TokenType::True;
        Ok(Expression::Boolean(BooleanLiteral { token, value }))
    }

    fn parse_string_literal(&self) -> (r: Result<Expression, String>)
        requires
            self.wf(),
            self.current_token().token_type == TokenType::String,
        ensures
            r is Ok && r->Ok_0 is Str,
            r->Ok_0->Str_0.value@ == self.current_token().literal@,
            r->Ok_0->Str_0.token@ == self.current_token()@,
            parsed_expression(r, p_prefix(self.tv(), self.cursor()), self.cursor()),
    {
        let token = self.current().duplicate();
        let value = token.literal.clone();
        Ok(Expression::Str(StringLiteral { token, value }))
    }

    fn parse_prefix_expression(&mut self) -> (r: Result<Expression, String>)
        requires
            old(self).wf(),
        ensures
            Self::moved_on(old(self), final(self)),
            parsed_expression(
                r,
                p_prefix_operator(old(self).tv(), old(self).cursor()),
                final(self).cursor(),
            ),
            r is Ok ==> r->Ok_0 is Prefix && r->Ok_0->Prefix_0.token@ == old(self).current_token()@
                && r->Ok_0->Prefix_0.operator@ == old(self).current_token().literal@,
        decreases old(self).remaining(), 1nat,
    {
        let token = self.current().duplicate();
        let operator = token.literal.clone();
        if !self.advance() {
            return Err(expected_after("Expected a expression after operator ", &operator));
        }
        let right = self.parse_expression(Precedence::Prefix)?;
        Ok(Expression::Prefix(PrefixExpression { token, operator, right: Box::new(right) }))
    }

    fn parse_infix_expression(&mut self, left: Expression) -> (r: Result<Expression, String>)
        requires
            old(self).wf(),
        ensures
            Self::moved_on(old(self), final(self)),
            parsed_expression(
                r,
                p_infix(old(self).tv(), old(self).cursor(), expr_view(left)),
                final(self).cursor(),
            ),
            r is Ok ==> r->Ok_0 is Infix && *r->Ok_0->Infix_0.left == left
                && r->Ok_0->Infix_0.token@ == old(self).current_token()@
                && r->Ok_0->Infix_0.operator@ == old(self).current_token().literal@,
        decreases old(self).remaining(), 1nat,
    {
        let token = self.current().duplicate();
        let operator = token.literal.clone();
        let precedence = get_operator_precedence(&token);
        if !self.advance() {
            return Err(expected_after("Expected a expression after operator ", &operator));
        }
        let right = self.parse_expression(precedence)?;
        Ok(
            Expression::Infix(
                InfixExpression { token, left: Box::new(left), operator, right: Box::new(right) },
            ),
        )
    }

    /// Parses the arguments of a call, from its `🌜` to its `🌛`.
    fn parse_call_expression(&mut self, function: Expression) -> (r: Result<Expression, String>)
        requires
            old(self).wf(),
        ensures
            Self::moved_on(old(self), final(self)),
            parsed_expression(
                r,
                p_call(old(self).tv(), old(self).cursor(), expr_view(function)),
                final(self).cursor(),
            ),
            r is Ok ==> r->Ok_0 is Call && *r->Ok_0->Call_0.function == function
                && r->Ok_0->Call_0.token@ == old(self).current_token()@,
            r is Ok ==> final(self).current_token().token_type == TokenType::RParenthesis,
        decreases old(self).remaining(), 1nat,
    {
        let ghost ts = self.tv();
        let ghost fv = expr_view(function);
        let token = self.current().duplicate();
        let mut arguments: Vec<Expression> = Vec::new();
        if self.next_is_kind(TokenType::RParenthesis) {
            self.advance();
            assert(exprs_view(arguments@, 0) =~= Seq::<ExprV>::empty());
        } else {
            assert(exprs_view(arguments@, 0) =~= Seq::<ExprV>::empty());
            loop
                invariant_except_break
                    p_call(ts, old(self).cursor(), fv) == p_arguments(
                        ts,
                        self.cursor(),
                        token@,
                        fv,
                        exprs_view(arguments@, arguments@.len() as int),
                    ),
                invariant
                    Self::moved_on(old(self), self),
                    ts == self.tv(),
                    ts == old(self).tv(),
                    fv == expr_view(function),
                    token@ == ts[old(self).cursor()],
                    self.cursor() >= old(self).cursor(),
                ensures
                    self.current_token().token_type == TokenType::RParenthesis,
                    p_call(ts, old(self).cursor(), fv) == (
                        Ok::<ExprV, Seq<char>>(
                            ExprV::Call(
                                token@,
                                Box::new(fv),
                                exprs_view(arguments@, arguments@.len() as int),
                            ),
                        ),
                        self.cursor(),
                    ),
                decreases self.remaining(),
            {
                if !self.advance() {
                    return Err(String::from_str("Expected a right parenthesis"));
                }
                let argument = self.parse_expression(Precedence::Lowest)?;
                proof {
                    lemma_exprs_view_push(arguments@, argument);
                }
                arguments.push(argument);
                if self.next_is_kind(TokenType::Comma) {
                    self.advance();
                } else if self.next_is_kind(TokenType::RParenthesis) {
                    self.advance();
                    break;
                } else {
                    return Err(String::from_str("Expected a comma or a right parenthesis"));
                }
            }
        }
        Ok(Expression::Call(CallExpression { token, function: Box::new(function), arguments }))
    }

    fn parse_group_expression(&mut self) -> (r: Result<Expression, String>)
        requires
            old(self).wf(),
        ensures
            Self::moved_on(old(self), final(self)),
            parsed_expression(r, p_group(old(self).tv(), old(self).cursor()), final(self).cursor()),
            r is Ok ==> final(self).current_token().token_type == TokenType::RParenthesis,
        decreases old(self).remaining(), 1nat,
    {
        if !self.advance() {
            return Err(String::from_str("Expected a expression after a left parenthesis"));
        }
        let expression = self.parse_expression(Precedence::Lowest)?;
        if !self.next_is_kind(TokenType::RParenthesis) {
            Err(String::from_str("Expected a right parenthesis"))
        } else {
            self.advance();
            Ok(expression)
        }
    }

    fn parse_if_expression(&mut self) -> (r: Result<Expression, String>)
        requires
            old(self).wf(),
        ensures
            Self::moved_on(old(self), final(self)),
            parsed_expression(r, p_if(old(self).tv(), old(self).cursor()), final(self).cursor()),
            r is Ok ==> r->Ok_0 is If && r->Ok_0->If_0.token@ == old(self).current_token()@,
            r is Ok ==> final(self).current_token().token_type == TokenType::RBrace,
        decreases old(self).remaining(), 1nat,
    {
        let token = self.current().duplicate();
        if !self.advance() {
            return Err(String::from_str("Expected a condition after if"));
        }
        let condition = self.parse_expression(Precedence::Lowest)?;
        if !self.next_is_kind(TokenType::LBrace) {
            return Err(String::from_str("Expected a block statement after if-condition"));
        }
        self.advance();
        let consequence = self.parse_block_statement()?;
        let alternative = if self.next_is_kind(TokenType::Else) {
            self.advance();
            if !self.next_is_kind(TokenType::LBrace) {
                return Err(String::from_str("Expected a block statement after else"));
            }
            self.advance();
            Some(self.parse_block_statement()?)
        } else {
            None
        };
        Ok(
            Expression::If(
                IfExpression { token, condition: Box::new(condition), consequence, alternative },
            ),
        )
    }

    fn parse_while_expression(&mut self) -> (r: Result<Expression, String>)
        requires
            old(self).wf(),
        ensures
            Self::moved_on(old(self), final(self)),
            parsed_expression(r, p_while(old(self).tv(), old(self).cursor()), final(self).cursor()),
            r is Ok ==> r->Ok_0 is While && r->Ok_0->While_0.token@ == old(self).current_token()@,
            r is Ok ==> final(self).current_token().token_type == TokenType::RBrace,
        decreases old(self).remaining(), 1nat,
    {
        let token = self.current().duplicate();
        if !self.advance() {
            return Err(String::from_str("Expected a condition after while"));
        }
        let condition = self.parse_expression(Precedence::Lowest)?;
        if !self.next_is_kind(TokenType::LBrace) {
            return Err(String::from_str("Expected a block statement after while-condition"));
        }
        self.advance();
        let body = self.parse_block_statement()?;
        Ok(Expression::While(WhileExpression { token, condition: Box::new(condition), body }))
    }

    fn parse_function_literal(&mut self) -> (r: Result<Expression, String>)
        requires
            old(self).wf(),
        ensures
            Self::moved_on(old(self), final(self)),
            parsed_expression(r, p_function(old(self).tv(), old(self).cursor()), final(self).cursor()),
            r is Ok ==> r->Ok_0 is Function && r->Ok_0->Function_0.token@
                == old(self).current_token()@,
            r is Ok ==> final(self).current_token().token_type == TokenType::RBrace,
        decreases old(self).remaining(), 1nat,
    {
        let token = self.current().duplicate();
        let mut name: Option<Identifier> = None;
        let mut parameters: Vec<Identifier> = Vec::new();
        if self.next_is_kind(TokenType::Identifier) {
            self.advance();
            name = Some(self.parse_identifier());
        }
        let ghost ts = self.tv();
        let ghost at_open = self.cursor();
        assert(at_open == if next_kind_is(ts, old(self).cursor(), TokenType::Identifier) {
            old(self).cursor() + 1
        } else {
            old(self).cursor()
        });
        if !self.next_is_kind(TokenType::LParenthesis) {
            return Err(String::from_str("Expected a left parenthesis"));
        }
        self.advance();
        assert(idents_view(parameters@, 0) =~= Seq::<IdentV>::empty());
        loop
            invariant_except_break
                p_parameters(ts, at_open + 1, Seq::empty()) == p_parameters(
                    ts,
                    self.cursor(),
                    idents_view(parameters@, parameters@.len() as int),
                ),
            invariant
                Self::moved_on(old(self), self),
                ts == self.tv(),
                ts == old(self).tv(),
                at_open + 1 <= self.cursor(),
                0 <= old(self).cursor() < ts.len(),
                token@ == ts[old(self).cursor()],
                next_kind_is(ts, at_open, TokenType::LParenthesis),
                at_open == if next_kind_is(ts, old(self).cursor(), TokenType::Identifier) {
                    old(self).cursor() + 1
                } else {
                    old(self).cursor()
                },
                match name {
                    Some(n) => next_kind_is(ts, old(self).cursor(), TokenType::Identifier)
                        && ident_view(n) == ident_at(ts, old(self).cursor() + 1),
                    None => !next_kind_is(ts, old(self).cursor(), TokenType::Identifier),
                },
            ensures
                self.current_token().token_type == TokenType::RParenthesis,
                p_parameters(ts, at_open + 1, Seq::empty()) == (
                    Ok::<Seq<IdentV>, Seq<char>>(idents_view(parameters@, parameters@.len() as int)),
                    self.cursor(),
                ),
            decreases self.remaining(),
        {
            if !self.advance() {
                return Err(String::from_str("Expected a right parenthesis"));
            }
            let t = self.current();
            if t.token_type == TokenType::RParenthesis {
                break;
            }
            if t.token_type != TokenType::Identifier {
                return Err(expected_after("Expected a identifier, but got a ", &t.literal));
            }
            let parameter = self.parse_identifier();
            proof {
                lemma_idents_view_push(parameters@, parameter);
            }
            parameters.push(parameter);
            if !self.next_is_kind(TokenType::RParenthesis) {
                if !self.advance() {
                    return Err(String::from_str("Expected a right parenthesis"));
                }
                let t = self.current();
                if t.token_type != TokenType::Comma {
                    return Err(expected_after("Expected a comma, but got a ", &t.literal));
                }
            }
        }
        if !self.next_is_kind(TokenType::LBrace) {
            return Err(String::from_str("Expected a left brace"));
        }
        self.advance();
        let body = self.parse_block_statement()?;
        Ok(Expression::Function(FunctionLiteral { token, name, parameters, body }))
    }
}

/// A message followed by the text it is about.
fn expected_after(message: &str, subject: &String) -> (r: String)
    ensures
        r@ == message@ + subject@,
{
    let mut r = String::from_str(message);
    r.append(subject.as_str());
    r
}

proof fn lemma_digits_then(gs: Seq<Seq<char>>, j: int, m: int, dot: bool)
    requires
        0 <= j <= m <= gs.len(),
        forall|k: int| j <= k < m ==> digit_glyph(#[trigger] gs[k]),
    ensures
        number_len(gs, j, dot) == (((m - j) + number_len(gs, m, dot).0) as nat, number_len(
            gs,
            m,
            dot,
        ).1),
    decreases m - j,
{
    if j < m {
        lemma_digits_then(gs, j + 1, m, dot);
    }
}

proof fn lemma_number_text_digits(gs: Seq<Seq<char>>, lo: int, hi: int)
    requires
        0 <= lo <= hi <= gs.len(),
        forall|k: int| lo <= k < hi ==> digit_glyph(#[trigger] gs[k]),
    ensures
        all_digits(number_text(gs, lo, hi)),
        number_text(gs, lo, hi).len() == hi - lo,
    decreases hi - lo,
{
    if lo < hi {
        lemma_number_text_digits(gs, lo, hi - 1);
        let t = number_text(gs, lo, hi);
        assert forall|k: int| 0 <= k < t.len() implies '0' <= #[trigger] t[k] <= '9' by {
            if k < t.len() - 1 {
                assert(t[k] == number_text(gs, lo, hi - 1)[k]);
            }
        }
    }
}

/// A run of digit glyphs that no further digit or decimal marker follows is
/// one integer token, whose text is the ASCII digits of the run; wherever
/// that token stands, the grammar reads it as the integer literal whose value
/// is the run read in base ten, or as an error when that does not fit in an
/// `i64`.
pub proof fn lemma_digit_run_is_an_integer_literal(
    gs: Seq<Seq<char>>,
    i: int,
    e: int,
    ts: Seq<TokenView>,
    p: int,
)
    requires
        0 <= i < e <= gs.len(),
        forall|k: int| i <= k < e ==> digit_glyph(#[trigger] gs[k]),
        e == gs.len() || (!digit_glyph(gs[e]) && !dot_glyph(gs[e])),
        0 <= p < ts.len(),
        ts[p] == (TokenType::Integer, number_text(gs, i, e)),
    ensures
        scan_one(gs, i) == (Some((TokenType::Integer, number_text(gs, i, e))), e),
        all_digits(number_text(gs, i, e)),
        number_text(gs, i, e).len() == e - i,
        p_prefix(ts, p) == (
            if digits_value(number_text(gs, i, e)) <= i64::MAX {
                Ok(ExprV::Integer(ts[p], digits_value(number_text(gs, i, e)) as i64))
            } else {
                Err("number too large to fit in target type"@)
            },
            p,
        ),
{
    lemma_digits_then(gs, i + 1, e, false);
    lemma_number_text_digits(gs, i, e);
}

/// Digit glyphs with one decimal marker among them, ending where no digit
/// follows, are one float token whose text is the digits with the marker
/// written `.`; wherever that token stands, the grammar reads it as the
/// float literal holding the double nearest to that text.
pub proof fn lemma_number_with_marker_is_a_float_literal(
    gs: Seq<Seq<char>>,
    i: int,
    d: int,
    e: int,
    ts: Seq<TokenView>,
    p: int,
)
    requires
        0 <= i < d < e <= gs.len(),
        forall|k: int| i <= k < e && k != d ==> digit_glyph(#[trigger] gs[k]),
        dot_glyph(gs[d]),
        e == gs.len() || !digit_glyph(gs[e]),
        0 <= p < ts.len(),
        ts[p] == (TokenType::Float, number_text(gs, i, e)),
    ensures
        scan_one(gs, i) == (Some((TokenType::Float, number_text(gs, i, e))), e),
        number_text(gs, i, e).len() == e - i,
        number_text(gs, i, e)[d - i] == '.',
        forall|k: int| 0 <= k < e - i && k != d - i ==> '0' <= #[trigger] number_text(gs, i, e)[k]
            <= '9',
        p_prefix(ts, p) == (
            match double_from_text(number_text(gs, i, e)) {
                Some(bits) => Ok(ExprV::Float(ts[p], bits)),
                None => Err("invalid float literal"@),
            },
            p,
        ),
{
    assert(!digit_glyph(gs[d]));
    lemma_digits_then(gs, i + 1, d, false);
    lemma_digits_then(gs, d + 1, e, true);
    lemma_number_text_split(gs, i, d, e);
}

proof fn lemma_number_text_split(gs: Seq<Seq<char>>, i: int, d: int, e: int)
    requires
        0 <= i <= d < e <= gs.len(),
        forall|k: int| i <= k < e && k != d ==> digit_glyph(#[trigger] gs[k]),
        !digit_glyph(gs[d]),
    ensures
        number_text(gs, i, e).len() == e - i,
        number_text(gs, i, e)[d - i] == '.',
        forall|k: int| 0 <= k < e - i && k != d - i ==> '0' <= #[trigger] number_text(gs, i, e)[k]
            <= '9',
    decreases e - i,
{
    if e - 1 > d {
        lemma_number_text_split(gs, i, d, e - 1);
        let t = number_text(gs, i, e);
        assert(t == number_text(gs, i, e - 1).push(gs[e - 1][0]));
        assert forall|k: int| 0 <= k < e - i && k != d - i implies '0' <= #[trigger] t[k] <= '9' by {
            if k < e - 1 - i {
                assert(t[k] == number_text(gs, i, e - 1)[k]);
            } else {
                assert(digit_glyph(gs[e - 1]));
            }
        }
    } else {
        assert forall|k: int| i <= k < d implies digit_glyph(#[trigger] gs[k]) by {}
        lemma_number_text_digits(gs, i, d);
        let t = number_text(gs, i, e);
        assert(t == number_text(gs, i, d).push('.'));
        assert forall|k: int| 0 <= k < e - i && k != d - i implies '0' <= #[trigger] t[k] <= '9' by {
            assert(t[k] == number_text(gs, i, d)[k]);
        }
    }
}

/// A string whose closing `💬` never comes is not a string token but an
/// illegal one holding the rest of the source; a statement that starts with
/// it does not parse, and the parser reports it with that text.
pub proof fn lemma_unterminated_string_is_reported(
    gs: Seq<Seq<char>>,
    i: int,
    ts: Seq<TokenView>,
    p: int,
)
    requires
        0 <= i < gs.len(),
        string_open(gs[i]),
        forall|k: int| i < k < gs.len() ==> !string_close(#[trigger] gs[k]),
        0 <= p < ts.len(),
        ts[p] == (TokenType::Illegal, join(gs, i, gs.len() as int)),
    ensures
        scan_one(gs, i) == (Some((TokenType::Illegal, join(gs, i, gs.len() as int))), gs.len() as int),
        p_statement(ts, p).0 == Err::<StmtV, Seq<char>>(
            "Expected a expression, but got a "@ + join(gs, i, gs.len() as int),
        ),
{
    lemma_string_len_to_end(gs, i + 1);
    let m = "Expected a expression, but got a "@ + join(gs, i, gs.len() as int);
    assert(p_prefix(ts, p).0 == Err::<ExprV, Seq<char>>(m));
    assert(p_expression(ts, p, Precedence::Lowest).0 == Err::<ExprV, Seq<char>>(m));
    assert(p_expression_statement(ts, p).0 == Err::<StmtV, Seq<char>>(m));
}

proof fn lemma_string_len_to_end(gs: Seq<Seq<char>>, j: int)
    requires
        0 <= j <= gs.len(),
        forall|k: int| j <= k < gs.len() ==> !string_close(#[trigger] gs[k]),
    ensures
        string_len(gs, j) == gs.len() - j,
    decreases gs.len() - j,
{
    if j < gs.len() {
        lemma_string_len_to_end(gs, j + 1);
    }
}

} // verus!
