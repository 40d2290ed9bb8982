//! The syntax tree, and the text that each node prints as.
use vstd::prelude::*;
use vstd::string::{StrSliceExecFns, StringExecFns};
use crate::token::{Token, TokenType};

verus! {

#[derive(Debug)]
pub struct Identifier {
    pub token: Token,
    pub value: String,
}

#[derive(Debug)]
pub struct IntegerLiteral {
    pub token: Token,
    pub value: i64,
}

/// A number with a decimal marker. `value` holds the bits of the IEEE 754
/// double that the literal denotes; the token holds its ASCII text.
#[derive(Debug)]
pub struct FloatLiteral {
    pub token: Token,
    pub value: u64,
}

#[derive(Debug)]
pub struct BooleanLiteral {
    pub token: Token,
    pub value: bool,
}

#[derive(Debug)]
pub struct StringLiteral {
    pub token: Token,
    pub value: String,
}

#[derive(Debug)]
pub struct PrefixExpression {
    pub token: Token,
    pub operator: String,
    pub right: Box<Expression>,
}

#[derive(Debug)]
pub struct InfixExpression {
    pub token: Token,
    pub left: Box<Expression>,
    pub operator: String,
    pub right: Box<Expression>,
}

#[derive(Debug)]
pub struct IfExpression {
    pub token: Token,
    pub condition: Box<Expression>,
    pub consequence: BlockStatement,
    pub alternative: Option<BlockStatement>,
}

#[derive(Debug)]
pub struct WhileExpression {
    pub token: Token,
    pub condition: Box<Expression>,
    pub body: BlockStatement,
}

#[derive(Debug)]
pub struct FunctionLiteral {
    pub token: Token,
    pub name: Option<Identifier>,
    pub parameters: Vec<Identifier>,
    pub body: BlockStatement,
}

#[derive(Debug)]
pub struct CallExpression {
    pub token: Token,
    pub function: Box<Expression>,
    pub arguments: Vec<Expression>,
}

/// The expressions of the language.
#[derive(Debug)]
pub enum Expression {
    Identifier(Identifier),
    Integer(IntegerLiteral),
    Float(FloatLiteral),
    Boolean(BooleanLiteral),
    Str(StringLiteral),
    Prefix(PrefixExpression),
    Infix(InfixExpression),
    If(IfExpression),
    While(WhileExpression),
    Function(FunctionLiteral),
    Call(CallExpression),
}

#[derive(Debug)]
pub struct AssignStatement {
    pub token: Token,
    pub name: Identifier,
    pub value: Expression,
}

#[derive(Debug)]
pub struct ReturnStatement {
    pub token: Token,
    pub value: Expression,
}

#[derive(Debug)]
pub struct ExpressionStatement {
    pub token: Token,
    pub expression: Expression,
}

#[derive(Debug)]
pub struct BlockStatement {
    pub token: Token,
    pub statements: Vec<Statement>,
}

/// The statements of the language.
#[derive(Debug)]
pub enum Statement {
    Assign(AssignStatement),
    Return(ReturnStatement),
    Expression(ExpressionStatement),
    Block(BlockStatement),
}

/// A whole program: its statements in order.
#[derive(Debug)]
pub struct Program {
    pub statements: Vec<Statement>,
}

/// The view of a token: its kind and its text.
pub type TokenView = (TokenType, Seq<char>);

/// The mathematical form of an identifier.
pub struct IdentV {
    pub token: TokenView,
    pub value: Seq<char>,
}

/// The mathematical form of a block.
pub struct BlockV {
    pub token: TokenView,
    pub statements: Seq<StmtV>,
}

/// The mathematical form of an expression.
pub enum ExprV {
    Identifier(IdentV),
    Integer(TokenView, i64),
    Float(TokenView, u64),
    Boolean(TokenView, bool),
    Str(TokenView, Seq<char>),
    Prefix(TokenView, Seq<char>, Box<ExprV>),
    Infix(TokenView, Box<ExprV>, Seq<char>, Box<ExprV>),
    If(TokenView, Box<ExprV>, BlockV, Option<BlockV>),
    While(TokenView, Box<ExprV>, BlockV),
    Function(TokenView, Option<IdentV>, Seq<IdentV>, BlockV),
    Call(TokenView, Box<ExprV>, Seq<ExprV>),
}

/// The mathematical form of a statement.
pub enum StmtV {
    Assign(TokenView, IdentV, ExprV),
    Return(TokenView, ExprV),
    Expression(TokenView, ExprV),
    Block(BlockV),
}

pub open spec fn ident_view(i: Identifier) -> IdentV {
    IdentV { token: i.token@, value: i.value@ }
}

/// The views of the first `n` identifiers.
pub open spec fn idents_view(ps: Seq<Identifier>, n: int) -> Seq<IdentV>
    decreases n,
{
    if n <= 0 || n > ps.len() {
        Seq::empty()
    } else {
        idents_view(ps, n - 1).push(ident_view(ps[n - 1]))
    }
}

/// The views of the first `n` expressions.
pub open spec fn exprs_view(es: Seq<Expression>, n: int) -> Seq<ExprV>
    decreases es, n,
{
    if n <= 0 || n > es.len() {
        Seq::empty()
    } else {
        exprs_view(es, n - 1).push(expr_view(es[n - 1]))
    }
}

/// The views of the first `n` statements.
pub open spec fn stmts_view(ss: Seq<Statement>, n: int) -> Seq<StmtV>
    decreases ss, n,
{
    if n <= 0 || n > ss.len() {
        Seq::empty()
    } else {
        stmts_view(ss, n - 1).push(stmt_view(ss[n - 1]))
    }
}

pub open spec fn block_view(b: BlockStatement) -> BlockV
    decreases b, 1int,
{
    BlockV { token: b.token@, statements: stmts_view(b.statements@, b.statements@.len() as int) }
}

pub open spec fn expr_view(e: Expression) -> ExprV
    decreases e, 0int,
{
    match e {
        Expression::Identifier(i) => ExprV::Identifier(ident_view(i)),
        Expression::Integer(l) => ExprV::Integer(l.token@, l.value),
        Expression::Float(l) => ExprV::Float(l.token@, l.value),
        Expression::Boolean(l) => ExprV::Boolean(l.token@, l.value),
        Expression::Str(l) => ExprV::Str(l.token@, l.value@),
        Expression::Prefix(p) => ExprV::Prefix(p.token@, p.operator@, Box::new(expr_view(*p.right))),
        Expression::Infix(x) => ExprV::Infix(
            x.token@,
            Box::new(expr_view(*x.left)),
            x.operator@,
            Box::new(expr_view(*x.right)),
        ),
        Expression::If(x) => ExprV::If(
            x.token@,
            Box::new(expr_view(*x.condition)),
            block_view(x.consequence),
            match x.alternative {
                Some(b) => Some(block_view(b)),
                None => None,
            },
        ),
        Expression::While(w) => ExprV::While(
            w.token@,
            Box::new(expr_view(*w.condition)),
            block_view(w.body),
        ),
        Expression::Function(f) => ExprV::Function(
            f.token@,
            match f.name {
                Some(n) => Some(ident_view(n)),
                None => None,
            },
            idents_view(f.parameters@, f.parameters@.len() as int),
            block_view(f.body),
        ),
        Expression::Call(c) => ExprV::Call(
            c.token@,
            Box::new(expr_view(*c.function)),
            exprs_view(c.arguments@, c.arguments@.len() as int),
        ),
    }
}

pub open spec fn stmt_view(s: Statement) -> StmtV
    decreases s, 0int,
{
    match s {
        Statement::Assign(a) => StmtV::Assign(a.token@, ident_view(a.name), expr_view(a.value)),
        Statement::Return(r) => StmtV::Return(r.token@, expr_view(r.value)),
        Statement::Expression(x) => StmtV::Expression(x.token@, expr_view(x.expression)),
        Statement::Block(b) => StmtV::Block(block_view(b)),
    }
}

/// Appending one element leaves the views of the elements before it alone.
pub proof fn lemma_stmts_view_push(ss: Seq<Statement>, s: Statement)
    ensures
        stmts_view(ss.push(s), ss.len() + 1int) == stmts_view(ss, ss.len() as int).push(stmt_view(s)),
{
    lemma_stmts_view_prefix(ss, s, ss.len() as int);
}

proof fn lemma_stmts_view_prefix(ss: Seq<Statement>, s: Statement, n: int)
    requires
        0 <= n <= ss.len(),
    ensures
        stmts_view(ss.push(s), n) == stmts_view(ss, n),
    decreases n,
{
    if n > 0 {
        lemma_stmts_view_prefix(ss, s, n - 1);
    }
}

pub proof fn lemma_exprs_view_push(es: Seq<Expression>, e: Expression)
    ensures
        exprs_view(es.push(e), es.len() + 1int) == exprs_view(es, es.len() as int).push(expr_view(e)),
{
    lemma_exprs_view_prefix(es, e, es.len() as int);
}

proof fn lemma_exprs_view_prefix(es: Seq<Expression>, e: Expression, n: int)
    requires
        0 <= n <= es.len(),
    ensures
        exprs_view(es.push(e), n) == exprs_view(es, n),
    decreases n,
{
    if n > 0 {
        lemma_exprs_view_prefix(es, e, n - 1);
    }
}

pub proof fn lemma_idents_view_push(ps: Seq<Identifier>, p: Identifier)
    ensures
        idents_view(ps.push(p), ps.len() + 1int) == idents_view(ps, ps.len() as int).push(ident_view(p)),
{
    lemma_idents_view_prefix(ps, p, ps.len() as int);
}

proof fn lemma_idents_view_prefix(ps: Seq<Identifier>, p: Identifier, n: int)
    requires
        0 <= n <= ps.len(),
    ensures
        idents_view(ps.push(p), n) == idents_view(ps, n),
    decreases n,
{
    if n > 0 {
        lemma_idents_view_prefix(ps, p, n - 1);
    }
}

/// The ASCII digit of `d`.
pub open spec fn digit_char(d: nat) -> char {
    if d == 0 {
        '0'
    } else if d == 1 {
        '1'
    } else if d == 2 {
        '2'
    } else if d == 3 {
        '3'
    } else if d == 4 {
        '4'
    } else if d == 5 {
        '5'
    } else if d == 6 {
        '6'
    } else if d == 7 {
        '7'
    } else if d == 8 {
        '8'
    } else {
        '9'
    }
}

/// The decimal digits of `n`, without leading zeros.
pub open spec fn decimal(n: nat) -> Seq<char>
    decreases n,
{
    if n < 10 {
        seq![digit_char(n)]
    } else {
        decimal(n / 10).push(digit_char(n % 10))
    }
}

/// The decimal text of an integer, with `-` before a negative one.
pub open spec fn int_text(v: int) -> Seq<char> {
    if v < 0 {
        seq!['-'] + decimal((-v) as nat)
    } else {
        decimal(v as nat)
    }
}

/// Each character as a keycap glyph.
pub open spec fn keycaps(s: Seq<char>) -> Seq<char>
    decreases s.len(),
{
    if s.len() == 0 {
        Seq::<char>::empty()
    } else {
        keycaps(s.drop_last()) + seq![s.last(), '\u{FE0F}', '\u{20E3}']
    }
}

/// The glyphs of an ASCII number: `.` as `⚪`, every other character as a keycap.
pub open spec fn number_glyphs(s: Seq<char>) -> Seq<char>
    decreases s.len(),
{
    if s.len() == 0 {
        Seq::<char>::empty()
    } else if s.last() == '.' {
        number_glyphs(s.drop_last()).push('\u{26AA}')
    } else {
        number_glyphs(s.drop_last()) + seq![s.last(), '\u{FE0F}', '\u{20E3}']
    }
}

/// The names of the first `n` identifiers, each after the first preceded by `🦶 `.
pub open spec fn identifiers_text(ps: Seq<Identifier>, n: int) -> Seq<char>
    decreases n,
{
    if n <= 0 || n > ps.len() {
        Seq::<char>::empty()
    } else if n == 1 {
        ps[0].value@
    } else {
        identifiers_text(ps, n - 1) + "🦶 "@ + ps[n - 1].value@
    }
}

/// The text of the first `n` expressions, each after the first preceded by `🦶 `.
pub open spec fn expressions_text(es: Seq<Expression>, n: int) -> Seq<char>
    decreases es, n,
{
    if n <= 0 || n > es.len() {
        Seq::<char>::empty()
    } else if n == 1 {
        expression_text(es[0])
    } else {
        expressions_text(es, n - 1) + "🦶 "@ + expression_text(es[n - 1])
    }
}

/// The text of the first `n` statements, one after the other.
pub open spec fn statements_text(ss: Seq<Statement>, n: int) -> Seq<char>
    decreases ss, n,
{
    if n <= 0 || n > ss.len() {
        Seq::<char>::empty()
    } else {
        statements_text(ss, n - 1) + statement_text(ss[n - 1])
    }
}

pub open spec fn block_text(b: BlockStatement) -> Seq<char>
    decreases b, 1int,
{
    b.token.literal@ + " "@ + statements_text(b.statements@, b.statements@.len() as int) + " 🫷"@
}

/// The canonical text of an expression: every operation in parentheses.
pub open spec fn expression_text(e: Expression) -> Seq<char>
    decreases e, 0int,
{
    match e {
        Expression::Identifier(i) => i.value@,
        Expression::Integer(l) => keycaps(int_text(l.value as int)),
        Expression::Float(l) => number_glyphs(l.token.literal@),
        Expression::Boolean(l) => l.token.literal@,
        Expression::Str(l) => "🗨️"@ + l.value@ + "💬"@,
        Expression::Prefix(p) => "🌜"@ + p.operator@ + expression_text(*p.right) + "🌛"@,
        Expression::Infix(x) => "🌜"@ + expression_text(*x.left) + " "@ + x.operator@ + " "@
            + expression_text(*x.right) + "🌛"@,
        Expression::If(x) => x.token.literal@ + " "@ + expression_text(*x.condition) + " "@
            + block_text(x.consequence) + match x.alternative {
            Some(b) => " ❗ "@ + block_text(b),
            None => Seq::<char>::empty(),
        },
        Expression::While(w) => w.token.literal@ + " "@ + expression_text(*w.condition) + " "@
            + block_text(w.body),
        Expression::Function(f) => f.token.literal@ + " "@ + match f.name {
            Some(n) => n.value@ + " "@,
            None => Seq::<char>::empty(),
        } + "🌜"@ + identifiers_text(f.parameters@, f.parameters@.len() as int) + "🌛 "@
            + block_text(f.body),
        Expression::Call(c) => expression_text(*c.function) + "🌜"@ + expressions_text(
            c.arguments@,
            c.arguments@.len() as int,
        ) + "🌛"@,
    }
}

/// The canonical text of a statement.
pub open spec fn statement_text(s: Statement) -> Seq<char>
    decreases s, 0int,
{
    match s {
        Statement::Assign(a) => a.name.value@ + " "@ + a.token.literal@ + " "@ + expression_text(
            a.value,
        ) + " ↙️"@,
        Statement::Return(r) => r.token.literal@ + " "@ + expression_text(r.value) + " ↙️"@,
        Statement::Expression(x) => expression_text(x.expression) + " ↙️"@,
        Statement::Block(b) => block_text(b),
    }
}

pub open spec fn program_text(p: Program) -> Seq<char> {
    statements_text(p.statements@, p.statements@.len() as int)
}

/// Relies on `String::push`: appends one character.
#[verifier::external_body]
pub(crate) fn push_char(s: &mut String, c: char)
    ensures
        final(s)@ == old(s)@.push(c),
{
    s.push(c)
}

fn digit_of(d: u64) -> (c: char)
    requires
        d < 10,
    ensures
        c == digit_char(d as nat),
{
    if d == 0 {
        '0'
    } else if d == 1 {
        '1'
    } else if d == 2 {
        '2'
    } else if d == 3 {
        '3'
    } else if d == 4 {
        '4'
    } else if d == 5 {
        '5'
    } else if d == 6 {
        '6'
    } else if d == 7 {
        '7'
    } else if d == 8 {
        '8'
    } else {
        '9'
    }
}

fn push_keycap(out: &mut String, c: char)
    ensures
        final(out)@ == old(out)@ + seq![c, '\u{FE0F}', '\u{20E3}'],
{
    push_char(out, c);
    push_char(out, '\u{FE0F}');
    push_char(out, '\u{20E3}');
    assert(out@ =~= old(out)@ + seq![c, '\u{FE0F}', '\u{20E3}']);
}

/// Appends the keycaps of the decimal digits of `n`.
fn write_decimal(n: u64, out: &mut String)
    ensures
        final(out)@ == old(out)@ + keycaps(decimal(n as nat)),
    decreases n,
{
    if n >= 10 {
        write_decimal(n / 10, out);
    }
    push_keycap(out, digit_of(n % 10));
    proof {
        let d = decimal(n as nat);
        assert(d.drop_last() =~= if n >= 10 {
            decimal((n / 10) as nat)
        } else {
            Seq::<char>::empty()
        });
        assert(keycaps(d.drop_last()) =~= if n >= 10 {
            keycaps(decimal((n / 10) as nat))
        } else {
            Seq::<char>::empty()
        });
        assert(out@ =~= old(out)@ + keycaps(d));
    }
}

/// Appends the keycaps of the decimal text of `v`.
fn write_integer(v: i64, out: &mut String)
    ensures
        final(out)@ == old(out)@ + keycaps(int_text(v as int)),
{
    if v < 0 {
        push_keycap(out, '-');
        let magnitude: u64 = (0i128 - v as i128) as u64;
        let ghost mid = out@;
        write_decimal(magnitude, out);
        proof {
            lemma_keycaps_append(seq!['-'], decimal(magnitude as nat));
            assert(keycaps(seq!['-']) =~= seq!['-', '\u{FE0F}', '\u{20E3}']) by {
                assert(seq!['-'].drop_last() =~= Seq::<char>::empty());
                assert(keycaps(Seq::<char>::empty()) =~= Seq::<char>::empty());
            }
            assert(out@ =~= old(out)@ + keycaps(int_text(v as int)));
        }
    } else {
        write_decimal(v as u64, out);
    }
}

proof fn lemma_keycaps_append(a: Seq<char>, b: Seq<char>)
    ensures
        keycaps(a + b) == keycaps(a) + keycaps(b),
    decreases b.len(),
{
    if b.len() == 0 {
        assert(a + b =~= a);
        assert(keycaps(a) + keycaps(b) =~= keycaps(a));
    } else {
        lemma_keycaps_append(a, b.drop_last());
        assert((a + b).drop_last() =~= a + b.drop_last());
        assert(keycaps(a + b) =~= keycaps(a) + keycaps(b));
    }
}

/// Appends the glyphs of an ASCII number.
fn write_number_glyphs(s: &str, out: &mut String)
    ensures
        final(out)@ == old(out)@ + number_glyphs(s@),
{
    let n = s.unicode_len();
    let mut k: usize = 0;
    assert(s@.subrange(0, 0) =~= Seq::<char>::empty());
    while k < n
        invariant
            n == s@.len(),
            k <= n,
            out@ == old(out)@ + number_glyphs(s@.subrange(0, k as int)),
        decreases n - k,
    {
        let c = s.get_char(k);
        if c == '.' {
            push_char(out, '\u{26AA}');
        } else {
            push_keycap(out, c);
        }
        proof {
            let t = s@.subrange(0, k + 1);
            assert(t.drop_last() =~= s@.subrange(0, k as int));
            assert(t.last() == c);
        }
        k = k + 1;
        assert(out@ =~= old(out)@ + number_glyphs(s@.subrange(0, k as int)));
    }
    assert(s@.subrange(0, n as int) =~= s@);
}

fn write_str(out: &mut String, s: &str)
    ensures
        final(out)@ == old(out)@ + s@,
{
    out.append(s);
}

fn write_block(b: &BlockStatement, out: &mut String)
    ensures
        final(out)@ == old(out)@ + block_text(*b),
    decreases *b, 1int,
{
    write_str(out, b.token.literal.as_str());
    write_str(out, " ");
    write_statements(&b.statements, out);
    write_str(out, " 🫷");
    assert(out@ =~= old(out)@ + block_text(*b));
}

fn write_statements(ss: &Vec<Statement>, out: &mut String)
    ensures
        final(out)@ == old(out)@ + statements_text(ss@, ss@.len() as int),
    decreases ss@, ss@.len() + 1,
{
    let mut k: usize = 0;
    while k < ss.len()
        invariant
            k <= ss@.len(),
            out@ == old(out)@ + statements_text(ss@, k as int),
        decreases ss@.len() - k,
    {
        write_statement(&ss[k], out);
        k = k + 1;
        assert(out@ =~= old(out)@ + statements_text(ss@, k as int));
    }
}

fn write_expressions(es: &Vec<Expression>, out: &mut String)
    ensures
        final(out)@ == old(out)@ + expressions_text(es@, es@.len() as int),
    decreases es@, es@.len() + 1,
{
    let mut k: usize = 0;
    while k < es.len()
        invariant
            k <= es@.len(),
            out@ == old(out)@ + expressions_text(es@, k as int),
        decreases es@.len() - k,
    {
        if k > 0 {
            write_str(out, "🦶 ");
        }
        write_expression(&es[k], out);
        k = k + 1;
        assert(out@ =~= old(out)@ + expressions_text(es@, k as int));
    }
}

fn write_identifiers(ps: &Vec<Identifier>, out: &mut String)
    ensures
        final(out)@ == old(out)@ + identifiers_text(ps@, ps@.len() as int),
{
    let mut k: usize = 0;
    while k < ps.len()
        invariant
            k <= ps@.len(),
            out@ == old(out)@ + identifiers_text(ps@, k as int),
        decreases ps@.len() - k,
    {
        if k > 0 {
            write_str(out, "🦶 ");
        }
        write_str(out, ps[k].value.as_str());
        k = k + 1;
        assert(out@ =~= old(out)@ + identifiers_text(ps@, k as int));
    }
}

fn write_expression(e: &Expression, out: &mut String)
    ensures
        final(out)@ == old(out)@ + expression_text(*e),
    decreases *e, 0int,
{
    match e {
        Expression::Identifier(i) => write_str(out, i.value.as_str()),
        Expression::Integer(l) => write_integer(l.value, out),
        Expression::Float(l) => write_number_glyphs(l.token.literal.as_str(), out),
        Expression::Boolean(l) => write_str(out, l.token.literal.as_str()),
        Expression::Str(l) => {
            write_str(out, "🗨️");
            write_str(out, l.value.as_str());
            write_str(out, "💬");
        },
        Expression::Prefix(p) => {
            write_str(out, "🌜");
            write_str(out, p.operator.as_str());
            write_expression(&p.right, out);
            write_str(out, "🌛");
        },
        Expression::Infix(x) => {
            write_str(out, "🌜");
            write_expression(&x.left, out);
            write_str(out, " ");
            write_str(out, x.operator.as_str());
            write_str(out, " ");
            write_expression(&x.right, out);
            write_str(out, "🌛");
        },
        Expression::If(x) => {
            write_str(out, x.token.literal.as_str());
            write_str(out, " ");
            write_expression(&x.condition, out);
            write_str(out, " ");
            write_block(&x.consequence, out);
            match &x.alternative {
                Some(b) => {
                    write_str(out, " ❗ ");
                    write_block(b, out);
                },
                None => {},
            }
        },
        Expression::While(w) => {
            write_str(out, w.token.literal.as_str());
            write_str(out, " ");
            write_expression(&w.condition, out);
            write_str(out, " ");
            write_block(&w.body, out);
        },
        Expression::Function(f) => write_function(f, out),
        Expression::Call(c) => {
            write_expression(&c.function, out);
            write_str(out, "🌜");
            write_expressions(&c.arguments, out);
            write_str(out, "🌛");
        },
    }
    assert(out@ =~= old(out)@ + expression_text(*e));
}

fn write_function(f: &FunctionLiteral, out: &mut String)
    ensures
        final(out)@ == old(out)@ + expression_text(Expression::Function(*f)),
    decreases *f, 0int,
{
    write_str(out, f.token.literal.as_str());
    write_str(out, " ");
    match &f.name {
        Some(n) => {
            write_str(out, n.value.as_str());
            write_str(out, " ");
        },
        None => {},
    }
    write_str(out, "🌜");
    write_identifiers(&f.parameters, out);
    write_str(out, "🌛 ");
    write_block(&f.body, out);
    assert(out@ =~= old(out)@ + expression_text(Expression::Function(*f)));
}

fn write_statement(s: &Statement, out: &mut String)
    ensures
        final(out)@ == old(out)@ + statement_text(*s),
    decreases *s, 0int,
{
    match s {
        Statement::Assign(a) => {
            write_str(out, a.name.value.as_str());
            write_str(out, " ");
            write_str(out, a.token.literal.as_str());
            write_str(out, " ");
            write_expression(&a.value, out);
            write_str(out, " ↙️");
        },
        Statement::Return(r) => {
            write_str(out, r.token.literal.as_str());
            write_str(out, " ");
            write_expression(&r.value, out);
            write_str(out, " ↙️");
        },
        Statement::Expression(x) => {
            write_expression(&x.expression, out);
            write_str(out, " ↙️");
        },
        Statement::Block(b) => write_block(b, out),
    }
    assert(out@ =~= old(out)@ + statement_text(*s));
}

/// What every node of the tree offers: the text of the token that starts it,
/// and the canonical text of the whole node.
pub trait Node {
    spec fn literal(&self) -> Seq<char>;

    spec fn text(&self) -> Seq<char>;

    fn token_literal(&self) -> (r: &str)
        ensures
            r@ == self.literal(),
    ;

    fn string(&self) -> (r: String)
        ensures
            r@ == self.text(),
    ;
}

/// The token that starts an expression.
pub open spec fn expression_token(e: Expression) -> Token {
    match e {
        Expression::Identifier(x) => x.token,
        Expression::Integer(x) => x.token,
        Expression::Float(x) => x.token,
        Expression::Boolean(x) => x.token,
        Expression::Str(x) => x.token,
        Expression::Prefix(x) => x.token,
        Expression::Infix(x) => x.token,
        Expression::If(x) => x.token,
        Expression::While(x) => x.token,
        Expression::Function(x) => x.token,
        Expression::Call(x) => x.token,
    }
}

/// The token of a statement.
pub open spec fn statement_token(s: Statement) -> Token {
    match s {
        Statement::Assign(x) => x.token,
        Statement::Return(x) => x.token,
        Statement::Expression(x) => x.token,
        Statement::Block(x) => x.token,
    }
}

impl Expression {
    pub fn token(&self) -> (r: &Token)
        ensures
            *r == expression_token(*self),
    {
        match self {
            Expression::Identifier(x) => &x.token,
            Expression::Integer(x) => &x.token,
            Expression::Float(x) => &x.token,
            Expression::Boolean(x) => &x.token,
            Expression::Str(x) => &x.token,
            Expression::Prefix(x) => &x.token,
            Expression::Infix(x) => &x.token,
            Expression::If(x) => &x.token,
            Expression::While(x) => &x.token,
            Expression::Function(x) => &x.token,
            Expression::Call(x) => &x.token,
        }
    }
}

impl Statement {
    pub fn token(&self) -> (r: &Token)
        ensures
            *r == statement_token(*self),
    {
        match self {
            Statement::Assign(x) => &x.token,
            Statement::Return(x) => &x.token,
            Statement::Expression(x) => &x.token,
            Statement::Block(x) => &x.token,
        }
    }
}

impl Node for Expression {
    open spec fn literal(&self) -> Seq<char> {
        expression_token(*self).literal@
    }

    open spec fn text(&self) -> Seq<char> {
        expression_text(*self)
    }

    fn token_literal(&self) -> (r: &str) {
        self.token().literal.as_str()
    }

    fn string(&self) -> (r: String) {
        let mut out = String::new();
        write_expression(self, &mut out);
        assert(out@ =~= expression_text(*self));
        out
    }
}

impl Node for Statement {
    open spec fn literal(&self) -> Seq<char> {
        statement_token(*self).literal@
    }

    open spec fn text(&self) -> Seq<char> {
        statement_text(*self)
    }

    fn token_literal(&self) -> (r: &str) {
        self.token().literal.as_str()
    }

    fn string(&self) -> (r: String) {
        let mut out = String::new();
        write_statement(self, &mut out);
        assert(out@ =~= statement_text(*self));
        out
    }
}

impl Node for BlockStatement {
    open spec fn literal(&self) -> Seq<char> {
        self.token.literal@
    }

    open spec fn text(&self) -> Seq<char> {
        block_text(*self)
    }

    fn token_literal(&self) -> (r: &str) {
        self.token.literal.as_str()
    }

    fn string(&self) -> (r: String) {
        let mut out = String::new();
        write_block(self, &mut out);
        assert(out@ =~= block_text(*self));
        out
    }
}

impl Node for Identifier {
    open spec fn literal(&self) -> Seq<char> {
        self.token.literal@
    }

    open spec fn text(&self) -> Seq<char> {
        self.value@
    }

    fn token_literal(&self) -> (r: &str) {
        self.token.literal.as_str()
    }

    fn string(&self) -> (r: String) {
        self.value.clone()
    }
}

impl Node for Program {
    /// The literal of the first statement's token; empty for an empty program.
    open spec fn literal(&self) -> Seq<char> {
        if self.statements@.len() > 0 {
            statement_token(self.statements@[0]).literal@
        } else {
            Seq::<char>::empty()
        }
    }

    open spec fn text(&self) -> Seq<char> {
        program_text(*self)
    }

    fn token_literal(&self) -> (r: &str) {
        if self.statements.len() > 0 {
            self.statements[0].token().literal.as_str()
        } else {
            proof {
                reveal_strlit("");
            }
            ""
        }
    }

    fn string(&self) -> (r: String) {
        let mut out = String::new();
        write_statements(&self.statements, &mut out);
        assert(out@ =~= program_text(*self));
        out
    }
}

/// The text of a function literal.
pub fn write_function_text(f: &FunctionLiteral) -> (r: String)
    ensures
        r@ == expression_text(Expression::Function(*f)),
{
    let mut out = String::new();
    write_function(f, &mut out);
    assert(out@ =~= expression_text(Expression::Function(*f)));
    out
}

} // verus!
