//! The parser: from a sequence of tokens to statements, by recursive
//! descent, with one reported error per malformed statement.
//!
//! The grammar, lowest precedence first:
//!
//! ```text
//! statement  -> "print" expression ";" | expression ";"
//! expression -> equality
//! equality   -> comparison ( ( "!=" | "==" ) comparison )*
//! comparison -> term ( ( ">" | ">=" | "<" | "<=" ) term )*
//! term       -> factor ( ( "-" | "+" ) factor )*
//! factor     -> unary ( ( "/" | "*" ) unary )*
//! unary      -> ( "!" | "-" ) unary | primary
//! primary    -> NUMBER | STRING | "true" | "false" | "nil" | "(" expression ")"
//! ```
//!
//! Every infix level folds to the left, `factor` like the others, so
//! `8 / 4 / 2` is `(8 / 4) / 2`.

use vstd::prelude::*;
use crate::ast::{
    stmts_view, Binary, Expr, ExprView, Expression, Grouping, Literal, Print, Stmt, StmtView, Unary,
};
use crate::token::{Object, ObjectView, Token, TokenType, TokenView, tokens_view};

verus! {

/// A syntax error: the token at which the input left the grammar, and what
/// was expected there.
#[derive(Debug)]
pub struct ParseError {
    pub token: Token,
    pub message: String,
}

/// The mathematical value of a [`ParseError`].
pub struct ParseErrorView {
    pub token: TokenView,
    pub message: Seq<char>,
}

impl View for ParseError {
    type V = ParseErrorView;

    open spec fn view(&self) -> ParseErrorView {
        ParseErrorView { token: self.token@, message: self.message@ }
    }
}

/// The views of a sequence of errors, one for one.
pub open spec fn errors_view(errors: Seq<ParseError>) -> Seq<ParseErrorView> {
    errors.map_values(|e: ParseError| e@)
}

/// What the token contract asks of an input: it ends with the end marker,
/// and every number and string token carries its value.
pub open spec fn well_formed(ts: Seq<TokenView>) -> bool {
    &&& ts.len() > 0
    &&& ts.last().token_type == TokenType::Eof
    &&& forall|i: int| 0 <= i < ts.len() ==> carries_value(#[trigger] ts[i])
}

/// A number or string token carries its value.
pub open spec fn carries_value(token: TokenView) -> bool {
    token.token_type == TokenType::Number || token.token_type == TokenType::String
        ==> token.literal is Some
}

/// The category of the token at `pos`; past the input, the end marker.
pub open spec fn kind_at(ts: Seq<TokenView>, pos: nat) -> TokenType {
    if pos < ts.len() {
        ts[pos as int].token_type
    } else {
        TokenType::Eof
    }
}

/// How many tokens stand at or after `pos`.
pub open spec fn remaining(ts: Seq<TokenView>, pos: nat) -> nat {
    if pos < ts.len() {
        (ts.len() - pos) as nat
    } else {
        0
    }
}

/// The precedence level of an infix operator, lowest first: equality 0,
/// comparison 1, term 2, factor 3.
pub open spec fn infix_level(kind: TokenType) -> Option<nat> {
    match kind {
        TokenType::BangEqual | TokenType::EqualEqual => Some(0),
        TokenType::Greater | TokenType::GreaterEqual | TokenType::Less | TokenType::LessEqual =>
            Some(1),
        TokenType::Minus | TokenType::Plus => Some(2),
        TokenType::Slash | TokenType::Star => Some(3),
        _ => None,
    }
}

/// Whether the category is a prefix operator.
pub open spec fn is_prefix(kind: TokenType) -> bool {
    kind == TokenType::Bang || kind == TokenType::Minus
}

/// The outcome of parsing an expression from some position: the tree or
/// the error, and how many tokens were consumed on the way. An error
/// stands at the first token not consumed.
pub struct Parsed {
    pub result: Result<ExprView, ParseErrorView>,
    pub used: nat,
}

impl Parsed {
    /// The same outcome, reached after `n` more tokens.
    pub open spec fn after(self, n: nat) -> Parsed {
        Parsed { result: self.result, used: self.used + n }
    }
}

/// The error at the token at `pos`.
pub open spec fn error_at(ts: Seq<TokenView>, pos: nat, message: Seq<char>) -> Result<
    ExprView,
    ParseErrorView,
> {
    Err(ParseErrorView { token: ts[pos as int], message })
}

/// The measure by which an infix level, its operand still to come, stands
/// above the levels it calls.
pub open spec fn head_rank(level: nat) -> nat {
    if level < 4 {
        (2 * (4 - level) + 1) as nat
    } else {
        2
    }
}

/// The measure of an infix level whose first operand is parsed.
pub open spec fn tail_rank(level: nat) -> nat {
    if level < 4 {
        (2 * (4 - level)) as nat
    } else {
        0
    }
}

/// `primary`: a literal, or an expression in parentheses.
pub open spec fn primary_at(ts: Seq<TokenView>, pos: nat) -> Parsed
    decreases remaining(ts, pos), 0nat,
{
    match kind_at(ts, pos) {
        TokenType::False => Parsed {
            result: Ok(ExprView::Literal { value: ObjectView::Bool(false) }),
            used: 1,
        },
        TokenType::True => Parsed {
            result: Ok(ExprView::Literal { value: ObjectView::Bool(true) }),
            used: 1,
        },
        TokenType::Nil => Parsed {
            result: Ok(ExprView::Literal { value: ObjectView::Nil }),
            used: 1,
        },
        TokenType::Number | TokenType::String => Parsed {
            result: Ok(ExprView::Literal { value: ts[pos as int].literal->0 }),
            used: 1,
        },
        TokenType::LeftParen => {
            let inner = binary_at(ts, pos + 1, 0);
            match inner.result {
                Ok(e) => if kind_at(ts, pos + 1 + inner.used) == TokenType::RightParen {
                    Parsed {
                        result: Ok(ExprView::Grouping { expression: Box::new(e) }),
                        used: inner.used + 2,
                    }
                } else {
                    Parsed {
                        result: error_at(ts, pos + 1 + inner.used, "Expect ')' after expression."@),
                        used: inner.used + 1,
                    }
                },
                Err(_) => inner.after(1),
            }
        },
        _ => Parsed { result: error_at(ts, pos, "Expect expression."@), used: 0 },
    }
}

/// `unary`: prefix operators nest to the right.
pub open spec fn unary_at(ts: Seq<TokenView>, pos: nat) -> Parsed
    decreases remaining(ts, pos), 1nat,
{
    if is_prefix(kind_at(ts, pos)) {
        let operand = unary_at(ts, pos + 1);
        match operand.result {
            Ok(right) => Parsed {
                result: Ok(ExprView::Unary { operator: ts[pos as int], right: Box::new(right) }),
                used: operand.used + 1,
            },
            Err(_) => operand.after(1),
        }
    } else {
        primary_at(ts, pos)
    }
}

/// An infix level: one operand of the next level, then the operators of
/// this level with their right operands. Level 4 is `unary`.
pub open spec fn binary_at(ts: Seq<TokenView>, pos: nat, level: nat) -> Parsed
    decreases remaining(ts, pos), head_rank(level),
{
    if level >= 4 {
        unary_at(ts, pos)
    } else {
        let first = binary_at(ts, pos, level + 1);
        match first.result {
            Ok(left) => tail_at(ts, pos + first.used, level, left).after(first.used),
            Err(_) => first,
        }
    }
}

/// The rest of an infix level after the operand `left`: while an operator
/// of this level follows, its right operand joins what stands to the left.
pub open spec fn tail_at(ts: Seq<TokenView>, pos: nat, level: nat, left: ExprView) -> Parsed
    decreases remaining(ts, pos), tail_rank(level),
{
    if level < 4 && infix_level(kind_at(ts, pos)) == Some(level) {
        let second = binary_at(ts, pos + 1, level + 1);
        match second.result {
            Ok(right) => tail_at(
                ts,
                pos + 1 + second.used,
                level,
                ExprView::Binary {
                    left: Box::new(left),
                    operator: ts[pos as int],
                    right: Box::new(right),
                },
            ).after(second.used + 1),
            Err(_) => second.after(1),
        }
    } else {
        Parsed { result: Ok(left), used: 0 }
    }
}

/// `expression`: the lowest infix level.
pub open spec fn expression_at(ts: Seq<TokenView>, pos: nat) -> Parsed {
    binary_at(ts, pos, 0)
}

/// The outcome of parsing a statement: the statement or the error, and
/// how many tokens were consumed on the way.
pub struct ParsedStmt {
    pub result: Result<StmtView, ParseErrorView>,
    pub used: nat,
}

impl ParsedStmt {
    /// The same outcome, reached after `n` more tokens.
    pub open spec fn after(self, n: nat) -> ParsedStmt {
        ParsedStmt { result: self.result, used: self.used + n }
    }
}

/// A statement whose expression, parsed from `pos`, came out as `body`:
/// the `;` that must follow closes it.
pub open spec fn closed_by_semicolon(ts: Seq<TokenView>, pos: nat, body: Parsed, print: bool)
    -> ParsedStmt {
    match body.result {
        Ok(e) => if kind_at(ts, pos + body.used) == TokenType::Semicolon {
            ParsedStmt {
                result: Ok(
                    if print {
                        StmtView::Print { expression: e }
                    } else {
                        StmtView::Expression { expression: e }
                    },
                ),
                used: body.used + 1,
            }
        } else {
            ParsedStmt {
                result: Err(
                    ParseErrorView {
                        token: ts[(pos + body.used) as int],
                        message: if print {
                            "Expect ';' after value."@
                        } else {
                            "Expect ';' after expression."@
                        },
                    },
                ),
                used: body.used,
            }
        },
        Err(e) => ParsedStmt { result: Err(e), used: body.used },
    }
}

/// `statement`: a print statement where `print` leads, else an expression
/// statement.
pub open spec fn statement_at(ts: Seq<TokenView>, pos: nat) -> ParsedStmt {
    if kind_at(ts, pos) == TokenType::Print {
        closed_by_semicolon(ts, pos + 1, expression_at(ts, pos + 1), true).after(1)
    } else {
        closed_by_semicolon(ts, pos, expression_at(ts, pos), false)
    }
}

/// The keywords that begin a statement or a declaration.
pub open spec fn begins_statement(kind: TokenType) -> bool {
    match kind {
        TokenType::Class
        | TokenType::Fun
        | TokenType::Var
        | TokenType::For
        | TokenType::If
        | TokenType::While
        | TokenType::Print
        | TokenType::Return => true,
        _ => false,
    }
}

/// A position where a statement may plausibly begin: the end of the
/// input, just after a `;`, or at a keyword that begins a statement.
pub open spec fn is_boundary(ts: Seq<TokenView>, pos: nat) -> bool {
    ||| kind_at(ts, pos) == TokenType::Eof
    ||| (pos > 0 && kind_at(ts, (pos - 1) as nat) == TokenType::Semicolon)
    ||| begins_statement(kind_at(ts, pos))
}

/// How many tokens stand between `pos` and the first boundary at or after
/// it.
pub open spec fn skipped(ts: Seq<TokenView>, pos: nat) -> nat
    decreases remaining(ts, pos),
{
    if is_boundary(ts, pos) {
        0
    } else {
        1 + skipped(ts, pos + 1)
    }
}

/// Where parsing resumes after an error at `pos`: the token at fault is
/// dropped, unless it is the end marker, and so are those up to the next
/// boundary.
pub open spec fn synchronized(ts: Seq<TokenView>, pos: nat) -> nat {
    if kind_at(ts, pos) == TokenType::Eof {
        pos
    } else {
        pos + 1 + skipped(ts, pos + 1)
    }
}

/// The statements and the errors of an input, each in the order of the
/// input.
pub struct Program {
    pub statements: Seq<StmtView>,
    pub errors: Seq<ParseErrorView>,
}

/// The statements from `pos` to the end marker. A statement that fails
/// gives its one error, and parsing resumes at the next boundary.
pub open spec fn program_at(ts: Seq<TokenView>, pos: nat) -> Program
    decreases remaining(ts, pos),
{
    if kind_at(ts, pos) == TokenType::Eof {
        Program { statements: Seq::empty(), errors: Seq::empty() }
    } else {
        let first = statement_at(ts, pos);
        match first.result {
            Ok(statement) => {
                let rest = program_at(ts, pos + first.used);
                Program { statements: seq![statement] + rest.statements, errors: rest.errors }
            },
            Err(e) => {
                let rest = program_at(ts, synchronized(ts, pos + first.used));
                Program { statements: rest.statements, errors: seq![e] + rest.errors }
            },
        }
    }
}

/// The result of parsing the input from `pos`: the statements where every
/// one of them parsed, else all the errors.
pub open spec fn parse_from(ts: Seq<TokenView>, pos: nat) -> Result<
    Seq<StmtView>,
    Seq<ParseErrorView>,
> {
    let program = program_at(ts, pos);
    if program.errors.len() == 0 {
        Ok(program.statements)
    } else {
        Err(program.errors)
    }
}

/// The view of the outcome of parsing a statement.
pub open spec fn stmt_outcome(r: Result<Stmt, ParseError>) -> Result<StmtView, ParseErrorView> {
    match r {
        Ok(s) => Ok(s@),
        Err(e) => Err(e@),
    }
}

/// The view of the result of a parse.
pub open spec fn parse_outcome(r: Result<Vec<Stmt>, Vec<ParseError>>) -> Result<
    Seq<StmtView>,
    Seq<ParseErrorView>,
> {
    match r {
        Ok(statements) => Ok(stmts_view(statements@)),
        Err(errors) => Err(errors_view(errors@)),
    }
}

/// The view of the outcome of parsing an expression.
pub open spec fn expr_outcome(r: Result<Expr, ParseError>) -> Result<ExprView, ParseErrorView> {
    match r {
        Ok(e) => Ok(e@),
        Err(e) => Err(e@),
    }
}

/// Tells whether the tokens meet the token contract.
pub fn is_well_formed(tokens: &Vec<Token>) -> (r: bool)
    ensures
        r == well_formed(tokens_view(tokens@)),
{
    let n = tokens.len();
    if n == 0 {
        return false;
    }
    if tokens[n - 1].token_type != TokenType::Eof {
        return false;
    }
    let mut i: usize = 0;
    while i < n
        invariant
            n == tokens.len(),
            i <= n,
            forall|j: int| 0 <= j < i ==> carries_value(#[trigger] tokens_view(tokens@)[j]),
        decreases n - i,
    {
        let kind = tokens[i].token_type;
        if (kind == TokenType::Number || kind == TokenType::String) && tokens[i].literal.is_none() {
            assert(!carries_value(tokens_view(tokens@)[i as int]));
            return false;
        }
        i += 1;
    }
    true
}

/// The operators of an infix level.
fn level_operators(level: u8) -> (kinds: Vec<TokenType>)
    ensures
        forall|kind: TokenType| kinds@.contains(kind) <==> infix_level(kind) == Some(level as nat),
{
    let kinds = if level == 0 {
        vec![TokenType::BangEqual, TokenType::EqualEqual]
    } else if level == 1 {
        vec![TokenType::Greater, TokenType::GreaterEqual, TokenType::Less, TokenType::LessEqual]
    } else if level == 2 {
        vec![TokenType::Minus, TokenType::Plus]
    } else if level == 3 {
        vec![TokenType::Slash, TokenType::Star]
    } else {
        Vec::new()
    };
    assert forall|kind: TokenType| infix_level(kind) == Some(level as nat) implies kinds@.contains(
        kind,
    ) by {
        if level == 0 {
            assert(kinds@[0] == TokenType::BangEqual && kinds@[1] == TokenType::EqualEqual);
        } else if level == 1 {
            assert(kinds@[0] == TokenType::Greater && kinds@[1] == TokenType::GreaterEqual
                && kinds@[2] == TokenType::Less && kinds@[3] == TokenType::LessEqual);
        } else if level == 2 {
            assert(kinds@[0] == TokenType::Minus && kinds@[1] == TokenType::Plus);
        } else {
            assert(kinds@[0] == TokenType::Slash && kinds@[1] == TokenType::Star);
        }
    }
    kinds
}

/// A parser over one input, with the position of the next token to read.
pub struct Parser<'a> {
    tokens: &'a Vec<Token>,
    current: usize,
}

impl<'a> Parser<'a> {
    /// The input.
    pub closed spec fn input(&self) -> Seq<TokenView> {
        tokens_view(self.tokens@)
    }

    /// The position of the next token to read.
    pub closed spec fn position(&self) -> nat {
        self.current as nat
    }

    /// The input meets the token contract and the position is within it.
    pub closed spec fn wf(&self) -> bool {
        well_formed(self.input()) && self.current < self.tokens.len()
    }

    /// The parser reads the same input as `before` and has not gone back.
    spec fn follows(&self, before: &Self) -> bool {
        self.tokens == before.tokens && self.wf() && self.current >= before.current
    }

    /// What the parser made of the tokens between `before` and now.
    spec fn outcome(&self, before: &Self, r: Result<Expr, ParseError>) -> Parsed {
        Parsed { result: expr_outcome(r), used: (self.current - before.current) as nat }
    }

    /// A parser at the start of the tokens. It is fit to parse where they
    /// meet the token contract.
    pub fn new(tokens: &'a Vec<Token>) -> (parser: Parser<'a>)
        ensures
            parser.input() == tokens_view(tokens@),
            parser.position() == 0,
            well_formed(tokens_view(tokens@)) ==> parser.wf(),
    {
        Parser { tokens, current: 0 }
    }

    /// Parses the whole input from the current position.
    pub fn parse(&mut self) -> (r: Result<Vec<Stmt>, Vec<ParseError>>)
        requires
            old(self).wf(),
        ensures
            final(self).wf(),
            final(self).input() == old(self).input(),
            kind_at(final(self).input(), final(self).position()) == TokenType::Eof,
            parse_outcome(r) == parse_from(old(self).input(), old(self).position()),
    {
        let ghost ts = self.input();
        let ghost start = self.position();
        let mut statements: Vec<Stmt> = Vec::new();
        let mut errors: Vec<ParseError> = Vec::new();
        while !self.is_at_end()
            invariant
                self.follows(old(self)),
                ts == self.input(),
                start == old(self).position(),
                program_at(ts, start).statements == stmts_view(statements@) + program_at(
                    ts,
                    self.position(),
                ).statements,
                program_at(ts, start).errors == errors_view(errors@) + program_at(
                    ts,
                    self.position(),
                ).errors,
            decreases remaining(ts, self.position()),
        {
            let ghost here = self.position();
            let ghost before_statements = statements@;
            let ghost before_errors = errors@;
            match self.statement() {
                Ok(statement) => {
                    statements.push(statement);
                    assert(stmts_view(statements@) =~= stmts_view(before_statements).push(
                        statement@,
                    ));
                    assert(stmts_view(statements@) + program_at(ts, self.position()).statements
                        =~= stmts_view(before_statements) + program_at(ts, here).statements);
                },
                Err(e) => {
                    errors.push(e);
                    self.synchronize();
                    assert(errors_view(errors@) =~= errors_view(before_errors).push(e@));
                    assert(errors_view(errors@) + program_at(ts, self.position()).errors
                        =~= errors_view(before_errors) + program_at(ts, here).errors);
                },
            }
        }
        if errors.len() == 0 {
            Ok(statements)
        } else {
            Err(errors)
        }
    }

    /// What the parser made of the tokens between `before` and now.
    spec fn stmt_made(&self, before: &Self, r: Result<Stmt, ParseError>) -> ParsedStmt {
        ParsedStmt { result: stmt_outcome(r), used: (self.current - before.current) as nat }
    }

    fn statement(&mut self) -> (r: Result<Stmt, ParseError>)
        requires
            old(self).wf(),
        ensures
            final(self).follows(old(self)),
            final(self).stmt_made(old(self), r) == statement_at(
                old(self).input(),
                old(self).position(),
            ),
    {
        if self.match_token_types(vec![TokenType::Print]) {
            self.print_statement()
        } else {
            self.expression_statement()
        }
    }

    fn print_statement(&mut self) -> (r: Result<Stmt, ParseError>)
        requires
            old(self).wf(),
        ensures
            final(self).follows(old(self)),
            final(self).stmt_made(old(self), r) == closed_by_semicolon(
                old(self).input(),
                old(self).position(),
                expression_at(old(self).input(), old(self).position()),
                true,
            ),
    {
        let value = match self.expression() {
            Ok(e) => e,
            Err(e) => {
                return Err(e);
            },
        };
        match self.consume(TokenType::Semicolon, "Expect ';' after value.".to_owned()) {
            Ok(_) => Ok(Stmt::Print(Print { expression: value })),
            Err(e) => Err(e),
        }
    }

    fn expression_statement(&mut self) -> (r: Result<Stmt, ParseError>)
        requires
            old(self).wf(),
        ensures
            final(self).follows(old(self)),
            final(self).stmt_made(old(self), r) == closed_by_semicolon(
                old(self).input(),
                old(self).position(),
                expression_at(old(self).input(), old(self).position()),
                false,
            ),
    {
        let expr = match self.expression() {
            Ok(e) => e,
            Err(e) => {
                return Err(e);
            },
        };
        match self.consume(TokenType::Semicolon, "Expect ';' after expression.".to_owned()) {
            Ok(_) => Ok(Stmt::Expression(Expression { expression: expr })),
            Err(e) => Err(e),
        }
    }

    /// Drops tokens up to the next place where a statement may begin.
    fn synchronize(&mut self)
        requires
            old(self).wf(),
            kind_at(old(self).input(), old(self).position()) != TokenType::Eof || old(
                self,
            ).position() > 0,
        ensures
            final(self).follows(old(self)),
            final(self).position() == synchronized(old(self).input(), old(self).position()),
    {
        let ghost ts = self.input();
        if self.is_at_end() {
            return ;
        }
        self.advance();
        while !self.is_at_end()
            invariant
                self.follows(old(self)),
                ts == self.input(),
                self.position() > 0,
                synchronized(ts, old(self).position()) == self.position() + skipped(
                    ts,
                    self.position(),
                ),
            decreases remaining(ts, self.position()),
        {
            if self.previous().token_type == TokenType::Semicolon {
                return ;
            }
            match self.peek().token_type {
                TokenType::Class
                | TokenType::Fun
                | TokenType::Var
                | TokenType::For
                | TokenType::If
                | TokenType::While
                | TokenType::Print
                | TokenType::Return => {
                    return ;
                },
                _ => (),
            }
            self.advance();
        }
    }

    fn expression(&mut self) -> (r: Result<Expr, ParseError>)
        requires
            old(self).wf(),
        ensures
            final(self).follows(old(self)),
            final(self).outcome(old(self), r) == expression_at(
                old(self).input(),
                old(self).position(),
            ),
        decreases remaining(old(self).input(), old(self).position()), 14nat,
    {
        self.equality()
    }

    fn equality(&mut self) -> (r: Result<Expr, ParseError>)
        requires
            old(self).wf(),
        ensures
            final(self).follows(old(self)),
            final(self).outcome(old(self), r) == binary_at(
                old(self).input(),
                old(self).position(),
                0,
            ),
        decreases remaining(old(self).input(), old(self).position()), 13nat,
    {
        self.binary(0)
    }

    fn comparison(&mut self) -> (r: Result<Expr, ParseError>)
        requires
            old(self).wf(),
        ensures
            final(self).follows(old(self)),
            final(self).outcome(old(self), r) == binary_at(
                old(self).input(),
                old(self).position(),
                1,
            ),
        decreases remaining(old(self).input(), old(self).position()), 10nat,
    {
        self.binary(1)
    }

    fn term(&mut self) -> (r: Result<Expr, ParseError>)
        requires
            old(self).wf(),
        ensures
            final(self).follows(old(self)),
            final(self).outcome(old(self), r) == binary_at(
                old(self).input(),
                old(self).position(),
                2,
            ),
        decreases remaining(old(self).input(), old(self).position()), 7nat,
    {
        self.binary(2)
    }

    fn factor(&mut self) -> (r: Result<Expr, ParseError>)
        requires
            old(self).wf(),
        ensures
            final(self).follows(old(self)),
            final(self).outcome(old(self), r) == binary_at(
                old(self).input(),
                old(self).position(),
                3,
            ),
        decreases remaining(old(self).input(), old(self).position()), 4nat,
    {
        self.binary(3)
    }

    /// One operand of the level above `level`.
    fn operand(&mut self, level: u8) -> (r: Result<Expr, ParseError>)
        requires
            old(self).wf(),
            level <= 3,
        ensures
            final(self).follows(old(self)),
            final(self).outcome(old(self), r) == binary_at(
                old(self).input(),
                old(self).position(),
                level as nat + 1,
            ),
        decreases remaining(old(self).input(), old(self).position()), 3 * (4 - level) - 1,
    {
        if level == 0 {
            self.comparison()
        } else if level == 1 {
            self.term()
        } else if level == 2 {
            self.factor()
        } else {
            self.unary()
        }
    }

    /// The infix level `level`: operands of the next level, folded to the
    /// left over the operators of this one.
    fn binary(&mut self, level: u8) -> (r: Result<Expr, ParseError>)
        requires
            old(self).wf(),
            level <= 3,
        ensures
            final(self).follows(old(self)),
            final(self).outcome(old(self), r) == binary_at(
                old(self).input(),
                old(self).position(),
                level as nat,
            ),
        decreases remaining(old(self).input(), old(self).position()), 3 * (4 - level),
    {
        let ghost ts = self.input();
        let ghost start = self.position();
        let mut expr = match self.operand(level) {
            Ok(e) => e,
            Err(e) => {
                return Err(e);
            },
        };
        loop
            invariant
                self.follows(old(self)),
                level <= 3,
                ts == self.input(),
                start == old(self).position(),
                binary_at(ts, start, level as nat) == tail_at(
                    ts,
                    self.position(),
                    level as nat,
                    expr@,
                ).after((self.position() - start) as nat),
            decreases remaining(ts, self.position()),
        {
            if !self.match_token_types(level_operators(level)) {
                return Ok(expr);
            }
            let operator = self.previous().clone();
            let right = match self.operand(level) {
                Ok(e) => e,
                Err(e) => {
                    return Err(e);
                },
            };
            expr = Expr::Binary(Binary { left: Box::new(expr), operator, right: Box::new(right) });
        }
    }

    fn unary(&mut self) -> (r: Result<Expr, ParseError>)
        requires
            old(self).wf(),
        ensures
            final(self).follows(old(self)),
            final(self).outcome(old(self), r) == unary_at(old(self).input(), old(self).position()),
        decreases remaining(old(self).input(), old(self).position()), 1nat,
    {
        if self.match_token_types(vec![TokenType::Bang, TokenType::Minus]) {
            let operator = self.previous().clone();
            let right = match self.unary() {
                Ok(e) => e,
                Err(e) => {
                    return Err(e);
                },
            };
            return Ok(Expr::Unary(Unary { operator, right: Box::new(right) }));
        }
        self.primary()
    }

    fn primary(&mut self) -> (r: Result<Expr, ParseError>)
        requires
            old(self).wf(),
        ensures
            final(self).follows(old(self)),
            final(self).outcome(old(self), r) == primary_at(
                old(self).input(),
                old(self).position(),
            ),
        decreases remaining(old(self).input(), old(self).position()), 0nat,
    {
        if self.match_token_types(vec![TokenType::False]) {
            return Ok(Expr::Literal(Literal { value: Object::Bool(false) }));
        }
        if self.match_token_types(vec![TokenType::True]) {
            return Ok(Expr::Literal(Literal { value: Object::Bool(true) }));
        }
        if self.match_token_types(vec![TokenType::Nil]) {
            return Ok(Expr::Literal(Literal { value: Object::Nil }));
        }
        if self.match_token_types(vec![TokenType::Number, TokenType::String]) {
            let value = match &self.previous().literal {
                Some(value) => value.clone(),
                None => unreached(),
            };
            return Ok(Expr::Literal(Literal { value }));
        }
        if self.match_token_types(vec![TokenType::LeftParen]) {
            let expr = match self.expression() {
                Ok(e) => e,
                Err(e) => {
                    return Err(e);
                },
            };
            return match self.consume(
                TokenType::RightParen,
                "Expect ')' after expression.".to_owned(),
            ) {
                Ok(_) => Ok(Expr::Grouping(Grouping { expression: Box::new(expr) })),
                Err(e) => Err(e),
            };
        }
        Err(Self::error(self.peek().clone(), "Expect expression.".to_owned()))
    }

    /// Steps over the expected token, or fails at the token found instead.
    fn consume(&mut self, token_type: TokenType, message: String) -> (r: Result<
        &'a Token,
        ParseError,
    >)
        requires
            old(self).wf(),
        ensures
            final(self).follows(old(self)),
            match r {
                Ok(token) => {
                    &&& kind_at(old(self).input(), old(self).position()) == token_type
                    &&& token_type != TokenType::Eof
                    &&& final(self).position() == old(self).position() + 1
                    &&& token@ == old(self).input()[old(self).position() as int]
                },
                Err(e) => {
                    &&& !(kind_at(old(self).input(), old(self).position()) == token_type
                        && token_type != TokenType::Eof)
                    &&& final(self).position() == old(self).position()
                    &&& e@ == ParseErrorView {
                        token: old(self).input()[old(self).position() as int],
                        message: message@,
                    }
                },
            },
    {
        if self.check(token_type) {
            return Ok(self.advance());
        }
        let token = self.peek().clone();
        Err(Self::error(token, message))
    }

    fn error(token: Token, message: String) -> (e: ParseError)
        ensures
            e.token == token,
            e.message == message,
    {
        ParseError { token, message }
    }

    /// Steps over the next token where it is one of the given categories.
    fn match_token_types(&mut self, token_types: Vec<TokenType>) -> (r: bool)
        requires
            old(self).wf(),
        ensures
            final(self).follows(old(self)),
            r == (kind_at(old(self).input(), old(self).position()) != TokenType::Eof
                && token_types@.contains(kind_at(old(self).input(), old(self).position()))),
            final(self).position() == old(self).position() + if r {
                1nat
            } else {
                0nat
            },
    {
        let mut i: usize = 0;
        while i < token_types.len()
            invariant
                i <= token_types.len(),
                self.wf(),
                *self == *old(self),
                forall|j: int|
                    0 <= j < i ==> !(kind_at(self.input(), self.position()) != TokenType::Eof
                        && #[trigger] token_types@[j] == kind_at(self.input(), self.position())),
            decreases token_types.len() - i,
        {
            if self.check(token_types[i]) {
                self.advance();
                return true;
            }
            i += 1;
        }
        false
    }

    fn check(&self, token_type: TokenType) -> (r: bool)
        requires
            self.wf(),
        ensures
            r == (kind_at(self.input(), self.position()) == token_type && token_type
                != TokenType::Eof),
    {
        if self.is_at_end() {
            false
        } else {
            self.peek().token_type == token_type
        }
    }

    /// Steps over the next token unless it is the end marker, and returns
    /// the token before the new position.
    fn advance(&mut self) -> (token: &'a Token)
        requires
            old(self).wf(),
            kind_at(old(self).input(), old(self).position()) != TokenType::Eof || old(
                self,
            ).position() > 0,
        ensures
            final(self).follows(old(self)),
            final(self).position() == old(self).position() + if kind_at(
                old(self).input(),
                old(self).position(),
            ) != TokenType::Eof {
                1nat
            } else {
                0nat
            },
            token@ == old(self).input()[final(self).position() - 1],
    {
        if !self.is_at_end() {
            self.current += 1
        }
        return self.previous();
    }

    fn is_at_end(&self) -> (r: bool)
        requires
            self.wf(),
        ensures
            r == (kind_at(self.input(), self.position()) == TokenType::Eof),
    {
        self.peek().token_type == TokenType::Eof
    }

    fn peek(&self) -> (token: &'a Token)
        requires
            self.wf(),
        ensures
            token@ == self.input()[self.position() as int],
    {
        &self.tokens[self.current]
    }

    fn previous(&self) -> (token: &'a Token)
        requires
            self.wf(),
            self.position() > 0,
        ensures
            token@ == self.input()[self.position() - 1],
    {
        &self.tokens[self.current - 1]
    }
}

} // verus!
