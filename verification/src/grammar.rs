//! The grammar, stated of trees: which tokens spell an expression, and
//! which trees respect precedence. What the parser returns is such a tree,
//! spelled by the tokens it consumed.

use vstd::prelude::*;
use crate::ast::{ExprView, StmtView};
use crate::parser::{
    binary_at, head_rank, infix_level, is_boundary, is_prefix, kind_at, parse_from, primary_at,
    program_at, remaining,
    skipped, statement_at, synchronized, tail_at, tail_rank, unary_at, well_formed, Parsed,
    ParsedStmt,
};
use crate::token::{ObjectView, TokenType, TokenView};

verus! {

/// Whether the token is the literal of the value.
pub open spec fn spells_literal(token: TokenView, value: ObjectView) -> bool {
    match token.token_type {
        TokenType::False => value == ObjectView::Bool(false),
        TokenType::True => value == ObjectView::Bool(true),
        TokenType::Nil => value == ObjectView::Nil,
        TokenType::Number | TokenType::String => token.literal == Some(value),
        _ => false,
    }
}

/// The number of tokens that spell the expression.
pub open spec fn width(expr: ExprView) -> nat
    decreases expr,
{
    match expr {
        ExprView::Literal { value } => 1,
        ExprView::Grouping { expression } => width(*expression) + 2,
        ExprView::Unary { operator, right } => 1 + width(*right),
        ExprView::Binary { left, operator, right } => width(*left) + 1 + width(*right),
    }
}

/// Whether the tokens from `pos` on spell the expression: a literal is
/// its token, a grouping stands between parentheses, a prefix operator
/// before its operand and an infix operator between its operands. The
/// operators in the tree are the very tokens.
pub open spec fn spelled(expr: ExprView, ts: Seq<TokenView>, pos: nat) -> bool
    decreases expr,
{
    match expr {
        ExprView::Literal { value } => pos < ts.len() && spells_literal(ts[pos as int], value),
        ExprView::Grouping { expression } => {
            &&& kind_at(ts, pos) == TokenType::LeftParen
            &&& spelled(*expression, ts, pos + 1)
            &&& kind_at(ts, pos + 1 + width(*expression)) == TokenType::RightParen
        },
        ExprView::Unary { operator, right } => {
            &&& pos < ts.len()
            &&& ts[pos as int] == operator
            &&& spelled(*right, ts, pos + 1)
        },
        ExprView::Binary { left, operator, right } => {
            &&& spelled(*left, ts, pos)
            &&& pos + width(*left) < ts.len()
            &&& ts[(pos + width(*left)) as int] == operator
            &&& spelled(*right, ts, pos + width(*left) + 1)
        },
    }
}

/// The precedence level of the root of an expression: that of its infix
/// operator, 4 for a prefix operator, 5 for a literal or a grouping. An
/// operator that is none of the grammar's stands lowest.
pub open spec fn level_of(expr: ExprView) -> nat {
    match expr {
        ExprView::Binary { left, operator, right } => match infix_level(operator.token_type) {
            Some(level) => level,
            None => 0,
        },
        ExprView::Unary { operator, right } => 4,
        _ => 5,
    }
}

/// Whether the tree respects precedence without the help of parentheses
/// other than its own groupings: the left operand of an infix operator
/// stands at its level or above, the right operand strictly above, and
/// the operand of a prefix operator is no infix expression.
pub open spec fn layered(expr: ExprView) -> bool
    decreases expr,
{
    match expr {
        ExprView::Literal { value } => true,
        ExprView::Grouping { expression } => layered(*expression),
        ExprView::Unary { operator, right } => {
            &&& is_prefix(operator.token_type)
            &&& layered(*right)
            &&& level_of(*right) >= 4
        },
        ExprView::Binary { left, operator, right } => {
            &&& infix_level(operator.token_type) is Some
            &&& layered(*left)
            &&& layered(*right)
            &&& level_of(*left) >= level_of(expr)
            &&& level_of(*right) > level_of(expr)
        },
    }
}

/// What holds of the outcome of parsing at a level from `pos`: a tree is
/// layered, stands at the level or above, and is spelled by exactly the
/// tokens consumed, after which no operator of the level or above
/// follows; an error stands at the first token not consumed.
pub open spec fn sound(parsed: Parsed, ts: Seq<TokenView>, pos: nat, level: nat) -> bool {
    match parsed.result {
        Ok(expr) => {
            &&& layered(expr)
            &&& level_of(expr) >= level
            &&& parsed.used == width(expr)
            &&& spelled(expr, ts, pos)
            &&& pos + parsed.used < ts.len()
        },
        Err(e) => pos + parsed.used < ts.len() && e.token == ts[(pos + parsed.used) as int],
    }
}

/// A primary expression, as parsed, is sound.
pub proof fn primary_is_sound(ts: Seq<TokenView>, pos: nat)
    requires
        well_formed(ts),
        pos < ts.len(),
    ensures
        sound(primary_at(ts, pos), ts, pos, 5),
    decreases remaining(ts, pos), 0nat,
{
    if kind_at(ts, pos) == TokenType::LeftParen {
        binary_is_sound(ts, pos + 1, 0);
    }
}

/// A unary expression, as parsed, is sound.
pub proof fn unary_is_sound(ts: Seq<TokenView>, pos: nat)
    requires
        well_formed(ts),
        pos < ts.len(),
    ensures
        sound(unary_at(ts, pos), ts, pos, 4),
    decreases remaining(ts, pos), 1nat,
{
    if is_prefix(kind_at(ts, pos)) {
        unary_is_sound(ts, pos + 1);
    } else {
        primary_is_sound(ts, pos);
    }
}

/// An expression of an infix level, as parsed, is sound.
pub proof fn binary_is_sound(ts: Seq<TokenView>, pos: nat, level: nat)
    requires
        well_formed(ts),
        pos < ts.len(),
    ensures
        sound(binary_at(ts, pos, level), ts, pos, if level < 4 {
            level
        } else {
            4
        }),
    decreases remaining(ts, pos), head_rank(level),
{
    if level >= 4 {
        unary_is_sound(ts, pos);
    } else {
        binary_is_sound(ts, pos, level + 1);
        let first = binary_at(ts, pos, level + 1);
        if let Ok(left) = first.result {
            tail_is_sound(ts, pos, pos + first.used, level, left);
        }
    }
}

/// The rest of an infix level is sound: where the tokens from `start` to
/// `pos` spell `left`, a layered operand of the level, what the rest
/// makes of it is spelled by the tokens from `start` on.
pub proof fn tail_is_sound(ts: Seq<TokenView>, start: nat, pos: nat, level: nat, left: ExprView)
    requires
        well_formed(ts),
        level < 4,
        start <= pos < ts.len(),
        layered(left),
        level_of(left) >= level,
        width(left) == pos - start,
        spelled(left, ts, start),
    ensures
        sound(tail_at(ts, pos, level, left).after((pos - start) as nat), ts, start, level),
    decreases remaining(ts, pos), tail_rank(level),
{
    if infix_level(kind_at(ts, pos)) == Some(level) {
        binary_is_sound(ts, pos + 1, level + 1);
        let second = binary_at(ts, pos + 1, level + 1);
        if let Ok(right) = second.result {
            let joined = ExprView::Binary {
                left: Box::new(left),
                operator: ts[pos as int],
                right: Box::new(right),
            };
            assert(layered(joined));
            assert(spelled(joined, ts, start));
            tail_is_sound(ts, start, pos + 1 + second.used, level, joined);
        }
    }
}

/// The parser is sound: from a well-formed input, an expression that
/// parses is a layered tree spelled by exactly the tokens consumed, and an
/// error stands at the first token not consumed.
pub proof fn expression_is_sound(ts: Seq<TokenView>, pos: nat)
    requires
        well_formed(ts),
        pos < ts.len(),
    ensures
        sound(crate::parser::expression_at(ts, pos), ts, pos, 0),
{
    binary_is_sound(ts, pos, 0);
}

/// Infix operators of one level associate to the left: in a layered
/// tree, the right operand of an operator is never an expression of the
/// same or a lower level.
pub proof fn infix_associates_left(left: ExprView, operator: TokenView, right: ExprView)
    requires
        layered(ExprView::Binary { left: Box::new(left), operator, right: Box::new(right) }),
    ensures
        right matches ExprView::Binary { operator: inner, .. } ==> infix_level(inner.token_type)->0
            > infix_level(operator.token_type)->0,
        left matches ExprView::Binary { operator: inner, .. } ==> infix_level(inner.token_type)->0
            >= infix_level(operator.token_type)->0,
{
}

/// Whether the token at `pos` is no infix operator above `level`.
pub open spec fn nothing_above(ts: Seq<TokenView>, pos: nat, level: nat) -> bool {
    match infix_level(kind_at(ts, pos)) {
        Some(next) => next <= level,
        None => true,
    }
}

/// Parsing at a level reads a layered operand of that level whole, and
/// goes on behind it: where the tokens from `pos` spell `expr`, and no
/// operator above the level follows, parsing from `pos` is parsing the
/// rest of the level with `expr` to the left.
pub proof fn parse_resumes_behind(expr: ExprView, ts: Seq<TokenView>, pos: nat, level: nat)
    requires
        well_formed(ts),
        layered(expr),
        spelled(expr, ts, pos),
        level <= 4,
        level_of(expr) >= level,
        nothing_above(ts, pos + width(expr), level),
    ensures
        binary_at(ts, pos, level) == tail_at(ts, pos + width(expr), level, expr).after(width(expr)),
    decreases expr, 4 - level,
{
    let whole = Parsed { result: Ok(expr), used: width(expr) };
    if level == 4 {
        match expr {
            ExprView::Unary { operator, right } => {
                parse_resumes_behind(*right, ts, pos + 1, 4);
                assert(binary_at(ts, pos + 1, 4) == unary_at(ts, pos + 1));
                assert(unary_at(ts, pos + 1) == (Parsed {
                    result: Ok(*right),
                    used: width(*right),
                }));
                assert(unary_at(ts, pos) == whole);
            },
            ExprView::Grouping { expression } => {
                parse_resumes_behind(*expression, ts, pos + 1, 0);
                assert(binary_at(ts, pos + 1, 0) == (Parsed {
                    result: Ok(*expression),
                    used: width(*expression),
                }));
                assert(primary_at(ts, pos) == whole);
                assert(unary_at(ts, pos) == whole);
            },
            ExprView::Literal { value } => {
                assert(primary_at(ts, pos) == whole);
                assert(unary_at(ts, pos) == whole);
            },
            ExprView::Binary { .. } => {},
        }
        assert(binary_at(ts, pos, 4) == unary_at(ts, pos));
    } else if level_of(expr) > level {
        parse_resumes_behind(expr, ts, pos, level + 1);
        assert(tail_at(ts, pos + width(expr), level + 1, expr) == (Parsed {
            result: Ok(expr),
            used: 0,
        }));
        assert(binary_at(ts, pos, level + 1) == whole);
    } else {
        match expr {
            ExprView::Binary { left, operator, right } => {
                let at = pos + width(*left);
                parse_resumes_behind(*left, ts, pos, level);
                parse_resumes_behind(*right, ts, at + 1, level + 1);
                assert(tail_at(ts, at + 1 + width(*right), level + 1, *right) == (Parsed {
                    result: Ok(*right),
                    used: 0,
                }));
                assert(binary_at(ts, at + 1, level + 1) == (Parsed {
                    result: Ok(*right),
                    used: width(*right),
                }));
                assert(infix_level(kind_at(ts, at)) == Some(level));
                assert(tail_at(ts, at, level, *left) == tail_at(
                    ts,
                    at + 1 + width(*right),
                    level,
                    expr,
                ).after(width(*right) + 1));
            },
            _ => {},
        }
    }
}

/// The parser is complete, and the grammar unambiguous: a layered tree
/// parses back from any of its spellings. Where the tokens from `pos`
/// spell `expr` and no infix operator follows, parsing an expression from
/// `pos` gives `expr` and consumes exactly its spelling.
pub proof fn spelling_parses_back(expr: ExprView, ts: Seq<TokenView>, pos: nat)
    requires
        well_formed(ts),
        layered(expr),
        spelled(expr, ts, pos),
        infix_level(kind_at(ts, pos + width(expr))) is None,
    ensures
        crate::parser::expression_at(ts, pos) == (Parsed { result: Ok(expr), used: width(expr) }),
{
    parse_resumes_behind(expr, ts, pos, 0);
}

/// Two layered trees that the same tokens spell, over the same stretch,
/// are one tree.
pub proof fn spelling_is_unambiguous(a: ExprView, b: ExprView, ts: Seq<TokenView>, pos: nat)
    requires
        well_formed(ts),
        layered(a),
        layered(b),
        spelled(a, ts, pos),
        spelled(b, ts, pos),
        width(a) == width(b),
        infix_level(kind_at(ts, pos + width(a))) is None,
    ensures
        a == b,
{
    spelling_parses_back(a, ts, pos);
    spelling_parses_back(b, ts, pos);
}

/// A statement, as parsed, is what the grammar says: `print` where it is
/// a print statement and not where it is none, then a layered expression
/// spelled by the tokens that follow, then `;`. An error stands at the
/// first token not consumed.
pub proof fn statement_is_sound(ts: Seq<TokenView>, pos: nat)
    requires
        well_formed(ts),
        kind_at(ts, pos) != TokenType::Eof,
    ensures
        match statement_at(ts, pos).result {
            Ok(StmtView::Print { expression }) => {
                &&& kind_at(ts, pos) == TokenType::Print
                &&& layered(expression)
                &&& spelled(expression, ts, pos + 1)
                &&& kind_at(ts, pos + 1 + width(expression)) == TokenType::Semicolon
                &&& statement_at(ts, pos).used == width(expression) + 2
            },
            Ok(StmtView::Expression { expression }) => {
                &&& kind_at(ts, pos) != TokenType::Print
                &&& layered(expression)
                &&& spelled(expression, ts, pos)
                &&& kind_at(ts, pos + width(expression)) == TokenType::Semicolon
                &&& statement_at(ts, pos).used == width(expression) + 1
            },
            Err(e) => pos + statement_at(ts, pos).used < ts.len() && e.token == ts[(pos
                + statement_at(ts, pos).used) as int],
        },
{
    if kind_at(ts, pos) == TokenType::Print {
        expression_is_sound(ts, pos + 1);
    } else {
        expression_is_sound(ts, pos);
    }
}

/// A statement parses back from its spelling: `print`, where it is a
/// print statement, then a spelling of a layered expression, then `;`.
pub proof fn statement_parses_back(expr: ExprView, ts: Seq<TokenView>, pos: nat, print: bool)
    requires
        well_formed(ts),
        layered(expr),
        print <==> kind_at(ts, pos) == TokenType::Print,
        spelled(expr, ts, if print {
            pos + 1
        } else {
            pos
        }),
        kind_at(ts, pos + width(expr) + if print {
            1nat
        } else {
            0nat
        }) == TokenType::Semicolon,
    ensures
        statement_at(ts, pos) == (if print {
            ParsedStmt {
                result: Ok(StmtView::Print { expression: expr }),
                used: width(expr) + 2,
            }
        } else {
            ParsedStmt {
                result: Ok(StmtView::Expression { expression: expr }),
                used: width(expr) + 1,
            }
        }),
{
    if print {
        spelling_parses_back(expr, ts, pos + 1);
    } else {
        spelling_parses_back(expr, ts, pos);
    }
}

/// Skipping ends at the first boundary.
pub proof fn skipping_ends_at_first_boundary(ts: Seq<TokenView>, pos: nat)
    ensures
        is_boundary(ts, pos + skipped(ts, pos)),
        forall|q: nat| pos <= q < pos + skipped(ts, pos) ==> !is_boundary(ts, q),
    decreases remaining(ts, pos),
{
    if !is_boundary(ts, pos) {
        skipping_ends_at_first_boundary(ts, pos + 1);
    }
}

/// After an error at a token other than the end marker, parsing resumes
/// behind that token, at the first place from there on where a statement
/// may begin; at the end marker it stays.
pub proof fn recovery_resumes_at_first_boundary(ts: Seq<TokenView>, pos: nat)
    ensures
        kind_at(ts, pos) == TokenType::Eof ==> synchronized(ts, pos) == pos,
        kind_at(ts, pos) != TokenType::Eof ==> {
            &&& synchronized(ts, pos) > pos
            &&& is_boundary(ts, synchronized(ts, pos))
            &&& forall|q: nat| pos < q < synchronized(ts, pos) ==> !is_boundary(ts, q)
        },
{
    skipping_ends_at_first_boundary(ts, pos + 1);
}

/// A statement that fails gives its one error, fails the parse, and
/// leaves the rest of the input to be parsed from where recovery resumes.
pub proof fn failed_statement_gives_one_error(ts: Seq<TokenView>, pos: nat)
    requires
        kind_at(ts, pos) != TokenType::Eof,
        statement_at(ts, pos).result is Err,
    ensures
        parse_from(ts, pos) is Err,
        program_at(ts, pos).errors == seq![statement_at(ts, pos).result->Err_0] + program_at(
            ts,
            synchronized(ts, pos + statement_at(ts, pos).used),
        ).errors,
        program_at(ts, pos).statements == program_at(
            ts,
            synchronized(ts, pos + statement_at(ts, pos).used),
        ).statements,
{
}

/// Two statements that fail, the second where recovery from the first
/// resumes, give two errors in one parse: the error of the first, then
/// that of the second.
pub proof fn two_failed_statements_give_two_errors(ts: Seq<TokenView>, pos: nat)
    requires
        kind_at(ts, pos) != TokenType::Eof,
        statement_at(ts, pos).result is Err,
        kind_at(ts, synchronized(ts, pos + statement_at(ts, pos).used)) != TokenType::Eof,
        statement_at(ts, synchronized(ts, pos + statement_at(ts, pos).used)).result is Err,
    ensures
        parse_from(ts, pos) matches Err(errors) && errors.len() >= 2 && errors[0] == statement_at(
            ts,
            pos,
        ).result->Err_0 && errors[1] == statement_at(
            ts,
            synchronized(ts, pos + statement_at(ts, pos).used),
        ).result->Err_0,
{
    let next = synchronized(ts, pos + statement_at(ts, pos).used);
    failed_statement_gives_one_error(ts, pos);
    failed_statement_gives_one_error(ts, next);
}

} // verus!
