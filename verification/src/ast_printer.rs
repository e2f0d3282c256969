//! Text for debugging: a printer of syntax trees, every operator in
//! parentheses before its operands, and the text of a token.
//!
//! How a string is quoted is the standard library's `Debug`, taken on
//! trust through one wrapper. The text of a number is the caller's: the
//! printers take it as a function `decimal`.

use vstd::prelude::*;
use crate::ast::{Binary, Expr, ExprView, Grouping, Literal, Unary};
use crate::interpreter::{renders, total_text, DecimalFn};
use crate::token::{Object, ObjectView, Token, TokenType, TokenView};

verus! {

/// The text in double quotes with its special characters escaped, as
/// `Debug` writes a string.
pub uninterp spec fn quoted(text: Seq<char>) -> Seq<char>;

/// `Debug` for `str`, through `format!`: the text in double quotes, with
/// escapes for what would not show. The result depends on the characters
/// of the text alone.
#[verifier::external_body]
fn quote(text: &String) -> (shown: String)
    ensures
        shown@ == quoted(text@),
{
    format!("{:?}", text)
}

/// How a literal is shown, with `g` for the text of a number: the name of
/// the variant, and its content in parentheses.
pub open spec fn literal_text(value: ObjectView, g: DecimalFn) -> Seq<char> {
    match value {
        ObjectView::Str(text) => "Str("@ + quoted(text) + ")"@,
        ObjectView::Number(n) => "Number("@ + g(n) + ")"@,
        ObjectView::Bool(b) => if b {
            "Bool(true)"@
        } else {
            "Bool(false)"@
        },
        ObjectView::Nil => "Nil"@,
    }
}

/// The parts, each after a space.
pub open spec fn spaced(parts: Seq<Seq<char>>) -> Seq<char>
    decreases parts.len(),
{
    if parts.len() == 0 {
        Seq::empty()
    } else {
        spaced(parts.drop_last()) + " "@ + parts.last()
    }
}

/// A name and the parts, spaced, in one pair of parentheses. Without
/// parts, a space still follows the name.
pub open spec fn parenthesized(name: Seq<char>, parts: Seq<Seq<char>>) -> Seq<char> {
    if parts.len() == 0 {
        "("@ + name + " "@ + ")"@
    } else {
        "("@ + name + spaced(parts) + ")"@
    }
}

/// How a tree is shown, with `g` for the text of a number.
pub open spec fn printed(expr: ExprView, g: DecimalFn) -> Seq<char>
    decreases expr,
{
    match expr {
        ExprView::Binary { left, operator, right } => parenthesized(
            operator.lexeme,
            seq![printed(*left, g), printed(*right, g)],
        ),
        ExprView::Grouping { expression } => parenthesized("group"@, seq![printed(*expression, g)]),
        ExprView::Literal { value } => literal_text(value, g),
        ExprView::Unary { operator, right } => parenthesized(
            operator.lexeme,
            seq![printed(*right, g)],
        ),
    }
}

/// The number of nodes on the longest way down the tree.
pub open spec fn height(expr: ExprView) -> nat
    decreases expr,
{
    match expr {
        ExprView::Binary { left, operator, right } => 1 + if height(*left) >= height(*right) {
            height(*left)
        } else {
            height(*right)
        },
        ExprView::Grouping { expression } => 1 + height(*expression),
        ExprView::Literal { value } => 1,
        ExprView::Unary { operator, right } => 1 + height(*right),
    }
}

/// The trees, each shown.
pub open spec fn printed_each(exprs: Seq<&Expr>, g: DecimalFn) -> Seq<Seq<char>> {
    exprs.map_values(|e: &Expr| printed(e@, g))
}

fn parenthesize<D>(name: &str, exprs: Vec<&Expr>, decimal: &D, Ghost(bound): Ghost<nat>) -> (text:
    String) where D: Fn(u64) -> String
    requires
        total_text(decimal),
        forall|i: int| 0 <= i < exprs@.len() ==> height((#[trigger] exprs@[i])@) < bound,
    ensures
        forall|g: DecimalFn| #[trigger]
            renders(decimal, g) ==> text@ == parenthesized(name@, printed_each(exprs@, g)),
    decreases bound, 0nat,
{
    let mut text = String::from_str("(");
    text.append(name);
    if exprs.len() == 0 {
        text.append(" ");
        text.append(")");
        return text;
    }
    let mut i: usize = 0;
    while i < exprs.len()
        invariant
            i <= exprs.len(),
            total_text(decimal),
            forall|i: int| 0 <= i < exprs@.len() ==> height((#[trigger] exprs@[i])@) < bound,
            forall|g: DecimalFn| #[trigger]
                renders(decimal, g) ==> text@ == "("@ + name@ + spaced(
                    printed_each(exprs@, g).take(i as int),
                ),
        decreases exprs.len() - i,
    {
        let ghost before = text@;
        let part = print_ast(exprs[i], decimal);
        text.append(" ");
        text.append(part.as_str());
        proof {
            assert forall|g: DecimalFn| #[trigger]
                renders(decimal, g) implies text@ == "("@ + name@ + spaced(
                printed_each(exprs@, g).take(i + 1),
            ) by {
                let all = printed_each(exprs@, g);
                assert(all.take(i + 1).drop_last() =~= all.take(i as int));
                assert(all.take(i + 1).last() == part@);
                assert(text@ =~= "("@ + name@ + (spaced(all.take(i as int)) + " "@ + part@));
            }
        }
        i += 1;
    }
    text.append(")");
    proof {
        assert forall|g: DecimalFn| #[trigger]
            renders(decimal, g) implies text@ == parenthesized(
            name@,
            printed_each(exprs@, g),
        ) by {
            let all = printed_each(exprs@, g);
            assert(all.take(exprs@.len() as int) =~= all);
        }
    }
    text
}

/// Shows a literal. `decimal` gives the text of a number.
pub fn literal_to_text<D>(value: &Object, decimal: &D) -> (text: String) where D: Fn(u64) -> String
    requires
        total_text(decimal),
    ensures
        forall|g: DecimalFn| #[trigger]
            renders(decimal, g) ==> text@ == literal_text(value@, g),
        !(value@ is Number) ==> forall|g: DecimalFn|
            text@ == #[trigger] literal_text(value@, g),
{
    match value {
        Object::Str(s) => {
            let mut text = String::from_str("Str(");
            text.append(quote(s).as_str());
            text.append(")");
            text
        },
        Object::Number(n) => {
            let mut text = String::from_str("Number(");
            text.append(decimal(*n).as_str());
            text.append(")");
            text
        },
        Object::Bool(b) => if *b {
            String::from_str("Bool(true)")
        } else {
            String::from_str("Bool(false)")
        },
        Object::Nil => String::from_str("Nil"),
    }
}

/// Shows a tree. `decimal` gives the text of a number.
pub fn print_ast<D>(expr: &Expr, decimal: &D) -> (text: String) where D: Fn(u64) -> String
    requires
        total_text(decimal),
    ensures
        forall|g: DecimalFn| #[trigger]
            renders(decimal, g) ==> text@ == printed(expr@, g),
    decreases height(expr@), 1nat,
{
    match expr {
        Expr::Binary(Binary { left, operator, right }) => {
            let mut parts: Vec<&Expr> = Vec::new();
            parts.push(&**left);
            parts.push(&**right);
            let text = parenthesize(
                operator.lexeme.as_str(),
                parts,
                decimal,
                Ghost(height(expr@)),
            );
            proof {
                assert forall|g: DecimalFn| #[trigger]
                    renders(decimal, g) implies text@ == printed(expr@, g) by {
                    assert(printed_each(parts@, g) =~= seq![
                        printed((**left)@, g),
                        printed((**right)@, g),
                    ]);
                }
            }
            text
        },
        Expr::Grouping(Grouping { expression }) => {
            let mut parts: Vec<&Expr> = Vec::new();
            parts.push(&**expression);
            let text = parenthesize("group", parts, decimal, Ghost(height(expr@)));
            proof {
                assert forall|g: DecimalFn| #[trigger]
                    renders(decimal, g) implies text@ == printed(expr@, g) by {
                    assert(printed_each(parts@, g) =~= seq![printed((**expression)@, g)]);
                }
            }
            text
        },
        Expr::Literal(Literal { value }) => literal_to_text(value, decimal),
        Expr::Unary(Unary { operator, right }) => {
            let mut parts: Vec<&Expr> = Vec::new();
            parts.push(&**right);
            let text = parenthesize(
                operator.lexeme.as_str(),
                parts,
                decimal,
                Ghost(height(expr@)),
            );
            proof {
                assert forall|g: DecimalFn| #[trigger]
                    renders(decimal, g) implies text@ == printed(expr@, g) by {
                    assert(printed_each(parts@, g) =~= seq![printed((**right)@, g)]);
                }
            }
            text
        },
    }
}

/// The name of a category.
pub open spec fn kind_name(kind: TokenType) -> Seq<char> {
    match kind {
        TokenType::LeftParen => "LeftParen"@,
        TokenType::RightParen => "RightParen"@,
        TokenType::LeftBrace => "LeftBrace"@,
        TokenType::RightBrace => "RightBrace"@,
        TokenType::Comma => "Comma"@,
        TokenType::Dot => "Dot"@,
        TokenType::Minus => "Minus"@,
        TokenType::Plus => "Plus"@,
        TokenType::Semicolon => "Semicolon"@,
        TokenType::Slash => "Slash"@,
        TokenType::Star => "Star"@,
        TokenType::Bang => "Bang"@,
        TokenType::BangEqual => "BangEqual"@,
        TokenType::Equal => "Equal"@,
        TokenType::EqualEqual => "EqualEqual"@,
        TokenType::Greater => "Greater"@,
        TokenType::GreaterEqual => "GreaterEqual"@,
        TokenType::Less => "Less"@,
        TokenType::LessEqual => "LessEqual"@,
        TokenType::Identifier => "Identifier"@,
        TokenType::String => "String"@,
        TokenType::Number => "Number"@,
        TokenType::And => "And"@,
        TokenType::Class => "Class"@,
        TokenType::Else => "Else"@,
        TokenType::False => "False"@,
        TokenType::Fun => "Fun"@,
        TokenType::For => "For"@,
        TokenType::If => "If"@,
        TokenType::Nil => "Nil"@,
        TokenType::Or => "Or"@,
        TokenType::Print => "Print"@,
        TokenType::Return => "Return"@,
        TokenType::Super => "Super"@,
        TokenType::This => "This"@,
        TokenType::True => "True"@,
        TokenType::Var => "Var"@,
        TokenType::While => "While"@,
        TokenType::Eof => "Eof"@,
    }
}

/// How the value of a token is shown, with `g` for the text of a number.
pub open spec fn payload_text(literal: Option<ObjectView>, g: DecimalFn) -> Seq<char> {
    match literal {
        Some(value) => "Some("@ + literal_text(value, g) + ")"@,
        None => "None"@,
    }
}

/// How a token is shown, with `g` for the text of a number: the name of
/// its category, its text and its value, with a space between them.
pub open spec fn token_text(token: TokenView, g: DecimalFn) -> Seq<char> {
    kind_name(token.token_type) + " "@ + token.lexeme + " "@ + payload_text(token.literal, g)
}

/// Names a category.
pub fn kind_to_text(kind: TokenType) -> (name: &'static str)
    ensures
        name@ == kind_name(kind),
{
    match kind {
        TokenType::LeftParen => "LeftParen",
        TokenType::RightParen => "RightParen",
        TokenType::LeftBrace => "LeftBrace",
        TokenType::RightBrace => "RightBrace",
        TokenType::Comma => "Comma",
        TokenType::Dot => "Dot",
        TokenType::Minus => "Minus",
        TokenType::Plus => "Plus",
        TokenType::Semicolon => "Semicolon",
        TokenType::Slash => "Slash",
        TokenType::Star => "Star",
        TokenType::Bang => "Bang",
        TokenType::BangEqual => "BangEqual",
        TokenType::Equal => "Equal",
        TokenType::EqualEqual => "EqualEqual",
        TokenType::Greater => "Greater",
        TokenType::GreaterEqual => "GreaterEqual",
        TokenType::Less => "Less",
        TokenType::LessEqual => "LessEqual",
        TokenType::Identifier => "Identifier",
        TokenType::String => "String",
        TokenType::Number => "Number",
        TokenType::And => "And",
        TokenType::Class => "Class",
        TokenType::Else => "Else",
        TokenType::False => "False",
        TokenType::Fun => "Fun",
        TokenType::For => "For",
        TokenType::If => "If",
        TokenType::Nil => "Nil",
        TokenType::Or => "Or",
        TokenType::Print => "Print",
        TokenType::Return => "Return",
        TokenType::Super => "Super",
        TokenType::This => "This",
        TokenType::True => "True",
        TokenType::Var => "Var",
        TokenType::While => "While",
        TokenType::Eof => "Eof",
    }
}

impl Token {
    /// Shows the token. `decimal` gives the text of a number.
    pub fn to_text<D>(&self, decimal: &D) -> (text: String) where D: Fn(u64) -> String
        requires
            total_text(decimal),
        ensures
            forall|g: DecimalFn| #[trigger]
                renders(decimal, g) ==> text@ == token_text(self@, g),
    {
        let mut text = String::from_str(kind_to_text(self.token_type));
        text.append(" ");
        text.append(self.lexeme.as_str());
        text.append(" ");
        match &self.literal {
            Some(value) => {
                text.append("Some(");
                text.append(literal_to_text(value, decimal).as_str());
                text.append(")");
                proof {
                    assert forall|g: DecimalFn| #[trigger]
                        renders(decimal, g) implies text@ == token_text(self@, g) by {
                        assert(text@ =~= token_text(self@, g));
                    }
                }
            },
            None => {
                text.append("None");
            },
        }
        text
    }
}

} // verus!
