//! The evaluator: what an expression is worth, and what a program prints.
//!
//! Numbers are doubles held by their bit patterns (see `number`). Sign,
//! equality and order are read from the pattern here; the four rounding
//! operations are the caller's: every entry point takes them as a function
//! `arith`, and states its result for whatever that function computes.

use vstd::prelude::*;
use crate::ast::{Binary, Expr, ExprView, Stmt, StmtView, Unary, stmts_view};
use crate::number::{
    equal, greater, greater_equal, is_equal_number, is_less, is_less_equal, less, less_equal,
    negate, negated,
};
use crate::token::{Object, ObjectView, Token, TokenType, TokenView};

verus! {

/// A failure of evaluation: the operator at fault and what was wrong.
#[derive(Debug)]
pub struct RuntimeError {
    pub token: Token,
    pub message: String,
}

/// The mathematical value of a [`RuntimeError`].
pub struct RuntimeErrorView {
    pub token: TokenView,
    pub message: Seq<char>,
}

impl View for RuntimeError {
    type V = RuntimeErrorView;

    open spec fn view(&self) -> RuntimeErrorView {
        RuntimeErrorView { token: self.token@, message: self.message@ }
    }
}

impl RuntimeError {
    /// The failure at `token` with the given message.
    pub fn new(token: Token, message: String) -> (e: RuntimeError)
        ensures
            e.token == token,
            e.message == message,
    {
        RuntimeError { token, message }
    }
}

/// The operations on numbers that round, which the caller performs.
#[derive(Debug, Clone, Copy, PartialEq, Eq, Structural)]
pub enum Arithmetic {
    Subtract,
    Divide,
    Multiply,
    Add,
}

/// A function that does the arithmetic: the operation and the two
/// operands to the result, all numbers by their bit patterns.
pub type ArithmeticFn = spec_fn(Arithmetic, u64, u64) -> u64;

/// A function that gives the decimal text of a number.
pub type DecimalFn = spec_fn(u64) -> Seq<char>;

/// `arith` accepts every request.
pub open spec fn total<F: Fn(Arithmetic, u64, u64) -> u64>(arith: &F) -> bool {
    forall|op: Arithmetic, a: u64, b: u64| #[trigger] arith.requires((op, a, b))
}

/// Whatever `arith` returns is what `f` says.
pub open spec fn computes<F: Fn(Arithmetic, u64, u64) -> u64>(
    arith: &F,
    f: ArithmeticFn,
) -> bool {
    forall|op: Arithmetic, a: u64, b: u64, n: u64| #[trigger]
        arith.ensures((op, a, b), n) ==> n == f(op, a, b)
}

/// `nil` and `false` are falsy; every other value is truthy, zero and the
/// empty string included.
pub open spec fn truthy(value: ObjectView) -> bool {
    match value {
        ObjectView::Bool(b) => b,
        ObjectView::Nil => false,
        _ => true,
    }
}

/// Equality of values: same variant and equal content, numbers by numeric
/// equality. Values of different variants are never equal.
pub open spec fn values_equal(a: ObjectView, b: ObjectView) -> bool {
    match (a, b) {
        (ObjectView::Nil, ObjectView::Nil) => true,
        (ObjectView::Bool(x), ObjectView::Bool(y)) => x == y,
        (ObjectView::Number(x), ObjectView::Number(y)) => equal(x, y),
        (ObjectView::Str(x), ObjectView::Str(y)) => x == y,
        _ => false,
    }
}

/// The failure at `operator` with the given message.
pub open spec fn failure(operator: TokenView, message: Seq<char>) -> Result<
    ObjectView,
    RuntimeErrorView,
> {
    Err(RuntimeErrorView { token: operator, message })
}

/// What a prefix operator makes of its operand.
pub open spec fn unary_result(operator: TokenView, operand: ObjectView) -> Result<
    ObjectView,
    RuntimeErrorView,
> {
    match operator.token_type {
        TokenType::Minus => match operand {
            ObjectView::Number(n) => Ok(ObjectView::Number(negated(n))),
            _ => failure(operator, "Operand must be a number."@),
        },
        TokenType::Bang => Ok(ObjectView::Bool(!truthy(operand))),
        _ => Ok(ObjectView::Nil),
    }
}

/// The operation that an infix operator asks of the caller, with its two
/// operands: `-`, `/`, `*` and `+` between two numbers. Every other
/// combination is decided without arithmetic.
pub open spec fn arithmetic_request(operator: TokenView, left: ObjectView, right: ObjectView)
    -> Option<(Arithmetic, u64, u64)> {
    match (left, right) {
        (ObjectView::Number(a), ObjectView::Number(b)) => match operator.token_type {
            TokenType::Minus => Some((Arithmetic::Subtract, a, b)),
            TokenType::Slash => Some((Arithmetic::Divide, a, b)),
            TokenType::Star => Some((Arithmetic::Multiply, a, b)),
            TokenType::Plus => Some((Arithmetic::Add, a, b)),
            _ => None,
        },
        _ => None,
    }
}

/// What an infix operator makes of its operands where no arithmetic is
/// asked for.
pub open spec fn plain_binary_result(operator: TokenView, left: ObjectView, right: ObjectView)
    -> Result<ObjectView, RuntimeErrorView> {
    match operator.token_type {
        TokenType::Minus | TokenType::Slash | TokenType::Star => failure(
            operator,
            "Operands must be numbers."@,
        ),
        TokenType::Plus => match (left, right) {
            (ObjectView::Str(a), ObjectView::Str(b)) => Ok(ObjectView::Str(a + b)),
            _ => failure(operator, "Operands must be two numbers or two strings."@),
        },
        TokenType::Greater | TokenType::GreaterEqual | TokenType::Less | TokenType::LessEqual =>
            match (left, right) {
            (ObjectView::Number(a), ObjectView::Number(b)) => Ok(
                ObjectView::Bool(
                    match operator.token_type {
                        TokenType::Greater => greater(a, b),
                        TokenType::GreaterEqual => greater_equal(a, b),
                        TokenType::Less => less(a, b),
                        _ => less_equal(a, b),
                    },
                ),
            ),
            _ => failure(operator, "Operands must be numbers."@),
        },
        TokenType::BangEqual => Ok(ObjectView::Bool(!values_equal(left, right))),
        TokenType::EqualEqual => Ok(ObjectView::Bool(values_equal(left, right))),
        _ => Ok(ObjectView::Nil),
    }
}

/// What an infix operator makes of its operands, with `f` for the
/// arithmetic.
pub open spec fn binary_result(
    operator: TokenView,
    left: ObjectView,
    right: ObjectView,
    f: ArithmeticFn,
) -> Result<ObjectView, RuntimeErrorView> {
    match arithmetic_request(operator, left, right) {
        Some((op, a, b)) => Ok(ObjectView::Number(f(op, a, b))),
        None => plain_binary_result(operator, left, right),
    }
}

/// The value of an expression, with `f` for the arithmetic: a literal is
/// its value, a grouping is what it encloses, an operator applies to the
/// values of its operands, left before right, and the first failure is the
/// failure of the whole.
pub open spec fn eval(expr: ExprView, f: ArithmeticFn) -> Result<
    ObjectView,
    RuntimeErrorView,
>
    decreases expr,
{
    match expr {
        ExprView::Literal { value } => Ok(value),
        ExprView::Grouping { expression } => eval(*expression, f),
        ExprView::Unary { operator, right } => match eval(*right, f) {
            Ok(operand) => unary_result(operator, operand),
            Err(e) => Err(e),
        },
        ExprView::Binary { left, operator, right } => match eval(*left, f) {
            Ok(l) => match eval(*right, f) {
                Ok(r) => binary_result(operator, l, r, f),
                Err(e) => Err(e),
            },
            Err(e) => Err(e),
        },
    }
}

/// The variant of a value.
#[derive(Debug, Clone, Copy, PartialEq, Eq, Structural)]
pub enum Kind {
    Str,
    Number,
    Bool,
    Nil,
}

/// The variant of a value.
pub open spec fn kind_of(value: ObjectView) -> Kind {
    match value {
        ObjectView::Str(_) => Kind::Str,
        ObjectView::Number(_) => Kind::Number,
        ObjectView::Bool(_) => Kind::Bool,
        ObjectView::Nil => Kind::Nil,
    }
}

/// What is settled of an evaluation before any arithmetic is done: the
/// failure, or the variant of the value.
pub open spec fn shape(out: Result<ObjectView, RuntimeErrorView>) -> Result<
    Kind,
    RuntimeErrorView,
> {
    match out {
        Ok(value) => Ok(kind_of(value)),
        Err(e) => Err(e),
    }
}

/// What a prefix operator gives depends, up to the value, on the variant
/// of its operand alone.
pub proof fn unary_shape_by_kind(operator: TokenView, a: ObjectView, b: ObjectView)
    requires
        kind_of(a) == kind_of(b),
    ensures
        shape(unary_result(operator, a)) == shape(unary_result(operator, b)),
{
}

/// What an infix operator gives depends, up to the value, on the variants
/// of its operands alone, and not on the arithmetic.
pub proof fn binary_shape_by_kind(
    operator: TokenView,
    l1: ObjectView,
    r1: ObjectView,
    f1: ArithmeticFn,
    l2: ObjectView,
    r2: ObjectView,
    f2: ArithmeticFn,
)
    requires
        kind_of(l1) == kind_of(l2),
        kind_of(r1) == kind_of(r2),
    ensures
        shape(binary_result(operator, l1, r1, f1)) == shape(binary_result(operator, l2, r2, f2)),
{
}

/// Whether an expression fails, with which failure, and the variant of
/// its value do not depend on the arithmetic.
pub proof fn shape_is_settled(
    expr: ExprView,
    f1: ArithmeticFn,
    f2: ArithmeticFn,
)
    ensures
        shape(eval(expr, f1)) == shape(eval(expr, f2)),
    decreases expr,
{
    match expr {
        ExprView::Literal { value } => {},
        ExprView::Grouping { expression } => {
            shape_is_settled(*expression, f1, f2);
        },
        ExprView::Unary { operator, right } => {
            shape_is_settled(*right, f1, f2);
            if let Ok(a) = eval(*right, f1) {
                unary_shape_by_kind(operator, a, eval(*right, f2)->Ok_0);
            }
        },
        ExprView::Binary { left, operator, right } => {
            shape_is_settled(*left, f1, f2);
            shape_is_settled(*right, f1, f2);
            if let Ok(l1) = eval(*left, f1) {
                if let Ok(r1) = eval(*right, f1) {
                    binary_shape_by_kind(
                        operator,
                        l1,
                        r1,
                        f1,
                        eval(*left, f2)->Ok_0,
                        eval(*right, f2)->Ok_0,
                        f2,
                    );
                }
            }
        },
    }
}

/// Parentheses change nothing: an expression in one or in two pairs of
/// them evaluates as the expression itself does.
pub proof fn grouping_is_transparent(expr: ExprView, f: ArithmeticFn)
    ensures
        eval(ExprView::Grouping { expression: Box::new(expr) }, f) == eval(expr, f),
        eval(
            ExprView::Grouping {
                expression: Box::new(ExprView::Grouping { expression: Box::new(expr) }),
            },
            f,
        ) == eval(expr, f),
{
    reveal_with_fuel(eval, 3);
}

/// Values of different variants are never equal, and equality never
/// fails: `==` and `!=` give a boolean for every pair of values.
pub proof fn equality_has_no_coercion(
    operator: TokenView,
    a: ObjectView,
    b: ObjectView,
    f: ArithmeticFn,
)
    ensures
        kind_of(a) != kind_of(b) ==> !values_equal(a, b),
        values_equal(a, b) == values_equal(b, a),
        operator.token_type == TokenType::EqualEqual ==> binary_result(operator, a, b, f) == Ok::<
            ObjectView,
            RuntimeErrorView,
        >(ObjectView::Bool(values_equal(a, b))),
        operator.token_type == TokenType::BangEqual ==> binary_result(operator, a, b, f) == Ok::<
            ObjectView,
            RuntimeErrorView,
        >(ObjectView::Bool(!values_equal(a, b))),
{
}

/// `+` adds two numbers and joins two strings; every other pair of
/// operands fails.
pub proof fn plus_adds_or_joins(
    operator: TokenView,
    a: ObjectView,
    b: ObjectView,
    f: ArithmeticFn,
)
    requires
        operator.token_type == TokenType::Plus,
    ensures
        binary_result(operator, a, b, f) == (match (a, b) {
            (ObjectView::Number(x), ObjectView::Number(y)) => Ok(
                ObjectView::Number(f(Arithmetic::Add, x, y)),
            ),
            (ObjectView::Str(x), ObjectView::Str(y)) => Ok(ObjectView::Str(x + y)),
            _ => failure(operator, "Operands must be two numbers or two strings."@),
        }),
{
}

/// `!` gives `true` for `nil` and `false`, and `false` for every other
/// value.
pub proof fn bang_negates_truthiness(operator: TokenView, a: ObjectView)
    requires
        operator.token_type == TokenType::Bang,
    ensures
        unary_result(operator, a) == Ok::<ObjectView, RuntimeErrorView>(
            ObjectView::Bool(a == ObjectView::Nil || a == ObjectView::Bool(false)),
        ),
{
}

/// The view of the outcome of an evaluation.
pub open spec fn outcome_view(out: Result<Object, RuntimeError>) -> Result<
    ObjectView,
    RuntimeErrorView,
> {
    match out {
        Ok(value) => Ok(value@),
        Err(e) => Err(e@),
    }
}

/// Tells whether the value counts as true.
pub fn is_truthy(object: Object) -> (r: bool)
    ensures
        r == truthy(object@),
{
    match object {
        Object::Bool(value) => value,
        Object::Nil => false,
        _ => true,
    }
}

/// Tells whether two values are equal.
pub fn is_equal(a: Object, b: Object) -> (r: bool)
    ensures
        r == values_equal(a@, b@),
{
    match a {
        Object::Nil => match b {
            Object::Nil => true,
            _ => false,
        },
        Object::Bool(x) => match b {
            Object::Bool(y) => x == y,
            _ => false,
        },
        Object::Number(x) => match b {
            Object::Number(y) => is_equal_number(x, y),
            _ => false,
        },
        Object::Str(x) => match b {
            Object::Str(y) => x == y,
            _ => false,
        },
    }
}

/// The failure of `+` on operands that are neither two numbers nor two
/// strings.
pub fn addition_operands_error(token: Token) -> (e: RuntimeError)
    ensures
        Err::<ObjectView, RuntimeErrorView>(e@) == failure(
            token@,
            "Operands must be two numbers or two strings."@,
        ),
{
    RuntimeError::new(token, "Operands must be two numbers or two strings.".to_owned())
}

/// The failure of an infix operator that asks for two numbers.
pub fn number_operands_error(token: Token) -> (e: RuntimeError)
    ensures
        Err::<ObjectView, RuntimeErrorView>(e@) == failure(token@, "Operands must be numbers."@),
{
    RuntimeError::new(token, "Operands must be numbers.".to_owned())
}

/// The failure of a prefix operator that asks for a number.
pub fn number_operand_error(token: Token) -> (e: RuntimeError)
    ensures
        Err::<ObjectView, RuntimeErrorView>(e@) == failure(token@, "Operand must be a number."@),
{
    RuntimeError::new(token, "Operand must be a number.".to_owned())
}

/// Applies a prefix operator to the value of its operand.
pub fn apply_unary(operator: Token, operand: Object) -> (out: Result<Object, RuntimeError>)
    ensures
        outcome_view(out) == unary_result(operator@, operand@),
{
    match operator.token_type {
        TokenType::Minus => match operand {
            Object::Number(value) => Ok(Object::Number(negate(value))),
            _ => Err(number_operand_error(operator)),
        },
        TokenType::Bang => Ok(Object::Bool(!is_truthy(operand))),
        _ => Ok(Object::Nil),
    }
}

/// Tells which operation, if any, an infix operator asks of the caller.
pub fn request_of(operator: &Token, left: &Object, right: &Object) -> (request: Option<
    (Arithmetic, u64, u64),
>)
    ensures
        request == arithmetic_request(operator@, left@, right@),
{
    match (left, right) {
        (Object::Number(a), Object::Number(b)) => match operator.token_type {
            TokenType::Minus => Some((Arithmetic::Subtract, *a, *b)),
            TokenType::Slash => Some((Arithmetic::Divide, *a, *b)),
            TokenType::Star => Some((Arithmetic::Multiply, *a, *b)),
            TokenType::Plus => Some((Arithmetic::Add, *a, *b)),
            _ => None,
        },
        _ => None,
    }
}

/// Applies an infix operator that asks for no arithmetic.
pub fn apply_plain_binary(operator: Token, left: Object, right: Object) -> (out: Result<
    Object,
    RuntimeError,
>)
    ensures
        outcome_view(out) == plain_binary_result(operator@, left@, right@),
{
    match operator.token_type {
        TokenType::Minus | TokenType::Slash | TokenType::Star => Err(
            number_operands_error(operator),
        ),
        TokenType::Plus => match (left, right) {
            (Object::Str(a), Object::Str(b)) => Ok(Object::Str(a.concat(b.as_str()))),
            _ => Err(addition_operands_error(operator)),
        },
        TokenType::Greater => match (left, right) {
            (Object::Number(a), Object::Number(b)) => Ok(Object::Bool(is_less(b, a))),
            _ => Err(number_operands_error(operator)),
        },
        TokenType::GreaterEqual => match (left, right) {
            (Object::Number(a), Object::Number(b)) => Ok(Object::Bool(is_less_equal(b, a))),
            _ => Err(number_operands_error(operator)),
        },
        TokenType::Less => match (left, right) {
            (Object::Number(a), Object::Number(b)) => Ok(Object::Bool(is_less(a, b))),
            _ => Err(number_operands_error(operator)),
        },
        TokenType::LessEqual => match (left, right) {
            (Object::Number(a), Object::Number(b)) => Ok(Object::Bool(is_less_equal(a, b))),
            _ => Err(number_operands_error(operator)),
        },
        TokenType::BangEqual => Ok(Object::Bool(!is_equal(left, right))),
        TokenType::EqualEqual => Ok(Object::Bool(is_equal(left, right))),
        _ => Ok(Object::Nil),
    }
}

/// Applies an infix operator to the values of its operands.
pub fn apply_binary<F>(operator: Token, left: Object, right: Object, arith: &F) -> (out: Result<
    Object,
    RuntimeError,
>) where F: Fn(Arithmetic, u64, u64) -> u64
    requires
        total(arith),
    ensures
        forall|f: ArithmeticFn| #[trigger]
            computes(arith, f) ==> outcome_view(out) == binary_result(
                operator@,
                left@,
                right@,
                f,
            ),
        arithmetic_request(operator@, left@, right@) is None ==> outcome_view(out)
            == plain_binary_result(operator@, left@, right@),
        arithmetic_request(operator@, left@, right@) matches Some((op, a, b)) ==> (out matches Ok(
            Object::Number(n),
        ) && arith.ensures((op, a, b), n)),
        forall|f: ArithmeticFn|
            shape(outcome_view(out)) == shape(
                #[trigger] binary_result(operator@, left@, right@, f),
            ),
{
    match request_of(&operator, &left, &right) {
        Some((op, a, b)) => Ok(Object::Number(arith(op, a, b))),
        None => apply_plain_binary(operator, left, right),
    }
}

/// Evaluates an expression.
///
/// Whether it fails, with which failure, and the variant of the value are
/// stated for every `arith`; the value itself for an `arith` that
/// computes a function.
pub fn evaluate<F>(expr: Expr, arith: &F) -> (out: Result<Object, RuntimeError>) where
    F: Fn(Arithmetic, u64, u64) -> u64,

    requires
        total(arith),
    ensures
        forall|f: ArithmeticFn| #[trigger]
            computes(arith, f) ==> outcome_view(out) == eval(expr@, f),
        forall|f: ArithmeticFn|
            shape(outcome_view(out)) == shape(#[trigger] eval(expr@, f)),
    decreases expr,
{
    match expr {
        Expr::Binary(e) => {
            let Binary { left, operator, right } = e;
            let ghost l = (*left)@;
            let ghost r = (*right)@;
            assert(expr@ == ExprView::Binary {
                left: Box::new(l),
                operator: operator@,
                right: Box::new(r),
            });
            let left_value = match evaluate(*left, arith) {
                Ok(value) => value,
                Err(error) => {
                    assert forall|f: ArithmeticFn|
                        shape(Err(error@)) == shape(#[trigger] eval(expr@, f)) by {
                        assert(shape(eval(l, f)) == shape(Err(error@)));
                    }
                    return Err(error);
                },
            };
            let right_value = match evaluate(*right, arith) {
                Ok(value) => value,
                Err(error) => {
                    assert forall|f: ArithmeticFn|
                        shape(Err(error@)) == shape(#[trigger] eval(expr@, f)) by {
                        assert(shape(eval(l, f)) == shape(Ok(left_value@)));
                        assert(shape(eval(r, f)) == shape(Err(error@)));
                    }
                    return Err(error);
                },
            };
            let out = apply_binary(operator, left_value, right_value, arith);
            proof {
                assert forall|f: ArithmeticFn|
                    shape(outcome_view(out)) == shape(#[trigger] eval(expr@, f)) by {
                    assert(shape(eval(l, f)) == shape(Ok(left_value@)));
                    assert(shape(eval(r, f)) == shape(Ok(right_value@)));
                    binary_shape_by_kind(
                        operator@,
                        left_value@,
                        right_value@,
                        f,
                        eval(l, f)->Ok_0,
                        eval(r, f)->Ok_0,
                        f,
                    );
                }
            }
            out
        },
        Expr::Grouping(e) => {
            let ghost inner = (*e.expression)@;
            let out = evaluate(*e.expression, arith);
            proof {
                assert forall|f: ArithmeticFn|
                    shape(outcome_view(out)) == shape(#[trigger] eval(expr@, f)) by {
                    assert(shape(eval(inner, f)) == shape(outcome_view(out)));
                }
            }
            out
        },
        Expr::Literal(e) => Ok(e.value),
        Expr::Unary(e) => {
            let Unary { operator, right } = e;
            let ghost r = (*right)@;
            let operand = match evaluate(*right, arith) {
                Ok(value) => value,
                Err(error) => {
                    assert forall|f: ArithmeticFn|
                        shape(Err(error@)) == shape(#[trigger] eval(expr@, f)) by {
                        assert(shape(eval(r, f)) == shape(Err(error@)));
                    }
                    return Err(error);
                },
            };
            let out = apply_unary(operator, operand);
            proof {
                assert forall|f: ArithmeticFn|
                    shape(outcome_view(out)) == shape(#[trigger] eval(expr@, f)) by {
                    assert(shape(eval(r, f)) == shape(Ok(operand@)));
                    unary_shape_by_kind(operator@, operand@, eval(r, f)->Ok_0);
                }
            }
            out
        },
    }
}

/// `decimal` accepts every number.
pub open spec fn total_text<D: Fn(u64) -> String>(decimal: &D) -> bool {
    forall|n: u64| #[trigger] decimal.requires((n,))
}

/// Whatever text `decimal` returns is what `g` says.
pub open spec fn renders<D: Fn(u64) -> String>(decimal: &D, g: DecimalFn) -> bool {
    forall|n: u64, text: String| #[trigger] decimal.ensures((n,), text) ==> text@ == g(n)
}

/// The text without a final `.0`.
pub open spec fn without_zero_fraction(text: Seq<char>) -> Seq<char> {
    if text.len() >= 2 && text[text.len() - 2] == '.' && text[text.len() - 1] == '0' {
        text.subrange(0, text.len() - 2)
    } else {
        text
    }
}

/// How a value is displayed, with `g` for the decimal text of a number: a
/// string as it is, a number without a final `.0`, a boolean and `nil` by
/// their names.
pub open spec fn display(value: ObjectView, g: DecimalFn) -> Seq<char> {
    match value {
        ObjectView::Str(text) => text,
        ObjectView::Number(n) => without_zero_fraction(g(n)),
        ObjectView::Bool(b) => if b {
            "true"@
        } else {
            "false"@
        },
        ObjectView::Nil => "nil"@,
    }
}

/// Drops a final `.0` from the decimal text of a number.
pub fn strip_zero_fraction(text: String) -> (stripped: String)
    ensures
        stripped@ == without_zero_fraction(text@),
{
    let n = text.as_str().unicode_len();
    if n >= 2 && text.as_str().get_char(n - 2) == '.' && text.as_str().get_char(n - 1) == '0' {
        text.as_str().substring_char(0, n - 2).to_owned()
    } else {
        text
    }
}

/// Converts a value to the text that `print` shows.
pub fn stringify<D>(object: Object, decimal: &D) -> (text: String) where D: Fn(u64) -> String
    requires
        total_text(decimal),
    ensures
        forall|g: DecimalFn| #[trigger]
            renders(decimal, g) ==> text@ == display(object@, g),
        !(object@ is Number) ==> forall|g: DecimalFn|
            text@ == #[trigger] display(object@, g),
{
    match object {
        Object::Str(value) => value,
        Object::Number(value) => strip_zero_fraction(decimal(value)),
        Object::Bool(value) => if value {
            "true".to_owned()
        } else {
            "false".to_owned()
        },
        Object::Nil => "nil".to_owned(),
    }
}

/// What running a program gave: the lines printed, in order, and the
/// failure that stopped it, if one did.
#[derive(Debug)]
pub struct Outcome {
    pub output: Vec<String>,
    pub failure: Option<RuntimeError>,
}

/// The mathematical value of an [`Outcome`].
pub struct OutcomeView {
    pub output: Seq<Seq<char>>,
    pub failure: Option<RuntimeErrorView>,
}

impl View for Outcome {
    type V = OutcomeView;

    open spec fn view(&self) -> OutcomeView {
        OutcomeView {
            output: self.output@.map_values(|line: String| line@),
            failure: match self.failure {
                Some(e) => Some(e@),
                None => None,
            },
        }
    }
}

/// What running the statements from the `i`-th on gives: each is
/// evaluated in turn, a print statement adds the display of its value to
/// the output, and the first failure ends the run.
pub open spec fn execute_from(
    statements: Seq<StmtView>,
    i: nat,
    f: ArithmeticFn,
    g: DecimalFn,
) -> OutcomeView
    decreases statements.len() - i,
{
    if i >= statements.len() {
        OutcomeView { output: Seq::empty(), failure: None }
    } else {
        match statements[i as int] {
            StmtView::Expression { expression } => match eval(expression, f) {
                Ok(_) => execute_from(statements, i + 1, f, g),
                Err(e) => OutcomeView { output: Seq::empty(), failure: Some(e) },
            },
            StmtView::Print { expression } => match eval(expression, f) {
                Ok(value) => {
                    let rest = execute_from(statements, i + 1, f, g);
                    OutcomeView {
                        output: seq![display(value, g)] + rest.output,
                        failure: rest.failure,
                    }
                },
                Err(e) => OutcomeView { output: Seq::empty(), failure: Some(e) },
            },
        }
    }
}

/// What running a program gives.
pub open spec fn execute(
    statements: Seq<StmtView>,
    f: ArithmeticFn,
    g: DecimalFn,
) -> OutcomeView {
    execute_from(statements, 0, f, g)
}

/// Runs the statements in order and collects what they print. The run
/// stops at the first failure, which is returned with the output so far.
pub fn interpret<F, D>(statements: Vec<Stmt>, arith: &F, decimal: &D) -> (run: Outcome) where
    F: Fn(Arithmetic, u64, u64) -> u64,
    D: Fn(u64) -> String,

    requires
        total(arith),
        total_text(decimal),
    ensures
        forall|f: ArithmeticFn, g: DecimalFn|
            #![trigger computes(arith, f), renders(decimal, g)]
            computes(arith, f) && renders(decimal, g) ==> run@ == execute(
                stmts_view(statements@),
                f,
                g,
            ),
        forall|f: ArithmeticFn, g: DecimalFn|
            #![trigger execute(stmts_view(statements@), f, g)]
            run@.failure == execute(stmts_view(statements@), f, g).failure && run@.output.len()
                == execute(stmts_view(statements@), f, g).output.len(),
{
    let ghost all = stmts_view(statements@);
    let mut output: Vec<String> = Vec::new();
    for statement in it: statements
        invariant
            total(arith),
            total_text(decimal),
            all == stmts_view(it.seq()),
            forall|f: ArithmeticFn, g: DecimalFn|
                #![trigger computes(arith, f), renders(decimal, g)]
                computes(arith, f) && renders(decimal, g) ==> execute(all, f, g) == (OutcomeView {
                    output: output@.map_values(|line: String| line@) + execute_from(
                        all,
                        it.index() as nat,
                        f,
                        g,
                    ).output,
                    failure: execute_from(all, it.index() as nat, f, g).failure,
                }),
            forall|f: ArithmeticFn, g: DecimalFn|
                #![trigger execute(all, f, g)]
                execute(all, f, g).failure == execute_from(all, it.index() as nat, f, g).failure
                    && execute(all, f, g).output.len() == output@.len() + execute_from(
                    all,
                    it.index() as nat,
                    f,
                    g,
                ).output.len(),
    {
        let ghost before = output@.map_values(|line: String| line@);
        let ghost here = it.index() as nat;
        let ghost expression = match statement@ {
            StmtView::Expression { expression } => expression,
            StmtView::Print { expression } => expression,
        };
        assert(all[here as int] == statement@);
        match statement {
            Stmt::Expression(s) => match evaluate(s.expression, arith) {
                Ok(value) => {
                    assert forall|f: ArithmeticFn, g: DecimalFn|
                        #![trigger execute_from(all, here + 1, f, g)]
                        execute_from(all, here, f, g) == execute_from(all, here + 1, f, g) by {
                        assert(shape(eval(expression, f)) == shape(Ok(value@)));
                    }
                },
                Err(e) => {
                    assert forall|f: ArithmeticFn, g: DecimalFn|
                        #![trigger execute_from(all, here, f, g)]
                        execute_from(all, here, f, g) == (OutcomeView {
                            output: Seq::empty(),
                            failure: Some(e@),
                        }) by {
                        assert(shape(eval(expression, f)) == shape(Err(e@)));
                    }
                    return Outcome { output, failure: Some(e) };
                },
            },
            Stmt::Print(s) => match evaluate(s.expression, arith) {
                Ok(value) => {
                    let ghost shown = value@;
                    let line = stringify(value, decimal);
                    output.push(line);
                    assert(output@.map_values(|line: String| line@) =~= before.push(line@));
                    assert forall|f: ArithmeticFn, g: DecimalFn|
                        #![trigger computes(arith, f), renders(decimal, g)]
                        computes(arith, f) && renders(decimal, g) implies before.push(line@)
                        + execute_from(all, (it.index() + 1) as nat, f, g).output =~= before
                        + execute_from(all, it.index() as nat, f, g).output by {}
                    assert forall|f: ArithmeticFn, g: DecimalFn|
                        #![trigger execute_from(all, here + 1, f, g)]
                        execute_from(all, here, f, g).failure == execute_from(
                            all,
                            here + 1,
                            f,
                            g,
                        ).failure && execute_from(all, here, f, g).output.len() == 1
                            + execute_from(all, here + 1, f, g).output.len() by {
                        assert(shape(eval(expression, f)) == shape(Ok(shown)));
                    }
                },
                Err(e) => {
                    assert forall|f: ArithmeticFn, g: DecimalFn|
                        #![trigger execute_from(all, here, f, g)]
                        execute_from(all, here, f, g) == (OutcomeView {
                            output: Seq::empty(),
                            failure: Some(e@),
                        }) by {
                        assert(shape(eval(expression, f)) == shape(Err(e@)));
                    }
                    return Outcome { output, failure: Some(e) };
                },
            },
        }
    }
    Outcome { output, failure: None }
}

} // verus!
