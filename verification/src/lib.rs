//! An expression language: a scanner, a recursive-descent parser and a
//! tree-walking evaluator, with the driver that runs one unit of source
//! through them.
//!
//! Numbers are IEEE 754 doubles. The library holds them by their bit
//! patterns and leaves to its caller what rounds or depends on decimal
//! notation: the four arithmetic operations, the value of a number's text
//! and the text of a number's value.

use vstd::prelude::*;

pub mod ast;
pub mod ast_printer;
pub mod grammar;
pub mod interpreter;
pub mod number;
pub mod parser;
pub mod scanner;
pub mod text;
pub mod token;

use crate::interpreter::{
    computes, execute, interpret, renders, total, total_text, Arithmetic, ArithmeticFn,
    DecimalFn, RuntimeError, RuntimeErrorView,
};
use crate::parser::{parse_from, ParseErrorView, Parser};
use crate::scanner::{
    keyword_entries, reads, scan, total_number, NumberFn, ScanErrorView, Scanner,
};
use crate::text::{decimal, decimal_text};
use crate::token::{Token, TokenType, TokenView};

verus! {

/// The driver's record of what went wrong so far.
#[derive(Debug)]
pub struct Lox {
    pub had_error: bool,
    pub had_runtime_error: bool,
}

/// What one unit of source gave: the lines it printed and the diagnostics
/// it raised, each in order.
#[derive(Debug)]
pub struct Report {
    pub output: Vec<String>,
    pub diagnostics: Vec<String>,
}

/// The mathematical value of a [`Report`].
pub struct ReportView {
    pub output: Seq<Seq<char>>,
    pub diagnostics: Seq<Seq<char>>,
}

/// The views of a sequence of lines, one for one.
pub open spec fn lines_view(lines: Seq<String>) -> Seq<Seq<char>> {
    lines.map_values(|line: String| line@)
}

impl View for Report {
    type V = ReportView;

    open spec fn view(&self) -> ReportView {
        ReportView { output: lines_view(self.output@), diagnostics: lines_view(self.diagnostics@) }
    }
}

/// The diagnostic for an error on a line.
pub open spec fn report_line(line: i32, message: Seq<char>) -> Seq<char> {
    "[line "@ + decimal(line as int) + "] Error: "@ + message
}

/// Where a syntax error stands: at the end, or at a token's text.
pub open spec fn error_place(token: TokenView, message: Seq<char>) -> Seq<char> {
    if token.token_type == TokenType::Eof {
        "at end "@ + message
    } else {
        "at '"@ + token.lexeme + "' "@ + message
    }
}

/// The diagnostic for a syntax error at a token.
pub open spec fn error_line(token: TokenView, message: Seq<char>) -> Seq<char> {
    report_line(token.line, error_place(token, message))
}

/// The diagnostic for a failure of evaluation.
pub open spec fn runtime_error_line(error: RuntimeErrorView) -> Seq<char> {
    error.message + "\n[line "@ + decimal(error.token.line as int) + "]"@
}

/// The diagnostics of the scanner's errors.
pub open spec fn scan_lines(errors: Seq<ScanErrorView>) -> Seq<Seq<char>> {
    errors.map_values(|e: ScanErrorView| report_line(e.line, e.message))
}

/// The diagnostics of the parser's errors.
pub open spec fn parse_lines(errors: Seq<ParseErrorView>) -> Seq<Seq<char>> {
    errors.map_values(|e: ParseErrorView| error_line(e.token, e.message))
}

/// The diagnostic of the failure that ended a run, if one did.
pub open spec fn failure_lines(failure: Option<RuntimeErrorView>) -> Seq<Seq<char>> {
    match failure {
        Some(e) => seq![runtime_error_line(e)],
        None => Seq::empty(),
    }
}

/// What running a unit of source gives, and which kinds of error it met.
pub struct RunView {
    pub report: ReportView,
    pub syntax_error: bool,
    pub runtime_error: bool,
}

/// What running a unit of source gives: it is scanned and parsed; where
/// every statement parsed, the program runs. The diagnostics are those of
/// the scanner, then those of the parser or of the run.
pub open spec fn run_of(
    source: Seq<char>,
    keywords: Map<Seq<char>, TokenType>,
    h: NumberFn,
    f: ArithmeticFn,
    g: DecimalFn,
) -> RunView {
    let scanned = scan(source, keywords, h);
    match parse_from(scanned.tokens, 0) {
        Ok(statements) => {
            let run = execute(statements, f, g);
            RunView {
                report: ReportView {
                    output: run.output,
                    diagnostics: scan_lines(scanned.errors) + failure_lines(run.failure),
                },
                syntax_error: scanned.errors.len() > 0,
                runtime_error: run.failure is Some,
            }
        },
        Err(errors) => RunView {
            report: ReportView {
                output: Seq::empty(),
                diagnostics: scan_lines(scanned.errors) + parse_lines(errors),
            },
            syntax_error: true,
            runtime_error: false,
        },
    }
}

/// The driver went from `before` to `after` and gave `report` as `run`
/// says: the report is that of the run, and the driver has noted each
/// kind of error that the run met.
pub open spec fn ran(before: Lox, after: Lox, report: ReportView, run: RunView) -> bool {
    &&& report == run.report
    &&& after.had_error == (before.had_error || run.syntax_error)
    &&& after.had_runtime_error == (before.had_runtime_error || run.runtime_error)
}

impl Lox {
    /// A driver that has met no error.
    pub fn new() -> (lox: Lox)
        ensures
            !lox.had_error,
            !lox.had_runtime_error,
    {
        Lox { had_error: false, had_runtime_error: false }
    }

    /// Runs one unit of source.
    ///
    /// `keywords` is the table of the language's keywords; `number` gives
    /// the value of a number's text, `arith` does the arithmetic and
    /// `decimal` gives the text of a number's value. The text must be
    /// short enough for its lines to be counted.
    pub fn run<N, F, D>(
        &mut self,
        source: &String,
        keywords: &phf::Map<&'static str, TokenType>,
        number: &N,
        arith: &F,
        decimal: &D,
    ) -> (report: Report) where
        N: Fn(String) -> u64,
        F: Fn(Arithmetic, u64, u64) -> u64,
        D: Fn(u64) -> String,

        requires
            source@.len() < i32::MAX,
            total_number(number),
            total(arith),
            total_text(decimal),
        ensures
            forall|
                h: NumberFn,
                f: ArithmeticFn,
                g: DecimalFn,
            |
                #![trigger reads(number, h), computes(arith, f), renders(decimal, g)]
                reads(number, h) && computes(arith, f) && renders(decimal, g) ==> ran(
                    *old(self),
                    *final(self),
                    report@,
                    run_of(source@, keyword_entries(*keywords), h, f, g),
                ),
    {
        let scanner = Scanner::new(source, keywords);
        let scanned = scanner.scan_tokens(number);
        let mut diagnostics: Vec<String> = Vec::new();
        let scan_errors = scanned.errors;
        let ghost scan_errors_seq = crate::scanner::scan_errors_view(scan_errors@);
        for e in it: scan_errors
            invariant
                scan_errors_seq == crate::scanner::scan_errors_view(it.seq()),
                lines_view(diagnostics@) == scan_lines(scan_errors_seq.take(it.index())),
                self.had_runtime_error == old(self).had_runtime_error,
                self.had_error == (old(self).had_error || it.index() > 0),
        {
            let ghost before = lines_view(diagnostics@);
            let line = self.report(e.line, e.message);
            diagnostics.push(line);
            assert(lines_view(diagnostics@) =~= before.push(line@));
            assert(scan_lines(scan_errors_seq.take(it.index() + 1)) =~= scan_lines(
                scan_errors_seq.take(it.index()),
            ).push(report_line(e@.line, e@.message)));
        }
        assert(scan_errors_seq.take(scan_errors_seq.len() as int) =~= scan_errors_seq);
        let tokens = scanned.tokens;
        let mut parser = Parser::new(&tokens);
        match parser.parse() {
            Ok(statements) => {
                let run = interpret(statements, arith, decimal);
                let ghost before = lines_view(diagnostics@);
                match run.failure {
                    Some(e) => {
                        let line = self.runtime_error(e);
                        diagnostics.push(line);
                        assert(lines_view(diagnostics@) =~= before + failure_lines(Some(e@)));
                    },
                    None => {
                        assert(lines_view(diagnostics@) =~= before + failure_lines(None));
                    },
                }
                let report = Report { output: run.output, diagnostics };
                proof {
                    assert forall|
                        h: NumberFn,
                        f: ArithmeticFn,
                        g: DecimalFn,
                    |
                        #![trigger reads(number, h), computes(arith, f), renders(decimal, g)]
                        reads(number, h) && computes(arith, f) && renders(decimal, g) implies ran(
                        *old(self),
                        *self,
                        report@,
                        run_of(source@, keyword_entries(*keywords), h, f, g),
                    ) by {
                        assert(run@ == execute(crate::ast::stmts_view(statements@), f, g));
                    }
                }
                report
            },
            Err(errors) => {
                let ghost first = lines_view(diagnostics@);
                let ghost errors_seq = crate::parser::errors_view(errors@);
                for e in it: errors
                    invariant
                        errors_seq == crate::parser::errors_view(it.seq()),
                        lines_view(diagnostics@) == first + parse_lines(
                            errors_seq.take(it.index()),
                        ),
                        self.had_runtime_error == old(self).had_runtime_error,
                        it.index() > 0 ==> self.had_error,
                        it.index() == 0 ==> self.had_error == (old(self).had_error
                            || scan_errors_seq.len() > 0),
                {
                    let ghost before = lines_view(diagnostics@);
                    let line = self.error(e.token, e.message);
                    diagnostics.push(line);
                    assert(lines_view(diagnostics@) =~= before.push(line@));
                    assert(parse_lines(errors_seq.take(it.index() + 1)) =~= parse_lines(
                        errors_seq.take(it.index()),
                    ).push(error_line(e@.token, e@.message)));
                }
                assert(errors_seq.take(errors_seq.len() as int) =~= errors_seq);
                let report = Report { output: Vec::new(), diagnostics };
                proof {
                    assert forall|
                        h: NumberFn,
                        f: ArithmeticFn,
                        g: DecimalFn,
                    |
                        #![trigger reads(number, h), computes(arith, f), renders(decimal, g)]
                        reads(number, h) && computes(arith, f) && renders(decimal, g) implies ran(
                        *old(self),
                        *self,
                        report@,
                        run_of(source@, keyword_entries(*keywords), h, f, g),
                    ) by {
                        assert(report@.output =~= Seq::<Seq<char>>::empty());
                    }
                }
                report
            },
        }
    }

    /// Notes a syntax error at a token and words its diagnostic.
    pub fn error(&mut self, token: Token, message: String) -> (line: String)
        ensures
            line@ == error_line(token@, message@),
            final(self).had_error,
            final(self).had_runtime_error == old(self).had_runtime_error,
    {
        if token.token_type == TokenType::Eof {
            let mut place = String::from_str("at end ");
            place.append(message.as_str());
            self.report(token.line, place)
        } else {
            let mut place = String::from_str("at '");
            place.append(token.lexeme.as_str());
            place.append("' ");
            place.append(message.as_str());
            self.report(token.line, place)
        }
    }

    /// Notes a failure of evaluation and words its diagnostic.
    pub fn runtime_error(&mut self, error: RuntimeError) -> (line: String)
        ensures
            line@ == runtime_error_line(error@),
            final(self).had_runtime_error,
            final(self).had_error == old(self).had_error,
    {
        let mut line = error.message;
        line.append("\n[line ");
        line.append(decimal_text(error.token.line).as_str());
        line.append("]");
        self.had_runtime_error = true;
        line
    }

    /// Notes an error on a line and words its diagnostic.
    pub fn report(&mut self, line: i32, message: String) -> (text: String)
        ensures
            text@ == report_line(line, message@),
            final(self).had_error,
            final(self).had_runtime_error == old(self).had_runtime_error,
    {
        let mut text = String::from_str("[line ");
        text.append(decimal_text(line).as_str());
        text.append("] Error: ");
        text.append(message.as_str());
        self.had_error = true;
        text
    }
}

} // verus!
