//! Diagnostics. What scanning, parsing, scope resolution and execution have
//! to report is collected here as finished lines of text, together with the
//! two facts that decide how a run of a script ends: whether the program was
//! rejected before it ran, and whether it failed while running.

use vstd::prelude::*;
use vstd::string::StringExecFns;

use crate::ast::Ast;
use crate::error::{InterpreterError, InterpreterErrorView};
use crate::grammar::{program, Parse};
use crate::interpreter::Interpreter;
use crate::machine::{load, State};
use crate::parser::Parser;
use crate::resolver::{resolve_program, ClassType, FunctionType, Resolution, Resolver};
use crate::text::{decimal, decimal_digits};
use crate::token::Token;
use crate::token_type::TokenType;

verus! {

/// The collector of diagnostics.
pub struct Diagnostics {
    lines: Vec<String>,
    had_error: bool,
    had_runtime_error: bool,
}

/// What a collector holds.
pub ghost struct DiagnosticsView {
    /// The reports made so far, oldest first.
    pub lines: Seq<Seq<char>>,
    pub had_error: bool,
    pub had_runtime_error: bool,
}

impl View for Diagnostics {
    type V = DiagnosticsView;

    closed spec fn view(&self) -> DiagnosticsView {
        DiagnosticsView {
            lines: self.lines@.map_values(|line: String| line@),
            had_error: self.had_error,
            had_runtime_error: self.had_runtime_error,
        }
    }
}

/// The report of an error of the program text at `line`; `place` says
/// where on the line.
pub open spec fn report_line(line: nat, place: Seq<char>, message: Seq<char>) -> Seq<char> {
    "[line "@ + decimal_digits(line) + "] Error"@ + place + ": "@ + message
}

/// Where a token stands, in words.
pub open spec fn place_of(token: Token) -> Seq<char> {
    if token.token_type == TokenType::Eof {
        " at end"@
    } else {
        " at '"@ + token.lexeme@ + "'"@
    }
}

/// The report of a failure of the running program.
pub open spec fn runtime_line(token: Option<Token>, message: Seq<char>) -> Seq<char> {
    match token {
        Some(token) => message + "\n[line "@ + decimal_digits(token.line as nat) + "]"@,
        None => message,
    }
}

/// The collector after one more report of an error of the program text.
pub open spec fn reported(d: DiagnosticsView, line: Seq<char>) -> DiagnosticsView {
    DiagnosticsView { lines: d.lines.push(line), had_error: true, ..d }
}

impl Diagnostics {
    /// A collector that has nothing to report.
    pub fn new() -> (diagnostics: Self)
        ensures
            diagnostics@ == (DiagnosticsView {
                lines: Seq::empty(),
                had_error: false,
                had_runtime_error: false,
            }),
    {
        let diagnostics = Diagnostics {
            lines: Vec::new(),
            had_error: false,
            had_runtime_error: false,
        };
        assert(diagnostics@.lines =~= Seq::empty());
        diagnostics
    }

    /// Hands out the reports made so far, oldest first, and forgets them.
    /// The two flags stay as they are.
    pub fn take_lines(&mut self) -> (lines: Vec<String>)
        ensures
            lines@.map_values(|line: String| line@) == old(self)@.lines,
            final(self)@ == (DiagnosticsView { lines: Seq::empty(), ..old(self)@ }),
    {
        let mut lines = Vec::new();
        std::mem::swap(&mut self.lines, &mut lines);
        assert(self@.lines =~= Seq::empty());
        lines
    }

    /// The status with which a run of a script ends: 65 when the program
    /// was rejected, else 70 when it failed while running, else 0.
    pub fn exit_code(&self) -> (code: u8)
        ensures
            code == if self@.had_error {
                65u8
            } else if self@.had_runtime_error {
                70u8
            } else {
                0u8
            },
    {
        if self.had_error {
            65
        } else if self.had_runtime_error {
            70
        } else {
            0
        }
    }
}

/// Reports an error of the program text at `line`.
pub fn error(diagnostics: &mut Diagnostics, line: usize, message: &str)
    ensures
        final(diagnostics)@ == reported(
            old(diagnostics)@,
            report_line(line as nat, Seq::empty(), message@),
        ),
{
    proof {
        reveal_strlit("");
    }
    report(diagnostics, line, "", message);
    assert(""@ =~= Seq::<char>::empty());
}

/// Reports an error of the program text at `line`; `place` says where on
/// the line.
fn report(diagnostics: &mut Diagnostics, line: usize, place: &str, message: &str)
    ensures
        final(diagnostics)@ == reported(
            old(diagnostics)@,
            report_line(line as nat, place@, message@),
        ),
{
    let mut text = String::from_str("[line ");
    text.append(decimal(line).as_str());
    text.append("] Error");
    text.append(place);
    text.append(": ");
    text.append(message);
    diagnostics.lines.push(text);
    diagnostics.had_error = true;
    assert(diagnostics@.lines =~= old(diagnostics)@.lines.push(
        report_line(line as nat, place@, message@),
    ));
}

/// Reports an error of the program text at `token`.
pub fn parse_error(diagnostics: &mut Diagnostics, token: &Token, message: &str)
    ensures
        final(diagnostics)@ == reported(
            old(diagnostics)@,
            report_line(token.line as nat, place_of(*token), message@),
        ),
{
    if token.token_type == TokenType::Eof {
        report(diagnostics, token.line, " at end", message)
    } else {
        let mut place = String::from_str(" at '");
        place.append(token.lexeme.as_str());
        place.append("'");
        report(diagnostics, token.line, place.as_str(), message)
    }
}

/// Reports what stopped a run. A failure of the program is reported with
/// its line, where it has one, and is remembered; a `return` that left
/// every call is no failure and nothing is reported.
pub fn runtime_error(diagnostics: &mut Diagnostics, err: InterpreterError)
    ensures
        final(diagnostics)@ == match err@ {
            InterpreterErrorView::RuntimeError(error) => DiagnosticsView {
                lines: old(diagnostics)@.lines.push(runtime_line(error.token, error.message)),
                had_runtime_error: true,
                ..old(diagnostics)@
            },
            InterpreterErrorView::Return(_) => old(diagnostics)@,
        },
{
    match err {
        InterpreterError::RuntimeError(error) => {
            let mut text = error.message;
            match &error.token {
                Some(token) => {
                    text.append("\n[line ");
                    text.append(decimal(token.line).as_str());
                    text.append("]");
                },
                None => {},
            }
            diagnostics.lines.push(text);
            diagnostics.had_runtime_error = true;
            assert(diagnostics@.lines =~= old(diagnostics)@.lines.push(
                runtime_line(error.token, error.message@),
            ));
        },
        InterpreterError::Return(_) => {},
    }
}

/// Whether the program text was found wrong.
pub fn had_error(diagnostics: &Diagnostics) -> (had: bool)
    ensures
        had == diagnostics@.had_error,
{
    diagnostics.had_error
}

/// Sets or clears the mark that the program text was found wrong.
pub fn set_had_error(diagnostics: &mut Diagnostics, b: bool)
    ensures
        final(diagnostics)@ == (DiagnosticsView { had_error: b, ..old(diagnostics)@ }),
{
    diagnostics.had_error = b;
}

/// Whether the program failed while running.
pub fn had_runtime_error(diagnostics: &Diagnostics) -> (had: bool)
    ensures
        had == diagnostics@.had_runtime_error,
{
    diagnostics.had_runtime_error
}

/// Sets or clears the mark that the program failed while running.
pub fn set_had_runtime_error(diagnostics: &mut Diagnostics, b: bool)
    ensures
        final(diagnostics)@ == (DiagnosticsView { had_runtime_error: b, ..old(diagnostics)@ }),
{
    diagnostics.had_runtime_error = b;
}


/// What becomes of the tokens of a piece of program text.
pub ghost struct Outcome {
    /// The expressions of the syntax tree afterwards.
    pub exprs: Seq<crate::ast::ExprView>,
    /// The statements of the syntax tree afterwards.
    pub stmts: Seq<crate::ast::StmtView>,
    pub diagnostics: DiagnosticsView,
    /// The state of the interpreter afterwards.
    pub state: State,
    /// Whether the program was loaded into the interpreter.
    pub loaded: bool,
}

/// The way from tokens to a loaded program: parse, resolve scopes, load.
/// `tokens` are the tokens as the parser reads them (see `terminated`).
/// Each stage runs only if nothing so far has been found wrong, neither by
/// it nor before it; a program in which an error was found is not loaded.
/// `ast` is the syntax tree after parsing, which the scope resolution reads.
pub open spec fn prepared(
    tokens: Seq<Token>,
    earlier: &Ast,
    ast: &Ast,
    d: DiagnosticsView,
    s: State,
) -> Outcome {
    if d.had_error {
        Outcome {
            exprs: earlier.expr_views(),
            stmts: earlier.stmt_views(),
            diagnostics: d,
            state: s,
            loaded: false,
        }
    } else {
        let (parsed, statements) = program(
            tokens,
            Parse {
                exprs: earlier.expr_views(),
                stmts: earlier.stmt_views(),
                current: 0,
                diagnostics: d,
            },
            Seq::empty(),
        );
        if parsed.diagnostics.had_error {
            Outcome {
                exprs: parsed.exprs,
                stmts: parsed.stmts,
                diagnostics: parsed.diagnostics,
                state: s,
                loaded: false,
            }
        } else {
            let resolved = resolve_program(
                Resolution {
                    scopes: Seq::empty(),
                    current_function: FunctionType::Outside,
                    current_class: ClassType::Outside,
                    locals: s.locals,
                    diagnostics: parsed.diagnostics,
                },
                ast,
                statements,
            );
            let recorded = State { locals: resolved.locals, ..s };
            Outcome {
                exprs: parsed.exprs,
                stmts: parsed.stmts,
                diagnostics: resolved.diagnostics,
                state: if resolved.diagnostics.had_error {
                    recorded
                } else {
                    load(recorded, statements)
                },
                loaded: !resolved.diagnostics.had_error,
            }
        }
    }
}

/// Takes the tokens of a piece of program text through parsing and scope
/// resolution and, if no error was found, loads the program into the
/// interpreter, which then runs it step by step. The nodes of the program
/// are added to `ast`; the nodes of earlier programs stay, so that what
/// those programs declared can still be called.
pub fn run(
    tokens: Vec<Token>,
    ast: &mut Ast,
    interpreter: &mut Interpreter,
    diagnostics: &mut Diagnostics,
) -> (loaded: bool)
    requires
        old(ast).wf(),
        old(interpreter).wf(),
    ensures
        final(ast).wf(),
        final(ast).extends(old(ast)),
        final(interpreter).wf(),
        loaded ==> !final(diagnostics)@.had_error,
        exists|read: Seq<Token>|
            crate::grammar::terminated(tokens@, read) && (Outcome {
                exprs: final(ast).expr_views(),
                stmts: final(ast).stmt_views(),
                diagnostics: final(diagnostics)@,
                state: final(interpreter)@,
                loaded,
            }) == #[trigger] prepared(
                read,
                old(ast),
                final(ast),
                old(diagnostics)@,
                old(interpreter)@,
            ),
{
    let started = diagnostics.had_error;
    let mut parser = Parser::new(tokens);
    let ghost read = parser@.tokens;
    let loaded = if started {
        proof {
            ast.lemma_extends_itself();
        }
        false
    } else {
        let statements = parser.parse(ast, diagnostics);
        if diagnostics.had_error {
            false
        } else {
            let mut resolver = Resolver::new();
            resolver.resolve(interpreter, diagnostics, ast, &statements);
            if diagnostics.had_error {
                false
            } else {
                interpreter.interpret(statements);
                true
            }
        }
    };
    assert((Outcome {
        exprs: ast.expr_views(),
        stmts: ast.stmt_views(),
        diagnostics: diagnostics@,
        state: interpreter@,
        loaded,
    }) == prepared(read, old(ast), ast, old(diagnostics)@, old(interpreter)@));
    loaded
}

} // verus!
