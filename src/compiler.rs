use vstd::prelude::*;
use crate::ast::Statement;
use crate::error::BlazeError;
use crate::ast::stmts_model;
use crate::lexer::{Lexer, errors_match, lex_spec, tokens_match};
use crate::parser::{Parser, program_at, without_newlines};
use crate::scope::Scope;
use crate::token::Token;
use crate::typechecker::{Report, Trace, Typechecker, appended, flatten, fresh_root, is_report, program_checks};

verus! {

/// What compiling tokens `toks` gives, diagnostics going from `before` to `after`: without a
/// program, one parse error and nothing returned; with one, its type errors, checked from an
/// empty outermost scope, and the program itself when there are none.
pub open spec fn compiled(
    toks: Seq<Token>,
    before: Seq<BlazeError>,
    after: Seq<BlazeError>,
    r: Option<Vec<Statement>>,
) -> bool {
    match program_at(toks) {
        None => r is None && after.len() == before.len() + 1 && after.subrange(
            0,
            before.len() as int,
        ) == before && after.last() is ParseError,
        Some(m) => exists|root: Scope, last: Scope, ss: Seq<Statement>, sc: Seq<Scope>, ch: Seq<Seq<Report>>, ts: Seq<Trace>|
            fresh_root(root) && stmts_model(ss) == m && #[trigger] program_checks(root, ss, last, sc, ch, ts) && appended(
                before,
                after,
                flatten(ch),
            ) && (r is Some <==> flatten(ch).len() == 0) && (r is Some ==> r->0@ == ss),
    }
}

/// The list of files to compile and the diagnostics gathered from them.
pub struct Compiler {
    pub files: Vec<String>,
    pub errors: Vec<BlazeError>,
}

impl Compiler {
    /// A compiler with no files and no diagnostics.
    pub fn new() -> (r: Compiler)
        ensures
            r.files@.len() == 0,
            r.errors@.len() == 0,
    {
        Compiler { files: Vec::new(), errors: Vec::new() }
    }

    /// Queues a file for compilation.
    pub fn add_file(&mut self, filename: String)
        ensures
            final(self).files@ == old(self).files@.push(filename),
            final(self).errors == old(self).errors,
    {
        self.files.push(filename);
    }

    /// Runs the front end on the text of one file: lexing, then parsing, then name and type
    /// resolution. The first stage that fails adds its diagnostics and ends the file; when
    /// none fails, the checked program is returned. Other files are not affected.
    pub fn compile_source(&mut self, filename: String, source: String) -> (r: Option<
        Vec<Statement>,
    >)
        ensures
            final(self).files == old(self).files,
            final(self).errors@.subrange(0, old(self).errors@.len() as int) == old(self).errors@,
            old(self).errors@.len() <= final(self).errors@.len(),
            r is Some <==> final(self).errors@.len() == old(self).errors@.len(),
            lex_spec(source@).1.len() > 0 ==> r is None && errors_match(
                final(self).errors@.subrange(
                    old(self).errors@.len() as int,
                    final(self).errors@.len() as int,
                ),
                lex_spec(source@).1,
                filename@,
            ),
            lex_spec(source@).1.len() == 0 ==> exists|toks: Seq<Token>|
                #[trigger] tokens_match(toks, lex_spec(source@).0, filename@) && compiled(
                    without_newlines(toks),
                    old(self).errors@,
                    final(self).errors@,
                    r,
                ),
    {
        let ghost e0 = self.errors@;
        let ghost text = source@;
        let ghost file = filename@;
        let mut lexer = Lexer::new(filename, source);
        let tokens = match lexer.lex() {
            Ok(tokens) => tokens,
            Err(errors) => {
                self.extend_errors(errors);
                return None;
            },
        };
        let ghost lexed = tokens@;
        let mut parser = Parser::new(tokens);
        let ghost toks = parser.tokens@;
        let statements = match parser.parse() {
            Ok(statements) => statements,
            Err(errors) => {
                self.extend_errors(errors);
                proof {
                    assert(self.errors@.subrange(0, e0.len() as int) =~= e0);
                    assert(compiled(toks, e0, self.errors@, None));
                }
                return None;
            },
        };
        let ghost ss = statements@;
        let mut checker = Typechecker::new(statements);
        let ghost root = checker.current_scope;
        let result = checker.typecheck();
        let ghost (sc, ch, ts) = choose|sc: Seq<Scope>, ch: Seq<Seq<Report>>, ts: Seq<Trace>| program_checks(root, ss, checker.current_scope, sc, ch, ts) && appended(seq![], checker.errors@, flatten(ch));
        match result {
            Ok(()) => {
                let mut out: Vec<Statement> = Vec::new();
                std::mem::swap(&mut out, &mut checker.statements);
                proof {
                    assert(self.errors@.subrange(0, e0.len() as int) =~= e0);
                    assert(appended(e0, self.errors@, flatten(ch)));
                    assert(compiled(toks, e0, self.errors@, Some(out)));
                }
                Some(out)
            },
            Err(errors) => {
                self.extend_errors(errors);
                proof {
                    assert(appended(e0, self.errors@, flatten(ch))) by {
                        assert forall|i: int| e0.len() <= i < self.errors@.len() implies is_report(#[trigger] self.errors@[i], flatten(ch)[i - e0.len()]) by {
                            assert(self.errors@[i] == checker.errors@[i - e0.len()]);
                        }
                    }
                    assert(compiled(toks, e0, self.errors@, None));
                }
                None
            },
        }
    }

    /// Appends a non-empty list of diagnostics.
    fn extend_errors(&mut self, errors: Vec<BlazeError>)
        requires
            errors@.len() > 0,
        ensures
            final(self).files == old(self).files,
            final(self).errors@ == old(self).errors@ + errors@,
    {
        let mut errors = errors;
        let ghost added = errors@;
        self.errors.append(&mut errors);
    }
}

} // verus!
