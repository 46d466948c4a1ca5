//! A small language front end: a lexical scanner, a recursive-descent
//! expression parser, and a tree-walking printer that renders an expression
//! tree in fully parenthesized prefix form.
//!
//! The pipeline is: source text -> `scanner::Scanner` -> token sequence ->
//! `perser::Perser` -> `expr::Expr` -> `printer::AstPrinter` -> rendered text.
//! Each stage carries a contract that relates it to a mathematical model of
//! the same stage, so the tokens, the tree and the rendering are pinned down
//! for every input.

use vstd::prelude::*;

pub mod error;
pub mod expr;
pub mod object;
pub mod perser;
pub mod printer;
pub mod scanner;
pub mod text;
pub mod token_type;
pub mod tokens;

use crate::error::LoxError;
use crate::perser::p_parse;
use crate::perser::Perser;
use crate::printer::render_text;
use crate::printer::AstPrinter;
use crate::scanner::lemma_scan_from_wf;
use crate::scanner::scan_from;
use crate::scanner::Scanner;
use crate::tokens::Token;

verus! {

/// The whole pipeline on one source text: scan, parse, and render the tree
/// in fully parenthesized prefix form.  Returns the first scan or parse
/// error as a structured value; printing it (and deciding where) is the
/// caller's business.
///
/// The length bound is a machine limit: a source of `usize::MAX` characters
/// cannot exist in memory.
pub fn run(source: String) -> (r: Result<String, LoxError>)
    requires
        source@.len() < usize::MAX,
    ensures
        (match scan_from(source@, 0, 1) {
            Ok(toks) => match p_parse(toks) {
                Ok(e) => r matches Ok(s) && s@ == render_text(e),
                Err(se) => r matches Err(er) && er@ == se,
            },
            Err(se) => r matches Err(er) && er@ == se,
        }),
{
    let ghost src = source@;
    let mut scanner = Scanner::new(source);
    let tokens = match scanner.scan_tokens() {
        Ok(v) => v,
        Err(e) => {
            return Err(e);
        },
    };
    proof {
        lemma_scan_from_wf(src, 0, 1);
    }
    let mut parser = Perser::new(tokens);
    let expr = match parser.try_parse() {
        Ok(e) => e,
        Err(e) => {
            return Err(e);
        },
    };
    let printer = AstPrinter;
    match printer.print(&expr) {
        Ok(s) => Ok(s),
        Err(e) => Err(e),
    }
}

} // verus!
