//! A small JavaScript-like scripting language: a tokenizer, a
//! recursive-descent parser, a pretty-printer and a tree-walking evaluator,
//! each with a specification that the executable code is proved against.
//!
//! The stages:
//! - [`tokenizer`]: from bytes to tokens ([`tokenizer::next_token`]);
//! - [`parser`]: from tokens to a tree ([`parser::parse`]);
//! - [`printer`]: from a tree back to source text ([`printer::render`]);
//! - [`interpreter`]: running a tree ([`interpreter::interpret`]).
//!
//! They share the tree of [`ast`] and the stream and errors of [`types`];
//! [`chars`], [`decimal`] and [`text`] hold what they need of characters,
//! numbers and byte strings.
//!
//! Printing and parsing are inverse to each other on what the parser builds:
//! [`roundtrip::lemma_round_trip`]. The proof rests on [`built`] (what the
//! parser builds is well formed), [`forms`] (how the productions of the
//! grammar fit together), [`lexemes`] and [`pieces`] (what the tokenizer
//! makes of the text that the printer writes) and [`shapes`] (that text,
//! piece by piece).
use vstd::prelude::*;

pub mod ast;
pub mod built;
pub mod chars;
pub mod decimal;
pub mod forms;
pub mod interpreter;
pub mod lexemes;
pub mod parser;
pub mod pieces;
pub mod printer;
pub mod roundtrip;
pub mod shapes;
pub mod text;
pub mod tokenizer;
pub mod types;

use crate::types::{JsishError, JsishErrorView, JsishResult};

verus! {

/// What to do with a program once it is parsed.
#[derive(Clone, Copy, Debug, PartialEq, Eq, Structural)]
pub enum Mode {
    /// Show the tree in debug form.
    Ast,
    /// Write the tree back as source text.
    Print,
    /// Run the program.
    Interpret,
}

/// The settings of one invocation: the mode and the name of the source file.
#[derive(Debug)]
pub struct Config {
    mode: Mode,
    filename: String,
}

/// The mode that the two mode flags select together, if they select one:
/// at most one of them may be set, and neither means running the program.
pub open spec fn selected_mode(ast: bool, print: bool) -> Option<Mode> {
    if ast && print {
        None
    } else if ast {
        Some(Mode::Ast)
    } else if print {
        Some(Mode::Print)
    } else {
        Some(Mode::Interpret)
    }
}

impl Config {
    /// The mode of this invocation.
    pub closed spec fn spec_mode(&self) -> Mode {
        self.mode
    }

    /// The name of the source file.
    pub closed spec fn spec_filename(&self) -> Seq<char> {
        self.filename@
    }

    /// The settings for a source file and the two mode flags. Asking for
    /// both modes at once is an error.
    pub fn new(filename: String, ast: bool, print: bool) -> (res: JsishResult<Config>)
        ensures
            match selected_mode(ast, print) {
                Some(mode) => res is Ok && res->Ok_0.spec_mode() == mode
                    && res->Ok_0.spec_filename() == filename@,
                None => res is Err && res->Err_0@ == JsishErrorView::ConflictingModes,
            },
    {
        let mode = match (ast, print) {
            (true, true) => {
                return Err(JsishError::ConflictingModes);
            },
            (true, false) => Mode::Ast,
            (false, true) => Mode::Print,
            (false, false) => Mode::Interpret,
        };
        Ok(Config { filename, mode })
    }

    /// The mode of this invocation.
    pub fn mode(&self) -> (m: Mode)
        ensures
            m == self.spec_mode(),
    {
        self.mode
    }

    /// The name of the source file.
    pub fn filename(&self) -> (name: &String)
        ensures
            name@ == self.spec_filename(),
    {
        &self.filename
    }
}

} // verus!
