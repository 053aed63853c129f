//! A transpiler from a small imperative language to Python source text.
//!
//! The pipeline has three stages, each a pure function of its input: the
//! lexer ([`token`]) turns text into tokens, the parser ([`parse`], after the
//! rules of [`grammar`]) turns tokens into a syntax tree, and the generator
//! ([`python_generator`], after the rules of [`emission`]) turns the tree
//! into Python text. [`run`] is the three in a row. A second generator
//! ([`c_generator`]) writes the same trees as C-like text.
//!
//! Nothing here reads or writes files, and nothing panics: every stage
//! returns its error as a value.
use vstd::prelude::*;
use vstd::string::StringExecFns;

pub mod c_generator;
pub mod emission;
pub mod grammar;
pub mod parse;
pub mod python_generator;
pub mod text;
pub mod token;

use crate::parse::{Expected, Parser, SyntaxError};
use crate::emission::{names, ResolutionError};
use crate::python_generator::{output_name, PythonGenerator};
use crate::token::{tokens_of, LexError, Lexer};

verus! {

/// Why a source text has no Python text.
#[derive(Debug, Clone, PartialEq, Eq)]
pub enum Failure {
    /// The text holds something that is no token.
    Lex(LexError),
    /// The tokens do not fit the grammar.
    Syntax(SyntaxError),
    /// Names are referred to before anything declares them.
    Resolution(ResolutionError),
}

/// The mathematical value of a [`Failure`].
pub enum Fault {
    Lex(LexError),
    Syntax(SyntaxError),
    Resolution(Seq<Seq<char>>),
}

impl View for Failure {
    type V = Fault;

    open spec fn view(&self) -> Fault {
        match self {
            Failure::Lex(e) => Fault::Lex(*e),
            Failure::Syntax(e) => Fault::Syntax(*e),
            Failure::Resolution(e) => Fault::Resolution(e@),
        }
    }
}

/// The Python program of a source text: its text and the name of the file it
/// is meant for.
#[derive(Debug, Clone, PartialEq, Eq)]
pub struct Output {
    pub filename: String,
    pub text: String,
}

/// The Python text of a source text, or why there is none: the first lexical
/// error, else the first syntax error, else the names that are referred to
/// before they are declared.
pub open spec fn python_of(source: Seq<char>) -> Result<Seq<char>, Fault> {
    match tokens_of(source) {
        Err(e) => Err(Fault::Lex(e)),
        Ok(tokens) => match grammar::root(tokens) {
            Err(e) => Err(Fault::Syntax(e)),
            Ok(tree) => match emission::output(tree) {
                Ok(text) => Ok(text),
                Err(list) => Err(Fault::Resolution(list)),
            },
        },
    }
}

/// A source text without definitions is the call of `main` alone.
pub proof fn lemma_empty_source()
    ensures
        python_of(Seq::empty()) == Ok::<Seq<char>, Fault>("main()"@),
{
    let tokens = Seq::<token::Tok>::empty();
    let nothing = Seq::<parse::Tree>::empty();
    let start = emission::Emission::start();
    assert(emission::each(start, nothing, 0) == start);
}

/// Turns the source text `code_string`, which was read from the file
/// `filename`, into a Python program.
pub fn run(code_string: String, filename: String) -> (result: Result<Output, Failure>)
    ensures
        match result {
            Ok(program) => {
                &&& python_of(code_string@) == Ok::<Seq<char>, Fault>(program.text@)
                &&& program.filename@ == output_name(filename@)
            },
            Err(e) => python_of(code_string@) == Err::<Seq<char>, Fault>(e@),
        },
{
    let lexer = Lexer::new(code_string);
    let tokens = match lexer.lex() {
        Ok(tokens) => tokens,
        Err(e) => {
            return Err(Failure::Lex(e));
        },
    };
    let mut parser = Parser::new(tokens.as_slice());
    let ast = match parser.root() {
        Ok(ast) => ast,
        Err(e) => {
            return Err(Failure::Syntax(e));
        },
    };
    let mut generator = PythonGenerator::new(filename);
    generator.generator(&ast);
    let filename = generator.output_filename();
    match generator.finish() {
        Ok(text) => Ok(Output { filename, text }),
        Err(e) => Err(Failure::Resolution(e)),
    }
}

/// What is said of a lexical error.
pub open spec fn lex_message(e: LexError) -> Seq<char> {
    match e {
        LexError::InvalidCharacter(c) => "Invalid character: "@.push(c),
        LexError::NumberTooLarge => "Number too large"@,
    }
}

/// The name of what the parser was looking for.
pub open spec fn expected_name(expected: Expected) -> Seq<char> {
    match expected {
        Expected::Colon => "Colon"@,
        Expected::Equal => "Equal"@,
        Expected::LParen => "LParen"@,
        Expected::RParen => "RParen"@,
        Expected::LBraces => "LBraces"@,
        Expected::RBraces => "RBraces"@,
        Expected::SemiColon => "SemiColon"@,
        Expected::Identifier => "Identifier"@,
        Expected::DoubleQuotation => "DoubleQuotation"@,
        Expected::Value => "Value"@,
    }
}

/// What is said of a syntax error.
pub open spec fn syntax_message(e: SyntaxError) -> Seq<char> {
    "Syntax error: expected "@ + expected_name(e.expected)
}

/// The names of `list` from index `from` on, each with `, ` before it unless
/// it is the first of the list.
pub open spec fn enumerated(list: Seq<Seq<char>>, from: int) -> Seq<char>
    decreases list.len() - from,
{
    if 0 <= from < list.len() {
        if from == 0 {
            list[from] + enumerated(list, from + 1)
        } else {
            ", "@ + list[from] + enumerated(list, from + 1)
        }
    } else {
        Seq::empty()
    }
}

/// What is said of a failure.
pub open spec fn message_of(failure: Fault) -> Seq<char> {
    match failure {
        Fault::Lex(e) => lex_message(e),
        Fault::Syntax(e) => syntax_message(e),
        Fault::Resolution(list) => "Not defined: "@ + enumerated(list, 0),
    }
}

fn name_of(expected: Expected) -> (name: &'static str)
    ensures
        name@ == expected_name(expected),
{
    match expected {
        Expected::Colon => "Colon",
        Expected::Equal => "Equal",
        Expected::LParen => "LParen",
        Expected::RParen => "RParen",
        Expected::LBraces => "LBraces",
        Expected::RBraces => "RBraces",
        Expected::SemiColon => "SemiColon",
        Expected::Identifier => "Identifier",
        Expected::DoubleQuotation => "DoubleQuotation",
        Expected::Value => "Value",
    }
}

impl Failure {
    /// A sentence that says what went wrong: it names the character that is
    /// no token, or what the parser was looking for, or the undeclared names.
    pub fn message(&self) -> (text: String)
        ensures
            text@ == message_of(self@),
    {
        match self {
            Failure::Lex(LexError::InvalidCharacter(c)) => {
                let mut text = String::from_str("Invalid character: ");
                text.push(*c);
                text
            },
            Failure::Lex(LexError::NumberTooLarge) => String::from_str("Number too large"),
            Failure::Syntax(e) => {
                let mut text = String::from_str("Syntax error: expected ");
                text.append(name_of(e.expected));
                text
            },
            Failure::Resolution(e) => {
                let list = &e.names;
                let mut text = String::from_str("Not defined: ");
                let ghost all = names(list@);
                let mut i: usize = 0;
                while i < list.len()
                    invariant
                        i <= list.len(),
                        all == names(list@),
                        text@ + enumerated(all, i as int) == "Not defined: "@ + enumerated(all, 0),
                    decreases list.len() - i,
                {
                    if i > 0 {
                        text.append(", ");
                    }
                    text.append(list[i].as_str());
                    i += 1;
                }
                text
            },
        }
    }
}

} // verus!
