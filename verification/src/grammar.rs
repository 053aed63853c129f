//! The grammar of the source language, as mathematics.
//!
//! Every rule is a function from a token sequence and a position to an
//! [`Outcome`]: the tree that the rule builds together with the number of
//! tokens it consumes, or the first syntax error. The rules look ahead but
//! never back, and stop at the first error.
//!
//! ```text
//! program     := { Enter } { definition { Enter } }
//! definition  := import | class | language | function
//! import      := 'import' name
//! class       := 'class' name '<-' '{' { Enter | function } '}'
//! language    := 'language' ':' name '<-' '{' { Enter } string { Enter } '}'
//! function    := name ':' name '(' params ')' '<-' block
//! params      := [ 'self' [ ',' items ] | items ]
//! items       := reserv { ',' reserv }
//! block       := '{' { Enter | reserv ';' } '}'
//! statement   := { Enter } reserv ';'
//! reserv      := name '.' reserv
//!              | name ':' name [ '<-' reserv ]
//!              | 'return' reserv
//!              | 'if' boolean block [ { Enter } 'elif' boolean block ] { Enter } [ 'else' block ]
//!              | 'while' boolean block
//!              | 'pass'
//!              | binary
//!              | literal
//! boolean     := reserv [ ( '>' | '<' ) boolean ]
//! binary      := call [ ( '*' | '/' | '+' | '-' ) binary ]
//! call        := name [ '(' [ items ] ')' ] | literal
//! literal     := string | number | name
//! ```
//!
//! In `reserv` the alternatives are tried in the order written; the first two
//! are chosen by the token after the name, the next four by the name itself.
//! `binary` is tried only where the first token is a name.
use vstd::prelude::*;

use crate::parse::{Expected, SyntaxError, Tree};
use crate::token::Tok;

verus! {

/// What a rule yields: its value and how many tokens it used, or an error.
pub type Outcome<T> = Result<(T, nat), SyntaxError>;

/// The error that names `expected`.
pub open spec fn fail<T>(expected: Expected) -> Outcome<T> {
    Err(SyntaxError { expected })
}

/// The token at `pos`, if there is one.
pub open spec fn at(tokens: Seq<Tok>, pos: int) -> Option<Tok> {
    if 0 <= pos < tokens.len() {
        Some(tokens[pos])
    } else {
        None
    }
}

/// Whether the token at `pos` is `token`.
pub open spec fn holds(tokens: Seq<Tok>, pos: int, token: Tok) -> bool {
    at(tokens, pos) == Some(token)
}

/// The text of the identifier at `pos`, if an identifier stands there.
pub open spec fn word_at(tokens: Seq<Tok>, pos: int) -> Option<Seq<char>> {
    match at(tokens, pos) {
        Some(Tok::Identifier(word)) => Some(word),
        _ => None,
    }
}

/// Whether the identifier `word` stands at `pos`.
pub open spec fn keyword(tokens: Seq<Tok>, pos: int, word: Seq<char>) -> bool {
    word_at(tokens, pos) == Some(word)
}

/// How many tokens are left at `pos`.
pub open spec fn left(tokens: Seq<Tok>, pos: int) -> nat {
    if pos < tokens.len() {
        (tokens.len() - pos) as nat
    } else {
        0
    }
}

/// The same outcome with `by` more tokens used.
pub open spec fn after<T>(by: nat, outcome: Outcome<T>) -> Outcome<T> {
    match outcome {
        Ok((value, used)) => Ok((value, used + by)),
        Err(e) => Err(e),
    }
}

/// `first` in front of the list of `rest`, with `by` more tokens used.
pub open spec fn cons(first: Tree, by: nat, rest: Outcome<Seq<Tree>>) -> Outcome<Seq<Tree>> {
    match rest {
        Ok((list, used)) => Ok((seq![first] + list, used + by)),
        Err(e) => Err(e),
    }
}

/// A text between double quotes.
pub open spec fn quoted(text: Seq<char>) -> Seq<char> {
    seq!['"'] + text + seq!['"']
}

/// Whether `token` is an arithmetic operator.
pub open spec fn arithmetic(token: Tok) -> bool {
    token == Tok::Asterisk || token == Tok::Slash || token == Tok::Plus || token == Tok::Minus
}

/// Whether `token` is a comparison operator.
pub open spec fn comparison(token: Tok) -> bool {
    token == Tok::Greater || token == Tok::Less
}

/// `literal := string | number | name`
pub open spec fn literal(tokens: Seq<Tok>, pos: int) -> Outcome<Tree> {
    match at(tokens, pos) {
        Some(Tok::DoubleQuotation(text)) => Ok((Tree::Str(quoted(text)), 1nat)),
        Some(Tok::Number(value)) => Ok((Tree::Num(value), 1nat)),
        Some(Tok::Identifier(word)) => Ok((Tree::Str(word), 1nat)),
        _ => fail(Expected::Value),
    }
}

/// `call := name [ '(' [ items ] ')' ] | literal`
///
/// A name alone is a reference without arguments.
pub open spec fn call(tokens: Seq<Tok>, pos: int) -> Outcome<Tree>
    decreases left(tokens, pos), 0nat,
{
    match word_at(tokens, pos) {
        None => literal(tokens, pos),
        Some(name) => {
            if !holds(tokens, pos + 1, Tok::LParen) {
                Ok((Tree::Call { function_name: name, args: Seq::empty() }, 1nat))
            } else if holds(tokens, pos + 2, Tok::RParen) {
                Ok((Tree::Call { function_name: name, args: Seq::empty() }, 3nat))
            } else {
                match items(tokens, pos + 2) {
                    Err(e) => Err(e),
                    Ok((args, n)) => {
                        if holds(tokens, pos + 2 + n, Tok::RParen) {
                            Ok((Tree::Call { function_name: name, args }, n + 3))
                        } else {
                            fail(Expected::RParen)
                        }
                    },
                }
            }
        },
    }
}

/// `binary := call [ ( '*' | '/' | '+' | '-' ) binary ]`
///
/// All four operators bind alike and group to the right.
pub open spec fn binary(tokens: Seq<Tok>, pos: int) -> Outcome<Tree>
    decreases left(tokens, pos), 1nat,
{
    match call(tokens, pos) {
        Err(e) => Err(e),
        Ok((lhs, n)) => match at(tokens, pos + n) {
            None => Ok((lhs, n)),
            Some(op) => {
                if arithmetic(op) {
                    match binary(tokens, pos + n + 1) {
                        Err(e) => Err(e),
                        Ok((rhs, m)) => Ok(
                            (
                                Tree::BinaryOp { op, lhs: Box::new(lhs), rhs: Box::new(rhs) },
                                n + 1 + m,
                            ),
                        ),
                    }
                } else {
                    Ok((lhs, n))
                }
            },
        },
    }
}

/// `name ':' name [ '<-' reserv ]`, where the first name, `v_type`, stands at
/// `pos` and the colon after it.
pub open spec fn declaration(tokens: Seq<Tok>, pos: int, v_type: Seq<char>) -> Outcome<Tree>
    decreases left(tokens, pos), 1nat,
{
    match word_at(tokens, pos + 2) {
        None => fail(Expected::Identifier),
        Some(v_name) => {
            if holds(tokens, pos + 3, Tok::Equal) {
                match reserv(tokens, pos + 4) {
                    Err(e) => Err(e),
                    Ok((value, n)) => Ok(
                        (
                            Tree::Let {
                                v_name,
                                v_type,
                                v_formula: Box::new(value),
                                this_is_define: true,
                            },
                            n + 4,
                        ),
                    ),
                }
            } else {
                Ok(
                    (
                        Tree::Let {
                            v_name,
                            v_type,
                            v_formula: Box::new(Tree::Absent),
                            this_is_define: false,
                        },
                        3nat,
                    ),
                )
            }
        },
    }
}

/// The statement or expression that starts at `pos`, without its `;`.
pub open spec fn reserv(tokens: Seq<Tok>, pos: int) -> Outcome<Tree>
    decreases left(tokens, pos), 2nat,
{
    match word_at(tokens, pos) {
        None => literal(tokens, pos),
        Some(word) => {
            if holds(tokens, pos + 1, Tok::Period) {
                match reserv(tokens, pos + 2) {
                    Err(e) => Err(e),
                    Ok((next, n)) => Ok(
                        (Tree::CallMenber { now_menber_name: word, next: Box::new(next) }, n + 2),
                    ),
                }
            } else if holds(tokens, pos + 1, Tok::Colon) {
                declaration(tokens, pos, word)
            } else if word == "return"@ {
                match reserv(tokens, pos + 1) {
                    Err(e) => Err(e),
                    Ok((value, n)) => Ok((Tree::Return(Box::new(value)), n + 1)),
                }
            } else if word == "if"@ {
                after(1, conditional(tokens, pos + 1))
            } else if word == "while"@ {
                after(1, repetition(tokens, pos + 1))
            } else if word == "pass"@ {
                Ok((Tree::Pass("Pass"@), 1nat))
            } else {
                binary(tokens, pos)
            }
        },
    }
}

/// `boolean := reserv [ ( '>' | '<' ) boolean ]`
///
/// Comparisons group to the right.
pub open spec fn boolean(tokens: Seq<Tok>, pos: int) -> Outcome<Tree>
    decreases left(tokens, pos), 3nat,
{
    match reserv(tokens, pos) {
        Err(e) => Err(e),
        Ok((lhs, n)) => match at(tokens, pos + n) {
            None => Ok((lhs, n)),
            Some(op) => {
                if comparison(op) {
                    match boolean(tokens, pos + n + 1) {
                        Err(e) => Err(e),
                        Ok((rhs, m)) => Ok(
                            (
                                Tree::Compare { lhs: Box::new(lhs), op, rhs: Box::new(rhs) },
                                n + 1 + m,
                            ),
                        ),
                    }
                } else {
                    Ok((lhs, n))
                }
            },
        },
    }
}

/// `items := reserv { ',' reserv }`
pub open spec fn items(tokens: Seq<Tok>, pos: int) -> Outcome<Seq<Tree>>
    decreases left(tokens, pos), 3nat,
{
    match reserv(tokens, pos) {
        Err(e) => Err(e),
        Ok((first, n)) => {
            if holds(tokens, pos + n, Tok::Conma) {
                cons(first, n + 1, items(tokens, pos + n + 1))
            } else {
                Ok((seq![first], n))
            }
        },
    }
}

/// The rest of a block after its `{`: `{ Enter | reserv ';' } '}'`.
///
/// Where the tokens end before the `}`, the error names `RBraces`.
pub open spec fn statements(tokens: Seq<Tok>, pos: int) -> Outcome<Seq<Tree>>
    decreases left(tokens, pos), 3nat,
{
    match at(tokens, pos) {
        None => fail(Expected::RBraces),
        Some(Tok::Enter) => after(1, statements(tokens, pos + 1)),
        Some(Tok::RBraces) => Ok((Seq::empty(), 1nat)),
        Some(_) => match reserv(tokens, pos) {
            Err(e) => Err(e),
            Ok((inner, n)) => {
                if holds(tokens, pos + n, Tok::SemiColon) {
                    cons(
                        Tree::Expr { reserv: Box::new(inner) },
                        n + 1,
                        statements(tokens, pos + n + 1),
                    )
                } else {
                    fail(Expected::SemiColon)
                }
            },
        },
    }
}

/// `block := '{' { Enter | reserv ';' } '}'`
pub open spec fn block(tokens: Seq<Tok>, pos: int) -> Outcome<Tree>
    decreases left(tokens, pos), 4nat,
{
    if holds(tokens, pos, Tok::LBraces) {
        match statements(tokens, pos + 1) {
            Err(e) => Err(e),
            Ok((list, n)) => Ok((Tree::Block(list), n + 1)),
        }
    } else {
        fail(Expected::LBraces)
    }
}

/// `statement := { Enter } reserv ';'`
pub open spec fn statement(tokens: Seq<Tok>, pos: int) -> Outcome<Tree>
    decreases left(tokens, pos), 3nat,
{
    if holds(tokens, pos, Tok::Enter) {
        after(1, statement(tokens, pos + 1))
    } else {
        match reserv(tokens, pos) {
            Err(e) => Err(e),
            Ok((inner, n)) => {
                if holds(tokens, pos + n, Tok::SemiColon) {
                    Ok((Tree::Expr { reserv: Box::new(inner) }, n + 1))
                } else {
                    fail(Expected::SemiColon)
                }
            },
        }
    }
}

/// `{ Enter } 'elif' boolean block`, or nothing: where no `elif` follows the
/// line breaks, none of them is used.
pub open spec fn alternative(tokens: Seq<Tok>, pos: int) -> Outcome<Option<Tree>>
    decreases left(tokens, pos), 5nat,
{
    if holds(tokens, pos, Tok::Enter) {
        match alternative(tokens, pos + 1) {
            Err(e) => Err(e),
            Ok((Some(branch), n)) => Ok((Some(branch), n + 1)),
            Ok((None, _)) => Ok((None, 0nat)),
        }
    } else if keyword(tokens, pos, "elif"@) {
        match boolean(tokens, pos + 1) {
            Err(e) => Err(e),
            Ok((cond, n)) => match block(tokens, pos + 1 + n) {
                Err(e) => Err(e),
                Ok((then, m)) => Ok(
                    (
                        Some(
                            Tree::Elif {
                                cond: Box::new(cond),
                                then: Box::new(then),
                                else_then: None,
                            },
                        ),
                        1 + n + m,
                    ),
                ),
            },
        }
    } else {
        Ok((None, 0nat))
    }
}

/// `{ Enter } [ 'else' block ]`: the line breaks are used whether or not an
/// `else` follows them.
pub open spec fn otherwise(tokens: Seq<Tok>, pos: int) -> Outcome<Option<Tree>>
    decreases left(tokens, pos), 5nat,
{
    if holds(tokens, pos, Tok::Enter) {
        after(1, otherwise(tokens, pos + 1))
    } else if keyword(tokens, pos, "else"@) {
        match block(tokens, pos + 1) {
            Err(e) => Err(e),
            Ok((branch, n)) => Ok((Some(branch), n + 1)),
        }
    } else {
        Ok((None, 0nat))
    }
}

/// What follows the word `if`:
/// `boolean block [ { Enter } 'elif' boolean block ] { Enter } [ 'else' block ]`.
pub open spec fn conditional(tokens: Seq<Tok>, pos: int) -> Outcome<Tree>
    decreases left(tokens, pos), 6nat,
{
    match boolean(tokens, pos) {
        Err(e) => Err(e),
        Ok((cond, n1)) => match block(tokens, pos + n1) {
            Err(e) => Err(e),
            Ok((then, n2)) => match alternative(tokens, pos + n1 + n2) {
                Err(e) => Err(e),
                Ok((elif, n3)) => match otherwise(tokens, pos + n1 + n2 + n3) {
                    Err(e) => Err(e),
                    Ok((other, n4)) => Ok(
                        (
                            Tree::If {
                                cond: Box::new(cond),
                                then: Box::new(then),
                                elif_then: match elif {
                                    Some(branch) => Some(seq![branch]),
                                    None => None,
                                },
                                else_then: match other {
                                    Some(branch) => Some(Box::new(branch)),
                                    None => None,
                                },
                            },
                            n1 + n2 + n3 + n4,
                        ),
                    ),
                },
            },
        },
    }
}

/// What follows the word `while`: `boolean block`.
pub open spec fn repetition(tokens: Seq<Tok>, pos: int) -> Outcome<Tree>
    decreases left(tokens, pos), 6nat,
{
    match boolean(tokens, pos) {
        Err(e) => Err(e),
        Ok((cond, n)) => match block(tokens, pos + n) {
            Err(e) => Err(e),
            Ok((body, m)) => Ok(
                (Tree::While { cond: Box::new(cond), body: Box::new(body) }, n + m),
            ),
        },
    }
}

/// `params := [ 'self' [ ',' items ] | items ]`, read up to the `)`.
///
/// The value is the list of parameters and whether a leading `self` marked
/// the function as a member; `self` itself is not in the list.
pub open spec fn params(tokens: Seq<Tok>, pos: int) -> Outcome<(Seq<Tree>, bool)> {
    if holds(tokens, pos, Tok::RParen) {
        Ok(((Seq::empty(), false), 0nat))
    } else if keyword(tokens, pos, "self"@) {
        if holds(tokens, pos + 1, Tok::Conma) {
            match items(tokens, pos + 2) {
                Err(e) => Err(e),
                Ok((list, n)) => Ok(((list, true), n + 2)),
            }
        } else {
            Ok(((Seq::empty(), true), 1nat))
        }
    } else {
        match items(tokens, pos) {
            Err(e) => Err(e),
            Ok((list, n)) => Ok(((list, false), n)),
        }
    }
}

/// `function := name ':' name '(' params ')' '<-' block`
///
/// The tree keeps the tokens of the return type and of the name.
#[verifier::opaque]
pub open spec fn function(tokens: Seq<Tok>, pos: int) -> Outcome<Tree> {
    if word_at(tokens, pos).is_none() {
        fail(Expected::Identifier)
    } else if !holds(tokens, pos + 1, Tok::Colon) {
        fail(Expected::Colon)
    } else if word_at(tokens, pos + 2).is_none() {
        fail(Expected::Identifier)
    } else if !holds(tokens, pos + 3, Tok::LParen) {
        fail(Expected::LParen)
    } else {
        match params(tokens, pos + 4) {
            Err(e) => Err(e),
            Ok(((list, member), n)) => {
                if !holds(tokens, pos + 4 + n, Tok::RParen) {
                    fail(Expected::RParen)
                } else if !holds(tokens, pos + 5 + n, Tok::Equal) {
                    fail(Expected::Equal)
                } else {
                    match block(tokens, pos + 6 + n) {
                        Err(e) => Err(e),
                        Ok((body, m)) => Ok(
                            (
                                Tree::Function {
                                    params: list,
                                    body: Box::new(body),
                                    function_type: tokens[pos],
                                    function_name: tokens[pos + 2],
                                    is_menber: member,
                                },
                                n + m + 6,
                            ),
                        ),
                    }
                }
            },
        }
    }
}

/// A function definition uses at least one token.
pub proof fn lemma_function_uses_tokens(tokens: Seq<Tok>, pos: int)
    ensures
        function(tokens, pos) matches Ok((_, used)) ==> used >= 1,
{
    reveal(function);
}

/// The rest of a class body after its `{`: `{ Enter | function } '}'`.
pub open spec fn members(tokens: Seq<Tok>, pos: int) -> Outcome<Seq<Tree>>
    decreases left(tokens, pos),
{
    match at(tokens, pos) {
        None => fail(Expected::RBraces),
        Some(Tok::Enter) => after(1, members(tokens, pos + 1)),
        Some(Tok::RBraces) => Ok((Seq::empty(), 1nat)),
        Some(_) => match function(tokens, pos) {
            Err(e) => Err(e),
            Ok((first, n)) => {
                proof {
                    lemma_function_uses_tokens(tokens, pos);
                }
                cons(first, n, members(tokens, pos + n))
            },
        },
    }
}

/// `class := 'class' name '<-' '{' { Enter | function } '}'`, where the word
/// `class` stands at `pos`.
pub open spec fn class(tokens: Seq<Tok>, pos: int) -> Outcome<Tree> {
    match word_at(tokens, pos + 1) {
        None => fail(Expected::Identifier),
        Some(class_name) => {
            if !holds(tokens, pos + 2, Tok::Equal) {
                fail(Expected::Equal)
            } else if !holds(tokens, pos + 3, Tok::LBraces) {
                fail(Expected::LBraces)
            } else {
                match members(tokens, pos + 4) {
                    Err(e) => Err(e),
                    Ok((menbers, n)) => Ok((Tree::Class { class_name, menbers }, n + 4)),
                }
            }
        },
    }
}

/// `import := 'import' name`, where the word `import` stands at `pos`.
pub open spec fn import(tokens: Seq<Tok>, pos: int) -> Outcome<Tree> {
    match word_at(tokens, pos + 1) {
        None => fail(Expected::Identifier),
        Some(name) => Ok((Tree::Import(name), 2nat)),
    }
}

/// How many `Enter` tokens stand in a row at `pos`.
pub open spec fn breaks(tokens: Seq<Tok>, pos: int) -> nat
    decreases left(tokens, pos),
{
    if holds(tokens, pos, Tok::Enter) {
        1 + breaks(tokens, pos + 1)
    } else {
        0
    }
}

/// `language := 'language' ':' name '<-' '{' { Enter } string { Enter } '}'`,
/// where the word `language` stands at `pos`. The text of the string is kept
/// as it is.
pub open spec fn language(tokens: Seq<Tok>, pos: int) -> Outcome<Tree> {
    if !holds(tokens, pos + 1, Tok::Colon) {
        fail(Expected::Colon)
    } else if word_at(tokens, pos + 2).is_none() {
        fail(Expected::Identifier)
    } else if !holds(tokens, pos + 3, Tok::Equal) {
        fail(Expected::Equal)
    } else if !holds(tokens, pos + 4, Tok::LBraces) {
        fail(Expected::LBraces)
    } else {
        let text_at = pos + 5 + breaks(tokens, pos + 5);
        match at(tokens, text_at) {
            Some(Tok::DoubleQuotation(raw_data)) => {
                let close_at = text_at + 1 + breaks(tokens, text_at + 1);
                if holds(tokens, close_at, Tok::RBraces) {
                    Ok(
                        (
                            Tree::RawLanguage { language_type: 0, raw_data },
                            (close_at + 1 - pos) as nat,
                        ),
                    )
                } else {
                    fail(Expected::RBraces)
                }
            },
            _ => fail(Expected::DoubleQuotation),
        }
    }
}

/// `definition := import | class | language | function`, chosen by the word
/// at `pos`; whatever is none of the three words is taken for a function.
#[verifier::opaque]
pub open spec fn definition(tokens: Seq<Tok>, pos: int) -> Outcome<Tree> {
    if keyword(tokens, pos, "import"@) {
        import(tokens, pos)
    } else if keyword(tokens, pos, "class"@) {
        class(tokens, pos)
    } else if keyword(tokens, pos, "language"@) {
        language(tokens, pos)
    } else {
        function(tokens, pos)
    }
}

/// A definition uses at least one token.
pub proof fn lemma_definition_uses_tokens(tokens: Seq<Tok>, pos: int)
    ensures
        definition(tokens, pos) matches Ok((_, used)) ==> used >= 1,
{
    reveal(definition);
    lemma_function_uses_tokens(tokens, pos);
}

/// `program := { Enter } { definition { Enter } }`, to the end of the tokens.
pub open spec fn program(tokens: Seq<Tok>, pos: int) -> Outcome<Seq<Tree>>
    decreases left(tokens, pos),
{
    match at(tokens, pos) {
        None => Ok((Seq::empty(), 0nat)),
        Some(Tok::Enter) => after(1, program(tokens, pos + 1)),
        Some(_) => match definition(tokens, pos) {
            Err(e) => Err(e),
            Ok((first, n)) => {
                proof {
                    lemma_definition_uses_tokens(tokens, pos);
                }
                cons(first, n, program(tokens, pos + n))
            },
        },
    }
}

/// The tree of a whole token sequence.
pub open spec fn root(tokens: Seq<Tok>) -> Result<Tree, SyntaxError> {
    match program(tokens, 0) {
        Err(e) => Err(e),
        Ok((function_define_s, _)) => Ok(Tree::Root { function_define_s }),
    }
}

/// A block that is never closed: where nothing but line breaks follows the
/// `{`, the error names the missing `}`.
pub proof fn lemma_unterminated_block(tokens: Seq<Tok>, pos: int)
    requires
        holds(tokens, pos, Tok::LBraces),
        forall|i: int| pos < i < tokens.len() ==> tokens[i] == Tok::Enter,
    ensures
        block(tokens, pos) == fail::<Tree>(Expected::RBraces),
{
    lemma_only_breaks(tokens, pos + 1);
}

/// Statements are sought in vain among line breaks: where nothing but line
/// breaks follows `from`, the error names the missing `}`.
pub proof fn lemma_only_breaks(tokens: Seq<Tok>, from: int)
    requires
        0 <= from,
        forall|i: int| from <= i < tokens.len() ==> tokens[i] == Tok::Enter,
    ensures
        statements(tokens, from) == fail::<Seq<Tree>>(Expected::RBraces),
    decreases tokens.len() - from,
{
    if from < tokens.len() {
        lemma_only_breaks(tokens, from + 1);
    }
}

/// Whether `word` is one of the words that begin a statement of their own.
pub open spec fn reserved(word: Seq<char>) -> bool {
    word == "return"@ || word == "if"@ || word == "while"@ || word == "pass"@
}

/// A name that stands alone is a reference without arguments: a name that is
/// not reserved and is followed by neither `.`, `:`, `(` nor an arithmetic
/// operator.
pub proof fn lemma_name_alone(tokens: Seq<Tok>, pos: int, word: Seq<char>)
    requires
        word_at(tokens, pos) == Some(word),
        !reserved(word),
        !holds(tokens, pos + 1, Tok::Period),
        !holds(tokens, pos + 1, Tok::Colon),
        !holds(tokens, pos + 1, Tok::LParen),
        at(tokens, pos + 1) matches Some(op) ==> !arithmetic(op),
    ensures
        reserv(tokens, pos) == Ok::<(Tree, nat), SyntaxError>(
            (Tree::Call { function_name: word, args: Seq::empty() }, 1nat),
        ),
{
    assert(binary(tokens, pos) == call(tokens, pos));
}

/// Comparisons group to the right: `a > b < c` is the comparison of `a` with
/// the comparison of `b` with `c`, whatever names `a`, `b` and `c` are.
pub proof fn lemma_comparisons_group_right(a: Seq<char>, b: Seq<char>, c: Seq<char>)
    requires
        !reserved(a),
        !reserved(b),
        !reserved(c),
    ensures
        boolean(
            seq![
                Tok::Identifier(a),
                Tok::Greater,
                Tok::Identifier(b),
                Tok::Less,
                Tok::Identifier(c),
            ],
            0,
        ) == Ok::<(Tree, nat), SyntaxError>(
            (
                Tree::Compare {
                    lhs: Box::new(Tree::Call { function_name: a, args: Seq::empty() }),
                    op: Tok::Greater,
                    rhs: Box::new(
                        Tree::Compare {
                            lhs: Box::new(Tree::Call { function_name: b, args: Seq::empty() }),
                            op: Tok::Less,
                            rhs: Box::new(Tree::Call { function_name: c, args: Seq::empty() }),
                        },
                    ),
                },
                5nat,
            ),
        ),
{
    let tokens = seq![
        Tok::Identifier(a),
        Tok::Greater,
        Tok::Identifier(b),
        Tok::Less,
        Tok::Identifier(c),
    ];
    lemma_name_alone(tokens, 0, a);
    lemma_name_alone(tokens, 2, b);
    lemma_name_alone(tokens, 4, c);
    assert(boolean(tokens, 4) == reserv(tokens, 4));
    assert(boolean(tokens, 2) == Ok::<(Tree, nat), SyntaxError>(
        (
            Tree::Compare {
                lhs: Box::new(Tree::Call { function_name: b, args: Seq::empty() }),
                op: Tok::Less,
                rhs: Box::new(Tree::Call { function_name: c, args: Seq::empty() }),
            },
            3nat,
        ),
    ));
}

/// Arithmetic groups to the right as well: `a * b + c` is the product of `a`
/// with the sum of `b` and `c`.
pub proof fn lemma_arithmetic_groups_right(a: Seq<char>, b: Seq<char>, c: Seq<char>)
    requires
        !reserved(a),
    ensures
        reserv(
            seq![
                Tok::Identifier(a),
                Tok::Asterisk,
                Tok::Identifier(b),
                Tok::Plus,
                Tok::Identifier(c),
            ],
            0,
        ) == Ok::<(Tree, nat), SyntaxError>(
            (
                Tree::BinaryOp {
                    op: Tok::Asterisk,
                    lhs: Box::new(Tree::Call { function_name: a, args: Seq::empty() }),
                    rhs: Box::new(
                        Tree::BinaryOp {
                            op: Tok::Plus,
                            lhs: Box::new(Tree::Call { function_name: b, args: Seq::empty() }),
                            rhs: Box::new(Tree::Call { function_name: c, args: Seq::empty() }),
                        },
                    ),
                },
                5nat,
            ),
        ),
{
    let tokens = seq![
        Tok::Identifier(a),
        Tok::Asterisk,
        Tok::Identifier(b),
        Tok::Plus,
        Tok::Identifier(c),
    ];
    assert(call(tokens, 4) == Ok::<(Tree, nat), SyntaxError>(
        (Tree::Call { function_name: c, args: Seq::empty() }, 1nat),
    ));
    assert(call(tokens, 2) == Ok::<(Tree, nat), SyntaxError>(
        (Tree::Call { function_name: b, args: Seq::empty() }, 1nat),
    ));
    assert(call(tokens, 0) == Ok::<(Tree, nat), SyntaxError>(
        (Tree::Call { function_name: a, args: Seq::empty() }, 1nat),
    ));
    assert(binary(tokens, 0) == Ok::<(Tree, nat), SyntaxError>(
        (
            Tree::BinaryOp {
                op: Tok::Asterisk,
                lhs: Box::new(Tree::Call { function_name: a, args: Seq::empty() }),
                rhs: Box::new(
                    Tree::BinaryOp {
                        op: Tok::Plus,
                        lhs: Box::new(Tree::Call { function_name: b, args: Seq::empty() }),
                        rhs: Box::new(Tree::Call { function_name: c, args: Seq::empty() }),
                    },
                ),
            },
            5nat,
        ),
    ));
}

} // verus!
