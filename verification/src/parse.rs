//! The syntax tree and the recursive-descent parser that builds it.
//!
//! What the parser accepts, and the tree it builds, is defined in
//! [`crate::grammar`]; every parsing method here is proved to return exactly
//! what the grammar prescribes.
use vstd::prelude::*;
use vstd::string::StringExecFns;

use crate::grammar;
use crate::grammar::{at, holds, keyword, left, word_at, Outcome};
use crate::text::reads;
use crate::token::{toks, Tok, Type};

verus! {

/// What a node of the syntax tree holds.
#[derive(Debug, PartialEq)]
pub enum NodeKind {
    /// An integer literal.
    Num(i64),
    /// A string literal, quotes included, or a bare identifier.
    Str(String),
    /// The statement that does nothing.
    Pass(String),
    /// Arithmetic: `lhs op rhs`.
    BinaryOp { op: Type, lhs: Box<Node>, rhs: Box<Node> },
    /// A comparison: `lhs op rhs`.
    Compare { lhs: Box<Node>, op: Type, rhs: Box<Node> },
    /// One step of a member-access chain: `now_menber_name . next`.
    CallMenber { now_menber_name: String, next: Box<Node> },
    /// The statements of a block, in order.
    Block(Vec<Node>),
    /// An import of a module.
    Import(String),
    /// A declaration; `v_formula` is absent and `this_is_define` is false
    /// where it has no initialiser.
    Let { v_name: String, v_type: String, v_formula: Box<Node>, this_is_define: bool },
    /// A conditional with its optional `elif` branches and `else` branch.
    If {
        cond: Box<Node>,
        then: Box<Node>,
        elif_then: Option<Vec<Node>>,
        else_then: Option<Box<Node>>,
    },
    /// One `elif` branch.
    Elif { cond: Box<Node>, then: Box<Node>, else_then: Option<Box<Node>> },
    /// A loop.
    While { cond: Box<Node>, body: Box<Node> },
    /// A function definition; `function_type` and `function_name` are the
    /// tokens of its return type and its name.
    Function {
        params: Vec<Node>,
        body: Box<Node>,
        function_type: Type,
        function_name: Type,
        is_menber: bool,
    },
    /// A reference to a name, with the arguments of a call if there are any.
    Call { function_name: String, args: Vec<Node> },
    /// A `return` statement.
    Return(Box<Node>),
    /// A statement.
    Expr { reserv: Box<Node> },
    /// Text that is handed to the output as it stands.
    RawLanguage { language_type: i32, raw_data: String },
    /// A class and its member functions.
    Class { class_name: String, menbers: Vec<Node> },
    /// A whole program: its definitions, in order.
    Root { function_define_s: Vec<Node> },
}

/// A node of the syntax tree. `kind` is `None` where there is nothing: the
/// initialiser of a declaration that has none.
#[derive(Debug, PartialEq)]
pub struct Node {
    pub kind: Option<NodeKind>,
}

/// The mathematical value of a [`Node`].
pub enum Tree {
    Absent,
    Num(int),
    Str(Seq<char>),
    Pass(Seq<char>),
    BinaryOp { op: Tok, lhs: Box<Tree>, rhs: Box<Tree> },
    Compare { lhs: Box<Tree>, op: Tok, rhs: Box<Tree> },
    CallMenber { now_menber_name: Seq<char>, next: Box<Tree> },
    Block(Seq<Tree>),
    Import(Seq<char>),
    Let { v_name: Seq<char>, v_type: Seq<char>, v_formula: Box<Tree>, this_is_define: bool },
    If {
        cond: Box<Tree>,
        then: Box<Tree>,
        elif_then: Option<Seq<Tree>>,
        else_then: Option<Box<Tree>>,
    },
    Elif { cond: Box<Tree>, then: Box<Tree>, else_then: Option<Box<Tree>> },
    While { cond: Box<Tree>, body: Box<Tree> },
    Function {
        params: Seq<Tree>,
        body: Box<Tree>,
        function_type: Tok,
        function_name: Tok,
        is_menber: bool,
    },
    Call { function_name: Seq<char>, args: Seq<Tree> },
    Return(Box<Tree>),
    Expr { reserv: Box<Tree> },
    RawLanguage { language_type: int, raw_data: Seq<char> },
    Class { class_name: Seq<char>, menbers: Seq<Tree> },
    Root { function_define_s: Seq<Tree> },
}

/// The value of a node.
pub open spec fn tree_of(node: Node) -> Tree
    decreases node,
{
    match node.kind {
        None => Tree::Absent,
        Some(NodeKind::Num(value)) => Tree::Num(value as int),
        Some(NodeKind::Str(text)) => Tree::Str(text@),
        Some(NodeKind::Pass(text)) => Tree::Pass(text@),
        Some(NodeKind::BinaryOp { op, lhs, rhs }) => Tree::BinaryOp {
            op: op@,
            lhs: Box::new(tree_of(*lhs)),
            rhs: Box::new(tree_of(*rhs)),
        },
        Some(NodeKind::Compare { lhs, op, rhs }) => Tree::Compare {
            lhs: Box::new(tree_of(*lhs)),
            op: op@,
            rhs: Box::new(tree_of(*rhs)),
        },
        Some(NodeKind::CallMenber { now_menber_name, next }) => Tree::CallMenber {
            now_menber_name: now_menber_name@,
            next: Box::new(tree_of(*next)),
        },
        Some(NodeKind::Block(list)) => Tree::Block(trees_of(list@)),
        Some(NodeKind::Import(name)) => Tree::Import(name@),
        Some(NodeKind::Let { v_name, v_type, v_formula, this_is_define }) => Tree::Let {
            v_name: v_name@,
            v_type: v_type@,
            v_formula: Box::new(tree_of(*v_formula)),
            this_is_define,
        },
        Some(NodeKind::If { cond, then, elif_then, else_then }) => Tree::If {
            cond: Box::new(tree_of(*cond)),
            then: Box::new(tree_of(*then)),
            elif_then: match elif_then {
                Some(list) => Some(trees_of(list@)),
                None => None,
            },
            else_then: match else_then {
                Some(branch) => Some(Box::new(tree_of(*branch))),
                None => None,
            },
        },
        Some(NodeKind::Elif { cond, then, else_then }) => Tree::Elif {
            cond: Box::new(tree_of(*cond)),
            then: Box::new(tree_of(*then)),
            else_then: match else_then {
                Some(branch) => Some(Box::new(tree_of(*branch))),
                None => None,
            },
        },
        Some(NodeKind::While { cond, body }) => Tree::While {
            cond: Box::new(tree_of(*cond)),
            body: Box::new(tree_of(*body)),
        },
        Some(NodeKind::Function { params, body, function_type, function_name, is_menber }) => {
            Tree::Function {
                params: trees_of(params@),
                body: Box::new(tree_of(*body)),
                function_type: function_type@,
                function_name: function_name@,
                is_menber,
            }
        },
        Some(NodeKind::Call { function_name, args }) => Tree::Call {
            function_name: function_name@,
            args: trees_of(args@),
        },
        Some(NodeKind::Return(value)) => Tree::Return(Box::new(tree_of(*value))),
        Some(NodeKind::Expr { reserv }) => Tree::Expr { reserv: Box::new(tree_of(*reserv)) },
        Some(NodeKind::RawLanguage { language_type, raw_data }) => Tree::RawLanguage {
            language_type: language_type as int,
            raw_data: raw_data@,
        },
        Some(NodeKind::Class { class_name, menbers }) => Tree::Class {
            class_name: class_name@,
            menbers: trees_of(menbers@),
        },
        Some(NodeKind::Root { function_define_s }) => Tree::Root {
            function_define_s: trees_of(function_define_s@),
        },
    }
}

/// The values of a sequence of nodes, in order.
pub open spec fn trees_of(nodes: Seq<Node>) -> Seq<Tree>
    decreases nodes,
{
    Seq::new(
        nodes.len(),
        |i: int|
            if 0 <= i < nodes.len() {
                tree_of(nodes[i])
            } else {
                Tree::Absent
            },
    )
}

impl View for Node {
    type V = Tree;

    open spec fn view(&self) -> Tree {
        tree_of(*self)
    }
}

/// What the parser was looking for when it gave up.
#[derive(Debug, Clone, Copy, PartialEq, Eq, Structural)]
pub enum Expected {
    Colon,
    Equal,
    LParen,
    RParen,
    LBraces,
    RBraces,
    SemiColon,
    /// Any identifier.
    Identifier,
    /// A string literal.
    DoubleQuotation,
    /// A literal or a name.
    Value,
}

/// The first place where the tokens do not fit the grammar: the token that
/// should have stood at the cursor.
#[derive(Debug, Clone, Copy, PartialEq, Eq, Structural)]
pub struct SyntaxError {
    pub expected: Expected,
}

impl Node {
    /// A node that holds nothing.
    pub fn new() -> (node: Self)
        ensures
            node@ == Tree::Absent,
    {
        Self { kind: None }
    }
}

/// The tag of a raw block whose text is Python.
pub const RAW_DATA_TYPE_PYTHON: i32 = 0;

/// Which rule a definition at the top level falls under.
#[derive(Debug, Clone, Copy, PartialEq, Eq, Structural)]
pub enum Definition {
    Import,
    Language,
    Class,
    Function,
}

/// The rule for the definition that starts at `pos`.
pub open spec fn definition_at(tokens: Seq<Tok>, pos: int) -> Definition {
    if keyword(tokens, pos, "import"@) {
        Definition::Import
    } else if keyword(tokens, pos, "class"@) {
        Definition::Class
    } else if keyword(tokens, pos, "language"@) {
        Definition::Language
    } else {
        Definition::Function
    }
}

/// `prefix` in front of the list of `rest`, with `by` more tokens used.
spec fn extend(prefix: Seq<Tree>, by: nat, rest: Outcome<Seq<Tree>>) -> Outcome<
    Seq<Tree>,
> {
    match rest {
        Ok((list, used)) => Ok((prefix + list, used + by)),
        Err(e) => Err(e),
    }
}

/// Whether `out`, obtained at `pos` in `len` tokens, is what `rule` prescribes:
/// the same tree and the same number of tokens, or the same error.
spec fn yields(
    out: Result<(Node, usize), SyntaxError>,
    pos: usize,
    len: nat,
    rule: Outcome<Tree>,
) -> bool {
    match out {
        Ok((node, next)) => {
            &&& pos <= next <= len
            &&& rule == Ok::<(Tree, nat), SyntaxError>((node@, (next - pos) as nat))
        },
        Err(e) => rule == Err::<(Tree, nat), SyntaxError>(e),
    }
}

/// [`yields`] for a rule that builds a list.
spec fn yields_list(
    out: Result<(Vec<Node>, usize), SyntaxError>,
    pos: usize,
    len: nat,
    rule: Outcome<Seq<Tree>>,
) -> bool {
    match out {
        Ok((list, next)) => {
            &&& pos <= next <= len
            &&& rule == Ok::<(Seq<Tree>, nat), SyntaxError>(
                (trees_of(list@), (next - pos) as nat),
            )
        },
        Err(e) => rule == Err::<(Seq<Tree>, nat), SyntaxError>(e),
    }
}

/// [`yields`] for a rule that may build nothing.
spec fn yields_option(
    out: Result<(Option<Node>, usize), SyntaxError>,
    pos: usize,
    len: nat,
    rule: Outcome<Option<Tree>>,
) -> bool {
    match out {
        Ok((found, next)) => {
            &&& pos <= next <= len
            &&& rule == Ok::<(Option<Tree>, nat), SyntaxError>(
                (
                    match found {
                        Some(node) => Some(node@),
                        None => None,
                    },
                    (next - pos) as nat,
                ),
            )
        },
        Err(e) => rule == Err::<(Option<Tree>, nat), SyntaxError>(e),
    }
}

/// [`yields`] for the parameter list of a function definition.
spec fn yields_params(
    out: Result<(Vec<Node>, bool, usize), SyntaxError>,
    pos: usize,
    len: nat,
    rule: Outcome<(Seq<Tree>, bool)>,
) -> bool {
    match out {
        Ok((list, member, next)) => {
            &&& pos <= next <= len
            &&& rule == Ok::<((Seq<Tree>, bool), nat), SyntaxError>(
                ((trees_of(list@), member), (next - pos) as nat),
            )
        },
        Err(e) => rule == Err::<((Seq<Tree>, bool), nat), SyntaxError>(e),
    }
}

/// What a parsing method does to the parser, for the rule it stands for: on
/// success the cursor moves past the tokens that the rule used and the result
/// is the rule's tree; on an error the cursor stays.
pub open spec fn settled<'a>(
    before: Parser<'a>,
    after: Parser<'a>,
    result: Result<Node, SyntaxError>,
    rule: Outcome<Tree>,
) -> bool {
    &&& after.stream() == before.stream()
    &&& match rule {
        Ok((tree, used)) => {
            &&& result matches Ok(node) && node@ == tree
            &&& after.cursor() == before.cursor() + used
        },
        Err(e) => result == Err::<Node, SyntaxError>(e) && after.cursor() == before.cursor(),
    }
}

/// How far ahead of the cursor `sheek_token` looks for a given index: the
/// index counts from one, and anything below one is the cursor itself.
pub open spec fn ahead(index: i32) -> nat {
    if index <= 1 {
        0
    } else {
        (index - 1) as nat
    }
}

/// The values of a list of nodes with one more node at its end.
proof fn lemma_trees_push(list: Seq<Node>, last: Node)
    ensures
        trees_of(list.push(last)) == trees_of(list).push(last@),
{
}

/// Taking one more tree into the prefix leaves the whole list as it was.
proof fn lemma_extend_cons(
    prefix: Seq<Tree>,
    by: nat,
    first: Tree,
    used: nat,
    rest: Outcome<Seq<Tree>>,
)
    ensures
        extend(prefix, by, grammar::cons(first, used, rest)) == extend(
            prefix.push(first),
            by + used,
            rest,
        ),
{
    match rest {
        Ok((list, n)) => {
            assert(prefix + (seq![first] + list) == prefix.push(first) + list);
        },
        Err(_) => {},
    }
}

fn node(kind: NodeKind) -> (node: Node)
    ensures
        node.kind == Some(kind),
{
    Node { kind: Some(kind) }
}

fn missing<T>(expected: Expected) -> (out: Result<T, SyntaxError>)
    ensures
        out == Err::<T, SyntaxError>(SyntaxError { expected }),
{
    Err(SyntaxError { expected })
}

fn is_arithmetic(token: &Type) -> (yes: bool)
    ensures
        yes == grammar::arithmetic(token@),
{
    match token {
        Type::Asterisk => true,
        Type::Slash => true,
        Type::Plus => true,
        Type::Minus => true,
        _ => false,
    }
}

fn is_comparison(token: &Type) -> (yes: bool)
    ensures
        yes == grammar::comparison(token@),
{
    match token {
        Type::Greater => true,
        Type::Less => true,
        _ => false,
    }
}

/// A parser: a token sequence and a cursor into it.
///
/// The cursor only moves forward, and only when a rule succeeds: after an
/// error the parser is as it was before.
pub struct Parser<'a> {
    tokens: &'a [Type],
    pos: usize,
    now_function_is_menber: bool,
}

impl<'a> Parser<'a> {
    #[verifier::type_invariant]
    spec fn in_bounds(self) -> bool {
        self.pos <= self.tokens@.len()
    }

    /// The tokens that the parser reads.
    pub closed spec fn stream(&self) -> Seq<Tok> {
        toks(self.tokens@)
    }

    /// The position of the cursor.
    pub closed spec fn cursor(&self) -> int {
        self.pos as int
    }

    /// Whether the parameter list read last began with `self`.
    pub closed spec fn member(&self) -> bool {
        self.now_function_is_menber
    }

    /// A parser at the start of `tokens`.
    pub fn new(tokens: &'a [Type]) -> (parser: Self)
        ensures
            parser.stream() == toks(tokens@),
            parser.cursor() == 0,
            !parser.member(),
    {
        Self { tokens, pos: 0, now_function_is_menber: false }
    }

    /// The position of the cursor.
    pub fn position(&self) -> (pos: usize)
        ensures
            pos == self.cursor(),
            pos <= self.stream().len(),
    {
        proof {
            use_type_invariant(self);
        }
        self.pos
    }

    fn peek(&self, pos: usize) -> (token: Option<&Type>)
        ensures
            match token {
                Some(t) => at(self.stream(), pos as int) == Some(t@) && pos < self.tokens@.len()
                    <= usize::MAX,
                None => at(self.stream(), pos as int).is_none() && pos >= self.tokens@.len(),
            },
    {
        if pos < self.tokens.len() {
            Some(&self.tokens[pos])
        } else {
            None
        }
    }

    fn sees(&self, pos: usize, token: &Type) -> (yes: bool)
        ensures
            yes == holds(self.stream(), pos as int, token@),
            yes ==> pos < self.tokens@.len() <= usize::MAX,
    {
        match self.peek(pos) {
            Some(t) => t.same(token),
            None => false,
        }
    }

    fn name_at(&self, pos: usize) -> (name: Option<&String>)
        ensures
            match name {
                Some(word) => word_at(self.stream(), pos as int) == Some(word@) && pos
                    < self.tokens@.len() <= usize::MAX,
                None => word_at(self.stream(), pos as int).is_none(),
            },
    {
        match self.peek(pos) {
            Some(Type::Identifier(word)) => Some(word),
            _ => None,
        }
    }

    fn sees_word(&self, pos: usize, text: &str) -> (yes: bool)
        ensures
            yes == keyword(self.stream(), pos as int, text@),
            yes ==> pos < self.tokens@.len() <= usize::MAX,
    {
        match self.name_at(pos) {
            Some(word) => reads(word, text),
            None => false,
        }
    }

    fn literal_at(&self, pos: usize) -> (out: Result<(Node, usize), SyntaxError>)
        ensures
            yields(out, pos, self.tokens@.len(), grammar::literal(self.stream(), pos as int)),
    {
        match self.peek(pos) {
            Some(Type::DoubleQuotation(text)) => {
                let mut quoted = String::new();
                quoted.push('"');
                quoted.append(text.as_str());
                quoted.push('"');
                assert(quoted@ == grammar::quoted(text@));
                Ok((node(NodeKind::Str(quoted)), pos + 1))
            },
            Some(Type::Number(value)) => Ok((node(NodeKind::Num(*value)), pos + 1)),
            Some(Type::Identifier(word)) => Ok((node(NodeKind::Str(word.clone())), pos + 1)),
            _ => missing(Expected::Value),
        }
    }

    fn call_at(&self, pos: usize) -> (out: Result<(Node, usize), SyntaxError>)
        ensures
            yields(out, pos, self.tokens@.len(), grammar::call(self.stream(), pos as int)),
        decreases left(self.stream(), pos as int), 0nat,
    {
        match self.name_at(pos) {
            None => self.literal_at(pos),
            Some(name) => {
                if !self.sees(pos + 1, &Type::LParen) {
                    let args: Vec<Node> = Vec::new();
                    assert(trees_of(args@) == Seq::<Tree>::empty());
                    Ok((node(NodeKind::Call { function_name: name.clone(), args }), pos + 1))
                } else if self.sees(pos + 2, &Type::RParen) {
                    let args: Vec<Node> = Vec::new();
                    assert(trees_of(args@) == Seq::<Tree>::empty());
                    Ok((node(NodeKind::Call { function_name: name.clone(), args }), pos + 3))
                } else {
                    match self.items_at(pos + 2) {
                        Err(e) => Err(e),
                        Ok((args, next)) => {
                            if self.sees(next, &Type::RParen) {
                                Ok(
                                    (
                                        node(
                                            NodeKind::Call { function_name: name.clone(), args },
                                        ),
                                        next + 1,
                                    ),
                                )
                            } else {
                                missing(Expected::RParen)
                            }
                        },
                    }
                }
            },
        }
    }

    fn binary_at(&self, pos: usize) -> (out: Result<(Node, usize), SyntaxError>)
        ensures
            yields(out, pos, self.tokens@.len(), grammar::binary(self.stream(), pos as int)),
        decreases left(self.stream(), pos as int), 1nat,
    {
        match self.call_at(pos) {
            Err(e) => Err(e),
            Ok((lhs, next)) => match self.peek(next) {
                None => Ok((lhs, next)),
                Some(op) => {
                    if is_arithmetic(op) {
                        match self.binary_at(next + 1) {
                            Err(e) => Err(e),
                            Ok((rhs, end)) => Ok(
                                (
                                    node(
                                        NodeKind::BinaryOp {
                                            op: op.duplicate(),
                                            lhs: Box::new(lhs),
                                            rhs: Box::new(rhs),
                                        },
                                    ),
                                    end,
                                ),
                            ),
                        }
                    } else {
                        Ok((lhs, next))
                    }
                },
            },
        }
    }

    fn declaration_at(&self, pos: usize, v_type: &String) -> (out: Result<
        (Node, usize),
        SyntaxError,
    >)
        requires
            pos + 1 < self.tokens@.len() <= usize::MAX,
        ensures
            yields(
                out,
                pos,
                self.tokens@.len(),
                grammar::declaration(self.stream(), pos as int, v_type@),
            ),
        decreases left(self.stream(), pos as int), 1nat,
    {
        match self.name_at(pos + 2) {
            None => missing(Expected::Identifier),
            Some(v_name) => {
                if self.sees(pos + 3, &Type::Equal) {
                    match self.reserv_at(pos + 4) {
                        Err(e) => Err(e),
                        Ok((value, next)) => Ok(
                            (
                                node(
                                    NodeKind::Let {
                                        v_name: v_name.clone(),
                                        v_type: v_type.clone(),
                                        v_formula: Box::new(value),
                                        this_is_define: true,
                                    },
                                ),
                                next,
                            ),
                        ),
                    }
                } else {
                    Ok(
                        (
                            node(
                                NodeKind::Let {
                                    v_name: v_name.clone(),
                                    v_type: v_type.clone(),
                                    v_formula: Box::new(Node::new()),
                                    this_is_define: false,
                                },
                            ),
                            pos + 3,
                        ),
                    )
                }
            },
        }
    }

    fn reserv_at(&self, pos: usize) -> (out: Result<(Node, usize), SyntaxError>)
        ensures
            yields(out, pos, self.tokens@.len(), grammar::reserv(self.stream(), pos as int)),
        decreases left(self.stream(), pos as int), 2nat,
    {
        match self.name_at(pos) {
            None => self.literal_at(pos),
            Some(word) => {
                if self.sees(pos + 1, &Type::Period) {
                    match self.reserv_at(pos + 2) {
                        Err(e) => Err(e),
                        Ok((next, end)) => Ok(
                            (
                                node(
                                    NodeKind::CallMenber {
                                        now_menber_name: word.clone(),
                                        next: Box::new(next),
                                    },
                                ),
                                end,
                            ),
                        ),
                    }
                } else if self.sees(pos + 1, &Type::Colon) {
                    self.declaration_at(pos, word)
                } else if reads(word, "return") {
                    match self.reserv_at(pos + 1) {
                        Err(e) => Err(e),
                        Ok((value, end)) => Ok((node(NodeKind::Return(Box::new(value))), end)),
                    }
                } else if reads(word, "if") {
                    self.conditional_at(pos + 1)
                } else if reads(word, "while") {
                    self.repetition_at(pos + 1)
                } else if reads(word, "pass") {
                    Ok((node(NodeKind::Pass(String::from_str("Pass"))), pos + 1))
                } else {
                    self.binary_at(pos)
                }
            },
        }
    }

    fn boolean_at(&self, pos: usize) -> (out: Result<(Node, usize), SyntaxError>)
        ensures
            yields(out, pos, self.tokens@.len(), grammar::boolean(self.stream(), pos as int)),
        decreases left(self.stream(), pos as int), 3nat,
    {
        match self.reserv_at(pos) {
            Err(e) => Err(e),
            Ok((lhs, next)) => match self.peek(next) {
                None => Ok((lhs, next)),
                Some(op) => {
                    if is_comparison(op) {
                        match self.boolean_at(next + 1) {
                            Err(e) => Err(e),
                            Ok((rhs, end)) => Ok(
                                (
                                    node(
                                        NodeKind::Compare {
                                            lhs: Box::new(lhs),
                                            op: op.duplicate(),
                                            rhs: Box::new(rhs),
                                        },
                                    ),
                                    end,
                                ),
                            ),
                        }
                    } else {
                        Ok((lhs, next))
                    }
                },
            },
        }
    }

    fn items_at(&self, pos: usize) -> (out: Result<(Vec<Node>, usize), SyntaxError>)
        ensures
            yields_list(out, pos, self.tokens@.len(), grammar::items(self.stream(), pos as int)),
        decreases left(self.stream(), pos as int), 3nat,
    {
        let mut list: Vec<Node> = Vec::new();
        let mut cur: usize = pos;
        loop
            invariant
                pos <= cur,
                grammar::items(self.stream(), pos as int) == extend(
                    trees_of(list@),
                    (cur - pos) as nat,
                    grammar::items(self.stream(), cur as int),
                ),
            decreases self.tokens@.len() - cur,
        {
            match self.reserv_at(cur) {
                Err(e) => {
                    return Err(e);
                },
                Ok((item, next)) => {
                    proof {
                        lemma_trees_push(list@, item);
                        lemma_extend_cons(
                            trees_of(list@),
                            (cur - pos) as nat,
                            item@,
                            (next - cur + 1) as nat,
                            grammar::items(self.stream(), next + 1),
                        );
                    }
                    let ghost before = trees_of(list@);
                    let ghost last = item@;
                    list.push(item);
                    if self.sees(next, &Type::Conma) {
                        cur = next + 1;
                    } else {
                        assert(before + seq![last] == before.push(last));
                        return Ok((list, next));
                    }
                },
            }
        }
    }
    fn statements_at(&self, pos: usize) -> (out: Result<(Vec<Node>, usize), SyntaxError>)
        ensures
            yields_list(
                out,
                pos,
                self.tokens@.len(),
                grammar::statements(self.stream(), pos as int),
            ),
        decreases left(self.stream(), pos as int), 3nat,
    {
        let mut list: Vec<Node> = Vec::new();
        let mut cur: usize = pos;
        loop
            invariant
                pos <= cur,
                grammar::statements(self.stream(), pos as int) == extend(
                    trees_of(list@),
                    (cur - pos) as nat,
                    grammar::statements(self.stream(), cur as int),
                ),
            decreases self.tokens@.len() - cur,
        {
            match self.peek(cur) {
                None => {
                    return missing(Expected::RBraces);
                },
                Some(Type::Enter) => {
                    cur = cur + 1;
                },
                Some(Type::RBraces) => {
                    return Ok((list, cur + 1));
                },
                Some(_) => match self.reserv_at(cur) {
                    Err(e) => {
                        return Err(e);
                    },
                    Ok((inner, next)) => {
                        if self.sees(next, &Type::SemiColon) {
                            let item = node(NodeKind::Expr { reserv: Box::new(inner) });
                            proof {
                                lemma_trees_push(list@, item);
                                lemma_extend_cons(
                                    trees_of(list@),
                                    (cur - pos) as nat,
                                    item@,
                                    (next - cur + 1) as nat,
                                    grammar::statements(self.stream(), next + 1),
                                );
                            }
                            list.push(item);
                            cur = next + 1;
                        } else {
                            return missing(Expected::SemiColon);
                        }
                    },
                },
            }
        }
    }

    fn block_at(&self, pos: usize) -> (out: Result<(Node, usize), SyntaxError>)
        ensures
            yields(out, pos, self.tokens@.len(), grammar::block(self.stream(), pos as int)),
        decreases left(self.stream(), pos as int), 4nat,
    {
        if self.sees(pos, &Type::LBraces) {
            match self.statements_at(pos + 1) {
                Err(e) => Err(e),
                Ok((list, next)) => Ok((node(NodeKind::Block(list)), next)),
            }
        } else {
            missing(Expected::LBraces)
        }
    }

    fn statement_at(&self, pos: usize) -> (out: Result<(Node, usize), SyntaxError>)
        ensures
            yields(out, pos, self.tokens@.len(), grammar::statement(self.stream(), pos as int)),
        decreases left(self.stream(), pos as int), 3nat,
    {
        if self.sees(pos, &Type::Enter) {
            self.statement_at(pos + 1)
        } else {
            match self.reserv_at(pos) {
                Err(e) => Err(e),
                Ok((inner, next)) => {
                    if self.sees(next, &Type::SemiColon) {
                        Ok((node(NodeKind::Expr { reserv: Box::new(inner) }), next + 1))
                    } else {
                        missing(Expected::SemiColon)
                    }
                },
            }
        }
    }

    fn alternative_at(&self, pos: usize) -> (out: Result<(Option<Node>, usize), SyntaxError>)
        requires
            pos <= self.tokens@.len(),
        ensures
            yields_option(
                out,
                pos,
                self.tokens@.len(),
                grammar::alternative(self.stream(), pos as int),
            ),
            out matches Ok((None, next)) ==> next == pos,
        decreases left(self.stream(), pos as int), 5nat,
    {
        if self.sees(pos, &Type::Enter) {
            match self.alternative_at(pos + 1) {
                Err(e) => Err(e),
                Ok((Some(branch), next)) => Ok((Some(branch), next)),
                Ok((None, _)) => Ok((None, pos)),
            }
        } else if self.sees_word(pos, "elif") {
            match self.boolean_at(pos + 1) {
                Err(e) => Err(e),
                Ok((cond, next)) => match self.block_at(next) {
                    Err(e) => Err(e),
                    Ok((then, end)) => Ok(
                        (
                            Some(
                                node(
                                    NodeKind::Elif {
                                        cond: Box::new(cond),
                                        then: Box::new(then),
                                        else_then: None,
                                    },
                                ),
                            ),
                            end,
                        ),
                    ),
                },
            }
        } else {
            Ok((None, pos))
        }
    }

    fn otherwise_at(&self, pos: usize) -> (out: Result<(Option<Node>, usize), SyntaxError>)
        requires
            pos <= self.tokens@.len(),
        ensures
            yields_option(
                out,
                pos,
                self.tokens@.len(),
                grammar::otherwise(self.stream(), pos as int),
            ),
        decreases left(self.stream(), pos as int), 5nat,
    {
        if self.sees(pos, &Type::Enter) {
            self.otherwise_at(pos + 1)
        } else if self.sees_word(pos, "else") {
            match self.block_at(pos + 1) {
                Err(e) => Err(e),
                Ok((branch, next)) => Ok((Some(branch), next)),
            }
        } else {
            Ok((None, pos))
        }
    }

    fn conditional_at(&self, pos: usize) -> (out: Result<(Node, usize), SyntaxError>)
        ensures
            yields(out, pos, self.tokens@.len(), grammar::conditional(self.stream(), pos as int)),
        decreases left(self.stream(), pos as int), 6nat,
    {
        match self.boolean_at(pos) {
            Err(e) => Err(e),
            Ok((cond, n1)) => match self.block_at(n1) {
                Err(e) => Err(e),
                Ok((then, n2)) => match self.alternative_at(n2) {
                    Err(e) => Err(e),
                    Ok((elif, n3)) => match self.otherwise_at(n3) {
                        Err(e) => Err(e),
                        Ok((other, n4)) => {
                            let elif_then = match elif {
                                Some(branch) => {
                                    let mut list: Vec<Node> = Vec::new();
                                    list.push(branch);
                                    proof {
                                        assert(trees_of(list@) == seq![branch@]);
                                    }
                                    Some(list)
                                },
                                None => None,
                            };
                            let else_then = match other {
                                Some(branch) => Some(Box::new(branch)),
                                None => None,
                            };
                            Ok(
                                (
                                    node(
                                        NodeKind::If {
                                            cond: Box::new(cond),
                                            then: Box::new(then),
                                            elif_then,
                                            else_then,
                                        },
                                    ),
                                    n4,
                                ),
                            )
                        },
                    },
                },
            },
        }
    }

    fn repetition_at(&self, pos: usize) -> (out: Result<(Node, usize), SyntaxError>)
        ensures
            yields(out, pos, self.tokens@.len(), grammar::repetition(self.stream(), pos as int)),
        decreases left(self.stream(), pos as int), 6nat,
    {
        match self.boolean_at(pos) {
            Err(e) => Err(e),
            Ok((cond, next)) => match self.block_at(next) {
                Err(e) => Err(e),
                Ok((body, end)) => Ok(
                    (node(NodeKind::While { cond: Box::new(cond), body: Box::new(body) }), end),
                ),
            },
        }
    }
    fn params_at(&self, pos: usize) -> (out: Result<(Vec<Node>, bool, usize), SyntaxError>)
        requires
            pos <= self.tokens@.len(),
        ensures
            yields_params(out, pos, self.tokens@.len(), grammar::params(self.stream(), pos as int)),
    {
        if self.sees(pos, &Type::RParen) {
            let list: Vec<Node> = Vec::new();
            assert(trees_of(list@) == Seq::<Tree>::empty());
            Ok((list, false, pos))
        } else if self.sees_word(pos, "self") {
            if self.sees(pos + 1, &Type::Conma) {
                match self.items_at(pos + 2) {
                    Err(e) => Err(e),
                    Ok((list, next)) => Ok((list, true, next)),
                }
            } else {
                let list: Vec<Node> = Vec::new();
                assert(trees_of(list@) == Seq::<Tree>::empty());
                Ok((list, true, pos + 1))
            }
        } else {
            match self.items_at(pos) {
                Err(e) => Err(e),
                Ok((list, next)) => Ok((list, false, next)),
            }
        }
    }

    fn function_at(&self, pos: usize) -> (out: Result<(Node, usize), SyntaxError>)
        ensures
            yields(out, pos, self.tokens@.len(), grammar::function(self.stream(), pos as int)),
            out matches Ok((_, next)) ==> pos < next,
    {
        reveal(grammar::function);
        if self.name_at(pos).is_none() {
            return missing(Expected::Identifier);
        }
        if !self.sees(pos + 1, &Type::Colon) {
            return missing(Expected::Colon);
        }
        if self.name_at(pos + 2).is_none() {
            return missing(Expected::Identifier);
        }
        if !self.sees(pos + 3, &Type::LParen) {
            return missing(Expected::LParen);
        }
        match self.params_at(pos + 4) {
            Err(e) => Err(e),
            Ok((params, is_menber, next)) => {
                if !self.sees(next, &Type::RParen) {
                    missing(Expected::RParen)
                } else if !self.sees(next + 1, &Type::Equal) {
                    missing(Expected::Equal)
                } else {
                    match self.block_at(next + 2) {
                        Err(e) => Err(e),
                        Ok((body, end)) => Ok(
                            (
                                node(
                                    NodeKind::Function {
                                        params,
                                        body: Box::new(body),
                                        function_type: self.tokens[pos].duplicate(),
                                        function_name: self.tokens[pos + 2].duplicate(),
                                        is_menber,
                                    },
                                ),
                                end,
                            ),
                        ),
                    }
                }
            },
        }
    }

    fn members_at(&self, pos: usize) -> (out: Result<(Vec<Node>, usize), SyntaxError>)
        ensures
            yields_list(out, pos, self.tokens@.len(), grammar::members(self.stream(), pos as int)),
    {
        let mut list: Vec<Node> = Vec::new();
        let mut cur: usize = pos;
        loop
            invariant
                pos <= cur,
                grammar::members(self.stream(), pos as int) == extend(
                    trees_of(list@),
                    (cur - pos) as nat,
                    grammar::members(self.stream(), cur as int),
                ),
            decreases self.tokens@.len() - cur,
        {
            match self.peek(cur) {
                None => {
                    return missing(Expected::RBraces);
                },
                Some(Type::Enter) => {
                    cur = cur + 1;
                },
                Some(Type::RBraces) => {
                    return Ok((list, cur + 1));
                },
                Some(_) => match self.function_at(cur) {
                    Err(e) => {
                        return Err(e);
                    },
                    Ok((item, next)) => {
                        proof {
                            lemma_trees_push(list@, item);
                            lemma_extend_cons(
                                trees_of(list@),
                                (cur - pos) as nat,
                                item@,
                                (next - cur) as nat,
                                grammar::members(self.stream(), next as int),
                            );
                        }
                        list.push(item);
                        cur = next;
                    },
                },
            }
        }
    }

    fn class_at(&self, pos: usize) -> (out: Result<(Node, usize), SyntaxError>)
        ensures
            yields(out, pos, self.tokens@.len(), grammar::class(self.stream(), pos as int)),
            out matches Ok((_, next)) ==> pos < next,
    {
        if pos >= self.tokens.len() {
            return missing(Expected::Identifier);
        }
        match self.name_at(pos + 1) {
            None => missing(Expected::Identifier),
            Some(class_name) => {
                if !self.sees(pos + 2, &Type::Equal) {
                    missing(Expected::Equal)
                } else if !self.sees(pos + 3, &Type::LBraces) {
                    missing(Expected::LBraces)
                } else {
                    match self.members_at(pos + 4) {
                        Err(e) => Err(e),
                        Ok((menbers, next)) => Ok(
                            (
                                node(NodeKind::Class { class_name: class_name.clone(), menbers }),
                                next,
                            ),
                        ),
                    }
                }
            },
        }
    }

    fn import_at(&self, pos: usize) -> (out: Result<(Node, usize), SyntaxError>)
        ensures
            yields(out, pos, self.tokens@.len(), grammar::import(self.stream(), pos as int)),
            out matches Ok((_, next)) ==> pos < next,
    {
        if pos >= self.tokens.len() {
            return missing(Expected::Identifier);
        }
        match self.name_at(pos + 1) {
            None => missing(Expected::Identifier),
            Some(name) => Ok((node(NodeKind::Import(name.clone())), pos + 2)),
        }
    }

    fn breaks_end(&self, pos: usize) -> (end: usize)
        requires
            pos <= self.tokens@.len(),
        ensures
            end == pos + grammar::breaks(self.stream(), pos as int),
            pos <= end <= self.tokens@.len(),
    {
        let mut end: usize = pos;
        while self.sees(end, &Type::Enter)
            invariant
                pos <= end <= self.tokens@.len(),
                pos + grammar::breaks(self.stream(), pos as int) == end + grammar::breaks(
                    self.stream(),
                    end as int,
                ),
            decreases self.tokens@.len() - end,
        {
            end = end + 1;
        }
        end
    }

    fn language_at(&self, pos: usize) -> (out: Result<(Node, usize), SyntaxError>)
        ensures
            yields(out, pos, self.tokens@.len(), grammar::language(self.stream(), pos as int)),
            out matches Ok((_, next)) ==> pos < next,
    {
        if pos >= self.tokens.len() || !self.sees(pos + 1, &Type::Colon) {
            return missing(Expected::Colon);
        }
        if self.name_at(pos + 2).is_none() {
            return missing(Expected::Identifier);
        }
        if !self.sees(pos + 3, &Type::Equal) {
            return missing(Expected::Equal);
        }
        if !self.sees(pos + 4, &Type::LBraces) {
            return missing(Expected::LBraces);
        }
        let text_at = self.breaks_end(pos + 5);
        match self.peek(text_at) {
            Some(Type::DoubleQuotation(raw_data)) => {
                let close_at = self.breaks_end(text_at + 1);
                if self.sees(close_at, &Type::RBraces) {
                    Ok(
                        (
                            node(
                                NodeKind::RawLanguage {
                                    language_type: RAW_DATA_TYPE_PYTHON,
                                    raw_data: raw_data.clone(),
                                },
                            ),
                            close_at + 1,
                        ),
                    )
                } else {
                    missing(Expected::RBraces)
                }
            },
            _ => missing(Expected::DoubleQuotation),
        }
    }

    fn which_at(&self, pos: usize) -> (which: Definition)
        ensures
            which == definition_at(self.stream(), pos as int),
    {
        if self.sees_word(pos, "import") {
            Definition::Import
        } else if self.sees_word(pos, "class") {
            Definition::Class
        } else if self.sees_word(pos, "language") {
            Definition::Language
        } else {
            Definition::Function
        }
    }

    fn definition(&self, pos: usize) -> (out: Result<(Node, usize), SyntaxError>)
        ensures
            yields(out, pos, self.tokens@.len(), grammar::definition(self.stream(), pos as int)),
            out matches Ok((_, next)) ==> pos < next,
    {
        reveal(grammar::definition);
        match self.which_at(pos) {
            Definition::Import => self.import_at(pos),
            Definition::Class => self.class_at(pos),
            Definition::Language => self.language_at(pos),
            Definition::Function => self.function_at(pos),
        }
    }

    fn program_at(&self, pos: usize) -> (out: Result<(Vec<Node>, usize), SyntaxError>)
        requires
            pos <= self.tokens@.len(),
        ensures
            yields_list(out, pos, self.tokens@.len(), grammar::program(self.stream(), pos as int)),
            out matches Ok((_, next)) ==> next == self.tokens@.len() <= usize::MAX,
    {
        let mut list: Vec<Node> = Vec::new();
        let mut cur: usize = pos;
        loop
            invariant
                pos <= cur <= self.tokens@.len(),
                grammar::program(self.stream(), pos as int) == extend(
                    trees_of(list@),
                    (cur - pos) as nat,
                    grammar::program(self.stream(), cur as int),
                ),
            decreases self.tokens@.len() - cur,
        {
            match self.peek(cur) {
                None => {
                    return Ok((list, cur));
                },
                Some(Type::Enter) => {
                    cur = cur + 1;
                },
                Some(_) => match self.definition(cur) {
                    Err(e) => {
                        return Err(e);
                    },
                    Ok((item, next)) => {
                        proof {
                            lemma_trees_push(list@, item);
                            lemma_extend_cons(
                                trees_of(list@),
                                (cur - pos) as nat,
                                item@,
                                (next - cur) as nat,
                                grammar::program(self.stream(), next as int),
                            );
                        }
                        list.push(item);
                        cur = next;
                    },
                },
            }
        }
    }

    fn settle(&mut self, out: Result<(Node, usize), SyntaxError>) -> (result: Result<
        Node,
        SyntaxError,
    >)
        requires
            out matches Ok((_, next)) ==> next <= old(self).tokens@.len(),
        ensures
            final(self).tokens == old(self).tokens,
            final(self).now_function_is_menber == old(self).now_function_is_menber,
            match out {
                Ok((node, next)) => result == Ok::<Node, SyntaxError>(node) && final(self).pos
                    == next,
                Err(e) => result == Err::<Node, SyntaxError>(e) && final(self).pos == old(
                    self,
                ).pos,
            },
    {
        match out {
            Ok((node, next)) => {
                self.pos = next;
                Ok(node)
            },
            Err(e) => Err(e),
        }
    }

    /// The token `index` places from the cursor, counting the token at the
    /// cursor as the first; `None` where the tokens end before it.
    pub fn sheek_token(&self, index: i32) -> (token: Option<Type>)
        ensures
            match token {
                Some(t) => at(self.stream(), self.cursor() + ahead(index)) == Some(t@),
                None => at(self.stream(), self.cursor() + ahead(index)).is_none(),
            },
    {
        self.safety_sheek_token(self.position(), index)
    }

    /// The token `index` places from `from`, counting the token at `from` as
    /// the first; `None` where the tokens end before it.
    pub fn safety_sheek_token(&self, from: usize, index: i32) -> (token: Option<Type>)
        ensures
            match token {
                Some(t) => at(self.stream(), from + ahead(index)) == Some(t@),
                None => at(self.stream(), from + ahead(index)).is_none(),
            },
    {
        let offset: usize = if index <= 1 {
            0
        } else {
            (index - 1) as usize
        };
        if from < self.tokens.len() && offset < self.tokens.len() - from {
            Some(self.tokens[from + offset].duplicate())
        } else {
            None
        }
    }

    /// Moves past the token at the cursor if it is `expect_token`, and says
    /// whether it did.
    pub fn skip(&mut self, expect_token: &Type) -> (skipped: bool)
        ensures
            final(self).stream() == old(self).stream(),
            final(self).member() == old(self).member(),
            skipped == holds(old(self).stream(), old(self).cursor(), expect_token@),
            final(self).cursor() == old(self).cursor() + if skipped {
                1int
            } else {
                0int
            },
    {
        if self.sees(self.pos, expect_token) {
            self.pos = self.pos + 1;
            true
        } else {
            false
        }
    }

    /// Moves past the line breaks at the cursor and says which definition
    /// follows them, or `None` at the end of the tokens.
    pub fn enter_skip(&mut self) -> (which: Option<Definition>)
        ensures
            final(self).stream() == old(self).stream(),
            final(self).member() == old(self).member(),
            final(self).cursor() == old(self).cursor() + grammar::breaks(
                old(self).stream(),
                old(self).cursor(),
            ),
            which == if at(final(self).stream(), final(self).cursor()).is_none() {
                None
            } else {
                Some(definition_at(final(self).stream(), final(self).cursor()))
            },
    {
        proof {
            use_type_invariant(&*self);
        }
        let end = self.breaks_end(self.pos);
        self.pos = end;
        if self.peek(end).is_none() {
            None
        } else {
            Some(self.which_at(end))
        }
    }

    /// The identifier at the cursor as a node; the cursor stays where it is.
    pub fn word(&self) -> (result: Result<Node, SyntaxError>)
        ensures
            match word_at(self.stream(), self.cursor()) {
                Some(word) => result matches Ok(node) && node@ == Tree::Str(word),
                None => result == Err::<Node, SyntaxError>(
                    SyntaxError { expected: Expected::Identifier },
                ),
            },
    {
        match self.name_at(self.pos) {
            Some(word) => Ok(node(NodeKind::Str(word.clone()))),
            None => missing(Expected::Identifier),
        }
    }

    /// `literal := string | number | name`
    pub fn number(&mut self) -> (result: Result<Node, SyntaxError>)
        ensures
            final(self).member() == old(self).member(),
            settled(
                *old(self),
                *final(self),
                result,
                grammar::literal(old(self).stream(), old(self).cursor()),
            ),
    {
        let out = self.literal_at(self.pos);
        self.settle(out)
    }

    /// `call := name [ '(' [ items ] ')' ] | literal`
    pub fn call_function(&mut self) -> (result: Result<Node, SyntaxError>)
        ensures
            final(self).member() == old(self).member(),
            settled(
                *old(self),
                *final(self),
                result,
                grammar::call(old(self).stream(), old(self).cursor()),
            ),
    {
        let out = self.call_at(self.pos);
        self.settle(out)
    }

    /// `binary := call [ ( '*' | '/' | '+' | '-' ) binary ]`
    pub fn binary_op(&mut self) -> (result: Result<Node, SyntaxError>)
        ensures
            final(self).member() == old(self).member(),
            settled(
                *old(self),
                *final(self),
                result,
                grammar::binary(old(self).stream(), old(self).cursor()),
            ),
    {
        let out = self.binary_at(self.pos);
        self.settle(out)
    }

    /// `boolean := reserv [ ( '>' | '<' ) boolean ]`
    pub fn boolean(&mut self) -> (result: Result<Node, SyntaxError>)
        ensures
            final(self).member() == old(self).member(),
            settled(
                *old(self),
                *final(self),
                result,
                grammar::boolean(old(self).stream(), old(self).cursor()),
            ),
    {
        let out = self.boolean_at(self.pos);
        self.settle(out)
    }

    /// The statement or expression at the cursor, without its `;`.
    pub fn reserv(&mut self) -> (result: Result<Node, SyntaxError>)
        ensures
            final(self).member() == old(self).member(),
            settled(
                *old(self),
                *final(self),
                result,
                grammar::reserv(old(self).stream(), old(self).cursor()),
            ),
    {
        let out = self.reserv_at(self.pos);
        self.settle(out)
    }

    /// `statement := { Enter } reserv ';'`
    pub fn expr(&mut self) -> (result: Result<Node, SyntaxError>)
        ensures
            final(self).member() == old(self).member(),
            settled(
                *old(self),
                *final(self),
                result,
                grammar::statement(old(self).stream(), old(self).cursor()),
            ),
    {
        let out = self.statement_at(self.pos);
        self.settle(out)
    }

    /// `block := '{' { Enter | reserv ';' } '}'`
    pub fn body(&mut self) -> (result: Result<Node, SyntaxError>)
        ensures
            final(self).member() == old(self).member(),
            settled(
                *old(self),
                *final(self),
                result,
                grammar::block(old(self).stream(), old(self).cursor()),
            ),
    {
        let out = self.block_at(self.pos);
        self.settle(out)
    }

    /// `params := [ 'self' [ ',' items ] | items ]`: the parameters of a
    /// function definition, up to its `)`. A leading `self` is not in the
    /// list; the parser remembers whether there was one.
    pub fn argument(&mut self) -> (result: Result<Vec<Node>, SyntaxError>)
        ensures
            final(self).stream() == old(self).stream(),
            match grammar::params(old(self).stream(), old(self).cursor()) {
                Ok(((list, member), used)) => {
                    &&& result matches Ok(nodes) && trees_of(nodes@) == list
                    &&& final(self).cursor() == old(self).cursor() + used
                    &&& final(self).member() == member
                },
                Err(e) => {
                    &&& result == Err::<Vec<Node>, SyntaxError>(e)
                    &&& final(self).cursor() == old(self).cursor()
                    &&& final(self).member() == old(self).member()
                },
            },
    {
        proof {
            use_type_invariant(&*self);
        }
        match self.params_at(self.pos) {
            Ok((list, member, next)) => {
                self.pos = next;
                self.now_function_is_menber = member;
                Ok(list)
            },
            Err(e) => Err(e),
        }
    }

    /// `function := name ':' name '(' params ')' '<-' block`
    ///
    /// Afterwards the parser no longer remembers a leading `self`.
    pub fn function(&mut self) -> (result: Result<Node, SyntaxError>)
        ensures
            settled(
                *old(self),
                *final(self),
                result,
                grammar::function(old(self).stream(), old(self).cursor()),
            ),
            final(self).member() == (result is Err && old(self).member()),
    {
        let out = self.function_at(self.pos);
        let result = self.settle(out);
        if result.is_ok() {
            self.now_function_is_menber = false;
        }
        result
    }

    /// `class := 'class' name '<-' '{' { Enter | function } '}'`, with the
    /// cursor at the word `class`.
    pub fn class(&mut self) -> (result: Result<Node, SyntaxError>)
        ensures
            final(self).member() == old(self).member(),
            settled(
                *old(self),
                *final(self),
                result,
                grammar::class(old(self).stream(), old(self).cursor()),
            ),
    {
        let out = self.class_at(self.pos);
        self.settle(out)
    }

    /// `import := 'import' name`, with the cursor at the word `import`.
    pub fn import(&mut self) -> (result: Result<Node, SyntaxError>)
        ensures
            final(self).member() == old(self).member(),
            settled(
                *old(self),
                *final(self),
                result,
                grammar::import(old(self).stream(), old(self).cursor()),
            ),
    {
        let out = self.import_at(self.pos);
        self.settle(out)
    }

    /// `language := 'language' ':' name '<-' '{' { Enter } string { Enter } '}'`,
    /// with the cursor at the word `language`.
    pub fn macro_raw_data(&mut self) -> (result: Result<Node, SyntaxError>)
        ensures
            final(self).member() == old(self).member(),
            settled(
                *old(self),
                *final(self),
                result,
                grammar::language(old(self).stream(), old(self).cursor()),
            ),
    {
        let out = self.language_at(self.pos);
        self.settle(out)
    }

    /// The tree of the whole token sequence, read from its start wherever the
    /// cursor stands. On success the cursor is at the end.
    pub fn root(&mut self) -> (result: Result<Node, SyntaxError>)
        ensures
            final(self).stream() == old(self).stream(),
            final(self).member() == old(self).member(),
            match grammar::root(old(self).stream()) {
                Ok(tree) => {
                    &&& result matches Ok(node) && node@ == tree
                    &&& final(self).cursor() == old(self).stream().len()
                },
                Err(e) => result == Err::<Node, SyntaxError>(e) && final(self).cursor() == old(
                    self,
                ).cursor(),
            },
    {
        match self.program_at(0) {
            Ok((function_define_s, next)) => {
                self.pos = next;
                Ok(node(NodeKind::Root { function_define_s }))
            },
            Err(e) => Err(e),
        }
    }
}

} // verus!
