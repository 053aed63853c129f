//! What the generator writes, as mathematics.
//!
//! [`step`] maps the state of a generator and a tree to the state after the
//! tree has been written out. The state holds the text written so far, the
//! indentation depth, the role of every name declared so far, the identifier
//! seen last, and the names that were used without a declaration.
//!
//! Names get their roles while the text is written: a function or a class as
//! soon as its definition is reached, a variable where it is declared with an
//! initialiser or listed as a parameter. A reference is resolved against the
//! roles known at that moment.
use vstd::prelude::*;
use vstd::string::StringExecFns;

use crate::parse::Tree;
use crate::text::decimal_text;
use crate::token::Tok;

verus! {

/// What a declared name stands for.
#[derive(Debug, Clone, Copy, PartialEq, Eq, Structural)]
pub enum Role {
    Variable,
    Function,
    Class,
}

/// The state of a generator.
pub struct Emission {
    /// The text written so far.
    pub text: Seq<char>,
    /// How many blocks enclose what is written next.
    pub depth: nat,
    /// The names declared so far.
    pub roles: Map<Seq<char>, Role>,
    /// The identifier written last.
    pub current: Seq<char>,
    /// The names referred to without a declaration, in the order met.
    pub unresolved: Seq<Seq<char>>,
}

impl Emission {
    /// The state before anything is written.
    pub open spec fn start() -> Emission {
        Emission {
            text: Seq::empty(),
            depth: 0,
            roles: Map::empty(),
            current: Seq::empty(),
            unresolved: Seq::empty(),
        }
    }

    /// `more` written at the end of the text.
    pub open spec fn write(self, more: Seq<char>) -> Emission {
        Emission {
            text: self.text + more,
            depth: self.depth,
            roles: self.roles,
            current: self.current,
            unresolved: self.unresolved,
        }
    }

    /// `name` declared in `role`; an earlier role of the name is forgotten.
    pub open spec fn declare(self, name: Seq<char>, role: Role) -> Emission {
        Emission {
            text: self.text,
            depth: self.depth,
            roles: self.roles.insert(name, role),
            current: self.current,
            unresolved: self.unresolved,
        }
    }

    /// `name` recorded as used without a declaration.
    pub open spec fn miss(self, name: Seq<char>) -> Emission {
        Emission {
            text: self.text,
            depth: self.depth,
            roles: self.roles,
            current: self.current,
            unresolved: self.unresolved.push(name),
        }
    }

    /// `word` remembered as the identifier written last.
    pub open spec fn name(self, word: Seq<char>) -> Emission {
        Emission {
            text: self.text,
            depth: self.depth,
            roles: self.roles,
            current: word,
            unresolved: self.unresolved,
        }
    }

    /// The same state at another depth.
    pub open spec fn at_depth(self, depth: nat) -> Emission {
        Emission {
            text: self.text,
            depth,
            roles: self.roles,
            current: self.current,
            unresolved: self.unresolved,
        }
    }

    /// Whether every name referred to so far had been declared.
    pub open spec fn resolved(self) -> bool {
        self.unresolved.len() == 0
    }
}

/// The texts of a sequence of strings, in order.
pub open spec fn names(list: Seq<String>) -> Seq<Seq<char>> {
    list.map_values(|s: String| s@)
}

/// Names that are referred to before anything declares them, in the order in
/// which the references are met. Where there are any, no text is given out.
#[derive(Debug, Clone, PartialEq, Eq)]
pub struct ResolutionError {
    pub names: Vec<String>,
}

impl View for ResolutionError {
    type V = Seq<Seq<char>>;

    open spec fn view(&self) -> Seq<Seq<char>> {
        names(self.names@)
    }
}

/// The indentation at a depth: four spaces for each level.
pub open spec fn indent(depth: nat) -> Seq<char>
    decreases depth,
{
    if depth == 0 {
        Seq::empty()
    } else {
        indent((depth - 1) as nat) + "    "@
    }
}

/// The indentation at a depth is four characters for each level.
pub proof fn lemma_indent_len(depth: nat)
    ensures
        indent(depth).len() == 4 * depth,
    decreases depth,
{
    reveal_strlit("    ");
    if depth > 0 {
        lemma_indent_len((depth - 1) as nat);
    }
}

/// The indentation of a generator: the text that begins each line at the
/// present depth. The depth is counted by the text itself, four spaces for
/// each level, so that it is bounded by nothing but memory.
pub struct Indentation {
    text: String,
}

impl Indentation {
    #[verifier::type_invariant]
    spec fn counted(self) -> bool {
        self.text@ == indent((self.text@.len() / 4) as nat)
    }

    /// How many levels deep the indentation is.
    pub closed spec fn depth(&self) -> nat {
        (self.text@.len() / 4) as nat
    }

    /// No indentation.
    pub fn new() -> (none: Self)
        ensures
            none.depth() == 0,
    {
        Indentation { text: String::new() }
    }

    /// The indentation one level deeper.
    pub fn deeper(&self) -> (inner: Self)
        ensures
            inner.depth() == self.depth() + 1,
    {
        proof {
            use_type_invariant(self);
            lemma_indent_len(self.depth());
            lemma_indent_len(self.depth() + 1);
        }
        let mut text = self.text.clone();
        text.append("    ");
        Indentation { text }
    }

    /// The same indentation once more.
    pub fn same(&self) -> (copy: Self)
        ensures
            copy.depth() == self.depth(),
    {
        proof {
            use_type_invariant(self);
        }
        Indentation { text: self.text.clone() }
    }

    /// The text of the indentation.
    pub fn spaces(&self) -> (text: String)
        ensures
            text@ == indent(self.depth()),
    {
        proof {
            use_type_invariant(self);
        }
        self.text.clone()
    }
}

/// How an operator is written; a token that is no operator is not written.
pub open spec fn symbol(op: Tok) -> Seq<char> {
    match op {
        Tok::Greater => ">"@,
        Tok::Less => "<"@,
        Tok::Plus => "+"@,
        Tok::Minus => "-"@,
        Tok::Asterisk => "*"@,
        Tok::Slash => "/"@,
        _ => Seq::empty(),
    }
}

/// The text of an identifier token; empty for any other token.
pub open spec fn identifier_of(token: Tok) -> Seq<char> {
    match token {
        Tok::Identifier(word) => word,
        _ => Seq::empty(),
    }
}

/// Whether a function of this name is written as the constructor of a class.
pub open spec fn constructor(name: Seq<char>) -> bool {
    name == "_init_"@
}

/// The beginning of a function definition, up to its parameters: the name is
/// declared a function, then the line is begun with `def`, the name and `(`.
/// The constructor is written as `__init__`; a member gets `self` as its
/// first parameter.
pub open spec fn opening(s: Emission, function_name: Tok, is_menber: bool, more: bool) -> Emission {
    let name = identifier_of(function_name);
    let head = s.declare(name, Role::Function).write(indent(s.depth)).write("def "@).write(
        if constructor(name) {
            "__init__"@
        } else {
            name
        },
    ).write("("@);
    if !is_menber {
        head
    } else if more {
        head.write("self"@).write(", "@)
    } else {
        head.write("self"@)
    }
}

/// The end of the first line of a function definition, after its parameters:
/// `)`, the return type unless the function is the constructor, and `:`.
pub open spec fn closing(s: Emission, function_type: Tok, function_name: Tok) -> Emission {
    if constructor(identifier_of(function_name)) {
        s.write(")"@).write(":\n"@)
    } else {
        s.write(") -> "@).write(identifier_of(function_type)).write(":\n"@)
    }
}

/// The state after `tree` has been written out in state `s`.
///
/// A reference to a name is written according to the role that the name has
/// at that moment: a variable as the bare name; a function or a class with
/// its arguments in parentheses; an undeclared name like a function, and the
/// name is recorded as unresolved. The root ends with a call of `main`,
/// unless a name was unresolved.
pub open spec fn step(s: Emission, tree: Tree) -> Emission
    decreases tree, 0nat,
{
    match tree {
        Tree::Absent => s,
        Tree::Num(value) => s.write(decimal_text(value)),
        Tree::Str(word) => s.name(word).write(word),
        Tree::Pass(_) => s.write("pass"@),
        Tree::BinaryOp { op, lhs, rhs } => step(step(s, *lhs).write(symbol(op)), *rhs),
        Tree::Compare { lhs, op, rhs } => step(step(s, *lhs).write(symbol(op)), *rhs),
        Tree::CallMenber { now_menber_name, next } => step(
            s.write(now_menber_name).write("."@),
            *next,
        ),
        Tree::Block(list) => each(s.at_depth(s.depth + 1), list, 0).at_depth(s.depth),
        Tree::Import(name) => s.write("import "@).write(name).write("\n"@),
        Tree::Let { v_name, v_type, v_formula, this_is_define } => {
            let named = s.name(v_name).write(v_name);
            if this_is_define {
                step(named.declare(v_name, Role::Variable).write(" = "@), *v_formula)
            } else {
                step(named, *v_formula)
            }
        },
        Tree::If { cond, then, elif_then, else_then } => {
            let first = step(step(s.write("if "@), *cond).write(":\n"@), *then);
            let second = match elif_then {
                Some(list) => each(first, list, 0),
                None => first,
            };
            match else_then {
                Some(branch) => step(second.write(indent(second.depth)).write("else:\n"@), *branch),
                None => second,
            }
        },
        Tree::Elif { cond, then, else_then } => {
            let first = step(
                step(s.write(indent(s.depth)).write("elif "@), *cond).write(":\n"@),
                *then,
            );
            match else_then {
                Some(branch) => step(first.write(indent(first.depth)).write("else:\n"@), *branch),
                None => first,
            }
        },
        Tree::While { cond, body } => step(step(s.write("while "@), *cond).write(":\n"@), *body),
        Tree::Function { params, body, function_type, function_name, is_menber } => step(
            closing(
                listed(opening(s, function_name, is_menber, params.len() > 0), params, 0),
                function_type,
                function_name,
            ),
            *body,
        ).write("\n\n"@),
        Tree::Call { function_name, args } => {
            let named = s.write(function_name);
            if !s.roles.contains_key(function_name) {
                listed(named.miss(function_name).write("("@), args, 0).write(")"@)
            } else if s.roles[function_name] == Role::Variable {
                named
            } else {
                listed(named.write("("@), args, 0).write(")"@)
            }
        },
        Tree::Return(value) => step(s.write("return "@), *value),
        Tree::Expr { reserv } => step(s.write(indent(s.depth)), *reserv).write("\n"@),
        Tree::RawLanguage { language_type, raw_data } => s.write(raw_data),
        Tree::Class { class_name, menbers } => each(
            s.declare(class_name, Role::Class).write("class "@).write(class_name).write(
                ":\n"@,
            ).at_depth(s.depth + 1),
            menbers,
            0,
        ).at_depth(s.depth),
        Tree::Root { function_define_s } => {
            let done = each(s, function_define_s, 0);
            if done.resolved() {
                done.write("main()"@)
            } else {
                done
            }
        },
    }
}

/// The state after the trees of `list` from index `from` on have been written
/// out one after the other.
pub open spec fn each(s: Emission, list: Seq<Tree>, from: int) -> Emission
    decreases list, list.len() - from,
{
    if 0 <= from < list.len() {
        each(step(s, list[from]), list, from + 1)
    } else {
        s
    }
}

/// The state after the parameters or arguments of `list` from index `from` on
/// have been written out, separated by `, `. After each of them the
/// identifier written last is declared a variable.
pub open spec fn listed(s: Emission, list: Seq<Tree>, from: int) -> Emission
    decreases list, list.len() - from,
{
    if 0 <= from < list.len() {
        let shown = step(s, list[from]);
        let noted = shown.declare(shown.current, Role::Variable);
        if from + 1 < list.len() {
            listed(noted.write(", "@), list, from + 1)
        } else {
            listed(noted, list, from + 1)
        }
    } else {
        s
    }
}

/// The text of a whole program: what is written for its root from the start
/// state, or the names that were used without a declaration.
pub open spec fn output(root: Tree) -> Result<Seq<char>, Seq<Seq<char>>> {
    let done = step(Emission::start(), root);
    if done.resolved() {
        Ok(done.text)
    } else {
        Err(done.unresolved)
    }
}

/// Whether `late` begins with `early`.
pub open spec fn begins<A>(early: Seq<A>, late: Seq<A>) -> bool {
    &&& early.len() <= late.len()
    &&& forall|i: int| 0 <= i < early.len() ==> #[trigger] early[i] == late[i]
}

/// One state continues another: the text and the unresolved names of `early`
/// are the beginning of those of `late`, every name declared in `early` is
/// declared in `late`, and the depth is the same.
pub open spec fn continues(early: Emission, late: Emission) -> bool {
    &&& begins(early.text, late.text)
    &&& begins(early.unresolved, late.unresolved)
    &&& forall|name: Seq<char>| #[trigger]
        early.roles.contains_key(name) ==> late.roles.contains_key(name)
    &&& early.depth == late.depth
}

/// Where `middle` continues `early` and `late` continues `middle`, `late`
/// continues `early`.
pub proof fn lemma_continues_chain(early: Emission, middle: Emission, late: Emission)
    requires
        continues(early, middle),
        continues(middle, late),
    ensures
        continues(early, late),
{
}

/// Where `middle` continues `early`, so does what is written from `middle`.
proof fn lemma_step_onward(early: Emission, middle: Emission, tree: Tree)
    requires
        continues(early, middle),
        continues(middle, step(middle, tree)),
    ensures
        continues(early, step(middle, tree)),
{
}

/// The beginning of a function definition continues the state before it.
pub proof fn lemma_opening_continues(s: Emission, function_name: Tok, is_menber: bool, more: bool)
    ensures
        continues(s, opening(s, function_name, is_menber, more)),
{
}

/// The end of the first line of a function definition continues the state
/// before it.
pub proof fn lemma_closing_continues(s: Emission, function_type: Tok, function_name: Tok)
    ensures
        continues(s, closing(s, function_type, function_name)),
{
    lemma_continues_chain(s, s.write(")"@), s.write(")"@).write(":\n"@));
    let typed = s.write(") -> "@).write(identifier_of(function_type));
    lemma_continues_chain(s, s.write(") -> "@), typed);
    lemma_continues_chain(s, typed, typed.write(":\n"@));
}

/// Writing never takes anything back: whatever tree is written, the text and
/// the unresolved names only grow at their end, the table of roles only gains
/// names, and the indentation depth is afterwards what it was before.
pub proof fn lemma_step_continues(s: Emission, tree: Tree)
    ensures
        continues(s, step(s, tree)),
    decreases tree, 0nat,
{
    match tree {
        Tree::BinaryOp { op, lhs, rhs } => {
            lemma_step_continues(s, *lhs);
            let mid = step(s, *lhs).write(symbol(op));
            lemma_continues_chain(s, step(s, *lhs), mid);
            lemma_step_continues(mid, *rhs);
            lemma_step_onward(s, mid, *rhs);
        },
        Tree::Compare { lhs, op, rhs } => {
            lemma_step_continues(s, *lhs);
            let mid = step(s, *lhs).write(symbol(op));
            lemma_continues_chain(s, step(s, *lhs), mid);
            lemma_step_continues(mid, *rhs);
            lemma_step_onward(s, mid, *rhs);
        },
        Tree::CallMenber { now_menber_name, next } => {
            let mid = s.write(now_menber_name).write("."@);
            lemma_continues_chain(s, s.write(now_menber_name), mid);
            lemma_step_continues(mid, *next);
            lemma_step_onward(s, mid, *next);
        },
        Tree::Block(list) => {
            let inner = s.at_depth(s.depth + 1);
            lemma_each_continues(inner, list, 0);
            let done = each(inner, list, 0).at_depth(s.depth);
            assert(continues(s, done)) by {
                assert forall|i: int| 0 <= i < s.text.len() implies #[trigger] s.text[i]
                    == done.text[i] by {
                    assert(inner.text[i] == each(inner, list, 0).text[i]);
                }
                assert forall|i: int| 0 <= i < s.unresolved.len() implies #[trigger] s.unresolved[i]
                    == done.unresolved[i] by {
                    assert(inner.unresolved[i] == each(inner, list, 0).unresolved[i]);
                }
                assert forall|name: Seq<char>| #[trigger]
                    s.roles.contains_key(name) implies done.roles.contains_key(name) by {
                    assert(inner.roles.contains_key(name));
                }
            }
        },
        Tree::Import(name) => {
            lemma_continues_chain(s, s.write("import "@), s.write("import "@).write(name));
            lemma_continues_chain(s, s.write("import "@).write(name), step(s, tree));
        },
        Tree::Let { v_name, v_type, v_formula, this_is_define } => {
            let named = s.name(v_name).write(v_name);
            lemma_continues_chain(s, s.name(v_name), named);
            if this_is_define {
                let mid = named.declare(v_name, Role::Variable).write(" = "@);
                lemma_continues_chain(s, named, named.declare(v_name, Role::Variable));
                lemma_continues_chain(s, named.declare(v_name, Role::Variable), mid);
                lemma_step_continues(mid, *v_formula);
                lemma_step_onward(s, mid, *v_formula);
            } else {
                lemma_step_continues(named, *v_formula);
                lemma_step_onward(s, named, *v_formula);
            }
        },
        Tree::If { cond, then, elif_then, else_then } => {
            let opened = s.write("if "@);
            lemma_step_continues(opened, *cond);
            lemma_step_onward(s, opened, *cond);
            let mid = step(opened, *cond).write(":\n"@);
            lemma_continues_chain(s, step(opened, *cond), mid);
            lemma_step_continues(mid, *then);
            lemma_step_onward(s, mid, *then);
            let first = step(mid, *then);
            let second = match elif_then {
                Some(list) => each(first, list, 0),
                None => first,
            };
            match elif_then {
                Some(list) => {
                    lemma_each_continues(first, list, 0);
                    lemma_continues_chain(s, first, second);
                },
                None => {},
            }
            match else_then {
                Some(branch) => {
                    let other = second.write(indent(second.depth)).write("else:\n"@);
                    lemma_continues_chain(s, second, second.write(indent(second.depth)));
                    lemma_continues_chain(s, second.write(indent(second.depth)), other);
                    lemma_step_continues(other, *branch);
                    lemma_step_onward(s, other, *branch);
                },
                None => {},
            }
        },
        Tree::Elif { cond, then, else_then } => {
            let opened = s.write(indent(s.depth)).write("elif "@);
            lemma_continues_chain(s, s.write(indent(s.depth)), opened);
            lemma_step_continues(opened, *cond);
            lemma_step_onward(s, opened, *cond);
            let mid = step(opened, *cond).write(":\n"@);
            lemma_continues_chain(s, step(opened, *cond), mid);
            lemma_step_continues(mid, *then);
            lemma_step_onward(s, mid, *then);
            let first = step(mid, *then);
            match else_then {
                Some(branch) => {
                    let other = first.write(indent(first.depth)).write("else:\n"@);
                    lemma_continues_chain(s, first, first.write(indent(first.depth)));
                    lemma_continues_chain(s, first.write(indent(first.depth)), other);
                    lemma_step_continues(other, *branch);
                    lemma_step_onward(s, other, *branch);
                },
                None => {},
            }
        },
        Tree::While { cond, body } => {
            let opened = s.write("while "@);
            lemma_step_continues(opened, *cond);
            lemma_step_onward(s, opened, *cond);
            let mid = step(opened, *cond).write(":\n"@);
            lemma_continues_chain(s, step(opened, *cond), mid);
            lemma_step_continues(mid, *body);
            lemma_step_onward(s, mid, *body);
        },
        Tree::Function { params, body, function_type, function_name, is_menber } => {
            let own = opening(s, function_name, is_menber, params.len() > 0);
            lemma_opening_continues(s, function_name, is_menber, params.len() > 0);
            lemma_listed_continues(own, params, 0);
            let list = listed(own, params, 0);
            lemma_continues_chain(s, own, list);
            let ready = closing(list, function_type, function_name);
            lemma_closing_continues(list, function_type, function_name);
            lemma_continues_chain(s, list, ready);
            lemma_step_continues(ready, *body);
            lemma_step_onward(s, ready, *body);
            lemma_continues_chain(s, step(ready, *body), step(ready, *body).write("\n\n"@));
        },
        Tree::Call { function_name, args } => {
            let named = s.write(function_name);
            if !s.roles.contains_key(function_name) {
                let opened = named.miss(function_name).write("("@);
                lemma_continues_chain(s, named, named.miss(function_name));
                lemma_continues_chain(s, named.miss(function_name), opened);
                lemma_listed_continues(opened, args, 0);
                let list = listed(opened, args, 0);
                lemma_continues_chain(s, opened, list);
                lemma_continues_chain(s, list, list.write(")"@));
            } else if s.roles[function_name] == Role::Variable {
            } else {
                let opened = named.write("("@);
                lemma_continues_chain(s, named, opened);
                lemma_listed_continues(opened, args, 0);
                let list = listed(opened, args, 0);
                lemma_continues_chain(s, opened, list);
                lemma_continues_chain(s, list, list.write(")"@));
            }
        },
        Tree::Return(value) => {
            let opened = s.write("return "@);
            lemma_step_continues(opened, *value);
            lemma_step_onward(s, opened, *value);
        },
        Tree::Expr { reserv } => {
            let opened = s.write(indent(s.depth));
            lemma_step_continues(opened, *reserv);
            lemma_step_onward(s, opened, *reserv);
            lemma_continues_chain(s, step(opened, *reserv), step(opened, *reserv).write("\n"@));
        },
        Tree::Class { class_name, menbers } => {
            let a = s.declare(class_name, Role::Class);
            let b = a.write("class "@);
            let c = b.write(class_name);
            let d = c.write(":\n"@);
            lemma_continues_chain(s, a, b);
            lemma_continues_chain(s, b, c);
            lemma_continues_chain(s, c, d);
            let inner = d.at_depth(s.depth + 1);
            lemma_each_continues(inner, menbers, 0);
            let done = each(inner, menbers, 0).at_depth(s.depth);
            assert(continues(d, done)) by {
                assert forall|i: int| 0 <= i < d.text.len() implies #[trigger] d.text[i]
                    == done.text[i] by {
                    assert(inner.text[i] == each(inner, menbers, 0).text[i]);
                }
                assert forall|i: int| 0 <= i < d.unresolved.len() implies #[trigger] d.unresolved[i]
                    == done.unresolved[i] by {
                    assert(inner.unresolved[i] == each(inner, menbers, 0).unresolved[i]);
                }
                assert forall|name: Seq<char>| #[trigger]
                    d.roles.contains_key(name) implies done.roles.contains_key(name) by {
                    assert(inner.roles.contains_key(name));
                }
            }
            lemma_continues_chain(s, d, done);
        },
        Tree::Root { function_define_s } => {
            lemma_each_continues(s, function_define_s, 0);
            let done = each(s, function_define_s, 0);
            lemma_continues_chain(s, done, done.write("main()"@));
        },
        _ => {},
    }
}

/// [`lemma_step_continues`] for a sequence of trees.
pub proof fn lemma_each_continues(s: Emission, list: Seq<Tree>, from: int)
    ensures
        continues(s, each(s, list, from)),
    decreases list, list.len() - from,
{
    if 0 <= from < list.len() {
        lemma_step_continues(s, list[from]);
        lemma_each_continues(step(s, list[from]), list, from + 1);
        lemma_continues_chain(s, step(s, list[from]), each(s, list, from));
    }
}

/// [`lemma_step_continues`] for a list of parameters or arguments.
pub proof fn lemma_listed_continues(s: Emission, list: Seq<Tree>, from: int)
    ensures
        continues(s, listed(s, list, from)),
    decreases list, list.len() - from,
{
    if 0 <= from < list.len() {
        lemma_step_continues(s, list[from]);
        let shown = step(s, list[from]);
        let noted = shown.declare(shown.current, Role::Variable);
        lemma_continues_chain(s, shown, noted);
        if from + 1 < list.len() {
            lemma_continues_chain(s, noted, noted.write(", "@));
            lemma_listed_continues(noted.write(", "@), list, from + 1);
            lemma_continues_chain(s, noted.write(", "@), listed(s, list, from));
        } else {
            lemma_listed_continues(noted, list, from + 1);
            lemma_continues_chain(s, noted, listed(s, list, from));
        }
    }
}

/// A reference to a name that has no role yet is recorded as unresolved.
pub proof fn lemma_undeclared_is_unresolved(s: Emission, function_name: Seq<char>, args: Seq<Tree>)
    requires
        !s.roles.contains_key(function_name),
    ensures
        !step(s, Tree::Call { function_name, args }).resolved(),
{
    let opened = s.write(function_name).miss(function_name).write("("@);
    lemma_listed_continues(opened, args, 0);
}

/// Once a name is unresolved, no text is put out, whatever is written after
/// it: a state that is not resolved stays so.
pub proof fn lemma_unresolved_stays(s: Emission, tree: Tree)
    requires
        !s.resolved(),
    ensures
        !step(s, tree).resolved(),
{
    lemma_step_continues(s, tree);
}

/// A declaration with a number for its initialiser is written as an
/// assignment, and its name is a variable from then on.
pub proof fn lemma_declaration_assigns(
    s: Emission,
    v_name: Seq<char>,
    v_type: Seq<char>,
    value: int,
)
    ensures
        ({
            let done = step(
                s,
                Tree::Let {
                    v_name,
                    v_type,
                    v_formula: Box::new(Tree::Num(value)),
                    this_is_define: true,
                },
            );
            &&& done.text == s.text + v_name + " = "@ + decimal_text(value)
            &&& done.roles == s.roles.insert(v_name, Role::Variable)
            &&& done.unresolved == s.unresolved
            &&& done.depth == s.depth
        }),
{
    let ready = s.name(v_name).write(v_name).declare(v_name, Role::Variable).write(" = "@);
    assert(step(ready, Tree::Num(value)) == ready.write(decimal_text(value)));
}

/// A declaration with an initialiser makes its name known, whatever the
/// initialiser is; one without an initialiser declares nothing.
pub proof fn lemma_declaration_registers(
    s: Emission,
    v_name: Seq<char>,
    v_type: Seq<char>,
    v_formula: Tree,
)
    ensures
        step(
            s,
            Tree::Let { v_name, v_type, v_formula: Box::new(v_formula), this_is_define: true },
        ).roles.contains_key(v_name),
        step(
            s,
            Tree::Let {
                v_name,
                v_type,
                v_formula: Box::new(Tree::Absent),
                this_is_define: false,
            },
        ).roles == s.roles,
{
    let ready = s.name(v_name).write(v_name).declare(v_name, Role::Variable).write(" = "@);
    lemma_step_continues(ready, v_formula);
    assert(ready.roles.contains_key(v_name));
    assert(step(s.name(v_name).write(v_name), Tree::Absent) == s.name(v_name).write(v_name));
}

/// A function is known before anything of it is written: by the time its
/// body is written, and ever after, its name is declared.
pub proof fn lemma_function_is_declared_first(
    s: Emission,
    params: Seq<Tree>,
    body: Tree,
    function_type: Tok,
    function_name: Tok,
    is_menber: bool,
)
    ensures
        opening(s, function_name, is_menber, params.len() > 0).roles[identifier_of(function_name)]
            == Role::Function,
        closing(
            listed(opening(s, function_name, is_menber, params.len() > 0), params, 0),
            function_type,
            function_name,
        ).roles.contains_key(identifier_of(function_name)),
        step(
            s,
            Tree::Function {
                params,
                body: Box::new(body),
                function_type,
                function_name,
                is_menber,
            },
        ).roles.contains_key(identifier_of(function_name)),
{
    let name = identifier_of(function_name);
    let own = opening(s, function_name, is_menber, params.len() > 0);
    assert(own.roles.contains_key(name));
    lemma_listed_continues(own, params, 0);
    let list = listed(own, params, 0);
    let ready = closing(list, function_type, function_name);
    lemma_step_continues(ready, body);
}

/// A reference to a function or a class is written as a call: the name, then
/// the arguments in parentheses. Without arguments it is the name and `()`,
/// and nothing else changes.
pub proof fn lemma_reference_to_function(s: Emission, function_name: Seq<char>, args: Seq<Tree>)
    requires
        s.roles.contains_key(function_name),
        s.roles[function_name] != Role::Variable,
    ensures
        step(s, Tree::Call { function_name, args }) == listed(
            s.write(function_name).write("("@),
            args,
            0,
        ).write(")"@),
        args.len() == 0 ==> step(s, Tree::Call { function_name, args }) == s.write(
            function_name,
        ).write("("@).write(")"@),
{
    let opened = s.write(function_name).write("("@);
    if args.len() == 0 {
        assert(listed(opened, args, 0) == opened);
    }
}

/// A reference to a variable is written as the bare name, whatever arguments
/// it has.
pub proof fn lemma_reference_to_variable(s: Emission, function_name: Seq<char>, args: Seq<Tree>)
    requires
        s.roles.contains_key(function_name),
        s.roles[function_name] == Role::Variable,
    ensures
        step(s, Tree::Call { function_name, args }) == s.write(function_name),
{
}

/// A statement of a block is written on a line of its own, one level deeper
/// than the block stands.
pub proof fn lemma_statement_in_block(s: Emission, inner: Tree)
    ensures
        step(s, Tree::Block(seq![Tree::Expr { reserv: Box::new(inner) }])) == step(
            s.at_depth(s.depth + 1).write(indent(s.depth + 1)),
            inner,
        ).write("\n"@).at_depth(s.depth),
{
    let list = seq![Tree::Expr { reserv: Box::new(inner) }];
    let deeper = s.at_depth(s.depth + 1);
    assert(each(deeper, list, 0) == each(step(deeper, list[0]), list, 1));
}

/// A member function is written one level deeper than its class stands, and
/// so its statements two levels deeper.
pub proof fn lemma_member_in_class(
    s: Emission,
    class_name: Seq<char>,
    params: Seq<Tree>,
    inner: Tree,
    function_type: Tok,
    function_name: Tok,
    is_menber: bool,
)
    ensures
        ({
            let member = Tree::Function {
                params,
                body: Box::new(Tree::Block(seq![Tree::Expr { reserv: Box::new(inner) }])),
                function_type,
                function_name,
                is_menber,
            };
            let inside = s.declare(class_name, Role::Class).write("class "@).write(
                class_name,
            ).write(":\n"@).at_depth(s.depth + 1);
            let head = closing(
                listed(opening(inside, function_name, is_menber, params.len() > 0), params, 0),
                function_type,
                function_name,
            );
            &&& head.depth == s.depth + 1
            &&& step(s, Tree::Class { class_name, menbers: seq![member] }) == step(
                head.at_depth(s.depth + 2).write(indent(s.depth + 2)),
                inner,
            ).write("\n"@).write("\n\n"@).at_depth(s.depth)
        }),
{
    let body = Tree::Block(seq![Tree::Expr { reserv: Box::new(inner) }]);
    let member = Tree::Function {
        params,
        body: Box::new(body),
        function_type,
        function_name,
        is_menber,
    };
    let inside = s.declare(class_name, Role::Class).write("class "@).write(class_name).write(
        ":\n"@,
    ).at_depth(s.depth + 1);
    let own = opening(inside, function_name, is_menber, params.len() > 0);
    lemma_listed_continues(own, params, 0);
    let head = closing(listed(own, params, 0), function_type, function_name);
    lemma_statement_in_block(head, inner);
    let list = seq![member];
    assert(each(inside, list, 0) == each(step(inside, list[0]), list, 1));
}

/// The constructor of a class is written under the name `__init__`, with
/// `self` for its first parameter, and without a return type.
pub proof fn lemma_constructor_is_renamed(s: Emission, function_type: Tok, more: bool)
    ensures
        opening(s, Tok::Identifier("_init_"@), true, false).text == s.text + indent(s.depth)
            + "def "@ + "__init__"@ + "("@ + "self"@,
        opening(s, Tok::Identifier("_init_"@), true, true).text == s.text + indent(s.depth)
            + "def "@ + "__init__"@ + "("@ + "self"@ + ", "@,
        closing(s, function_type, Tok::Identifier("_init_"@)).text == s.text + ")"@ + ":\n"@,
        opening(s, Tok::Identifier("_init_"@), true, more).roles[
            "_init_"@
        ] == Role::Function,
{
}

} // verus!
