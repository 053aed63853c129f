//! A second generator: writes the same trees as C-like text.
//!
//! It shares the state and the resolution of names with the Python
//! generator and differs in what it writes: blocks stand in braces,
//! statements end with `;`, and a declaration or a function begins with its
//! type. Member chains, imports, loops, classes and raw blocks have no C
//! form and are not written.
use vstd::hash_map::StringHashMap;
use vstd::prelude::*;
use vstd::string::StringExecFns;

use crate::emission::{
    continues, identifier_of, indent, lemma_continues_chain, names, symbol, Emission,
    Indentation, ResolutionError, Role,
};
use crate::parse::{trees_of, Node, NodeKind, Tree};
use crate::text::{decimal, decimal_text};
use crate::token::Type;

verus! {

/// The state after `tree` has been written out as C in state `s`.
///
/// A reference to a function is written with its arguments in parentheses,
/// a reference to any other declared name as the bare name; an undeclared
/// name is written bare and recorded as unresolved.
pub open spec fn c_step(s: Emission, tree: Tree) -> Emission
    decreases tree, 0nat,
{
    match tree {
        Tree::Num(value) => s.write(decimal_text(value)),
        Tree::Str(word) => s.name(word).write(word),
        Tree::Pass(_) => s.write("pass"@),
        Tree::BinaryOp { op, lhs, rhs } => c_step(c_step(s, *lhs).write(symbol(op)), *rhs),
        Tree::Compare { lhs, op, rhs } => c_step(c_step(s, *lhs).write(symbol(op)), *rhs),
        Tree::Block(list) => {
            let inner = c_each(s.at_depth(s.depth + 1).write("{\n"@), list, 0);
            inner.at_depth(s.depth).write(indent(s.depth)).write("}\n"@)
        },
        Tree::Let { v_name, v_type, v_formula, this_is_define } => {
            let named = s.name(v_name).write(v_type).write(" "@).write(v_name);
            if this_is_define {
                c_step(named.declare(v_name, Role::Variable).write(" = "@), *v_formula)
            } else {
                c_step(named, *v_formula)
            }
        },
        Tree::If { cond, then, elif_then, else_then } => c_step(
            c_step(s.write("if ("@), *cond).write(") "@),
            *then,
        ),
        Tree::Function { params, body, function_type, function_name, is_menber } => {
            let name = identifier_of(function_name);
            let head = s.declare(name, Role::Function).write(identifier_of(function_type)).write(
                " "@,
            ).write(name).write("("@);
            c_step(c_listed(head, params, 0).write(") "@), *body)
        },
        Tree::Call { function_name, args } => {
            let named = s.write(function_name);
            if !s.roles.contains_key(function_name) {
                named.miss(function_name)
            } else if s.roles[function_name] == Role::Function {
                c_listed(named.write("("@), args, 0).write(")"@)
            } else {
                named
            }
        },
        Tree::Return(value) => c_step(s.write("return "@), *value),
        Tree::Expr { reserv } => c_step(s.write(indent(s.depth)), *reserv).write(";\n"@),
        Tree::Root { function_define_s } => c_each(s, function_define_s, 0),
        _ => s,
    }
}

/// The state after the trees of `list` from index `from` on have been written
/// out as C one after the other.
pub open spec fn c_each(s: Emission, list: Seq<Tree>, from: int) -> Emission
    decreases list, list.len() - from,
{
    if 0 <= from < list.len() {
        c_each(c_step(s, list[from]), list, from + 1)
    } else {
        s
    }
}

/// The state after the parameters or arguments of `list` from index `from` on
/// have been written out as C, separated by `, `. After each of them the
/// identifier written last is declared a variable.
pub open spec fn c_listed(s: Emission, list: Seq<Tree>, from: int) -> Emission
    decreases list, list.len() - from,
{
    if 0 <= from < list.len() {
        let shown = c_step(s, list[from]);
        let noted = shown.declare(shown.current, Role::Variable);
        if from + 1 < list.len() {
            c_listed(noted.write(", "@), list, from + 1)
        } else {
            c_listed(noted, list, from + 1)
        }
    } else {
        s
    }
}

/// The C text of a whole program, or the names that were used without a
/// declaration.
pub open spec fn c_output(root: Tree) -> Result<Seq<char>, Seq<Seq<char>>> {
    let done = c_step(Emission::start(), root);
    if done.resolved() {
        Ok(done.text)
    } else {
        Err(done.unresolved)
    }
}

proof fn lemma_c_step_onward(early: Emission, middle: Emission, tree: Tree)
    requires
        continues(early, middle),
        continues(middle, c_step(middle, tree)),
    ensures
        continues(early, c_step(middle, tree)),
{
}

/// Writing C never takes anything back: the text and the unresolved names
/// only grow at their end, the table of roles only gains names, and the
/// indentation depth is afterwards what it was before.
pub proof fn lemma_c_step_continues(s: Emission, tree: Tree)
    ensures
        continues(s, c_step(s, tree)),
    decreases tree, 0nat,
{
    match tree {
        Tree::BinaryOp { op, lhs, rhs } => {
            lemma_c_step_continues(s, *lhs);
            let mid = c_step(s, *lhs).write(symbol(op));
            lemma_continues_chain(s, c_step(s, *lhs), mid);
            lemma_c_step_continues(mid, *rhs);
            lemma_c_step_onward(s, mid, *rhs);
        },
        Tree::Compare { lhs, op, rhs } => {
            lemma_c_step_continues(s, *lhs);
            let mid = c_step(s, *lhs).write(symbol(op));
            lemma_continues_chain(s, c_step(s, *lhs), mid);
            lemma_c_step_continues(mid, *rhs);
            lemma_c_step_onward(s, mid, *rhs);
        },
        Tree::Block(list) => {
            let opened = s.at_depth(s.depth + 1).write("{\n"@);
            lemma_c_each_continues(opened, list, 0);
            let inner = c_each(opened, list, 0);
            let back = inner.at_depth(s.depth);
            assert(continues(s, back)) by {
                assert forall|i: int| 0 <= i < s.text.len() implies #[trigger] s.text[i]
                    == back.text[i] by {
                    assert(opened.text[i] == inner.text[i]);
                }
                assert forall|i: int| 0 <= i < s.unresolved.len() implies #[trigger] s.unresolved[i]
                    == back.unresolved[i] by {
                    assert(opened.unresolved[i] == inner.unresolved[i]);
                }
                assert forall|name: Seq<char>| #[trigger]
                    s.roles.contains_key(name) implies back.roles.contains_key(name) by {
                    assert(opened.roles.contains_key(name));
                }
            }
            lemma_continues_chain(s, back, back.write(indent(s.depth)));
            lemma_continues_chain(
                s,
                back.write(indent(s.depth)),
                back.write(indent(s.depth)).write("}\n"@),
            );
        },
        Tree::Let { v_name, v_type, v_formula, this_is_define } => {
            let a = s.name(v_name).write(v_type);
            let b = a.write(" "@);
            let named = b.write(v_name);
            lemma_continues_chain(s, a, b);
            lemma_continues_chain(s, b, named);
            if this_is_define {
                let mid = named.declare(v_name, Role::Variable).write(" = "@);
                lemma_continues_chain(s, named, named.declare(v_name, Role::Variable));
                lemma_continues_chain(s, named.declare(v_name, Role::Variable), mid);
                lemma_c_step_continues(mid, *v_formula);
                lemma_c_step_onward(s, mid, *v_formula);
            } else {
                lemma_c_step_continues(named, *v_formula);
                lemma_c_step_onward(s, named, *v_formula);
            }
        },
        Tree::If { cond, then, elif_then, else_then } => {
            let opened = s.write("if ("@);
            lemma_c_step_continues(opened, *cond);
            lemma_c_step_onward(s, opened, *cond);
            let mid = c_step(opened, *cond).write(") "@);
            lemma_continues_chain(s, c_step(opened, *cond), mid);
            lemma_c_step_continues(mid, *then);
            lemma_c_step_onward(s, mid, *then);
        },
        Tree::Function { params, body, function_type, function_name, is_menber } => {
            let name = identifier_of(function_name);
            let a = s.declare(name, Role::Function);
            let b = a.write(identifier_of(function_type));
            let c = b.write(" "@);
            let d = c.write(name);
            let head = d.write("("@);
            lemma_continues_chain(s, a, b);
            lemma_continues_chain(s, b, c);
            lemma_continues_chain(s, c, d);
            lemma_continues_chain(s, d, head);
            lemma_c_listed_continues(head, params, 0);
            let list = c_listed(head, params, 0);
            lemma_continues_chain(s, head, list);
            let ready = list.write(") "@);
            lemma_continues_chain(s, list, ready);
            lemma_c_step_continues(ready, *body);
            lemma_c_step_onward(s, ready, *body);
        },
        Tree::Call { function_name, args } => {
            let named = s.write(function_name);
            if !s.roles.contains_key(function_name) {
                lemma_continues_chain(s, named, named.miss(function_name));
            } else if s.roles[function_name] == Role::Function {
                let opened = named.write("("@);
                lemma_continues_chain(s, named, opened);
                lemma_c_listed_continues(opened, args, 0);
                let list = c_listed(opened, args, 0);
                lemma_continues_chain(s, opened, list);
                lemma_continues_chain(s, list, list.write(")"@));
            }
        },
        Tree::Return(value) => {
            let opened = s.write("return "@);
            lemma_c_step_continues(opened, *value);
            lemma_c_step_onward(s, opened, *value);
        },
        Tree::Expr { reserv } => {
            let opened = s.write(indent(s.depth));
            lemma_c_step_continues(opened, *reserv);
            lemma_c_step_onward(s, opened, *reserv);
            let shown = c_step(opened, *reserv);
            lemma_continues_chain(s, shown, shown.write(";\n"@));
        },
        Tree::Root { function_define_s } => {
            lemma_c_each_continues(s, function_define_s, 0);
        },
        _ => {},
    }
}

/// [`lemma_c_step_continues`] for a sequence of trees.
pub proof fn lemma_c_each_continues(s: Emission, list: Seq<Tree>, from: int)
    ensures
        continues(s, c_each(s, list, from)),
    decreases list, list.len() - from,
{
    if 0 <= from < list.len() {
        lemma_c_step_continues(s, list[from]);
        lemma_c_each_continues(c_step(s, list[from]), list, from + 1);
        lemma_continues_chain(s, c_step(s, list[from]), c_each(s, list, from));
    }
}

/// [`lemma_c_step_continues`] for a list of parameters or arguments.
pub proof fn lemma_c_listed_continues(s: Emission, list: Seq<Tree>, from: int)
    ensures
        continues(s, c_listed(s, list, from)),
    decreases list, list.len() - from,
{
    if 0 <= from < list.len() {
        lemma_c_step_continues(s, list[from]);
        let shown = c_step(s, list[from]);
        let noted = shown.declare(shown.current, Role::Variable);
        lemma_continues_chain(s, shown, noted);
        if from + 1 < list.len() {
            lemma_continues_chain(s, noted, noted.write(", "@));
            lemma_c_listed_continues(noted.write(", "@), list, from + 1);
            lemma_continues_chain(s, noted.write(", "@), c_listed(s, list, from));
        } else {
            lemma_c_listed_continues(noted, list, from + 1);
            lemma_continues_chain(s, noted, c_listed(s, list, from));
        }
    }
}

/// A generator of C-like text.
#[allow(non_camel_case_types)]
pub struct C_Generator {
    indentation: Indentation,
    source_buf: String,
    get_variable_or_function: StringHashMap<Role>,
    unresolved: Vec<String>,
    now_identifier: String,
}

impl View for C_Generator {
    type V = Emission;

    closed spec fn view(&self) -> Emission {
        Emission {
            text: self.source_buf@,
            depth: self.indentation.depth(),
            roles: self.get_variable_or_function@,
            current: self.now_identifier@,
            unresolved: names(self.unresolved@),
        }
    }
}

impl C_Generator {
    /// A generator that has written nothing yet.
    pub fn new() -> (generator: Self)
        ensures
            generator@ == Emission::start(),
    {
        let generator = Self {
            indentation: Indentation::new(),
            source_buf: String::new(),
            get_variable_or_function: StringHashMap::new(),
            unresolved: Vec::new(),
            now_identifier: String::new(),
        };
        assert(names(generator.unresolved@) == Seq::<Seq<char>>::empty());
        generator
    }

    fn emit(&mut self, text: &str)
        ensures
            final(self)@ == old(self)@.write(text@),
    {
        self.source_buf.append(text);
    }

    fn declare(&mut self, name: String, role: Role)
        ensures
            final(self)@ == old(self)@.declare(name@, role),
    {
        self.get_variable_or_function.insert(name, role);
    }

    fn miss(&mut self, name: String)
        ensures
            final(self)@ == old(self)@.miss(name@),
    {
        let ghost before = names(self.unresolved@);
        self.unresolved.push(name);
        assert(names(self.unresolved@) == before.push(name@));
    }

    /// Writes `data` at the end of the text.
    pub fn add_source_buf(&mut self, data: String)
        ensures
            final(self)@ == old(self)@.write(data@),
    {
        self.emit(data.as_str());
    }

    /// Writes the parameters or arguments of `params`, separated by `, `, and
    /// declares a variable after each: the identifier written last.
    pub fn exec_argument(&mut self, params: &Vec<Node>)
        ensures
            final(self)@ == c_listed(old(self)@, trees_of(params@), 0),
            final(self)@.depth == old(self)@.depth,
        decreases params,
    {
        let ghost trees = trees_of(params@);
        let ghost start = self@;
        let mut i: usize = 0;
        while i < params.len()
            invariant
                i <= params.len(),
                trees == trees_of(params@),
                c_listed(self@, trees, i as int) == c_listed(start, trees, 0),
                self@.depth == start.depth,
            decreases params.len() - i,
        {
            self.generator(&params[i]);
            self.declare(self.now_identifier.clone(), Role::Variable);
            if i + 1 < params.len() {
                self.emit(", ");
            }
            i += 1;
        }
    }

    fn each_of(&mut self, list: &Vec<Node>)
        ensures
            final(self)@ == c_each(old(self)@, trees_of(list@), 0),
            final(self)@.depth == old(self)@.depth,
        decreases list,
    {
        let ghost trees = trees_of(list@);
        let ghost start = self@;
        let mut i: usize = 0;
        while i < list.len()
            invariant
                i <= list.len(),
                trees == trees_of(list@),
                c_each(self@, trees, i as int) == c_each(start, trees, 0),
                self@.depth == start.depth,
            decreases list.len() - i,
        {
            self.generator(&list[i]);
            i += 1;
        }
    }

    /// The text of an identifier token; empty for any other token.
    pub fn get_identifier(&self, type_data: Type) -> (word: String)
        ensures
            word@ == identifier_of(type_data@),
    {
        match type_data {
            Type::Identifier(word) => word,
            _ => String::new(),
        }
    }

    /// The indentation at the present depth.
    pub fn get_indent(&self) -> (spaces: String)
        ensures
            spaces@ == indent(self@.depth),
    {
        self.indentation.spaces()
    }

    fn indented(&mut self) -> (outer: Indentation)
        ensures
            final(self)@ == old(self)@.at_depth(old(self)@.depth + 1),
            outer.depth() == old(self)@.depth,
    {
        let outer = self.indentation.same();
        self.indentation = self.indentation.deeper();
        outer
    }

    fn outdented(&mut self, outer: Indentation)
        ensures
            final(self)@ == old(self)@.at_depth(outer.depth()),
    {
        self.indentation = outer;
    }

    fn operator(op: &Type) -> (text: &'static str)
        ensures
            text@ == symbol(op@),
    {
        match op {
            Type::Greater => ">",
            Type::Less => "<",
            Type::Plus => "+",
            Type::Minus => "-",
            Type::Asterisk => "*",
            Type::Slash => "/",
            _ => {
                let nothing = "";
                proof {
                    reveal_strlit("");
                }
                nothing
            },
        }
    }

    /// Writes `node` out as C.
    pub fn generator(&mut self, node: &Node)
        ensures
            final(self)@ == c_step(old(self)@, node@),
            final(self)@.depth == old(self)@.depth,
        decreases node,
    {
        match &node.kind {
            Some(NodeKind::Num(value)) => {
                let text = decimal(*value);
                self.emit(text.as_str());
            },
            Some(NodeKind::Str(word)) => {
                self.now_identifier = word.clone();
                self.emit(word.as_str());
            },
            Some(NodeKind::Pass(_)) => {
                self.emit("pass");
            },
            Some(NodeKind::BinaryOp { op, lhs, rhs }) => {
                self.generator(&**lhs);
                self.emit(Self::operator(op));
                self.generator(&**rhs);
            },
            Some(NodeKind::Compare { lhs, op, rhs }) => {
                self.generator(&**lhs);
                self.emit(Self::operator(op));
                self.generator(&**rhs);
            },
            Some(NodeKind::Block(list)) => {
                let outer = self.indented();
                self.emit("{\n");
                self.each_of(list);
                self.outdented(outer);
                let spaces = self.get_indent();
                self.emit(spaces.as_str());
                self.emit("}\n");
            },
            Some(NodeKind::Let { v_name, v_type, v_formula, this_is_define }) => {
                self.now_identifier = v_name.clone();
                self.emit(v_type.as_str());
                self.emit(" ");
                self.emit(v_name.as_str());
                if *this_is_define {
                    self.declare(v_name.clone(), Role::Variable);
                    self.emit(" = ");
                }
                self.generator(&**v_formula);
            },
            Some(NodeKind::If { cond, then, elif_then, else_then }) => {
                self.emit("if (");
                self.generator(&**cond);
                self.emit(") ");
                self.generator(&**then);
            },
            Some(NodeKind::Function { params, body, function_type, function_name, is_menber }) => {
                let identifier = self.get_identifier(function_name.duplicate());
                let f_type = self.get_identifier(function_type.duplicate());
                self.declare(identifier.clone(), Role::Function);
                self.emit(f_type.as_str());
                self.emit(" ");
                self.emit(identifier.as_str());
                self.emit("(");
                self.exec_argument(params);
                self.emit(") ");
                self.generator(&**body);
            },
            Some(NodeKind::Call { function_name, args }) => {
                let role = match self.get_variable_or_function.get(function_name.as_str()) {
                    Some(found) => Some(*found),
                    None => None,
                };
                self.emit(function_name.as_str());
                match role {
                    None => {
                        self.miss(function_name.clone());
                    },
                    Some(Role::Function) => {
                        self.emit("(");
                        self.exec_argument(args);
                        self.emit(")");
                    },
                    Some(_) => {},
                }
            },
            Some(NodeKind::Return(value)) => {
                self.emit("return ");
                self.generator(&**value);
            },
            Some(NodeKind::Expr { reserv }) => {
                let spaces = self.get_indent();
                self.emit(spaces.as_str());
                self.generator(&**reserv);
                self.emit(";\n");
            },
            Some(NodeKind::Root { function_define_s }) => {
                self.each_of(function_define_s);
            },
            _ => {},
        }
    }

    /// Whether every name referred to so far had been declared.
    pub fn succeeded(&self) -> (yes: bool)
        ensures
            yes == self@.resolved(),
    {
        self.unresolved.len() == 0
    }

    /// The text written so far.
    pub fn source(&self) -> (text: &str)
        ensures
            text@ == self@.text,
    {
        self.source_buf.as_str()
    }

    /// The role that `name` has at present, if it has one.
    pub fn role_of(&self, name: &str) -> (role: Option<Role>)
        ensures
            role == if self@.roles.contains_key(name@) {
                Some(self@.roles[name@])
            } else {
                None
            },
    {
        match self.get_variable_or_function.get(name) {
            Some(found) => Some(*found),
            None => None,
        }
    }

    /// The text written, or the names that were used without a declaration if
    /// there are any: then no text is given out.
    pub fn finish(self) -> (result: Result<String, ResolutionError>)
        ensures
            match result {
                Ok(text) => self@.resolved() && text@ == self@.text,
                Err(e) => !self@.resolved() && e@ == self@.unresolved,
            },
    {
        if self.unresolved.len() == 0 {
            Ok(self.source_buf)
        } else {
            Err(ResolutionError { names: self.unresolved })
        }
    }
}

} // verus!
