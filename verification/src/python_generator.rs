//! The generator: walks a syntax tree and writes Python text.
//!
//! What is written is defined in [`crate::emission`]; [`PythonGenerator::generator`]
//! is proved to leave the generator in exactly the state that
//! [`step`](crate::emission::step) prescribes.
use vstd::hash_map::StringHashMap;
use vstd::prelude::*;
use vstd::string::StringExecFns;

use crate::emission::{
    each, identifier_of, indent, listed, names, step, symbol, Emission, Indentation,
    ResolutionError, Role,
};
use crate::parse::{trees_of, Node, NodeKind};
use crate::text::{chars_of, decimal, reads, string_of};
use crate::token::Type;

verus! {

/// How many characters of `name` from `from` on stand before its first `.`.
pub open spec fn stem_len(name: Seq<char>, from: int) -> nat
    decreases name.len() - from,
{
    if 0 <= from < name.len() && name[from] != '.' {
        1 + stem_len(name, from + 1)
    } else {
        0
    }
}

/// A file name up to its first `.`; the whole name if it has none.
pub open spec fn stem(name: Seq<char>) -> Seq<char> {
    name.subrange(0, stem_len(name, 0) as int)
}

/// The name of the file that the output of `source` goes to: the stem of the
/// source file's name, then `.py`.
pub open spec fn output_name(source: Seq<char>) -> Seq<char> {
    stem(source) + ".py"@
}

/// A generator of Python text.
pub struct PythonGenerator {
    indentation: Indentation,
    source_buf: String,
    get_variable_or_function: StringHashMap<Role>,
    unresolved: Vec<String>,
    now_identifier: String,
    filename: String,
}

impl View for PythonGenerator {
    type V = Emission;

    closed spec fn view(&self) -> Emission {
        Emission {
            text: self.source_buf@,
            depth: self.indentation.depth(),
            roles: self.get_variable_or_function@,
            current: self.now_identifier@,
            unresolved: names(self.unresolved@),
        }
    }
}

impl PythonGenerator {
    /// The name of the source file that the generator was made for.
    pub closed spec fn target(&self) -> Seq<char> {
        self.filename@
    }

    /// A generator that has written nothing yet, for the source file `filename`.
    pub fn new(filename: String) -> (generator: Self)
        ensures
            generator@ == Emission::start(),
            generator.target() == filename@,
    {
        let generator = Self {
            indentation: Indentation::new(),
            source_buf: String::new(),
            get_variable_or_function: StringHashMap::new(),
            unresolved: Vec::new(),
            now_identifier: String::new(),
            filename,
        };
        assert(names(generator.unresolved@) == Seq::<Seq<char>>::empty());
        generator
    }

    fn emit(&mut self, text: &str)
        ensures
            final(self)@ == old(self)@.write(text@),
            final(self).target() == old(self).target(),
    {
        self.source_buf.append(text);
    }

    fn declare(&mut self, name: String, role: Role)
        ensures
            final(self)@ == old(self)@.declare(name@, role),
            final(self).target() == old(self).target(),
    {
        self.get_variable_or_function.insert(name, role);
    }

    fn miss(&mut self, name: String)
        ensures
            final(self)@ == old(self)@.miss(name@),
            final(self).target() == old(self).target(),
    {
        let ghost before = names(self.unresolved@);
        self.unresolved.push(name);
        assert(names(self.unresolved@) == before.push(name@));
    }

    /// Writes `data` at the end of the text.
    pub fn add_source_buf(&mut self, data: String)
        ensures
            final(self)@ == old(self)@.write(data@),
            final(self).target() == old(self).target(),
    {
        self.emit(data.as_str());
    }

    /// Writes the parameters or arguments of `params`, separated by `, `, and
    /// declares a variable after each: the identifier written last.
    pub fn exec_argument(&mut self, params: &Vec<Node>)
        ensures
            final(self)@ == listed(old(self)@, trees_of(params@), 0),
            final(self)@.depth == old(self)@.depth,
            final(self).target() == old(self).target(),
        decreases params,
    {
        let ghost trees = trees_of(params@);
        let ghost start = self@;
        let ghost target = self.target();
        let mut i: usize = 0;
        while i < params.len()
            invariant
                i <= params.len(),
                trees == trees_of(params@),
                listed(self@, trees, i as int) == listed(start, trees, 0),
                self@.depth == start.depth,
                self.target() == target,
            decreases params.len() - i,
        {
            self.generator(&params[i]);
            self.declare(self.now_identifier.clone(), Role::Variable);
            if i + 1 < params.len() {
                self.emit(", ");
            }
            i += 1;
        }
    }

    fn each_of(&mut self, list: &Vec<Node>)
        ensures
            final(self)@ == each(old(self)@, trees_of(list@), 0),
            final(self)@.depth == old(self)@.depth,
            final(self).target() == old(self).target(),
        decreases list,
    {
        let ghost trees = trees_of(list@);
        let ghost start = self@;
        let ghost target = self.target();
        let mut i: usize = 0;
        while i < list.len()
            invariant
                i <= list.len(),
                trees == trees_of(list@),
                each(self@, trees, i as int) == each(start, trees, 0),
                self@.depth == start.depth,
                self.target() == target,
            decreases list.len() - i,
        {
            self.generator(&list[i]);
            i += 1;
        }
    }

    /// The text of an identifier token; empty for any other token.
    pub fn get_identifier(&self, type_data: Type) -> (word: String)
        ensures
            word@ == identifier_of(type_data@),
    {
        match type_data {
            Type::Identifier(word) => word,
            _ => String::new(),
        }
    }

    /// The indentation at the present depth.
    pub fn get_indent(&self) -> (spaces: String)
        ensures
            spaces@ == indent(self@.depth),
    {
        self.indentation.spaces()
    }

    fn indented(&mut self) -> (outer: Indentation)
        ensures
            final(self)@ == old(self)@.at_depth(old(self)@.depth + 1),
            outer.depth() == old(self)@.depth,
            final(self).target() == old(self).target(),
    {
        let outer = self.indentation.same();
        self.indentation = self.indentation.deeper();
        outer
    }

    fn outdented(&mut self, outer: Indentation)
        ensures
            final(self)@ == old(self)@.at_depth(outer.depth()),
            final(self).target() == old(self).target(),
    {
        self.indentation = outer;
    }

    fn operator(op: &Type) -> (text: &'static str)
        ensures
            text@ == symbol(op@),
    {
        match op {
            Type::Greater => ">",
            Type::Less => "<",
            Type::Plus => "+",
            Type::Minus => "-",
            Type::Asterisk => "*",
            Type::Slash => "/",
            _ => {
                let nothing = "";
                proof {
                    reveal_strlit("");
                }
                nothing
            },
        }
    }

    fn alternative(&mut self, branch: &Option<Box<Node>>)
        ensures
            final(self)@ == match branch {
                Some(inner) => step(
                    old(self)@.write(indent(old(self)@.depth)).write("else:\n"@),
                    inner@,
                ),
                None => old(self)@,
            },
            final(self)@.depth == old(self)@.depth,
            final(self).target() == old(self).target(),
        decreases branch,
    {
        match branch {
            Some(inner) => {
                let spaces = self.get_indent();
                self.emit(spaces.as_str());
                self.emit("else:\n");
                self.generator(&**inner);
            },
            None => {},
        }
    }

    /// Writes `node` out.
    pub fn generator(&mut self, node: &Node)
        ensures
            final(self)@ == step(old(self)@, node@),
            final(self)@.depth == old(self)@.depth,
            final(self).target() == old(self).target(),
        decreases node,
    {
        match &node.kind {
            None => {},
            Some(NodeKind::Num(value)) => {
                let text = decimal(*value);
                self.emit(text.as_str());
            },
            Some(NodeKind::Str(word)) => {
                self.now_identifier = word.clone();
                self.emit(word.as_str());
            },
            Some(NodeKind::Pass(_)) => {
                self.emit("pass");
            },
            Some(NodeKind::BinaryOp { op, lhs, rhs }) => {
                self.generator(&**lhs);
                self.emit(Self::operator(op));
                self.generator(&**rhs);
            },
            Some(NodeKind::Compare { lhs, op, rhs }) => {
                self.generator(&**lhs);
                self.emit(Self::operator(op));
                self.generator(&**rhs);
            },
            Some(NodeKind::CallMenber { now_menber_name, next }) => {
                self.emit(now_menber_name.as_str());
                self.emit(".");
                self.generator(&**next);
            },
            Some(NodeKind::Block(list)) => {
                let outer = self.indented();
                self.each_of(list);
                self.outdented(outer);
            },
            Some(NodeKind::Import(name)) => {
                self.emit("import ");
                self.emit(name.as_str());
                self.emit("\n");
            },
            Some(NodeKind::Let { v_name, v_type, v_formula, this_is_define }) => {
                self.now_identifier = v_name.clone();
                self.emit(v_name.as_str());
                if *this_is_define {
                    self.declare(v_name.clone(), Role::Variable);
                    self.emit(" = ");
                }
                self.generator(&**v_formula);
            },
            Some(NodeKind::If { cond, then, elif_then, else_then }) => {
                self.emit("if ");
                self.generator(&**cond);
                self.emit(":\n");
                self.generator(&**then);
                match elif_then {
                    Some(list) => {
                        self.each_of(list);
                    },
                    None => {},
                }
                self.alternative(else_then);
            },
            Some(NodeKind::Elif { cond, then, else_then }) => {
                let spaces = self.get_indent();
                self.emit(spaces.as_str());
                self.emit("elif ");
                self.generator(&**cond);
                self.emit(":\n");
                self.generator(&**then);
                self.alternative(else_then);
            },
            Some(NodeKind::While { cond, body }) => {
                self.emit("while ");
                self.generator(&**cond);
                self.emit(":\n");
                self.generator(&**body);
            },
            Some(NodeKind::Function { params, body, function_type, function_name, is_menber }) => {
                let identifier = self.get_identifier(function_name.duplicate());
                let f_type = self.get_identifier(function_type.duplicate());
                let spaces = self.get_indent();
                let constructor = reads(&identifier, "_init_");
                self.declare(identifier.clone(), Role::Function);
                self.emit(spaces.as_str());
                self.emit("def ");
                if constructor {
                    self.emit("__init__");
                } else {
                    self.emit(identifier.as_str());
                }
                self.emit("(");
                if *is_menber {
                    self.emit("self");
                    if params.len() > 0 {
                        self.emit(", ");
                    }
                }
                self.exec_argument(params);
                if constructor {
                    self.emit(")");
                } else {
                    self.emit(") -> ");
                    self.emit(f_type.as_str());
                }
                self.emit(":\n");
                self.generator(&**body);
                self.emit("\n\n");
            },
            Some(NodeKind::Call { function_name, args }) => {
                let role = match self.get_variable_or_function.get(function_name.as_str()) {
                    Some(found) => Some(*found),
                    None => None,
                };
                self.emit(function_name.as_str());
                match role {
                    None => {
                        self.miss(function_name.clone());
                        self.emit("(");
                        self.exec_argument(args);
                        self.emit(")");
                    },
                    Some(Role::Variable) => {},
                    Some(_) => {
                        self.emit("(");
                        self.exec_argument(args);
                        self.emit(")");
                    },
                }
            },
            Some(NodeKind::Return(value)) => {
                self.emit("return ");
                self.generator(&**value);
            },
            Some(NodeKind::Expr { reserv }) => {
                let spaces = self.get_indent();
                self.emit(spaces.as_str());
                self.generator(&**reserv);
                self.emit("\n");
            },
            Some(NodeKind::RawLanguage { language_type, raw_data }) => {
                self.emit(raw_data.as_str());
            },
            Some(NodeKind::Class { class_name, menbers }) => {
                self.declare(class_name.clone(), Role::Class);
                self.emit("class ");
                self.emit(class_name.as_str());
                self.emit(":\n");
                let outer = self.indented();
                self.each_of(menbers);
                self.outdented(outer);
            },
            Some(NodeKind::Root { function_define_s }) => {
                self.each_of(function_define_s);
                if self.unresolved.len() == 0 {
                    self.emit("main()");
                }
            },
        }
    }

    /// Whether every name referred to so far had been declared.
    pub fn succeeded(&self) -> (yes: bool)
        ensures
            yes == self@.resolved(),
    {
        self.unresolved.len() == 0
    }

    /// The text written so far.
    pub fn source(&self) -> (text: &str)
        ensures
            text@ == self@.text,
    {
        self.source_buf.as_str()
    }

    /// The names referred to without a declaration, in the order met.
    pub fn unresolved_names(&self) -> (list: &Vec<String>)
        ensures
            names(list@) == self@.unresolved,
    {
        &self.unresolved
    }

    /// The role that `name` has at present, if it has one.
    pub fn role_of(&self, name: &str) -> (role: Option<Role>)
        ensures
            role == if self@.roles.contains_key(name@) {
                Some(self@.roles[name@])
            } else {
                None
            },
    {
        match self.get_variable_or_function.get(name) {
            Some(found) => Some(*found),
            None => None,
        }
    }

    /// The text written, or the names that were used without a declaration if
    /// there are any: then no text is given out.
    pub fn finish(self) -> (result: Result<String, ResolutionError>)
        ensures
            match result {
                Ok(text) => self@.resolved() && text@ == self@.text,
                Err(e) => !self@.resolved() && e@ == self@.unresolved,
            },
    {
        if self.unresolved.len() == 0 {
            Ok(self.source_buf)
        } else {
            Err(ResolutionError { names: self.unresolved })
        }
    }

    /// `filename` up to its first `.`; all of it if it has none.
    pub fn get_original_filename(&self, filename: String) -> (name: String)
        ensures
            name@ == stem(filename@),
    {
        let chars = chars_of(filename.as_str());
        let mut end: usize = 0;
        while end < chars.len() && chars[end] != '.'
            invariant
                end <= chars.len(),
                stem_len(chars@, 0) == end + stem_len(chars@, end as int),
            decreases chars.len() - end,
        {
            end += 1;
        }
        string_of(&chars, 0, end)
    }

    /// The name of the file that the text is meant for.
    pub fn output_filename(&self) -> (name: String)
        ensures
            name@ == output_name(self.target()),
    {
        let mut name = self.get_original_filename(self.filename.clone());
        name.append(".py");
        name
    }
}

} // verus!
