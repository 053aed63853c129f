use transpiler::parse::{Definition, Expected, Node, NodeKind, Parser, SyntaxError};
use transpiler::token::{Lexer, Type};

fn lex(source: &str) -> Vec<Type> {
    Lexer::new(source.to_string()).lex().unwrap()
}

fn node(kind: NodeKind) -> Node {
    Node { kind: Some(kind) }
}

fn absent() -> Node {
    Node { kind: None }
}

fn name(word: &str) -> Node {
    node(NodeKind::Call { function_name: word.to_string(), args: vec![] })
}

fn call(word: &str, args: Vec<Node>) -> Node {
    node(NodeKind::Call { function_name: word.to_string(), args })
}

fn num(value: i64) -> Node {
    node(NodeKind::Num(value))
}

fn ident(word: &str) -> Type {
    Type::Identifier(word.to_string())
}

fn stmt(inner: Node) -> Node {
    node(NodeKind::Expr { reserv: Box::new(inner) })
}

fn block(list: Vec<Node>) -> Node {
    node(NodeKind::Block(list))
}

fn declare(v_type: &str, v_name: &str) -> Node {
    node(NodeKind::Let {
        v_name: v_name.to_string(),
        v_type: v_type.to_string(),
        v_formula: Box::new(absent()),
        this_is_define: false,
    })
}

fn define(v_type: &str, v_name: &str, value: Node) -> Node {
    node(NodeKind::Let {
        v_name: v_name.to_string(),
        v_type: v_type.to_string(),
        v_formula: Box::new(value),
        this_is_define: true,
    })
}

fn compare(lhs: Node, op: Type, rhs: Node) -> Node {
    node(NodeKind::Compare { lhs: Box::new(lhs), op, rhs: Box::new(rhs) })
}

fn binary(lhs: Node, op: Type, rhs: Node) -> Node {
    node(NodeKind::BinaryOp { op, lhs: Box::new(lhs), rhs: Box::new(rhs) })
}

fn function(f_type: &str, f_name: &str, params: Vec<Node>, body: Node, is_menber: bool) -> Node {
    node(NodeKind::Function {
        params,
        body: Box::new(body),
        function_type: ident(f_type),
        function_name: ident(f_name),
        is_menber,
    })
}

fn expected(what: Expected) -> Result<Node, SyntaxError> {
    Err(SyntaxError { expected: what })
}

fn reserv(source: &str) -> Result<Node, SyntaxError> {
    let tokens = lex(source);
    Parser::new(&tokens).reserv()
}

fn root(source: &str) -> Result<Node, SyntaxError> {
    let tokens = lex(source);
    Parser::new(&tokens).root()
}

#[test]
fn new_node_holds_nothing() {
    assert_eq!(Node::new(), absent());
}

#[test]
fn declaration_with_initialiser() {
    let tokens = lex("int: x <- 12;");
    let mut parser = Parser::new(&tokens);
    assert_eq!(parser.expr(), Ok(stmt(define("int", "x", num(12)))));
    assert_eq!(parser.position(), 6);
}

#[test]
fn declaration_with_equals_sign() {
    assert_eq!(reserv("int: x = 12"), Ok(define("int", "x", num(12))));
}

#[test]
fn declaration_without_initialiser() {
    let tokens = lex("int: x;");
    let mut parser = Parser::new(&tokens);
    assert_eq!(parser.reserv(), Ok(declare("int", "x")));
    assert_eq!(parser.position(), 3);
}

#[test]
fn declaration_needs_a_name() {
    assert_eq!(reserv("int: 5"), expected(Expected::Identifier));
    assert_eq!(reserv("int:"), expected(Expected::Identifier));
}

#[test]
fn comparison_chain_groups_to_the_right() {
    let tokens = lex("a>b<c");
    let mut parser = Parser::new(&tokens);
    assert_eq!(
        parser.boolean(),
        Ok(compare(name("a"), Type::Greater, compare(name("b"), Type::Less, name("c"))))
    );
    assert_eq!(parser.position(), 5);
}

#[test]
fn comparison_of_one_operand() {
    let tokens = lex("a;");
    let mut parser = Parser::new(&tokens);
    assert_eq!(parser.boolean(), Ok(name("a")));
    assert_eq!(parser.position(), 1);
}

#[test]
fn arithmetic_groups_to_the_right() {
    let tokens = lex("a*b+c-d/e");
    let mut parser = Parser::new(&tokens);
    assert_eq!(
        parser.binary_op(),
        Ok(binary(
            name("a"),
            Type::Asterisk,
            binary(
                name("b"),
                Type::Plus,
                binary(name("c"), Type::Minus, binary(name("d"), Type::Slash, name("e")))
            )
        ))
    );
}

#[test]
fn arithmetic_with_literals_on_the_right() {
    assert_eq!(reserv("x + 1"), Ok(binary(name("x"), Type::Plus, num(1))));
    assert_eq!(
        reserv("x + \"s\""),
        Ok(binary(name("x"), Type::Plus, node(NodeKind::Str("\"s\"".to_string()))))
    );
}

#[test]
fn statement_that_starts_with_a_literal_is_the_literal() {
    let tokens = lex("1 + x");
    let mut parser = Parser::new(&tokens);
    assert_eq!(parser.reserv(), Ok(num(1)));
    assert_eq!(parser.position(), 1);
    assert_eq!(Parser::new(&tokens).expr(), expected(Expected::SemiColon));
}

#[test]
fn comparison_of_sums() {
    assert_eq!(
        {
            let tokens = lex("a + b > c");
            Parser::new(&tokens).boolean()
        },
        Ok(compare(binary(name("a"), Type::Plus, name("b")), Type::Greater, name("c")))
    );
}

#[test]
fn bare_name_is_a_reference_without_arguments() {
    let tokens = lex("f");
    let mut parser = Parser::new(&tokens);
    assert_eq!(parser.call_function(), Ok(name("f")));
    assert_eq!(parser.position(), 1);
}

#[test]
fn call_without_arguments() {
    let tokens = lex("f()");
    let mut parser = Parser::new(&tokens);
    assert_eq!(parser.call_function(), Ok(call("f", vec![])));
    assert_eq!(parser.position(), 3);
}

#[test]
fn call_with_arguments() {
    let tokens = lex("f(1, x, g(2))");
    let mut parser = Parser::new(&tokens);
    assert_eq!(
        parser.call_function(),
        Ok(call("f", vec![num(1), name("x"), call("g", vec![num(2)])]))
    );
    assert_eq!(parser.position(), 11);
}

#[test]
fn call_needs_its_closing_parenthesis() {
    assert_eq!(reserv("f(1"), expected(Expected::RParen));
    assert_eq!(reserv("f(1;"), expected(Expected::RParen));
    assert_eq!(reserv("f(1,)"), expected(Expected::Value));
    assert_eq!(reserv("f("), expected(Expected::Value));
}

#[test]
fn literals() {
    let tokens = vec![Type::Number(7)];
    assert_eq!(Parser::new(&tokens).number(), Ok(num(7)));
    let tokens = vec![Type::DoubleQuotation("hi".to_string())];
    assert_eq!(Parser::new(&tokens).number(), Ok(node(NodeKind::Str("\"hi\"".to_string()))));
    let tokens = vec![ident("x")];
    assert_eq!(Parser::new(&tokens).number(), Ok(node(NodeKind::Str("x".to_string()))));
    let tokens = vec![Type::Plus];
    assert_eq!(Parser::new(&tokens).number(), expected(Expected::Value));
    let tokens = vec![];
    assert_eq!(Parser::new(&tokens).number(), expected(Expected::Value));
}

#[test]
fn word_reads_without_moving() {
    let tokens = vec![ident("x"), Type::Colon];
    let parser = Parser::new(&tokens);
    assert_eq!(parser.word(), Ok(node(NodeKind::Str("x".to_string()))));
    assert_eq!(parser.position(), 0);
    let tokens = vec![Type::Colon];
    assert_eq!(Parser::new(&tokens).word(), expected(Expected::Identifier));
}

#[test]
fn member_chain_nests_to_the_right() {
    assert_eq!(
        reserv("a.b.c(1)"),
        Ok(node(NodeKind::CallMenber {
            now_menber_name: "a".to_string(),
            next: Box::new(node(NodeKind::CallMenber {
                now_menber_name: "b".to_string(),
                next: Box::new(call("c", vec![num(1)])),
            })),
        }))
    );
}

#[test]
fn member_chain_comes_before_keywords() {
    assert_eq!(
        reserv("return.x"),
        Ok(node(NodeKind::CallMenber {
            now_menber_name: "return".to_string(),
            next: Box::new(name("x")),
        }))
    );
}

#[test]
fn return_statement() {
    assert_eq!(reserv("return a"), Ok(node(NodeKind::Return(Box::new(name("a"))))));
    assert_eq!(reserv("return 0"), Ok(node(NodeKind::Return(Box::new(num(0))))));
    assert_eq!(reserv("return"), expected(Expected::Value));
}

#[test]
fn pass_statement() {
    assert_eq!(reserv("pass"), Ok(node(NodeKind::Pass("Pass".to_string()))));
}

#[test]
fn while_loop() {
    assert_eq!(
        reserv("while a < 10 {\n pass;\n}"),
        Ok(node(NodeKind::While {
            cond: Box::new(compare(name("a"), Type::Less, num(10))),
            body: Box::new(block(vec![stmt(node(NodeKind::Pass("Pass".to_string())))])),
        }))
    );
    assert_eq!(reserv("while a pass"), expected(Expected::LBraces));
}

#[test]
fn if_alone() {
    assert_eq!(
        reserv("if a > b {\n return a;\n}"),
        Ok(node(NodeKind::If {
            cond: Box::new(compare(name("a"), Type::Greater, name("b"))),
            then: Box::new(block(vec![stmt(node(NodeKind::Return(Box::new(name("a")))))])),
            elif_then: None,
            else_then: None,
        }))
    );
}

#[test]
fn if_with_else() {
    let tokens = lex("if a {\n}\nelse {\n pass;\n};");
    let mut parser = Parser::new(&tokens);
    assert_eq!(
        parser.expr(),
        Ok(stmt(node(NodeKind::If {
            cond: Box::new(name("a")),
            then: Box::new(block(vec![])),
            elif_then: None,
            else_then: Some(Box::new(block(vec![stmt(node(NodeKind::Pass(
                "Pass".to_string()
            )))]))),
        })))
    );
    assert_eq!(parser.position(), tokens.len());
}

#[test]
fn if_with_elif_and_else() {
    assert_eq!(
        reserv("if a { } elif b { } else { }"),
        Ok(node(NodeKind::If {
            cond: Box::new(name("a")),
            then: Box::new(block(vec![])),
            elif_then: Some(vec![node(NodeKind::Elif {
                cond: Box::new(name("b")),
                then: Box::new(block(vec![])),
                else_then: None,
            })]),
            else_then: Some(Box::new(block(vec![]))),
        }))
    );
}

#[test]
fn if_with_elif_only() {
    let tokens = lex("if a { }\n\nelif b { }\n;");
    let mut parser = Parser::new(&tokens);
    assert_eq!(
        parser.reserv(),
        Ok(node(NodeKind::If {
            cond: Box::new(name("a")),
            then: Box::new(block(vec![])),
            elif_then: Some(vec![node(NodeKind::Elif {
                cond: Box::new(name("b")),
                then: Box::new(block(vec![])),
                else_then: None,
            })]),
            else_then: None,
        }))
    );
    assert_eq!(parser.position(), tokens.len() - 1);
}

#[test]
fn a_second_elif_is_not_part_of_the_conditional() {
    let tokens = lex("if a { } elif b { } elif c { };");
    assert_eq!(Parser::new(&tokens).expr(), expected(Expected::SemiColon));
}

#[test]
fn line_breaks_after_a_conditional_are_consumed() {
    let tokens = lex("if a { }\n\n;");
    let mut parser = Parser::new(&tokens);
    assert!(parser.reserv().is_ok());
    assert_eq!(parser.position(), 6);
}

#[test]
fn block_skips_line_breaks() {
    let tokens = lex("{\n\n a;\n\n\n b;\n\n}");
    let mut parser = Parser::new(&tokens);
    assert_eq!(parser.body(), Ok(block(vec![stmt(name("a")), stmt(name("b"))])));
    assert_eq!(parser.position(), tokens.len());
}

#[test]
fn block_on_one_line() {
    let tokens = lex("{ return 0; }");
    assert_eq!(
        Parser::new(&tokens).body(),
        Ok(block(vec![stmt(node(NodeKind::Return(Box::new(num(0)))))]))
    );
}

#[test]
fn unterminated_block_names_the_closing_brace() {
    let tokens = lex("{");
    let mut parser = Parser::new(&tokens);
    assert_eq!(parser.body(), expected(Expected::RBraces));
    assert_eq!(parser.position(), 0);
    let tokens = lex("{\n a;\n");
    assert_eq!(Parser::new(&tokens).body(), expected(Expected::RBraces));
    assert_eq!(root("int: main() <- {"), expected(Expected::RBraces));
    assert_eq!(root("int: main() <- {\n return 0;\n"), expected(Expected::RBraces));
}

#[test]
fn block_needs_its_opening_brace() {
    let tokens = lex("a;");
    assert_eq!(Parser::new(&tokens).body(), expected(Expected::LBraces));
    let tokens: Vec<Type> = vec![];
    assert_eq!(Parser::new(&tokens).body(), expected(Expected::LBraces));
}

#[test]
fn statement_needs_its_semicolon() {
    let tokens = lex("{ a }");
    assert_eq!(Parser::new(&tokens).body(), expected(Expected::SemiColon));
    let tokens = lex("a");
    assert_eq!(Parser::new(&tokens).expr(), expected(Expected::SemiColon));
    let tokens = lex("if a { }\n");
    assert_eq!(Parser::new(&tokens).expr(), expected(Expected::SemiColon));
}

#[test]
fn statement_skips_leading_line_breaks() {
    let tokens = lex("\n\n\na;");
    let mut parser = Parser::new(&tokens);
    assert_eq!(parser.expr(), Ok(stmt(name("a"))));
    assert_eq!(parser.position(), 5);
}

#[test]
fn error_leaves_the_cursor() {
    let tokens = lex("a; b");
    let mut parser = Parser::new(&tokens);
    assert!(parser.expr().is_ok());
    assert_eq!(parser.position(), 2);
    assert_eq!(parser.expr(), expected(Expected::SemiColon));
    assert_eq!(parser.position(), 2);
}

#[test]
fn parameters() {
    let tokens = lex("int: a, int: b)");
    let mut parser = Parser::new(&tokens);
    assert_eq!(parser.argument(), Ok(vec![declare("int", "a"), declare("int", "b")]));
    assert_eq!(parser.position(), 7);
}

#[test]
fn parameters_may_be_none() {
    let tokens = lex(")");
    let mut parser = Parser::new(&tokens);
    assert_eq!(parser.argument(), Ok(vec![]));
    assert_eq!(parser.position(), 0);
}

#[test]
fn leading_self_is_not_a_parameter() {
    let tokens = lex("self, int: a)");
    let mut parser = Parser::new(&tokens);
    assert_eq!(parser.argument(), Ok(vec![declare("int", "a")]));
    assert_eq!(parser.position(), 5);
    let tokens = lex("self)");
    let mut parser = Parser::new(&tokens);
    assert_eq!(parser.argument(), Ok(vec![]));
    assert_eq!(parser.position(), 1);
}

#[test]
fn later_self_is_an_ordinary_parameter() {
    let tokens = lex("int: a, self)");
    assert_eq!(Parser::new(&tokens).argument(), Ok(vec![declare("int", "a"), name("self")]));
}

#[test]
fn function_definition() {
    let tokens = lex("int: f(int: a, int: b) <- { return a; }");
    let mut parser = Parser::new(&tokens);
    assert_eq!(
        parser.function(),
        Ok(function(
            "int",
            "f",
            vec![declare("int", "a"), declare("int", "b")],
            block(vec![stmt(node(NodeKind::Return(Box::new(name("a")))))]),
            false
        ))
    );
    assert_eq!(parser.position(), tokens.len());
}

#[test]
fn function_without_parameters() {
    assert_eq!(
        {
            let tokens = lex("int: main() <- {\n}");
            Parser::new(&tokens).function()
        },
        Ok(function("int", "main", vec![], block(vec![]), false))
    );
}

#[test]
fn function_needs_its_parentheses() {
    let tokens = lex("int: main <- {\n}");
    let mut parser = Parser::new(&tokens);
    assert_eq!(parser.function(), expected(Expected::LParen));
    assert_eq!(parser.position(), 0);
}

#[test]
fn member_function() {
    assert_eq!(
        {
            let tokens = lex("int: get(self) <- {\n}");
            Parser::new(&tokens).function()
        },
        Ok(function("int", "get", vec![], block(vec![]), true))
    );
    assert_eq!(
        {
            let tokens = lex("int: set(self, int: v) <- {\n}");
            Parser::new(&tokens).function()
        },
        Ok(function("int", "set", vec![declare("int", "v")], block(vec![]), true))
    );
}

#[test]
fn function_definition_errors() {
    let function = |source: &str| {
        let tokens = lex(source);
        Parser::new(&tokens).function()
    };
    assert_eq!(function(""), expected(Expected::Identifier));
    assert_eq!(function("{"), expected(Expected::Identifier));
    assert_eq!(function("int"), expected(Expected::Colon));
    assert_eq!(function("int f"), expected(Expected::Colon));
    assert_eq!(function("int: 1"), expected(Expected::Identifier));
    assert_eq!(function("int: f"), expected(Expected::LParen));
    assert_eq!(function("int: f {"), expected(Expected::LParen));
    assert_eq!(function("int: f(int: a"), expected(Expected::RParen));
    assert_eq!(function("int: f(int: a {"), expected(Expected::RParen));
    assert_eq!(function("int: f(,)"), expected(Expected::Value));
    assert_eq!(function("int: f()"), expected(Expected::Equal));
    assert_eq!(function("int: f() <-"), expected(Expected::LBraces));
    assert_eq!(function("int: f() <-\n{ }"), expected(Expected::LBraces));
    assert_eq!(function("int: f() <- { a"), expected(Expected::SemiColon));
    assert_eq!(function("int: f() <- { a;"), expected(Expected::RBraces));
}

#[test]
fn class_definition() {
    let tokens = lex("class Dog <- {\n int: _init_(self) <- {\n }\n\n int: bark(self) <- {\n }\n}");
    let mut parser = Parser::new(&tokens);
    assert_eq!(
        parser.class(),
        Ok(node(NodeKind::Class {
            class_name: "Dog".to_string(),
            menbers: vec![
                function("int", "_init_", vec![], block(vec![]), true),
                function("int", "bark", vec![], block(vec![]), true),
            ],
        }))
    );
    assert_eq!(parser.position(), tokens.len());
}

#[test]
fn class_definition_errors() {
    let class = |source: &str| {
        let tokens = lex(source);
        Parser::new(&tokens).class()
    };
    assert_eq!(class(""), expected(Expected::Identifier));
    assert_eq!(class("class"), expected(Expected::Identifier));
    assert_eq!(class("class 1"), expected(Expected::Identifier));
    assert_eq!(class("class Dog"), expected(Expected::Equal));
    assert_eq!(class("class Dog <-"), expected(Expected::LBraces));
    assert_eq!(class("class Dog <- {"), expected(Expected::RBraces));
    assert_eq!(class("class Dog <- {\n\n"), expected(Expected::RBraces));
    assert_eq!(class("class Dog <- { 1 }"), expected(Expected::Identifier));
    assert_eq!(class("class Dog <- { int: f() <- { }"), expected(Expected::RBraces));
}

#[test]
fn import_directive() {
    let tokens = lex("import math");
    let mut parser = Parser::new(&tokens);
    assert_eq!(parser.import(), Ok(node(NodeKind::Import("math".to_string()))));
    assert_eq!(parser.position(), 2);
    let tokens = lex("import");
    assert_eq!(Parser::new(&tokens).import(), expected(Expected::Identifier));
    let tokens = lex("import 3");
    assert_eq!(Parser::new(&tokens).import(), expected(Expected::Identifier));
}

#[test]
fn raw_language_block() {
    let tokens = lex("language: python <- {\n\"print(1)\"\n}");
    let mut parser = Parser::new(&tokens);
    assert_eq!(
        parser.macro_raw_data(),
        Ok(node(NodeKind::RawLanguage { language_type: 0, raw_data: "print(1)".to_string() }))
    );
    assert_eq!(parser.position(), tokens.len());
    let tokens = lex("language: python <- {\"x <- {\"}");
    assert_eq!(
        Parser::new(&tokens).macro_raw_data(),
        Ok(node(NodeKind::RawLanguage { language_type: 0, raw_data: "x <- {".to_string() }))
    );
}

#[test]
fn raw_language_block_errors() {
    let language = |source: &str| {
        let tokens = lex(source);
        Parser::new(&tokens).macro_raw_data()
    };
    assert_eq!(language(""), expected(Expected::Colon));
    assert_eq!(language("language"), expected(Expected::Colon));
    assert_eq!(language("language:"), expected(Expected::Identifier));
    assert_eq!(language("language: python"), expected(Expected::Equal));
    assert_eq!(language("language: python <-"), expected(Expected::LBraces));
    assert_eq!(language("language: python <- {"), expected(Expected::DoubleQuotation));
    assert_eq!(language("language: python <- { x }"), expected(Expected::DoubleQuotation));
    assert_eq!(language("language: python <- { \"x\""), expected(Expected::RBraces));
    assert_eq!(language("language: python <- { \"x\" \"y\" }"), expected(Expected::RBraces));
}

#[test]
fn whole_program() {
    assert_eq!(
        root("\nimport math\n\nint: main() <- {\n return 0;\n}\n\n"),
        Ok(node(NodeKind::Root {
            function_define_s: vec![
                node(NodeKind::Import("math".to_string())),
                function(
                    "int",
                    "main",
                    vec![],
                    block(vec![stmt(node(NodeKind::Return(Box::new(num(0)))))]),
                    false
                ),
            ],
        }))
    );
}

#[test]
fn empty_program() {
    assert_eq!(root(""), Ok(node(NodeKind::Root { function_define_s: vec![] })));
    assert_eq!(root("\n\n"), Ok(node(NodeKind::Root { function_define_s: vec![] })));
}

#[test]
fn root_reads_from_the_start() {
    let tokens = lex("import a\nimport b");
    let mut parser = Parser::new(&tokens);
    assert!(parser.import().is_ok());
    assert_eq!(parser.position(), 2);
    assert_eq!(
        parser.root(),
        Ok(node(NodeKind::Root {
            function_define_s: vec![
                node(NodeKind::Import("a".to_string())),
                node(NodeKind::Import("b".to_string())),
            ],
        }))
    );
    assert_eq!(parser.position(), tokens.len());
}

#[test]
fn stray_tokens_at_the_top_are_errors() {
    assert_eq!(root("{"), expected(Expected::Identifier));
    assert_eq!(root("}"), expected(Expected::Identifier));
    assert_eq!(root(";"), expected(Expected::Identifier));
    assert_eq!(root("int: x <- 12;"), expected(Expected::LParen));
    assert_eq!(root("int: main() <- { };"), expected(Expected::Identifier));
}

#[test]
fn first_syntax_error_is_reported() {
    assert_eq!(
        root("int: f() <- {\n a\n}\nint g() <- { }"),
        expected(Expected::SemiColon)
    );
}

#[test]
fn enter_skip_classifies_what_follows() {
    let tokens = lex("\n\nimport a");
    let mut parser = Parser::new(&tokens);
    assert_eq!(parser.enter_skip(), Some(Definition::Import));
    assert_eq!(parser.position(), 2);
    let tokens = lex("class A");
    assert_eq!(Parser::new(&tokens).enter_skip(), Some(Definition::Class));
    let tokens = lex("\nlanguage: python");
    assert_eq!(Parser::new(&tokens).enter_skip(), Some(Definition::Language));
    let tokens = lex("int: main()");
    assert_eq!(Parser::new(&tokens).enter_skip(), Some(Definition::Function));
    let tokens = lex("}");
    assert_eq!(Parser::new(&tokens).enter_skip(), Some(Definition::Function));
    let tokens = lex("\n\n");
    let mut parser = Parser::new(&tokens);
    assert_eq!(parser.enter_skip(), None);
    assert_eq!(parser.position(), 2);
}

#[test]
fn skip_moves_past_the_expected_token_only() {
    let tokens = lex("\n;");
    let mut parser = Parser::new(&tokens);
    assert!(!parser.skip(&Type::SemiColon));
    assert_eq!(parser.position(), 0);
    assert!(parser.skip(&Type::Enter));
    assert_eq!(parser.position(), 1);
    assert!(parser.skip(&Type::SemiColon));
    assert_eq!(parser.position(), 2);
    assert!(!parser.skip(&Type::SemiColon));
    assert_eq!(parser.position(), 2);
}

#[test]
fn peeking_ahead() {
    let tokens = lex("a : b");
    let mut parser = Parser::new(&tokens);
    assert_eq!(parser.sheek_token(1), Some(ident("a")));
    assert_eq!(parser.sheek_token(0), Some(ident("a")));
    assert_eq!(parser.sheek_token(-3), Some(ident("a")));
    assert_eq!(parser.sheek_token(2), Some(Type::Colon));
    assert_eq!(parser.sheek_token(3), Some(ident("b")));
    assert_eq!(parser.sheek_token(4), None);
    assert_eq!(parser.sheek_token(i32::MAX), None);
    assert!(parser.skip(&ident("a")));
    assert_eq!(parser.sheek_token(1), Some(Type::Colon));
    assert_eq!(parser.sheek_token(3), None);
    assert_eq!(parser.safety_sheek_token(0, 1), Some(ident("a")));
    assert_eq!(parser.safety_sheek_token(2, 1), Some(ident("b")));
    assert_eq!(parser.safety_sheek_token(2, 2), None);
    assert_eq!(parser.safety_sheek_token(3, 1), None);
    assert_eq!(parser.safety_sheek_token(usize::MAX, 2), None);
}
