use transpiler::c_generator::C_Generator;
use transpiler::emission::{ResolutionError, Role};
use transpiler::parse::{Node, NodeKind, Parser};
use transpiler::token::{Lexer, Type};

fn lex(source: &str) -> Vec<Type> {
    Lexer::new(source.to_string()).lex().unwrap()
}

fn statement(source: &str) -> Node {
    let tokens = lex(source);
    Parser::new(&tokens).expr().unwrap()
}

fn definition(source: &str) -> Node {
    let tokens = lex(source);
    Parser::new(&tokens).function().unwrap()
}

fn program(source: &str) -> Node {
    let tokens = lex(source);
    Parser::new(&tokens).root().unwrap()
}

#[test]
fn c_generator_starts_empty() {
    let generator = C_Generator::new();
    assert_eq!(generator.source(), "");
    assert!(generator.succeeded());
    assert_eq!(generator.get_indent(), "");
    assert_eq!(generator.role_of("x"), None);
    assert_eq!(generator.finish(), Ok(String::new()));
}

#[test]
fn c_declaration_begins_with_its_type() {
    let mut generator = C_Generator::new();
    generator.generator(&statement("int: x <- 12;"));
    assert_eq!(generator.source(), "int x = 12;\n");
    assert_eq!(generator.role_of("x"), Some(Role::Variable));
    generator.generator(&statement("int: y;"));
    assert_eq!(generator.source(), "int x = 12;\nint y;\n");
    assert_eq!(generator.role_of("y"), None);
}

#[test]
fn c_function_with_body_in_braces() {
    let mut generator = C_Generator::new();
    generator.generator(&definition("int: f(int: a, int: b) <- {\n return a;\n}"));
    assert_eq!(generator.source(), "int f(int a, int b) {\n    return a;\n}\n");
    assert_eq!(generator.role_of("f"), Some(Role::Function));
    assert_eq!(generator.role_of("a"), Some(Role::Variable));
    assert!(generator.succeeded());
}

#[test]
fn c_whole_program_has_no_entry_call() {
    let mut generator = C_Generator::new();
    generator.generator(&program(
        "int: f(int: a) <- {\n return a * 2;\n}\nint: main() <- {\n return f(21);\n}\n",
    ));
    assert_eq!(
        generator.finish(),
        Ok("int f(int a) {\n    return a*2;\n}\nint main() {\n    return f(21);\n}\n".to_string())
    );
}

#[test]
fn c_condition_stands_in_parentheses() {
    let mut generator = C_Generator::new();
    generator.generator(&statement("int: a <- 1;"));
    generator.generator(&statement("if a > 0 {\n pass;\n}\nelse {\n pass;\n};"));
    assert_eq!(generator.source(), "int a = 1;\nif (a>0) {\n    pass;\n}\n;\n");
}

#[test]
fn c_nested_blocks_close_at_their_own_depth() {
    let inner = Node { kind: Some(NodeKind::Block(vec![])) };
    let outer = Node { kind: Some(NodeKind::Block(vec![inner])) };
    let mut generator = C_Generator::new();
    generator.generator(&outer);
    assert_eq!(generator.source(), "{\n{\n    }\n}\n");
    assert_eq!(generator.get_indent(), "");
}

#[test]
fn c_reference_to_a_variable_is_bare() {
    let mut generator = C_Generator::new();
    generator.generator(&statement("int: x <- 1;"));
    generator.generator(&statement("x(5);"));
    assert_eq!(generator.source(), "int x = 1;\nx;\n");
}

#[test]
fn c_undeclared_name_is_unresolved_and_bare() {
    let mut generator = C_Generator::new();
    generator.generator(&statement("g(1, 2);"));
    assert_eq!(generator.source(), "g;\n");
    assert!(!generator.succeeded());
    assert_eq!(generator.finish(), Err(ResolutionError { names: vec!["g".to_string()] }));
}

#[test]
fn c_has_no_form_for_some_trees() {
    let mut generator = C_Generator::new();
    generator.generator(&Node { kind: Some(NodeKind::Import("math".to_string())) });
    generator.generator(&Node {
        kind: Some(NodeKind::RawLanguage { language_type: 0, raw_data: "x".to_string() }),
    });
    generator.generator(&Node {
        kind: Some(NodeKind::Class { class_name: "A".to_string(), menbers: vec![] }),
    });
    generator.generator(&Node::new());
    assert_eq!(generator.source(), "");
    assert_eq!(generator.role_of("A"), None);
}

#[test]
fn c_arguments_and_identifiers() {
    let mut generator = C_Generator::new();
    generator.exec_argument(&vec![
        Node { kind: Some(NodeKind::Str("p".to_string())) },
        Node { kind: Some(NodeKind::Num(-3)) },
    ]);
    assert_eq!(generator.source(), "p, -3");
    assert_eq!(generator.role_of("p"), Some(Role::Variable));
    generator.add_source_buf(";".to_string());
    assert_eq!(generator.source(), "p, -3;");
    assert_eq!(generator.get_identifier(Type::Identifier("main".to_string())), "main");
    assert_eq!(generator.get_identifier(Type::Colon), "");
}

#[test]
fn c_writing_only_adds() {
    let mut generator = C_Generator::new();
    generator.generator(&definition("int: f(int: a) <- {\n return a;\n}"));
    let text = generator.source().to_string();
    generator.generator(&statement("g(f(1));"));
    assert!(generator.source().starts_with(&text));
    assert_eq!(generator.role_of("f"), Some(Role::Function));
    assert_eq!(generator.role_of("a"), Some(Role::Variable));
    assert!(!generator.succeeded());
    generator.generator(&definition("int: g() <- {\n}"));
    assert!(!generator.succeeded());
    assert_eq!(generator.get_indent(), "");
}
