use rios::{build_ast_stmt, build_ast_stmts, build_ast_var, BuildError, Node, Operator, PinType, Rule, Type, AST};

fn node(rule: Rule, text: &str, children: Vec<Node>) -> Node {
    Node { rule, text: text.to_string(), children }
}

fn leaf(rule: Rule, text: &str) -> Node {
    node(rule, text, vec![])
}

fn paren(inner: Node) -> Node {
    let text = inner.text.clone();
    node(Rule::ExprParen, &text, vec![node(Rule::Con, &text, vec![inner])])
}

fn name(x: &str) -> Node {
    node(Rule::Expr, x, vec![paren(leaf(Rule::VarName, x))])
}

fn number(x: &str) -> Node {
    node(Rule::Expr, x, vec![paren(leaf(Rule::DecCon, x))])
}

fn stmt(inner: Node) -> Node {
    let text = inner.text.clone();
    node(Rule::Stmt, &text, vec![inner])
}

fn reference(x: &str) -> AST {
    AST::Reference { t: None, name: x.to_string() }
}

fn uint32(value: u32) -> AST {
    AST::Con { t: Type::Int { signed: false, length: 32 }, value: Some(value) }
}

fn var_dec(mutable: bool, ty: Node, x: &str, init: Node) -> Node {
    let mut children = Vec::new();
    if mutable {
        children.push(leaf(Rule::Mutable, "mut"));
    }
    children.push(ty);
    children.push(leaf(Rule::VarName, x));
    children.push(init);
    node(Rule::VarDec, "var", children)
}

#[test]
fn compound_assignment_is_desugared() {
    let s = stmt(node(
        Rule::Assign,
        "x += 5",
        vec![name("x"), node(Rule::AritOp, "+", vec![leaf(Rule::AritAddOp, "+")]), number("5")],
    ));
    let expected = AST::AssignStmt {
        target: Box::new(reference("x")),
        op: Some(Operator::AritAdd),
        value: Box::new(AST::Expr {
            t: None,
            a: Box::new(reference("x")),
            op: Operator::AritAdd,
            b: Some(Box::new(uint32(5))),
        }),
    };
    assert_eq!(build_ast_stmt(&s), Ok(expected));
}

#[test]
fn plain_assignment_keeps_value() {
    let s = stmt(node(Rule::Assign, "x = y", vec![name("x"), name("y")]));
    assert_eq!(
        build_ast_stmt(&s),
        Ok(AST::AssignStmt { target: Box::new(reference("x")), op: None, value: Box::new(reference("y")) })
    );
}

#[test]
fn assignment_through_dereference() {
    let target = node(
        Rule::Expr,
        "*p",
        vec![node(Rule::ExprDeref, "*p", vec![leaf(Rule::DerefOp, "*"), name("p")])],
    );
    let s = stmt(node(Rule::Assign, "*p = 1", vec![target, number("1")]));
    let deref = AST::Expr { t: None, a: Box::new(reference("p")), op: Operator::Deref, b: None };
    assert_eq!(
        build_ast_stmt(&s),
        Ok(AST::AssignStmt { target: Box::new(deref), op: None, value: Box::new(uint32(1)) })
    );
}

#[test]
fn assignment_to_a_constant_is_an_error() {
    let s = stmt(node(Rule::Assign, "3 = x", vec![number("3"), name("x")]));
    assert_eq!(build_ast_stmt(&s), Err(BuildError::InvalidTarget { text: "3".to_string() }));
}

#[test]
fn assignment_without_value_is_an_error() {
    let s = stmt(node(Rule::Assign, "x", vec![name("x")]));
    assert_eq!(build_ast_stmt(&s), Err(BuildError::MissingChild { rule: Rule::Assign, text: "x".to_string() }));
}

#[test]
fn enter_and_run_statements() {
    let enter = stmt(node(Rule::Enter, "enter Idle", vec![leaf(Rule::StateName, "Idle")]));
    assert_eq!(build_ast_stmt(&enter), Ok(AST::EnterStmt { state: "Idle".to_string() }));
    let run = stmt(node(Rule::Run, "run blink", vec![name("blink")]));
    assert_eq!(build_ast_stmt(&run), Ok(AST::RunStmt { expr: Box::new(reference("blink")) }));
}

#[test]
fn unknown_statement_is_an_error() {
    let s = stmt(leaf(Rule::Case, "case"));
    assert_eq!(build_ast_stmt(&s), Err(BuildError::UnexpectedRule { rule: Rule::Case, text: "case".to_string() }));
    let bare = node(Rule::Assign, "x = y", vec![name("x"), name("y")]);
    assert_eq!(
        build_ast_stmt(&bare),
        Err(BuildError::UnexpectedRule { rule: Rule::Assign, text: "x = y".to_string() })
    );
}

#[test]
fn statement_list_keeps_program_order() {
    let list = node(
        Rule::Stmts,
        "",
        vec![
            stmt(node(Rule::Assign, "a = 1", vec![name("a"), number("1")])),
            stmt(node(Rule::Enter, "enter B", vec![leaf(Rule::StateName, "B")])),
        ],
    );
    assert_eq!(
        build_ast_stmts(&list),
        Ok(vec![
            AST::AssignStmt { target: Box::new(reference("a")), op: None, value: Box::new(uint32(1)) },
            AST::EnterStmt { state: "B".to_string() },
        ])
    );
    assert_eq!(build_ast_stmts(&node(Rule::Stmts, "", vec![])), Ok(vec![]));
}

#[test]
fn statement_list_stops_at_first_error() {
    let list = node(
        Rule::Stmts,
        "",
        vec![
            stmt(node(Rule::Assign, "a = 1", vec![name("a"), number("1")])),
            stmt(leaf(Rule::Case, "bad")),
            stmt(leaf(Rule::Result, "worse")),
        ],
    );
    assert_eq!(
        build_ast_stmts(&list),
        Err(BuildError::UnexpectedRule { rule: Rule::Case, text: "bad".to_string() })
    );
}

#[test]
fn mutable_integer_variable() {
    let v = var_dec(true, leaf(Rule::IntType, "int16"), "count", number("5"));
    assert_eq!(
        build_ast_var(&v),
        Ok(AST::Variable {
            t: Type::Int { signed: true, length: 16 },
            mutable: true,
            name: "count".to_string(),
            initial: Box::new(uint32(5)),
        })
    );
}

#[test]
fn variable_is_immutable_by_default() {
    let v = var_dec(false, leaf(Rule::BoolType, "bool"), "on", name("off"));
    assert_eq!(
        build_ast_var(&v),
        Ok(AST::Variable { t: Type::Boolean, mutable: false, name: "on".to_string(), initial: Box::new(reference("off")) })
    );
}

#[test]
fn every_integer_type_name() {
    let cases = [
        ("uint8", false, 8),
        ("uint16", false, 16),
        ("uint32", false, 32),
        ("uint64", false, 64),
        ("int8", true, 8),
        ("int16", true, 16),
        ("int32", true, 32),
        (" int64\n", true, 64),
        ("\u{b}uint8\u{c}", false, 8),
        ("\u{a0}int32\u{3000}", true, 32),
    ];
    for (text, signed, length) in cases {
        let v = var_dec(false, leaf(Rule::IntType, text), "n", number("0"));
        match build_ast_var(&v) {
            Ok(AST::Variable { t, .. }) => assert_eq!(t, Type::Int { signed, length }),
            other => panic!("unexpected {:?}", other),
        }
    }
}

#[test]
fn pin_variable_carries_kind_only() {
    let ty = node(Rule::PinType, "analog pin", vec![leaf(Rule::PinAnalog, "analog")]);
    let v = var_dec(false, ty, "sensor", number("3"));
    match build_ast_var(&v) {
        Ok(AST::Variable { t, .. }) => assert_eq!(t, Type::Pin { pintype: Some(PinType::Analog), direction: None }),
        other => panic!("unexpected {:?}", other),
    }
}

#[test]
fn unknown_type_is_an_error() {
    let v = var_dec(false, leaf(Rule::IntType, "int7"), "n", number("0"));
    assert_eq!(build_ast_var(&v), Err(BuildError::UnexpectedRule { rule: Rule::IntType, text: "int7".to_string() }));
    let w = var_dec(false, leaf(Rule::VarName, "thing"), "n", number("0"));
    assert_eq!(build_ast_var(&w), Err(BuildError::UnexpectedRule { rule: Rule::VarName, text: "thing".to_string() }));
}

#[test]
fn variable_without_initializer_is_an_error() {
    let v = node(Rule::VarDec, "bool on", vec![leaf(Rule::BoolType, "bool"), leaf(Rule::VarName, "on")]);
    assert_eq!(build_ast_var(&v), Err(BuildError::MissingChild { rule: Rule::VarDec, text: "bool on".to_string() }));
}
