use rios::{build_ast_reaction, BuildError, Node, Operator, Rule, Time, Type, AST};

fn node(rule: Rule, text: &str, children: Vec<Node>) -> Node {
    Node { rule, text: text.to_string(), children }
}

fn leaf(rule: Rule, text: &str) -> Node {
    node(rule, text, vec![])
}

fn paren(inner: Node) -> Node {
    let text = inner.text.clone();
    node(Rule::ExprParen, &text, vec![node(Rule::Con, &text, vec![inner])])
}

fn name(x: &str) -> Node {
    node(Rule::Expr, x, vec![paren(leaf(Rule::VarName, x))])
}

fn number(x: &str) -> Node {
    node(Rule::Expr, x, vec![paren(leaf(Rule::DecCon, x))])
}

fn reference(x: &str) -> AST {
    AST::Reference { t: None, name: x.to_string() }
}

fn uint32(value: u32) -> AST {
    AST::Con { t: Type::Int { signed: false, length: 32 }, value: Some(value) }
}

/// `{ x = v }` as a result block.
fn set_block(x: &str, v: &str) -> Node {
    let assign = node(Rule::Assign, "", vec![name(x), number(v)]);
    node(Rule::Result, "", vec![node(Rule::Stmts, "", vec![node(Rule::Stmt, "", vec![assign])])])
}

fn set(x: &str, v: u32) -> AST {
    AST::AssignStmt { target: Box::new(reference(x)), op: None, value: Box::new(uint32(v)) }
}

#[test]
fn every_ten_milliseconds() {
    let r = node(
        Rule::ReactEvery,
        "every 10 ms { x = 1 }",
        vec![number("10"), leaf(Rule::TimeUnit, "ms"), set_block("x", "1")],
    );
    assert_eq!(
        build_ast_reaction(&r),
        Ok(vec![AST::Reaction {
            time: Some(Time::Millis(Box::new(uint32(10)))),
            expr: None,
            stmts: vec![set("x", 1)],
        }])
    );
}

#[test]
fn microsecond_unit_gives_micros() {
    let r = node(
        Rule::ReactAfter,
        "after 10 \u{b5}s { x = 1 }",
        vec![number("10"), leaf(Rule::TimeUnit, "\u{b5}s"), set_block("x", "1")],
    );
    assert_eq!(
        build_ast_reaction(&r),
        Ok(vec![AST::Reaction {
            time: Some(Time::Micros(Box::new(uint32(10)))),
            expr: None,
            stmts: vec![set("x", 1)],
        }])
    );
}

#[test]
fn always_reaction_has_no_trigger() {
    let stmts = node(
        Rule::Stmts,
        "",
        vec![node(Rule::Stmt, "", vec![node(Rule::Assign, "", vec![name("y"), number("2")])])],
    );
    let r = node(Rule::ReactAlways, "always { y = 2 }", vec![stmts]);
    assert_eq!(build_ast_reaction(&r), Ok(vec![AST::Reaction { time: None, expr: None, stmts: vec![set("y", 2)] }]));
}

#[test]
fn when_with_result_runs_on_the_guard() {
    let r = node(Rule::ReactWhen, "when go { x = 1 }", vec![name("go"), set_block("x", "1")]);
    assert_eq!(
        build_ast_reaction(&r),
        Ok(vec![AST::Reaction { time: None, expr: Some(Box::new(reference("go"))), stmts: vec![set("x", 1)] }])
    );
}

#[test]
fn when_cases_give_one_reaction_each_in_order() {
    let r = node(
        Rule::ReactWhen,
        "when mode < { 1 => ..., 2 => ..., default }",
        vec![
            name("mode"),
            node(Rule::WhenOp, "<", vec![node(Rule::CompOp, "<", vec![leaf(Rule::CompLOp, "<")])]),
            node(Rule::Case, "1", vec![number("1"), set_block("x", "1")]),
            node(Rule::Case, "2", vec![number("2"), set_block("x", "2")]),
            set_block("x", "3"),
        ],
    );
    let guarded = |v: u32| AST::Expr {
        t: None,
        a: Box::new(reference("mode")),
        op: Operator::CompLess,
        b: Some(Box::new(uint32(v))),
    };
    assert_eq!(
        build_ast_reaction(&r),
        Ok(vec![
            AST::Reaction { time: None, expr: Some(Box::new(guarded(1))), stmts: vec![set("x", 1)] },
            AST::Reaction { time: None, expr: Some(Box::new(guarded(2))), stmts: vec![set("x", 2)] },
            AST::Reaction { time: None, expr: Some(Box::new(reference("mode"))), stmts: vec![set("x", 3)] },
        ])
    );
}

#[test]
fn when_cases_without_operator_compare_for_equality() {
    let r = node(
        Rule::ReactWhen,
        "when mode { 4 => ... }",
        vec![name("mode"), node(Rule::Case, "4", vec![number("4"), set_block("x", "4")])],
    );
    let guard = AST::Expr {
        t: None,
        a: Box::new(reference("mode")),
        op: Operator::CompEquals,
        b: Some(Box::new(uint32(4))),
    };
    assert_eq!(
        build_ast_reaction(&r),
        Ok(vec![AST::Reaction { time: None, expr: Some(Box::new(guard)), stmts: vec![set("x", 4)] }])
    );
}

#[test]
fn when_without_branches_is_an_error() {
    let r = node(Rule::ReactWhen, "when go", vec![name("go")]);
    assert_eq!(build_ast_reaction(&r), Err(BuildError::MissingChild { rule: Rule::ReactWhen, text: "when go".to_string() }));
}

#[test]
fn when_with_stray_branch_is_an_error() {
    let r = node(Rule::ReactWhen, "when go", vec![name("go"), leaf(Rule::Stmt, "oops")]);
    assert_eq!(build_ast_reaction(&r), Err(BuildError::UnexpectedRule { rule: Rule::Stmt, text: "oops".to_string() }));
}

#[test]
fn timed_reaction_without_block_is_an_error() {
    let r = node(Rule::ReactEvery, "every 5", vec![number("5"), leaf(Rule::TimeUnit, "ms")]);
    assert_eq!(build_ast_reaction(&r), Err(BuildError::MissingChild { rule: Rule::ReactEvery, text: "every 5".to_string() }));
}

#[test]
fn unknown_reaction_tag_is_an_error() {
    let r = leaf(Rule::VarDec, "var");
    assert_eq!(build_ast_reaction(&r), Err(BuildError::UnexpectedRule { rule: Rule::VarDec, text: "var".to_string() }));
}
