use rios::{build_ast, build_ast_decs, build_ast_state, BuildError, Node, Rule, Type, AST};

fn node(rule: Rule, text: &str, children: Vec<Node>) -> Node {
    Node { rule, text: text.to_string(), children }
}

fn leaf(rule: Rule, text: &str) -> Node {
    node(rule, text, vec![])
}

fn number(x: &str) -> Node {
    let lit = node(Rule::Con, x, vec![leaf(Rule::DecCon, x)]);
    node(Rule::Expr, x, vec![node(Rule::ExprParen, x, vec![lit])])
}

fn uint32(value: u32) -> AST {
    AST::Con { t: Type::Int { signed: false, length: 32 }, value: Some(value) }
}

fn var_dec(x: &str, v: &str) -> Node {
    node(Rule::VarDec, x, vec![leaf(Rule::IntType, "uint8"), leaf(Rule::VarName, x), number(v)])
}

fn var(x: &str, v: u32) -> AST {
    AST::Variable {
        t: Type::Int { signed: false, length: 8 },
        mutable: false,
        name: x.to_string(),
        initial: Box::new(uint32(v)),
    }
}

fn enter_block(target: &str) -> Node {
    let enter = node(Rule::Enter, "", vec![leaf(Rule::StateName, target)]);
    node(Rule::Result, "", vec![node(Rule::Stmts, "", vec![node(Rule::Stmt, "", vec![enter])])])
}

fn always(target: &str) -> Node {
    let enter = node(Rule::Enter, "", vec![leaf(Rule::StateName, target)]);
    node(Rule::ReactAlways, target, vec![node(Rule::Stmts, "", vec![node(Rule::Stmt, "", vec![enter])])])
}

fn reaction_to(target: &str) -> AST {
    AST::Reaction { time: None, expr: None, stmts: vec![AST::EnterStmt { state: target.to_string() }] }
}

fn state_dec(name: &str, decs: Vec<Node>) -> Node {
    node(Rule::StateDec, name, vec![leaf(Rule::StateName, name), node(Rule::Decs, "", decs)])
}

fn empty_state(name: &str) -> AST {
    AST::State { name: name.to_string(), onenter: None, states: vec![], vars: vec![], reactions: vec![] }
}

#[test]
fn declarations_are_partitioned_in_source_order() {
    let block = node(
        Rule::Decs,
        "",
        vec![
            var_dec("a", "1"),
            always("A"),
            state_dec("S1", vec![]),
            var_dec("b", "2"),
            state_dec("S2", vec![]),
            always("B"),
            var_dec("c", "3"),
        ],
    );
    let (onenter, states, vars, reactions) = build_ast_decs(&block).unwrap();
    assert_eq!(onenter, None);
    assert_eq!(states, vec![empty_state("S1"), empty_state("S2")]);
    assert_eq!(vars, vec![var("a", 1), var("b", 2), var("c", 3)]);
    assert_eq!(reactions, vec![reaction_to("A"), reaction_to("B")]);
}

#[test]
fn empty_declaration_block() {
    let block = node(Rule::Decs, "", vec![]);
    assert_eq!(build_ast_decs(&block), Ok((None, vec![], vec![], vec![])));
}

#[test]
fn on_enter_block_is_kept() {
    let block = node(Rule::Decs, "", vec![node(Rule::ReactOnenter, "onenter", vec![enter_block("Run")])]);
    let (onenter, _, _, _) = build_ast_decs(&block).unwrap();
    assert_eq!(onenter, Some(vec![AST::EnterStmt { state: "Run".to_string() }]));
}

#[test]
fn second_on_enter_block_is_an_error() {
    let block = node(
        Rule::Decs,
        "",
        vec![
            node(Rule::ReactOnenter, "first", vec![enter_block("A")]),
            node(Rule::ReactOnenter, "second", vec![enter_block("B")]),
        ],
    );
    assert_eq!(build_ast_decs(&block), Err(BuildError::DuplicateOnenter { text: "second".to_string() }));
}

#[test]
fn foreign_declaration_is_rejected() {
    let block = node(Rule::Decs, "", vec![var_dec("a", "1"), leaf(Rule::Stmts, "stray"), var_dec("b", "2")]);
    assert_eq!(
        build_ast_decs(&block),
        Err(BuildError::UnexpectedRule { rule: Rule::Stmts, text: "stray".to_string() })
    );
}

#[test]
fn states_nest() {
    let inner = state_dec("Inner", vec![var_dec("k", "7")]);
    let outer = state_dec("Outer", vec![inner, always("Outer")]);
    assert_eq!(
        build_ast_state(&outer),
        Ok(AST::State {
            name: "Outer".to_string(),
            onenter: None,
            states: vec![AST::State {
                name: "Inner".to_string(),
                onenter: None,
                states: vec![],
                vars: vec![var("k", 7)],
                reactions: vec![],
            }],
            vars: vec![],
            reactions: vec![reaction_to("Outer")],
        })
    );
}

#[test]
fn state_without_block_is_an_error() {
    let s = node(Rule::StateDec, "Lonely", vec![leaf(Rule::StateName, "Lonely")]);
    assert_eq!(build_ast_state(&s), Err(BuildError::MissingChild { rule: Rule::StateDec, text: "Lonely".to_string() }));
}

#[test]
fn program_root_is_the_global_state() {
    let program = node(Rule::Program, "", vec![state_dec("Idle", vec![]), var_dec("x", "0")]);
    assert_eq!(
        build_ast(&program),
        Ok(AST::State {
            name: "Global".to_string(),
            onenter: None,
            states: vec![empty_state("Idle")],
            vars: vec![var("x", 0)],
            reactions: vec![],
        })
    );
}

#[test]
fn program_with_error_builds_nothing() {
    let program = node(Rule::Program, "", vec![state_dec("Idle", vec![leaf(Rule::Case, "c")])]);
    assert_eq!(build_ast(&program), Err(BuildError::UnexpectedRule { rule: Rule::Case, text: "c".to_string() }));
}
