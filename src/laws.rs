//! Laws that hold of every parse tree the builders accept.

use vstd::prelude::*;
use crate::ast::{add_dec, is_reaction_rule, lemma_decs_err, spec_decs_list, spec_state};
use crate::expr::{
    is_binary_level, is_unary_level, is_unary_op, spec_call, spec_chain, spec_expr, spec_exprs,
    spec_operator, spec_unary,
};
use crate::reaction::{spec_branches, spec_reaction, spec_when_op};
use crate::stmt::{is_target, spec_assign, spec_stmt, spec_var, target_type};
use crate::structures::{AstModel, Operator};
use crate::tree::{BuildError, Node, Rule, unexpected};

verus! {

/// The state declarations among `s`, in order.
pub open spec fn state_decs(s: Seq<Node>) -> Seq<Node> {
    s.filter(|c: Node| c.rule == Rule::StateDec)
}

/// The variable declarations among `s`, in order.
pub open spec fn var_decs(s: Seq<Node>) -> Seq<Node> {
    s.filter(|c: Node| c.rule == Rule::VarDec)
}

/// The reaction declarations among `s`, in order.
pub open spec fn reaction_decs(s: Seq<Node>) -> Seq<Node> {
    s.filter(|c: Node| is_reaction_rule(c.rule))
}

/// The branches of a `when` reaction declaration: its children after the
/// guard and the shared operator.
pub open spec fn when_branches(c: Node) -> Seq<Node> {
    let cs = c.children@;
    let at: int = if cs.len() > 1 && cs[1].rule == Rule::WhenOp { 2 } else { 1 };
    if cs.len() <= at {
        Seq::empty()
    } else {
        cs.subrange(at, cs.len() as int)
    }
}

/// Declarations that stand for one reaction at most: anything but a `when`
/// reaction with other than one branch.
pub open spec fn single_reaction(c: Node) -> bool {
    c.rule == Rule::ReactWhen ==> when_branches(c).len() == 1
}

proof fn lemma_branches_len(guard: AstModel, op: Operator, s: Seq<Node>)
    requires
        spec_branches(guard, op, s) is Ok,
    ensures
        spec_branches(guard, op, s)->Ok_0.len() == s.len(),
    decreases s.len(),
{
    if s.len() > 0 {
        lemma_branches_len(guard, op, s.drop_last());
    }
}

/// A reaction declaration of one branch at most stands for one reaction.
proof fn lemma_single_reaction(c: Node)
    requires
        is_reaction_rule(c.rule),
        single_reaction(c),
        spec_reaction(c) is Ok,
    ensures
        spec_reaction(c)->Ok_0.len() == 1,
{
    if c.rule == Rule::ReactWhen {
        let cs = c.children@;
        let guard = spec_expr(cs[0])->Ok_0;
        let op = spec_when_op(cs)->Ok_0;
        let at: int = if cs.len() > 1 && cs[1].rule == Rule::WhenOp { 2 } else { 1 };
        lemma_branches_len(guard, op, cs.subrange(at, cs.len() as int));
    }
}

/// A declaration block keeps its shape: the nested states are built from
/// the state declarations, the variables from the variable declarations and
/// the reactions from the reaction declarations, one for one and each in
/// source order, wherever every `when` reaction has a single branch.
pub proof fn lemma_decs_shape(s: Seq<Node>)
    requires
        spec_decs_list(s) is Ok,
        forall|i: int| 0 <= i < s.len() ==> #[trigger] single_reaction(s[i]),
    ensures
        ({
            let d = spec_decs_list(s)->Ok_0;
            &&& d.1.len() == state_decs(s).len()
            &&& d.2.len() == var_decs(s).len()
            &&& d.3.len() == reaction_decs(s).len()
            &&& forall|j: int|
                0 <= j < d.1.len() ==> spec_state(#[trigger] state_decs(s)[j]) == Ok::<AstModel, BuildError>(d.1[j])
            &&& forall|j: int|
                0 <= j < d.2.len() ==> spec_var(#[trigger] var_decs(s)[j]) == Ok::<AstModel, BuildError>(d.2[j])
            &&& forall|j: int|
                0 <= j < d.3.len() ==> spec_reaction(#[trigger] reaction_decs(s)[j])
                    == Ok::<Seq<AstModel>, BuildError>(seq![d.3[j]])
        }),
    decreases s.len(),
{
    reveal(Seq::filter);
    if s.len() > 0 {
        let p = s.subrange(0, s.len() - 1);
        let c = s[s.len() - 1];
        assert(p =~= s.drop_last());
        assert(forall|i: int| 0 <= i < p.len() ==> p[i] == s[i]);
        lemma_decs_shape(p);
        let d0 = spec_decs_list(p)->Ok_0;
        let d = spec_decs_list(s)->Ok_0;
        assert(add_dec(d0, c) == Ok::<_, BuildError>(d));
        if is_reaction_rule(c.rule) {
            assert(single_reaction(s[s.len() - 1]));
            lemma_single_reaction(c);
            let rs = spec_reaction(c)->Ok_0;
            assert(d.3 =~= d0.3.push(rs[0]));
            assert(rs =~= seq![rs[0]]);
        }
    }
}

/// A declaration block with a child that is no declaration is rejected,
/// never skipped: where nothing before that child fails, the error names it.
pub proof fn lemma_decs_reject(s: Seq<Node>, i: int)
    requires
        0 <= i < s.len(),
        s[i].rule != Rule::ReactOnenter,
        !is_reaction_rule(s[i].rule),
        s[i].rule != Rule::VarDec,
        s[i].rule != Rule::StateDec,
    ensures
        spec_decs_list(s) is Err,
        spec_decs_list(s.subrange(0, i)) is Ok ==> spec_decs_list(s) == Err::<
            (Option<Seq<AstModel>>, Seq<AstModel>, Seq<AstModel>, Seq<AstModel>),
            BuildError,
        >(unexpected(s[i])),
{
    let t = s.subrange(0, i + 1);
    assert(t.subrange(0, i) =~= s.subrange(0, i));
    assert(t[i] == s[i]);
    match spec_decs_list(s.subrange(0, i)) {
        Ok(d) => {
            assert(add_dec(d, s[i]) == Err::<
                (Option<Seq<AstModel>>, Seq<AstModel>, Seq<AstModel>, Seq<AstModel>),
                BuildError,
            >(unexpected(s[i])));
        },
        Err(_) => {},
    }
    assert(spec_decs_list(t) is Err);
    lemma_decs_err(s, i + 1, s.len() as int);
    assert(s.subrange(0, s.len() as int) =~= s);
}

/// An expression node of any precedence level that reaches a single
/// literal through one child at each level.
pub open spec fn single_leaf(n: Node) -> bool
    decreases n,
{
    let cs = n.children@;
    if n.rule == Rule::ExprParen {
        cs.len() == 1 && (cs[0].rule == Rule::Con || (cs[0].rule == Rule::Expr && single_leaf(cs[0])))
    } else if n.rule == Rule::Expr || is_binary_level(n.rule) || is_unary_level(n.rule)
        || n.rule == Rule::ExprCall {
        cs.len() == 1 && single_leaf(cs[0])
    } else {
        false
    }
}

/// A single literal at any precedence level stands for a name or a
/// constant, never for an operation.
pub proof fn lemma_single_leaf(n: Node)
    requires
        single_leaf(n),
        spec_expr(n) is Ok,
    ensures
        spec_expr(n)->Ok_0 is Reference || spec_expr(n)->Ok_0 is Con,
    decreases n,
{
    let cs = n.children@;
    if n.rule == Rule::ExprParen {
        if cs[0].rule == Rule::Expr {
            lemma_single_leaf(cs[0]);
        }
    } else {
        lemma_single_leaf(cs[0]);
        if is_binary_level(n.rule) {
            assert(spec_chain(n, cs) == spec_expr(cs[0]));
        } else if is_unary_level(n.rule) {
            assert(!is_unary_op(cs[0].rule));
            assert(spec_unary(n) == spec_expr(cs[0]));
        } else if n.rule == Rule::ExprCall {
            assert(spec_call(n) == spec_expr(cs[0]));
        }
    }
}

/// A statement wrapper whose statement is an assignment.
pub open spec fn assign_stmt_node(n: Node) -> bool {
    &&& n.rule == Rule::Stmt
    &&& n.children@.len() > 0
    &&& n.children@[0].rule == Rule::Assign
}

/// `x op= e` is kept as the assignment of `x op e` to `x`, with `op`
/// recorded; `x = e` is the plain assignment of `e` to `x`.
pub proof fn lemma_assign_desugar(n: Node)
    requires
        assign_stmt_node(n),
    ensures
        ({
            let cs = n.children@[0].children@;
            cs.len() == 3 && cs[1].rule != Rule::Expr && spec_expr(cs[0]) is Ok
                && is_target(spec_expr(cs[0])->Ok_0) && spec_operator(cs[1]) is Ok
                && spec_expr(cs[2]) is Ok ==> {
                let x = spec_expr(cs[0])->Ok_0;
                let op = spec_operator(cs[1])->Ok_0;
                let e = spec_expr(cs[2])->Ok_0;
                spec_stmt(n) == Ok::<AstModel, BuildError>(AstModel::AssignStmt {
                    target: Box::new(x),
                    op: Some(op),
                    value: Box::new(AstModel::Expr {
                        t: target_type(x),
                        a: Box::new(x),
                        op,
                        b: Some(Box::new(e)),
                    }),
                })
            }
        }),
        ({
            let cs = n.children@[0].children@;
            cs.len() == 2 && cs[1].rule == Rule::Expr && spec_expr(cs[0]) is Ok
                && is_target(spec_expr(cs[0])->Ok_0) && spec_expr(cs[1]) is Ok ==> {
                let x = spec_expr(cs[0])->Ok_0;
                let e = spec_expr(cs[1])->Ok_0;
                spec_stmt(n) == Ok::<AstModel, BuildError>(AstModel::AssignStmt {
                    target: Box::new(x),
                    op: None,
                    value: Box::new(e),
                })
            }
        }),
{
    assert(spec_stmt(n) == spec_assign(n.children@[0]));
}

proof fn lemma_exprs_ok(s: Seq<Node>)
    requires
        spec_exprs(s) is Ok,
    ensures
        spec_exprs(s)->Ok_0.len() == s.len(),
        forall|j: int|
            0 <= j < s.len() ==> spec_expr(#[trigger] s[j]) == Ok::<AstModel, BuildError>(spec_exprs(s)->Ok_0[j]),
    decreases s.len(),
{
    if s.len() > 0 {
        let p = s.subrange(0, s.len() - 1);
        lemma_exprs_ok(p);
        assert(forall|j: int| 0 <= j < p.len() ==> p[j] == s[j]);
    }
}

/// A call without parameters is its callee; a call with parameters is a
/// `Call` of the callee with one parameter per parameter node, in order.
pub proof fn lemma_call_collapse(n: Node)
    requires
        n.rule == Rule::ExprCall,
        n.children@.len() >= 1,
    ensures
        n.children@.len() == 1 ==> spec_expr(n) == spec_expr(n.children@[0]),
        n.children@.len() >= 2 && spec_expr(n) is Ok ==> ({
            let cs = n.children@;
            &&& spec_expr(cs[0]) is Ok
            &&& spec_expr(n)->Ok_0 matches AstModel::Call { expr, parameters }
            &&& *expr == spec_expr(cs[0])->Ok_0
            &&& parameters.len() == cs.len() - 1
            &&& forall|j: int|
                0 <= j < parameters.len() ==> spec_expr(#[trigger] cs[j + 1])
                    == Ok::<AstModel, BuildError>(parameters[j])
        }),
{
    assert(spec_expr(n) == spec_call(n));
    let cs = n.children@;
    if cs.len() >= 2 && spec_expr(n) is Ok {
        let t = cs.subrange(1, cs.len() as int);
        lemma_exprs_ok(t);
        let ps = spec_exprs(t)->Ok_0;
        assert(spec_expr(n) == Ok::<AstModel, BuildError>(AstModel::Call {
            expr: Box::new(spec_expr(cs[0])->Ok_0),
            parameters: ps,
        }));
        assert forall|j: int| 0 <= j < ps.len() implies spec_expr(#[trigger] cs[j + 1])
            == Ok::<AstModel, BuildError>(ps[j]) by {
            assert(t[j] == cs[j + 1]);
        }
    }
}

/// Operators that take one operand.
pub open spec fn is_unary_operator(op: Operator) -> bool {
    ||| op == Operator::AritNeg
    ||| op == Operator::AritPos
    ||| op == Operator::BitNeg
    ||| op == Operator::BoolNeg
    ||| op == Operator::Old
    ||| op == Operator::Deref
}

/// An expression tree: operations, calls, constants and names only, where
/// every operation without a second operand has a unary operator.
pub open spec fn is_expression(a: AstModel) -> bool
    decreases a,
{
    match a {
        AstModel::Expr { a: x, op, b, .. } => match b {
            None => is_unary_operator(op) && is_expression(*x),
            Some(y) => is_expression(*x) && is_expression(*y),
        },
        AstModel::Call { expr, parameters } => is_expression(*expr) && forall|i: int|
            0 <= i < parameters.len() ==> is_expression(#[trigger] parameters[i]),
        AstModel::Con { .. } => true,
        AstModel::Reference { .. } => true,
        _ => false,
    }
}

/// Every expression node builds an expression tree.
pub proof fn lemma_expr_is_expression(n: Node)
    requires
        spec_expr(n) is Ok,
    ensures
        is_expression(spec_expr(n)->Ok_0),
    decreases n, 1nat,
{
    let cs = n.children@;
    if n.rule == Rule::Expr {
        lemma_expr_is_expression(cs[0]);
    } else if is_binary_level(n.rule) {
        lemma_chain_is_expression(n, cs);
    } else if is_unary_level(n.rule) {
        assert(spec_expr(n) == spec_unary(n));
        if is_unary_op(cs[0].rule) {
            lemma_expr_is_expression(cs[1]);
        } else {
            lemma_expr_is_expression(cs[0]);
        }
    } else if n.rule == Rule::ExprCall {
        assert(spec_expr(n) == spec_call(n));
        lemma_expr_is_expression(cs[0]);
        if cs.len() > 1 {
            lemma_exprs_are_expressions(cs.subrange(1, cs.len() as int));
        }
    } else if n.rule == Rule::ExprParen {
        if cs[0].rule == Rule::Expr {
            lemma_expr_is_expression(cs[0]);
        }
    }
}

proof fn lemma_chain_is_expression(p: Node, s: Seq<Node>)
    requires
        spec_chain(p, s) is Ok,
    ensures
        is_expression(spec_chain(p, s)->Ok_0),
    decreases s, 0nat,
{
    let k = s.len();
    if k == 1 {
        lemma_expr_is_expression(s[0]);
    } else if k % 2 == 1 {
        lemma_chain_is_expression(p, s.subrange(0, k - 2));
        lemma_expr_is_expression(s[k - 1]);
    }
}

proof fn lemma_exprs_are_expressions(s: Seq<Node>)
    requires
        spec_exprs(s) is Ok,
    ensures
        forall|i: int|
            0 <= i < spec_exprs(s)->Ok_0.len() ==> is_expression(#[trigger] spec_exprs(s)->Ok_0[i]),
    decreases s, 0nat,
{
    if s.len() > 0 {
        lemma_exprs_are_expressions(s.subrange(0, s.len() - 1));
        lemma_expr_is_expression(s[s.len() - 1]);
    }
}

} // verus!
