//! Reactions: what runs always, periodically, after a delay, or when a
//! guard holds.

use vstd::prelude::*;
use crate::expr::{build_ast_expr, build_ast_operator, spec_expr, spec_operator};
use crate::stmt::{build_ast_stmts, spec_stmts};
use crate::structures::{
    AST, AstModel, Operator, Time, TimeModel, asts_model, asts_result, copy_ast,
    lemma_asts_model_push,
};
use crate::tree::{BuildError, Node, Rule, missing, missing_child, unexpected, unexpected_rule};

verus! {

/// The unit token of microseconds; any other unit token means milliseconds.
pub open spec fn is_micros(s: Seq<char>) -> bool {
    s == seq!['\u{b5}', 's']
}

/// A result block (`Result`): the statement list inside it.
pub open spec fn spec_result_block(n: Node) -> Result<Seq<AstModel>, BuildError> {
    if n.rule != Rule::Result {
        Err(unexpected(n))
    } else if n.children@.len() == 0 {
        Err(missing(n))
    } else {
        spec_stmts(n.children@[0])
    }
}

/// A reaction with no trigger but its time or guard.
pub open spec fn reaction(time: Option<TimeModel>, expr: Option<AstModel>, stmts: Seq<AstModel>) -> AstModel {
    AstModel::Reaction {
        time,
        expr: match expr {
            Some(e) => Some(Box::new(e)),
            None => None,
        },
        stmts,
    }
}

/// One branch of a `when` reaction. A case (`Case`: value, result block)
/// runs where the guard, under the shared operator, meets the case value;
/// a bare result block runs on the guard itself.
#[verifier::opaque]
pub open spec fn spec_branch(guard: AstModel, op: Operator, n: Node) -> Result<AstModel, BuildError> {
    let cs = n.children@;
    if n.rule == Rule::Case {
        if cs.len() < 2 {
            Err(missing(n))
        } else {
            match spec_expr(cs[0]) {
                Err(e) => Err(e),
                Ok(v) => match spec_result_block(cs[1]) {
                    Err(e) => Err(e),
                    Ok(stmts) => Ok(reaction(
                        None,
                        Some(AstModel::Expr { t: None, a: Box::new(guard), op, b: Some(Box::new(v)) }),
                        stmts,
                    )),
                },
            }
        }
    } else if n.rule == Rule::Result {
        match spec_result_block(n) {
            Err(e) => Err(e),
            Ok(stmts) => Ok(reaction(None, Some(guard), stmts)),
        }
    } else {
        Err(unexpected(n))
    }
}

/// The reactions of the branches `s` of a `when` reaction, one per branch,
/// in order.
pub open spec fn spec_branches(guard: AstModel, op: Operator, s: Seq<Node>) -> Result<Seq<AstModel>, BuildError>
    decreases s.len(),
{
    if s.len() == 0 {
        Ok(Seq::empty())
    } else {
        match spec_branches(guard, op, s.drop_last()) {
            Err(e) => Err(e),
            Ok(v) => match spec_branch(guard, op, s.last()) {
                Err(e) => Err(e),
                Ok(a) => Ok(v.push(a)),
            },
        }
    }
}

/// The shared operator of a `when` reaction: the one its `WhenOp` child
/// holds, equality where there is none.
pub open spec fn spec_when_op(cs: Seq<Node>) -> Result<Operator, BuildError> {
    if cs.len() > 1 && cs[1].rule == Rule::WhenOp {
        if cs[1].children@.len() == 0 {
            Err(missing(cs[1]))
        } else {
            spec_operator(cs[1].children@[0])
        }
    } else {
        Ok(Operator::CompEquals)
    }
}

/// The reactions a reaction declaration stands for.
pub open spec fn spec_reaction(n: Node) -> Result<Seq<AstModel>, BuildError> {
    let cs = n.children@;
    match n.rule {
        Rule::ReactAlways => if cs.len() == 0 {
            Err(missing(n))
        } else {
            match spec_stmts(cs[0]) {
                Err(e) => Err(e),
                Ok(stmts) => Ok(seq![reaction(None, None, stmts)]),
            }
        },
        Rule::ReactEvery | Rule::ReactAfter => if cs.len() < 3 {
            Err(missing(n))
        } else {
            match spec_expr(cs[0]) {
                Err(e) => Err(e),
                Ok(d) => match spec_result_block(cs[2]) {
                    Err(e) => Err(e),
                    Ok(stmts) => {
                        let time = if is_micros(cs[1].text@) {
                            TimeModel::Micros(Box::new(d))
                        } else {
                            TimeModel::Millis(Box::new(d))
                        };
                        Ok(seq![reaction(Some(time), None, stmts)])
                    },
                },
            }
        },
        Rule::ReactWhen => if cs.len() == 0 {
            Err(missing(n))
        } else {
            match spec_expr(cs[0]) {
                Err(e) => Err(e),
                Ok(guard) => match spec_when_op(cs) {
                    Err(e) => Err(e),
                    Ok(op) => {
                        let at: int = if cs.len() > 1 && cs[1].rule == Rule::WhenOp { 2 } else { 1 };
                        if cs.len() <= at {
                            Err(missing(n))
                        } else {
                            spec_branches(guard, op, cs.subrange(at, cs.len() as int))
                        }
                    },
                },
            }
        },
        _ => Err(unexpected(n)),
    }
}

fn micros_unit(s: &str) -> (r: bool)
    ensures
        r == is_micros(s@),
{
    let len = s.unicode_len();
    if len == 2 && s.get_char(0) == '\u{b5}' && s.get_char(1) == 's' {
        assert(s@ =~= seq!['\u{b5}', 's']);
        true
    } else {
        false
    }
}

pub(crate) fn build_result_block(n: &Node) -> (r: Result<Vec<AST>, BuildError>)
    ensures
        asts_result(r) == spec_result_block(*n),
{
    if n.rule != Rule::Result {
        return Err(unexpected_rule(n));
    }
    if n.children.len() == 0 {
        return Err(missing_child(n));
    }
    build_ast_stmts(&n.children[0])
}

fn build_branch(guard: &AST, op: Operator, n: &Node) -> (r: Result<AST, BuildError>)
    ensures
        match r {
            Ok(a) => spec_branch(guard@, op, *n) == Ok::<AstModel, BuildError>(a@),
            Err(e) => spec_branch(guard@, op, *n) == Err::<AstModel, BuildError>(e),
        },
{
    reveal(spec_branch);
    let cs = &n.children;
    match n.rule {
        Rule::Case => {
            if cs.len() < 2 {
                return Err(missing_child(n));
            }
            let v = match build_ast_expr(&cs[0]) {
                Ok(v) => v,
                Err(e) => {
                    return Err(e);
                },
            };
            let stmts = match build_result_block(&cs[1]) {
                Ok(s) => s,
                Err(e) => {
                    return Err(e);
                },
            };
            let g = copy_ast(guard);
            let expr = AST::Expr { t: None, a: Box::new(g), op, b: Some(Box::new(v)) };
            assert(expr@ == (AstModel::Expr {
                t: None,
                a: Box::new(guard@),
                op,
                b: Some(Box::new(v@)),
            }));
            Ok(AST::Reaction { time: None, expr: Some(Box::new(expr)), stmts })
        },
        Rule::Result => {
            let stmts = match build_result_block(n) {
                Ok(s) => s,
                Err(e) => {
                    return Err(e);
                },
            };
            let g = copy_ast(guard);
            Ok(AST::Reaction { time: None, expr: Some(Box::new(g)), stmts })
        },
        _ => Err(unexpected_rule(n)),
    }
}

proof fn lemma_branches_err(guard: AstModel, op: Operator, s: Seq<Node>, j: int, k: int)
    requires
        0 <= j <= k <= s.len(),
        spec_branches(guard, op, s.subrange(0, j)) is Err,
    ensures
        spec_branches(guard, op, s.subrange(0, k)) == spec_branches(guard, op, s.subrange(0, j)),
    decreases k,
{
    if k > j {
        lemma_branches_err(guard, op, s, j, k - 1);
        assert(s.subrange(0, k).drop_last() =~= s.subrange(0, k - 1));
    }
}

fn build_when(n: &Node) -> (r: Result<Vec<AST>, BuildError>)
    requires
        n.rule == Rule::ReactWhen,
    ensures
        asts_result(r) == spec_reaction(*n),
{
    let cs = &n.children;
    if cs.len() == 0 {
        return Err(missing_child(n));
    }
    let guard = match build_ast_expr(&cs[0]) {
        Ok(g) => g,
        Err(e) => {
            return Err(e);
        },
    };
    let has_op = cs.len() > 1 && cs[1].rule == Rule::WhenOp;
    let op = if has_op {
        if cs[1].children.len() == 0 {
            return Err(missing_child(&cs[1]));
        }
        match build_ast_operator(&cs[1].children[0]) {
            Ok(op) => op,
            Err(e) => {
                return Err(e);
            },
        }
    } else {
        Operator::CompEquals
    };
    let at: usize = if has_op { 2 } else { 1 };
    if cs.len() <= at {
        return Err(missing_child(n));
    }
    let ghost s = cs@.subrange(at as int, cs@.len() as int);
    let mut reacts: Vec<AST> = Vec::new();
    let mut i: usize = at;
    assert(s.subrange(0, 0) =~= Seq::<Node>::empty());
    while i < cs.len()
        invariant
            cs == n.children,
            n.rule == Rule::ReactWhen,
            spec_expr(cs@[0]) == Ok::<AstModel, BuildError>(guard@),
            spec_when_op(cs@) == Ok::<Operator, BuildError>(op),
            at == (if cs@.len() > 1 && cs@[1].rule == Rule::WhenOp { 2usize } else { 1usize }),
            at < cs@.len(),
            at <= i <= cs@.len(),
            s == cs@.subrange(at as int, cs@.len() as int),
            spec_branches(guard@, op, s.subrange(0, i - at)) == Ok::<Seq<AstModel>, BuildError>(asts_model(reacts@)),
        decreases cs@.len() - i,
    {
        let ghost t = s.subrange(0, i - at + 1);
        assert(t.drop_last() =~= s.subrange(0, i - at));
        assert(t.last() == cs@[i as int]);
        let a = match build_branch(&guard, op, &cs[i]) {
            Ok(a) => a,
            Err(e) => {
                proof {
                    lemma_branches_err(guard@, op, s, i - at + 1, s.len() as int);
                    assert(s.subrange(0, s.len() as int) =~= s);
                }
                return Err(e);
            },
        };
        proof {
            lemma_asts_model_push(reacts@, a);
        }
        reacts.push(a);
        i += 1;
    }
    assert(s.subrange(0, s.len() as int) =~= s);
    Ok(reacts)
}

/// Builds the reactions that a reaction declaration stands for: one for
/// `always`, `every` and `after`, one per branch for `when`.
///
/// A `when` reaction yields its branches in source order. A case branch
/// guards its statements with `guard op value`, where `op` is the shared
/// operator, or equality where none is given; a bare result block guards
/// its statements with the guard itself.
pub fn build_ast_reaction(n: &Node) -> (r: Result<Vec<AST>, BuildError>)
    ensures
        asts_result(r) == spec_reaction(*n),
{
    let cs = &n.children;
    match n.rule {
        Rule::ReactAlways => {
            if cs.len() == 0 {
                return Err(missing_child(n));
            }
            let stmts = match build_ast_stmts(&cs[0]) {
                Ok(s) => s,
                Err(e) => {
                    return Err(e);
                },
            };
            let mut reacts: Vec<AST> = Vec::new();
            reacts.push(AST::Reaction { time: None, expr: None, stmts });
            proof {
                lemma_asts_model_push(Seq::empty(), reacts@[0]);
                assert(Seq::<AST>::empty().push(reacts@[0]) =~= reacts@);
            }
            Ok(reacts)
        },
        Rule::ReactEvery | Rule::ReactAfter => {
            if cs.len() < 3 {
                return Err(missing_child(n));
            }
            let d = match build_ast_expr(&cs[0]) {
                Ok(d) => d,
                Err(e) => {
                    return Err(e);
                },
            };
            let stmts = match build_result_block(&cs[2]) {
                Ok(s) => s,
                Err(e) => {
                    return Err(e);
                },
            };
            let time = if micros_unit(cs[1].text.as_str()) {
                Time::Micros(Box::new(d))
            } else {
                Time::Millis(Box::new(d))
            };
            let mut reacts: Vec<AST> = Vec::new();
            reacts.push(AST::Reaction { time: Some(time), expr: None, stmts });
            proof {
                lemma_asts_model_push(Seq::empty(), reacts@[0]);
                assert(Seq::<AST>::empty().push(reacts@[0]) =~= reacts@);
            }
            Ok(reacts)
        },
        Rule::ReactWhen => build_when(n),
        _ => Err(unexpected_rule(n)),
    }
}

} // verus!
