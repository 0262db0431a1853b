//! Operators and the precedence cascade of expressions.

use vstd::prelude::*;
use crate::literal::{build_ast_con, spec_con};
use crate::structures::{AST, AstModel, Operator, ast_result, asts_model, lemma_asts_model_push};
use crate::tree::{BuildError, Node, Rule, missing, missing_child, unexpected, unexpected_rule};

verus! {

/// Tags that only wrap one operator token of a category.
pub open spec fn is_operator_group(r: Rule) -> bool {
    ||| r == Rule::AritOp
    ||| r == Rule::BitOp
    ||| r == Rule::BoolOp
    ||| r == Rule::CompOp
    ||| r == Rule::ChangeOp
}

/// The operator that an operator token's tag stands for.
pub open spec fn operator_of_rule(r: Rule) -> Option<Operator> {
    match r {
        Rule::AritAddOp => Some(Operator::AritAdd),
        Rule::AritSubOp => Some(Operator::AritSub),
        Rule::AritMultOp => Some(Operator::AritMult),
        Rule::AritModOp => Some(Operator::AritMod),
        Rule::AritDivOp => Some(Operator::AritDiv),
        Rule::AritNegOp => Some(Operator::AritNeg),
        Rule::AritPosOp => Some(Operator::AritPos),
        Rule::BitNegOp => Some(Operator::BitNeg),
        Rule::BitAndOp => Some(Operator::BitAnd),
        Rule::BitOrOp => Some(Operator::BitOr),
        Rule::BitXorOp => Some(Operator::BitXor),
        Rule::BitShiftRightOp => Some(Operator::BitShiftRight),
        Rule::BitShiftLeftOp => Some(Operator::BitShiftLeft),
        Rule::BoolOrOp => Some(Operator::BoolOr),
        Rule::BoolAndOp => Some(Operator::BoolAnd),
        Rule::BoolXorOp => Some(Operator::BoolXor),
        Rule::BoolNegOp => Some(Operator::BoolNeg),
        Rule::CompEOp => Some(Operator::CompEquals),
        Rule::CompNEOp => Some(Operator::CompNotEquals),
        Rule::CompLEOp => Some(Operator::CompLessEquals),
        Rule::CompGEOp => Some(Operator::CompGreatEquals),
        Rule::CompLOp => Some(Operator::CompLess),
        Rule::CompGOp => Some(Operator::CompGreat),
        Rule::ChangedOp => Some(Operator::Changed),
        Rule::NotChangedOp => Some(Operator::NotChanged),
        Rule::OldOp => Some(Operator::Old),
        Rule::DerefOp => Some(Operator::Deref),
        _ => None,
    }
}

/// The operator an operator node stands for: a category wrapper stands for
/// its first child.
pub open spec fn spec_operator(n: Node) -> Result<Operator, BuildError>
    decreases n,
{
    if is_operator_group(n.rule) {
        if n.children@.len() == 0 {
            Err(missing(n))
        } else {
            spec_operator(n.children@[0])
        }
    } else {
        match operator_of_rule(n.rule) {
            Some(op) => Ok(op),
            None => Err(unexpected(n)),
        }
    }
}

/// Resolves an operator node, looking through one category wrapper at a time.
pub fn build_ast_operator(n: &Node) -> (r: Result<Operator, BuildError>)
    ensures
        r == spec_operator(*n),
    decreases n,
{
    match n.rule {
        Rule::AritOp | Rule::BitOp | Rule::BoolOp | Rule::CompOp | Rule::ChangeOp => {
            if n.children.len() == 0 {
                Err(missing_child(n))
            } else {
                build_ast_operator(&n.children[0])
            }
        },
        Rule::AritAddOp => Ok(Operator::AritAdd),
        Rule::AritSubOp => Ok(Operator::AritSub),
        Rule::AritMultOp => Ok(Operator::AritMult),
        Rule::AritModOp => Ok(Operator::AritMod),
        Rule::AritDivOp => Ok(Operator::AritDiv),
        Rule::AritNegOp => Ok(Operator::AritNeg),
        Rule::AritPosOp => Ok(Operator::AritPos),
        Rule::BitNegOp => Ok(Operator::BitNeg),
        Rule::BitAndOp => Ok(Operator::BitAnd),
        Rule::BitOrOp => Ok(Operator::BitOr),
        Rule::BitXorOp => Ok(Operator::BitXor),
        Rule::BitShiftRightOp => Ok(Operator::BitShiftRight),
        Rule::BitShiftLeftOp => Ok(Operator::BitShiftLeft),
        Rule::BoolOrOp => Ok(Operator::BoolOr),
        Rule::BoolAndOp => Ok(Operator::BoolAnd),
        Rule::BoolXorOp => Ok(Operator::BoolXor),
        Rule::BoolNegOp => Ok(Operator::BoolNeg),
        Rule::CompEOp => Ok(Operator::CompEquals),
        Rule::CompNEOp => Ok(Operator::CompNotEquals),
        Rule::CompLEOp => Ok(Operator::CompLessEquals),
        Rule::CompGEOp => Ok(Operator::CompGreatEquals),
        Rule::CompLOp => Ok(Operator::CompLess),
        Rule::CompGOp => Ok(Operator::CompGreat),
        Rule::ChangedOp => Ok(Operator::Changed),
        Rule::NotChangedOp => Ok(Operator::NotChanged),
        Rule::OldOp => Ok(Operator::Old),
        Rule::DerefOp => Ok(Operator::Deref),
        _ => Err(unexpected_rule(n)),
    }
}

/// Tags of the binary precedence levels, loosest first.
pub open spec fn is_binary_level(r: Rule) -> bool {
    ||| r == Rule::ExprBOr
    ||| r == Rule::ExprBXor
    ||| r == Rule::ExprBAnd
    ||| r == Rule::ExprBitOr
    ||| r == Rule::ExprBitXor
    ||| r == Rule::ExprBitAnd
    ||| r == Rule::ExprShift
    ||| r == Rule::ExprComp
    ||| r == Rule::ExprMult
    ||| r == Rule::ExprAdd
}

/// Tags of the unary precedence levels.
pub open spec fn is_unary_level(r: Rule) -> bool {
    r == Rule::ExprNeg || r == Rule::ExprOld || r == Rule::ExprDeref
}

/// Tags of the tokens that open a unary operation.
pub open spec fn is_unary_op(r: Rule) -> bool {
    ||| r == Rule::BoolNegOp
    ||| r == Rule::BitNegOp
    ||| r == Rule::AritNegOp
    ||| r == Rule::OldOp
    ||| r == Rule::DerefOp
}

/// A binary operation without a type yet.
pub open spec fn binary(a: AstModel, op: Operator, b: AstModel) -> AstModel {
    AstModel::Expr { t: None, a: Box::new(a), op, b: Some(Box::new(b)) }
}

/// The expression an expression node stands for.
pub open spec fn spec_expr(n: Node) -> Result<AstModel, BuildError>
    decreases n, 1nat,
{
    if n.rule == Rule::Expr {
        if n.children@.len() == 0 {
            Err(missing(n))
        } else {
            spec_expr(n.children@[0])
        }
    } else if is_binary_level(n.rule) {
        spec_chain(n, n.children@)
    } else if is_unary_level(n.rule) {
        spec_unary(n)
    } else if n.rule == Rule::ExprCall {
        spec_call(n)
    } else if n.rule == Rule::ExprParen {
        if n.children@.len() == 0 {
            Err(missing(n))
        } else {
            let c = n.children@[0];
            if c.rule == Rule::Expr {
                spec_expr(c)
            } else if c.rule == Rule::Con {
                spec_con(c)
            } else {
                Err(unexpected(c))
            }
        }
    } else {
        Err(unexpected(n))
    }
}

/// The children `s` of a binary level node `p`: operands and operators in
/// turn, grouped from the left. One operand alone stands for itself.
pub open spec fn spec_chain(p: Node, s: Seq<Node>) -> Result<AstModel, BuildError>
    decreases s, 0nat,
{
    let k = s.len();
    if k == 0 {
        Err(missing(p))
    } else if k == 1 {
        spec_expr(s[0])
    } else if k % 2 == 0 {
        match spec_chain(p, s.subrange(0, k - 1)) {
            Err(e) => Err(e),
            Ok(_) => match spec_operator(s[k - 1]) {
                Err(e) => Err(e),
                Ok(_) => Err(missing(p)),
            },
        }
    } else {
        match spec_chain(p, s.subrange(0, k - 2)) {
            Err(e) => Err(e),
            Ok(a) => match spec_operator(s[k - 2]) {
                Err(e) => Err(e),
                Ok(op) => match spec_expr(s[k - 1]) {
                    Err(e) => Err(e),
                    Ok(b) => Ok(binary(a, op, b)),
                },
            },
        }
    }
}

/// A unary level node: an operator token and its operand, or one node that
/// stands for itself.
pub open spec fn spec_unary(n: Node) -> Result<AstModel, BuildError>
    decreases n, 0nat,
{
    let cs = n.children@;
    if cs.len() == 0 {
        Err(missing(n))
    } else if is_unary_op(cs[0].rule) {
        match spec_operator(cs[0]) {
            Err(e) => Err(e),
            Ok(op) => if cs.len() < 2 {
                Err(missing(n))
            } else {
                match spec_expr(cs[1]) {
                    Err(e) => Err(e),
                    Ok(a) => Ok(AstModel::Expr { t: None, a: Box::new(a), op, b: None }),
                }
            },
        }
    } else {
        spec_expr(cs[0])
    }
}

/// A call node: the callee, then the parameters. Without parameters it
/// stands for the callee itself.
pub open spec fn spec_call(n: Node) -> Result<AstModel, BuildError>
    decreases n, 0nat,
{
    let cs = n.children@;
    if cs.len() == 0 {
        Err(missing(n))
    } else {
        match spec_expr(cs[0]) {
            Err(e) => Err(e),
            Ok(f) => if cs.len() == 1 {
                Ok(f)
            } else {
                match spec_exprs(cs.subrange(1, cs.len() as int)) {
                    Err(e) => Err(e),
                    Ok(ps) => Ok(AstModel::Call { expr: Box::new(f), parameters: ps }),
                }
            },
        }
    }
}

/// The expressions of a list of nodes, in order; the first error if any.
pub open spec fn spec_exprs(s: Seq<Node>) -> Result<Seq<AstModel>, BuildError>
    decreases s, 0nat,
{
    if s.len() == 0 {
        Ok(Seq::empty())
    } else {
        match spec_exprs(s.subrange(0, s.len() - 1)) {
            Err(e) => Err(e),
            Ok(v) => match spec_expr(s[s.len() - 1]) {
                Err(e) => Err(e),
                Ok(a) => Ok(v.push(a)),
            },
        }
    }
}

/// Once a prefix of a binary level's children fails (other than for want
/// of a right operand), every longer prefix fails the same way.
proof fn lemma_chain_err(p: Node, s: Seq<Node>, j: int, k: int)
    requires
        1 <= j <= k <= s.len(),
        spec_chain(p, s.subrange(0, j)) is Err,
        j % 2 == 1 || spec_operator(s[j - 1]) is Err,
    ensures
        spec_chain(p, s.subrange(0, k)) == spec_chain(p, s.subrange(0, j)),
    decreases k,
{
    if k > j {
        let t = s.subrange(0, k);
        if k % 2 == 0 {
            lemma_chain_err(p, s, j, k - 1);
            assert(t.subrange(0, k - 1) =~= s.subrange(0, k - 1));
        } else {
            assert(t.subrange(0, k - 2) =~= s.subrange(0, k - 2));
            if k - 2 >= j {
                lemma_chain_err(p, s, j, k - 2);
            } else {
                assert(s.subrange(0, j).subrange(0, j - 1) =~= s.subrange(0, k - 2));
            }
        }
    }
}

/// Once a prefix of a list fails, every longer prefix fails the same way.
proof fn lemma_exprs_err(s: Seq<Node>, j: int, k: int)
    requires
        0 <= j <= k <= s.len(),
        spec_exprs(s.subrange(0, j)) is Err,
    ensures
        spec_exprs(s.subrange(0, k)) == spec_exprs(s.subrange(0, j)),
    decreases k,
{
    if k > j {
        lemma_exprs_err(s, j, k - 1);
        assert(s.subrange(0, k).subrange(0, k - 1) =~= s.subrange(0, k - 1));
    }
}

/// Builds the expression that an expression node of any precedence level
/// stands for.
pub fn build_ast_expr(n: &Node) -> (r: Result<AST, BuildError>)
    ensures
        ast_result(r) == spec_expr(*n),
    decreases n, 1nat,
{
    match n.rule {
        Rule::Expr => {
            if n.children.len() == 0 {
                Err(missing_child(n))
            } else {
                build_ast_expr(&n.children[0])
            }
        },
        Rule::ExprBOr | Rule::ExprBXor | Rule::ExprBAnd | Rule::ExprBitOr | Rule::ExprBitXor
        | Rule::ExprBitAnd | Rule::ExprShift | Rule::ExprComp | Rule::ExprMult | Rule::ExprAdd => {
            build_ast_binary_expr(n)
        },
        Rule::ExprNeg | Rule::ExprOld | Rule::ExprDeref => build_ast_unary_expr(n),
        Rule::ExprCall => build_ast_call_expr(n),
        Rule::ExprParen => {
            if n.children.len() == 0 {
                return Err(missing_child(n));
            }
            let c = &n.children[0];
            match c.rule {
                Rule::Expr => build_ast_expr(c),
                Rule::Con => build_ast_con(c),
                _ => Err(unexpected_rule(c)),
            }
        },
        _ => Err(unexpected_rule(n)),
    }
}

/// Builds a binary level node: its operands joined by its operators,
/// grouped from the left; a single operand passes through unwrapped.
pub fn build_ast_binary_expr(n: &Node) -> (r: Result<AST, BuildError>)
    requires
        is_binary_level(n.rule),
    ensures
        ast_result(r) == spec_expr(*n),
        ast_result(r) == spec_chain(*n, n.children@),
    decreases n, 0nat,
{
    let len = n.children.len();
    if len == 0 {
        return Err(missing_child(n));
    }
    let ghost s = n.children@;
    assert(s.subrange(0, 1)[0] == s[0]);
    let mut acc = match build_ast_expr(&n.children[0]) {
        Ok(a) => a,
        Err(e) => {
            proof {
                lemma_chain_err(*n, s, 1, len as int);
                assert(s.subrange(0, len as int) =~= s);
            }
            return Err(e);
        },
    };
    let mut i: usize = 1;
    while i < len
        invariant
            is_binary_level(n.rule),
            len == n.children@.len(),
            s == n.children@,
            1 <= i <= len,
            i % 2 == 1,
            spec_chain(*n, s.subrange(0, i as int)) == Ok::<AstModel, BuildError>(acc@),
        decreases len - i,
    {
        let ghost t = s.subrange(0, i + 1);
        assert(t.subrange(0, i as int) =~= s.subrange(0, i as int));
        let op = match build_ast_operator(&n.children[i]) {
            Ok(op) => op,
            Err(e) => {
                proof {
                    assert(t[i as int] == s[i as int]);
                    assert(spec_chain(*n, t) == Err::<AstModel, BuildError>(e));
                    lemma_chain_err(*n, s, i + 1, len as int);
                    assert(s.subrange(0, len as int) =~= s);
                }
                return Err(e);
            },
        };
        if i + 1 >= len {
            proof {
                assert(s.subrange(0, len as int) =~= s);
            }
            return Err(missing_child(n));
        }
        let ghost u = s.subrange(0, i + 2);
        assert(u.subrange(0, i as int) =~= s.subrange(0, i as int));
        proof {
            assert(decreases_to!(*n => n.children@[i + 1]));
        }
        let b = match build_ast_expr(&n.children[i + 1]) {
            Ok(b) => b,
            Err(e) => {
                proof {
                    assert(u[i as int] == s[i as int]);
                    assert(u[i + 1] == s[i + 1]);
                    assert(spec_chain(*n, u) == Err::<AstModel, BuildError>(e));
                    lemma_chain_err(*n, s, i + 2, len as int);
                    assert(s.subrange(0, len as int) =~= s);
                }
                return Err(e);
            },
        };
        acc = AST::Expr { t: None, a: Box::new(acc), op, b: Some(Box::new(b)) };
        i += 2;
    }
    assert(s.subrange(0, len as int) =~= s);
    Ok(acc)
}

/// Builds a unary level node: an operator token applied to its operand, or
/// the one child passed through when it is no unary operator.
pub fn build_ast_unary_expr(n: &Node) -> (r: Result<AST, BuildError>)
    requires
        is_unary_level(n.rule),
    ensures
        ast_result(r) == spec_expr(*n),
        ast_result(r) == spec_unary(*n),
    decreases n, 0nat,
{
    let len = n.children.len();
    if len == 0 {
        return Err(missing_child(n));
    }
    let c0 = &n.children[0];
    match c0.rule {
        Rule::BoolNegOp | Rule::BitNegOp | Rule::AritNegOp | Rule::OldOp | Rule::DerefOp => {
            let op = match build_ast_operator(c0) {
                Ok(op) => op,
                Err(e) => {
                    return Err(e);
                },
            };
            if len < 2 {
                return Err(missing_child(n));
            }
            let a = match build_ast_expr(&n.children[1]) {
                Ok(a) => a,
                Err(e) => {
                    return Err(e);
                },
            };
            Ok(AST::Expr { t: None, a: Box::new(a), op, b: None })
        },
        _ => build_ast_expr(c0),
    }
}

/// Builds a call node: the callee applied to the parameters in order; with
/// no parameters, the callee itself.
pub fn build_ast_call_expr(n: &Node) -> (r: Result<AST, BuildError>)
    requires
        n.rule == Rule::ExprCall,
    ensures
        ast_result(r) == spec_expr(*n),
        ast_result(r) == spec_call(*n),
    decreases n, 0nat,
{
    let len = n.children.len();
    if len == 0 {
        return Err(missing_child(n));
    }
    let f = match build_ast_expr(&n.children[0]) {
        Ok(f) => f,
        Err(e) => {
            return Err(e);
        },
    };
    if len == 1 {
        return Ok(f);
    }
    let ghost s = n.children@;
    let ghost t = s.subrange(1, len as int);
    let mut parameters: Vec<AST> = Vec::new();
    let mut i: usize = 1;
    assert(t.subrange(0, 0) =~= Seq::<Node>::empty());
    while i < len
        invariant
            n.rule == Rule::ExprCall,
            len == n.children@.len(),
            2 <= len,
            s == n.children@,
            spec_expr(s[0]) == Ok::<AstModel, BuildError>(f@),
            t == s.subrange(1, len as int),
            1 <= i <= len,
            spec_exprs(t.subrange(0, i - 1)) == Ok::<Seq<AstModel>, BuildError>(asts_model(parameters@)),
        decreases len - i,
    {
        assert(t.subrange(0, i as int).subrange(0, i - 1) =~= t.subrange(0, i - 1));
        assert(t[i - 1] == s[i as int]);
        proof {
            assert(decreases_to!(*n => n.children@[i as int]));
        }
        let a = match build_ast_expr(&n.children[i]) {
            Ok(a) => a,
            Err(e) => {
                proof {
                    assert(t.subrange(0, i as int)[i - 1] == s[i as int]);
                    assert(spec_exprs(t.subrange(0, i as int)) == Err::<Seq<AstModel>, BuildError>(e));
                    lemma_exprs_err(t, i as int, t.len() as int);
                    assert(t.subrange(0, t.len() as int) =~= t);
                }
                return Err(e);
            },
        };
        proof {
            lemma_asts_model_push(parameters@, a);
        }
        parameters.push(a);
        i += 1;
    }
    assert(t.subrange(0, t.len() as int) =~= t);
    Ok(AST::Call { expr: Box::new(f), parameters })
}

} // verus!
