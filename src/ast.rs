//! Declaration blocks, states, and the root of a program.

use vstd::prelude::*;
use crate::reaction::{build_ast_reaction, build_result_block, spec_reaction, spec_result_block};
use crate::stmt::{build_ast_var, spec_var};
use crate::structures::{
    AST, AstModel, ast_result, asts_model, lemma_asts_model_concat, lemma_asts_model_push,
};
use crate::tree::{BuildError, Node, Rule, missing, missing_child, unexpected, unexpected_rule};

verus! {

/// The four parts of a declaration block: the on-enter statements if any,
/// then the nested states, the variables and the reactions.
pub type Decs = (Option<Vec<AST>>, Vec<AST>, Vec<AST>, Vec<AST>);

/// The model of [`Decs`].
pub type DecsModel = (Option<Seq<AstModel>>, Seq<AstModel>, Seq<AstModel>, Seq<AstModel>);

/// The model of the four parts of a declaration block.
pub open spec fn decs_model(d: Decs) -> DecsModel {
    (
        match d.0 {
            Some(v) => Some(asts_model(v@)),
            None => None,
        },
        asts_model(d.1@),
        asts_model(d.2@),
        asts_model(d.3@),
    )
}

/// The model of the declaration builder's outcome.
pub open spec fn decs_result(r: Result<Decs, BuildError>) -> Result<DecsModel, BuildError> {
    match r {
        Ok(d) => Ok(decs_model(d)),
        Err(e) => Err(e),
    }
}

/// Tags of the reaction declarations.
pub open spec fn is_reaction_rule(r: Rule) -> bool {
    ||| r == Rule::ReactAlways
    ||| r == Rule::ReactEvery
    ||| r == Rule::ReactAfter
    ||| r == Rule::ReactWhen
}

/// Adds the declaration `c` to the parts `d` built so far.
pub open spec fn add_dec(d: DecsModel, c: Node) -> Result<DecsModel, BuildError>
    decreases c, 1nat,
{
    if c.rule == Rule::ReactOnenter {
        if d.0 is Some {
            Err(BuildError::DuplicateOnenter { text: c.text })
        } else if c.children@.len() == 0 {
            Err(missing(c))
        } else {
            match spec_result_block(c.children@[0]) {
                Err(e) => Err(e),
                Ok(stmts) => Ok((Some(stmts), d.1, d.2, d.3)),
            }
        }
    } else if is_reaction_rule(c.rule) {
        match spec_reaction(c) {
            Err(e) => Err(e),
            Ok(rs) => Ok((d.0, d.1, d.2, d.3 + rs)),
        }
    } else if c.rule == Rule::VarDec {
        match spec_var(c) {
            Err(e) => Err(e),
            Ok(v) => Ok((d.0, d.1, d.2.push(v), d.3)),
        }
    } else if c.rule == Rule::StateDec {
        match spec_state(c) {
            Err(e) => Err(e),
            Ok(st) => Ok((d.0, d.1.push(st), d.2, d.3)),
        }
    } else {
        Err(unexpected(c))
    }
}

/// The parts of a declaration block whose children are `s`, each part in
/// source order.
pub open spec fn spec_decs_list(s: Seq<Node>) -> Result<DecsModel, BuildError>
    decreases s, 0nat,
{
    if s.len() == 0 {
        Ok((None, Seq::empty(), Seq::empty(), Seq::empty()))
    } else {
        match spec_decs_list(s.subrange(0, s.len() - 1)) {
            Err(e) => Err(e),
            Ok(d) => add_dec(d, s[s.len() - 1]),
        }
    }
}

/// A state declaration: its name, then its declaration block.
pub open spec fn spec_state(n: Node) -> Result<AstModel, BuildError>
    decreases n, 0nat,
{
    let cs = n.children@;
    if cs.len() < 2 {
        Err(missing(n))
    } else {
        match spec_decs_list(cs[1].children@) {
            Err(e) => Err(e),
            Ok(d) => Ok(AstModel::State {
                name: cs[0].text@,
                onenter: d.0,
                states: d.1,
                vars: d.2,
                reactions: d.3,
            }),
        }
    }
}

/// The parts of a declaration block node.
pub open spec fn spec_decs(n: Node) -> Result<DecsModel, BuildError> {
    spec_decs_list(n.children@)
}

/// The name of the root state.
pub open spec fn global_name() -> Seq<char> {
    seq!['G', 'l', 'o', 'b', 'a', 'l']
}

/// The root state of a program whose top-level declaration block is `n`.
pub open spec fn spec_program(n: Node) -> Result<AstModel, BuildError> {
    match spec_decs(n) {
        Err(e) => Err(e),
        Ok(d) => Ok(AstModel::State {
            name: global_name(),
            onenter: d.0,
            states: d.1,
            vars: d.2,
            reactions: d.3,
        }),
    }
}

pub(crate) proof fn lemma_decs_err(s: Seq<Node>, j: int, k: int)
    requires
        0 <= j <= k <= s.len(),
        spec_decs_list(s.subrange(0, j)) is Err,
    ensures
        spec_decs_list(s.subrange(0, k)) == spec_decs_list(s.subrange(0, j)),
    decreases k,
{
    if k > j {
        lemma_decs_err(s, j, k - 1);
        assert(s.subrange(0, k).subrange(0, k - 1) =~= s.subrange(0, k - 1));
    }
}

/// Builds the four parts of a declaration block. Each child is an on-enter
/// block (at most one), a reaction declaration, a variable declaration or a
/// state declaration; any other child is an error.
pub fn build_ast_decs(n: &Node) -> (r: Result<Decs, BuildError>)
    ensures
        decs_result(r) == spec_decs(*n),
    decreases n, 0nat,
{
    let ghost s = n.children@;
    let mut onenter: Option<Vec<AST>> = None;
    let mut states: Vec<AST> = Vec::new();
    let mut vars: Vec<AST> = Vec::new();
    let mut reactions: Vec<AST> = Vec::new();
    let mut i: usize = 0;
    assert(s.subrange(0, 0) =~= Seq::<Node>::empty());
    while i < n.children.len()
        invariant
            s == n.children@,
            i <= s.len(),
            spec_decs_list(s.subrange(0, i as int)) == Ok::<DecsModel, BuildError>(
                decs_model((onenter, states, vars, reactions)),
            ),
        decreases s.len() - i,
    {
        let ghost t = s.subrange(0, i + 1);
        let ghost before = decs_model((onenter, states, vars, reactions));
        assert(t.subrange(0, i as int) =~= s.subrange(0, i as int));
        assert(spec_decs_list(t) == add_dec(before, s[i as int]));
        let c = &n.children[i];
        proof {
            assert(decreases_to!(*n => n.children@[i as int]));
        }
        let step: Result<(), BuildError> = match c.rule {
            Rule::ReactOnenter => {
                if onenter.is_some() {
                    Err(BuildError::DuplicateOnenter { text: c.text.clone() })
                } else if c.children.len() == 0 {
                    Err(missing_child(c))
                } else {
                    match build_result_block(&c.children[0]) {
                        Ok(stmts) => {
                            onenter = Some(stmts);
                            Ok(())
                        },
                        Err(e) => Err(e),
                    }
                }
            },
            Rule::ReactAlways | Rule::ReactEvery | Rule::ReactAfter | Rule::ReactWhen => {
                match build_ast_reaction(c) {
                    Ok(rs) => {
                        let mut rs = rs;
                        proof {
                            lemma_asts_model_concat(reactions@, rs@);
                        }
                        reactions.append(&mut rs);
                        Ok(())
                    },
                    Err(e) => Err(e),
                }
            },
            Rule::VarDec => {
                match build_ast_var(c) {
                    Ok(v) => {
                        proof {
                            lemma_asts_model_push(vars@, v);
                        }
                        vars.push(v);
                        Ok(())
                    },
                    Err(e) => Err(e),
                }
            },
            Rule::StateDec => {
                match build_ast_state(c) {
                    Ok(st) => {
                        proof {
                            lemma_asts_model_push(states@, st);
                        }
                        states.push(st);
                        Ok(())
                    },
                    Err(e) => Err(e),
                }
            },
            _ => Err(unexpected_rule(c)),
        };
        match step {
            Ok(()) => {},
            Err(e) => {
                proof {
                    assert(spec_decs_list(t) == Err::<DecsModel, BuildError>(e));
                    lemma_decs_err(s, i + 1, s.len() as int);
                    assert(s.subrange(0, s.len() as int) =~= s);
                }
                return Err(e);
            },
        }
        assert(spec_decs_list(t) == Ok::<DecsModel, BuildError>(decs_model((onenter, states, vars, reactions))));
        i += 1;
    }
    assert(s.subrange(0, s.len() as int) =~= s);
    Ok((onenter, states, vars, reactions))
}

/// Builds a state declaration: its name, then its declaration block.
pub fn build_ast_state(n: &Node) -> (r: Result<AST, BuildError>)
    ensures
        ast_result(r) == spec_state(*n),
    decreases n, 1nat,
{
    if n.children.len() < 2 {
        return Err(missing_child(n));
    }
    proof {
        assert(decreases_to!(*n => n.children@[1]));
    }
    match build_ast_decs(&n.children[1]) {
        Ok((onenter, states, vars, reactions)) => Ok(AST::State {
            name: n.children[0].text.clone(),
            onenter,
            states,
            vars,
            reactions,
        }),
        Err(e) => Err(e),
    }
}

/// Builds the root state, named `Global`, from the top-level declaration
/// block of a program.
pub fn build_ast(root: &Node) -> (r: Result<AST, BuildError>)
    ensures
        ast_result(r) == spec_program(*root),
{
    match build_ast_decs(root) {
        Ok((onenter, states, vars, reactions)) => {
            let name = "Global".to_string();
            proof {
                reveal_strlit("Global");
                assert(name@ =~= global_name());
            }
            Ok(AST::State { name, onenter, states, vars, reactions })
        },
        Err(e) => Err(e),
    }
}

} // verus!
