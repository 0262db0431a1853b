//! The abstract syntax tree, its types and operators, and the spec-level
//! models that contracts speak of.

use vstd::prelude::*;
use crate::tree::BuildError;

verus! {

/// Operators of binary and unary expressions: a unary expression is one
/// whose second operand is absent.
#[derive(Debug, Clone, Copy, PartialEq, Eq, Structural)]
pub enum Operator {
    AritAdd,
    AritSub,
    AritMult,
    AritDiv,
    AritMod,
    AritNeg,
    AritPos,
    BitAnd,
    BitOr,
    BitXor,
    BitShiftLeft,
    BitShiftRight,
    BitNeg,
    BoolOr,
    BoolAnd,
    BoolXor,
    BoolNeg,
    CompEquals,
    CompNotEquals,
    CompLessEquals,
    CompGreatEquals,
    CompLess,
    CompGreat,
    Changed,
    NotChanged,
    Old,
    Deref,
}

/// Whether a pin is read or driven as an analog or a digital line.
#[derive(Debug, Clone, Copy, PartialEq, Eq, Structural)]
pub enum PinType {
    Analog,
    Digital,
}

/// The direction of a pin; an input may have its pull-up resistor enabled.
#[derive(Debug, Clone, Copy, PartialEq, Eq, Structural)]
pub enum PinDirection {
    Input { pullup: bool },
    Output,
}

/// A static type.
#[derive(Debug, PartialEq, Eq)]
pub enum Type {
    Serial,
    Pin { pintype: Option<PinType>, direction: Option<PinDirection> },
    Proc,
    Func { from: Vec<Type>, to: Box<Type> },
    Array(Box<Type>),
    Boolean,
    Char,
    String,
    Time,
    Float,
    Double,
    Int { signed: bool, length: i8 },
}

/// A duration and its unit.
#[derive(Debug, PartialEq, Eq)]
pub enum Time {
    Millis(Box<AST>),
    Micros(Box<AST>),
}

/// A node of the abstract syntax tree. Every node owns its children.
#[derive(Debug, PartialEq, Eq)]
pub enum AST {
    State {
        name: String,
        onenter: Option<Vec<AST>>,
        states: Vec<AST>,
        vars: Vec<AST>,
        reactions: Vec<AST>,
    },
    Variable { t: Type, mutable: bool, name: String, initial: Box<AST> },
    Reaction { time: Option<Time>, expr: Option<Box<AST>>, stmts: Vec<AST> },
    Expr { t: Option<Type>, a: Box<AST>, op: Operator, b: Option<Box<AST>> },
    AssignStmt { target: Box<AST>, op: Option<Operator>, value: Box<AST> },
    EnterStmt { state: String },
    RunStmt { expr: Box<AST> },
    Call { expr: Box<AST>, parameters: Vec<AST> },
    Con { t: Type, value: Option<u32> },
    Reference { t: Option<Type>, name: String },
}

/// The mathematical value of a [`Type`].
pub enum TypeModel {
    Serial,
    Pin { pintype: Option<PinType>, direction: Option<PinDirection> },
    Proc,
    Func { from: Seq<TypeModel>, to: Box<TypeModel> },
    Array(Box<TypeModel>),
    Boolean,
    Char,
    String,
    Time,
    Float,
    Double,
    Int { signed: bool, length: i8 },
}

/// The mathematical value of a [`Time`].
pub enum TimeModel {
    Millis(Box<AstModel>),
    Micros(Box<AstModel>),
}

/// The mathematical value of an [`AST`]: names become character sequences
/// and child vectors become sequences.
pub enum AstModel {
    State {
        name: Seq<char>,
        onenter: Option<Seq<AstModel>>,
        states: Seq<AstModel>,
        vars: Seq<AstModel>,
        reactions: Seq<AstModel>,
    },
    Variable { t: TypeModel, mutable: bool, name: Seq<char>, initial: Box<AstModel> },
    Reaction { time: Option<TimeModel>, expr: Option<Box<AstModel>>, stmts: Seq<AstModel> },
    Expr { t: Option<TypeModel>, a: Box<AstModel>, op: Operator, b: Option<Box<AstModel>> },
    AssignStmt { target: Box<AstModel>, op: Option<Operator>, value: Box<AstModel> },
    EnterStmt { state: Seq<char> },
    RunStmt { expr: Box<AstModel> },
    Call { expr: Box<AstModel>, parameters: Seq<AstModel> },
    Con { t: TypeModel, value: Option<u32> },
    Reference { t: Option<TypeModel>, name: Seq<char> },
}

/// The model of a type.
pub open spec fn type_model(t: Type) -> TypeModel
    decreases t,
{
    match t {
        Type::Serial => TypeModel::Serial,
        Type::Pin { pintype, direction } => TypeModel::Pin { pintype, direction },
        Type::Proc => TypeModel::Proc,
        Type::Func { from, to } => TypeModel::Func {
            from: types_model(from@),
            to: Box::new(type_model(*to)),
        },
        Type::Array(e) => TypeModel::Array(Box::new(type_model(*e))),
        Type::Boolean => TypeModel::Boolean,
        Type::Char => TypeModel::Char,
        Type::String => TypeModel::String,
        Type::Time => TypeModel::Time,
        Type::Float => TypeModel::Float,
        Type::Double => TypeModel::Double,
        Type::Int { signed, length } => TypeModel::Int { signed, length },
    }
}

/// The models of a sequence of types, in order.
pub open spec fn types_model(s: Seq<Type>) -> Seq<TypeModel>
    decreases s,
{
    if s.len() == 0 {
        Seq::empty()
    } else {
        types_model(s.subrange(0, s.len() - 1)).push(type_model(s[s.len() - 1]))
    }
}

/// The model of an optional type.
pub open spec fn opt_type_model(t: Option<Type>) -> Option<TypeModel> {
    match t {
        Some(t) => Some(type_model(t)),
        None => None,
    }
}

impl View for Type {
    type V = TypeModel;

    open spec fn view(&self) -> TypeModel {
        type_model(*self)
    }
}

/// The model of a syntax tree.
pub open spec fn ast_model(a: AST) -> AstModel
    decreases a,
{
    match a {
        AST::State { name, onenter, states, vars, reactions } => AstModel::State {
            name: name@,
            onenter: match onenter {
                Some(v) => Some(asts_model(v@)),
                None => None,
            },
            states: asts_model(states@),
            vars: asts_model(vars@),
            reactions: asts_model(reactions@),
        },
        AST::Variable { t, mutable, name, initial } => AstModel::Variable {
            t: type_model(t),
            mutable,
            name: name@,
            initial: Box::new(ast_model(*initial)),
        },
        AST::Reaction { time, expr, stmts } => AstModel::Reaction {
            time: match time {
                Some(Time::Millis(d)) => Some(TimeModel::Millis(Box::new(ast_model(*d)))),
                Some(Time::Micros(d)) => Some(TimeModel::Micros(Box::new(ast_model(*d)))),
                None => None,
            },
            expr: match expr {
                Some(e) => Some(Box::new(ast_model(*e))),
                None => None,
            },
            stmts: asts_model(stmts@),
        },
        AST::Expr { t, a, op, b } => AstModel::Expr {
            t: opt_type_model(t),
            a: Box::new(ast_model(*a)),
            op,
            b: match b {
                Some(b) => Some(Box::new(ast_model(*b))),
                None => None,
            },
        },
        AST::AssignStmt { target, op, value } => AstModel::AssignStmt {
            target: Box::new(ast_model(*target)),
            op,
            value: Box::new(ast_model(*value)),
        },
        AST::EnterStmt { state } => AstModel::EnterStmt { state: state@ },
        AST::RunStmt { expr } => AstModel::RunStmt { expr: Box::new(ast_model(*expr)) },
        AST::Call { expr, parameters } => AstModel::Call {
            expr: Box::new(ast_model(*expr)),
            parameters: asts_model(parameters@),
        },
        AST::Con { t, value } => AstModel::Con { t: type_model(t), value },
        AST::Reference { t, name } => AstModel::Reference { t: opt_type_model(t), name: name@ },
    }
}

/// The models of a sequence of syntax trees, in order.
pub open spec fn asts_model(s: Seq<AST>) -> Seq<AstModel>
    decreases s,
{
    if s.len() == 0 {
        Seq::empty()
    } else {
        asts_model(s.subrange(0, s.len() - 1)).push(ast_model(s[s.len() - 1]))
    }
}

/// The model of a builder's outcome: the model of the tree built, or the error.
pub open spec fn ast_result(r: Result<AST, BuildError>) -> Result<AstModel, BuildError> {
    match r {
        Ok(a) => Ok(ast_model(a)),
        Err(e) => Err(e),
    }
}

/// The model of a builder's outcome that is a list of trees.
pub open spec fn asts_result(r: Result<Vec<AST>, BuildError>) -> Result<Seq<AstModel>, BuildError> {
    match r {
        Ok(v) => Ok(asts_model(v@)),
        Err(e) => Err(e),
    }
}

impl View for AST {
    type V = AstModel;

    open spec fn view(&self) -> AstModel {
        ast_model(*self)
    }
}

/// Appending a type appends its model.
pub proof fn lemma_types_model_push(s: Seq<Type>, t: Type)
    ensures
        types_model(s.push(t)) == types_model(s).push(type_model(t)),
{
    assert(s.push(t).subrange(0, s.len() as int) =~= s);
}

/// Appending a tree appends its model.
pub proof fn lemma_asts_model_push(s: Seq<AST>, a: AST)
    ensures
        asts_model(s.push(a)) == asts_model(s).push(ast_model(a)),
{
    assert(s.push(a).subrange(0, s.len() as int) =~= s);
}

/// The models of a concatenation are the concatenated models.
pub proof fn lemma_asts_model_concat(s: Seq<AST>, t: Seq<AST>)
    ensures
        asts_model(s + t) == asts_model(s) + asts_model(t),
    decreases t.len(),
{
    if t.len() == 0 {
        assert(s + t =~= s);
        assert(asts_model(s) + asts_model(t) =~= asts_model(s));
    } else {
        let u = t.subrange(0, t.len() - 1);
        lemma_asts_model_concat(s, u);
        assert(s + t =~= (s + u).push(t[t.len() - 1]));
        lemma_asts_model_push(s + u, t[t.len() - 1]);
        assert(asts_model(s) + asts_model(t) =~= (asts_model(s) + asts_model(u)).push(ast_model(t[t.len() - 1])));
    }
}

/// A deep copy of a type.
pub fn copy_type(t: &Type) -> (r: Type)
    ensures
        r@ == t@,
    decreases t,
{
    match t {
        Type::Serial => Type::Serial,
        Type::Pin { pintype, direction } => Type::Pin { pintype: *pintype, direction: *direction },
        Type::Proc => Type::Proc,
        Type::Func { from, to } => {
            let mut v: Vec<Type> = Vec::new();
            let mut i: usize = 0;
            while i < from.len()
                invariant
                    *t == (Type::Func { from: *from, to: *to }),
                    i <= from.len(),
                    types_model(v@) == types_model(from@.subrange(0, i as int)),
                decreases from.len() - i,
            {
                proof {
                    assert(decreases_to!(*from => from@[i as int]));
                    assert(decreases_to!(*t => (*t)->from));
                }
                let c = copy_type(&from[i]);
                proof {
                    lemma_types_model_push(v@, c);
                    lemma_types_model_push(from@.subrange(0, i as int), from@[i as int]);
                    assert(from@.subrange(0, i as int).push(from@[i as int]) =~= from@.subrange(0, i + 1));
                }
                v.push(c);
                i += 1;
            }
            assert(from@.subrange(0, from@.len() as int) =~= from@);
            Type::Func { from: v, to: Box::new(copy_type(to)) }
        },
        Type::Array(e) => Type::Array(Box::new(copy_type(e))),
        Type::Boolean => Type::Boolean,
        Type::Char => Type::Char,
        Type::String => Type::String,
        Type::Time => Type::Time,
        Type::Float => Type::Float,
        Type::Double => Type::Double,
        Type::Int { signed, length } => Type::Int { signed: *signed, length: *length },
    }
}

impl Clone for Type {
    fn clone(&self) -> (r: Self)
        ensures
            r@ == self@,
    {
        copy_type(self)
    }
}

fn copy_box(a: &Box<AST>) -> (r: Box<AST>)
    ensures
        ast_model(*r) == ast_model(**a),
    decreases a, 1nat,
{
    Box::new(copy_ast(a))
}

fn copy_asts(v: &Vec<AST>) -> (r: Vec<AST>)
    ensures
        asts_model(r@) == asts_model(v@),
    decreases v, 0nat,
{
    let mut out: Vec<AST> = Vec::new();
    let mut i: usize = 0;
    while i < v.len()
        invariant
            i <= v.len(),
            asts_model(out@) == asts_model(v@.subrange(0, i as int)),
        decreases v.len() - i,
    {
        proof {
            assert(decreases_to!(*v => v@[i as int]));
        }
        let c = copy_ast(&v[i]);
        proof {
            lemma_asts_model_push(out@, c);
            lemma_asts_model_push(v@.subrange(0, i as int), v@[i as int]);
            assert(v@.subrange(0, i as int).push(v@[i as int]) =~= v@.subrange(0, i + 1));
        }
        out.push(c);
        i += 1;
    }
    assert(v@.subrange(0, v@.len() as int) =~= v@);
    out
}

fn copy_opt_type(t: &Option<Type>) -> (r: Option<Type>)
    ensures
        opt_type_model(r) == opt_type_model(*t),
{
    match t {
        Some(t) => Some(copy_type(t)),
        None => None,
    }
}

/// A deep copy of a syntax tree.
pub fn copy_ast(a: &AST) -> (r: AST)
    ensures
        r@ == a@,
    decreases a, 0nat,
{
    match a {
        AST::State { name, onenter, states, vars, reactions } => {
            proof {
                assert(decreases_to!(*a => (*a)->states));
                assert(decreases_to!(*a => (*a)->vars));
                assert(decreases_to!(*a => (*a)->reactions));
            }
            let onenter = match onenter {
                Some(v) => {
                    proof {
                        assert(decreases_to!(*a => (*a)->onenter));
                        assert(decreases_to!((*a)->onenter => (*a)->onenter->0));
                    }
                    Some(copy_asts(v))
                },
                None => None,
            };
            AST::State {
                name: name.clone(),
                onenter,
                states: copy_asts(states),
                vars: copy_asts(vars),
                reactions: copy_asts(reactions),
            }
        },
        AST::Variable { t, mutable, name, initial } => AST::Variable {
            t: copy_type(t),
            mutable: *mutable,
            name: name.clone(),
            initial: copy_box(initial),
        },
        AST::Reaction { time, expr, stmts } => {
            let time = match time {
                Some(Time::Millis(d)) => Some(Time::Millis(copy_box(d))),
                Some(Time::Micros(d)) => Some(Time::Micros(copy_box(d))),
                None => None,
            };
            let expr = match expr {
                Some(e) => Some(copy_box(e)),
                None => None,
            };
            AST::Reaction { time, expr, stmts: copy_asts(stmts) }
        },
        AST::Expr { t, a: x, op, b } => {
            let b = match b {
                Some(b) => Some(copy_box(b)),
                None => None,
            };
            AST::Expr { t: copy_opt_type(t), a: copy_box(x), op: *op, b }
        },
        AST::AssignStmt { target, op, value } => AST::AssignStmt {
            target: copy_box(target),
            op: *op,
            value: copy_box(value),
        },
        AST::EnterStmt { state } => AST::EnterStmt { state: state.clone() },
        AST::RunStmt { expr } => AST::RunStmt { expr: copy_box(expr) },
        AST::Call { expr, parameters } => AST::Call {
            expr: copy_box(expr),
            parameters: copy_asts(parameters),
        },
        AST::Con { t, value } => AST::Con { t: copy_type(t), value: *value },
        AST::Reference { t, name } => AST::Reference { t: copy_opt_type(t), name: name.clone() },
    }
}

impl Clone for AST {
    fn clone(&self) -> (r: Self)
        ensures
            r@ == self@,
    {
        copy_ast(self)
    }
}

} // verus!
