//! Variable declarations and statements.

use vstd::prelude::*;
use crate::expr::{build_ast_expr, build_ast_operator, spec_expr, spec_operator};
use crate::literal::{build_pin_kind, spec_pin_kind};
use crate::structures::{
    AST, AstModel, Operator, Type, TypeModel, ast_result, asts_model, asts_result, copy_ast,
    copy_type, lemma_asts_model_push,
};
use crate::tree::{BuildError, Node, Rule, missing, missing_child, unexpected, unexpected_rule};

verus! {

/// Characters that may pad a type name: the characters of Unicode's
/// `White_Space` property.
pub open spec fn is_blank(c: char) -> bool {
    ||| ('\u{9}' <= c && c <= '\u{d}')
    ||| c == ' '
    ||| c == '\u{85}'
    ||| c == '\u{a0}'
    ||| c == '\u{1680}'
    ||| ('\u{2000}' <= c && c <= '\u{200a}')
    ||| c == '\u{2028}'
    ||| c == '\u{2029}'
    ||| c == '\u{202f}'
    ||| c == '\u{205f}'
    ||| c == '\u{3000}'
}

/// `s` without the blanks at either end.
pub open spec fn trim_blanks(s: Seq<char>) -> Seq<char>
    decreases s.len(),
{
    if s.len() > 0 && is_blank(s[0]) {
        trim_blanks(s.drop_first())
    } else if s.len() > 0 && is_blank(s.last()) {
        trim_blanks(s.drop_last())
    } else {
        s
    }
}

/// The signedness and width that an integer type name stands for.
pub open spec fn int_type_of(s: Seq<char>) -> Option<(bool, i8)> {
    if s == seq!['u', 'i', 'n', 't', '8'] {
        Some((false, 8))
    } else if s == seq!['u', 'i', 'n', 't', '1', '6'] {
        Some((false, 16))
    } else if s == seq!['u', 'i', 'n', 't', '3', '2'] {
        Some((false, 32))
    } else if s == seq!['u', 'i', 'n', 't', '6', '4'] {
        Some((false, 64))
    } else if s == seq!['i', 'n', 't', '8'] {
        Some((true, 8))
    } else if s == seq!['i', 'n', 't', '1', '6'] {
        Some((true, 16))
    } else if s == seq!['i', 'n', 't', '3', '2'] {
        Some((true, 32))
    } else if s == seq!['i', 'n', 't', '6', '4'] {
        Some((true, 64))
    } else {
        None
    }
}

fn blank(c: char) -> (r: bool)
    ensures
        r == is_blank(c),
{
    ('\u{9}' <= c && c <= '\u{d}') || c == ' ' || c == '\u{85}' || c == '\u{a0}' || c == '\u{1680}'
        || ('\u{2000}' <= c && c <= '\u{200a}') || c == '\u{2028}' || c == '\u{2029}'
        || c == '\u{202f}' || c == '\u{205f}' || c == '\u{3000}'
}

fn trimmed_chars(s: &str) -> (r: Vec<char>)
    ensures
        r@ == trim_blanks(s@),
{
    let len = s.unicode_len();
    assert(s@.subrange(0, len as int) =~= s@);
    let mut lo: usize = 0;
    while lo < len && blank(s.get_char(lo))
        invariant
            len == s@.len(),
            lo <= len,
            trim_blanks(s@.subrange(lo as int, len as int)) == trim_blanks(s@),
        decreases len - lo,
    {
        assert(s@.subrange(lo as int, len as int).drop_first() =~= s@.subrange(lo + 1, len as int));
        lo += 1;
    }
    let mut hi: usize = len;
    while hi > lo && blank(s.get_char(hi - 1))
        invariant
            len == s@.len(),
            lo <= hi <= len,
            lo < hi ==> !is_blank(s@[lo as int]),
            trim_blanks(s@.subrange(lo as int, hi as int)) == trim_blanks(s@),
        decreases hi - lo,
    {
        assert(s@.subrange(lo as int, hi as int).drop_last() =~= s@.subrange(lo as int, hi - 1));
        hi -= 1;
    }
    let mut r: Vec<char> = Vec::new();
    let mut i: usize = lo;
    while i < hi
        invariant
            len == s@.len(),
            lo <= i <= hi <= len,
            r@ == s@.subrange(lo as int, i as int),
        decreases hi - i,
    {
        r.push(s.get_char(i));
        assert(r@ =~= s@.subrange(lo as int, i + 1));
        i += 1;
    }
    r
}

fn same_chars(a: &Vec<char>, b: &Vec<char>) -> (r: bool)
    ensures
        r == (a@ == b@),
{
    if a.len() != b.len() {
        return false;
    }
    let mut i: usize = 0;
    while i < a.len()
        invariant
            a@.len() == b@.len(),
            i <= a@.len(),
            a@.subrange(0, i as int) == b@.subrange(0, i as int),
        decreases a.len() - i,
    {
        if a[i] != b[i] {
            return false;
        }
        assert(a@.subrange(0, i + 1) =~= a@.subrange(0, i as int).push(a@[i as int]));
        assert(b@.subrange(0, i + 1) =~= b@.subrange(0, i as int).push(b@[i as int]));
        i += 1;
    }
    assert(a@ =~= a@.subrange(0, i as int));
    assert(b@ =~= b@.subrange(0, i as int));
    true
}

fn int_type(s: &str) -> (r: Option<(bool, i8)>)
    ensures
        r == int_type_of(trim_blanks(s@)),
{
    let t = trimmed_chars(s);
    if same_chars(&t, &vec!['u', 'i', 'n', 't', '8']) {
        Some((false, 8))
    } else if same_chars(&t, &vec!['u', 'i', 'n', 't', '1', '6']) {
        Some((false, 16))
    } else if same_chars(&t, &vec!['u', 'i', 'n', 't', '3', '2']) {
        Some((false, 32))
    } else if same_chars(&t, &vec!['u', 'i', 'n', 't', '6', '4']) {
        Some((false, 64))
    } else if same_chars(&t, &vec!['i', 'n', 't', '8']) {
        Some((true, 8))
    } else if same_chars(&t, &vec!['i', 'n', 't', '1', '6']) {
        Some((true, 16))
    } else if same_chars(&t, &vec!['i', 'n', 't', '3', '2']) {
        Some((true, 32))
    } else if same_chars(&t, &vec!['i', 'n', 't', '6', '4']) {
        Some((true, 64))
    } else {
        None
    }
}

/// The type that a type node stands for. A pin type carries its kind but
/// no direction.
pub open spec fn spec_type(n: Node) -> Result<TypeModel, BuildError> {
    match n.rule {
        Rule::BoolType => Ok(TypeModel::Boolean),
        Rule::FloatType => Ok(TypeModel::Float),
        Rule::DoubleType => Ok(TypeModel::Double),
        Rule::PinType => match spec_pin_kind(n) {
            Ok(k) => Ok(TypeModel::Pin { pintype: Some(k), direction: None }),
            Err(e) => Err(e),
        },
        Rule::SerialType => Ok(TypeModel::Serial),
        Rule::ProcType => Ok(TypeModel::Proc),
        Rule::StringType => Ok(TypeModel::String),
        Rule::CharType => Ok(TypeModel::Char),
        Rule::TimeType => Ok(TypeModel::Time),
        Rule::IntType => match int_type_of(trim_blanks(n.text@)) {
            Some((signed, length)) => Ok(TypeModel::Int { signed, length }),
            None => Err(unexpected(n)),
        },
        _ => Err(unexpected(n)),
    }
}

/// A variable declaration: an optional `Mutable` marker, then the type, the
/// name and the initial value.
pub open spec fn spec_var(n: Node) -> Result<AstModel, BuildError> {
    let cs = n.children@;
    let mutable = cs.len() > 0 && cs[0].rule == Rule::Mutable;
    let at: int = if mutable { 1 } else { 0 };
    if cs.len() < at + 3 {
        Err(missing(n))
    } else {
        match spec_type(cs[at]) {
            Err(e) => Err(e),
            Ok(t) => match spec_expr(cs[at + 2]) {
                Err(e) => Err(e),
                Ok(initial) => Ok(AstModel::Variable {
                    t,
                    mutable,
                    name: cs[at + 1].text@,
                    initial: Box::new(initial),
                }),
            },
        }
    }
}

/// What an assignment may assign to: a name or a dereference.
pub open spec fn is_target(a: AstModel) -> bool {
    ||| a is Reference
    ||| a matches AstModel::Expr { op: Operator::Deref, b: None, .. }
}

/// The type slot of an assignment target.
pub open spec fn target_type(a: AstModel) -> Option<TypeModel> {
    match a {
        AstModel::Reference { t, .. } => t,
        AstModel::Expr { t, .. } => t,
        _ => None,
    }
}

/// An assignment: target, then either the value, or an operator and the
/// value. `x op= e` is kept as `x := x op e`, with `op` recorded.
pub open spec fn spec_assign(n: Node) -> Result<AstModel, BuildError> {
    let cs = n.children@;
    if cs.len() < 2 {
        Err(missing(n))
    } else {
        match spec_expr(cs[0]) {
            Err(e) => Err(e),
            Ok(target) => if !is_target(target) {
                Err(BuildError::InvalidTarget { text: cs[0].text })
            } else if cs[1].rule == Rule::Expr {
                match spec_expr(cs[1]) {
                    Err(e) => Err(e),
                    Ok(value) => Ok(AstModel::AssignStmt {
                        target: Box::new(target),
                        op: None,
                        value: Box::new(value),
                    }),
                }
            } else {
                match spec_operator(cs[1]) {
                    Err(e) => Err(e),
                    Ok(op) => if cs.len() < 3 {
                        Err(missing(n))
                    } else {
                        match spec_expr(cs[2]) {
                            Err(e) => Err(e),
                            Ok(e) => Ok(AstModel::AssignStmt {
                                target: Box::new(target),
                                op: Some(op),
                                value: Box::new(AstModel::Expr {
                                    t: target_type(target),
                                    a: Box::new(target),
                                    op,
                                    b: Some(Box::new(e)),
                                }),
                            }),
                        }
                    },
                }
            },
        }
    }
}

/// A statement wrapper (`Stmt`) and the one statement inside it.
pub open spec fn spec_stmt(n: Node) -> Result<AstModel, BuildError> {
    let cs = n.children@;
    if n.rule != Rule::Stmt {
        Err(unexpected(n))
    } else if cs.len() == 0 {
        Err(missing(n))
    } else {
        let s = cs[0];
        let ss = s.children@;
        match s.rule {
            Rule::VarDec => spec_var(s),
            Rule::Assign => spec_assign(s),
            Rule::Enter => if ss.len() == 0 {
                Err(missing(s))
            } else {
                Ok(AstModel::EnterStmt { state: ss[0].text@ })
            },
            Rule::Run => if ss.len() == 0 {
                Err(missing(s))
            } else {
                match spec_expr(ss[0]) {
                    Err(e) => Err(e),
                    Ok(e) => Ok(AstModel::RunStmt { expr: Box::new(e) }),
                }
            },
            _ => Err(unexpected(s)),
        }
    }
}

/// The statements of a list of statement wrappers, in order; the first
/// error if any.
pub open spec fn spec_stmt_list(s: Seq<Node>) -> Result<Seq<AstModel>, BuildError>
    decreases s.len(),
{
    if s.len() == 0 {
        Ok(Seq::empty())
    } else {
        match spec_stmt_list(s.drop_last()) {
            Err(e) => Err(e),
            Ok(v) => match spec_stmt(s.last()) {
                Err(e) => Err(e),
                Ok(a) => Ok(v.push(a)),
            },
        }
    }
}

/// A statement list node (`Stmts`).
pub open spec fn spec_stmts(n: Node) -> Result<Seq<AstModel>, BuildError> {
    if n.rule != Rule::Stmts {
        Err(unexpected(n))
    } else {
        spec_stmt_list(n.children@)
    }
}

fn build_type(n: &Node) -> (r: Result<Type, BuildError>)
    ensures
        match r {
            Ok(t) => spec_type(*n) == Ok::<TypeModel, BuildError>(t@),
            Err(e) => spec_type(*n) == Err::<TypeModel, BuildError>(e),
        },
{
    match n.rule {
        Rule::BoolType => Ok(Type::Boolean),
        Rule::FloatType => Ok(Type::Float),
        Rule::DoubleType => Ok(Type::Double),
        Rule::PinType => match build_pin_kind(n) {
            Ok(k) => Ok(Type::Pin { pintype: Some(k), direction: None }),
            Err(e) => Err(e),
        },
        Rule::SerialType => Ok(Type::Serial),
        Rule::ProcType => Ok(Type::Proc),
        Rule::StringType => Ok(Type::String),
        Rule::CharType => Ok(Type::Char),
        Rule::TimeType => Ok(Type::Time),
        Rule::IntType => match int_type(n.text.as_str()) {
            Some((signed, length)) => Ok(Type::Int { signed, length }),
            None => Err(unexpected_rule(n)),
        },
        _ => Err(unexpected_rule(n)),
    }
}

/// Builds a variable declaration; it is immutable unless marked.
pub fn build_ast_var(n: &Node) -> (r: Result<AST, BuildError>)
    ensures
        ast_result(r) == spec_var(*n),
{
    let cs = &n.children;
    let mutable = cs.len() > 0 && cs[0].rule == Rule::Mutable;
    let at: usize = if mutable { 1 } else { 0 };
    if cs.len() < at + 3 {
        return Err(missing_child(n));
    }
    let t = match build_type(&cs[at]) {
        Ok(t) => t,
        Err(e) => {
            return Err(e);
        },
    };
    let initial = match build_ast_expr(&cs[at + 2]) {
        Ok(a) => a,
        Err(e) => {
            return Err(e);
        },
    };
    Ok(AST::Variable { t, mutable, name: cs[at + 1].text.clone(), initial: Box::new(initial) })
}

fn check_target(target: &AST, lhs: &Node) -> (r: Result<(), BuildError>)
    ensures
        r is Ok <==> is_target(target@),
        r is Err ==> r == Err::<(), BuildError>(BuildError::InvalidTarget { text: lhs.text }),
{
    match target {
        AST::Reference { .. } => Ok(()),
        AST::Expr { op: Operator::Deref, b: None, .. } => Ok(()),
        _ => Err(BuildError::InvalidTarget { text: lhs.text.clone() }),
    }
}

fn copy_target_type(target: &AST) -> (r: Option<Type>)
    ensures
        match r {
            Some(t) => target_type(target@) == Some(t@),
            None => target_type(target@) is None,
        },
{
    match target {
        AST::Reference { t: Some(t), .. } => Some(copy_type(t)),
        AST::Expr { t: Some(t), .. } => Some(copy_type(t)),
        _ => None,
    }
}

fn build_assign(n: &Node) -> (r: Result<AST, BuildError>)
    ensures
        ast_result(r) == spec_assign(*n),
{
    let cs = &n.children;
    if cs.len() < 2 {
        return Err(missing_child(n));
    }
    let target = match build_ast_expr(&cs[0]) {
        Ok(a) => a,
        Err(e) => {
            return Err(e);
        },
    };
    match check_target(&target, &cs[0]) {
        Ok(()) => {},
        Err(e) => {
            return Err(e);
        },
    }
    if cs[1].rule == Rule::Expr {
        let value = match build_ast_expr(&cs[1]) {
            Ok(a) => a,
            Err(e) => {
                return Err(e);
            },
        };
        return Ok(AST::AssignStmt { target: Box::new(target), op: None, value: Box::new(value) });
    }
    let op = match build_ast_operator(&cs[1]) {
        Ok(op) => op,
        Err(e) => {
            return Err(e);
        },
    };
    if cs.len() < 3 {
        return Err(missing_child(n));
    }
    let right = match build_ast_expr(&cs[2]) {
        Ok(a) => a,
        Err(e) => {
            return Err(e);
        },
    };
    let t = copy_target_type(&target);
    let a = copy_ast(&target);
    let value = AST::Expr { t, a: Box::new(a), op, b: Some(Box::new(right)) };
    assert(value@ == (AstModel::Expr {
        t: target_type(target@),
        a: Box::new(target@),
        op,
        b: Some(Box::new(right@)),
    }));
    Ok(AST::AssignStmt { target: Box::new(target), op: Some(op), value: Box::new(value) })
}

/// Builds the statement inside a statement wrapper: a variable declaration,
/// an assignment, a transition (`enter`) or a procedure run (`run`).
pub fn build_ast_stmt(n: &Node) -> (r: Result<AST, BuildError>)
    ensures
        ast_result(r) == spec_stmt(*n),
{
    if n.rule != Rule::Stmt {
        return Err(unexpected_rule(n));
    }
    if n.children.len() == 0 {
        return Err(missing_child(n));
    }
    let s = &n.children[0];
    match s.rule {
        Rule::VarDec => build_ast_var(s),
        Rule::Assign => build_assign(s),
        Rule::Enter => {
            if s.children.len() == 0 {
                Err(missing_child(s))
            } else {
                Ok(AST::EnterStmt { state: s.children[0].text.clone() })
            }
        },
        Rule::Run => {
            if s.children.len() == 0 {
                return Err(missing_child(s));
            }
            match build_ast_expr(&s.children[0]) {
                Ok(e) => Ok(AST::RunStmt { expr: Box::new(e) }),
                Err(e) => Err(e),
            }
        },
        _ => Err(unexpected_rule(s)),
    }
}

proof fn lemma_stmt_list_err(s: Seq<Node>, j: int, k: int)
    requires
        0 <= j <= k <= s.len(),
        spec_stmt_list(s.subrange(0, j)) is Err,
    ensures
        spec_stmt_list(s.subrange(0, k)) == spec_stmt_list(s.subrange(0, j)),
    decreases k,
{
    if k > j {
        lemma_stmt_list_err(s, j, k - 1);
        assert(s.subrange(0, k).drop_last() =~= s.subrange(0, k - 1));
    }
}

/// Builds the statements of a statement list node, in program order.
pub fn build_ast_stmts(n: &Node) -> (r: Result<Vec<AST>, BuildError>)
    ensures
        asts_result(r) == spec_stmts(*n),
{
    if n.rule != Rule::Stmts {
        return Err(unexpected_rule(n));
    }
    let ghost s = n.children@;
    let mut stmts: Vec<AST> = Vec::new();
    let mut i: usize = 0;
    assert(s.subrange(0, 0) =~= Seq::<Node>::empty());
    while i < n.children.len()
        invariant
            n.rule == Rule::Stmts,
            s == n.children@,
            i <= s.len(),
            spec_stmt_list(s.subrange(0, i as int)) == Ok::<Seq<AstModel>, BuildError>(asts_model(stmts@)),
        decreases s.len() - i,
    {
        let ghost t = s.subrange(0, i + 1);
        assert(t.drop_last() =~= s.subrange(0, i as int));
        let a = match build_ast_stmt(&n.children[i]) {
            Ok(a) => a,
            Err(e) => {
                proof {
                    lemma_stmt_list_err(s, i + 1, s.len() as int);
                    assert(s.subrange(0, s.len() as int) =~= s);
                }
                return Err(e);
            },
        };
        proof {
            lemma_asts_model_push(stmts@, a);
        }
        stmts.push(a);
        i += 1;
    }
    assert(s.subrange(0, s.len() as int) =~= s);
    Ok(stmts)
}

} // verus!
