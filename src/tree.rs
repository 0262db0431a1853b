//! The labelled parse tree that the builders read.

use vstd::prelude::*;

verus! {

/// The rule tags of the grammar: every node of a parse tree carries one.
#[derive(Debug, Clone, Copy, PartialEq, Eq, Structural)]
pub enum Rule {
    Program,
    Decs,
    StateDec,
    StateName,
    VarDec,
    VarName,
    Mutable,
    ReactOnenter,
    ReactAlways,
    ReactEvery,
    ReactAfter,
    ReactWhen,
    WhenOp,
    Case,
    Result,
    TimeUnit,
    Stmts,
    Stmt,
    Assign,
    Enter,
    Run,
    BoolType,
    FloatType,
    DoubleType,
    PinType,
    SerialType,
    ProcType,
    StringType,
    CharType,
    TimeType,
    IntType,
    Expr,
    ExprBOr,
    ExprBXor,
    ExprBAnd,
    ExprBitOr,
    ExprBitXor,
    ExprBitAnd,
    ExprShift,
    ExprComp,
    ExprMult,
    ExprAdd,
    ExprNeg,
    ExprOld,
    ExprDeref,
    ExprCall,
    ExprParen,
    AritOp,
    BitOp,
    BoolOp,
    CompOp,
    ChangeOp,
    AritAddOp,
    AritSubOp,
    AritMultOp,
    AritDivOp,
    AritModOp,
    AritNegOp,
    AritPosOp,
    BitAndOp,
    BitOrOp,
    BitXorOp,
    BitShiftLeftOp,
    BitShiftRightOp,
    BitNegOp,
    BoolOrOp,
    BoolAndOp,
    BoolXorOp,
    BoolNegOp,
    CompEOp,
    CompNEOp,
    CompLEOp,
    CompGEOp,
    CompLOp,
    CompGOp,
    ChangedOp,
    NotChangedOp,
    OldOp,
    DerefOp,
    Con,
    BinCon,
    OctCon,
    HexCon,
    DecCon,
    PinCon,
    PinPinType,
    PinAnalog,
    PinDigital,
    PinInput,
    PinOutput,
    PinPullup,
}

/// One node of a parse tree: its rule tag, the source text it matched, and
/// its children in source order.
#[derive(Debug)]
pub struct Node {
    pub rule: Rule,
    pub text: String,
    pub children: Vec<Node>,
}

/// Why a parse tree could not be turned into a syntax tree. Each variant
/// names the node at fault by its tag and its source text.
#[derive(Debug, PartialEq, Eq)]
pub enum BuildError {
    /// A node whose tag is none of those allowed where it stands.
    UnexpectedRule { rule: Rule, text: String },
    /// A node that lacks a child it must have.
    MissingChild { rule: Rule, text: String },
    /// A numeric literal with a character that is no digit of its base.
    InvalidLiteral { text: String },
    /// The left-hand side of an assignment that is neither a name nor a
    /// dereference.
    InvalidTarget { text: String },
    /// A second on-enter block in one declaration block.
    DuplicateOnenter { text: String },
}

/// The error that names `n` as out of place.
pub open spec fn unexpected(n: Node) -> BuildError {
    BuildError::UnexpectedRule { rule: n.rule, text: n.text }
}

/// The error that names `n` as lacking a child.
pub open spec fn missing(n: Node) -> BuildError {
    BuildError::MissingChild { rule: n.rule, text: n.text }
}

/// The error for a node whose tag is not allowed where it stands.
pub fn unexpected_rule(n: &Node) -> (e: BuildError)
    ensures
        e == unexpected(*n),
{
    BuildError::UnexpectedRule { rule: n.rule, text: n.text.clone() }
}

/// The error for a node that lacks a child it must have.
pub fn missing_child(n: &Node) -> (e: BuildError)
    ensures
        e == missing(*n),
{
    BuildError::MissingChild { rule: n.rule, text: n.text.clone() }
}

/// The characters of `s` from position `start` on (none where `start` is
/// past the end).
pub fn chars_from(s: &str, start: usize) -> (r: Vec<char>)
    ensures
        start <= s@.len() ==> r@ == s@.subrange(start as int, s@.len() as int),
        start > s@.len() ==> r@.len() == 0,
{
    let len = s.unicode_len();
    let mut r: Vec<char> = Vec::new();
    let mut i: usize = start;
    while i < len
        invariant
            len == s@.len(),
            start <= i,
            start <= len ==> i <= len,
            start <= len ==> r@ == s@.subrange(start as int, i as int),
            start > len ==> r@.len() == 0,
        decreases len - i,
    {
        r.push(s.get_char(i));
        assert(r@ =~= s@.subrange(start as int, i + 1));
        i += 1;
    }
    r
}

} // verus!
