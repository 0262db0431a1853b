//! Numeric literals: digits, bases and their values.

use vstd::prelude::*;
use crate::structures::{AST, AstModel, ast_result, PinDirection, PinType, Type, TypeModel};
use crate::tree::{BuildError, Node, Rule, chars_from, missing, missing_child, unexpected, unexpected_rule};

verus! {

/// The value of a digit character, in any base up to sixteen.
pub open spec fn digit_value(c: char) -> Option<nat> {
    if '0' <= c && c <= '9' {
        Some((c as nat - '0' as nat) as nat)
    } else if 'a' <= c && c <= 'f' {
        Some((c as nat - 'a' as nat + 10) as nat)
    } else if 'A' <= c && c <= 'F' {
        Some((c as nat - 'A' as nat + 10) as nat)
    } else {
        None
    }
}

/// The value of a digit character: `0`-`9`, then `a`-`f` (either case) for ten to fifteen.
pub fn char_to_num(c: char) -> (r: Option<u32>)
    ensures
        r is Some <==> digit_value(c) is Some,
        r is Some ==> r->0 as nat == digit_value(c)->0,
{
    if '0' <= c && c <= '9' {
        Some(c as u32 - '0' as u32)
    } else if 'a' <= c && c <= 'f' {
        Some(c as u32 - 'a' as u32 + 10)
    } else if 'A' <= c && c <= 'F' {
        Some(c as u32 - 'A' as u32 + 10)
    } else {
        None
    }
}

/// The value of a digit sequence read in `base`, most significant digit
/// first; `None` where a character is no digit below `base`.
pub open spec fn digits_value(s: Seq<char>, base: nat) -> Option<nat>
    decreases s.len(),
{
    if s.len() == 0 {
        Some(0)
    } else {
        match digits_value(s.drop_last(), base) {
            Some(v) => match digit_value(s.last()) {
                Some(d) => if d < base {
                    Some(v * base + d)
                } else {
                    None
                },
                None => None,
            },
            None => None,
        }
    }
}

/// A prefix of a valid digit sequence is valid and has no greater value.
proof fn lemma_prefix_value(s: Seq<char>, base: nat, k: int)
    requires
        0 <= k <= s.len(),
        base >= 1,
        digits_value(s, base) is Some,
    ensures
        digits_value(s.subrange(0, k), base) is Some,
        digits_value(s.subrange(0, k), base)->0 <= digits_value(s, base)->0,
    decreases s.len(),
{
    if k < s.len() {
        let p = s.drop_last();
        lemma_prefix_value(p, base, k);
        assert(p.subrange(0, k) =~= s.subrange(0, k));
        let v = digits_value(p, base)->0;
        let d = digit_value(s.last())->0;
        assert(v <= v * base + d) by (nonlinear_arith)
            requires base >= 1;
    } else {
        assert(s.subrange(0, k) =~= s);
    }
}

/// Reads `chars` as the digits of a number in `base`, most significant
/// first. `None` where a character is not a digit below `base`, or where the
/// value does not fit in 32 bits.
pub fn parse_chars_in_base(base: u32, chars: &[char]) -> (r: Option<u32>)
    requires
        2 <= base <= 16,
    ensures
        r is Some <==> (digits_value(chars@, base as nat) is Some
            && digits_value(chars@, base as nat)->0 <= u32::MAX),
        r is Some ==> r->0 as nat == digits_value(chars@, base as nat)->0,
{
    let mut value: u32 = 0;
    let mut i: usize = 0;
    while i < chars.len()
        invariant
            2 <= base <= 16,
            i <= chars@.len(),
            digits_value(chars@.subrange(0, i as int), base as nat) == Some(value as nat),
        decreases chars.len() - i,
    {
        let c = chars[i];
        let ghost prefix = chars@.subrange(0, i + 1);
        assert(prefix.drop_last() =~= chars@.subrange(0, i as int));
        assert(prefix.last() == c);
        let d = match char_to_num(c) {
            Some(d) => d,
            None => {
                proof {
                    if digits_value(chars@, base as nat) is Some {
                        lemma_prefix_value(chars@, base as nat, i + 1);
                    }
                }
                return None;
            },
        };
        if d >= base {
            proof {
                if digits_value(chars@, base as nat) is Some {
                    lemma_prefix_value(chars@, base as nat, i + 1);
                }
            }
            return None;
        }
        assert(value as u64 * base as u64 <= 16 * 0xffff_ffffu64) by (nonlinear_arith)
            requires
                value <= 0xffff_ffffu32,
                base <= 16,
        ;
        let next: u64 = value as u64 * base as u64 + d as u64;
        assert(next == value as nat * base as nat + d as nat);
        if next > u32::MAX as u64 {
            proof {
                if digits_value(chars@, base as nat) is Some {
                    lemma_prefix_value(chars@, base as nat, i + 1);
                }
            }
            return None;
        }
        value = next as u32;
        i += 1;
    }
    assert(chars@.subrange(0, chars@.len() as int) =~= chars@);
    Some(value)
}

/// The type of every numeric literal: unsigned, 32 bits wide.
pub open spec fn literal_type() -> TypeModel {
    TypeModel::Int { signed: false, length: 32 }
}

/// The digits of a prefixed literal (`0b`, `0o`, `0x`): its text past the
/// first two characters.
pub open spec fn prefix_stripped(s: Seq<char>) -> Seq<char> {
    if s.len() >= 2 {
        s.subrange(2, s.len() as int)
    } else {
        Seq::empty()
    }
}

/// The constant that a numeric literal of text `text` and digits `digits`
/// in `base` stands for: an unsigned 32-bit constant whatever its size,
/// whose value is kept where it fits in 32 bits. Only a character that is
/// no digit of the base makes it an error.
pub open spec fn number_con(text: String, digits: Seq<char>, base: nat) -> Result<AstModel, BuildError> {
    match digits_value(digits, base) {
        Some(v) => Ok(AstModel::Con {
            t: literal_type(),
            value: if v <= u32::MAX {
                Some(v as u32)
            } else {
                None
            },
        }),
        None => Err(BuildError::InvalidLiteral { text }),
    }
}

/// The analog/digital kind of a pin-kind node (`PinPinType`).
pub open spec fn spec_pin_kind(n: Node) -> Result<PinType, BuildError> {
    if n.children@.len() == 0 {
        Err(missing(n))
    } else {
        let k = n.children@[0];
        if k.rule == Rule::PinAnalog {
            Ok(PinType::Analog)
        } else if k.rule == Rule::PinDigital {
            Ok(PinType::Digital)
        } else {
            Err(unexpected(k))
        }
    }
}

/// The constant of a pin literal: an optional kind, then `output`, or
/// `input` with a pull-up marker after it or not.
pub open spec fn spec_pin(n: Node) -> Result<AstModel, BuildError> {
    let cs = n.children@;
    let has_kind = cs.len() > 0 && cs[0].rule == Rule::PinPinType;
    let kind = if has_kind {
        match spec_pin_kind(cs[0]) {
            Ok(k) => Ok(Some(k)),
            Err(e) => Err(e),
        }
    } else {
        Ok(None)
    };
    let at: int = if has_kind { 1 } else { 0 };
    match kind {
        Err(e) => Err(e),
        Ok(pintype) => if cs.len() <= at {
            Err(missing(n))
        } else {
            let d = cs[at];
            if d.rule == Rule::PinOutput {
                Ok(AstModel::Con {
                    t: TypeModel::Pin { pintype, direction: Some(PinDirection::Output) },
                    value: None,
                })
            } else if d.rule == Rule::PinInput {
                let pullup = cs.len() > at + 1 && cs[at + 1].rule == Rule::PinPullup;
                Ok(AstModel::Con {
                    t: TypeModel::Pin { pintype, direction: Some(PinDirection::Input { pullup }) },
                    value: None,
                })
            } else {
                Err(unexpected(d))
            }
        },
    }
}

/// What a literal node (`Con`) stands for, by the tag of its one child:
/// a number in base two, eight, sixteen or ten, a pin literal, or a name.
pub open spec fn spec_con(n: Node) -> Result<AstModel, BuildError> {
    if n.children@.len() == 0 {
        Err(missing(n))
    } else {
        let c = n.children@[0];
        match c.rule {
            Rule::BinCon => number_con(c.text, prefix_stripped(c.text@), 2),
            Rule::OctCon => number_con(c.text, prefix_stripped(c.text@), 8),
            Rule::HexCon => number_con(c.text, prefix_stripped(c.text@), 16),
            Rule::DecCon => number_con(c.text, c.text@, 10),
            Rule::PinCon => spec_pin(c),
            Rule::VarName => Ok(AstModel::Reference { t: None, name: c.text@ }),
            _ => Err(unexpected(c)),
        }
    }
}

/// Whether every character of `chars` is a digit below `base`.
fn all_digits(base: u32, chars: &[char]) -> (r: bool)
    requires
        2 <= base <= 16,
    ensures
        r == (digits_value(chars@, base as nat) is Some),
{
    let mut i: usize = 0;
    while i < chars.len()
        invariant
            2 <= base <= 16,
            i <= chars@.len(),
            digits_value(chars@.subrange(0, i as int), base as nat) is Some,
        decreases chars.len() - i,
    {
        let ghost prefix = chars@.subrange(0, i + 1);
        assert(prefix.drop_last() =~= chars@.subrange(0, i as int));
        assert(prefix.last() == chars@[i as int]);
        let ok = match char_to_num(chars[i]) {
            Some(d) => d < base,
            None => false,
        };
        if !ok {
            proof {
                if digits_value(chars@, base as nat) is Some {
                    lemma_prefix_value(chars@, base as nat, i + 1);
                }
            }
            return false;
        }
        i += 1;
    }
    assert(chars@.subrange(0, chars@.len() as int) =~= chars@);
    true
}

fn build_number(n: &Node, skip: usize, base: u32) -> (r: Result<AST, BuildError>)
    requires
        skip == 0 || skip == 2,
        2 <= base <= 16,
    ensures
        ast_result(r) == number_con(
            n.text,
            if skip == 2 { prefix_stripped(n.text@) } else { n.text@ },
            base as nat,
        ),
{
    let digits = chars_from(n.text.as_str(), skip);
    proof {
        if skip == 0 {
            assert(n.text@.subrange(0, n.text@.len() as int) =~= n.text@);
        } else if n.text@.len() < 2 {
            assert(digits@ =~= prefix_stripped(n.text@));
        }
    }
    if !all_digits(base, digits.as_slice()) {
        return Err(BuildError::InvalidLiteral { text: n.text.clone() });
    }
    let value = parse_chars_in_base(base, digits.as_slice());
    Ok(AST::Con { t: Type::Int { signed: false, length: 32 }, value })
}

pub(crate) fn build_pin_kind(n: &Node) -> (r: Result<PinType, BuildError>)
    ensures
        r == spec_pin_kind(*n),
{
    if n.children.len() == 0 {
        return Err(missing_child(n));
    }
    let k = &n.children[0];
    match k.rule {
        Rule::PinAnalog => Ok(PinType::Analog),
        Rule::PinDigital => Ok(PinType::Digital),
        _ => Err(unexpected_rule(k)),
    }
}

fn build_pin(n: &Node) -> (r: Result<AST, BuildError>)
    ensures
        ast_result(r) == spec_pin(*n),
{
    let cs = &n.children;
    let has_kind = cs.len() > 0 && cs[0].rule == Rule::PinPinType;
    let mut at: usize = 0;
    let mut pintype: Option<PinType> = None;
    if has_kind {
        match build_pin_kind(&cs[0]) {
            Ok(k) => {
                pintype = Some(k);
            },
            Err(e) => {
                return Err(e);
            },
        }
        at = 1;
    }
    if cs.len() <= at {
        return Err(missing_child(n));
    }
    let d = &cs[at];
    let direction = match d.rule {
        Rule::PinOutput => PinDirection::Output,
        Rule::PinInput => {
            let pullup = cs.len() > at + 1 && cs[at + 1].rule == Rule::PinPullup;
            PinDirection::Input { pullup }
        },
        _ => {
            return Err(unexpected_rule(d));
        },
    };
    Ok(AST::Con { t: Type::Pin { pintype, direction: Some(direction) }, value: None })
}

/// Builds the constant or the name that a literal node stands for.
pub fn build_ast_con(n: &Node) -> (r: Result<AST, BuildError>)
    ensures
        ast_result(r) == spec_con(*n),
{
    if n.children.len() == 0 {
        return Err(missing_child(n));
    }
    let c = &n.children[0];
    match c.rule {
        Rule::BinCon => build_number(c, 2, 2),
        Rule::OctCon => build_number(c, 2, 8),
        Rule::HexCon => build_number(c, 2, 16),
        Rule::DecCon => build_number(c, 0, 10),
        Rule::PinCon => build_pin(c),
        Rule::VarName => Ok(AST::Reference { t: None, name: c.text.clone() }),
        _ => Err(unexpected_rule(c)),
    }
}

} // verus!
