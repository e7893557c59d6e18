//! The precedence-climbing parser: a flat token sequence becomes a formula
//! tree. One subformula (an atom, a negated subformula, or a bracketed
//! formula) is read greedily; then, while a binary connective follows, the
//! next subformula is read and combined with the accumulated formula. The
//! combination left-nests when the accumulated formula was bracketed or
//! binds more tightly than the new connective, rejects an unbracketed chain
//! of equal precedence, and otherwise re-associates by descending one level
//! into the accumulated formula's right child.

use vstd::prelude::*;

use crate::alphabet::{Alphabet, SecondaryFuncName};
use crate::formula::Formula;

verus! {

/// How one more connective and right operand attach to the accumulated
/// formula: left-nesting, rejection of an equal-precedence chain, or a
/// one-level re-association for a connective that binds more tightly.
pub open spec fn spec_combine(
    acc: Formula,
    name: SecondaryFuncName,
    rhs: Formula,
    flag: bool,
) -> Option<Formula> {
    if flag || acc.spec_precedence() > name.spec_precedence() {
        Some(Formula::SecondaryFunc { name, lhs: Box::new(acc), rhs: Box::new(rhs) })
    } else if acc.spec_precedence() == name.spec_precedence() {
        None
    } else {
        match acc {
            Formula::SecondaryFunc { name: name0, lhs: lhs0, rhs: rhs0 } => Some(
                Formula::SecondaryFunc {
                    name: name0,
                    lhs: lhs0,
                    rhs: Box::new(Formula::SecondaryFunc { name, lhs: rhs0, rhs: Box::new(rhs) }),
                },
            ),
            _ => None,
        }
    }
}

/// The subformula read greedily at `pos`: its tree, whether it was
/// bracketed, and the position just past it; `None` when the tokens at `pos`
/// begin no subformula.
pub open spec fn spec_subformula(s: Seq<Alphabet>, pos: int) -> Option<(Formula, bool, int)>
    decreases s.len() - pos, 1int,
{
    if pos < 0 || pos >= s.len() {
        None
    } else {
        match s[pos] {
            Alphabet::Letter(c) => Some((Formula::Letter(c), false, pos + 1)),
            Alphabet::True => Some((Formula::True, false, pos + 1)),
            Alphabet::False => Some((Formula::False, false, pos + 1)),
            Alphabet::Negation => match spec_subformula(s, pos + 1) {
                Some((f, _b, q)) => Some((Formula::Negation(Box::new(f)), false, q)),
                None => None,
            },
            Alphabet::OpenBracket => match spec_bracketed_formula(s, pos) {
                Some((f, q)) => Some((f, true, q)),
                None => None,
            },
            _ => None,
        }
    }
}

/// The bracketed formula read at `pos`: an open bracket, a full formula, and
/// the matching close bracket; `None` on any structural fault.
pub open spec fn spec_bracketed_formula(s: Seq<Alphabet>, pos: int) -> Option<(Formula, int)>
    decreases s.len() - pos, 0int,
{
    if pos < 0 || pos >= s.len() || !(s[pos] is OpenBracket) {
        None
    } else {
        match spec_subformula(s, pos + 1) {
            None => None,
            Some((f, b, q)) => if q <= pos + 1 || q > s.len() {
                None  // unreachable: a subformula consumes at least one token and stays in bounds
            } else {
                match spec_climb(s, q, f, b) {
                    None => None,
                    Some((g, r)) => if r < s.len() && s[r] is CloseBracket {
                        Some((g, r + 1))
                    } else {
                        None
                    },
                }
            },
        }
    }
}

/// The operator loop: while the token at `pos` is a binary connective, reads
/// it and the following subformula and combines; stops just before the first
/// token that is no connective, or at the end of the tokens.
pub open spec fn spec_climb(s: Seq<Alphabet>, pos: int, acc: Formula, flag: bool) -> Option<
    (Formula, int),
>
    decreases s.len() - pos, 2int,
{
    if pos < 0 || pos >= s.len() {
        Some((acc, pos))
    } else {
        match s[pos] {
            Alphabet::SecondaryFunc(name) => match spec_subformula(s, pos + 1) {
                None => None,
                Some((rhs, _b, q)) => if q <= pos + 1 || q > s.len() {
                    None  // unreachable: a subformula consumes at least one token and stays in bounds
                } else {
                    match spec_combine(acc, name, rhs, flag) {
                        None => None,
                        Some(acc2) => spec_climb(s, q, acc2, flag),
                    }
                },
            },
            _ => Some((acc, pos)),
        }
    }
}

/// The parse of a whole token sequence: one subformula, then the operator
/// loop, which must consume every token.
pub open spec fn spec_parse(s: Seq<Alphabet>) -> Option<Formula> {
    match spec_subformula(s, 0) {
        None => None,
        Some((f, b, q)) => match spec_climb(s, q, f, b) {
            None => None,
            Some((g, r)) => if r == s.len() {
                Some(g)
            } else {
                None
            },
        },
    }
}

impl Formula {
    fn combine(acc: Formula, name: SecondaryFuncName, rhs: Formula, flag: bool) -> (r: Result<
        Formula,
        (),
    >)
        ensures
            match r {
                Ok(f) => spec_combine(acc, name, rhs, flag) == Some(f),
                Err(_) => spec_combine(acc, name, rhs, flag) is None,
            },
    {
        let ap = acc.precedence();
        let np = name.precedence();
        if flag || ap > np {
            Ok(Formula::SecondaryFunc { name, lhs: Box::new(acc), rhs: Box::new(rhs) })
        } else if ap == np {
            Err(())
        } else {
            match acc {
                Formula::SecondaryFunc { name: name0, lhs: lhs0, rhs: rhs0 } => Ok(
                    Formula::SecondaryFunc {
                        name: name0,
                        lhs: lhs0,
                        rhs: Box::new(
                            Formula::SecondaryFunc { name, lhs: rhs0, rhs: Box::new(rhs) },
                        ),
                    },
                ),
                _ => Err(()),
            }
        }
    }

    fn climb(sentence: &[Alphabet], pos: usize, acc: Formula, flag: bool) -> (r: Result<
        (Formula, usize),
        (),
    >)
        requires
            pos <= sentence.len(),
        ensures
            match r {
                Ok((g, q)) => spec_climb(sentence@, pos as int, acc, flag) == Some((g, q as int))
                    && pos <= q <= sentence.len(),
                Err(_) => spec_climb(sentence@, pos as int, acc, flag) is None,
            },
        decreases sentence.len() - pos, 2int,
    {
        if pos >= sentence.len() {
            return Ok((acc, pos));
        }
        match &sentence[pos] {
            Alphabet::SecondaryFunc(name) => {
                let name = *name;
                match Self::get_subformula(sentence, pos + 1) {
                    Err(_) => Err(()),
                    Ok((rhs, _b2, q)) => match Self::combine(acc, name, rhs, flag) {
                        Err(_) => Err(()),
                        Ok(acc2) => Self::climb(sentence, q, acc2, flag),
                    },
                }
            },
            _ => Ok((acc, pos)),
        }
    }

    fn get_subformula(sentence: &[Alphabet], pos: usize) -> (r: Result<(Formula, bool, usize), ()>)
        ensures
            match r {
                Ok((f, b, q)) => spec_subformula(sentence@, pos as int) == Some(
                    (f, b, q as int),
                ) && pos < q <= sentence.len(),
                Err(_) => spec_subformula(sentence@, pos as int) is None,
            },
        decreases sentence.len() - pos, 1int,
    {
        if pos >= sentence.len() {
            return Err(());
        }
        match &sentence[pos] {
            Alphabet::Letter(c) => Ok((Formula::Letter(*c), false, pos + 1)),
            Alphabet::True => Ok((Formula::True, false, pos + 1)),
            Alphabet::False => Ok((Formula::False, false, pos + 1)),
            Alphabet::Negation => match Self::get_subformula(sentence, pos + 1) {
                Err(_) => Err(()),
                Ok((f, _b, q)) => Ok((Formula::Negation(Box::new(f)), false, q)),
            },
            Alphabet::OpenBracket => match Self::get_bracketed(sentence, pos) {
                Err(_) => Err(()),
                Ok((f, q)) => Ok((f, true, q)),
            },
            _ => Err(()),
        }
    }

    fn get_bracketed(sentence: &[Alphabet], pos: usize) -> (r: Result<(Formula, usize), ()>)
        ensures
            match r {
                Ok((f, q)) => spec_bracketed_formula(sentence@, pos as int) == Some(
                    (f, q as int),
                ) && pos < q <= sentence.len(),
                Err(_) => spec_bracketed_formula(sentence@, pos as int) is None,
            },
        decreases sentence.len() - pos, 0int,
    {
        if pos >= sentence.len() {
            return Err(());
        }
        let is_open = match &sentence[pos] {
            Alphabet::OpenBracket => true,
            _ => false,
        };
        if !is_open {
            return Err(());
        }
        match Self::get_subformula(sentence, pos + 1) {
            Err(_) => Err(()),
            Ok((f, b, q)) => match Self::climb(sentence, q, f, b) {
                Err(_) => Err(()),
                Ok((g, r2)) => {
                    if r2 < sentence.len() {
                        match &sentence[r2] {
                            Alphabet::CloseBracket => Ok((g, r2 + 1)),
                            _ => Err(()),
                        }
                    } else {
                        Err(())
                    }
                },
            },
        }
    }

    /// Parses a token sequence into a formula; `Err` on any structurally
    /// invalid sequence, including an unbracketed chain of equal-precedence
    /// connectives.
    pub fn parse(sentence: &[Alphabet]) -> (r: Result<Formula, ()>)
        ensures
            match r {
                Ok(f) => spec_parse(sentence@) == Some(f),
                Err(_) => spec_parse(sentence@) is None,
            },
    {
        match Self::get_subformula(sentence, 0) {
            Err(_) => Err(()),
            Ok((f, b, q)) => match Self::climb(sentence, q, f, b) {
                Err(_) => Err(()),
                Ok((g, r2)) => {
                    if r2 == sentence.len() {
                        Ok(g)
                    } else {
                        Err(())
                    }
                },
            },
        }
    }
}

} // verus!
