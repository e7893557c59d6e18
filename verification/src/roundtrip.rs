//! The printer/parser agreement: parsing the canonical token sequence of a
//! formula gives the formula back. The parser re-associates a connective of
//! rising precedence exactly one level deep into the accumulated formula,
//! and it keeps the bracket flag of the first subformula for the whole
//! operator loop; the agreement therefore holds for the formulas whose
//! printed skeleton never asks for more, and they are characterized here
//! structurally. A right-hand chain of strictly rising precedence two
//! connectives deep, such as `P ↔ Q → R ∧ S`, falls outside the class, and
//! so does a formula whose printed form opens with a bracketed group that
//! the connectives do not consume left to right.

use vstd::prelude::*;

use crate::alphabet::{Alphabet, SecondaryFuncName};
use crate::formula::{spec_bracketed, Formula};
use crate::parser::{
    spec_bracketed_formula, spec_climb, spec_combine, spec_parse, spec_subformula,
};

verus! {

/// The tokens of `t` stand in `s` from position `i` on.
spec fn tokens_at(s: Seq<Alphabet>, i: int, t: Seq<Alphabet>) -> bool {
    &&& 0 <= i
    &&& i + t.len() <= s.len()
    &&& forall|k: int| 0 <= k < t.len() ==> s[i + k] == t[k]
}

proof fn lemma_tokens_at_split(s: Seq<Alphabet>, i: int, a: Seq<Alphabet>, b: Seq<Alphabet>)
    requires
        tokens_at(s, i, a + b),
    ensures
        tokens_at(s, i, a),
        tokens_at(s, i + a.len(), b),
{
    assert forall|k: int| 0 <= k < a.len() implies s[i + k] == a[k] by {
        assert((a + b)[k] == a[k]);
    }
    assert forall|k: int| 0 <= k < b.len() implies s[i + a.len() + k] == b[k] by {
        assert((a + b)[a.len() + k] == b[k]);
        assert(s[i + (a.len() + k)] == (a + b)[a.len() + k]);
    }
}

/// Every formula prints to at least one token.
proof fn lemma_sentence_nonempty(f: Formula)
    ensures
        f.spec_sentence().len() >= 1,
{
    match f {
        Formula::Letter(_) => {},
        Formula::True => {},
        Formula::False => {},
        Formula::Negation(_) => {},
        Formula::SecondaryFunc { .. } => {},
    }
}

/// Whether the leftmost unit of the formula's unbracketed printed skeleton
/// is a bracketed group; that is what sets the parser's bracket flag.
pub open spec fn spec_leading_bracketed(f: Formula) -> bool
    decreases f,
{
    match f {
        Formula::SecondaryFunc { name, lhs, .. } => {
            if lhs.spec_precedence() <= name.spec_precedence() {
                true
            } else {
                spec_leading_bracketed(*lhs)
            }
        },
        _ => false,
    }
}

/// Round-trip condition for a unit of the skeleton: an atom or a chain of
/// negations, whose bracketed operand, if any, must round-trip in full.
pub open spec fn spec_rt_unit(f: Formula) -> bool
    decreases f, 0int,
{
    match f {
        Formula::Negation(sub) => if sub.spec_precedence() < 4 {
            spec_round_trippable(*sub)
        } else {
            spec_rt_unit(*sub)
        },
        Formula::SecondaryFunc { .. } => false,
        _ => true,
    }
}

/// Round-trip condition for an unbracketed skeleton whose leftmost unit is
/// not a group. `deep` says that the skeleton already hangs in the right
/// subtree of an enclosing connective: one level of re-association is then
/// spent, so a further unbracketed binary right child is out.
pub open spec fn spec_rt_skel(f: Formula, deep: bool) -> bool
    decreases f, 1int,
{
    match f {
        Formula::SecondaryFunc { name, lhs, rhs } => {
            let p = name.spec_precedence();
            let l_ok = if lhs.spec_precedence() <= p {
                spec_round_trippable(*lhs)
            } else if *lhs is SecondaryFunc {
                spec_rt_skel(*lhs, deep)
            } else {
                spec_rt_unit(*lhs)
            };
            let r_ok = if rhs.spec_precedence() <= p {
                spec_round_trippable(*rhs)
            } else if *rhs is SecondaryFunc {
                !deep && spec_rt_skel(*rhs, true)
            } else {
                spec_rt_unit(*rhs)
            };
            l_ok && r_ok
        },
        _ => spec_rt_unit(f),
    }
}

/// Round-trip condition for a skeleton whose leftmost unit is a bracketed
/// group: the parser then left-nests every connective, so the skeleton must
/// be fully left-nested.
pub open spec fn spec_lnest(f: Formula) -> bool
    decreases f, 1int,
{
    match f {
        Formula::SecondaryFunc { name, lhs, rhs } => {
            let p = name.spec_precedence();
            let l_ok = if lhs.spec_precedence() <= p {
                spec_round_trippable(*lhs)
            } else if *lhs is SecondaryFunc {
                spec_lnest(*lhs)
            } else {
                spec_rt_unit(*lhs)
            };
            let r_ok = if rhs.spec_precedence() <= p {
                spec_round_trippable(*rhs)
            } else if *rhs is SecondaryFunc {
                false
            } else {
                spec_rt_unit(*rhs)
            };
            l_ok && r_ok
        },
        _ => false,
    }
}

/// The formulas whose canonical printed form parses back to the formula
/// itself: the printer/parser precedence agreement holds of exactly the
/// shapes that the parser's one-level re-association and single bracket
/// flag can rebuild.
pub open spec fn spec_round_trippable(f: Formula) -> bool
    decreases f, 2int,
{
    match f {
        Formula::SecondaryFunc { .. } => if spec_leading_bracketed(f) {
            spec_lnest(f)
        } else {
            spec_rt_skel(f, false)
        },
        _ => spec_rt_unit(f),
    }
}

/// A subformula at a position where an atom or a negation chain is printed
/// unbracketed parses to exactly that unit.
proof fn lemma_unit_unbracketed(s: Seq<Alphabet>, i: int, f: Formula)
    requires
        f.spec_precedence() >= 4,
        spec_rt_unit(f),
        tokens_at(s, i, f.spec_sentence()),
    ensures
        spec_subformula(s, i) == Some((f, false, i + f.spec_sentence().len())),
        i < i + f.spec_sentence().len() <= s.len(),
    decreases f, 0int,
{
    lemma_sentence_nonempty(f);
    match f {
        Formula::Letter(c) => {
            assert(s[i + 0] == f.spec_sentence()[0]);
            assert(spec_subformula(s, i) == Some((f, false, i + 1)));
        },
        Formula::True => {
            assert(s[i + 0] == f.spec_sentence()[0]);
            assert(spec_subformula(s, i) == Some((f, false, i + 1)));
        },
        Formula::False => {
            assert(s[i + 0] == f.spec_sentence()[0]);
            assert(spec_subformula(s, i) == Some((f, false, i + 1)));
        },
        Formula::Negation(sub) => {
            let neg = seq![Alphabet::Negation];
            if sub.spec_precedence() < 4 {
                let inner = spec_bracketed(sub.spec_sentence());
                assert(f.spec_sentence() == neg + inner);
                lemma_tokens_at_split(s, i, neg, inner);
                assert(s[i + 0] == neg[0]);
                lemma_unit_group(s, i + 1, *sub);
                assert(spec_subformula(s, i) == Some(
                    (f, false, i + 1 + sub.spec_sentence().len() + 2),
                ));
            } else {
                assert(f.spec_sentence() == neg + sub.spec_sentence());
                lemma_tokens_at_split(s, i, neg, sub.spec_sentence());
                assert(s[i + 0] == neg[0]);
                lemma_unit_unbracketed(s, i + 1, *sub);
                assert(spec_subformula(s, i) == Some(
                    (f, false, i + 1 + sub.spec_sentence().len()),
                ));
            }
        },
        Formula::SecondaryFunc { .. } => {
            assert(false);
        },
    }
}

/// A subformula at a position where a formula is printed inside brackets
/// parses to the bracketed formula, with the bracket flag set.
proof fn lemma_unit_group(s: Seq<Alphabet>, i: int, f: Formula)
    requires
        spec_round_trippable(f),
        tokens_at(s, i, spec_bracketed(f.spec_sentence())),
    ensures
        spec_subformula(s, i) == Some((f, true, i + f.spec_sentence().len() + 2)),
        i < i + f.spec_sentence().len() + 2 <= s.len(),
    decreases f, 4int,
{
    lemma_brk(s, i, f);
    let opn = seq![Alphabet::OpenBracket];
    let cls = seq![Alphabet::CloseBracket];
    lemma_tokens_at_split(s, i, opn + f.spec_sentence(), cls);
    lemma_tokens_at_split(s, i, opn, f.spec_sentence());
    assert(s[i + 0] == opn[0]);
    assert(spec_subformula(s, i) == Some((f, true, i + f.spec_sentence().len() + 2)));
}

/// A bracketed region parses to the formula it prints: the open bracket,
/// the formula's own region, and the matching close bracket.
proof fn lemma_brk(s: Seq<Alphabet>, i: int, f: Formula)
    requires
        spec_round_trippable(f),
        tokens_at(s, i, spec_bracketed(f.spec_sentence())),
    ensures
        spec_bracketed_formula(s, i) == Some((f, i + f.spec_sentence().len() + 2)),
        i < i + f.spec_sentence().len() + 2 <= s.len(),
    decreases f, 3int,
{
    lemma_sentence_nonempty(f);
    let t = f.spec_sentence();
    let opn = seq![Alphabet::OpenBracket];
    let cls = seq![Alphabet::CloseBracket];
    lemma_tokens_at_split(s, i, opn + t, cls);
    lemma_tokens_at_split(s, i, opn, t);
    assert(s[i + 0] == opn[0]);
    let close_at = i + 1 + t.len();
    assert(s[close_at + 0] == cls[0]);
    let u = lemma_formula_region(s, i + 1, f);
    assert(spec_bracketed_formula(s, i) == Some((f, close_at + 1)));
}

/// A full formula region followed by anything but a connective parses as
/// one subformula and a climb that ends exactly at the region's end with
/// the formula itself.
proof fn lemma_formula_region(s: Seq<Alphabet>, i: int, f: Formula) -> (u: (Formula, bool, int))
    requires
        spec_round_trippable(f),
        tokens_at(s, i, f.spec_sentence()),
        i + f.spec_sentence().len() == s.len() || !(s[i + f.spec_sentence().len()]
            is SecondaryFunc),
    ensures
        spec_subformula(s, i) == Some(u),
        i < u.2 <= s.len(),
        spec_climb(s, u.2, u.0, u.1) == Some((f, i + f.spec_sentence().len())),
    decreases f, 2int,
{
    let iend = i + f.spec_sentence().len();
    match f {
        Formula::SecondaryFunc { .. } => {
            if spec_leading_bracketed(f) {
                let u = lemma_lnest(s, i, f);
                assert(spec_climb(s, iend, f, true) == Some((f, iend)));
                u
            } else {
                let u = lemma_skel(s, i, f);
                assert(spec_climb(s, iend, f, false) == Some((f, iend)));
                u
            }
        },
        _ => {
            lemma_unit_unbracketed(s, i, f);
            let u = (f, false, iend);
            assert(spec_climb(s, iend, f, false) == Some((f, iend)));
            u
        },
    }
}

/// The operator loop over a skeleton whose leftmost unit is unbracketed:
/// starting from the parsed leading unit, the climb reaches the end of the
/// skeleton's region having built exactly the skeleton.
proof fn lemma_skel(s: Seq<Alphabet>, i: int, g: Formula) -> (u: (Formula, bool, int))
    requires
        spec_rt_skel(g, false),
        !spec_leading_bracketed(g),
        tokens_at(s, i, g.spec_sentence()),
    ensures
        spec_subformula(s, i) == Some(u),
        u.1 == false,
        i < u.2 <= s.len(),
        spec_climb(s, u.2, u.0, false) == spec_climb(s, i + g.spec_sentence().len(), g, false),
    decreases g, 1int,
{
    match g {
        Formula::SecondaryFunc { name, lhs, rhs } => {
            let p = name.spec_precedence();
            let t = g.spec_sentence();
            let op = seq![Alphabet::SecondaryFunc(name)];
            let lw = if lhs.spec_precedence() <= p {
                spec_bracketed(lhs.spec_sentence())
            } else {
                lhs.spec_sentence()
            };
            let rw = if rhs.spec_precedence() <= p {
                spec_bracketed(rhs.spec_sentence())
            } else {
                rhs.spec_sentence()
            };
            assert(t == lw + op + rw);
            lemma_tokens_at_split(s, i, lw + op, rw);
            lemma_tokens_at_split(s, i, lw, op);
            let jl = i + lw.len();
            assert(s[jl + 0] == op[0]);
            let jr = jl + 1;
            assert(lhs.spec_precedence() > p);
            let u: (Formula, bool, int) = if *lhs is SecondaryFunc {
                lemma_skel(s, i, *lhs)
            } else {
                lemma_unit_unbracketed(s, i, *lhs);
                (*lhs, false, jl)
            };
            // the climb step at the connective
            if rhs.spec_precedence() <= p {
                lemma_unit_group(s, jr, *rhs);
                assert(spec_combine(*lhs, name, *rhs, false) == Some(g));
                assert(spec_climb(s, jl, *lhs, false) == spec_climb(
                    s,
                    i + t.len(),
                    g,
                    false,
                ));
            } else if *rhs is SecondaryFunc {
                let w = lemma_skel_ctx(s, jr, *rhs, name, *lhs);
                assert(spec_combine(*lhs, name, w.0, false) == Some(
                    (Formula::SecondaryFunc { name, lhs, rhs: Box::new(w.0) }),
                ));
                assert(spec_climb(s, jl, *lhs, false) == spec_climb(
                    s,
                    w.2,
                    (Formula::SecondaryFunc { name, lhs, rhs: Box::new(w.0) }),
                    false,
                ));
                assert(spec_climb(s, jl, *lhs, false) == spec_climb(
                    s,
                    i + t.len(),
                    g,
                    false,
                ));
            } else {
                lemma_unit_unbracketed(s, jr, *rhs);
                assert(spec_combine(*lhs, name, *rhs, false) == Some(g));
                assert(spec_climb(s, jl, *lhs, false) == spec_climb(
                    s,
                    i + t.len(),
                    g,
                    false,
                ));
            }
            u
        },
        _ => {
            lemma_unit_unbracketed(s, i, g);
            (g, false, i + g.spec_sentence().len())
        },
    }
}

/// The operator loop through a right-subtree skeleton: the accumulated
/// formula holds the enclosing connective at its root, every step
/// re-associates one level deep, and the skeleton is rebuilt as that
/// connective's right child.
proof fn lemma_skel_ctx(
    s: Seq<Alphabet>,
    i: int,
    g: Formula,
    cn: SecondaryFuncName,
    cl: Formula,
) -> (w: (Formula, bool, int))
    requires
        g is SecondaryFunc,
        spec_rt_skel(g, true),
        cn.spec_precedence() < g.spec_precedence(),
        tokens_at(s, i, g.spec_sentence()),
    ensures
        spec_subformula(s, i) == Some(w),
        i < w.2 <= s.len(),
        spec_climb(
            s,
            w.2,
            (Formula::SecondaryFunc { name: cn, lhs: Box::new(cl), rhs: Box::new(w.0) }),
            false,
        ) == spec_climb(
            s,
            i + g.spec_sentence().len(),
            (Formula::SecondaryFunc { name: cn, lhs: Box::new(cl), rhs: Box::new(g) }),
            false,
        ),
    decreases g, 1int,
{
    match g {
        Formula::SecondaryFunc { name, lhs, rhs } => {
            let p = name.spec_precedence();
            let t = g.spec_sentence();
            let op = seq![Alphabet::SecondaryFunc(name)];
            let lw = if lhs.spec_precedence() <= p {
                spec_bracketed(lhs.spec_sentence())
            } else {
                lhs.spec_sentence()
            };
            let rw = if rhs.spec_precedence() <= p {
                spec_bracketed(rhs.spec_sentence())
            } else {
                rhs.spec_sentence()
            };
            assert(t == lw + op + rw);
            lemma_tokens_at_split(s, i, lw + op, rw);
            lemma_tokens_at_split(s, i, lw, op);
            let jl = i + lw.len();
            assert(s[jl + 0] == op[0]);
            let jr = jl + 1;
            let w: (Formula, bool, int) = if lhs.spec_precedence() <= p {
                lemma_unit_group(s, i, *lhs);
                (*lhs, true, jl)
            } else if *lhs is SecondaryFunc {
                lemma_skel_ctx(s, i, *lhs, cn, cl)
            } else {
                lemma_unit_unbracketed(s, i, *lhs);
                (*lhs, false, jl)
            };
            let acc_l = Formula::SecondaryFunc { name: cn, lhs: Box::new(cl), rhs: lhs };
            // the right operand is a unit or a group: a deeper unbracketed
            // binary right child is excluded
            if rhs.spec_precedence() <= p {
                lemma_unit_group(s, jr, *rhs);
            } else {
                assert(!(*rhs is SecondaryFunc));
                lemma_unit_unbracketed(s, jr, *rhs);
            }
            assert(spec_combine(acc_l, name, *rhs, false) == Some(
                (Formula::SecondaryFunc { name: cn, lhs: Box::new(cl), rhs: Box::new(g) }),
            ));
            assert(spec_climb(s, jl, acc_l, false) == spec_climb(
                s,
                i + t.len(),
                (Formula::SecondaryFunc { name: cn, lhs: Box::new(cl), rhs: Box::new(g) }),
                false,
            ));
            w
        },
        _ => {
            assert(false);
            arbitrary()
        },
    }
}

/// The operator loop with the bracket flag set: every step left-nests, and
/// a fully left-nested skeleton that opens with a bracketed group is
/// rebuilt exactly.
proof fn lemma_lnest(s: Seq<Alphabet>, i: int, g: Formula) -> (u: (Formula, bool, int))
    requires
        spec_lnest(g),
        spec_leading_bracketed(g),
        g is SecondaryFunc,
        tokens_at(s, i, g.spec_sentence()),
    ensures
        spec_subformula(s, i) == Some(u),
        u.1 == true,
        i < u.2 <= s.len(),
        spec_climb(s, u.2, u.0, true) == spec_climb(s, i + g.spec_sentence().len(), g, true),
    decreases g, 1int,
{
    match g {
        Formula::SecondaryFunc { name, lhs, rhs } => {
            let p = name.spec_precedence();
            let t = g.spec_sentence();
            let op = seq![Alphabet::SecondaryFunc(name)];
            let lw = if lhs.spec_precedence() <= p {
                spec_bracketed(lhs.spec_sentence())
            } else {
                lhs.spec_sentence()
            };
            let rw = if rhs.spec_precedence() <= p {
                spec_bracketed(rhs.spec_sentence())
            } else {
                rhs.spec_sentence()
            };
            assert(t == lw + op + rw);
            lemma_tokens_at_split(s, i, lw + op, rw);
            lemma_tokens_at_split(s, i, lw, op);
            let jl = i + lw.len();
            assert(s[jl + 0] == op[0]);
            let jr = jl + 1;
            let u: (Formula, bool, int) = if lhs.spec_precedence() <= p {
                lemma_unit_group(s, i, *lhs);
                (*lhs, true, jl)
            } else if *lhs is SecondaryFunc {
                lemma_lnest(s, i, *lhs)
            } else {
                assert(!spec_leading_bracketed(*lhs));
                assert(false);
                arbitrary()
            };
            if rhs.spec_precedence() <= p {
                lemma_unit_group(s, jr, *rhs);
            } else {
                assert(!(*rhs is SecondaryFunc));
                lemma_unit_unbracketed(s, jr, *rhs);
            }
            assert(spec_combine(*lhs, name, *rhs, true) == Some(g));
            assert(spec_climb(s, jl, *lhs, true) == spec_climb(s, i + t.len(), g, true));
            u
        },
        _ => {
            assert(false);
            arbitrary()
        },
    }
}

/// Law: parsing the canonical printed token sequence of a round-trippable
/// formula yields exactly the formula back — the printer's bracketing rule
/// and the parser's precedence policy agree.
pub proof fn lemma_parse_round_trip(f: Formula)
    requires
        spec_round_trippable(f),
    ensures
        spec_parse(f.spec_sentence()) == Some(f),
{
    let s = f.spec_sentence();
    lemma_sentence_nonempty(f);
    assert(tokens_at(s, 0, s));
    let u = lemma_formula_region(s, 0, f);
    assert(spec_parse(s) == Some(f));
}

} // verus!

