//! Evaluation of formulas under an interpretation: a total mapping from
//! letters to truth values. The result is an annotated tree that mirrors the
//! formula and carries the truth value of every subformula, so a caller can
//! render the value under each token of the printed formula.

use vstd::prelude::*;

use crate::alphabet::{Alphabet, SecondaryFuncName};
use crate::formula::{chars_to_string, Formula};

verus! {

/// The truth value that a connective computes from the truth values of its
/// operands: conjunction is AND, disjunction OR, implicature the material
/// conditional, equivalence the biconditional.
pub open spec fn spec_connective(name: SecondaryFuncName, a: bool, b: bool) -> bool {
    match name {
        SecondaryFuncName::Conjunction => a && b,
        SecondaryFuncName::Disjunction => a || b,
        SecondaryFuncName::Implicature => a ==> b,
        SecondaryFuncName::Equivalence => a <==> b,
    }
}

/// A mapping from letters to truth values, with unique keys as seen through
/// its view; the view is a `Map<char, bool>`.
pub struct Interpretation {
    entries: Vec<(char, bool)>,
}

/// The value bound to `c` by the entries, later entries taking precedence.
pub open spec fn spec_lookup(s: Seq<(char, bool)>, c: char) -> Option<bool>
    decreases s.len(),
{
    if s.len() == 0 {
        None
    } else if s.last().0 == c {
        Some(s.last().1)
    } else {
        spec_lookup(s.drop_last(), c)
    }
}

impl View for Interpretation {
    type V = Map<char, bool>;

    closed spec fn view(&self) -> Map<char, bool> {
        Map::new(
            |c: char| spec_lookup(self.entries@, c) is Some,
            |c: char| spec_lookup(self.entries@, c)->0,
        )
    }
}

impl Interpretation {
    /// The empty interpretation.
    pub fn new() -> (r: Interpretation)
        ensures
            r@ == Map::<char, bool>::empty(),
    {
        let r = Interpretation { entries: Vec::new() };
        proof {
            assert(r@ =~= Map::<char, bool>::empty());
        }
        r
    }

    /// Binds the letter `c` to the value `b`, replacing any earlier binding.
    pub fn insert(&mut self, c: char, b: bool)
        ensures
            final(self)@ == old(self)@.insert(c, b),
    {
        self.entries.push((c, b));
        proof {
            assert(self.entries@.drop_last() =~= old(self).entries@);
            assert(self@ =~= old(self)@.insert(c, b));
        }
    }

    /// The value bound to `c`, if any.
    pub fn get(&self, c: char) -> (r: Option<bool>)
        ensures
            match r {
                Some(b) => self@.contains_key(c) && self@[c] == b,
                None => !self@.contains_key(c),
            },
    {
        let n = self.entries.len();
        proof {
            assert(self.entries@.take(n as int) =~= self.entries@);
        }
        let mut i: usize = n;
        while i > 0
            invariant
                i <= n,
                n == self.entries.len(),
                spec_lookup(self.entries@, c) == spec_lookup(self.entries@.take(i as int), c),
            decreases i,
        {
            i = i - 1;
            proof {
                assert(self.entries@.take(i + 1).drop_last() =~= self.entries@.take(i as int));
                assert(self.entries@.take(i + 1).last() == self.entries@[i as int]);
            }
            let pair = self.entries[i];
            if pair.0 == c {
                return Some(pair.1);
            }
        }
        proof {
            assert(self.entries@.take(0) =~= Seq::<(char, bool)>::empty());
        }
        None
    }
}

/// A formula annotated with the truth value of every subformula under one
/// interpretation; it mirrors the structure of the source formula.
pub enum EvalFormula {
    Letter(char, bool),
    True,
    False,
    Negation(Box<EvalFormula>, bool),
    SecondaryFunc {
        name: SecondaryFuncName,
        lhs: Box<EvalFormula>,
        rhs: Box<EvalFormula>,
        truth_value: bool,
    },
}

impl EvalFormula {
    /// The truth value cached at the root of the annotated tree.
    pub open spec fn spec_is_true(self) -> bool {
        match self {
            EvalFormula::Letter(_, b) => b,
            EvalFormula::True => true,
            EvalFormula::False => false,
            EvalFormula::Negation(_, b) => b,
            EvalFormula::SecondaryFunc { truth_value, .. } => truth_value,
        }
    }

    pub fn is_true(&self) -> (r: bool)
        ensures
            r == self.spec_is_true(),
    {
        match self {
            EvalFormula::Letter(_, b) => *b,
            EvalFormula::True => true,
            EvalFormula::False => false,
            EvalFormula::Negation(_, b) => *b,
            EvalFormula::SecondaryFunc { truth_value, .. } => *truth_value,
        }
    }
}

impl Formula {
    /// The truth value of the formula under the mapping `m`: the semantics
    /// of propositional logic.
    pub open spec fn spec_truth(self, m: Map<char, bool>) -> bool
        decreases self,
    {
        match self {
            Formula::Letter(c) => m[c],
            Formula::True => true,
            Formula::False => false,
            Formula::Negation(sub) => !sub.spec_truth(m),
            Formula::SecondaryFunc { name, lhs, rhs } => spec_connective(
                name,
                lhs.spec_truth(m),
                rhs.spec_truth(m),
            ),
        }
    }

    /// The annotated tree of the formula under the mapping `m`: the same
    /// structure, with every node carrying the truth value of its
    /// subformula.
    pub open spec fn spec_eval(self, m: Map<char, bool>) -> EvalFormula
        decreases self,
    {
        match self {
            Formula::Letter(c) => EvalFormula::Letter(c, m[c]),
            Formula::True => EvalFormula::True,
            Formula::False => EvalFormula::False,
            Formula::Negation(sub) => EvalFormula::Negation(
                Box::new(sub.spec_eval(m)),
                !sub.spec_truth(m),
            ),
            Formula::SecondaryFunc { name, lhs, rhs } => EvalFormula::SecondaryFunc {
                name,
                lhs: Box::new(lhs.spec_eval(m)),
                rhs: Box::new(rhs.spec_eval(m)),
                truth_value: spec_connective(name, lhs.spec_truth(m), rhs.spec_truth(m)),
            },
        }
    }
}

/// The annotated tree caches at its root exactly the truth value of the
/// formula it was built from.
pub proof fn lemma_eval_is_true(f: Formula, m: Map<char, bool>)
    ensures
        f.spec_eval(m).spec_is_true() == f.spec_truth(m),
{
    match f {
        Formula::Letter(_) => {},
        Formula::True => {},
        Formula::False => {},
        Formula::Negation(_) => {},
        Formula::SecondaryFunc { .. } => {},
    }
}

/// Law: every binary connective computes its standard truth function. For
/// all truth values `a` and `b`, implicature yields `!(a && !b)`,
/// equivalence yields `a == b`, conjunction yields `a && b`, and disjunction
/// yields `a || b`.
pub proof fn lemma_connective_truth_functions(a: bool, b: bool)
    ensures
        spec_connective(SecondaryFuncName::Conjunction, a, b) == (a && b),
        spec_connective(SecondaryFuncName::Disjunction, a, b) == (a || b),
        spec_connective(SecondaryFuncName::Implicature, a, b) == !(a && !b),
        spec_connective(SecondaryFuncName::Equivalence, a, b) == (a == b),
{
}

/// Law: the truth value of a binary formula is its connective's truth
/// function applied to the truth values of its operands, under every
/// mapping.
pub proof fn lemma_binary_truth(
    name: SecondaryFuncName,
    lhs: Formula,
    rhs: Formula,
    m: Map<char, bool>,
)
    ensures
        (Formula::SecondaryFunc {
            name,
            lhs: Box::new(lhs),
            rhs: Box::new(rhs),
        }).spec_truth(m) == spec_connective(name, lhs.spec_truth(m), rhs.spec_truth(m)),
{
}

impl Formula {
    /// Evaluates the formula under an interpretation that covers every
    /// letter appearing in it, annotating each subformula with its truth
    /// value.
    pub fn evaluate(&self, interpretation: &Interpretation) -> (r: EvalFormula)
        requires
            self.spec_letters() <= interpretation@.dom(),
        ensures
            r == self.spec_eval(interpretation@),
        decreases self,
    {
        match self {
            Formula::Letter(c) => {
                let b = match interpretation.get(*c) {
                    Some(b) => b,
                    None => {
                        proof {
                            assert(self.spec_letters().contains(*c));
                            assert(false);
                        }
                        false
                    },
                };
                EvalFormula::Letter(*c, b)
            },
            Formula::True => EvalFormula::True,
            Formula::False => EvalFormula::False,
            Formula::Negation(sub) => {
                let e = sub.evaluate(interpretation);
                let t = !e.is_true();
                proof {
                    lemma_eval_is_true(**sub, interpretation@);
                }
                EvalFormula::Negation(Box::new(e), t)
            },
            Formula::SecondaryFunc { name, lhs, rhs } => {
                proof {
                    assert(lhs.spec_letters() <= self.spec_letters());
                    assert(rhs.spec_letters() <= self.spec_letters());
                }
                let l = lhs.evaluate(interpretation);
                let r = rhs.evaluate(interpretation);
                let a = l.is_true();
                let b = r.is_true();
                proof {
                    lemma_eval_is_true(**lhs, interpretation@);
                    lemma_eval_is_true(**rhs, interpretation@);
                }
                let t = match name {
                    SecondaryFuncName::Conjunction => a && b,
                    SecondaryFuncName::Disjunction => a || b,
                    SecondaryFuncName::Implicature => !(a && !b),
                    SecondaryFuncName::Equivalence => a == b,
                };
                EvalFormula::SecondaryFunc { name: *name, lhs: Box::new(l), rhs: Box::new(r), truth_value: t }
            },
        }
    }
}

impl EvalFormula {
    /// Binding strength of the annotated formula's outermost symbol, as for
    /// the plain formula tree.
    pub open spec fn spec_precedence(self) -> usize {
        match self {
            EvalFormula::SecondaryFunc { name, .. } => name.spec_precedence(),
            EvalFormula::Negation(..) => 4,
            EvalFormula::True => 5,
            EvalFormula::False => 5,
            EvalFormula::Letter(..) => 5,
        }
    }

    pub fn precedence(&self) -> (p: usize)
        ensures
            p == self.spec_precedence(),
    {
        match self {
            EvalFormula::SecondaryFunc { name, .. } => name.precedence(),
            EvalFormula::Negation(..) => 4,
            EvalFormula::True => 5,
            EvalFormula::False => 5,
            EvalFormula::Letter(..) => 5,
        }
    }

    /// The canonical token sequence of the annotated formula, each token
    /// paired with the truth value of the subformula it heads; brackets
    /// carry no value.
    pub open spec fn spec_sentence(self) -> Seq<(Alphabet, Option<bool>)>
        decreases self,
    {
        match self {
            EvalFormula::Letter(c, b) => seq![(Alphabet::Letter(c), Some(b))],
            EvalFormula::True => seq![(Alphabet::True, Some(true))],
            EvalFormula::False => seq![(Alphabet::False, Some(false))],
            EvalFormula::Negation(sub, b) => if sub.spec_precedence() < 4 {
                seq![(Alphabet::Negation, Some(b)), (Alphabet::OpenBracket, None)]
                    + sub.spec_sentence() + seq![(Alphabet::CloseBracket, None)]
            } else {
                seq![(Alphabet::Negation, Some(b))] + sub.spec_sentence()
            },
            EvalFormula::SecondaryFunc { name, lhs, rhs, truth_value } => {
                let l = if lhs.spec_precedence() <= name.spec_precedence() {
                    seq![(Alphabet::OpenBracket, None)] + lhs.spec_sentence()
                        + seq![(Alphabet::CloseBracket, None)]
                } else {
                    lhs.spec_sentence()
                };
                let r = if rhs.spec_precedence() <= name.spec_precedence() {
                    seq![(Alphabet::OpenBracket, None)] + rhs.spec_sentence()
                        + seq![(Alphabet::CloseBracket, None)]
                } else {
                    rhs.spec_sentence()
                };
                l + seq![(Alphabet::SecondaryFunc(name), Some(truth_value))] + r
            },
        }
    }

    /// Prints the annotated formula as its token sequence with values.
    pub fn to_sentence(&self) -> (v: Vec<(Alphabet, Option<bool>)>)
        ensures
            v@ == self.spec_sentence(),
        decreases self,
    {
        match self {
            EvalFormula::Letter(c, b) => {
                let mut v: Vec<(Alphabet, Option<bool>)> = Vec::new();
                v.push((Alphabet::Letter(*c), Some(*b)));
                proof { assert(v@ =~= self.spec_sentence()); }
                v
            },
            EvalFormula::True => {
                let mut v: Vec<(Alphabet, Option<bool>)> = Vec::new();
                v.push((Alphabet::True, Some(true)));
                proof { assert(v@ =~= self.spec_sentence()); }
                v
            },
            EvalFormula::False => {
                let mut v: Vec<(Alphabet, Option<bool>)> = Vec::new();
                v.push((Alphabet::False, Some(false)));
                proof { assert(v@ =~= self.spec_sentence()); }
                v
            },
            EvalFormula::Negation(sub, b) => {
                let mut v: Vec<(Alphabet, Option<bool>)> = Vec::new();
                v.push((Alphabet::Negation, Some(*b)));
                if sub.precedence() < 4 {
                    v.push((Alphabet::OpenBracket, None));
                    let mut inner = sub.to_sentence();
                    v.append(&mut inner);
                    v.push((Alphabet::CloseBracket, None));
                } else {
                    let mut inner = sub.to_sentence();
                    v.append(&mut inner);
                }
                proof { assert(v@ =~= self.spec_sentence()); }
                v
            },
            EvalFormula::SecondaryFunc { name, lhs, rhs, truth_value } => {
                let p = name.precedence();
                let mut v: Vec<(Alphabet, Option<bool>)> = Vec::new();
                if lhs.precedence() <= p {
                    v.push((Alphabet::OpenBracket, None));
                    let mut inner = lhs.to_sentence();
                    v.append(&mut inner);
                    v.push((Alphabet::CloseBracket, None));
                } else {
                    let mut inner = lhs.to_sentence();
                    v.append(&mut inner);
                }
                v.push((Alphabet::SecondaryFunc(*name), Some(*truth_value)));
                if rhs.precedence() <= p {
                    v.push((Alphabet::OpenBracket, None));
                    let mut inner = rhs.to_sentence();
                    v.append(&mut inner);
                    v.push((Alphabet::CloseBracket, None));
                } else {
                    let mut inner = rhs.to_sentence();
                    v.append(&mut inner);
                }
                proof { assert(v@ =~= self.spec_sentence()); }
                v
            },
        }
    }
}

/// The character that shows a token's truth value: `T`, `F`, or a blank for
/// a token that carries none.
pub open spec fn spec_tf_char(b: Option<bool>) -> char {
    match b {
        Some(true) => 'T',
        Some(false) => 'F',
        None => ' ',
    }
}

/// The truth-value line under a token sequence: one value character and one
/// space per token.
pub open spec fn spec_tf_cells(s: Seq<(Alphabet, Option<bool>)>) -> Seq<char>
    decreases s.len(),
{
    if s.len() == 0 {
        Seq::empty()
    } else {
        seq![spec_tf_char(s[0].1), ' '] + spec_tf_cells(s.drop_first())
    }
}

/// The glyph line over a token sequence with values: one glyph and one
/// space per token, aligned with the truth-value cells underneath.
pub open spec fn spec_padded_cells(s: Seq<(Alphabet, Option<bool>)>) -> Seq<char>
    decreases s.len(),
{
    if s.len() == 0 {
        Seq::empty()
    } else {
        seq![s[0].0.spec_char(), ' '] + spec_padded_cells(s.drop_first())
    }
}

impl EvalFormula {
    /// The truth-value line of the annotated formula, as characters.
    pub open spec fn spec_string_tf(self) -> Seq<char> {
        spec_tf_cells(self.spec_sentence())
    }

    /// The two-line rendering: the padded formula over the truth values.
    pub open spec fn spec_render(self) -> Seq<char> {
        spec_padded_cells(self.spec_sentence()) + seq!['\n'] + spec_tf_cells(self.spec_sentence())
    }

    /// Renders the annotated formula on two aligned lines: the formula's
    /// tokens above, each subformula's truth value beneath its token.
    pub fn render(&self) -> (r: String)
        ensures
            r@ == self.spec_render(),
    {
        let pairs = self.to_sentence();
        let mut out: Vec<char> = Vec::new();
        proof {
            assert(pairs@.skip(0) =~= pairs@);
            assert(Seq::<char>::empty() + spec_padded_cells(pairs@) =~= spec_padded_cells(pairs@));
        }
        let mut i: usize = 0;
        while i < pairs.len()
            invariant
                i <= pairs.len(),
                pairs@ == self.spec_sentence(),
                out@ + spec_padded_cells(pairs@.skip(i as int)) == spec_padded_cells(pairs@),
            decreases pairs.len() - i,
        {
            proof {
                assert(pairs@.skip(i as int)[0] == pairs@[i as int]);
                assert(pairs@.skip(i as int).drop_first() =~= pairs@.skip(i + 1));
            }
            out.push(pairs[i].0.to_char());
            out.push(' ');
            i += 1;
        }
        out.push('\n');
        let mut tf = self.tf_cells();
        out.append(&mut tf);
        proof {
            assert(pairs@.skip(pairs@.len() as int) =~= Seq::<(Alphabet, Option<bool>)>::empty());
            assert(out@ =~= self.spec_render());
        }
        chars_to_string(&out)
    }

    /// Renders only the truth values: under each token of the printed
    /// formula, its subformula's value, two characters per token.
    pub fn to_string_tf(&self) -> (r: String)
        ensures
            r@ == self.spec_string_tf(),
    {
        let cells = self.tf_cells();
        chars_to_string(&cells)
    }

    /// The truth-value line as characters.
    pub(crate) fn tf_cells(&self) -> (out: Vec<char>)
        ensures
            out@ == self.spec_string_tf(),
    {
        let pairs = self.to_sentence();
        let mut out: Vec<char> = Vec::new();
        proof {
            assert(pairs@.skip(0) =~= pairs@);
            assert(Seq::<char>::empty() + spec_tf_cells(pairs@) =~= spec_tf_cells(pairs@));
        }
        let mut i: usize = 0;
        while i < pairs.len()
            invariant
                i <= pairs.len(),
                pairs@ == self.spec_sentence(),
                out@ + spec_tf_cells(pairs@.skip(i as int)) == spec_tf_cells(pairs@),
            decreases pairs.len() - i,
        {
            proof {
                assert(pairs@.skip(i as int)[0] == pairs@[i as int]);
                assert(pairs@.skip(i as int).drop_first() =~= pairs@.skip(i + 1));
            }
            let cell = match pairs[i].1 {
                Some(true) => 'T',
                Some(false) => 'F',
                None => ' ',
            };
            out.push(cell);
            out.push(' ');
            i += 1;
        }
        proof {
            assert(pairs@.skip(i as int) =~= Seq::<(Alphabet, Option<bool>)>::empty());
        }
        out
    }
}

} // verus!
