//! The formula tree of propositional logic and its canonical printer, which
//! emits the unique minimal parenthesization: a child of a binary connective
//! is bracketed exactly when its precedence is lower than or equal to the
//! connective's, and a negated operand exactly when its precedence is
//! strictly lower than negation's.

use vstd::prelude::*;

pub use crate::alphabet::{Alphabet, SecondaryFuncName};

verus! {

/// A formula of propositional logic: a letter, a truth constant, a negation,
/// or a binary connective applied to two subformulas.
#[derive(PartialEq, Eq, Debug)]
pub enum Formula {
    Letter(char),
    True,
    False,
    Negation(Box<Formula>),
    SecondaryFunc { name: SecondaryFuncName, lhs: Box<Formula>, rhs: Box<Formula> },
}

/// The sequence of tokens wrapped in one pair of brackets.
pub open spec fn spec_bracketed(s: Seq<Alphabet>) -> Seq<Alphabet> {
    seq![Alphabet::OpenBracket] + s + seq![Alphabet::CloseBracket]
}

impl Formula {
    /// Binding strength of the formula's outermost symbol; letters and truth
    /// constants bind tightest, negation next, then the binary connectives.
    pub open spec fn spec_precedence(self) -> usize {
        match self {
            Formula::SecondaryFunc { name, .. } => name.spec_precedence(),
            Formula::Negation(_) => 4,
            Formula::True => 5,
            Formula::False => 5,
            Formula::Letter(_) => 5,
        }
    }

    pub fn precedence(&self) -> (p: usize)
        ensures
            p == self.spec_precedence(),
    {
        match self {
            Formula::SecondaryFunc { name, .. } => name.precedence(),
            Formula::Negation(_) => 4,
            Formula::True => 5,
            Formula::False => 5,
            Formula::Letter(_) => 5,
        }
    }

    /// The set of distinct letters appearing in the formula.
    pub open spec fn spec_letters(self) -> Set<char>
        decreases self,
    {
        match self {
            Formula::Letter(c) => set![c],
            Formula::True => Set::empty(),
            Formula::False => Set::empty(),
            Formula::Negation(sub) => sub.spec_letters(),
            Formula::SecondaryFunc { name: _, lhs, rhs } => lhs.spec_letters() + rhs.spec_letters(),
        }
    }

    /// The canonical token sequence of the formula, with minimal brackets:
    /// a child of a binary connective is bracketed exactly when its
    /// precedence is lower than or equal to the connective's, and a negated
    /// operand exactly when its precedence is strictly below negation's.
    pub open spec fn spec_sentence(self) -> Seq<Alphabet>
        decreases self,
    {
        match self {
            Formula::Letter(c) => seq![Alphabet::Letter(c)],
            Formula::True => seq![Alphabet::True],
            Formula::False => seq![Alphabet::False],
            Formula::Negation(sub) => if sub.spec_precedence() < 4 {
                seq![Alphabet::Negation] + spec_bracketed(sub.spec_sentence())
            } else {
                seq![Alphabet::Negation] + sub.spec_sentence()
            },
            Formula::SecondaryFunc { name, lhs, rhs } => {
                let l = if lhs.spec_precedence() <= name.spec_precedence() {
                    spec_bracketed(lhs.spec_sentence())
                } else {
                    lhs.spec_sentence()
                };
                let r = if rhs.spec_precedence() <= name.spec_precedence() {
                    spec_bracketed(rhs.spec_sentence())
                } else {
                    rhs.spec_sentence()
                };
                l + seq![Alphabet::SecondaryFunc(name)] + r
            },
        }
    }

    /// Prints the formula as its canonical token sequence.
    pub fn to_sentence(&self) -> (v: Vec<Alphabet>)
        ensures
            v@ == self.spec_sentence(),
        decreases self,
    {
        match self {
            Formula::Letter(c) => {
                let mut v: Vec<Alphabet> = Vec::new();
                v.push(Alphabet::Letter(*c));
                proof { assert(v@ =~= self.spec_sentence()); }
                v
            },
            Formula::True => {
                let mut v: Vec<Alphabet> = Vec::new();
                v.push(Alphabet::True);
                proof { assert(v@ =~= self.spec_sentence()); }
                v
            },
            Formula::False => {
                let mut v: Vec<Alphabet> = Vec::new();
                v.push(Alphabet::False);
                proof { assert(v@ =~= self.spec_sentence()); }
                v
            },
            Formula::Negation(sub) => {
                let mut v: Vec<Alphabet> = Vec::new();
                v.push(Alphabet::Negation);
                if sub.precedence() < 4 {
                    v.push(Alphabet::OpenBracket);
                    let mut inner = sub.to_sentence();
                    v.append(&mut inner);
                    v.push(Alphabet::CloseBracket);
                } else {
                    let mut inner = sub.to_sentence();
                    v.append(&mut inner);
                }
                proof { assert(v@ =~= self.spec_sentence()); }
                v
            },
            Formula::SecondaryFunc { name, lhs, rhs } => {
                let p = name.precedence();
                let mut v: Vec<Alphabet> = Vec::new();
                if lhs.precedence() <= p {
                    v.push(Alphabet::OpenBracket);
                    let mut inner = lhs.to_sentence();
                    v.append(&mut inner);
                    v.push(Alphabet::CloseBracket);
                } else {
                    let mut inner = lhs.to_sentence();
                    v.append(&mut inner);
                }
                v.push(Alphabet::SecondaryFunc(*name));
                if rhs.precedence() <= p {
                    v.push(Alphabet::OpenBracket);
                    let mut inner = rhs.to_sentence();
                    v.append(&mut inner);
                    v.push(Alphabet::CloseBracket);
                } else {
                    let mut inner = rhs.to_sentence();
                    v.append(&mut inner);
                }
                proof { assert(v@ =~= self.spec_sentence()); }
                v
            },
        }
    }
}

/// Whether a space separates two adjacent tokens in the rendered string:
/// every pair is separated except right after an open bracket and right
/// before a close bracket.
pub open spec fn spec_token_gap(prev: Alphabet, cur: Alphabet) -> bool {
    !(prev is OpenBracket) && !(cur is CloseBracket)
}

/// The rendering of the tokens that follow `prev`, each preceded by a space
/// where one is due.
pub open spec fn spec_render_rest(prev: Alphabet, s: Seq<Alphabet>) -> Seq<char>
    decreases s.len(),
{
    if s.len() == 0 {
        Seq::empty()
    } else {
        let head: Seq<char> = if spec_token_gap(prev, s[0]) {
            seq![' ', s[0].spec_char()]
        } else {
            seq![s[0].spec_char()]
        };
        head + spec_render_rest(s[0], s.drop_first())
    }
}

/// The rendered string of a token sequence: one glyph per token, single
/// spaces between tokens, brackets hugging their contents.
pub open spec fn spec_render_sentence(s: Seq<Alphabet>) -> Seq<char> {
    if s.len() == 0 {
        Seq::empty()
    } else {
        seq![s[0].spec_char()] + spec_render_rest(s[0], s.drop_first())
    }
}

fn token_gap(prev: &Alphabet, cur: &Alphabet) -> (r: bool)
    ensures
        r == spec_token_gap(*prev, *cur),
{
    let open = match prev {
        Alphabet::OpenBracket => true,
        _ => false,
    };
    let close = match cur {
        Alphabet::CloseBracket => true,
        _ => false,
    };
    !open && !close
}

/// Relies on String::from_iter over chars: collecting characters yields the
/// string of exactly those characters.
#[verifier::external_body]
pub(crate) fn chars_to_string(v: &Vec<char>) -> (r: String)
    ensures
        r@ == v@,
{
    v.iter().collect()
}

impl Formula {
    /// The canonical rendering of the formula, as characters.
    pub open spec fn spec_render(self) -> Seq<char> {
        spec_render_sentence(self.spec_sentence())
    }

    /// Renders the formula to its canonical infix string with minimal
    /// parenthesization. The result is a pure function of the tree, so two
    /// renderings of one formula are always the same string.
    pub fn render(&self) -> (r: String)
        ensures
            r@ == self.spec_render(),
    {
        let tokens = self.to_sentence();
        let mut out: Vec<char> = Vec::new();
        if tokens.len() > 0 {
            out.push(tokens[0].to_char());
            let mut i: usize = 1;
            while i < tokens.len()
                invariant
                    1 <= i <= tokens.len(),
                    tokens@ == self.spec_sentence(),
                    out@ + spec_render_rest(tokens@[i - 1], tokens@.skip(i as int))
                        == spec_render_sentence(tokens@),
                decreases tokens.len() - i,
            {
                proof {
                    assert(tokens@.skip(i as int)[0] == tokens@[i as int]);
                    assert(tokens@.skip(i as int).drop_first() =~= tokens@.skip(i + 1));
                }
                if token_gap(&tokens[i - 1], &tokens[i]) {
                    out.push(' ');
                }
                out.push(tokens[i].to_char());
                i += 1;
            }
            proof {
                assert(tokens@.skip(i as int) =~= Seq::<Alphabet>::empty());
            }
        }
        chars_to_string(&out)
    }
}

} // verus!
