//! The token alphabet of propositional logic: brackets, letters, the two
//! truth constants, negation and the four binary connectives, together with
//! their precedence ranking, their rendering glyphs and the lexer.

use vstd::prelude::*;

verus! {

/// The four binary connectives of the language.
#[derive(PartialEq, Eq, Debug, Clone, Copy)]
pub enum SecondaryFuncName {
    Conjunction,
    Disjunction,
    Implicature,
    Equivalence,
}

impl SecondaryFuncName {
    /// Binding strength of the connective: equivalence binds loosest,
    /// conjunction and disjunction bind tightest and equally strongly.
    pub open spec fn spec_precedence(self) -> usize {
        match self {
            SecondaryFuncName::Equivalence => 1,
            SecondaryFuncName::Implicature => 2,
            SecondaryFuncName::Conjunction => 3,
            SecondaryFuncName::Disjunction => 3,
        }
    }

    pub fn precedence(&self) -> (p: usize)
        ensures
            p == self.spec_precedence(),
    {
        match self {
            SecondaryFuncName::Equivalence => 1,
            SecondaryFuncName::Implicature => 2,
            SecondaryFuncName::Conjunction => 3,
            SecondaryFuncName::Disjunction => 3,
        }
    }
}

/// One token of the alphabet of propositional logic.
/// `Letter` carries a propositional letter.
#[derive(PartialEq, Eq, Debug)]
pub enum Alphabet {
    OpenBracket,
    CloseBracket,
    Letter(char),
    True,
    False,
    Negation,
    SecondaryFunc(SecondaryFuncName),
}

impl Alphabet {
    /// The single Unicode glyph that renders this token.
    pub open spec fn spec_char(self) -> char {
        match self {
            Alphabet::OpenBracket => '(',
            Alphabet::CloseBracket => ')',
            Alphabet::Letter(c) => c,
            Alphabet::True => '\u{22A4}',
            Alphabet::False => '\u{22A5}',
            Alphabet::Negation => '\u{00AC}',
            Alphabet::SecondaryFunc(name) => match name {
                SecondaryFuncName::Conjunction => '\u{2227}',
                SecondaryFuncName::Disjunction => '\u{2228}',
                SecondaryFuncName::Implicature => '\u{2192}',
                SecondaryFuncName::Equivalence => '\u{2194}',
            },
        }
    }

    pub fn to_char(&self) -> (c: char)
        ensures
            c == self.spec_char(),
    {
        match self {
            Alphabet::OpenBracket => '(',
            Alphabet::CloseBracket => ')',
            Alphabet::Letter(c) => *c,
            Alphabet::True => '\u{22A4}',
            Alphabet::False => '\u{22A5}',
            Alphabet::Negation => '\u{00AC}',
            Alphabet::SecondaryFunc(name) => match name {
                SecondaryFuncName::Conjunction => '\u{2227}',
                SecondaryFuncName::Disjunction => '\u{2228}',
                SecondaryFuncName::Implicature => '\u{2192}',
                SecondaryFuncName::Equivalence => '\u{2194}',
            },
        }
    }
}

/// Whether the character has the Unicode uppercase property.
pub uninterp spec fn is_uppercase_char(c: char) -> bool;

/// Relies on char::is_uppercase: whether a character counts as uppercase
/// depends on the character alone.
#[verifier::external_body]
fn char_is_uppercase(c: char) -> (r: bool)
    ensures
        r == is_uppercase_char(c),
{
    c.is_uppercase()
}

/// The token, if any, that a single input word spells: the literal spellings
/// `(`, `)`, `t`, `f`, `!`, `&`, `|`, `->`, `=`, or one uppercase letter.
pub open spec fn spec_lex(s: Seq<char>) -> Option<Alphabet> {
    if s.len() == 1 {
        let c = s[0];
        if c == '(' {
            Some(Alphabet::OpenBracket)
        } else if c == ')' {
            Some(Alphabet::CloseBracket)
        } else if c == 't' {
            Some(Alphabet::True)
        } else if c == 'f' {
            Some(Alphabet::False)
        } else if c == '!' {
            Some(Alphabet::Negation)
        } else if c == '&' {
            Some(Alphabet::SecondaryFunc(SecondaryFuncName::Conjunction))
        } else if c == '|' {
            Some(Alphabet::SecondaryFunc(SecondaryFuncName::Disjunction))
        } else if c == '=' {
            Some(Alphabet::SecondaryFunc(SecondaryFuncName::Equivalence))
        } else if is_uppercase_char(c) {
            Some(Alphabet::Letter(c))
        } else {
            None
        }
    } else if s.len() == 2 && s[0] == '-' && s[1] == '>' {
        Some(Alphabet::SecondaryFunc(SecondaryFuncName::Implicature))
    } else {
        None
    }
}

impl Alphabet {
    /// Lexes one whitespace-delimited input word into a token.
    pub fn try_from(value: &str) -> (r: Result<Alphabet, &'static str>)
        ensures
            match r {
                Ok(t) => spec_lex(value@) == Some(t),
                Err(_) => spec_lex(value@) is None,
            },
    {
        let n = value.unicode_len();
        if n == 1 {
            let c = value.get_char(0);
            if c == '(' {
                Ok(Alphabet::OpenBracket)
            } else if c == ')' {
                Ok(Alphabet::CloseBracket)
            } else if c == 't' {
                Ok(Alphabet::True)
            } else if c == 'f' {
                Ok(Alphabet::False)
            } else if c == '!' {
                Ok(Alphabet::Negation)
            } else if c == '&' {
                Ok(Alphabet::SecondaryFunc(SecondaryFuncName::Conjunction))
            } else if c == '|' {
                Ok(Alphabet::SecondaryFunc(SecondaryFuncName::Disjunction))
            } else if c == '=' {
                Ok(Alphabet::SecondaryFunc(SecondaryFuncName::Equivalence))
            } else if char_is_uppercase(c) {
                Ok(Alphabet::Letter(c))
            } else {
                Err("Not an alphabet")
            }
        } else if n == 2 {
            let c0 = value.get_char(0);
            let c1 = value.get_char(1);
            if c0 == '-' && c1 == '>' {
                Ok(Alphabet::SecondaryFunc(SecondaryFuncName::Implicature))
            } else {
                Err("Not an alphabet")
            }
        } else {
            Err("Not an alphabet")
        }
    }
}

} // verus!
