use prop_logic::alphabet::SecondaryFuncName::{Conjunction, Disjunction, Equivalence, Implicature};
use prop_logic::formula::Formula::{False, Letter, Negation, SecondaryFunc, True};

#[test]
fn fmt_letter() {
    assert_eq!(Letter('P').render(), String::from("P"));
}

#[test]
fn fmt_true() {
    assert_eq!(True.render(), String::from("⊤"));
}

#[test]
fn fmt_false() {
    assert_eq!(False.render(), String::from("⊥"));
}

#[test]
fn fmt_negation() {
    assert_eq!(Negation(Box::new(Letter('P'))).render(), String::from("¬ P"));
}

#[test]
fn fmt_conjunction() {
    assert_eq!(
        SecondaryFunc {
            name: Conjunction,
            lhs: Box::new(Letter('P')),
            rhs: Box::new(Letter('Q'))
        }
        .render(),
        String::from("P ∧ Q")
    );
}

#[test]
fn fmt_disjunction() {
    assert_eq!(
        SecondaryFunc {
            name: Disjunction,
            lhs: Box::new(Letter('P')),
            rhs: Box::new(Letter('Q'))
        }
        .render(),
        String::from("P ∨ Q")
    );
}

#[test]
fn fmt_implicature() {
    assert_eq!(
        SecondaryFunc {
            name: Implicature,
            lhs: Box::new(Letter('P')),
            rhs: Box::new(Letter('Q'))
        }
        .render(),
        String::from("P → Q")
    );
}

#[test]
fn fmt_equivalence() {
    assert_eq!(
        SecondaryFunc {
            name: Equivalence,
            lhs: Box::new(Letter('P')),
            rhs: Box::new(Letter('Q'))
        }
        .render(),
        String::from("P ↔ Q")
    );
}

#[test]
fn parentheses_for_same_precedence() {
    assert_eq!(
        SecondaryFunc {
            name: Conjunction,
            lhs: Box::new(Letter('P')),
            rhs: Box::new(SecondaryFunc {
                name: Conjunction,
                lhs: Box::new(Letter('Q')),
                rhs: Box::new(Letter('R'))
            })
        }
        .render(),
        String::from("P ∧ (Q ∧ R)")
    );
}

#[test]
fn parentheses_for_lower_precedence() {
    // lhs
    assert_eq!(
        SecondaryFunc {
            name: Conjunction,
            lhs: Box::new(SecondaryFunc {
                name: Implicature,
                lhs: Box::new(Letter('P')),
                rhs: Box::new(Letter('Q'))
            }),
            rhs: Box::new(Letter('R'))
        }
        .render(),
        String::from("(P → Q) ∧ R")
    );

    // rhs
    assert_eq!(
        SecondaryFunc {
            name: Conjunction,
            lhs: Box::new(Letter('P')),
            rhs: Box::new(SecondaryFunc {
                name: Implicature,
                lhs: Box::new(Letter('Q')),
                rhs: Box::new(Letter('R'))
            })
        }
        .render(),
        String::from("P ∧ (Q → R)")
    );
}

#[test]
fn no_parentheses_for_higher_precedence() {
    // lhs
    assert_eq!(
        SecondaryFunc {
            name: Implicature,
            lhs: Box::new(SecondaryFunc {
                name: Conjunction,
                lhs: Box::new(Letter('P')),
                rhs: Box::new(Letter('Q'))
            }),
            rhs: Box::new(Letter('R'))
        }
        .render(),
        String::from("P ∧ Q → R")
    );

    // rhs
    assert_eq!(
        SecondaryFunc {
            name: Implicature,
            lhs: Box::new(Letter('P')),
            rhs: Box::new(SecondaryFunc {
                name: Conjunction,
                lhs: Box::new(Letter('Q')),
                rhs: Box::new(Letter('R'))
            })
        }
        .render(),
        String::from("P → Q ∧ R")
    );
}

#[test]
fn render_is_idempotent() {
    let f = SecondaryFunc {
        name: Equivalence,
        lhs: Box::new(Negation(Box::new(Letter('A')))),
        rhs: Box::new(SecondaryFunc {
            name: Conjunction,
            lhs: Box::new(Letter('B')),
            rhs: Box::new(True),
        }),
    };
    assert_eq!(f.render(), f.render());
}

#[test]
fn render_negated_binary_brackets_operand() {
    let f = Negation(Box::new(SecondaryFunc {
        name: Implicature,
        lhs: Box::new(Letter('P')),
        rhs: Box::new(Letter('Q')),
    }));
    assert_eq!(f.render(), String::from("¬ (P → Q)"));
}

#[test]
fn render_double_negation_needs_no_brackets() {
    let f = Negation(Box::new(Negation(Box::new(Letter('P')))));
    assert_eq!(f.render(), String::from("¬ ¬ P"));
}
