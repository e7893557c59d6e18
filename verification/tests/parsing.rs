use prop_logic::alphabet::Alphabet;
use prop_logic::alphabet::SecondaryFuncName;
use prop_logic::formula::Formula;

#[test]
fn parse_letters() {
    assert_eq!(
        Formula::parse(&[Alphabet::Letter('P')]),
        Ok(Formula::Letter('P'))
    );
    assert_eq!(
        Formula::parse(&[Alphabet::Letter('Q')]),
        Ok(Formula::Letter('Q'))
    );
}

#[test]
fn parse_truth_values() {
    assert_eq!(Formula::parse(&[Alphabet::True]), Ok(Formula::True));
    assert_eq!(Formula::parse(&[Alphabet::False]), Ok(Formula::False));
}

#[test]
fn parse_negation() {
    assert_eq!(
        Formula::parse(&[Alphabet::Negation, Alphabet::True]),
        Ok(Formula::Negation(Box::new(Formula::True)))
    );
}

#[test]
fn parse_secondary_funcs() {
    let names = [
        SecondaryFuncName::Conjunction,
        SecondaryFuncName::Disjunction,
        SecondaryFuncName::Implicature,
        SecondaryFuncName::Equivalence,
    ];

    for name in names {
        assert_eq!(
            Formula::parse(&[
                Alphabet::Letter('P'),
                Alphabet::SecondaryFunc(name),
                Alphabet::Letter('Q'),
            ]),
            Ok(Formula::SecondaryFunc {
                name,
                lhs: Box::new(Formula::Letter('P')),
                rhs: Box::new(Formula::Letter('Q'))
            })
        )
    }
}

#[test]
fn parse_brackets() {
    assert_eq!(
        Formula::parse(&[
            Alphabet::Negation,
            Alphabet::OpenBracket,
            Alphabet::Letter('P'),
            Alphabet::SecondaryFunc(SecondaryFuncName::Implicature),
            Alphabet::Letter('Q'),
            Alphabet::CloseBracket,
        ]),
        Ok(Formula::Negation(Box::new(Formula::SecondaryFunc {
            name: SecondaryFuncName::Implicature,
            lhs: Box::new(Formula::Letter('P')),
            rhs: Box::new(Formula::Letter('Q'))
        })))
    )
}

#[test]
fn ambiguous_equal_precedence_chain_is_rejected() {
    assert_eq!(
        Formula::parse(&[
            Alphabet::Letter('P'),
            Alphabet::SecondaryFunc(SecondaryFuncName::Conjunction),
            Alphabet::Letter('Q'),
            Alphabet::SecondaryFunc(SecondaryFuncName::Conjunction),
            Alphabet::Letter('R'),
        ]),
        Err(())
    );
}

#[test]
fn bracketed_chain_is_accepted() {
    assert_eq!(
        Formula::parse(&[
            Alphabet::OpenBracket,
            Alphabet::Letter('P'),
            Alphabet::SecondaryFunc(SecondaryFuncName::Conjunction),
            Alphabet::Letter('Q'),
            Alphabet::CloseBracket,
            Alphabet::SecondaryFunc(SecondaryFuncName::Conjunction),
            Alphabet::Letter('R'),
        ]),
        Ok(Formula::SecondaryFunc {
            name: SecondaryFuncName::Conjunction,
            lhs: Box::new(Formula::SecondaryFunc {
                name: SecondaryFuncName::Conjunction,
                lhs: Box::new(Formula::Letter('P')),
                rhs: Box::new(Formula::Letter('Q'))
            }),
            rhs: Box::new(Formula::Letter('R'))
        })
    );
}

#[test]
fn rising_precedence_reassociates_into_right_child() {
    // P → Q ∧ R groups as P → (Q ∧ R)
    assert_eq!(
        Formula::parse(&[
            Alphabet::Letter('P'),
            Alphabet::SecondaryFunc(SecondaryFuncName::Implicature),
            Alphabet::Letter('Q'),
            Alphabet::SecondaryFunc(SecondaryFuncName::Conjunction),
            Alphabet::Letter('R'),
        ]),
        Ok(Formula::SecondaryFunc {
            name: SecondaryFuncName::Implicature,
            lhs: Box::new(Formula::Letter('P')),
            rhs: Box::new(Formula::SecondaryFunc {
                name: SecondaryFuncName::Conjunction,
                lhs: Box::new(Formula::Letter('Q')),
                rhs: Box::new(Formula::Letter('R'))
            })
        })
    );
}

#[test]
fn falling_precedence_left_nests() {
    // P ∧ Q → R groups as (P ∧ Q) → R
    assert_eq!(
        Formula::parse(&[
            Alphabet::Letter('P'),
            Alphabet::SecondaryFunc(SecondaryFuncName::Conjunction),
            Alphabet::Letter('Q'),
            Alphabet::SecondaryFunc(SecondaryFuncName::Implicature),
            Alphabet::Letter('R'),
        ]),
        Ok(Formula::SecondaryFunc {
            name: SecondaryFuncName::Implicature,
            lhs: Box::new(Formula::SecondaryFunc {
                name: SecondaryFuncName::Conjunction,
                lhs: Box::new(Formula::Letter('P')),
                rhs: Box::new(Formula::Letter('Q'))
            }),
            rhs: Box::new(Formula::Letter('R'))
        })
    );
}

#[test]
fn reassociation_descends_only_one_level() {
    // P ↔ Q → R ∧ S: the parser re-associates one level deep, so the
    // conjunction attaches around the implicature instead of inside it.
    assert_eq!(
        Formula::parse(&[
            Alphabet::Letter('P'),
            Alphabet::SecondaryFunc(SecondaryFuncName::Equivalence),
            Alphabet::Letter('Q'),
            Alphabet::SecondaryFunc(SecondaryFuncName::Implicature),
            Alphabet::Letter('R'),
            Alphabet::SecondaryFunc(SecondaryFuncName::Conjunction),
            Alphabet::Letter('S'),
        ]),
        Ok(Formula::SecondaryFunc {
            name: SecondaryFuncName::Equivalence,
            lhs: Box::new(Formula::Letter('P')),
            rhs: Box::new(Formula::SecondaryFunc {
                name: SecondaryFuncName::Conjunction,
                lhs: Box::new(Formula::SecondaryFunc {
                    name: SecondaryFuncName::Implicature,
                    lhs: Box::new(Formula::Letter('Q')),
                    rhs: Box::new(Formula::Letter('R'))
                }),
                rhs: Box::new(Formula::Letter('S'))
            })
        })
    );
}

#[test]
fn bracket_flag_left_nests_rest_of_line() {
    // ( P ↔ Q ) → R ∧ S: once the line opens with a bracketed group, every
    // later connective left-nests, whatever its precedence.
    assert_eq!(
        Formula::parse(&[
            Alphabet::OpenBracket,
            Alphabet::Letter('P'),
            Alphabet::SecondaryFunc(SecondaryFuncName::Equivalence),
            Alphabet::Letter('Q'),
            Alphabet::CloseBracket,
            Alphabet::SecondaryFunc(SecondaryFuncName::Implicature),
            Alphabet::Letter('R'),
            Alphabet::SecondaryFunc(SecondaryFuncName::Conjunction),
            Alphabet::Letter('S'),
        ]),
        Ok(Formula::SecondaryFunc {
            name: SecondaryFuncName::Conjunction,
            lhs: Box::new(Formula::SecondaryFunc {
                name: SecondaryFuncName::Implicature,
                lhs: Box::new(Formula::SecondaryFunc {
                    name: SecondaryFuncName::Equivalence,
                    lhs: Box::new(Formula::Letter('P')),
                    rhs: Box::new(Formula::Letter('Q'))
                }),
                rhs: Box::new(Formula::Letter('R'))
            }),
            rhs: Box::new(Formula::Letter('S'))
        })
    );
}

#[test]
fn bracketed_single_subformula_is_accepted() {
    assert_eq!(
        Formula::parse(&[
            Alphabet::OpenBracket,
            Alphabet::Letter('P'),
            Alphabet::CloseBracket,
        ]),
        Ok(Formula::Letter('P'))
    );
}

#[test]
fn structural_faults_are_rejected() {
    assert_eq!(Formula::parse(&[]), Err(()));
    assert_eq!(
        Formula::parse(&[Alphabet::Letter('P'), Alphabet::Letter('Q')]),
        Err(())
    );
    assert_eq!(
        Formula::parse(&[
            Alphabet::Letter('P'),
            Alphabet::SecondaryFunc(SecondaryFuncName::Conjunction),
        ]),
        Err(())
    );
    assert_eq!(
        Formula::parse(&[Alphabet::OpenBracket, Alphabet::Letter('P')]),
        Err(())
    );
    assert_eq!(
        Formula::parse(&[
            Alphabet::SecondaryFunc(SecondaryFuncName::Conjunction),
            Alphabet::Letter('P'),
        ]),
        Err(())
    );
    assert_eq!(Formula::parse(&[Alphabet::CloseBracket]), Err(()));
}

#[test]
fn round_trip_through_tokens() {
    let formulas = vec![
        Formula::Letter('P'),
        Formula::True,
        Formula::Negation(Box::new(Formula::Negation(Box::new(Formula::False)))),
        Formula::SecondaryFunc {
            name: SecondaryFuncName::Conjunction,
            lhs: Box::new(Formula::Letter('P')),
            rhs: Box::new(Formula::SecondaryFunc {
                name: SecondaryFuncName::Conjunction,
                lhs: Box::new(Formula::Letter('Q')),
                rhs: Box::new(Formula::Letter('R')),
            }),
        },
        Formula::SecondaryFunc {
            name: SecondaryFuncName::Implicature,
            lhs: Box::new(Formula::SecondaryFunc {
                name: SecondaryFuncName::Conjunction,
                lhs: Box::new(Formula::Letter('P')),
                rhs: Box::new(Formula::Letter('Q')),
            }),
            rhs: Box::new(Formula::SecondaryFunc {
                name: SecondaryFuncName::Disjunction,
                lhs: Box::new(Formula::Letter('R')),
                rhs: Box::new(Formula::Letter('S')),
            }),
        },
        Formula::Negation(Box::new(Formula::SecondaryFunc {
            name: SecondaryFuncName::Equivalence,
            lhs: Box::new(Formula::Letter('P')),
            rhs: Box::new(Formula::Letter('Q')),
        })),
    ];
    for f in formulas {
        let sentence = f.to_sentence();
        assert_eq!(Formula::parse(&sentence), Ok(f));
    }
}
