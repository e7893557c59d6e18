use prop_logic::alphabet::SecondaryFuncName;
use prop_logic::eval::Interpretation;
use prop_logic::formula::Formula;

fn two_letter(name: SecondaryFuncName) -> Formula {
    Formula::SecondaryFunc {
        name,
        lhs: Box::new(Formula::Letter('A')),
        rhs: Box::new(Formula::Letter('B')),
    }
}

fn truth_of(f: &Formula, a: bool, b: bool) -> bool {
    let mut interp = Interpretation::new();
    interp.insert('A', a);
    interp.insert('B', b);
    f.evaluate(&interp).is_true()
}

#[test]
fn conjunction_is_and() {
    let f = two_letter(SecondaryFuncName::Conjunction);
    for a in [false, true] {
        for b in [false, true] {
            assert_eq!(truth_of(&f, a, b), a && b);
        }
    }
}

#[test]
fn disjunction_is_or() {
    let f = two_letter(SecondaryFuncName::Disjunction);
    for a in [false, true] {
        for b in [false, true] {
            assert_eq!(truth_of(&f, a, b), a || b);
        }
    }
}

#[test]
fn implicature_is_material_conditional() {
    let f = two_letter(SecondaryFuncName::Implicature);
    for a in [false, true] {
        for b in [false, true] {
            assert_eq!(truth_of(&f, a, b), !(a && !b));
        }
    }
}

#[test]
fn equivalence_is_biconditional() {
    let f = two_letter(SecondaryFuncName::Equivalence);
    for a in [false, true] {
        for b in [false, true] {
            assert_eq!(truth_of(&f, a, b), a == b);
        }
    }
}

#[test]
fn constants_and_negation_evaluate() {
    let interp = Interpretation::new();
    assert!(Formula::True.evaluate(&interp).is_true());
    assert!(!Formula::False.evaluate(&interp).is_true());
    assert!(Formula::Negation(Box::new(Formula::False))
        .evaluate(&interp)
        .is_true());
}

#[test]
fn interpretation_replaces_bindings() {
    let mut interp = Interpretation::new();
    interp.insert('P', false);
    interp.insert('P', true);
    assert_eq!(interp.get('P'), Some(true));
    assert_eq!(interp.get('Q'), None);
}

#[test]
fn to_string_tf_annotates_each_token() {
    // P ∧ Q under P = true, Q = false: values T, F, F under the tokens.
    let f = Formula::SecondaryFunc {
        name: SecondaryFuncName::Conjunction,
        lhs: Box::new(Formula::Letter('P')),
        rhs: Box::new(Formula::Letter('Q')),
    };
    let mut interp = Interpretation::new();
    interp.insert('P', true);
    interp.insert('Q', false);
    assert_eq!(f.evaluate(&interp).to_string_tf(), String::from("T F F "));
}

#[test]
fn eval_render_shows_values_under_tokens() {
    let f = Formula::SecondaryFunc {
        name: SecondaryFuncName::Implicature,
        lhs: Box::new(Formula::Letter('P')),
        rhs: Box::new(Formula::Letter('Q')),
    };
    let mut interp = Interpretation::new();
    interp.insert('P', true);
    interp.insert('Q', false);
    assert_eq!(
        f.evaluate(&interp).render(),
        String::from("P → Q \nT F F ")
    );
}

#[test]
fn to_string_tf_leaves_brackets_blank() {
    // P ∧ (Q ∧ R) under all-true: brackets carry no truth value.
    let f = Formula::SecondaryFunc {
        name: SecondaryFuncName::Conjunction,
        lhs: Box::new(Formula::Letter('P')),
        rhs: Box::new(Formula::SecondaryFunc {
            name: SecondaryFuncName::Conjunction,
            lhs: Box::new(Formula::Letter('Q')),
            rhs: Box::new(Formula::Letter('R')),
        }),
    };
    let mut interp = Interpretation::new();
    interp.insert('P', true);
    interp.insert('Q', true);
    interp.insert('R', true);
    assert_eq!(
        f.evaluate(&interp).to_string_tf(),
        String::from("T T   T T T   ")
    );
}
