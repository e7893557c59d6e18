use prop_logic::alphabet::Alphabet;
use prop_logic::alphabet::SecondaryFuncName;
use prop_logic::formula::Formula;

#[test]
fn truth_table_of_implicature() {
    let f = Formula::SecondaryFunc {
        name: SecondaryFuncName::Implicature,
        lhs: Box::new(Formula::Letter('P')),
        rhs: Box::new(Formula::Letter('Q')),
    };
    let expected = "P Q | P → Q \n\
                    F F | F T F \n\
                    F T | F T T \n\
                    T F | T F F \n\
                    T T | T T T \n";
    assert_eq!(f.truth_value_table(), String::from(expected));
}

#[test]
fn truth_table_row_count_and_order() {
    // A formula with two distinct letters: one header line plus 2^2 rows,
    // the first all-false, the last all-true.
    let f = Formula::SecondaryFunc {
        name: SecondaryFuncName::Conjunction,
        lhs: Box::new(Formula::Letter('A')),
        rhs: Box::new(Formula::Letter('B')),
    };
    let table = f.truth_value_table();
    let lines: Vec<&str> = table.lines().collect();
    assert_eq!(lines.len(), 5);
    assert!(lines[1].starts_with("F F |"));
    assert!(lines[4].starts_with("T T |"));
}

#[test]
fn truth_table_merges_duplicate_letters() {
    // P ∧ P has one distinct letter: a header line and two rows.
    let f = Formula::SecondaryFunc {
        name: SecondaryFuncName::Conjunction,
        lhs: Box::new(Formula::Letter('P')),
        rhs: Box::new(Formula::Letter('P')),
    };
    let expected = "P | P ∧ P \n\
                    F | F F F \n\
                    T | T T T \n";
    assert_eq!(f.truth_value_table(), String::from(expected));
}

#[test]
fn truth_table_without_letters_has_one_row() {
    let expected = "| ⊤ \n| T \n";
    assert_eq!(Formula::True.truth_value_table(), String::from(expected));
}

#[test]
fn letters_are_sorted_and_distinct() {
    let f = Formula::SecondaryFunc {
        name: SecondaryFuncName::Disjunction,
        lhs: Box::new(Formula::SecondaryFunc {
            name: SecondaryFuncName::Conjunction,
            lhs: Box::new(Formula::Letter('Q')),
            rhs: Box::new(Formula::Letter('A')),
        }),
        rhs: Box::new(Formula::Negation(Box::new(Formula::Letter('Q')))),
    };
    assert_eq!(f.letters(), vec!['A', 'Q']);
}

#[test]
fn end_to_end_implicature_example() {
    let tokens = [
        Alphabet::Letter('P'),
        Alphabet::SecondaryFunc(SecondaryFuncName::Implicature),
        Alphabet::Letter('Q'),
    ];
    let f = Formula::parse(&tokens).unwrap();
    assert_eq!(f.render(), String::from("P → Q"));
    let table = f.truth_value_table();
    let lines: Vec<&str> = table.lines().collect();
    assert_eq!(lines.len(), 5);
    // Only the row with P true and Q false evaluates the formula to false:
    // the value under the connective is the formula's value.
    let value_at_connective = |line: &str| line.chars().nth(8).unwrap();
    assert_eq!(value_at_connective(lines[1]), 'T');
    assert_eq!(value_at_connective(lines[2]), 'T');
    assert_eq!(value_at_connective(lines[3]), 'F');
    assert_eq!(value_at_connective(lines[4]), 'T');
}
